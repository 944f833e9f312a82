//! The registry held in memory: the records in a vector, in the order in which
//! their accounts first registered, no account twice.

use vstd::prelude::*;
use crate::effects::{Certification, Notice, Outcome};
use crate::participante::Participante;
use crate::registry::Registry;
use crate::rules::{
    check_authorization,
    decide_certification,
    decide_registration,
    default_authority,
    default_authority_account,
    RegistryError,
};

verus! {

/// No two records are held for the same account.
spec fn distinct(v: Seq<Participante>) -> bool {
    forall|i: int, j: int| 0 <= i < j < v.len() ==> v[i].cuenta@ != v[j].cuenta@
}

/// Every record held is one that the rules accept.
spec fn admitted(v: Seq<Participante>) -> bool {
    forall|i: int| 0 <= i < v.len() ==> (#[trigger] v[i])@.admissible()
}

/// Some record is held for the account.
spec fn holds(v: Seq<Participante>, cuenta: Seq<char>) -> bool {
    exists|i: int| 0 <= i < v.len() && #[trigger] v[i].cuenta@ == cuenta
}

/// Where the record of the account is held.
spec fn place(v: Seq<Participante>, cuenta: Seq<char>) -> int {
    choose|i: int| 0 <= i < v.len() && #[trigger] v[i].cuenta@ == cuenta
}

/// The registry that a vector of records stands for.
spec fn registry_of(authority: Seq<char>, v: Seq<Participante>) -> Registry {
    Registry {
        authority,
        entries: Map::new(|k: Seq<char>| holds(v, k), |k: Seq<char>| v[place(v, k)]@),
        order: Seq::new(v.len(), |i: int| v[i].cuenta@),
    }
}

/// Among distinct records, the place of a record's account is where the
/// record is.
proof fn lemma_place(v: Seq<Participante>, i: int)
    requires
        distinct(v),
        0 <= i < v.len(),
    ensures
        holds(v, v[i].cuenta@),
        place(v, v[i].cuenta@) == i,
{
    let k = v[i].cuenta@;
    assert(holds(v, k));
    let j = place(v, k);
    assert(0 <= j < v.len() && v[j].cuenta@ == k);
    if j < i {
        assert(v[j].cuenta@ != v[i].cuenta@);
    } else if i < j {
        assert(v[i].cuenta@ != v[j].cuenta@);
    }
}

/// Distinct records that the rules accept stand for a valid registry.
proof fn lemma_registry_valid(authority: Seq<char>, v: Seq<Participante>)
    requires
        distinct(v),
        admitted(v),
    ensures
        registry_of(authority, v).valid(),
{
    let r = registry_of(authority, v);
    assert forall|i: int, j: int|
        0 <= i < r.order.len() && 0 <= j < r.order.len() && i != j implies r.order[i]
        != r.order[j] by {
        if i < j {
            assert(v[i].cuenta@ != v[j].cuenta@);
        } else {
            assert(v[j].cuenta@ != v[i].cuenta@);
        }
    }
    assert forall|k: Seq<char>| r.entries.contains_key(k) <==> r.order.contains(k) by {
        if r.entries.contains_key(k) {
            let i = place(v, k);
            assert(r.order[i] == k);
        }
        if r.order.contains(k) {
            let i = choose|i: int| 0 <= i < r.order.len() && r.order[i] == k;
            assert(v[i].cuenta@ == k);
        }
    }
    assert forall|k: Seq<char>| r.entries.contains_key(k) implies (#[trigger] r.entries[k]).cuenta
        == k && r.entries[k].admissible() by {
        let i = place(v, k);
        assert(v[i]@.admissible());
    }
}

/// Appending the record of an account not yet held stores it as a new entry.
proof fn lemma_append(authority: Seq<char>, v: Seq<Participante>, p: Participante)
    requires
        distinct(v),
        admitted(v),
        !holds(v, p.cuenta@),
        p@.admissible(),
    ensures
        distinct(v.push(p)),
        admitted(v.push(p)),
        registry_of(authority, v.push(p)) == registry_of(authority, v).with_record(p@),
{
    let w = v.push(p);
    let n = v.len() as int;
    assert forall|i: int, j: int| 0 <= i < j < w.len() implies w[i].cuenta@ != w[j].cuenta@ by {
        if j < n {
            assert(v[i].cuenta@ != v[j].cuenta@);
        } else {
            assert(w[i] == v[i]);
            if v[i].cuenta@ == p.cuenta@ {
                assert(holds(v, p.cuenta@));
            }
        }
    }
    let a = registry_of(authority, w);
    let b = registry_of(authority, v).with_record(p@);
    assert forall|k: Seq<char>| a.entries.contains_key(k) <==> b.entries.contains_key(k) by {
        if holds(w, k) {
            let i = place(w, k);
            if i < n {
                assert(v[i].cuenta@ == k);
            }
        }
        if holds(v, k) {
            let i = place(v, k);
            assert(w[i].cuenta@ == k);
        }
        if k == p.cuenta@ {
            assert(w[n].cuenta@ == k);
        }
    }
    assert forall|k: Seq<char>| a.entries.contains_key(k) implies a.entries[k] == b.entries[k] by {
        let i = place(w, k);
        lemma_place(w, i);
        if i < n {
            assert(w[i] == v[i]);
            lemma_place(v, i);
        }
    }
    assert(a.entries =~= b.entries);
    assert(a.order =~= b.order);
}

/// Replacing the record of an account by another of the same account changes
/// that entry alone and leaves the order as it is.
proof fn lemma_replace(authority: Seq<char>, v: Seq<Participante>, at: int, p: Participante)
    requires
        distinct(v),
        admitted(v),
        0 <= at < v.len(),
        v[at].cuenta@ == p.cuenta@,
        p@.admissible(),
    ensures
        distinct(v.update(at, p)),
        admitted(v.update(at, p)),
        registry_of(authority, v.update(at, p)) == registry_of(authority, v).with_record(p@),
{
    let w = v.update(at, p);
    assert forall|i: int, j: int| 0 <= i < j < w.len() implies w[i].cuenta@ != w[j].cuenta@ by {
        assert(v[i].cuenta@ != v[j].cuenta@);
    }
    let a = registry_of(authority, w);
    let b = registry_of(authority, v).with_record(p@);
    lemma_place(v, at);
    assert forall|k: Seq<char>| a.entries.contains_key(k) <==> b.entries.contains_key(k) by {
        if holds(w, k) {
            let i = place(w, k);
            assert(v[i].cuenta@ == k);
        }
        if holds(v, k) {
            let i = place(v, k);
            assert(w[i].cuenta@ == k);
        }
    }
    assert forall|k: Seq<char>| a.entries.contains_key(k) implies a.entries[k] == b.entries[k] by {
        let i = place(w, k);
        lemma_place(w, i);
        if i != at {
            assert(w[i] == v[i]);
            lemma_place(v, i);
        }
    }
    assert(a.entries =~= b.entries);
    assert(a.order =~= b.order);
}

/// The registry of participants.
pub struct NcdContract {
    autoridad: String,
    participantes: Vec<Participante>,
}

impl View for NcdContract {
    type V = Registry;

    closed spec fn view(&self) -> Registry {
        registry_of(self.autoridad@, self.participantes@)
    }
}

impl NcdContract {
    #[verifier::type_invariant]
    spec fn well_formed(self) -> bool {
        distinct(self.participantes@) && admitted(self.participantes@)
    }

    /// An empty registry in which `autoridad` is the account that may certify.
    pub fn with_authority(autoridad: String) -> (contract: Self)
        ensures
            contract@ == Registry::empty(autoridad@),
            contract@.valid(),
    {
        let contract = NcdContract { autoridad, participantes: Vec::new() };
        proof {
            lemma_registry_valid(contract.autoridad@, contract.participantes@);
            assert(contract@.entries =~= Map::empty());
            assert(contract@.order =~= Seq::empty());
        }
        contract
    }

    /// Finds the record held for an account.
    fn position(&self, cuenta: &String) -> (found: Option<usize>)
        ensures
            match found {
                Some(i) => i < self.participantes@.len() && self.participantes@[i as int].cuenta@
                    == cuenta@,
                None => !holds(self.participantes@, cuenta@),
            },
    {
        let mut i: usize = 0;
        while i < self.participantes.len()
            invariant
                i <= self.participantes@.len(),
                forall|j: int| 0 <= j < i ==> self.participantes@[j].cuenta@ != cuenta@,
            decreases self.participantes@.len() - i,
        {
            if self.participantes[i].cuenta == *cuenta {
                return Some(i);
            }
            i += 1;
        }
        None
    }

    /// Puts a record where `position` found its account, or at the end if it
    /// found none.
    fn store(&mut self, found: Option<usize>, participante: Participante)
        requires
            participante@.admissible(),
            match found {
                Some(i) => i < old(self).participantes@.len() && old(
                    self,
                ).participantes@[i as int].cuenta@ == participante.cuenta@,
                None => !holds(old(self).participantes@, participante.cuenta@),
            },
        ensures
            final(self)@ == old(self)@.with_record(participante@),
            final(self)@.valid(),
    {
        proof {
            use_type_invariant(&*self);
        }
        // The vector is worked on outside the registry, which is empty meanwhile.
        let mut held: Vec<Participante> = Vec::new();
        core::mem::swap(&mut held, &mut self.participantes);
        match found {
            Some(i) => {
                proof {
                    lemma_replace(self.autoridad@, held@, i as int, participante);
                }
                held[i] = participante;
            },
            None => {
                proof {
                    lemma_append(self.autoridad@, held@, participante);
                }
                held.push(participante);
            },
        }
        proof {
            lemma_registry_valid(self.autoridad@, held@);
        }
        core::mem::swap(&mut held, &mut self.participantes);
    }

    /// Registers the account `cuenta` under the name and age given, for the
    /// deposit attached to the call.
    ///
    /// The request is turned down, and nothing changes, if the age is zero,
    /// else if the name has fewer than three characters, else if the deposit
    /// is less than one NEAR. Otherwise a fresh, uncertified record replaces
    /// whatever was stored for the account.
    pub fn set_participante(
        &mut self,
        nombre: String,
        edad: u64,
        cuenta: String,
        deposito: u128,
    ) -> (result: Result<Notice, RegistryError>)
        ensures
            result == Registry::register_outcome(nombre@, edad, deposito),
            final(self)@ == old(self)@.after_register(nombre@, edad, cuenta@, deposito),
            final(self)@.valid(),
    {
        proof {
            use_type_invariant(&*self);
            lemma_registry_valid(self.autoridad@, self.participantes@);
        }
        match decide_registration(nombre, edad, cuenta, deposito) {
            Err(e) => Err(e),
            Ok((participante, notice)) => {
                let found = self.position(&participante.cuenta);
                self.store(found, participante);
                Ok(notice)
            },
        }
    }

    /// A copy of the record registered under `cuenta`, if there is one.
    pub fn get_participante(&self, cuenta: String) -> (found: Option<Participante>)
        ensures
            self@.valid(),
            match found {
                Some(p) => self@.lookup(cuenta@) == Some(p@),
                None => self@.lookup(cuenta@) is None,
            },
    {
        proof {
            use_type_invariant(self);
            lemma_registry_valid(self.autoridad@, self.participantes@);
        }
        match self.position(&cuenta) {
            Some(i) => {
                proof {
                    lemma_place(self.participantes@, i as int);
                }
                Some(self.participantes[i].clone())
            },
            None => None,
        }
    }

    /// Copies of all records, in the order in which their accounts first
    /// registered.
    pub fn get_participantes(&self) -> (all: Vec<Participante>)
        ensures
            self@.valid(),
            all@.len() == self@.listing().len(),
            forall|i: int| 0 <= i < all@.len() ==> (#[trigger] all@[i])@ == self@.listing()[i],
    {
        proof {
            use_type_invariant(self);
            lemma_registry_valid(self.autoridad@, self.participantes@);
        }
        let mut all: Vec<Participante> = Vec::new();
        let mut i: usize = 0;
        while i < self.participantes.len()
            invariant
                i <= self.participantes@.len(),
                all@.len() == i,
                forall|j: int| 0 <= j < i ==> all@[j] == self.participantes@[j],
            decreases self.participantes@.len() - i,
        {
            all.push(self.participantes[i].clone());
            i += 1;
        }
        proof {
            assert forall|j: int| 0 <= j < all@.len() implies (#[trigger] all@[j])@
                == self@.listing()[j] by {
                lemma_place(self.participantes@, j);
            }
        }
        all
    }

    /// Certifies the participant registered under `cuenta`, on behalf of
    /// `caller`.
    ///
    /// Only the authority may certify: any other caller is turned down and
    /// nothing changes. If the account is registered, its record is marked
    /// certified and the answer asks for the reward to be paid to it; if not,
    /// nothing changes and the answer says so.
    pub fn set_certificado(&mut self, cuenta: String, caller: String) -> (result: Result<
        Certification,
        RegistryError,
    >)
        ensures
            match result {
                Ok(c) => old(self)@.certify_outcome(cuenta@, caller@) == Ok::<
                    Outcome,
                    RegistryError,
                >(c@),
                Err(e) => old(self)@.certify_outcome(cuenta@, caller@) == Err::<
                    Outcome,
                    RegistryError,
                >(e),
            },
            final(self)@ == old(self)@.after_certify(cuenta@, caller@),
            final(self)@.valid(),
    {
        proof {
            use_type_invariant(&*self);
            lemma_registry_valid(self.autoridad@, self.participantes@);
        }
        match check_authorization(&caller, &self.autoridad) {
            Err(e) => Err(e),
            Ok(_) => match self.position(&cuenta) {
                Some(i) => {
                    let stored = self.participantes[i].clone();
                    proof {
                        lemma_place(self.participantes@, i as int);
                    }
                    let (updated, certification) = decide_certification(Some(stored));
                    if let Some(participante) = updated {
                        self.store(Some(i), participante);
                    }
                    Ok(certification)
                },
                None => Ok(decide_certification(None).1),
            },
        }
    }
}

impl Default for NcdContract {
    /// An empty registry in which the default authority may certify.
    fn default() -> (contract: Self)
        ensures
            contract@ == Registry::empty(default_authority()),
            contract@.valid(),
    {
        NcdContract::with_authority(default_authority_account())
    }
}

} // verus!
