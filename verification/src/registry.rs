//! The registry as a mathematical object: a finite map from accounts to
//! records, the order in which the accounts first registered, and the account
//! that may certify. The operations are total functions on it.

use vstd::prelude::*;
use crate::effects::{Notice, Outcome};
use crate::participante::Record;
use crate::rules::{admission, authorization, RegistryError};

verus! {

#[verifier::ext_equal]
pub struct Registry {
    /// The only account that may certify.
    pub authority: Seq<char>,
    /// The record stored under each registered account.
    pub entries: Map<Seq<char>, Record>,
    /// The registered accounts, earliest first registration first.
    pub order: Seq<Seq<char>>,
}

impl Registry {
    /// The registry before anyone has registered.
    pub open spec fn empty(authority: Seq<char>) -> Registry {
        Registry { authority, entries: Map::empty(), order: Seq::empty() }
    }

    /// Every registered account is listed exactly once, and every record is
    /// stored under its own account and is one that the rules accept.
    pub open spec fn valid(self) -> bool {
        &&& self.order.no_duplicates()
        &&& forall|k: Seq<char>| self.entries.contains_key(k) <==> self.order.contains(k)
        &&& forall|k: Seq<char>|
            self.entries.contains_key(k) ==> (#[trigger] self.entries[k]).cuenta == k
                && self.entries[k].admissible()
    }

    /// The record registered under an account, if there is one.
    pub open spec fn lookup(self, cuenta: Seq<char>) -> Option<Record> {
        if self.entries.contains_key(cuenta) {
            Some(self.entries[cuenta])
        } else {
            None
        }
    }

    /// All records, in the order of `order`.
    pub open spec fn listing(self) -> Seq<Record> {
        Seq::new(self.order.len(), |i: int| self.entries[self.order[i]])
    }

    /// The registry with `record` stored under its account. A record already
    /// there is replaced and keeps its place in the order; a new account goes
    /// to the end.
    pub open spec fn with_record(self, record: Record) -> Registry {
        Registry {
            authority: self.authority,
            entries: self.entries.insert(record.cuenta, record),
            order: if self.entries.contains_key(record.cuenta) {
                self.order
            } else {
                self.order.push(record.cuenta)
            },
        }
    }

    /// What a registration answers: the event to log, or the rejection.
    pub open spec fn register_outcome(nombre: Seq<char>, edad: u64, deposito: u128) -> Result<
        Notice,
        RegistryError,
    > {
        match admission(nombre, edad, deposito) {
            Ok(_) => Ok(Notice::Registered),
            Err(e) => Err(e),
        }
    }

    /// The registry after a registration by `cuenta`: with the new,
    /// uncertified record if the request is admitted, unchanged if not.
    pub open spec fn after_register(
        self,
        nombre: Seq<char>,
        edad: u64,
        cuenta: Seq<char>,
        deposito: u128,
    ) -> Registry {
        if admission(nombre, edad, deposito) is Ok {
            self.with_record(Record::fresh(cuenta, nombre, edad))
        } else {
            self
        }
    }

    /// What a certification of `cuenta` asked for by `caller` answers.
    pub open spec fn certify_outcome(self, cuenta: Seq<char>, caller: Seq<char>) -> Result<
        Outcome,
        RegistryError,
    > {
        match authorization(caller, self.authority) {
            Err(e) => Err(e),
            Ok(_) => if self.entries.contains_key(cuenta) {
                Ok(Outcome::granted(cuenta))
            } else {
                Ok(Outcome::not_found())
            },
        }
    }

    /// The registry after a certification of `cuenta` asked for by `caller`:
    /// the record's flag is raised if the caller is the authority and the
    /// account is registered; otherwise nothing changes.
    pub open spec fn after_certify(self, cuenta: Seq<char>, caller: Seq<char>) -> Registry {
        if authorization(caller, self.authority) is Ok && self.entries.contains_key(cuenta) {
            self.with_record(self.entries[cuenta].certified())
        } else {
            self
        }
    }
}

} // verus!
