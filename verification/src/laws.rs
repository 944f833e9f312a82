//! What holds of the registry whatever its state and whatever is asked of it.
//!
//! Each law is stated over the mathematical registry of [`crate::registry`],
//! which the contracts of [`crate::contract::NcdContract`] tie the running
//! code to.

use vstd::prelude::*;
use crate::effects::{Notice, Outcome, Payout};
use crate::participante::Record;
use crate::registry::Registry;
use crate::rules::{admission, RegistryError, MIN_NAME_CHARS, ONE_NEAR, REWARD};

verus! {

/// Registration and certification keep a valid registry valid: at most one
/// record per account, each stored under its own account, with a positive
/// age and a name of three characters or more. Neither changes who the
/// authority is.
pub proof fn law_validity_is_kept(
    s: Registry,
    nombre: Seq<char>,
    edad: u64,
    cuenta: Seq<char>,
    deposito: u128,
    caller: Seq<char>,
)
    requires
        s.valid(),
    ensures
        Registry::empty(s.authority).valid(),
        s.after_register(nombre, edad, cuenta, deposito).valid(),
        s.after_certify(cuenta, caller).valid(),
        s.after_register(nombre, edad, cuenta, deposito).authority == s.authority,
        s.after_certify(cuenta, caller).authority == s.authority,
{
    if admission(nombre, edad, deposito) is Ok {
        lemma_with_record_valid(s, Record::fresh(cuenta, nombre, edad));
    }
    if s.entries.contains_key(cuenta) {
        lemma_with_record_valid(s, s.entries[cuenta].certified());
    }
}

/// Storing a record under its own account keeps a valid registry valid.
proof fn lemma_with_record_valid(s: Registry, record: Record)
    requires
        s.valid(),
        record.admissible(),
    ensures
        s.with_record(record).valid(),
{
    let t = s.with_record(record);
    let k = record.cuenta;
    if !s.entries.contains_key(k) {
        assert(!s.order.contains(k));
        assert forall|i: int, j: int|
            0 <= i < t.order.len() && 0 <= j < t.order.len() && i != j implies t.order[i]
            != t.order[j] by {
            if i < s.order.len() {
                assert(s.order.contains(s.order[i]));
            }
            if j < s.order.len() {
                assert(s.order.contains(s.order[j]));
            }
        }
    }
    assert forall|a: Seq<char>| t.entries.contains_key(a) <==> t.order.contains(a) by {
        if t.order.contains(a) {
            let i = choose|i: int| 0 <= i < t.order.len() && t.order[i] == a;
            if i < s.order.len() {
                assert(s.order.contains(a));
            }
        }
        if t.entries.contains_key(a) {
            if a == k && !s.entries.contains_key(k) {
                assert(t.order[s.order.len() as int] == a);
            } else {
                assert(s.order.contains(a));
                let i = choose|i: int| 0 <= i < s.order.len() && s.order[i] == a;
                assert(t.order[i] == a);
            }
        }
    }
}

/// A registration that meets the rules succeeds, and a lookup of the same
/// account then returns exactly the name and age submitted, not certified.
pub proof fn law_registered_is_found(
    s: Registry,
    nombre: Seq<char>,
    edad: u64,
    cuenta: Seq<char>,
    deposito: u128,
)
    requires
        edad > 0,
        nombre.len() >= MIN_NAME_CHARS,
        deposito >= ONE_NEAR,
    ensures
        Registry::register_outcome(nombre, edad, deposito) == Ok::<Notice, RegistryError>(
            Notice::Registered,
        ),
        s.after_register(nombre, edad, cuenta, deposito).lookup(cuenta) == Some(
            Record { cuenta, nombre, edad, certificado: false },
        ),
{
}

/// A registration touches no account but the caller's.
pub proof fn law_registration_is_local(
    s: Registry,
    nombre: Seq<char>,
    edad: u64,
    cuenta: Seq<char>,
    deposito: u128,
    other: Seq<char>,
)
    requires
        other != cuenta,
    ensures
        s.after_register(nombre, edad, cuenta, deposito).lookup(other) == s.lookup(other),
{
}

/// Registering twice under one account leaves the registry as if only the
/// second registration had been made: the first record is gone.
pub proof fn law_second_registration_replaces(
    s: Registry,
    cuenta: Seq<char>,
    nombre1: Seq<char>,
    edad1: u64,
    deposito1: u128,
    nombre2: Seq<char>,
    edad2: u64,
    deposito2: u128,
)
    requires
        Registry::register_outcome(nombre1, edad1, deposito1) is Ok,
        Registry::register_outcome(nombre2, edad2, deposito2) is Ok,
    ensures
        ({
            let once = s.after_register(nombre2, edad2, cuenta, deposito2);
            let twice = s.after_register(nombre1, edad1, cuenta, deposito1).after_register(
                nombre2,
                edad2,
                cuenta,
                deposito2,
            );
            &&& twice == once
            &&& twice.lookup(cuenta) == Some(Record::fresh(cuenta, nombre2, edad2))
        }),
{
    let first = Record::fresh(cuenta, nombre1, edad1);
    let second = Record::fresh(cuenta, nombre2, edad2);
    let once = s.with_record(second);
    let twice = s.with_record(first).with_record(second);
    assert(twice.entries =~= once.entries);
    assert(twice.order =~= once.order);
}

/// An age of zero is turned down as invalid whatever the name and the
/// deposit, and the registry stays as it was.
pub proof fn law_zero_age_is_rejected(
    s: Registry,
    nombre: Seq<char>,
    cuenta: Seq<char>,
    deposito: u128,
)
    ensures
        Registry::register_outcome(nombre, 0, deposito) == Err::<Notice, RegistryError>(
            RegistryError::InvalidAge,
        ),
        s.after_register(nombre, 0, cuenta, deposito) == s,
{
}

/// With a positive age, a name of fewer than three characters is turned down
/// as invalid whatever the deposit, and the registry stays as it was.
pub proof fn law_short_name_is_rejected(
    s: Registry,
    nombre: Seq<char>,
    edad: u64,
    cuenta: Seq<char>,
    deposito: u128,
)
    requires
        edad > 0,
        nombre.len() < MIN_NAME_CHARS,
    ensures
        Registry::register_outcome(nombre, edad, deposito) == Err::<Notice, RegistryError>(
            RegistryError::InvalidName,
        ),
        s.after_register(nombre, edad, cuenta, deposito) == s,
{
}

/// With a positive age and a name of three characters or more, a deposit
/// below one NEAR is turned down as insufficient, and the registry stays as
/// it was.
pub proof fn law_underpayment_is_rejected(
    s: Registry,
    nombre: Seq<char>,
    edad: u64,
    cuenta: Seq<char>,
    deposito: u128,
)
    requires
        edad > 0,
        nombre.len() >= MIN_NAME_CHARS,
        deposito < ONE_NEAR,
    ensures
        Registry::register_outcome(nombre, edad, deposito) == Err::<Notice, RegistryError>(
            RegistryError::InsufficientPayment,
        ),
        s.after_register(nombre, edad, cuenta, deposito) == s,
{
}

/// A certification asked for by anyone but the authority is turned down as
/// unauthorized and changes nothing, whether or not the account is registered.
pub proof fn law_certification_needs_authority(s: Registry, cuenta: Seq<char>, caller: Seq<char>)
    requires
        caller != s.authority,
    ensures
        s.certify_outcome(cuenta, caller) == Err::<Outcome, RegistryError>(
            RegistryError::Unauthorized,
        ),
        s.after_certify(cuenta, caller) == s,
{
}

/// A certification of a registered account by the authority answers `true`
/// and asks for one payout, of the reward, to that account. Afterwards the
/// record is certified and otherwise as before, and nothing else has changed.
pub proof fn law_certification_of_registered(s: Registry, cuenta: Seq<char>)
    requires
        s.valid(),
        s.entries.contains_key(cuenta),
    ensures
        s.certify_outcome(cuenta, s.authority) == Ok::<Outcome, RegistryError>(
            Outcome {
                certified: true,
                reward: Some(Payout { to: cuenta, amount: REWARD }),
                notice: Notice::Certified,
            },
        ),
        s.after_certify(cuenta, s.authority) == (Registry {
            entries: s.entries.insert(
                cuenta,
                Record { certificado: true, ..s.entries[cuenta] },
            ),
            ..s
        }),
        s.after_certify(cuenta, s.authority).lookup(cuenta) == Some(
            Record { certificado: true, ..s.entries[cuenta] },
        ),
{
    let t = s.after_certify(cuenta, s.authority);
    assert(s.entries[cuenta].cuenta == cuenta);
    assert(t.entries =~= s.entries.insert(
        cuenta,
        Record { certificado: true, ..s.entries[cuenta] },
    ));
}

/// A certification of an account that is not registered, by the authority,
/// answers `false`, asks for no payout and changes nothing: no record is made.
pub proof fn law_certification_of_unregistered(s: Registry, cuenta: Seq<char>)
    requires
        !s.entries.contains_key(cuenta),
    ensures
        s.certify_outcome(cuenta, s.authority) == Ok::<Outcome, RegistryError>(
            Outcome { certified: false, reward: None, notice: Notice::NotFound },
        ),
        s.after_certify(cuenta, s.authority) == s,
{
}

/// No certification, of any account and by any caller, takes a certificate
/// away: a record that is certified stays exactly as it is.
pub proof fn law_certificate_is_kept(
    s: Registry,
    cuenta: Seq<char>,
    other: Seq<char>,
    caller: Seq<char>,
)
    requires
        s.valid(),
        s.entries.contains_key(cuenta),
        s.entries[cuenta].certificado,
    ensures
        s.after_certify(other, caller).lookup(cuenta) == s.lookup(cuenta),
{
    if other == cuenta {
        assert(s.entries[cuenta].certified() == s.entries[cuenta]);
        assert(s.entries[cuenta].cuenta == cuenta);
    } else if s.entries.contains_key(other) {
        assert(s.entries[other].cuenta == other);
    }
}

/// The listing holds exactly the registered records, each once: an account
/// is listed if and only if it is registered, what is listed for it is what a
/// lookup returns, and no account is listed twice.
pub proof fn law_listing_is_the_registry(s: Registry)
    requires
        s.valid(),
    ensures
        s.listing().len() == s.order.len(),
        forall|i: int|
            0 <= i < s.listing().len() ==> s.lookup((#[trigger] s.listing()[i]).cuenta) == Some(
                s.listing()[i],
            ),
        forall|k: Seq<char>|
            s.entries.contains_key(k) <==> exists|i: int|
                0 <= i < s.listing().len() && (#[trigger] s.listing()[i]).cuenta == k,
        forall|i: int, j: int|
            0 <= i < j < s.listing().len() ==> (#[trigger] s.listing()[i]).cuenta != (
            #[trigger] s.listing()[j]).cuenta,
        s.listing().map_values(|r: Record| r.cuenta).to_set() == s.entries.dom(),
{
    let l = s.listing();
    assert forall|i: int| 0 <= i < l.len() implies s.entries.contains_key(s.order[i]) && (
    #[trigger] l[i]).cuenta == s.order[i] by {
        assert(s.order.contains(s.order[i]));
    }
    assert forall|k: Seq<char>| s.entries.contains_key(k) implies exists|i: int|
        0 <= i < l.len() && (#[trigger] l[i]).cuenta == k by {
        assert(s.order.contains(k));
        let i = choose|i: int| 0 <= i < s.order.len() && s.order[i] == k;
        assert(l[i].cuenta == k);
    }
    let accounts = l.map_values(|r: Record| r.cuenta);
    assert(accounts =~= s.order);
    assert forall|k: Seq<char>| accounts.to_set().contains(k) <==> s.entries.dom().contains(k) by {
        assert(accounts.to_set().contains(k) <==> accounts.contains(k));
    }
    assert(accounts.to_set() =~= s.entries.dom());
}

/// Storing a record never reorders the listing: the record of a new account
/// is listed last, and the record of a registered account takes the place of
/// the one it replaces.
pub proof fn law_listing_keeps_its_order(s: Registry, record: Record)
    requires
        s.valid(),
    ensures
        !s.entries.contains_key(record.cuenta) ==> s.with_record(record).listing()
            == s.listing().push(record),
        s.entries.contains_key(record.cuenta) ==> s.with_record(record).listing()
            == s.listing().update(s.order.index_of(record.cuenta), record),
{
    let t = s.with_record(record);
    let k = record.cuenta;
    if s.entries.contains_key(k) {
        assert(s.order.contains(k));
        let at = s.order.index_of(k);
        assert(0 <= at < s.order.len() && s.order[at] == k);
        assert forall|i: int| 0 <= i < s.order.len() implies #[trigger] t.listing()[i]
            == s.listing().update(at, record)[i] by {
            assert(s.order.contains(s.order[i]));
            if i != at {
                assert(s.order[i] != s.order[at]);
            }
        }
        assert(t.listing() =~= s.listing().update(at, record));
    } else {
        assert forall|i: int| 0 <= i < s.order.len() implies #[trigger] t.listing()[i]
            == s.listing()[i] by {
            assert(s.order.contains(s.order[i]));
        }
        assert(t.listing() =~= s.listing().push(record));
    }
}

/// After two accepted registrations, by `first` and then by `second`, both
/// accounts are registered and listed, and the listing holds the accounts that
/// were registered before and these two, no others.
pub proof fn law_two_registrations_are_listed(
    s: Registry,
    first: Seq<char>,
    nombre1: Seq<char>,
    edad1: u64,
    deposito1: u128,
    second: Seq<char>,
    nombre2: Seq<char>,
    edad2: u64,
    deposito2: u128,
)
    requires
        s.valid(),
        Registry::register_outcome(nombre1, edad1, deposito1) is Ok,
        Registry::register_outcome(nombre2, edad2, deposito2) is Ok,
    ensures
        ({
            let t = s.after_register(nombre1, edad1, first, deposito1).after_register(
                nombre2,
                edad2,
                second,
                deposito2,
            );
            &&& t.valid()
            &&& t.entries.dom() == s.entries.dom().insert(first).insert(second)
            &&& t.listing().map_values(|r: Record| r.cuenta).to_set() == s.entries.dom().insert(
                first,
            ).insert(second)
            &&& t.lookup(second) == Some(Record::fresh(second, nombre2, edad2))
            &&& first != second ==> t.lookup(first) == Some(Record::fresh(first, nombre1, edad1))
        }),
{
    let mid = s.after_register(nombre1, edad1, first, deposito1);
    let t = mid.after_register(nombre2, edad2, second, deposito2);
    lemma_with_record_valid(s, Record::fresh(first, nombre1, edad1));
    lemma_with_record_valid(mid, Record::fresh(second, nombre2, edad2));
    law_listing_is_the_registry(t);
    assert(t.entries.dom() =~= s.entries.dom().insert(first).insert(second));
}

} // verus!
