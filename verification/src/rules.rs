//! The admission and authorization policy: the amounts, the limits and the
//! order in which a request is checked.

use vstd::prelude::*;
use vstd::string::StrSliceExecFns;
use crate::effects::{Certification, Notice, Outcome};
use crate::participante::{Participante, Record};

verus! {

/// One NEAR, counted in yoctoNEAR: the deposit that a registration costs.
pub const ONE_NEAR: u128 = 1_000_000_000_000_000_000_000_000;

/// Five NEAR, counted in yoctoNEAR: what a participant earns on certification.
pub const REWARD: u128 = 5_000_000_000_000_000_000_000_000;

/// The fewest characters (Unicode scalar values) that a name may have.
pub const MIN_NAME_CHARS: usize = 3;

/// Why a call was turned down. A call that is turned down changes nothing.
#[derive(Clone, Copy, Debug, PartialEq, Eq, Structural)]
pub enum RegistryError {
    /// The age is zero.
    InvalidAge,
    /// The name has fewer than three characters.
    InvalidName,
    /// Less than the deposit was attached to the registration.
    InsufficientPayment,
    /// The caller is not the certifying authority.
    Unauthorized,
}

impl RegistryError {
    /// The sentence that explains the rejection to the caller.
    pub open spec fn text(self) -> Seq<char> {
        match self {
            RegistryError::InvalidAge => "Edad inválida."@,
            RegistryError::InvalidName => "El nombre debe contener 3 o más caractéres."@,
            RegistryError::InsufficientPayment => "Debes de pagar 1 NEAR para registrarte."@,
            RegistryError::Unauthorized => "No tienes permisos para ejecutar este comando."@,
        }
    }

    /// The sentence of `text`, for the caller to show.
    pub fn message(&self) -> (m: &'static str)
        ensures
            m@ == self.text(),
    {
        match self {
            RegistryError::InvalidAge => "Edad inválida.",
            RegistryError::InvalidName => "El nombre debe contener 3 o más caractéres.",
            RegistryError::InsufficientPayment => "Debes de pagar 1 NEAR para registrarte.",
            RegistryError::Unauthorized => "No tienes permisos para ejecutar este comando.",
        }
    }
}

/// The deposit that a registration costs.
pub fn one_near() -> (amount: u128)
    ensures
        amount == ONE_NEAR,
{
    ONE_NEAR
}

/// The account that alone may certify, unless a registry is set up with another.
pub open spec fn default_authority() -> Seq<char> {
    "aklassen.testnet"@
}

/// The default authority's account.
pub fn default_authority_account() -> (account: String)
    ensures
        account@ == default_authority(),
{
    "aklassen.testnet".to_owned()
}

/// Whether a registration is admitted. The age is looked at first, then the
/// name, then the deposit; the first failure decides.
pub open spec fn admission(nombre: Seq<char>, edad: u64, deposito: u128) -> Result<
    (),
    RegistryError,
> {
    if edad == 0 {
        Err(RegistryError::InvalidAge)
    } else if nombre.len() < MIN_NAME_CHARS {
        Err(RegistryError::InvalidName)
    } else if deposito < ONE_NEAR {
        Err(RegistryError::InsufficientPayment)
    } else {
        Ok(())
    }
}

/// Checks a registration against the rules of `admission`.
pub fn check_admission(nombre: &str, edad: u64, deposito: u128) -> (verdict: Result<
    (),
    RegistryError,
>)
    ensures
        verdict == admission(nombre@, edad, deposito),
{
    if edad == 0 {
        Err(RegistryError::InvalidAge)
    } else if nombre.unicode_len() < MIN_NAME_CHARS {
        Err(RegistryError::InvalidName)
    } else if deposito < ONE_NEAR {
        Err(RegistryError::InsufficientPayment)
    } else {
        Ok(())
    }
}

/// Whether a caller may certify under the given authority: only the authority
/// itself may.
pub open spec fn authorization(caller: Seq<char>, authority: Seq<char>) -> Result<
    (),
    RegistryError,
> {
    if caller == authority {
        Ok(())
    } else {
        Err(RegistryError::Unauthorized)
    }
}

/// Checks a caller against the rule of `authorization`.
pub fn check_authorization(caller: &String, authority: &String) -> (verdict: Result<
    (),
    RegistryError,
>)
    ensures
        verdict == authorization(caller@, authority@),
{
    if *caller == *authority {
        Ok(())
    } else {
        Err(RegistryError::Unauthorized)
    }
}

/// Decides a registration by the account `cuenta`: the record to store under
/// that account and the event to log, or the reason why nothing is stored.
pub fn decide_registration(
    nombre: String,
    edad: u64,
    cuenta: String,
    deposito: u128,
) -> (decision: Result<(Participante, Notice), RegistryError>)
    ensures
        match decision {
            Ok((record, notice)) => {
                &&& admission(nombre@, edad, deposito) is Ok
                &&& record@ == Record::fresh(cuenta@, nombre@, edad)
                &&& notice == Notice::Registered
            },
            Err(e) => admission(nombre@, edad, deposito) == Err::<(), RegistryError>(e),
        },
{
    match check_admission(nombre.as_str(), edad, deposito) {
        Err(e) => Err(e),
        Ok(_) => Ok((Participante::new(cuenta, nombre, edad), Notice::Registered)),
    }
}

/// Decides a certification that the authority asked for, given what is stored
/// for the account: the record to store back, if any, and the answer. A stored
/// record comes back certified, with the reward owed to its account; where
/// nothing is stored, nothing is to be stored and nothing is owed.
pub fn decide_certification(stored: Option<Participante>) -> (decision: (
    Option<Participante>,
    Certification,
))
    ensures
        match stored {
            Some(p) => {
                &&& decision.0 matches Some(q)
                &&& q@ == p@.certified()
                &&& decision.1@ == Outcome::granted(p@.cuenta)
            },
            None => decision.0 is None && decision.1@ == Outcome::not_found(),
        },
{
    match stored {
        Some(mut participante) => {
            let reward = participante.certify();
            (
                Some(participante),
                Certification { certified: true, reward: Some(reward), notice: Notice::Certified },
            )
        },
        None => (None, Certification { certified: false, reward: None, notice: Notice::NotFound }),
    }
}

} // verus!
