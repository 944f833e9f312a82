//! The record kept for one registered account.

use vstd::prelude::*;
use crate::effects::{Payout, Transfer};
use crate::rules::{MIN_NAME_CHARS, REWARD};

verus! {

/// What a participant record says, as mathematical values.
pub struct Record {
    pub cuenta: Seq<char>,
    pub nombre: Seq<char>,
    pub edad: u64,
    pub certificado: bool,
}

impl Record {
    /// The record of an account that has just registered: not yet certified.
    pub open spec fn fresh(cuenta: Seq<char>, nombre: Seq<char>, edad: u64) -> Record {
        Record { cuenta, nombre, edad, certificado: false }
    }

    /// What the rules ask of every record that is stored: a positive age and
    /// a name of three characters or more.
    pub open spec fn admissible(self) -> bool {
        self.edad > 0 && self.nombre.len() >= MIN_NAME_CHARS
    }

    /// The same record with the certification flag raised.
    pub open spec fn certified(self) -> Record {
        Record { certificado: true, ..self }
    }
}

/// One entry of the registry.
#[derive(Debug)]
pub struct Participante {
    pub cuenta: String,
    pub nombre: String,
    pub edad: u64,
    pub certificado: bool,
}

impl View for Participante {
    type V = Record;

    open spec fn view(&self) -> Record {
        Record {
            cuenta: self.cuenta@,
            nombre: self.nombre@,
            edad: self.edad,
            certificado: self.certificado,
        }
    }
}

impl Participante {
    /// Builds the record of a newly registered account.
    pub fn new(cuenta: String, nombre: String, edad: u64) -> (p: Self)
        ensures
            p@ == Record::fresh(cuenta@, nombre@, edad),
    {
        Self { cuenta, nombre, edad, certificado: false }
    }

    /// Marks the participant certified and says what the host owes it for
    /// that: the reward, paid to its account.
    pub fn certify(&mut self) -> (reward: Transfer)
        ensures
            final(self)@ == old(self)@.certified(),
            reward@ == Payout::reward(old(self)@.cuenta),
    {
        self.certificado = true;
        Transfer { to: self.cuenta.clone(), amount: REWARD }
    }
}

impl Default for Participante {
    /// The blank record: empty account and name, age zero, not certified.
    fn default() -> (p: Self)
        ensures
            p@ == Record::fresh(Seq::empty(), Seq::empty(), 0),
    {
        Participante { cuenta: String::new(), nombre: String::new(), edad: 0, certificado: false }
    }
}

impl Clone for Participante {
    fn clone(&self) -> (p: Self)
        ensures
            p == *self,
    {
        Participante {
            cuenta: self.cuenta.clone(),
            nombre: self.nombre.clone(),
            edad: self.edad,
            certificado: self.certificado,
        }
    }
}

} // verus!
