//! What a call asks of the host: a line for the log, and on certification a
//! payout. The registry decides them; carrying them out is the host's part.

use vstd::prelude::*;
use crate::rules::REWARD;

verus! {

/// An event that the host is to write to its log.
#[derive(Clone, Copy, Debug, PartialEq, Eq, Structural)]
pub enum Notice {
    /// A registration was stored.
    Registered,
    /// A participant was certified and is owed the reward.
    Certified,
    /// Certification found nobody registered under the account.
    NotFound,
}

impl Notice {
    /// The line to be logged.
    pub open spec fn text(self) -> Seq<char> {
        match self {
            Notice::Registered => "Registro creado exitosamente."@,
            Notice::Certified => "Participante certificado. El participante ha recibido su recompensa de 5 NEAR."@,
            Notice::NotFound => "Participante no encontrado."@,
        }
    }

    pub fn message(&self) -> (m: &'static str)
        ensures
            m@ == self.text(),
    {
        match self {
            Notice::Registered => "Registro creado exitosamente.",
            Notice::Certified => "Participante certificado. El participante ha recibido su recompensa de 5 NEAR.",
            Notice::NotFound => "Participante no encontrado.",
        }
    }
}

/// A payment request, as mathematical values.
pub struct Payout {
    pub to: Seq<char>,
    pub amount: u128,
}

impl Payout {
    /// The reward owed to a newly certified account.
    pub open spec fn reward(cuenta: Seq<char>) -> Payout {
        Payout { to: cuenta, amount: REWARD }
    }
}

/// A request to pay `amount` yoctoNEAR to the account `to`.
#[derive(Debug)]
pub struct Transfer {
    pub to: String,
    pub amount: u128,
}

impl View for Transfer {
    type V = Payout;

    open spec fn view(&self) -> Payout {
        Payout { to: self.to@, amount: self.amount }
    }
}

/// How a certification ended, as mathematical values.
pub struct Outcome {
    pub certified: bool,
    pub reward: Option<Payout>,
    pub notice: Notice,
}

impl Outcome {
    /// The account was registered: it is certified and owed the reward.
    pub open spec fn granted(cuenta: Seq<char>) -> Outcome {
        Outcome {
            certified: true,
            reward: Some(Payout::reward(cuenta)),
            notice: Notice::Certified,
        }
    }

    /// Nobody is registered under the account: nothing is paid.
    pub open spec fn not_found() -> Outcome {
        Outcome { certified: false, reward: None, notice: Notice::NotFound }
    }
}

/// How a certification by the authority ended.
#[derive(Debug)]
pub struct Certification {
    /// Whether a participant was found and certified.
    pub certified: bool,
    /// The payout that the host owes, if any.
    pub reward: Option<Transfer>,
    /// The event to log.
    pub notice: Notice,
}

impl View for Certification {
    type V = Outcome;

    open spec fn view(&self) -> Outcome {
        Outcome {
            certified: self.certified,
            reward: match self.reward {
                Some(t) => Some(t@),
                None => None,
            },
            notice: self.notice,
        }
    }
}

} // verus!
