//! A registry of participants in a certification program.
//!
//! Participants register under their account by paying a deposit; a single
//! authority may later certify them, which earns them a reward. The crate
//! holds the rules and the state transitions only: who calls, what was paid,
//! and the payout itself are plain values that pass through its interface.

pub mod contract;
pub mod effects;
pub mod laws;
pub mod participante;
pub mod registry;
pub mod rules;

pub use contract::NcdContract;
pub use effects::{Certification, Notice, Transfer};
pub use participante::Participante;
pub use rules::{one_near, RegistryError};
