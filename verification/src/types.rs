//! What every component shares: the error taxonomy and the unit of mutation.

pub mod action;

pub use crate::types::action::Action;
pub use crate::types::action::ActionError;
pub use crate::types::action::ErrorKind;
