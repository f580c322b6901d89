//! Core of a shell-extension execution protocol: a typed value model, command
//! signatures with input/output and parameter declarations, validation of a
//! concrete call against a signature, a command registry with dispatch, and
//! structured span-located errors.

pub mod call;
pub mod command;
pub mod dispatch;
pub mod error;
pub mod registry;
pub mod signature;
pub mod span;
pub mod value;
pub mod wire;
