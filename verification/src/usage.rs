//! Token usage: attributing an agent's run to its own ledger, and showing what it spent.
pub mod display;
pub mod snapshot;
pub mod codex;
pub mod attribution;
pub mod home;
