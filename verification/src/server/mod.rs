//! The editor integration: positions, diagnostics, hovers, completions,
//! quick fixes and the state of open documents, all as plain values that a
//! language-server front end turns into protocol messages.

pub mod position;
pub mod diagnostics;
pub mod hover;
pub mod completions;
pub mod code_actions;
pub mod state;
pub mod events;
