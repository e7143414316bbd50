//! A linter for Open WebUI extensions (Tools, Pipe, Filter, Action and
//! Pipeline classes written in Python), verified with Verus: a line-based
//! analyzer of Python modules, the rule engine and its catalog, the YAML
//! configuration, report formats, and the logic of an editor language server.

pub mod text;
pub mod util;
pub mod glob;
pub mod models;
pub mod rules;
pub mod config;
pub mod analysis;
pub mod linter;
pub mod output;
pub mod cli;
pub mod server;
pub mod update;
