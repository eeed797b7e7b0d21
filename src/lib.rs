//! Order-preserving configuration merge and rewrite engines for the settings files of
//! a code assistant, a terminal agent and an editor extension.
//!
//! - `value`: the document tree and ordered association lists (lookup, filter, merge).
//! - `formats`: reading and writing JSON and TOML through serde_json and toml.
//! - `normalize`: comment and trailing-comma removal for JSON-with-comments text.
//! - `claude_config`, `codex_config`: structural updates of the assistant's and the
//!   agent's files, with managed members first and every other member kept in order.
//! - `vscode`: line-level patching of the editor's settings that keeps comments.
//! - `safe_write`: the write-then-rename plan and the backup-once ledger.
//! - `commands`: input validation in front of the engines.

use vstd::prelude::*;

pub mod claude_config;
pub mod codex_config;
pub mod commands;
pub mod error;
pub mod formats;
pub mod lines;
pub mod normalize;
pub mod safe_write;
pub mod settings;
pub mod text;
pub mod value;
pub mod vscode;

verus! {

} // verus!
