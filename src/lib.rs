//! An interpreter for a small line-oriented command language that a language
//! model writes to edit a project and run shell commands, and the turn logic
//! that feeds the results back to the model.
//!
//! - `parser`: one line of text to one command, and a script to its commands.
//! - `lines`: a file held as numbered lines, with edit, insert and delete.
//! - `tree`: a filtered in-memory snapshot of a project directory.
//! - `executor`: which work each command asks for, and the run record of a batch.
//! - `agent`: feedback for the model, and the conversation from turn to turn.
//! - `model`: configuration and the prompts a run starts from.
//! - `text`: decimal rendering and substring search.

pub mod agent;
pub mod executor;
pub mod lines;
pub mod model;
pub mod parser;
pub mod text;
pub mod tree;
