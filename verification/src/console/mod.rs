//! The console: configuration variables, the line being edited, its history, the lines printed,
//! and the grammar of console commands.

pub mod cmdline;
pub mod cvars;
pub mod input;
pub mod line_endings;
pub mod parse;
pub mod shell;
pub mod tokenizer;

use vstd::prelude::*;

verus! {

/// An error of the console.
#[derive(Debug, PartialEq, Eq)]
pub enum ConsoleError {
    /// A command failed, with its message.
    CmdError(String),
    /// A variable's value is not a number.
    CvarParseFailed { name: String, value: String },
    /// A command with this name is already registered.
    DuplicateCommand(String),
    /// A variable with this name is already registered.
    DuplicateCvar(String),
    /// No command has this name.
    NoSuchCommand(String),
    /// No variable has this name.
    NoSuchCvar(String),
}

/// The kind of an error of the console, with the names it concerns.
#[derive(Clone, Debug, PartialEq, Eq)]
pub enum ConsoleErrorKind {
    /// A variable's value is not a number.
    CvarParseFailed { name: String, value: String },
    /// A command with this name is already registered.
    DuplicateCommand { name: String },
    /// A variable with this name is already registered.
    DuplicateCvar { name: String },
    /// No command has this name.
    NoSuchCommand { name: String },
    /// No variable has this name.
    NoSuchCvar { name: String },
}

} // verus!
