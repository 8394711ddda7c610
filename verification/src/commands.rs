//! The argument records of the operations the orchestrator invokes.
use vstd::prelude::*;
use crate::edit::EditCommand;

verus! {

/// Arguments of a shell execution request.
pub struct BashCommandArgs {
    /// The command to run, if any.
    pub command: Option<String>,
    /// Whether to restart the session instead of running a command.
    pub restart: Option<bool>,
}

/// Arguments of a text-editing request.
pub struct EditCommandArgs {
    /// The operation to perform.
    pub command: EditCommand,
    /// The absolute path operated on.
    pub path: String,
    /// Content of the file to create.
    pub file_text: Option<String>,
    /// The 1-based inclusive line range to view.
    pub view_range: Option<Vec<i32>>,
    /// The string to replace.
    pub old_str: Option<String>,
    /// The replacement, or the text to insert.
    pub new_str: Option<String>,
    /// The line position to insert after.
    pub insert_line: Option<i32>,
}

} // verus!
