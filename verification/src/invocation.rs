//! What one invocation of the tool is asked to do.

use crate::structure::Tag;
use vstd::prelude::*;

verus! {

/// A shell that the tool can be hooked into.
#[derive(Debug, Clone, Copy, PartialEq, Eq)]
pub enum Shell {
    Bash,
    Fish,
}

/// An operation on the recording session.
#[derive(Debug)]
pub enum RecordAction {
    /// Record what is written in an editor under this tag.
    Interactive { tag: Tag },
    /// Open a session for this tag.
    Start { tag: Tag },
    /// Append this command to the open session.
    Add { command: String },
    /// Close the open session and store it.
    Stop,
    /// Drop the open session.
    Abort,
}

/// The operation of one invocation.
#[derive(Debug)]
pub enum ParrotCommand {
    /// Work on the recording session.
    Record(RecordAction),
    /// List what is stored.
    List,
    /// Replay the recording under this tag, or one chosen on the spot.
    Replay { tag: Option<Tag> },
    /// Write out the integration script for this shell.
    Init { shell: Shell },
}

impl ParrotCommand {
    /// Whether the store is saved after this operation: after the recording
    /// operations, which may change it, and after no other.
    pub fn needs_save(&self) -> (save: bool)
        ensures
            save == (self is Record),
    {
        match self {
            ParrotCommand::Record(_) => true,
            _ => false,
        }
    }
}

/// The editor to run: the configured one, and `vim` where none is configured.
pub fn editor_or_default(configured: Option<String>) -> (editor: String)
    ensures
        editor@ == match configured {
            Some(name) => name@,
            None => "vim"@,
        },
{
    match configured {
        Some(name) => name,
        None => "vim".to_owned(),
    }
}

} // verus!
