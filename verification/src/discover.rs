//! Input discovery: what to do with each path met while the inputs are
//! resolved to files.

use vstd::prelude::*;

verus! {

/// What a path turned out to be.
#[derive(Debug, Clone, Copy, PartialEq, Eq, Structural)]
pub enum EntryKind {
    File,
    Directory,
    /// Neither, or it could not be looked at.
    Other,
}

/// What to do with a path.
#[derive(Debug, Clone, Copy, PartialEq, Eq, Structural)]
pub enum EntryAction {
    /// Take it as an input file.
    Collect,
    /// Look at what it holds.
    Expand,
    /// Pass it over.
    Skip,
}

/// The rule of discovery: a file is collected wherever it is met; a
/// directory named by the user is always expanded, one met inside another
/// only when recursion was asked for; anything else is passed over.
pub open spec fn action_for(kind: EntryKind, nested: bool, recursive: bool) -> EntryAction {
    match kind {
        EntryKind::File => EntryAction::Collect,
        EntryKind::Directory => if !nested || recursive {
            EntryAction::Expand
        } else {
            EntryAction::Skip
        },
        EntryKind::Other => EntryAction::Skip,
    }
}

/// Decides what to do with a path.  `nested` says that it was met inside a
/// directory rather than named by the user.
pub fn entry_action(kind: EntryKind, nested: bool, recursive: bool) -> (action: EntryAction)
    ensures
        action == action_for(kind, nested, recursive),
{
    match kind {
        EntryKind::File => EntryAction::Collect,
        EntryKind::Directory => {
            if !nested || recursive {
                EntryAction::Expand
            } else {
                EntryAction::Skip
            }
        },
        EntryKind::Other => EntryAction::Skip,
    }
}

} // verus!
