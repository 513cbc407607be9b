//! Change notifications: which events of the file system concern the
//! caches, and which file an event is about.

use vstd::prelude::*;

verus! {

/// The kind of a file system event.
#[derive(PartialEq, Eq, Clone, Copy, Debug, Structural)]
pub enum ChangeKind {
    Create,
    Modify,
    Remove,
    Access,
    Other,
}

/// Whether an event of this kind can change what a file holds: a file was
/// made or a file was changed.
pub open spec fn concerns_content(kind: ChangeKind) -> bool {
    kind == ChangeKind::Create || kind == ChangeKind::Modify
}

/// The file that an event of kind `kind` with the paths `paths` reports as
/// changed: the first path of an event that concerns content, if the event
/// has a path and that path is one that can be written as text. A path that
/// cannot stands in `paths` as `None`.
pub open spec fn reported(kind: ChangeKind, paths: Seq<Option<String>>) -> Option<Seq<char>> {
    if concerns_content(kind) && paths.len() > 0 && paths[0] is Some {
        Some(paths[0]->0@)
    } else {
        None
    }
}

/// The file that an event reports as changed, if it reports one.
pub fn changed_path(kind: ChangeKind, paths: &[Option<String>]) -> (path: Option<String>)
    ensures
        match path {
            Some(p) => reported(kind, paths@) == Some(p@),
            None => reported(kind, paths@) is None,
        },
{
    match kind {
        ChangeKind::Create | ChangeKind::Modify => {
            if paths.len() > 0 {
                match &paths[0] {
                    Some(p) => Some(p.clone()),
                    None => None,
                }
            } else {
                None
            }
        },
        _ => None,
    }
}

} // verus!
