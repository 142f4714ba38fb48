use vstd::prelude::*;

verus! {

/// Marker for the file-change notification mechanism backed by the operating
/// system's file-system watcher. Watching a path is I/O and is performed by
/// the surrounding program; the supervisor core only decides what to do with
/// the change notifications that the watcher produces, so this type carries
/// no state of its own.
#[derive(Clone, Copy, PartialEq, Eq, Structural, Debug)]
pub struct NotifyFileWatcher;

impl NotifyFileWatcher {
    /// Creates the watcher marker.
    pub fn new() -> (w: NotifyFileWatcher)
        ensures
            w == (NotifyFileWatcher {}),
    {
        NotifyFileWatcher {}
    }
}

} // verus!
