//! Minimal file-system events seen in a watched directory.

use vstd::prelude::*;

verus! {

/// A change in a watched directory; paths are held as text.
#[derive(Debug, Clone, PartialEq, Eq)]
pub enum FsEvent {
    /// A file appeared or changed; its current state must be probed again.
    PathChanged(String),
    /// A path disappeared (renamed or deleted).
    PathRemoved(String),
    /// Events were lost; a full rescan is needed.
    QueueOverflow,
}

/// The kinds of change a file-system watcher reports, as far as they matter here.
#[derive(Debug, Clone, Copy, PartialEq, Eq)]
pub enum ChangeKind {
    Create,
    Modify,
    Remove,
    /// Access and any other kind: ignored.
    Other,
}

/// The events for one watcher notification about `paths`: each created or modified path
/// changed, each removed path removed, nothing for other kinds.
pub fn fs_events_for(kind: ChangeKind, paths: Vec<String>) -> (r: Vec<FsEvent>)
    ensures
        kind is Other ==> r@.len() == 0,
        !(kind is Other) ==> r@.len() == paths@.len(),
        !(kind is Other) ==> forall|i: int|
            0 <= i < r@.len() ==> #[trigger] r@[i] == if kind is Remove {
                FsEvent::PathRemoved(paths@[i])
            } else {
                FsEvent::PathChanged(paths@[i])
            },
{
    let mut out: Vec<FsEvent> = Vec::new();
    let remove = match kind {
        ChangeKind::Other => return out,
        ChangeKind::Remove => true,
        _ => false,
    };
    let mut rest = paths;
    let ghost all = rest@;
    let mut i: usize = 0;
    let n = rest.len();
    while i < n
        invariant
            n == all.len(),
            i <= n,
            rest@ == all.skip(i as int),
            out@.len() == i,
            forall|k: int|
                0 <= k < i ==> #[trigger] out@[k] == if remove {
                    FsEvent::PathRemoved(all[k])
                } else {
                    FsEvent::PathChanged(all[k])
                },
        decreases n - i,
    {
        let p = rest.remove(0);
        assert(p == all[i as int]);
        assert(rest@ =~= all.skip(i + 1));
        if remove {
            out.push(FsEvent::PathRemoved(p));
        } else {
            out.push(FsEvent::PathChanged(p));
        }
        i = i + 1;
    }
    out
}

} // verus!
