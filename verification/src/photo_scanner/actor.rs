//! The decisions of the photo scanner: what a file-system event leads to, which
//! directory entries a rescan visits or collects, and how a rescan is tallied.
//! The event loop, the directory walk and the database work are the caller's.

use vstd::prelude::*;
use crate::log_watcher::fs_event::FsEvent;
use crate::path::{file_name_bounds, path_file_name};
use crate::text::chars_of;
use super::filename::{ci_matches_at, ci_starts_at};
use super::ingest::IngestOutcome;

verus! {

/// What handling one event came to.
#[derive(Debug, Clone, PartialEq, Eq)]
pub enum HandleOutcome {
    /// A changed path was ingested.
    Ingest(IngestOutcome),
    /// A removed path: photo rows are history and stay.
    Removed,
    /// The event queue overflowed; the caller rescans.
    OverflowAck,
}

/// Counts of a rescan.
#[derive(Debug, Clone, Copy, PartialEq, Eq)]
pub struct ReconcileOutcome {
    /// Image files found.
    pub considered: usize,
    /// Of those, files with a row.
    pub recorded: usize,
    /// Of those, files skipped.
    pub skipped: usize,
}

/// The next step for an event: ingest a path, or an outcome reached without one.
#[derive(Debug, Clone, PartialEq, Eq)]
pub enum PhotoEventStep {
    IngestPath(String),
    Done(HandleOutcome),
}

/// A changed path is ingested; a removal and an overflow need no work here.
pub fn photo_event_step(event: FsEvent) -> (r: PhotoEventStep)
    ensures
        match event {
            FsEvent::PathChanged(p) => r == PhotoEventStep::IngestPath(p),
            FsEvent::PathRemoved(_) => r == PhotoEventStep::Done(HandleOutcome::Removed),
            FsEvent::QueueOverflow => r == PhotoEventStep::Done(HandleOutcome::OverflowAck),
        },
{
    match event {
        FsEvent::PathChanged(p) => PhotoEventStep::IngestPath(p),
        FsEvent::PathRemoved(_) => PhotoEventStep::Done(HandleOutcome::Removed),
        FsEvent::QueueOverflow => PhotoEventStep::Done(HandleOutcome::OverflowAck),
    }
}

/// Index of the last `.` in `n`, if any.
pub open spec fn last_dot(n: Seq<char>) -> Option<int>
    decreases n.len(),
{
    if n.len() == 0 {
        None
    } else if n.last() == '.' {
        Some(n.len() - 1)
    } else {
        last_dot(n.drop_last())
    }
}

/// `Path::extension`: what follows the last `.` of the file name, unless that `.` is
/// the name's first character.
pub open spec fn path_extension(p: Seq<char>) -> Option<Seq<char>> {
    match path_file_name(p) {
        None => None,
        Some(n) => match last_dot(n) {
            Some(k) => if k == 0 {
                None
            } else {
                Some(n.subrange(k + 1, n.len() as int))
            },
            None => None,
        },
    }
}

/// `png`, `jpg` or `jpeg`, ignoring ASCII letter case.
pub open spec fn is_image_ext(e: Seq<char>) -> bool {
    ||| e.len() == 3 && (ci_starts_at(e, 0, "png"@) || ci_starts_at(e, 0, "jpg"@))
    ||| e.len() == 4 && ci_starts_at(e, 0, "jpeg"@)
}

/// `e` with `A`..`Z` lowered.
pub open spec fn lowered(e: Seq<char>) -> Seq<char> {
    e.map_values(|c: char| crate::paths::ascii_lower(c))
}

/// Matching a lower-case literal letter by letter, ignoring case, is matching it after
/// lowering.
proof fn lemma_ci_is_lowered(e: Seq<char>, lit: Seq<char>)
    requires
        forall|j: int| 0 <= j < lit.len() ==> 'a' <= #[trigger] lit[j] <= 'z',
    ensures
        (e.len() == lit.len() && ci_starts_at(e, 0, lit)) <==> lowered(e) == lit,
{
    if e.len() == lit.len() && ci_starts_at(e, 0, lit) {
        assert forall|j: int| 0 <= j < lit.len() implies lowered(e)[j] == lit[j] by {
            assert(super::filename::ci_char(e[0 + j], lit[j]));
            assert(e[0 + j] == e[j]);
        }
        assert(lowered(e) =~= lit);
    }
    if lowered(e) == lit {
        assert forall|j: int| 0 <= j < lit.len() implies super::filename::ci_char(#[trigger] e[0 + j], lit[j]) by {
            assert(lowered(e)[j] == lit[j]);
            assert(e[0 + j] == e[j]);
        }
    }
}

/// Law: the picture extensions are exactly `png`, `jpg` and `jpeg` in any ASCII letter
/// case: an extension counts exactly when, with `A`..`Z` lowered, it is one of the three.
pub proof fn lemma_image_extensions(e: Seq<char>)
    ensures
        is_image_ext(e) <==> (lowered(e) == "png"@ || lowered(e) == "jpg"@ || lowered(e) == "jpeg"@),
{
    reveal_strlit("png");
    reveal_strlit("jpg");
    reveal_strlit("jpeg");
    lemma_ci_is_lowered(e, "png"@);
    lemma_ci_is_lowered(e, "jpg"@);
    lemma_ci_is_lowered(e, "jpeg"@);
}

/// Law: a file `x.<e>` in any directory has the extension `e` (when `e` is not empty and
/// holds no `.` or separator), so with `e` one of `png`, `jpg`, `jpeg` in any case it is a
/// picture that rescans and the watcher collect.
pub proof fn lemma_image_path(dir: Seq<char>, e: Seq<char>)
    requires
        e.len() > 0,
        forall|j: int| 0 <= j < e.len() ==> #[trigger] e[j] != '.' && !crate::path::is_sep(e[j]),
    ensures
        path_extension(dir + seq!['/', 'x', '.'] + e) == Some(e),
        (lowered(e) == "png"@ || lowered(e) == "jpg"@ || lowered(e) == "jpeg"@) ==> (path_extension(
            dir + seq!['/', 'x', '.'] + e,
        ) matches Some(x) && is_image_ext(x)),
{
    let p = dir + seq!['/', 'x', '.'] + e;
    let n = p.len() as int;
    let st = dir.len() as int + 1;
    assert(p[n - 1] == e[e.len() - 1]);
    crate::path::lemma_seg_start(p, n);
    let s0 = crate::path::seg_start(p, n);
    assert forall|j: int| st <= j < n implies !crate::path::is_sep(#[trigger] p[j]) by {
        if j >= st + 2 {
            assert(p[j] == e[j - st - 2]);
        }
    }
    assert(crate::path::is_sep(p[dir.len() as int]));
    assert(s0 == st);
    let name = p.subrange(st, n);
    assert(name =~= seq!['x', '.'] + e);
    assert(crate::path::path_file_name(p) == Some(name));
    assert forall|j: int| 1 < j < name.len() implies name[j] != '.' by {
        assert(name[j] == e[j - 2]);
    }
    lemma_last_dot_at(name, 1);
    assert(name.subrange(2, name.len() as int) =~= e);
    lemma_image_extensions(e);
}

proof fn lemma_last_dot(n: Seq<char>)
    ensures
        match last_dot(n) {
            Some(k) => 0 <= k < n.len() && n[k] == '.' && forall|j: int| k < j < n.len() ==> n[j] != '.',
            None => forall|j: int| 0 <= j < n.len() ==> n[j] != '.',
        },
    decreases n.len(),
{
    if n.len() > 0 && n.last() != '.' {
        lemma_last_dot(n.drop_last());
        assert forall|j: int| 0 <= j < n.len() - 1 implies n[j] == n.drop_last()[j] by {}
    }
}

proof fn lemma_last_dot_at(n: Seq<char>, k: int)
    requires
        0 <= k < n.len(),
        n[k] == '.',
        forall|j: int| k < j < n.len() ==> n[j] != '.',
    ensures
        last_dot(n) == Some(k),
    decreases n.len(),
{
    if k < n.len() - 1 {
        let d = n.drop_last();
        assert forall|j: int| k < j < d.len() implies d[j] != '.' by {
            assert(d[j] == n[j]);
        }
        lemma_last_dot_at(d, k);
    }
}

proof fn lemma_no_dot(n: Seq<char>)
    requires
        forall|j: int| 0 <= j < n.len() ==> n[j] != '.',
    ensures
        last_dot(n) is None,
    decreases n.len(),
{
    if n.len() > 0 {
        let d = n.drop_last();
        assert forall|j: int| 0 <= j < d.len() implies d[j] != '.' by {
            assert(d[j] == n[j]);
        }
        lemma_no_dot(d);
    }
}

/// The extension of the file name `p[a..b]`: what follows its last `.`, unless that `.`
/// is its first character.
pub(crate) fn extension_chars(p: &[char], a: usize, b: usize) -> (r: Option<Vec<char>>)
    requires
        a < b <= p@.len(),
    ensures
        match r {
            Some(e) => match last_dot(p@.subrange(a as int, b as int)) {
                Some(k) => k != 0 && e@ == p@.subrange(a as int, b as int).subrange(k + 1, (b - a) as int),
                None => false,
            },
            None => match last_dot(p@.subrange(a as int, b as int)) {
                Some(k) => k == 0,
                None => true,
            },
        },
{
    let ghost n = p@.subrange(a as int, b as int);
    let mut k = b;
    while k > a && p[k - 1] != '.'
        invariant
            a <= k <= b <= p@.len(),
            forall|j: int| k <= j < b ==> p@[j] != '.',
        decreases k,
    {
        k = k - 1;
    }
    if k == a {
        proof {
            assert forall|j: int| 0 <= j < n.len() implies n[j] != '.' by {
                assert(n[j] == p@[a + j]);
            }
            lemma_no_dot(n);
        }
        return None;
    }
    proof {
        assert(n[k - 1 - a] == '.');
        assert forall|j: int| k - 1 - a < j < n.len() implies n[j] != '.' by {
            assert(n[j] == p@[a + j]);
        }
        lemma_last_dot_at(n, k - 1 - a);
    }
    if k - 1 == a {
        return None;
    }
    let e = slice_to(p, k, b);
    proof {
        assert(e@ =~= n.subrange(k - a, n.len() as int));
    }
    Some(e)
}

/// The path's extension is `png`, `jpg` or `jpeg`, in any letter case.
pub fn has_image_extension(path: &str) -> (r: bool)
    ensures
        r == (path_extension(path@) matches Some(e) && is_image_ext(e)),
{
    let p = chars_of(path);
    let (a, b) = match file_name_bounds(p.as_slice()) {
        Some(bounds) => bounds,
        None => return false,
    };
    match extension_chars(p.as_slice(), a, b) {
        None => false,
        Some(e) => {
            let el = e.len();
            (el == 3 && (ci_matches_at(e.as_slice(), 0, "png") || ci_matches_at(e.as_slice(), 0, "jpg")))
                || (el == 4 && ci_matches_at(e.as_slice(), 0, "jpeg"))
        },
    }
}

fn slice_to(s: &[char], a: usize, b: usize) -> (r: Vec<char>)
    requires
        a <= b <= s@.len(),
    ensures
        r@ == s@.subrange(a as int, b as int),
{
    let mut r: Vec<char> = Vec::new();
    let mut i = a;
    while i < b
        invariant
            a <= i <= b <= s@.len(),
            r@ == s@.subrange(a as int, i as int),
        decreases b - i,
    {
        r.push(s[i]);
        i = i + 1;
        assert(r@ =~= s@.subrange(a as int, i as int));
    }
    r
}

/// What a rescan does with the entry at `path`, whose type is `(is_dir, is_file)` when it
/// could be read.
pub open spec fn scan_entry_spec(path: Seq<char>, file_type: Option<(bool, bool)>) -> ScanEntry {
    if path_file_name(path) matches Some(n) && n.len() > 0 && n[0] == '.' {
        ScanEntry::Ignore
    } else {
        match file_type {
            None => ScanEntry::Ignore,
            Some((is_dir, is_file)) => if is_dir {
                ScanEntry::Descend
            } else if is_file && (path_extension(path) matches Some(e) && is_image_ext(e)) {
                ScanEntry::Collect
            } else {
                ScanEntry::Ignore
            },
        }
    }
}

/// Law: a rescan collects every regular file `x.png`, `x.jpg` or `x.jpeg` (any letter
/// case) wherever it lies, walks into every directory whose name does not start with `.`,
/// and never collects a file whose extension is none of the three.
pub proof fn lemma_rescan_collects_pictures(dir: Seq<char>, e: Seq<char>, d: Seq<char>)
    requires
        e.len() > 0,
        forall|j: int| 0 <= j < e.len() ==> #[trigger] e[j] != '.' && !crate::path::is_sep(e[j]),
        d.len() > 0,
        d[0] != '.',
        forall|j: int| 0 <= j < d.len() ==> !crate::path::is_sep(#[trigger] d[j]),
    ensures
        (lowered(e) == "png"@ || lowered(e) == "jpg"@ || lowered(e) == "jpeg"@) <==> scan_entry_spec(
            dir + seq!['/', 'x', '.'] + e,
            Some((false, true)),
        ) == ScanEntry::Collect,
        scan_entry_spec(dir + seq!['/'] + d, Some((true, false))) == ScanEntry::Descend,
{
    let p = dir + seq!['/', 'x', '.'] + e;
    let dl = dir.len() as int;
    lemma_image_path(dir, e);
    lemma_image_extensions(e);
    let n = p.len() as int;
    crate::path::lemma_seg_start(p, n);
    assert forall|j: int| dl + 1 <= j < n implies !crate::path::is_sep(#[trigger] p[j]) by {
        if j >= dl + 3 {
            assert(p[j] == e[j - dir.len() - 3]);
        }
    }
    assert(crate::path::is_sep(p[dl]));
    assert(crate::path::path_file_name(p) == Some(p.subrange(dl + 1, n)));
    assert(p[dl + 1] == 'x');
    let q = dir + seq!['/'] + d;
    let m = q.len() as int;
    crate::path::lemma_seg_start(q, m);
    assert forall|j: int| dl + 1 <= j < m implies !crate::path::is_sep(#[trigger] q[j]) by {
        assert(q[j] == d[j - dir.len() - 1]);
    }
    assert(crate::path::is_sep(q[dl]));
    assert(q[m - 1] == d[d.len() - 1]);
    if d.len() == 1 {
        assert(q[dl + 1] == d[0]);
    }
    if d.len() == 2 {
        assert(q[dl + 1] == d[0]);
    }
    assert(crate::path::path_file_name(q) == Some(q.subrange(dl + 1, m)));
    assert(q.subrange(dl + 1, m)[0] == d[0]);
}

/// What a rescan does with one directory entry.
#[derive(Debug, Clone, Copy, PartialEq, Eq)]
pub enum ScanEntry {
    /// A hidden entry (name starting with `.`) or one that is neither a picture nor a directory.
    Ignore,
    /// A directory to walk into.
    Descend,
    /// A picture file to ingest.
    Collect,
}

/// Hidden entries are passed over; directories are walked, regular files with a picture
/// extension collected. `file_type` is `None` when the entry's type could not be read.
pub fn scan_entry_action(path: &str, file_type: Option<(bool, bool)>) -> (r: ScanEntry)
    ensures
        r == scan_entry_spec(path@, file_type),
{
    let p = chars_of(path);
    match file_name_bounds(p.as_slice()) {
        Some((a, _)) => {
            if p[a] == '.' {
                return ScanEntry::Ignore;
            }
        },
        None => {},
    }
    match file_type {
        None => ScanEntry::Ignore,
        Some((is_dir, is_file)) => {
            if is_dir {
                ScanEntry::Descend
            } else if is_file && has_image_extension(path) {
                ScanEntry::Collect
            } else {
                ScanEntry::Ignore
            }
        },
    }
}

pub open spec fn count_recorded(o: Seq<IngestOutcome>) -> nat
    decreases o.len(),
{
    if o.len() == 0 {
        0
    } else {
        count_recorded(o.drop_last()) + if o.last() is Recorded {
            1nat
        } else {
            0nat
        }
    }
}

/// Tallies the outcomes of a rescan of `outcomes.len()` picture files.
pub fn tally_reconcile(outcomes: &[IngestOutcome]) -> (r: ReconcileOutcome)
    ensures
        r.considered == outcomes@.len(),
        r.recorded == count_recorded(outcomes@),
        r.skipped == outcomes@.len() - count_recorded(outcomes@),
{
    let mut recorded: usize = 0;
    let mut i: usize = 0;
    while i < outcomes.len()
        invariant
            i <= outcomes@.len(),
            recorded == count_recorded(outcomes@.take(i as int)),
            recorded <= i,
        decreases outcomes@.len() - i,
    {
        assert(outcomes@.take(i + 1).drop_last() =~= outcomes@.take(i as int));
        match &outcomes[i] {
            IngestOutcome::Recorded { .. } => {
                recorded = recorded + 1;
            },
            IngestOutcome::Skipped(_) => {},
        }
        i = i + 1;
    }
    assert(outcomes@.take(outcomes@.len() as int) =~= outcomes@);
    ReconcileOutcome { considered: outcomes.len(), recorded, skipped: outcomes.len() - recorded }
}

} // verus!
