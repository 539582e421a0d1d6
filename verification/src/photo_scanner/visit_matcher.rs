//! Finds the world visit during which a photo was taken.
//!
//! The visits come sorted by `joined_utc`. A visit covers the half-open
//! interval `[joined_utc, left_utc)`; one with no `left_utc` is still going on
//! and covers every instant from `joined_utc` on. The candidate is the visit
//! that started last at or before the photo; the photo belongs to it when the
//! candidate still covered that instant.

use vstd::prelude::*;
use crate::time::naive::UtcTime;
use crate::time::resolve::{utc_before, utc_lt};

verus! {

/// The times of one `world_visits` row.
#[derive(Debug, Clone, Copy, PartialEq, Eq)]
pub struct WorldVisitTimeRange {
    pub id: i64,
    pub joined_utc: UtcTime,
    /// `None` while the visit is still going on.
    pub left_utc: Option<UtcTime>,
}

/// `visits` are in non-decreasing order of `joined_utc`.
pub open spec fn sorted_by_joined(visits: Seq<WorldVisitTimeRange>) -> bool {
    forall|i: int, j: int|
        0 <= i <= j < visits.len() ==> !utc_lt(
            #[trigger] visits[j].joined_utc,
            #[trigger] visits[i].joined_utc,
        )
}

/// The visit covers instant `t`: `joined_utc <= t < left_utc`.
pub open spec fn covers(w: WorldVisitTimeRange, t: UtcTime) -> bool {
    !utc_lt(t, w.joined_utc) && match w.left_utc {
        Some(l) => utc_lt(t, l),
        None => true,
    }
}

/// One past the index of the last visit that started at or before `t` (0 when none did).
pub open spec fn started_through(visits: Seq<WorldVisitTimeRange>, t: UtcTime) -> nat
    decreases visits.len(),
{
    if visits.len() == 0 {
        0
    } else if utc_lt(t, visits.last().joined_utc) {
        started_through(visits.drop_last(), t)
    } else {
        visits.len()
    }
}

/// The id of the visit the photo taken at `t` belongs to.
pub open spec fn match_spec(visits: Seq<WorldVisitTimeRange>, t: UtcTime) -> Option<i64> {
    let c = started_through(visits, t);
    if c == 0 {
        None
    } else if covers(visits[c - 1], t) {
        Some(visits[c - 1].id)
    } else {
        None
    }
}

/// On sorted visits, `started_through` splits them into those that started at or before
/// `t` and those that start after it.
pub proof fn lemma_started_through(visits: Seq<WorldVisitTimeRange>, t: UtcTime)
    requires
        sorted_by_joined(visits),
    ensures
        started_through(visits, t) <= visits.len(),
        forall|i: int| 0 <= i < started_through(visits, t) ==> !utc_lt(t, #[trigger] visits[i].joined_utc),
        forall|i: int| started_through(visits, t) <= i < visits.len() ==> utc_lt(t, #[trigger] visits[i].joined_utc),
    decreases visits.len(),
{
    if visits.len() > 0 {
        let p = visits.drop_last();
        assert(sorted_by_joined(p)) by {
            assert forall|i: int, j: int| 0 <= i <= j < p.len() implies !utc_lt(
                #[trigger] p[j].joined_utc,
                #[trigger] p[i].joined_utc,
            ) by {
                assert(p[i] == visits[i] && p[j] == visits[j]);
            }
        }
        lemma_started_through(p, t);
        if !utc_lt(t, visits.last().joined_utc) {
            assert forall|i: int| 0 <= i < visits.len() implies !utc_lt(t, #[trigger] visits[i].joined_utc) by {
                assert(!utc_lt(visits[visits.len() - 1].joined_utc, visits[i].joined_utc));
            }
        } else {
            assert forall|i: int| started_through(visits, t) <= i < visits.len() implies utc_lt(t, #[trigger] visits[i].joined_utc) by {
                if i < visits.len() - 1 {
                    assert(p[i] == visits[i]);
                }
            }
            assert forall|i: int| 0 <= i < started_through(visits, t) implies !utc_lt(t, #[trigger] visits[i].joined_utc) by {
                assert(p[i] == visits[i]);
            }
        }
    }
}

/// On sorted visits, the split point is unique: any `c` with the visits before it started
/// at or before `t` and those from it on starting after `t` is `started_through`.
proof fn lemma_started_through_unique(visits: Seq<WorldVisitTimeRange>, t: UtcTime, c: int)
    requires
        0 <= c <= visits.len(),
        forall|i: int| 0 <= i < c ==> !utc_lt(t, #[trigger] visits[i].joined_utc),
        forall|i: int| c <= i < visits.len() ==> utc_lt(t, #[trigger] visits[i].joined_utc),
    ensures
        started_through(visits, t) == c,
    decreases visits.len(),
{
    if visits.len() > 0 && c < visits.len() {
        let p = visits.drop_last();
        assert(utc_lt(t, visits[visits.len() - 1].joined_utc));
        assert forall|i: int| 0 <= i < c implies !utc_lt(t, #[trigger] p[i].joined_utc) by {
            assert(p[i] == visits[i]);
        }
        assert forall|i: int| c <= i < p.len() implies utc_lt(t, #[trigger] p[i].joined_utc) by {
            assert(p[i] == visits[i]);
        }
        lemma_started_through_unique(p, t, c);
    }
}

/// The photo taken at `t` is matched to a visit exactly when some visit covers `t` and no
/// visit started after that one but still at or before `t`; the match is that visit.
pub proof fn lemma_match_is_latest_covering(visits: Seq<WorldVisitTimeRange>, t: UtcTime, i: int)
    requires
        sorted_by_joined(visits),
        0 <= i < visits.len(),
        covers(visits[i], t),
        forall|j: int| i < j < visits.len() ==> utc_lt(t, #[trigger] visits[j].joined_utc),
    ensures
        match_spec(visits, t) == Some(visits[i].id),
{
    assert forall|k: int| 0 <= k < i + 1 implies !utc_lt(t, #[trigger] visits[k].joined_utc) by {
        assert(!utc_lt(visits[i].joined_utc, visits[k].joined_utc));
    }
    lemma_started_through_unique(visits, t, i + 1);
}

/// A match is a visit that covers the photo's instant.
pub proof fn lemma_match_covers(visits: Seq<WorldVisitTimeRange>, t: UtcTime)
    requires
        sorted_by_joined(visits),
    ensures
        match_spec(visits, t) matches Some(id) ==> exists|i: int|
            0 <= i < visits.len() && covers(#[trigger] visits[i], t) && visits[i].id == id,
        match_spec(visits, t) is None ==> forall|i: int|
            0 <= i < visits.len() && covers(#[trigger] visits[i], t) ==> exists|j: int|
                i < j < visits.len() && !utc_lt(t, #[trigger] visits[j].joined_utc),
{
    lemma_started_through(visits, t);
    let c = started_through(visits, t) as int;
    if c > 0 && covers(visits[c - 1], t) {
        assert(covers(visits[c - 1], t));
    }
    if match_spec(visits, t) is None {
        assert forall|i: int| 0 <= i < visits.len() && covers(#[trigger] visits[i], t) implies exists|j: int|
            i < j < visits.len() && !utc_lt(t, #[trigger] visits[j].joined_utc) by {
            assert(i < c);
            assert(i != c - 1);
            assert(!utc_lt(t, visits[c - 1].joined_utc));
        }
    }
}

/// The id of the visit covering `photo_taken_utc`: the last one to start at or before it,
/// if that one had not yet been left (binary search, `O(log n)`).
pub fn match_photo_to_visit(
    visits_sorted_by_joined_utc: &[WorldVisitTimeRange],
    photo_taken_utc: UtcTime,
) -> (r: Option<i64>)
    requires
        sorted_by_joined(visits_sorted_by_joined_utc@),
    ensures
        r == match_spec(visits_sorted_by_joined_utc@, photo_taken_utc),
{
    let v = visits_sorted_by_joined_utc;
    let t = photo_taken_utc;
    let mut lo: usize = 0;
    let mut hi: usize = v.len();
    while lo < hi
        invariant
            lo <= hi <= v@.len(),
            sorted_by_joined(v@),
            forall|i: int| 0 <= i < lo ==> !utc_lt(t, #[trigger] v@[i].joined_utc),
            forall|i: int| hi <= i < v@.len() ==> utc_lt(t, #[trigger] v@[i].joined_utc),
        decreases hi - lo,
    {
        let mid = lo + (hi - lo) / 2;
        if utc_before(t, v[mid].joined_utc) {
            proof {
                assert forall|i: int| mid <= i < v@.len() implies utc_lt(t, #[trigger] v@[i].joined_utc) by {
                    assert(!utc_lt(v@[i].joined_utc, v@[mid as int].joined_utc));
                }
            }
            hi = mid;
        } else {
            proof {
                assert forall|i: int| 0 <= i < mid + 1 implies !utc_lt(t, #[trigger] v@[i].joined_utc) by {
                    assert(!utc_lt(v@[mid as int].joined_utc, v@[i].joined_utc));
                }
            }
            lo = mid + 1;
        }
    }
    proof {
        lemma_started_through_unique(v@, t, lo as int);
    }
    if lo == 0 {
        return None;
    }
    let candidate = &v[lo - 1];
    match candidate.left_utc {
        Some(left) => {
            if utc_before(t, left) {
                Some(candidate.id)
            } else {
                None
            }
        },
        None => Some(candidate.id),
    }
}

} // verus!
