//! File-system paths held as text. As on Windows, where VRChat runs, both `/` and `\`
//! separate components; the component rules of `std::path::Path` are stated over
//! character sequences.

use vstd::prelude::*;

verus! {

/// A component separator: `/` or `\`.
pub open spec fn is_sep(c: char) -> bool {
    c == '/' || c == '\\'
}

/// Index just past the last separator before `end`, or 0.
pub open spec fn seg_start(p: Seq<char>, end: int) -> int
    decreases end,
{
    if end <= 0 {
        0
    } else if is_sep(p[end - 1]) {
        end
    } else {
        seg_start(p, end - 1)
    }
}

/// Bounds of the last normal component of `p[..end]`: trailing separators and `.`
/// components are skipped; a final `..` (or no component at all) gives `None`.
pub open spec fn file_name_in(p: Seq<char>, end: int) -> Option<(int, int)>
    decreases end,
{
    if end <= 0 || end > p.len() {
        None
    } else if is_sep(p[end - 1]) {
        file_name_in(p, end - 1)
    } else {
        let st = seg_start(p, end);
        proof {
            lemma_seg_start(p, end - 1);
        }
        if end - st == 1 && p[st] == '.' {
            file_name_in(p, st)
        } else if end - st == 2 && p[st] == '.' && p[st + 1] == '.' {
            None
        } else {
            Some((st, end))
        }
    }
}

/// `Path::file_name`, with the separators of Windows
pub open spec fn path_file_name(p: Seq<char>) -> Option<Seq<char>> {
    match file_name_in(p, p.len() as int) {
        Some((a, b)) => Some(p.subrange(a, b)),
        None => None,
    }
}

pub proof fn lemma_seg_start(p: Seq<char>, end: int)
    requires
        0 <= end <= p.len(),
    ensures
        0 <= seg_start(p, end) <= end,
        forall|j: int| seg_start(p, end) <= j < end ==> !is_sep(p[j]),
        seg_start(p, end) > 0 ==> is_sep(p[seg_start(p, end) - 1]),
    decreases end,
{
    if end > 0 && !is_sep(p[end - 1]) {
        lemma_seg_start(p, end - 1);
    }
}

pub proof fn lemma_file_name_in(p: Seq<char>, end: int)
    requires
        0 <= end <= p.len(),
    ensures
        file_name_in(p, end) matches Some((a, b)) ==> 0 <= a < b <= end,
    decreases end,
{
    if end > 0 {
        if is_sep(p[end - 1]) {
            lemma_file_name_in(p, end - 1);
        } else {
            lemma_seg_start(p, end);
            let st = seg_start(p, end);
            if end - st == 1 && p[st] == '.' {
                lemma_file_name_in(p, st);
            }
        }
    }
}

fn seg_start_exec(p: &[char], end: usize) -> (r: usize)
    requires
        end <= p@.len(),
    ensures
        r == seg_start(p@, end as int),
        r <= end,
{
    let mut k = end;
    while k > 0 && p[k - 1] != '/' && p[k - 1] != '\\'
        invariant
            k <= end <= p@.len(),
            seg_start(p@, end as int) == seg_start(p@, k as int),
        decreases k,
    {
        k = k - 1;
    }
    k
}

/// Bounds of `Path::file_name` within `p`.
pub fn file_name_bounds(p: &[char]) -> (r: Option<(usize, usize)>)
    ensures
        match r {
            Some((a, b)) => a < b <= p@.len() && path_file_name(p@) == Some(p@.subrange(a as int, b as int)),
            None => path_file_name(p@) is None,
        },
{
    let mut end = p.len();
    proof {
        lemma_file_name_in(p@, end as int);
    }
    loop
        invariant
            end <= p@.len(),
            file_name_in(p@, p@.len() as int) == file_name_in(p@, end as int),
        decreases end,
    {
        if end == 0 {
            return None;
        }
        if p[end - 1] == '/' || p[end - 1] == '\\' {
            end = end - 1;
        } else {
            let st = seg_start_exec(p, end);
            proof {
                lemma_seg_start(p@, end as int);
            }
            if end - st == 1 && p[st] == '.' {
                end = st;
            } else if end - st == 2 && p[st] == '.' && p[st + 1] == '.' {
                return None;
            } else {
                return Some((st, end));
            }
        }
    }
}

} // verus!
