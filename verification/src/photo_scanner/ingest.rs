//! What to record for one photo file: the file name is read, in-flight `.tmp`
//! files and names VRChat did not give are skipped, the shooting time is
//! resolved to UTC in the capture time zone and matched to a world visit.
//! Writing the row is left to the caller.

use vstd::prelude::*;
use crate::path::{file_name_bounds, path_file_name};
use crate::text::{chars_of, substring};
use crate::time::naive::{NaiveLocal, UtcTime};
use crate::time::resolve::{resolve_local_to_utc, resolve_spec, resolution_text};
use super::filename::{ci_starts_at, parse_vrchat_filename, photo_meta_spec, ci_char};
use super::visit_matcher::{match_photo_to_visit, match_spec, sorted_by_joined, WorldVisitTimeRange};

verus! {

/// What became of one photo.
#[derive(Debug, Clone, PartialEq, Eq)]
pub enum IngestOutcome {
    /// A row for the file exists (new or already there); `world_visit_id` is the visit it
    /// was attached to.
    Recorded { id: i64, world_visit_id: Option<i64> },
    /// Nothing was recorded.
    Skipped(SkipReason),
}

/// Why a file was not recorded.
#[derive(Debug, Clone, Copy, PartialEq, Eq)]
pub enum SkipReason {
    /// The path has no file-name component (such as `/`).
    NoFileNameComponent,
    /// The file name is not valid UTF-8.
    InvalidUtf8FileName,
    /// The name does not follow the VRChat screenshot naming.
    NotVRChatFilename,
    /// A `.tmp` file that VRChat is still writing.
    InflightTmp,
}

/// The row to write for a photo.
#[derive(Debug, Clone, PartialEq, Eq)]
pub struct PhotoRecordInput {
    pub file_path: String,
    pub file_name: String,
    pub taken_naive_local: NaiveLocal,
    pub taken_utc: UtcTime,
    pub taken_tz_id: String,
    pub taken_offset_seconds: i32,
    pub taken_resolution: String,
    pub taken_tz_source: String,
    pub taken_resolution_confidence: String,
    pub thumb_sha: Option<String>,
    pub world_visit_id: Option<i64>,
}

/// Either a row to write or the reason to skip the file.
#[derive(Debug, Clone, PartialEq, Eq)]
pub enum IngestPlan {
    Record(PhotoRecordInput),
    Skip(SkipReason),
}

/// The name ends in `.tmp`, ignoring ASCII letter case.
pub open spec fn is_tmp_name(name: Seq<char>) -> bool {
    name.len() >= 4 && ci_starts_at(name, name.len() - 4, ".tmp"@)
}

/// Why the file at `path` is skipped, or `None` when it is recorded.
pub open spec fn skip_reason_spec(path: Seq<char>) -> Option<SkipReason> {
    match path_file_name(path) {
        None => Some(SkipReason::NoFileNameComponent),
        Some(name) => if is_tmp_name(name) {
            Some(SkipReason::InflightTmp)
        } else if photo_meta_spec(name) is None {
            Some(SkipReason::NotVRChatFilename)
        } else {
            None
        },
    }
}

/// `rec` is the row for the photo at `path`: the shooting time read from the name is
/// resolved in `tz` with no previous instant, and the visit is the one covering the
/// resulting instant.
pub open spec fn record_for(
    rec: PhotoRecordInput,
    path: Seq<char>,
    visits: Seq<WorldVisitTimeRange>,
    tz: Seq<char>,
) -> bool {
    let name = path_file_name(path).unwrap();
    let naive = photo_meta_spec(name).unwrap().0;
    let (utc, offset, res) = resolve_spec(tz, naive, None);
    &&& rec.file_path@ == path
    &&& rec.file_name@ == name
    &&& rec.taken_naive_local == naive
    &&& rec.taken_utc == utc
    &&& rec.taken_tz_id@ == tz
    &&& rec.taken_offset_seconds as int == offset
    &&& rec.taken_resolution@ == resolution_text(res)
    &&& rec.taken_tz_source@ == "CapturedRealtime"@
    &&& rec.taken_resolution_confidence@ == "High"@
    &&& rec.thumb_sha is None
    &&& rec.world_visit_id == match_spec(visits, utc)
}

fn tmp_name(name: &[char]) -> (b: bool)
    ensures
        b == is_tmp_name(name@),
{
    if name.len() < 4 {
        return false;
    }
    let p = name.len() - 4;
    let b = name[p] == '.' && ci_char_is(name[p + 1], 't') && ci_char_is(name[p + 2], 'm')
        && ci_char_is(name[p + 3], 'p');
    proof {
        reveal_strlit(".tmp");
        if b {
            assert forall|j: int| 0 <= j < 4 implies ci_char(#[trigger] name@[p + j], ".tmp"@[j]) by {
                assert(j == 0 || j == 1 || j == 2 || j == 3);
            }
        } else {
            if !ci_char(name@[p as int], '.') {
                assert(!ci_char(name@[p + 0], ".tmp"@[0]));
            } else if !ci_char(name@[p + 1], 't') {
                assert(!ci_char(name@[p + 1], ".tmp"@[1]));
            } else if !ci_char(name@[p + 2], 'm') {
                assert(!ci_char(name@[p + 2], ".tmp"@[2]));
            } else {
                assert(!ci_char(name@[p + 3], ".tmp"@[3]));
            }
        }
    }
    b
}

fn ci_char_is(c: char, lower: char) -> (b: bool)
    requires
        'a' <= lower <= 'z',
    ensures
        b == ci_char(c, lower),
{
    c == lower || (c as u32) + 32 == lower as u32
}

/// Decides what to record for the photo at `file_path`, given the visits sorted by
/// `joined_utc` and the IANA zone the camera clock followed.
pub fn plan_photo_ingest(file_path: &str, visits: &[WorldVisitTimeRange], tz: &str) -> (r:
    IngestPlan)
    requires
        sorted_by_joined(visits@),
    ensures
        match r {
            IngestPlan::Skip(reason) => skip_reason_spec(file_path@) == Some(reason),
            IngestPlan::Record(rec) => skip_reason_spec(file_path@) is None && record_for(
                rec,
                file_path@,
                visits@,
                tz@,
            ),
        },
{
    let p = chars_of(file_path);
    let (a, b) = match file_name_bounds(p.as_slice()) {
        Some(bounds) => bounds,
        None => return IngestPlan::Skip(SkipReason::NoFileNameComponent),
    };
    let name_chars = slice_of(p.as_slice(), a, b);
    assert(name_chars@ == path_file_name(file_path@).unwrap());
    if tmp_name(name_chars.as_slice()) {
        return IngestPlan::Skip(SkipReason::InflightTmp);
    }
    let name = substring(p.as_slice(), a, b);
    let meta = match parse_vrchat_filename(name.as_str()) {
        Some(m) => m,
        None => return IngestPlan::Skip(SkipReason::NotVRChatFilename),
    };
    let (taken_utc, offset, resolution) = resolve_local_to_utc(&meta.taken_naive_local, tz, None);
    let world_visit_id = match_photo_to_visit(visits, taken_utc);
    IngestPlan::Record(
        PhotoRecordInput {
            file_path: String::from_str(file_path),
            file_name: name,
            taken_naive_local: meta.taken_naive_local,
            taken_utc,
            taken_tz_id: String::from_str(tz),
            taken_offset_seconds: offset,
            taken_resolution: String::from_str(resolution.as_str()),
            taken_tz_source: String::from_str("CapturedRealtime"),
            taken_resolution_confidence: String::from_str("High"),
            thumb_sha: None,
            world_visit_id,
        },
    )
}

fn slice_of(s: &[char], a: usize, b: usize) -> (r: Vec<char>)
    requires
        a <= b <= s@.len(),
    ensures
        r@ == s@.subrange(a as int, b as int),
{
    let mut r: Vec<char> = Vec::new();
    let mut i = a;
    while i < b
        invariant
            a <= i <= b <= s@.len(),
            r@ == s@.subrange(a as int, i as int),
        decreases b - i,
    {
        r.push(s[i]);
        i = i + 1;
        assert(r@ =~= s@.subrange(a as int, i as int));
    }
    r
}

} // verus!
