//! Sort keys of VRChat log files.

use vstd::prelude::*;
use crate::path::{file_name_bounds, path_file_name};
use crate::text::{chars_of, matches_at, starts_at, substring};
use crate::time::naive::{format_iso_utc, iso_utc_text, utc_representable, utc_to_civil, NaiveLocal, UtcTime};

verus! {

/// Unicode `Decimal_Number`, the class `\d` of the `regex` crate.
pub uninterp spec fn unicode_decimal_digit(c: char) -> bool;

/// A character of `\d`.
pub open spec fn is_decimal_number(c: char) -> bool {
    unicode_decimal_digit(c)
}

/// `regex::Regex::new(r"\A\d\z")` matched against the character. Its result is named
/// `unicode_decimal_digit`; as documented, the ASCII members of `\d` are `0`..`9`.
#[verifier::external_body]
fn decimal_number(c: char) -> (b: bool)
    ensures
        b == unicode_decimal_digit(c),
        (c as u32) < 128 ==> (b <==> ('0' <= c && c <= '9')),
{
    let mut buf = [0u8; 4];
    regex::Regex::new(r"\A\d\z").map_or(false, |re| re.is_match(c.encode_utf8(&mut buf)))
}

/// `\d{4}-\d{2}-\d{2}_\d{2}-\d{2}-\d{2}`
pub open spec fn key_layout(x: Seq<char>) -> bool {
    &&& x.len() == 19
    &&& forall|i: int|
        0 <= i < 19 && i != 4 && i != 7 && i != 10 && i != 13 && i != 16 ==> is_decimal_number(
            #[trigger] x[i],
        )
    &&& x[4] == '-'
    &&& x[7] == '-'
    &&& x[10] == '_'
    &&& x[13] == '-'
    &&& x[16] == '-'
}

/// `^output_log_(...)\.txt$` on a file name: the captured date-time text.
pub open spec fn name_key(name: Seq<char>) -> Option<Seq<char>> {
    let l = "output_log_"@.len() as int;
    if name.len() == l + 19 + ".txt"@.len() && starts_at(name, 0, "output_log_"@) && starts_at(
        name,
        l + 19,
        ".txt"@,
    ) && key_layout(name.subrange(l, l + 19)) {
        Some(name.subrange(l, l + 19))
    } else {
        None
    }
}

/// The key taken from the file name of `path`, if it is a standard VRChat log name.
pub open spec fn log_name_key(path: Seq<char>) -> Option<Seq<char>> {
    match path_file_name(path) {
        Some(n) => name_key(n),
        None => None,
    }
}

fn key_layout_at(s: &[char], a: usize) -> (b: bool)
    requires
        a + 19 <= s.len(),
    ensures
        b == key_layout(s@.subrange(a as int, a + 19)),
{
    let ghost x = s@.subrange(a as int, a + 19);
    if s[a + 4] != '-' || s[a + 7] != '-' || s[a + 10] != '_' || s[a + 13] != '-' || s[a + 16]
        != '-' {
        return false;
    }
    let mut i: usize = 0;
    while i < 19
        invariant
            i <= 19,
            a + 19 <= s.len(),
            x == s@.subrange(a as int, a + 19),
            forall|j: int|
                0 <= j < i && j != 4 && j != 7 && j != 10 && j != 13 && j != 16
                    ==> is_decimal_number(#[trigger] x[j]),
        decreases 19 - i,
    {
        if i != 4 && i != 7 && i != 10 && i != 13 && i != 16 {
            if !decimal_number(s[a + i]) {
                assert(x[i as int] == s@[a + i]);
                return false;
            }
        }
        i = i + 1;
    }
    true
}

/// `processed_log_files.log_sequence_key` of a log file.
///
/// For a standard name `output_log_yyyy-MM-dd_HH-mm-ss.txt` the key is the
/// `yyyy-MM-dd_HH-mm-ss` part; otherwise it is the creation time as
/// `%Y-%m-%dT%H:%M:%SZ`. Within one form, sorting keys sorts by time.
pub fn derive_log_sequence_key(path: &str, creation_time_utc: UtcTime) -> (r: String)
    requires
        utc_representable(creation_time_utc),
    ensures
        match log_name_key(path@) {
            Some(k) => r@ == k,
            None => exists|n: NaiveLocal|
                #![trigger iso_utc_text(n)]
                n.valid() && n.secs() == creation_time_utc.secs && n.nanosecond
                    == creation_time_utc.nanos && r@ == iso_utc_text(n),
        },
{
    let p = chars_of(path);
    match file_name_bounds(p.as_slice()) {
        Some((a, b)) => {
            let prefix = chars_of("output_log_");
            let suffix = chars_of(".txt");
            let l = prefix.len();
            let ghost name = p@.subrange(a as int, b as int);
            if b - a >= l && b - a - l >= 19 && b - a - l - 19 == suffix.len() && matches_at(p.as_slice(), a, prefix.as_slice())
                && matches_at(p.as_slice(), a + l + 19, suffix.as_slice()) && key_layout_at(
                p.as_slice(),
                a + l,
            ) {
                proof {
                    assert(name.subrange(0, l as int) =~= p@.subrange(a as int, a + l));
                    assert(name.subrange(l + 19, l + 19 + suffix@.len()) =~= p@.subrange(
                        a + l + 19,
                        a + l + 19 + suffix@.len(),
                    ));
                    assert(name.subrange(l as int, l + 19) =~= p@.subrange(a + l, a + l + 19));
                }
                return substring(p.as_slice(), a + l, a + l + 19);
            } else {
                proof {
                    if name.len() == l + 19 + suffix@.len() {
                        assert(name.subrange(0, l as int) =~= p@.subrange(a as int, a + l));
                        assert(name.subrange(l + 19, l + 19 + suffix@.len()) =~= p@.subrange(
                            a + l + 19,
                            a + l + 19 + suffix@.len(),
                        ));
                        assert(name.subrange(l as int, l + 19) =~= p@.subrange(a + l, a + l + 19));
                    }
                }
            }
        },
        None => {},
    }
    let n = utc_to_civil(creation_time_utc).unwrap();
    format_iso_utc(&n)
}

} // verus!
