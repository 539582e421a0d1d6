//! A byte buffer that hands out complete lines only.
//!
//! Bytes after the last line feed stay buffered until more bytes arrive, so a
//! line that is still being written is never delivered half-way.

use vstd::prelude::*;
use crate::text::{first_from, lemma_first_from, lemma_first_from_at, lemma_first_from_none};

verus! {

/// `String::from_utf8_lossy`: invalid sequences become U+FFFD.
pub uninterp spec fn utf8_lossy(bytes: Seq<u8>) -> Seq<char>;

/// `String::from_utf8_lossy(bytes).into_owned()`. Its result is named `utf8_lossy`; as the
/// documentation states, valid UTF-8 is decoded unchanged.
#[verifier::external_body]
pub fn lossy_string(bytes: &[u8]) -> (s: String)
    ensures
        s@ == utf8_lossy(bytes@),
        vstd::utf8::valid_utf8(bytes@) ==> s@ == vstd::utf8::decode_utf8(bytes@),
{
    String::from_utf8_lossy(bytes).into_owned()
}

/// Index of the first line feed at or after `from`.
pub open spec fn next_newline(p: Seq<u8>, from: int) -> Option<int> {
    first_from(from, p.len() as int, |i: int| p[i] == 10u8)
}

/// `(start, end)` of each line terminated by a line feed in `p[from..]`; `end` is the
/// index of the line feed.
pub open spec fn line_segments(p: Seq<u8>, from: int) -> Seq<(int, int)>
    decreases p.len() - from,
{
    if from < 0 || from >= p.len() {
        seq![]
    } else {
        match next_newline(p, from) {
            Some(j) => {
                proof {
                    lemma_first_from(from, p.len() as int, |i: int| p[i] == 10u8);
                }
                seq![(from, j)] + line_segments(p, j + 1)
            },
            None => seq![],
        }
    }
}

/// Number of bytes of `p` that belong to complete lines.
pub open spec fn completed_len(p: Seq<u8>) -> int {
    let segs = line_segments(p, 0);
    if segs.len() == 0 {
        0
    } else {
        segs.last().1 + 1
    }
}

/// A line's bytes without one trailing carriage return.
pub open spec fn strip_cr(b: Seq<u8>) -> Seq<u8> {
    if b.len() > 0 && b.last() == 13u8 {
        b.drop_last()
    } else {
        b
    }
}

/// Holds bytes read from a log file and cuts them into complete lines.
#[derive(Debug, Default)]
pub struct LineBuffer {
    pending: Vec<u8>,
    consumed_bytes: u64,
}

impl View for LineBuffer {
    /// `(bytes not yet part of a delivered line, position in the file where they start)`
    type V = (Seq<u8>, nat);

    closed spec fn view(&self) -> (Seq<u8>, nat) {
        (self.pending@, self.consumed_bytes as nat)
    }
}

impl LineBuffer {
    /// The position after all buffered bytes fits a 64-bit file offset.
    #[verifier::type_invariant]
    spec fn wf(self) -> bool {
        self.consumed_bytes + self.pending@.len() <= u64::MAX
    }

    /// The buffered position and bytes still fit a 64-bit file offset.
    pub closed spec fn room(self) -> nat {
        (u64::MAX - self.consumed_bytes - self.pending@.len()) as nat
    }

    pub fn new() -> (r: Self)
        ensures
            r@ == (Seq::<u8>::empty(), 0nat),
            r.room() == u64::MAX,
    {
        LineBuffer { pending: Vec::new(), consumed_bytes: 0 }
    }

    /// Skips a UTF-8 byte-order mark at the start of the buffer (call once, at file start).
    pub fn skip_utf8_bom(&mut self)
        ensures
            ({
                let (p, c) = old(self)@;
                if p.len() >= 3 && p[0] == 0xEFu8 && p[1] == 0xBBu8 && p[2] == 0xBFu8 {
                    final(self)@ == (p.skip(3), (c + 3) as nat)
                } else {
                    final(self)@ == (p, c)
                }
            }),
            final(self).room() == old(self).room(),
    {
        proof {
            use_type_invariant(&*self);
        }
        if self.pending.len() >= 3 && self.pending[0] == 0xEF && self.pending[1] == 0xBB
            && self.pending[2] == 0xBF {
            let mut buf: Vec<u8> = Vec::new();
            std::mem::swap(&mut buf, &mut self.pending);
            let rest = buf.split_off(3);
            self.consumed_bytes = self.consumed_bytes + 3;
            self.pending = rest;
        }
    }

    /// Appends freshly read bytes.
    pub fn extend_from_slice(&mut self, bytes: &[u8])
        requires
            bytes@.len() <= old(self).room(),
        ensures
            final(self)@ == (old(self)@.0 + bytes@, old(self)@.1),
            final(self).room() == old(self).room() - bytes@.len(),
    {
        proof {
            use_type_invariant(&*self);
        }
        let mut buf: Vec<u8> = Vec::new();
        std::mem::swap(&mut buf, &mut self.pending);
        let mut i: usize = 0;
        let ghost before = buf@;
        while i < bytes.len()
            invariant
                i <= bytes@.len(),
                buf@ == before + bytes@.take(i as int),
                before == old(self).pending@,
            decreases bytes@.len() - i,
        {
            buf.push(bytes[i]);
            i = i + 1;
            assert(buf@ =~= before + bytes@.take(i as int));
        }
        assert(bytes@.take(bytes@.len() as int) =~= bytes@);
        self.pending = buf;
    }

    /// Removes and returns every complete line: its text (one trailing `\r` dropped,
    /// invalid UTF-8 replaced) and the file position just after its line feed.
    pub fn take_completed_lines(&mut self) -> (r: Vec<(String, u64)>)
        ensures
            ({
                let (p, c) = old(self)@;
                let segs = line_segments(p, 0);
                &&& r.len() == segs.len()
                &&& forall|i: int|
                    0 <= i < r.len() ==> (#[trigger] r[i]).0@ == utf8_lossy(
                        strip_cr(p.subrange(segs[i].0, segs[i].1)),
                    ) && r[i].1 == c + segs[i].1 + 1 && (vstd::utf8::valid_utf8(
                        strip_cr(p.subrange(segs[i].0, segs[i].1)),
                    ) ==> r[i].0@ == vstd::utf8::decode_utf8(
                        strip_cr(p.subrange(segs[i].0, segs[i].1)),
                    ))
                &&& final(self)@ == (p.skip(completed_len(p)), (c + completed_len(p)) as nat)
            }),
            final(self).room() == old(self).room(),
    {
        proof {
            use_type_invariant(&*self);
        }
        let ghost p = self.pending@;
        let ghost c = self.consumed_bytes;
        let n = self.pending.len();
        let mut out: Vec<(String, u64)> = Vec::new();
        let ghost mut segs: Seq<(int, int)> = seq![];
        let mut start: usize = 0;
        let mut i: usize = 0;
        while i < n
            invariant
                p == self.pending@,
                c == self.consumed_bytes,
                c + p.len() <= u64::MAX,
                n == p.len(),
                start <= i <= n,
                line_segments(p, 0) == segs + line_segments(p, start as int),
                forall|j: int| start <= j < i ==> p[j] != 10u8,
                segs.len() == 0 ==> start == 0,
                segs.len() > 0 ==> start == segs.last().1 + 1,
                out.len() == segs.len(),
                forall|k: int|
                    0 <= k < out.len() ==> (#[trigger] out[k]).0@ == utf8_lossy(
                        strip_cr(p.subrange(segs[k].0, segs[k].1)),
                    ) && out[k].1 == c + segs[k].1 + 1 && (vstd::utf8::valid_utf8(
                        strip_cr(p.subrange(segs[k].0, segs[k].1)),
                    ) ==> out[k].0@ == vstd::utf8::decode_utf8(
                        strip_cr(p.subrange(segs[k].0, segs[k].1)),
                    )),
            decreases n - i,
        {
            if self.pending[i] == 10u8 {
                proof {
                    lemma_first_from_at(start as int, n as int, |x: int| p[x] == 10u8, i as int);
                }
                let mut end = i;
                if end > start && self.pending[end - 1] == 13u8 {
                    end = end - 1;
                }
                let line = self.pending_slice_string(start, end);
                proof {
                    assert(strip_cr(p.subrange(start as int, i as int)) =~= p.subrange(
                        start as int,
                        end as int,
                    ));
                }
                out.push((line, self.consumed_bytes + (i as u64) + 1));
                proof {
                    segs = segs.push((start as int, i as int));
                    assert(line_segments(p, start as int) =~= seq![(start as int, i as int)]
                        + line_segments(p, i + 1));
                    assert(line_segments(p, 0) =~= segs + line_segments(p, i + 1));
                }
                start = i + 1;
            }
            i = i + 1;
        }
        proof {
            lemma_first_from_none(start as int, n as int, |x: int| p[x] == 10u8);
            assert(line_segments(p, start as int) =~= seq![]);
            assert(segs =~= line_segments(p, 0));
        }
        if start > 0 {
            let mut buf: Vec<u8> = Vec::new();
            std::mem::swap(&mut buf, &mut self.pending);
            let rest = buf.split_off(start);
            self.consumed_bytes = self.consumed_bytes + start as u64;
            self.pending = rest;
        } else {
            assert(p.skip(0) =~= p);
        }
        out
    }

    fn pending_slice_string(&self, a: usize, b: usize) -> (s: String)
        requires
            a <= b <= self.pending@.len(),
        ensures
            s@ == utf8_lossy(self.pending@.subrange(a as int, b as int)),
            vstd::utf8::valid_utf8(self.pending@.subrange(a as int, b as int)) ==> s@
                == vstd::utf8::decode_utf8(self.pending@.subrange(a as int, b as int)),
    {
        let mut v: Vec<u8> = Vec::new();
        let mut i = a;
        while i < b
            invariant
                a <= i <= b <= self.pending@.len(),
                v@ == self.pending@.subrange(a as int, i as int),
            decreases b - i,
        {
            v.push(self.pending[i]);
            i = i + 1;
            assert(v@ =~= self.pending@.subrange(a as int, i as int));
        }
        lossy_string(v.as_slice())
    }

    /// File position just after the last delivered line.
    pub fn completed_cursor(&self) -> (r: u64)
        ensures
            r == self@.1,
    {
        self.consumed_bytes
    }

    /// File position just after every byte taken in so far.
    pub fn end_offset(&self) -> (r: u64)
        ensures
            r == self@.1 + self@.0.len(),
    {
        proof {
            use_type_invariant(&*self);
        }
        self.consumed_bytes + self.pending.len() as u64
    }

    /// Number of buffered bytes of the incomplete last line.
    pub fn pending_bytes(&self) -> (r: usize)
        ensures
            r == self@.0.len(),
    {
        self.pending.len()
    }
}


/// The bytes of each complete line of `p`, line feed excluded.
pub open spec fn line_bytes(p: Seq<u8>) -> Seq<Seq<u8>> {
    line_segments(p, 0).map_values(|sg: (int, int)| p.subrange(sg.0, sg.1))
}

pub open spec fn shift_segments(segs: Seq<(int, int)>, k: int) -> Seq<(int, int)> {
    segs.map_values(|sg: (int, int)| (sg.0 + k, sg.1 + k))
}

/// What `next_newline` finds: the first line feed at or after `from`.
proof fn lemma_next_newline(p: Seq<u8>, from: int)
    requires
        0 <= from,
    ensures
        match next_newline(p, from) {
            Some(j) => from <= j < p.len() && p[j] == 10u8 && forall|i: int| from <= i < j ==> p[i] != 10u8,
            None => forall|i: int| from <= i < p.len() ==> p[i] != 10u8,
        },
    decreases p.len() - from,
{
    if from < p.len() && p[from] != 10u8 {
        lemma_next_newline(p, from + 1);
    }
}

/// `next_newline` finds `j` when it is a line feed and none comes before it.
proof fn lemma_next_newline_at(p: Seq<u8>, from: int, j: int)
    requires
        0 <= from <= j < p.len(),
        p[j] == 10u8,
        forall|i: int| from <= i < j ==> p[i] != 10u8,
    ensures
        next_newline(p, from) == Some(j),
    decreases j - from,
{
    if from < j {
        lemma_next_newline_at(p, from + 1, j);
    }
}

/// `next_newline` finds nothing when no line feed follows `from`.
proof fn lemma_next_newline_none(p: Seq<u8>, from: int)
    requires
        0 <= from,
        forall|i: int| from <= i < p.len() ==> p[i] != 10u8,
    ensures
        next_newline(p, from) is None,
    decreases p.len() - from,
{
    if from < p.len() {
        lemma_next_newline_none(p, from + 1);
    }
}

/// Where the segments found from `from` end: after the last line feed they cover, and
/// no line feed follows it.
proof fn lemma_segments_end(p: Seq<u8>, from: int)
    requires
        0 <= from <= p.len(),
    ensures
        ({
            let segs = line_segments(p, from);
            let e = if segs.len() == 0 {
                from
            } else {
                segs.last().1 + 1
            };
            &&& from <= e <= p.len()
            &&& forall|i: int| e <= i < p.len() ==> p[i] != 10u8
            &&& segs.len() > 0 ==> p[e - 1] == 10u8
        }),
    decreases p.len() - from,
{
    if from < p.len() {
        lemma_next_newline(p, from);
        match next_newline(p, from) {
            Some(j) => {
                lemma_segments_end(p, j + 1);
                let rest = line_segments(p, j + 1);
                let segs = line_segments(p, from);
                assert(segs == seq![(from, j)] + rest);
                if rest.len() > 0 {
                    assert(segs.last() == rest.last());
                } else {
                    assert(segs.last() == (from, j));
                }
            },
            None => {
                assert(line_segments(p, from) =~= seq![]);
            },
        }
    } else {
        assert(line_segments(p, from) =~= seq![]);
    }
}

/// Line feeds are found at the same places in a suffix of the bytes.
proof fn lemma_segments_shift(p: Seq<u8>, k: int, from: int)
    requires
        0 <= k <= from <= p.len(),
    ensures
        line_segments(p, from) == shift_segments(line_segments(p.skip(k), from - k), k),
    decreases p.len() - from,
{
    let q = p.skip(k);
    if from < p.len() {
        lemma_next_newline(p, from);
        lemma_next_newline(q, from - k);
        match next_newline(p, from) {
            Some(j) => {
                assert(q[j - k] == p[j]);
                assert forall|i: int| from - k <= i < j - k implies q[i] != 10u8 by {
                    assert(q[i] == p[i + k]);
                }
                lemma_next_newline_at(q, from - k, j - k);
                lemma_segments_shift(p, k, j + 1);
                assert(line_segments(p, from) == seq![(from, j)] + line_segments(p, j + 1));
                assert(line_segments(q, from - k) == seq![(from - k, j - k)] + line_segments(q, j + 1 - k));
                assert(shift_segments(line_segments(q, from - k), k) =~= seq![(from, j)] + shift_segments(
                    line_segments(q, j + 1 - k),
                    k,
                ));
            },
            None => {
                assert forall|i: int| from - k <= i < q.len() implies q[i] != 10u8 by {
                    assert(q[i] == p[i + k]);
                }
                lemma_next_newline_none(q, from - k);
                assert(line_segments(p, from) =~= seq![]);
                assert(line_segments(q, from - k) =~= seq![]);
                assert(shift_segments(line_segments(q, from - k), k) =~= seq![]);
            },
        }
    } else {
        assert(line_segments(p, from) =~= seq![]);
        assert(line_segments(q, from - k) =~= seq![]);
        assert(shift_segments(line_segments(q, from - k), k) =~= seq![]);
    }
}

/// Appending bytes keeps the lines already complete and continues after them.
proof fn lemma_segments_prefix(x: Seq<u8>, y: Seq<u8>, from: int)
    requires
        0 <= from <= completed_len(x),
    ensures
        line_segments(x + y, from) == line_segments(x, from) + line_segments(x + y, completed_len(x)),
    decreases completed_len(x) - from,
{
    let c = completed_len(x);
    let p = x + y;
    lemma_segments_end(x, 0);
    if from == c {
        if from < x.len() {
            lemma_next_newline_none(x, from);
        }
        assert(line_segments(x, from) =~= seq![]);
        assert(line_segments(p, from) =~= line_segments(x, from) + line_segments(p, c));
    } else {
        assert(x[c - 1] == 10u8);
        lemma_next_newline(x, from);
        let j = next_newline(x, from)->0;
        assert forall|i: int| from <= i < j implies p[i] != 10u8 by {
            assert(p[i] == x[i]);
        }
        assert(p[j] == x[j]);
        lemma_next_newline_at(p, from, j);
        lemma_segments_prefix(x, y, j + 1);
        assert(line_segments(p, from) == seq![(from, j)] + line_segments(p, j + 1));
        assert(line_segments(x, from) == seq![(from, j)] + line_segments(x, j + 1));
        assert(line_segments(p, from) =~= line_segments(x, from) + line_segments(p, c));
    }
}

/// Law: reading a file in two pieces delivers the same lines as reading it at once. The
/// complete lines of `x + y` are those of `x` followed by those of what `x` left pending
/// with `y` appended, and the delivered position adds up.
pub proof fn lemma_lines_split(x: Seq<u8>, y: Seq<u8>)
    ensures
        line_bytes(x + y) == line_bytes(x) + line_bytes(x.skip(completed_len(x)) + y),
        completed_len(x + y) == completed_len(x) + completed_len(x.skip(completed_len(x)) + y),
{
    let c = completed_len(x);
    let p = x + y;
    let r = x.skip(c) + y;
    lemma_segments_end(x, 0);
    lemma_segments_prefix(x, y, 0);
    lemma_segments_shift(p, c, c);
    assert(p.skip(c) =~= r);
    let sx = line_segments(x, 0);
    let sr = line_segments(r, 0);
    assert(line_segments(p, 0) == sx + shift_segments(sr, c));
    lemma_segments_bounds(x, 0);
    lemma_segments_bounds(r, 0);
    assert forall|i: int| 0 <= i < sx.len() implies p.subrange(sx[i].0, sx[i].1) == x.subrange(sx[i].0, sx[i].1) by {
        assert(p.subrange(sx[i].0, sx[i].1) =~= x.subrange(sx[i].0, sx[i].1));
    }
    assert forall|i: int| 0 <= i < sr.len() implies p.subrange(sr[i].0 + c, sr[i].1 + c) == r.subrange(sr[i].0, sr[i].1) by {
        assert(p.subrange(sr[i].0 + c, sr[i].1 + c) =~= r.subrange(sr[i].0, sr[i].1));
    }
    assert(line_bytes(p) =~= line_bytes(x) + line_bytes(r));
    if sr.len() > 0 {
        assert((sx + shift_segments(sr, c)).last() == (sr.last().0 + c, sr.last().1 + c));
    } else {
        assert(sx + shift_segments(sr, c) =~= sx);
    }
}

/// Every segment lies in the bytes, starts at or after `from` and ends before the next.
proof fn lemma_segments_bounds(p: Seq<u8>, from: int)
    requires
        0 <= from,
    ensures
        forall|i: int|
            0 <= i < line_segments(p, from).len() ==> from <= (#[trigger] line_segments(p, from)[i]).0
                <= line_segments(p, from)[i].1 < p.len(),
    decreases p.len() - from,
{
    if from < p.len() {
        lemma_next_newline(p, from);
        match next_newline(p, from) {
            Some(j) => {
                lemma_segments_bounds(p, j + 1);
                let segs = line_segments(p, from);
                assert(segs == seq![(from, j)] + line_segments(p, j + 1));
                assert forall|i: int| 0 <= i < segs.len() implies from <= (#[trigger] segs[i]).0 <= segs[i].1 < p.len() by {
                    if i > 0 {
                        assert(segs[i] == line_segments(p, j + 1)[i - 1]);
                    }
                }
            },
            None => {},
        }
    }
}

/// Number of line feeds in `p[from..]`.
pub open spec fn line_feeds(p: Seq<u8>, from: int) -> nat
    decreases p.len() - from,
{
    if from < 0 || from >= p.len() {
        0
    } else {
        (if p[from] == 10u8 {
            1nat
        } else {
            0nat
        }) + line_feeds(p, from + 1)
    }
}

/// No line feed in `p[from..to]` leaves the count unchanged.
proof fn lemma_line_feeds_skip(p: Seq<u8>, from: int, to: int)
    requires
        0 <= from <= to <= p.len(),
        forall|i: int| from <= i < to ==> p[i] != 10u8,
    ensures
        line_feeds(p, from) == line_feeds(p, to),
    decreases to - from,
{
    if from < to {
        lemma_line_feeds_skip(p, from + 1, to);
    }
}

/// One segment per line feed, in increasing order.
proof fn lemma_segments_count_and_order(p: Seq<u8>, from: int)
    requires
        0 <= from <= p.len(),
    ensures
        line_segments(p, from).len() == line_feeds(p, from),
        forall|i: int, k: int|
            0 <= i < k < line_segments(p, from).len() ==> (#[trigger] line_segments(p, from)[i]).1
                < (#[trigger] line_segments(p, from)[k]).0,
    decreases p.len() - from,
{
    if from < p.len() {
        lemma_next_newline(p, from);
        match next_newline(p, from) {
            Some(j) => {
                lemma_segments_count_and_order(p, j + 1);
                lemma_segments_bounds(p, j + 1);
                lemma_line_feeds_skip(p, from, j);
                let rest = line_segments(p, j + 1);
                let segs = line_segments(p, from);
                assert(segs == seq![(from, j)] + rest);
                assert forall|i: int, k: int| 0 <= i < k < segs.len() implies (#[trigger] segs[i]).1
                    < (#[trigger] segs[k]).0 by {
                    assert(segs[k] == rest[k - 1]);
                    if i > 0 {
                        assert(segs[i] == rest[i - 1]);
                    }
                }
            },
            None => {
                lemma_line_feeds_skip(p, from, p.len() as int);
                assert(line_segments(p, from) =~= seq![]);
            },
        }
    } else {
        assert(line_segments(p, from) =~= seq![]);
    }
}

/// Law: taking the complete lines of buffered bytes `p` gives one line per line feed in
/// `p`, each line's end position strictly after the previous one's, the last line ending
/// where the delivered bytes end; what stays buffered holds no line feed. Hence the
/// position after everything taken in (delivered plus buffered) does not move.
pub proof fn lemma_take_lines_shape(p: Seq<u8>)
    ensures
        line_segments(p, 0).len() == line_feeds(p, 0),
        forall|i: int, k: int|
            0 <= i < k < line_segments(p, 0).len() ==> (#[trigger] line_segments(p, 0)[i]).1
                < (#[trigger] line_segments(p, 0)[k]).1,
        forall|i: int|
            0 <= i < line_segments(p, 0).len() ==> 0 <= (#[trigger] line_segments(p, 0)[i]).1
                < completed_len(p),
        0 <= completed_len(p) <= p.len(),
        forall|i: int| 0 <= i < p.skip(completed_len(p)).len() ==> p.skip(completed_len(p))[i] != 10u8,
        completed_len(p) + p.skip(completed_len(p)).len() == p.len(),
{
    lemma_segments_count_and_order(p, 0);
    lemma_segments_bounds(p, 0);
    lemma_segments_end(p, 0);
    let segs = line_segments(p, 0);
    assert forall|i: int, k: int| 0 <= i < k < segs.len() implies (#[trigger] segs[i]).1
        < (#[trigger] segs[k]).1 by {
        assert(segs[i].1 < segs[k].0);
    }
    assert forall|i: int| 0 <= i < segs.len() implies 0 <= (#[trigger] segs[i]).1 < completed_len(p) by {
        if i < segs.len() - 1 {
            assert(segs[i].1 < segs[segs.len() - 1].0);
        }
    }
}

/// The bytes of several reads, in order.
pub open spec fn concat_chunks(chunks: Seq<Seq<u8>>) -> Seq<u8>
    decreases chunks.len(),
{
    if chunks.len() == 0 {
        Seq::empty()
    } else {
        concat_chunks(chunks.drop_last()) + chunks.last()
    }
}

/// The buffer's view after appending `y` and taking the complete lines, as
/// `extend_from_slice` and `take_completed_lines` state it.
pub open spec fn feed_and_take(state: (Seq<u8>, nat), y: Seq<u8>) -> (Seq<u8>, nat) {
    let q = state.0 + y;
    (q.skip(completed_len(q)), (state.1 + completed_len(q)) as nat)
}

/// The buffer's view after each read of `chunks` was appended and its lines taken,
/// starting from a new buffer.
pub open spec fn feed_chunks(chunks: Seq<Seq<u8>>) -> (Seq<u8>, nat)
    decreases chunks.len(),
{
    if chunks.len() == 0 {
        (Seq::empty(), 0nat)
    } else {
        feed_and_take(feed_chunks(chunks.drop_last()), chunks.last())
    }
}

/// Law: however the bytes `s` of a file arrive, once each read has been appended and its
/// lines taken, the delivered position is just after the last line feed of `s` (0 when
/// `s` has none), and the bytes after it are what stays buffered.
pub proof fn lemma_cursor_after_last_line_feed(chunks: Seq<Seq<u8>>)
    ensures
        ({
            let s = concat_chunks(chunks);
            let c = completed_len(s);
            &&& feed_chunks(chunks) == (s.skip(c), c as nat)
            &&& 0 <= c <= s.len()
            &&& c > 0 ==> s[c - 1] == 10u8
            &&& forall|i: int| c <= i < s.len() ==> s[i] != 10u8
        }),
    decreases chunks.len(),
{
    let s = concat_chunks(chunks);
    lemma_segments_end(s, 0);
    if chunks.len() == 0 {
        assert(s =~= Seq::<u8>::empty());
        assert(line_segments(s, 0) =~= seq![]);
        assert(s.skip(0) =~= s);
    } else {
        let pre = chunks.drop_last();
        let y = chunks.last();
        lemma_cursor_after_last_line_feed(pre);
        let t = concat_chunks(pre);
        let ct = completed_len(t);
        let q = t.skip(ct) + y;
        lemma_lines_split(t, y);
        lemma_segments_end(q, 0);
        assert(s == t + y);
        assert(q.skip(completed_len(q)) =~= s.skip(completed_len(s)));
    }
}

} // verus!
