//! Physical identity of a log file and detection of a new file generation.
//!
//! The generation is bumped when the file was truncated, its head changed, it was
//! re-created, or its modification time went backwards.

use vstd::prelude::*;
use super::hex::{hex_encode, hex_text, lemma_hex_text_len};

verus! {

/// `blake3::hash`: the 32-byte BLAKE3 digest of the input.
pub uninterp spec fn blake3_digest(bytes: Seq<u8>) -> Seq<u8>;

/// `blake3::hash(bytes)`: the BLAKE3 digest, named `blake3_digest`; it is 32 bytes long.
#[verifier::external_body]
pub fn blake3_hash(bytes: &[u8]) -> (r: [u8; 32])
    ensures
        r@ == blake3_digest(bytes@),
{
    *blake3::hash(bytes).as_bytes()
}

/// Physical identity of a log file. On Windows `volume_serial` + file id are unique;
/// elsewhere device id and inode stand in for them.
#[derive(Debug, Clone, Copy, PartialEq, Eq, Hash)]
pub struct FileIdentity {
    pub volume_serial: u32,
    pub file_id_high: u32,
    pub file_id_low: u32,
    pub generation: u32,
    /// FILETIME-compatible creation time (100 ns units since 1601-01-01 UTC).
    pub creation_time: i64,
    /// BLAKE3 of the file's first line.
    pub first_kb_hash: [u8; 32],
}

/// Little-endian bytes of `x` in `n` bytes.
pub open spec fn le_bytes(x: nat, n: nat) -> Seq<u8>
    decreases n,
{
    if n == 0 {
        seq![]
    } else {
        seq![(x % 256) as u8] + le_bytes(x / 256, (n - 1) as nat)
    }
}

/// The bytes hashed into the identity: each field little-endian, then the head hash.
pub open spec fn identity_bytes(id: FileIdentity) -> Seq<u8> {
    le_bytes(id.volume_serial as nat, 4) + le_bytes(id.file_id_high as nat, 4) + le_bytes(
        id.file_id_low as nat,
        4,
    ) + le_bytes(id.generation as nat, 4) + le_bytes((id.creation_time as u64) as nat, 8)
        + id.first_kb_hash@
}

fn push_le(v: &mut Vec<u8>, x: u64, n: usize)
    ensures
        final(v)@ == old(v)@ + le_bytes(x as nat, n as nat),
    decreases n,
{
    if n > 0 {
        v.push((x % 256) as u8);
        push_le(v, x / 256, n - 1);
        assert(final(v)@ =~= old(v)@ + le_bytes(x as nat, n as nat));
    } else {
        assert(final(v)@ =~= old(v)@ + le_bytes(x as nat, n as nat));
    }
}

/// Hex text of the BLAKE3 digest of the identity's fields, as stored in
/// `processed_log_files.file_identity_hash`.
pub fn compute_file_identity_hash(id: &FileIdentity) -> (r: String)
    ensures
        r@ == hex_text(blake3_digest(identity_bytes(*id))),
        r@.len() == 64,
{
    let mut v: Vec<u8> = Vec::new();
    push_le(&mut v, id.volume_serial as u64, 4);
    push_le(&mut v, id.file_id_high as u64, 4);
    push_le(&mut v, id.file_id_low as u64, 4);
    push_le(&mut v, id.generation as u64, 4);
    push_le(&mut v, id.creation_time as u64, 8);
    let mut i: usize = 0;
    let ghost before = v@;
    while i < 32
        invariant
            i <= 32,
            v@ == before + id.first_kb_hash@.take(i as int),
        decreases 32 - i,
    {
        v.push(id.first_kb_hash[i]);
        i = i + 1;
        assert(v@ =~= before + id.first_kb_hash@.take(i as int));
    }
    assert(id.first_kb_hash@.take(32) =~= id.first_kb_hash@);
    assert(v@ =~= identity_bytes(*id));
    let digest = blake3_hash(v.as_slice());
    proof {
        lemma_hex_text_len(digest@);
    }
    hex_encode(&digest)
}

impl FileIdentity {
    /// `processed_log_files.file_identity_hash` of this identity.
    pub fn identity_hash_hex(&self) -> (r: String)
        ensures
            r@ == hex_text(blake3_digest(identity_bytes(*self))),
            r@.len() == 64,
    {
        compute_file_identity_hash(self)
    }
}

/// Bytes of `b` before its first line feed (all of it without one).
pub open spec fn head_line(b: Seq<u8>) -> Seq<u8> {
    match crate::log_watcher::line_buffer::next_newline(b, 0) {
        Some(i) => b.take(i),
        None => b,
    }
}

/// BLAKE3 of the first line of a file (its bytes before the first line feed, or all
/// bytes when there is none): appending to the file leaves it unchanged.
pub fn compute_head_line_hash(bytes: &[u8]) -> (r: [u8; 32])
    ensures
        r@ == blake3_digest(head_line(bytes@)),
{
    let mut head: Vec<u8> = Vec::new();
    let mut i: usize = 0;
    while i < bytes.len()
        invariant
            i <= bytes@.len(),
            head@ == bytes@.take(i as int),
            forall|j: int| 0 <= j < i ==> bytes@[j] != 10u8,
        decreases bytes@.len() - i,
    {
        if bytes[i] == 10u8 {
            proof {
                crate::text::lemma_first_from_at(0, bytes@.len() as int, |x: int| bytes@[x] == 10u8, i as int);
            }
            return blake3_hash(head.as_slice());
        }
        head.push(bytes[i]);
        i = i + 1;
        assert(head@ =~= bytes@.take(i as int));
    }
    proof {
        crate::text::lemma_first_from_none(0, bytes@.len() as int, |x: int| bytes@[x] == 10u8);
        assert(bytes@.take(bytes@.len() as int) =~= bytes@);
    }
    blake3_hash(head.as_slice())
}

/// Why the generation is bumped.
#[derive(Debug, Clone, Copy, PartialEq, Eq)]
pub enum GenerationBumpReason {
    Truncate,
    FirstKbHashChanged,
    CreationTimeChanged,
    MtimeWentBackwards,
}

/// Known state of a file (restored from the database).
#[derive(Debug, Clone, Copy)]
pub struct PrevFileState<'a> {
    pub generation: u32,
    pub first_kb_hash: &'a [u8; 32],
    pub creation_time: i64,
    pub mtime_unix_secs: i64,
    pub ingest_position: i64,
}

/// Current state of a file (read from the file system).
#[derive(Debug, Clone, Copy)]
pub struct CurrentFileState<'a> {
    pub size: i64,
    pub first_kb_hash: &'a [u8; 32],
    pub creation_time: i64,
    pub mtime_unix_secs: i64,
}

/// The first reason, in priority order, for which `current` is a new generation of `prev`.
pub open spec fn bump_reason(prev: PrevFileState, current: CurrentFileState) -> Option<
    GenerationBumpReason,
> {
    if current.size < prev.ingest_position {
        Some(GenerationBumpReason::Truncate)
    } else if current.first_kb_hash@ != prev.first_kb_hash@ {
        Some(GenerationBumpReason::FirstKbHashChanged)
    } else if current.creation_time != prev.creation_time {
        Some(GenerationBumpReason::CreationTimeChanged)
    } else if current.mtime_unix_secs < prev.mtime_unix_secs {
        Some(GenerationBumpReason::MtimeWentBackwards)
    } else {
        None
    }
}

fn same_hash(a: &[u8; 32], b: &[u8; 32]) -> (r: bool)
    ensures
        r == (a@ == b@),
{
    let mut i: usize = 0;
    while i < 32
        invariant
            i <= 32,
            forall|j: int| 0 <= j < i ==> a@[j] == b@[j],
        decreases 32 - i,
    {
        if a[i] != b[i] {
            return false;
        }
        i = i + 1;
    }
    assert(a@ =~= b@);
    true
}

/// The first reason, in priority order, for which `current` is a new generation of `prev`:
/// truncated (`size < ingest_position`), first line changed, creation time changed, or
/// modification time went backwards.
pub fn first_bump_reason(prev: PrevFileState<'_>, current: CurrentFileState<'_>) -> (r: Option<
    GenerationBumpReason,
>)
    ensures
        r == bump_reason(prev, current),
{
    if current.size < prev.ingest_position {
        return Some(GenerationBumpReason::Truncate);
    }
    if !same_hash(current.first_kb_hash, prev.first_kb_hash) {
        return Some(GenerationBumpReason::FirstKbHashChanged);
    }
    if current.creation_time != prev.creation_time {
        return Some(GenerationBumpReason::CreationTimeChanged);
    }
    if current.mtime_unix_secs < prev.mtime_unix_secs {
        return Some(GenerationBumpReason::MtimeWentBackwards);
    }
    None
}

/// Compares a file's known state with its current state.
///
/// Returns the next generation and the reason when the file must be treated as a
/// new generation (see [`first_bump_reason`]); `None` when it continues. The generation
/// counter must have room only when a bump happens.
pub fn detect_bump(prev: PrevFileState<'_>, current: CurrentFileState<'_>) -> (r: Option<
    (u32, GenerationBumpReason),
>)
    requires
        bump_reason(prev, current) is Some ==> prev.generation < u32::MAX,
    ensures
        match bump_reason(prev, current) {
            Some(reason) => r == Some(((prev.generation + 1) as u32, reason)),
            None => r is None,
        },
{
    match first_bump_reason(prev, current) {
        Some(reason) => Some((prev.generation + 1, reason)),
        None => None,
    }
}

} // verus!
