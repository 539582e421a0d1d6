//! What the log watcher decides for each file-system event.
//!
//! For a changed file: pause while the projection backlog is at its limit,
//! forget a file that is gone, compare the file with its known identity (a
//! new generation restarts from byte 0), then cut the freshly read bytes into
//! complete lines and turn each into a raw event at the byte offset where the
//! line starts. Reading the file and writing the rows are the caller's.

use vstd::prelude::*;
use crate::log_parser::event::{LogEvent, ParsedLine};
use crate::log_parser::log_filename::{derive_log_sequence_key, log_name_key};
use crate::log_parser::parse::{parse_line, parse_line_spec, parsed_view};
use crate::log_parser::event::EventView;
use crate::path::{file_name_bounds, path_file_name};
use crate::text::{chars_of, substring};
use crate::time::naive::{iso_utc_text, utc_representable, utc_to_civil, NaiveLocal, UtcTime};
use super::file_identity::{
    first_bump_reason, CurrentFileState, FileIdentity, GenerationBumpReason, PrevFileState,
};
use super::fs_event::FsEvent;
use super::hex::{hex_encode, hex_text};
use super::line_buffer::{completed_len, line_segments, strip_cr, utf8_lossy, LineBuffer};

verus! {

/// What the file system says about a log file now.
#[derive(Debug, Clone, Copy, PartialEq, Eq)]
pub struct ProbedFile {
    pub size: i64,
    pub first_kb_hash: [u8; 32],
    pub creation_time: i64,
    pub mtime_unix_secs: i64,
    pub volume_serial: u32,
    pub file_id_high: u32,
    pub file_id_low: u32,
}

/// Settings of the log watcher.
#[derive(Debug, Clone, PartialEq, Eq)]
pub struct WatcherConfig {
    pub batch_size: usize,
    pub batch_timeout_ms: u64,
    /// Ingest pauses while this many projected events are pending.
    pub backlog_hard_limit: i64,
    pub tz_id: String,
    pub tz_source: String,
}

/// `iana_time_zone::get_timezone()`: the IANA name of the machine's time zone, when it
/// can be found. It depends on the machine, so nothing is stated of it.
#[verifier::external_body]
fn system_time_zone() -> (r: Option<String>) {
    iana_time_zone::get_timezone().ok()
}

impl Default for WatcherConfig {
    /// Batches of 100 lines or 200 ms, a backlog limit of 50 000, the machine's time
    /// zone (`UTC` when it cannot be found) captured in real time.
    fn default() -> (r: Self)
        ensures
            r.batch_size == 100,
            r.batch_timeout_ms == 200,
            r.backlog_hard_limit == 50_000,
            r.tz_source@ == "CapturedRealtime"@,
    {
        let tz_id = match system_time_zone() {
            Some(z) => z,
            None => String::from_str("UTC"),
        };
        WatcherConfig {
            batch_size: 100,
            batch_timeout_ms: 200,
            backlog_hard_limit: 50_000,
            tz_id,
            tz_source: String::from_str("CapturedRealtime"),
        }
    }
}

/// The probe of a file from Unix metadata: the device number stands in for the volume
/// serial and the inode, split into its high and low 32 bits, for the file id; the
/// change time stands in for the creation time, which Unix does not keep.
pub fn probe_from_unix_metadata(
    len: u64,
    dev: u64,
    ino: u64,
    mtime: i64,
    ctime: i64,
    first_kb_hash: [u8; 32],
) -> (r: ProbedFile)
    ensures
        r.size == len as i64,
        r.first_kb_hash == first_kb_hash,
        r.creation_time == ctime,
        r.mtime_unix_secs == mtime,
        r.volume_serial == dev as u32,
        r.file_id_high == (ino >> 32u64) as u32,
        r.file_id_low == ino as u32,
{
    ProbedFile {
        size: len as i64,
        first_kb_hash,
        creation_time: ctime,
        mtime_unix_secs: mtime,
        volume_serial: dev as u32,
        file_id_high: (ino >> 32u64) as u32,
        file_id_low: ino as u32,
    }
}

/// A rescan of the log directory looks at the files whose extension is exactly `txt`.
pub fn is_log_candidate(path: &str) -> (r: bool)
    ensures
        r == (crate::photo_scanner::actor::path_extension(path@) == Some("txt"@)),
{
    let p = chars_of(path);
    let (a, b) = match file_name_bounds(p.as_slice()) {
        Some(bounds) => bounds,
        None => return false,
    };
    match crate::photo_scanner::actor::extension_chars(p.as_slice(), a, b) {
        None => false,
        Some(e) => {
            let t = chars_of("txt");
            crate::text::chars_equal(e.as_slice(), t.as_slice())
        },
    }
}

/// What handling one event came to.
#[derive(Debug, Clone, Copy, PartialEq, Eq)]
pub enum HandleOutcome {
    /// `lines` complete lines were stored; the file is read up to `new_cursor`.
    Ingested { lines: usize, new_cursor: u64 },
    /// New bytes but no complete line yet; `pending` bytes wait for their line feed.
    Buffered { pending: usize },
    /// Nothing new in the file.
    NoOp,
    /// The file is gone; its state was dropped.
    Removed,
    /// Events were lost; the caller rescans.
    OverflowAck,
    /// Ingest is paused: `backlog` projected events are pending.
    Paused { backlog: i64 },
}

/// Result of a rescan of the log directory.
#[derive(Debug, Clone, Copy, PartialEq, Eq)]
pub enum ReconcileOutcome {
    /// `catched_up` files had new bytes; `skipped` had none (or were paused or gone).
    Completed { catched_up: usize, skipped: usize },
    /// Another rescan was running.
    AlreadyRunning,
}

/// The first step for an event.
#[derive(Debug, Clone, PartialEq, Eq)]
pub enum WatcherEventStep {
    /// Probe and read the path.
    Ingest(String),
    /// Drop the state of the path.
    Forget(String),
    /// Nothing to do but acknowledge.
    AckOverflow,
}

pub fn watcher_event_step(event: FsEvent) -> (r: WatcherEventStep)
    ensures
        match event {
            FsEvent::PathChanged(p) => r == WatcherEventStep::Ingest(p),
            FsEvent::PathRemoved(p) => r == WatcherEventStep::Forget(p),
            FsEvent::QueueOverflow => r == WatcherEventStep::AckOverflow,
        },
{
    match event {
        FsEvent::PathChanged(p) => WatcherEventStep::Ingest(p),
        FsEvent::PathRemoved(p) => WatcherEventStep::Forget(p),
        FsEvent::QueueOverflow => WatcherEventStep::AckOverflow,
    }
}

/// Ingest stops while the number of pending projected events is at the limit or above.
pub fn backlog_pause(backlog: i64, limit: i64) -> (r: Option<HandleOutcome>)
    ensures
        r == (if backlog >= limit {
            Some(HandleOutcome::Paused { backlog })
        } else {
            None::<HandleOutcome>
        }),
{
    if backlog >= limit {
        Some(HandleOutcome::Paused { backlog })
    } else {
        None
    }
}

/// How the in-memory state of a file is set up.
#[derive(Debug, Clone, Copy, PartialEq, Eq)]
pub enum StateAction {
    FirstSeen,
    ContinueExisting,
    ResetForBump(GenerationBumpReason),
}

pub open spec fn identity_from_probe(p: ProbedFile, generation: u32) -> FileIdentity {
    FileIdentity {
        volume_serial: p.volume_serial,
        file_id_high: p.file_id_high,
        file_id_low: p.file_id_low,
        generation,
        creation_time: p.creation_time,
        first_kb_hash: p.first_kb_hash,
    }
}

/// Why the probe shows a new generation of a known file, checked in this order: the file
/// is shorter than the ingest position, its first line changed, its creation time
/// changed, or its modification time went below `last_mtime`, the one seen at the
/// previous probe.
pub open spec fn probe_bump_reason(id: FileIdentity, cursor: u64, last_mtime: i64, p: ProbedFile) -> Option<
    GenerationBumpReason,
> {
    if p.size < cursor as i64 {
        Some(GenerationBumpReason::Truncate)
    } else if p.first_kb_hash@ != id.first_kb_hash@ {
        Some(GenerationBumpReason::FirstKbHashChanged)
    } else if p.creation_time != id.creation_time {
        Some(GenerationBumpReason::CreationTimeChanged)
    } else if p.mtime_unix_secs < last_mtime {
        Some(GenerationBumpReason::MtimeWentBackwards)
    } else {
        None
    }
}

/// Law: probing again a file that only kept or grew its size, kept its first line and its
/// creation time, and whose modification time did not go back, shows no new generation;
/// `identity_step` then continues the file with the same identity, and with nothing new to
/// read `take_batch` gives `Nothing` and leaves the state as it was.
pub proof fn lemma_unchanged_file_continues(id: FileIdentity, cursor: u64, last_mtime: i64, p: ProbedFile)
    requires
        cursor as i64 <= p.size,
        p.first_kb_hash == id.first_kb_hash,
        p.creation_time == id.creation_time,
        last_mtime <= p.mtime_unix_secs,
    ensures
        probe_bump_reason(id, cursor, last_mtime, p) is None,
{
}

/// Law: each sign of a new file generation is noticed, in this order of precedence: a
/// file shorter than what was already read was truncated; otherwise a changed first line,
/// then a changed creation time, then a modification time earlier than at the previous
/// probe each start a new generation with that reason.
pub proof fn lemma_new_generation_signs(id: FileIdentity, cursor: u64, last_mtime: i64, p: ProbedFile)
    ensures
        p.size < cursor as i64 ==> probe_bump_reason(id, cursor, last_mtime, p) == Some(
            GenerationBumpReason::Truncate,
        ),
        (p.size >= cursor as i64 && p.first_kb_hash@ != id.first_kb_hash@) ==> probe_bump_reason(
            id,
            cursor,
            last_mtime,
            p,
        ) == Some(GenerationBumpReason::FirstKbHashChanged),
        (p.size >= cursor as i64 && p.first_kb_hash@ == id.first_kb_hash@ && p.creation_time
            != id.creation_time) ==> probe_bump_reason(id, cursor, last_mtime, p) == Some(
            GenerationBumpReason::CreationTimeChanged,
        ),
        (p.size >= cursor as i64 && p.first_kb_hash@ == id.first_kb_hash@ && p.creation_time
            == id.creation_time && p.mtime_unix_secs < last_mtime) ==> probe_bump_reason(
            id,
            cursor,
            last_mtime,
            p,
        ) == Some(GenerationBumpReason::MtimeWentBackwards),
{
}

/// Whether, and why, the probe shows a new generation of a known file that is read up to
/// `cursor` and whose previous probe saw the modification time `last_mtime`.
pub fn probe_bump(id: &FileIdentity, cursor: u64, last_mtime: i64, probed: &ProbedFile) -> (r: Option<
    GenerationBumpReason,
>)
    ensures
        r == probe_bump_reason(*id, cursor, last_mtime, *probed),
{
    first_bump_reason(
        PrevFileState {
            generation: id.generation,
            first_kb_hash: &id.first_kb_hash,
            creation_time: id.creation_time,
            mtime_unix_secs: last_mtime,
            ingest_position: cursor as i64,
        },
        CurrentFileState {
            size: probed.size,
            first_kb_hash: &probed.first_kb_hash,
            creation_time: probed.creation_time,
            mtime_unix_secs: probed.mtime_unix_secs,
        },
    )
}

/// A file seen for the first time starts at generation 0; a known file (its identity, the
/// position it is read up to and the modification time of its previous probe) either
/// continues with its identity or, when its probe shows a new generation, restarts with
/// the next generation number and the probed identity. The generation counter must have
/// room only when a bump happens.
pub fn identity_step(prev: Option<(FileIdentity, u64, i64)>, probed: &ProbedFile) -> (r: (
    StateAction,
    FileIdentity,
))
    requires
        prev matches Some((id, c, m)) ==> (probe_bump_reason(id, c, m, *probed) is Some
            ==> id.generation < u32::MAX),
    ensures
        match prev {
            None => r == (StateAction::FirstSeen, identity_from_probe(*probed, 0)),
            Some((id, cursor, last_mtime)) => match probe_bump_reason(id, cursor, last_mtime, *probed) {
                Some(reason) => r == (
                    StateAction::ResetForBump(reason),
                    identity_from_probe(*probed, (id.generation + 1) as u32),
                ),
                None => r == (StateAction::ContinueExisting, id),
            },
        },
{
    match prev {
        None => (
            StateAction::FirstSeen,
            FileIdentity {
                volume_serial: probed.volume_serial,
                file_id_high: probed.file_id_high,
                file_id_low: probed.file_id_low,
                generation: 0,
                creation_time: probed.creation_time,
                first_kb_hash: probed.first_kb_hash,
            },
        ),
        Some((id, cursor, last_mtime)) => match probe_bump(&id, cursor, last_mtime, probed) {
            Some(reason) => (
                StateAction::ResetForBump(reason),
                FileIdentity {
                    volume_serial: probed.volume_serial,
                    file_id_high: probed.file_id_high,
                    file_id_low: probed.file_id_low,
                    generation: id.generation + 1,
                    creation_time: probed.creation_time,
                    first_kb_hash: probed.first_kb_hash,
                },
            ),
            None => (StateAction::ContinueExisting, id),
        },
    }
}

/// The `processed_log_files` row for a file.
#[derive(Debug, Clone, PartialEq, Eq)]
pub struct ProcessedLogFileInput {
    pub file_identity_hash: String,
    pub log_sequence_key: String,
    pub volume_serial: u32,
    pub file_id_high: u32,
    pub file_id_low: u32,
    pub generation: u32,
    pub creation_time: i64,
    pub first_kb_hash: String,
    pub file_name: String,
    pub file_size: i64,
    pub mtime: UtcTime,
    pub tz_id: String,
    pub tz_source: String,
}

/// The row for the file at `path` with the given identity and probe; `now` stands in for
/// a modification time that is no calendar instant and dates a name that holds none.
pub fn processed_file_input(
    path: &str,
    identity: &FileIdentity,
    probed: &ProbedFile,
    now: UtcTime,
    config: &WatcherConfig,
) -> (r: ProcessedLogFileInput)
    requires
        utc_representable(now),
    ensures
        r.file_identity_hash@ == hex_text(
            crate::log_watcher::file_identity::blake3_digest(
                crate::log_watcher::file_identity::identity_bytes(*identity),
            ),
        ),
        match log_name_key(path@) {
            Some(k) => r.log_sequence_key@ == k,
            None => exists|n: NaiveLocal|
                #![trigger iso_utc_text(n)]
                n.valid() && n.secs() == now.secs && n.nanosecond == now.nanos
                    && r.log_sequence_key@ == iso_utc_text(n),
        },
        r.volume_serial == identity.volume_serial,
        r.file_id_high == identity.file_id_high,
        r.file_id_low == identity.file_id_low,
        r.generation == identity.generation,
        r.creation_time == identity.creation_time,
        r.first_kb_hash@ == hex_text(identity.first_kb_hash@),
        r.file_name@ == (match path_file_name(path@) {
            Some(n) => n,
            None => Seq::empty(),
        }),
        r.file_size == probed.size,
        r.mtime == (if utc_representable(UtcTime { secs: probed.mtime_unix_secs, nanos: 0 }) {
            UtcTime { secs: probed.mtime_unix_secs, nanos: 0 }
        } else {
            now
        }),
        r.tz_id@ == config.tz_id@,
        r.tz_source@ == config.tz_source@,
{
    let p = chars_of(path);
    let file_name = match file_name_bounds(p.as_slice()) {
        Some((a, b)) => substring(p.as_slice(), a, b),
        None => String::new(),
    };
    let m = UtcTime { secs: probed.mtime_unix_secs, nanos: 0 };
    let mtime = match utc_to_civil(m) {
        Some(_) => m,
        None => now,
    };
    ProcessedLogFileInput {
        file_identity_hash: identity.identity_hash_hex(),
        log_sequence_key: derive_log_sequence_key(path, now),
        volume_serial: identity.volume_serial,
        file_id_high: identity.file_id_high,
        file_id_low: identity.file_id_low,
        generation: identity.generation,
        creation_time: identity.creation_time,
        first_kb_hash: hex_encode(&identity.first_kb_hash),
        file_name,
        file_size: probed.size,
        mtime,
        tz_id: config.tz_id.clone(),
        tz_source: config.tz_source.clone(),
    }
}

/// One raw event to store.
#[derive(Debug, Clone, PartialEq, Eq)]
pub struct RawEventInput {
    pub processed_log_file_id: i64,
    /// Where the line starts in the file.
    pub byte_offset: i64,
    pub event: LogEvent,
    pub naive_local: Option<NaiveLocal>,
}

/// Where line `i` of a batch starts: the cursor for the first, the end of the previous
/// line for the others.
pub open spec fn line_start(cursor_before: u64, lines: Seq<(String, u64)>, i: int) -> u64 {
    if i == 0 {
        cursor_before
    } else {
        lines[i - 1].1
    }
}

/// The event and local time stored for a line: what it parses to, or an unparsable line
/// without a time.
pub open spec fn line_event(text: Seq<char>, ev: EventView, naive: Option<NaiveLocal>) -> bool {
    match parse_line_spec(text) {
        Some((n, e)) => ev == e && naive == Some(n),
        None => ev == (EventView::UnparsableLine { reason: "no_timestamp_or_unparsable"@ }) && naive is None,
    }
}

/// The raw events for the complete lines of one read, each with the offset where its line
/// starts.
pub fn raw_inputs_for_lines(pf_id: i64, cursor_before: u64, lines: &Vec<(String, u64)>) -> (r: Vec<
    RawEventInput,
>)
    ensures
        r@.len() == lines@.len(),
        forall|i: int|
            0 <= i < r@.len() ==> {
                &&& (#[trigger] r@[i]).processed_log_file_id == pf_id
                &&& r@[i].byte_offset == line_start(cursor_before, lines@, i) as i64
                &&& line_event(lines@[i].0@, r@[i].event@, r@[i].naive_local)
            },
{
    let mut out: Vec<RawEventInput> = Vec::new();
    let mut prev_end = cursor_before;
    let mut i: usize = 0;
    while i < lines.len()
        invariant
            i <= lines@.len(),
            out@.len() == i,
            prev_end == line_start(cursor_before, lines@, i as int),
            forall|k: int|
                0 <= k < i ==> {
                    &&& (#[trigger] out@[k]).processed_log_file_id == pf_id
                    &&& out@[k].byte_offset == line_start(cursor_before, lines@, k) as i64
                    &&& line_event(lines@[k].0@, out@[k].event@, out@[k].naive_local)
                },
        decreases lines@.len() - i,
    {
        let start = prev_end as i64;
        prev_end = lines[i].1;
        let parsed = parse_line(lines[i].0.as_str());
        let (event, naive_local) = match parsed {
            Some(p) => (p.event, Some(p.naive_local)),
            None => (LogEvent::UnparsableLine { reason: String::from_str("no_timestamp_or_unparsable") }, None),
        };
        out.push(RawEventInput { processed_log_file_id: pf_id, byte_offset: start, event, naive_local });
        i = i + 1;
    }
    out
}

/// In-memory ingest state of one watched file.
#[derive(Debug)]
pub struct WatchedFile {
    pub pf_id: i64,
    pub identity: FileIdentity,
    pub buffer: LineBuffer,
    /// The stored ingest position.
    pub cursor: u64,
    /// Modification time seen at the latest probe.
    pub last_mtime: i64,
}

/// What one read of new bytes gives.
#[derive(Debug, Clone, PartialEq, Eq)]
pub enum BatchStep {
    /// No new byte.
    Nothing,
    /// No complete line yet.
    Buffered { pending: usize },
    /// Raw events to store; afterwards the file is read up to `new_cursor`.
    Ready { inputs: Vec<RawEventInput>, new_cursor: u64 },
}

/// The buffered bytes and position once a UTF-8 byte-order mark at the very start of the
/// file (position 0) is skipped.
pub open spec fn after_bom(p: Seq<u8>, c: nat) -> (Seq<u8>, nat) {
    if c == 0 && p.len() >= 3 && p[0] == 0xEFu8 && p[1] == 0xBBu8 && p[2] == 0xBFu8 {
        (p.skip(3), 3nat)
    } else {
        (p, c)
    }
}

impl WatchedFile {
    /// State of a file seen for the first time or in a new generation: read from byte 0.
    pub fn start(pf_id: i64, identity: FileIdentity, mtime: i64) -> (r: Self)
        ensures
            r.pf_id == pf_id,
            r.identity == identity,
            r.cursor == 0,
            r.last_mtime == mtime,
            r.buffer@ == (Seq::<u8>::empty(), 0nat),
            r.buffer.room() == u64::MAX,
    {
        let buffer = LineBuffer::new();
        WatchedFile { pf_id, identity, buffer, cursor: 0, last_mtime: mtime }
    }

    /// Feeds the bytes read after what was taken in so far, skips a UTF-8 byte-order mark
    /// at the start of the file, and takes the complete lines out as raw events.
    pub fn take_batch(&mut self, new_bytes: &[u8]) -> (r: BatchStep)
        requires
            new_bytes@.len() <= old(self).buffer.room(),
        ensures
            final(self).pf_id == old(self).pf_id,
            final(self).identity == old(self).identity,
            final(self).cursor == old(self).cursor,
            final(self).last_mtime == old(self).last_mtime,
            final(self).buffer.room() == old(self).buffer.room() - new_bytes@.len(),
            ({
                let (p, c) = after_bom(old(self).buffer@.0 + new_bytes@, old(self).buffer@.1);
                let segs = line_segments(p, 0);
                if new_bytes@.len() == 0 {
                    r == BatchStep::Nothing && final(self).buffer@ == old(self).buffer@
                } else if segs.len() == 0 {
                    r == BatchStep::Buffered { pending: p.len() as usize } && final(self).buffer@ == (p, c)
                } else {
                    &&& final(self).buffer@ == (p.skip(completed_len(p)), (c + completed_len(p)) as nat)
                    &&& r matches BatchStep::Ready { inputs, new_cursor } && {
                        &&& new_cursor == c + completed_len(p)
                        &&& inputs@.len() == segs.len()
                        &&& forall|i: int|
                            0 <= i < inputs@.len() ==> {
                                &&& (#[trigger] inputs@[i]).processed_log_file_id == old(self).pf_id
                                &&& inputs@[i].byte_offset == (if i == 0 {
                                    old(self).cursor
                                } else {
                                    (c + segs[i - 1].1 + 1) as u64
                                }) as i64
                                &&& line_event(
                                    utf8_lossy(strip_cr(p.subrange(segs[i].0, segs[i].1))),
                                    inputs@[i].event@,
                                    inputs@[i].naive_local,
                                )
                            }
                    }
                }
            }),
    {
        if new_bytes.len() == 0 {
            return BatchStep::Nothing;
        }
        self.buffer.extend_from_slice(new_bytes);
        if self.buffer.completed_cursor() == 0 {
            self.buffer.skip_utf8_bom();
        }
        let lines = self.buffer.take_completed_lines();
        if lines.len() == 0 {
            return BatchStep::Buffered { pending: self.buffer.pending_bytes() };
        }
        let new_cursor = lines[lines.len() - 1].1;
        let inputs = raw_inputs_for_lines(self.pf_id, self.cursor, &lines);
        proof {
            let (p, c) = after_bom(old(self).buffer@.0 + new_bytes@, old(self).buffer@.1);
            let segs = line_segments(p, 0);
            assert(segs.len() > 0);
            assert(completed_len(p) == segs.last().1 + 1);
        }
        BatchStep::Ready { inputs, new_cursor }
    }

    /// The file offset to read from next: just after the bytes already taken in, the
    /// delivered lines and the unfinished line waiting in the buffer.
    pub fn read_offset(&self) -> (r: u64)
        ensures
            r == self.buffer@.1 + self.buffer@.0.len(),
    {
        self.buffer.end_offset()
    }

    /// Records the modification time of the latest probe.
    pub fn observe_mtime(&mut self, mtime: i64)
        ensures
            final(self).last_mtime == mtime,
            final(self).cursor == old(self).cursor,
            final(self).pf_id == old(self).pf_id,
            final(self).identity == old(self).identity,
            final(self).buffer@ == old(self).buffer@,
            final(self).buffer.room() == old(self).buffer.room(),
    {
        self.last_mtime = mtime;
    }

    /// Records that the lines up to `new_cursor` are stored.
    pub fn commit(&mut self, new_cursor: u64)
        ensures
            final(self).cursor == new_cursor,
            final(self).last_mtime == old(self).last_mtime,
            final(self).pf_id == old(self).pf_id,
            final(self).identity == old(self).identity,
            final(self).buffer@ == old(self).buffer@,
            final(self).buffer.room() == old(self).buffer.room(),
    {
        self.cursor = new_cursor;
    }
}

/// Whether an ingest outcome counts as catching up in a rescan.
pub open spec fn caught_up(o: HandleOutcome) -> bool {
    o is Ingested || o is Buffered
}

pub open spec fn count_caught_up(o: Seq<HandleOutcome>) -> nat
    decreases o.len(),
{
    if o.len() == 0 {
        0
    } else {
        count_caught_up(o.drop_last()) + if caught_up(o.last()) {
            1nat
        } else {
            0nat
        }
    }
}

/// Tallies a rescan: files with new bytes were caught up; all others were skipped.
pub fn tally_rescan(outcomes: &[HandleOutcome]) -> (r: ReconcileOutcome)
    ensures
        r == (ReconcileOutcome::Completed {
            catched_up: count_caught_up(outcomes@) as usize,
            skipped: (outcomes@.len() - count_caught_up(outcomes@)) as usize,
        }),
{
    let mut caught: usize = 0;
    let mut i: usize = 0;
    while i < outcomes.len()
        invariant
            i <= outcomes@.len(),
            caught == count_caught_up(outcomes@.take(i as int)),
            caught <= i,
        decreases outcomes@.len() - i,
    {
        assert(outcomes@.take(i + 1).drop_last() =~= outcomes@.take(i as int));
        match outcomes[i] {
            HandleOutcome::Ingested { .. } | HandleOutcome::Buffered { .. } => {
                caught = caught + 1;
            },
            _ => {},
        }
        i = i + 1;
    }
    assert(outcomes@.take(outcomes@.len() as int) =~= outcomes@);
    ReconcileOutcome::Completed { catched_up: caught, skipped: outcomes.len() - caught }
}

} // verus!
