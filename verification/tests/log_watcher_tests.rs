use vrcwatchdog_core::log_parser::event::LogEvent;
use vrcwatchdog_core::log_watcher::file_identity::{
    compute_head_line_hash, detect_bump, CurrentFileState, FileIdentity, GenerationBumpReason,
    PrevFileState,
};
use vrcwatchdog_core::log_watcher::fs_event::{fs_events_for, ChangeKind, FsEvent};
use vrcwatchdog_core::log_watcher::hex::hex_encode;
use vrcwatchdog_core::log_watcher::ingest::{
    backlog_pause, identity_step, is_log_candidate, probe_bump, probe_from_unix_metadata,
    raw_inputs_for_lines, tally_rescan, watcher_event_step, BatchStep, HandleOutcome,
    ProbedFile, ReconcileOutcome, StateAction, WatchedFile, WatcherConfig, WatcherEventStep,
};
use vrcwatchdog_core::log_watcher::line_buffer::LineBuffer;
use vrcwatchdog_core::time::naive::NaiveLocal;

fn h(seed: u8) -> [u8; 32] {
    [seed; 32]
}

#[test]
fn identity_hash_is_deterministic_and_unique_per_field() {
    let a = FileIdentity {
        volume_serial: 1,
        file_id_high: 2,
        file_id_low: 3,
        generation: 0,
        creation_time: 100,
        first_kb_hash: h(0xAA),
    };
    assert_eq!(a.identity_hash_hex(), a.identity_hash_hex());
    let mut b = a;
    b.generation = 1;
    assert_ne!(a.identity_hash_hex(), b.identity_hash_hex());
    let mut c = a;
    c.first_kb_hash = h(0xBB);
    assert_ne!(a.identity_hash_hex(), c.identity_hash_hex());
}

fn prev(generation: u32, first_kb: &[u8; 32], creation_time: i64, mtime: i64, ingest_position: i64) -> PrevFileState<'_> {
    PrevFileState { generation, first_kb_hash: first_kb, creation_time, mtime_unix_secs: mtime, ingest_position }
}

fn curr(size: i64, first_kb: &[u8; 32], creation_time: i64, mtime: i64) -> CurrentFileState<'_> {
    CurrentFileState { size, first_kb_hash: first_kb, creation_time, mtime_unix_secs: mtime }
}

#[test]
fn detect_truncate() {
    let p_kb = h(0xAA);
    let c_kb = h(0xAA);
    let r = detect_bump(prev(0, &p_kb, 100, 1000, 5000), curr(100, &c_kb, 100, 1000));
    assert_eq!(r, Some((1, GenerationBumpReason::Truncate)));
}

#[test]
fn detect_first_kb_hash_change() {
    let p_kb = h(0xAA);
    let c_kb = h(0xBB);
    let r = detect_bump(prev(0, &p_kb, 100, 1000, 0), curr(5000, &c_kb, 100, 1000));
    assert_eq!(r, Some((1, GenerationBumpReason::FirstKbHashChanged)));
}

#[test]
fn detect_creation_time_change() {
    let kb = h(0xAA);
    let r = detect_bump(prev(0, &kb, 100, 1000, 0), curr(5000, &kb, 200, 1000));
    assert_eq!(r, Some((1, GenerationBumpReason::CreationTimeChanged)));
}

#[test]
fn detect_mtime_backwards() {
    let kb = h(0xAA);
    let r = detect_bump(prev(0, &kb, 100, 2000, 0), curr(5000, &kb, 100, 1000));
    assert_eq!(r, Some((1, GenerationBumpReason::MtimeWentBackwards)));
}

#[test]
fn no_bump_when_file_is_unchanged_or_just_grew() {
    let kb = h(0xAA);
    let r = detect_bump(prev(3, &kb, 100, 1000, 500), curr(5000, &kb, 100, 1500));
    assert_eq!(r, None);
}

#[test]
fn truncate_takes_priority_over_other_changes() {
    let p_kb = h(0xAA);
    let c_kb = h(0xBB);
    let r = detect_bump(prev(0, &p_kb, 100, 1000, 5000), curr(0, &c_kb, 200, 500));
    assert_eq!(r, Some((1, GenerationBumpReason::Truncate)));
}

#[test]
fn complete_line_emitted_with_correct_offset() {
    let mut buf = LineBuffer::new();
    buf.extend_from_slice(b"hello\nworld\n");
    let lines = buf.take_completed_lines();
    assert_eq!(lines, vec![("hello".to_string(), 6), ("world".to_string(), 12)]);
    assert_eq!(buf.completed_cursor(), 12);
    assert_eq!(buf.pending_bytes(), 0);
}

#[test]
fn incomplete_trailing_line_held_until_next_extend() {
    let mut buf = LineBuffer::new();
    buf.extend_from_slice(b"hello\nincomp");
    let lines = buf.take_completed_lines();
    assert_eq!(lines, vec![("hello".to_string(), 6)]);
    assert_eq!(buf.completed_cursor(), 6);
    assert_eq!(buf.pending_bytes(), 6);
    buf.extend_from_slice(b"lete\n");
    let lines = buf.take_completed_lines();
    assert_eq!(lines, vec![("incomplete".to_string(), 17)]);
    assert_eq!(buf.completed_cursor(), 17);
    assert_eq!(buf.pending_bytes(), 0);
}

#[test]
fn crlf_endings_normalized() {
    let mut buf = LineBuffer::new();
    buf.extend_from_slice(b"hello\r\nworld\r\n");
    let lines = buf.take_completed_lines();
    assert_eq!(lines.len(), 2);
    assert_eq!(lines[0].0, "hello");
    assert_eq!(lines[1].0, "world");
    assert_eq!(buf.completed_cursor(), 14);
}

#[test]
fn utf8_bom_skipped_at_start() {
    let mut buf = LineBuffer::new();
    buf.extend_from_slice(b"\xEF\xBB\xBFhello\n");
    buf.skip_utf8_bom();
    let lines = buf.take_completed_lines();
    assert_eq!(lines, vec![("hello".to_string(), 9)]);
    assert_eq!(buf.completed_cursor(), 9);
}

#[test]
fn invalid_utf8_replaced_lossily() {
    let mut buf = LineBuffer::new();
    buf.extend_from_slice(b"abc\xFF\xFEdef\n");
    let lines = buf.take_completed_lines();
    assert_eq!(lines.len(), 1);
    assert!(lines[0].0.contains("abc"));
    assert!(lines[0].0.contains("def"));
    assert!(lines[0].0.contains('\u{FFFD}'));
}

#[test]
fn empty_lines_preserved() {
    let mut buf = LineBuffer::new();
    buf.extend_from_slice(b"\n\nfoo\n");
    let lines = buf.take_completed_lines();
    assert_eq!(lines, vec![("".to_string(), 1), ("".to_string(), 2), ("foo".to_string(), 6)]);
}

#[test]
fn cursor_advances_only_on_completed_lines() {
    let mut buf = LineBuffer::new();
    buf.extend_from_slice(b"partial");
    let lines = buf.take_completed_lines();
    assert_eq!(lines, vec![]);
    assert_eq!(buf.completed_cursor(), 0);
    assert_eq!(buf.pending_bytes(), 7);
}

#[test]
fn burst_of_short_lines_handled_in_single_take() {
    let mut buf = LineBuffer::new();
    for i in 0..100 {
        buf.extend_from_slice(format!("line{i}\n").as_bytes());
    }
    let lines = buf.take_completed_lines();
    assert_eq!(lines.len(), 100);
    assert_eq!(lines[99].0, "line99");
}

// ---- the watcher's own decisions

#[test]
fn line_split_across_two_reads_comes_out_once_and_whole() {
    let mut one = LineBuffer::new();
    one.extend_from_slice(b"ab\ncd\nef");
    let first = one.take_completed_lines();
    one.extend_from_slice(b"g\n");
    let second = one.take_completed_lines();
    let mut all = LineBuffer::new();
    all.extend_from_slice(b"ab\ncd\nefg\n");
    let whole = all.take_completed_lines();
    let mut joined = first.clone();
    joined.extend(second);
    assert_eq!(joined, whole);
}

#[test]
fn head_line_hash_ignores_bytes_after_first_line_feed() {
    assert_eq!(compute_head_line_hash(b"VRChat Build 1\nmore"), compute_head_line_hash(b"VRChat Build 1\nother"));
    assert_eq!(compute_head_line_hash(b"abc"), *blake3::hash(b"abc").as_bytes());
    assert_ne!(compute_head_line_hash(b"a\n"), compute_head_line_hash(b"b\n"));
}

#[test]
fn hex_encode_is_lower_case_two_digits_per_byte() {
    assert_eq!(hex_encode(&[0x00, 0xAB, 0x0F]), "00ab0f");
}

fn probed(size: i64, kb: [u8; 32], ctime: i64) -> ProbedFile {
    ProbedFile { size, first_kb_hash: kb, creation_time: ctime, mtime_unix_secs: 1000, volume_serial: 7, file_id_high: 0, file_id_low: 9 }
}

#[test]
fn first_seen_file_starts_at_generation_zero() {
    let (action, id) = identity_step(None, &probed(10, h(1), 100));
    assert_eq!(action, StateAction::FirstSeen);
    assert_eq!(id.generation, 0);
    assert_eq!(id.volume_serial, 7);
    assert_eq!(id.file_id_low, 9);
}

#[test]
fn known_file_that_grew_continues_and_truncated_one_restarts() {
    let (_, id) = identity_step(None, &probed(10, h(1), 100));
    let (action, same) = identity_step(Some((id, 10, 1000)), &probed(20, h(1), 100));
    assert_eq!(action, StateAction::ContinueExisting);
    assert_eq!(same, id);
    let (action, next) = identity_step(Some((id, 10, 1000)), &probed(5, h(1), 100));
    assert_eq!(action, StateAction::ResetForBump(GenerationBumpReason::Truncate));
    assert_eq!(next.generation, 1);
}

#[test]
fn raw_events_start_where_their_line_starts() {
    let lines = vec![
        ("2026.05.09 21:43:56 Log        -  [Behaviour] Entering Room: A".to_string(), 120u64),
        ("header".to_string(), 130u64),
    ];
    let inputs = raw_inputs_for_lines(4, 50, &lines);
    assert_eq!(inputs.len(), 2);
    assert_eq!(inputs[0].byte_offset, 50);
    assert_eq!(inputs[1].byte_offset, 120);
    assert_eq!(inputs[0].processed_log_file_id, 4);
    assert_eq!(inputs[0].event, LogEvent::RoomEntering { world_name: "A".into() });
    assert_eq!(
        inputs[0].naive_local,
        Some(NaiveLocal { year: 2026, month: 5, day: 9, hour: 21, minute: 43, second: 56, nanosecond: 0 })
    );
    assert_eq!(inputs[1].event, LogEvent::UnparsableLine { reason: "no_timestamp_or_unparsable".into() });
    assert_eq!(inputs[1].naive_local, None);
}

#[test]
fn watched_file_batches_complete_lines_and_holds_the_rest() {
    let id = FileIdentity { volume_serial: 1, file_id_high: 0, file_id_low: 2, generation: 0, creation_time: 0, first_kb_hash: h(0) };
    let mut f = WatchedFile::start(3, id, 0);
    assert_eq!(f.take_batch(b""), BatchStep::Nothing);
    assert_eq!(f.take_batch(b"half"), BatchStep::Buffered { pending: 4 });
    match f.take_batch(b" line\nnext") {
        BatchStep::Ready { inputs, new_cursor } => {
            assert_eq!(new_cursor, 10);
            assert_eq!(inputs.len(), 1);
            assert_eq!(inputs[0].byte_offset, 0);
            f.commit(new_cursor);
        }
        other => panic!("expected a batch, got {other:?}"),
    }
    match f.take_batch(b" one\n") {
        BatchStep::Ready { inputs, new_cursor } => {
            assert_eq!(new_cursor, 19);
            assert_eq!(inputs[0].byte_offset, 10);
        }
        other => panic!("expected a batch, got {other:?}"),
    }
}

#[test]
fn backlog_at_limit_pauses_ingest() {
    assert_eq!(backlog_pause(50_000, 50_000), Some(HandleOutcome::Paused { backlog: 50_000 }));
    assert_eq!(backlog_pause(49_999, 50_000), None);
}

#[test]
fn watcher_config_defaults() {
    let c = WatcherConfig::default();
    assert_eq!(c.batch_size, 100);
    assert_eq!(c.batch_timeout_ms, 200);
    assert_eq!(c.backlog_hard_limit, 50_000);
    assert_eq!(c.tz_source, "CapturedRealtime");
    assert!(!c.tz_id.is_empty());
}

#[test]
fn events_map_to_watcher_steps() {
    assert_eq!(watcher_event_step(FsEvent::PathChanged("a".into())), WatcherEventStep::Ingest("a".into()));
    assert_eq!(watcher_event_step(FsEvent::PathRemoved("a".into())), WatcherEventStep::Forget("a".into()));
    assert_eq!(watcher_event_step(FsEvent::QueueOverflow), WatcherEventStep::AckOverflow);
}

#[test]
fn notifications_become_events_per_path() {
    let ev = fs_events_for(ChangeKind::Modify, vec!["a".into(), "b".into()]);
    assert_eq!(ev, vec![FsEvent::PathChanged("a".into()), FsEvent::PathChanged("b".into())]);
    let ev = fs_events_for(ChangeKind::Remove, vec!["a".into()]);
    assert_eq!(ev, vec![FsEvent::PathRemoved("a".into())]);
    assert!(fs_events_for(ChangeKind::Other, vec!["a".into()]).is_empty());
}

#[test]
fn rescan_counts_files_with_new_bytes() {
    let r = tally_rescan(&[
        HandleOutcome::Ingested { lines: 2, new_cursor: 10 },
        HandleOutcome::Buffered { pending: 3 },
        HandleOutcome::NoOp,
        HandleOutcome::Paused { backlog: 9 },
    ]);
    assert_eq!(r, ReconcileOutcome::Completed { catched_up: 2, skipped: 2 });
}

#[test]
fn only_txt_files_are_log_candidates() {
    assert!(is_log_candidate("/logs/output_log_2026-05-09_21-43-56.txt"));
    assert!(!is_log_candidate("/logs/output_log.TXT"));
    assert!(!is_log_candidate("/logs/.txt"));
    assert!(!is_log_candidate("/logs/readme"));
}

#[test]
fn unix_metadata_splits_the_inode() {
    let p = probe_from_unix_metadata(5, 0x1_0000_0002, 0x0000_0003_0000_0004, 11, 12, h(0));
    assert_eq!(p.volume_serial, 2);
    assert_eq!(p.file_id_high, 3);
    assert_eq!(p.file_id_low, 4);
    assert_eq!(p.size, 5);
    assert_eq!(p.mtime_unix_secs, 11);
    assert_eq!(p.creation_time, 12);
}

#[test]
fn mtime_going_backwards_restarts_the_file() {
    let (_, id) = identity_step(None, &probed(10, h(1), 100));
    // The previous probe saw mtime 2000; this one sees 1000, everything else unchanged.
    let (action, next) = identity_step(Some((id, 10, 2000)), &probed(20, h(1), 100));
    assert_eq!(action, StateAction::ResetForBump(GenerationBumpReason::MtimeWentBackwards));
    assert_eq!(next.generation, 1);
    assert_eq!(probe_bump(&id, 10, 2000, &probed(20, h(1), 100)), Some(GenerationBumpReason::MtimeWentBackwards));
    assert_eq!(probe_bump(&id, 10, 1000, &probed(20, h(1), 100)), None);
}

#[test]
fn exhausted_generation_counter_still_continues_an_unchanged_file() {
    let (_, id0) = identity_step(None, &probed(10, h(1), 100));
    let id = FileIdentity { generation: u32::MAX, ..id0 };
    let (action, same) = identity_step(Some((id, 10, 1000)), &probed(20, h(1), 100));
    assert_eq!(action, StateAction::ContinueExisting);
    assert_eq!(same.generation, u32::MAX);
}

#[test]
fn buffered_partial_line_is_joined_with_the_next_read() {
    let id = FileIdentity { volume_serial: 1, file_id_high: 0, file_id_low: 2, generation: 0, creation_time: 0, first_kb_hash: h(0) };
    let mut f = WatchedFile::start(3, id, 0);
    assert_eq!(f.read_offset(), 0);
    match f.take_batch(b"A\nB") {
        BatchStep::Ready { inputs, new_cursor } => {
            assert_eq!(inputs.len(), 1);
            assert_eq!(new_cursor, 2);
            f.commit(new_cursor);
        }
        other => panic!("expected a batch, got {other:?}"),
    }
    // The next read starts after the buffered "B".
    assert_eq!(f.read_offset(), 3);
    match f.take_batch(b"C\n") {
        BatchStep::Ready { inputs, new_cursor } => {
            assert_eq!(inputs.len(), 1);
            assert_eq!(inputs[0].byte_offset, 2);
            assert_eq!(new_cursor, 5);
            f.commit(new_cursor);
        }
        other => panic!("expected a batch, got {other:?}"),
    }
    assert_eq!(f.read_offset(), 5);
    f.observe_mtime(42);
    assert_eq!(f.last_mtime, 42);
}

#[test]
fn cursor_ends_after_the_last_line_feed_of_all_reads() {
    let mut b = LineBuffer::new();
    for chunk in [&b"ab\ncd"[..], b"e\nf", b"gh"] {
        b.extend_from_slice(chunk);
        let _ = b.take_completed_lines();
    }
    // "ab\ncde\nfgh": the last line feed is at index 6.
    assert_eq!(b.completed_cursor(), 7);
    assert_eq!(b.pending_bytes(), 3);
    assert_eq!(b.end_offset(), 10);
}

#[test]
fn byte_order_mark_at_file_start_is_skipped() {
    let id = FileIdentity { volume_serial: 1, file_id_high: 0, file_id_low: 2, generation: 0, creation_time: 0, first_kb_hash: h(0) };
    let mut f = WatchedFile::start(3, id, 0);
    // The mark arrives split over two reads.
    assert_eq!(f.take_batch(b"\xEF\xBB"), BatchStep::Buffered { pending: 2 });
    match f.take_batch(b"\xBFhello\n") {
        BatchStep::Ready { inputs, new_cursor } => {
            assert_eq!(new_cursor, 9);
            assert_eq!(inputs.len(), 1);
            assert_eq!(inputs[0].event, LogEvent::UnparsableLine { reason: "no_timestamp_or_unparsable".into() });
            f.commit(new_cursor);
        }
        other => panic!("expected a batch, got {other:?}"),
    }
    // A mark later in the file is content, not skipped.
    match f.take_batch(b"\xEF\xBB\xBFx\n") {
        BatchStep::Ready { new_cursor, .. } => assert_eq!(new_cursor, 14),
        other => panic!("expected a batch, got {other:?}"),
    }
}

#[test]
fn windows_log_paths_are_candidates_by_their_file_name() {
    assert!(is_log_candidate("C:\\Users\\u\\AppData\\LocalLow\\VRChat\\VRChat\\output_log_2026-05-09_21-43-56.txt"));
    assert!(!is_log_candidate("C:\\logs.txt\\player.log"));
}
