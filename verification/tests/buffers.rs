use std::hash::{Hash, Hasher};
use sha2::{Digest, Sha256};
use weaver::buffers::cli::{
    dedup_paths, default_level, duration_digits_within_limit, exit_code_for, observer_to_diagnostic, parse_duration,
    resolve_socket, CliError, StartupDiagnostic, EXIT_AUTHORITY_CONFLICT, EXIT_BUS_UNAVAILABLE, EXIT_INTERNAL, EXIT_STARTUP_FAILURE,
};
use weaver::buffers::edits::{ApplyError, BoundarySide};
use weaver::buffers::model::{
    buffer_bootstrap_facts, open_failure, save_outcome_from_write, sha256_digest, DigestStream,
    watcher_instance_entity_ref, BufferState, ObserverError, OpenFailure, SaveOutcome, StartupKind, TargetStat,
    WriteStep,
};
use weaver::buffers::observer::{classify_io_err, observation_from_digest, observation_from_stream};
use weaver::buffers::publisher::{
    all_unobservable, bootstrap_messages, bootstrap_tick, bus_closed_error, buffer_open_event, classify_server_error,
    classify_write_error, degraded_transition, dispatch_buffer_edit, dispatch_buffer_open, poll_tick_per_buffer,
    first_startup_step, next_startup_step, retraction_messages, shutdown_messages, translate_server_error,
    watcher_status_message, BufferEditOutcome, StartupStep, BufferOpenOutcome, BufferRegistry,
    PublisherError, ServerSentError,
};
use weaver::bus::client::ClientError;
use weaver::bus::codec::CodecError;
use weaver::provenance::ActorIdentity;
use weaver::types::buffer_entity::{buffer_entity_ref, BUFFER_NAMESPACE_BIT, INSTANCE_NAMESPACE_BIT, REPO_NAMESPACE_BIT};
use weaver::types::edit::{Position, Range, TextEdit};
use weaver::types::entity_ref::EntityRef;
use weaver::types::event::EventPayload;
use weaver::types::fact::FactValue;
use weaver::types::ids::EventId;
use weaver::types::message::{BusMessage, LifecycleSignal};

fn pos(line: u32, character: u32) -> Position {
    Position { line, character }
}

fn edit(start: Position, end: Position, new_text: &str) -> TextEdit {
    TextEdit { range: Range { start, end }, new_text: new_text.into() }
}

fn pure_insert(line: u32, character: u32, text: &str) -> TextEdit {
    edit(pos(line, character), pos(line, character), text)
}

fn state_from_bytes(bytes: &[u8]) -> BufferState {
    BufferState::from_opened("/tmp/weaver-fixture.txt".into(), 42, bytes.to_vec())
}

fn sha(bytes: &[u8]) -> [u8; 32] {
    Sha256::digest(bytes).into()
}

#[test]
fn digest_stream_matches_one_shot_sha256() {
    let mut s = DigestStream::new();
    s.feed(b"hello ");
    s.feed(b"");
    s.feed(b"world");
    assert_eq!(s.finish(), sha(b"hello world"));
    assert_eq!(sha256_digest(b"abc"), sha(b"abc"));
    assert_eq!(DigestStream::new().finish(), sha(b""));
}

#[test]
fn buffer_entity_reserved_bits_set_correctly() {
    for p in ["/tmp/a", "/home/alex/code/weaver/core/src/lib.rs", "/", "/this/is/a/very/long/canonical/path"] {
        let e = buffer_entity_ref(p).as_u64();
        assert!(e & BUFFER_NAMESPACE_BIT != 0, "bit 61 must be set for {p}");
        assert!(e & INSTANCE_NAMESPACE_BIT == 0, "bit 62 must be clear for {p}");
        assert!(e & REPO_NAMESPACE_BIT == 0, "bit 63 must be clear for {p}");
    }
}

#[test]
fn model_buffer_entity_is_deterministic() {
    let p = "/home/alex/file.txt";
    assert_eq!(buffer_entity_ref(p), buffer_entity_ref(p));
}

#[test]
fn model_buffer_entity_distinguishes_paths() {
    assert_ne!(buffer_entity_ref("/tmp/a"), buffer_entity_ref("/tmp/b"));
}

#[test]
fn watcher_instance_entity_reserved_bits_set_correctly() {
    for id in [0u128, 1, 0xDEAD_BEEF, u128::MAX, 0x0123_4567_89ab_cdef_0123_4567_89ab_cdef] {
        let e = watcher_instance_entity_ref(id).as_u64();
        assert!(e & INSTANCE_NAMESPACE_BIT != 0, "bit 62 must be set");
        assert!(e & REPO_NAMESPACE_BIT == 0, "bit 63 must be clear");
    }
}

#[test]
fn watcher_instance_entity_is_deterministic() {
    let id = 0x5555_aaaa_5555_aaaa_1234_5678_9abc_def0;
    assert_eq!(watcher_instance_entity_ref(id), watcher_instance_entity_ref(id));
}

#[test]
fn watcher_instance_entity_distinguishes_uuids() {
    let a = watcher_instance_entity_ref(0x1111_2222_3333_4444_5555_6666_7777_8888);
    let b = watcher_instance_entity_ref(0x8888_7777_6666_5555_4444_3333_2222_1111);
    assert_ne!(a, b);
}

#[test]
fn buffer_state_from_opened_establishes_digest_invariant() {
    let content = b"hello buffer\n";
    let state = BufferState::from_opened("/tmp/some/file".into(), 77, content.to_vec());
    assert_eq!(state.path(), "/tmp/some/file");
    assert_eq!(state.entity(), buffer_entity_ref("/tmp/some/file"));
    assert_eq!(state.content(), content);
    assert_eq!(state.byte_size(), content.len() as u64);
    assert_eq!(state.inode(), 77);
    assert_eq!(state.memory_digest(), &sha(content));
    assert!(!state.last_dirty());
    assert!(state.last_observable());
}

#[test]
fn observer_error_variants_are_distinct() {
    let transient = ObserverError::TransientRead { path: "/tmp/x".into(), source: std::io::Error::other("transient") };
    let missing = ObserverError::Missing { path: "/tmp/x".into() };
    let not_regular = ObserverError::NotRegularFile { path: "/tmp/x".into() };
    let startup = ObserverError::StartupFailure {
        path: "/tmp/x".into(),
        reason: "fixture".into(),
        kind: StartupKind::NotOpenable,
    };
    assert!(transient.to_display_string().contains("transient read"));
    assert!(transient.to_display_string().ends_with("transient"));
    assert!(missing.to_display_string().contains("missing"));
    assert!(not_regular.to_display_string().contains("regular file"));
    assert!(startup.to_display_string().contains("not openable"));
}

#[test]
fn apply_edits_empty_batch_is_structural_identity() {
    let mut s = state_from_bytes(b"hello world\n");
    let content_before = s.content().to_vec();
    let digest_before = *s.memory_digest();
    s.apply_edits(&[]).expect("empty batch must be Ok");
    assert_eq!(s.content(), content_before.as_slice());
    assert_eq!(s.memory_digest(), &digest_before);
}

#[test]
fn apply_edits_pure_insert_at_start() {
    let mut s = state_from_bytes(b"world");
    s.apply_edits(&[edit(pos(0, 0), pos(0, 0), "hello ")]).expect("pure insert at start");
    assert_eq!(s.content(), b"hello world");
}

#[test]
fn apply_edits_pure_delete() {
    let mut s = state_from_bytes(b"hello world");
    s.apply_edits(&[edit(pos(0, 5), pos(0, 11), "")]).expect("pure delete");
    assert_eq!(s.content(), b"hello");
}

#[test]
fn apply_edits_replace() {
    let mut s = state_from_bytes(b"hello world");
    s.apply_edits(&[edit(pos(0, 0), pos(0, 5), "HOWDY")]).expect("replace");
    assert_eq!(s.content(), b"HOWDY world");
}

#[test]
fn apply_edits_batched_descending_apply_preserves_input_positions() {
    let mut s = state_from_bytes(b"AAABBBCCC");
    s.apply_edits(&[
        edit(pos(0, 0), pos(0, 0), ">"),
        edit(pos(0, 3), pos(0, 3), "|"),
        edit(pos(0, 6), pos(0, 6), "|"),
    ])
    .expect("batched insert");
    assert_eq!(s.content(), b">AAA|BBB|CCC");
}

#[test]
fn apply_edits_supports_insert_at_past_last_virtual_position() {
    let mut s = state_from_bytes(b"abc\n");
    s.apply_edits(&[edit(pos(1, 0), pos(1, 0), "def")]).expect("insert at past-last position");
    assert_eq!(s.content(), b"abc\ndef");
}

#[test]
fn apply_edits_two_pure_inserts_at_same_position_both_apply_in_input_order() {
    let mut s = state_from_bytes(b"world");
    s.apply_edits(&[edit(pos(0, 0), pos(0, 0), "hello "), edit(pos(0, 0), pos(0, 0), "WAVE ")])
        .expect("two tied pure inserts");
    assert_eq!(s.content(), b"hello WAVE world");
}

#[test]
fn apply_edits_rejects_swapped_endpoints() {
    let mut s = state_from_bytes(b"hello world");
    let err = s.apply_edits(&[edit(pos(0, 5), pos(0, 0), "x")]).expect_err("swapped");
    assert!(matches!(err, ApplyError::SwappedEndpoints { edit_index: 0 }));
    assert_eq!(s.content(), b"hello world");
}

#[test]
fn apply_edits_rejects_out_of_bounds_line() {
    let mut s = state_from_bytes(b"hello");
    let err = s.apply_edits(&[edit(pos(0, 0), pos(5, 0), "x")]).expect_err("oob line");
    match err {
        ApplyError::OutOfBounds { edit_index, detail } => {
            assert_eq!(edit_index, 0);
            assert!(detail.contains("line"), "detail mentions line: {detail}");
        }
        other => panic!("expected OutOfBounds, got {other:?}"),
    }
}

#[test]
fn apply_edits_rejects_out_of_bounds_character() {
    let mut s = state_from_bytes(b"hi");
    let err = s.apply_edits(&[edit(pos(0, 5), pos(0, 5), "x")]).expect_err("oob character");
    match err {
        ApplyError::OutOfBounds { edit_index, detail } => {
            assert_eq!(edit_index, 0);
            assert!(detail.contains("character"), "detail mentions character: {detail}");
        }
        other => panic!("expected OutOfBounds, got {other:?}"),
    }
}

#[test]
fn apply_edits_rejects_mid_codepoint_boundary() {
    let mut s = state_from_bytes("héllo".as_bytes());
    let err = s.apply_edits(&[edit(pos(0, 2), pos(0, 2), "x")]).expect_err("mid-codepoint");
    match err {
        ApplyError::MidCodepointBoundary { edit_index, side, line, character } => {
            assert_eq!(edit_index, 0);
            assert_eq!(side, BoundarySide::Start);
            assert_eq!(line, 0);
            assert_eq!(character, 2);
        }
        other => panic!("expected MidCodepointBoundary, got {other:?}"),
    }
}

#[test]
fn apply_edits_rejects_intra_batch_overlap() {
    let mut s = state_from_bytes(b"hello world");
    let err = s
        .apply_edits(&[edit(pos(0, 0), pos(0, 5), "X"), edit(pos(0, 3), pos(0, 7), "Y")])
        .expect_err("overlap must be rejected");
    assert!(matches!(err, ApplyError::IntraBatchOverlap { first_index: 0, second_index: 1 }));
}

#[test]
fn apply_edits_rejects_intra_batch_overlap_tied_start_with_non_insert() {
    let mut s = state_from_bytes(b"hello world");
    let err = s
        .apply_edits(&[edit(pos(0, 0), pos(0, 5), "REPLACE"), edit(pos(0, 0), pos(0, 0), "INSERT ")])
        .expect_err("tied start with non-insert must be rejected");
    assert!(matches!(err, ApplyError::IntraBatchOverlap { first_index: 0, second_index: 1 }));
}

#[test]
fn apply_edits_rejects_nothing_edit() {
    let mut s = state_from_bytes(b"hello");
    let err = s.apply_edits(&[edit(pos(0, 2), pos(0, 2), "")]).expect_err("nothing-edit");
    assert!(matches!(err, ApplyError::NothingEdit { edit_index: 0 }));
}

#[test]
fn apply_edits_invalid_utf8_variant_is_in_taxonomy() {
    let err = ApplyError::InvalidUtf8 { edit_index: 7 };
    assert_eq!(err.reason(), "validation-failure-invalid-utf8");
    assert_eq!(err.edit_index(), Some(7));
    assert!(err.to_display_string().contains("not valid UTF-8"));
}

#[test]
fn apply_edits_preserves_digest_invariant_on_accept() {
    let mut s = state_from_bytes(b"hello world");
    s.apply_edits(&[edit(pos(0, 0), pos(0, 0), "PRE-")]).expect("accept");
    assert_eq!(s.memory_digest(), &sha(s.content()));
    assert_eq!(s.byte_size(), s.content().len() as u64);
}

#[test]
fn apply_edits_state_unchanged_on_rejection() {
    let mut s = state_from_bytes(b"hello world");
    let content_before = s.content().to_vec();
    let digest_before = *s.memory_digest();
    let _ = s
        .apply_edits(&[edit(pos(0, 0), pos(0, 5), "ok"), edit(pos(0, 99), pos(0, 99), "boom")])
        .expect_err("invalid second edit must reject whole batch");
    assert_eq!(s.content(), content_before.as_slice());
    assert_eq!(s.memory_digest(), &digest_before);
}

#[test]
fn apply_edits_handles_buffer_with_trailing_newline() {
    let mut s = state_from_bytes(b"abc\n");
    s.apply_edits(&[edit(pos(0, 3), pos(0, 3), "X")]).expect("end-of-line insert");
    assert_eq!(s.content(), b"abcX\n");
}

#[test]
fn apply_edits_handles_empty_buffer() {
    let mut s = state_from_bytes(b"");
    s.apply_edits(&[edit(pos(0, 0), pos(0, 0), "first")]).expect("empty-buffer insert");
    assert_eq!(s.content(), b"first");
}

#[test]
fn apply_edits_spans_lines() {
    let mut s = state_from_bytes(b"one\ntwo\nthree");
    s.apply_edits(&[edit(pos(0, 2), pos(2, 1), "X")]).expect("multi-line replace");
    assert_eq!(s.content(), b"onXhree");
    let mut t = state_from_bytes(b"a\r\nb");
    t.apply_edits(&[edit(pos(1, 0), pos(1, 1), "c")]).expect("second line");
    assert_eq!(t.content(), b"a\r\nc");
}

#[test]
fn apply_error_reason_categories_match_wire_vocabulary() {
    assert_eq!(
        ApplyError::OutOfBounds { edit_index: 0, detail: String::new() }.reason(),
        "validation-failure-out-of-bounds"
    );
    assert_eq!(
        ApplyError::MidCodepointBoundary { edit_index: 0, side: BoundarySide::Start, line: 0, character: 0 }.reason(),
        "validation-failure-mid-codepoint-boundary"
    );
    assert_eq!(
        ApplyError::IntraBatchOverlap { first_index: 0, second_index: 1 }.reason(),
        "validation-failure-intra-batch-overlap"
    );
    assert_eq!(ApplyError::NothingEdit { edit_index: 0 }.reason(), "validation-failure-nothing-edit");
    assert_eq!(ApplyError::SwappedEndpoints { edit_index: 0 }.reason(), "validation-failure-swapped-endpoints");
    assert_eq!(ApplyError::InvalidUtf8 { edit_index: 0 }.reason(), "validation-failure-invalid-utf8");
}

#[test]
fn apply_error_edit_index_returns_none_for_intra_batch_overlap() {
    let err = ApplyError::IntraBatchOverlap { first_index: 2, second_index: 5 };
    assert_eq!(err.edit_index(), None);
    assert_eq!(err.to_display_string(), "edits 2 and 5 overlap within the batch");
}

#[test]
fn boundary_side_displays_kebab_case() {
    assert_eq!(BoundarySide::Start.as_str(), "start");
    assert_eq!(BoundarySide::End.as_str(), "end");
}

#[test]
fn save_precheck_refuses_missing_and_replaced_targets() {
    let s = state_from_bytes(b"x");
    assert!(matches!(s.save_precheck(None), Some(SaveOutcome::PathMissing)));
    assert!(matches!(s.save_precheck(Some(TargetStat { is_file: false, inode: 42 })), Some(SaveOutcome::PathMissing)));
    assert!(matches!(
        s.save_precheck(Some(TargetStat { is_file: true, inode: 43 })),
        Some(SaveOutcome::InodeMismatch { expected: 42, actual: 43 })
    ));
    assert!(s.save_precheck(Some(TargetStat { is_file: true, inode: 42 })).is_none());
}

#[test]
fn save_outcome_maps_write_steps() {
    assert!(matches!(save_outcome_from_write("/p", Ok(())), SaveOutcome::Saved { path } if path == "/p"));
    for step in [WriteStep::OpenTempfile, WriteStep::WriteContents, WriteStep::FsyncTempfile] {
        assert!(matches!(
            save_outcome_from_write("/p", Err((step, std::io::Error::other("x")))),
            SaveOutcome::TempfileIo { .. }
        ));
    }
    for step in [WriteStep::RenameToTarget, WriteStep::FsyncParentDir] {
        assert!(matches!(
            save_outcome_from_write("/p", Err((step, std::io::Error::other("x")))),
            SaveOutcome::RenameIo { .. }
        ));
    }
}

#[test]
fn bootstrap_facts_describe_the_opened_buffer() {
    let s = state_from_bytes(b"12345");
    let facts = buffer_bootstrap_facts(&s);
    assert_eq!(facts[0].0, "buffer/path");
    assert_eq!(facts[0].1, FactValue::String("/tmp/weaver-fixture.txt".into()));
    assert_eq!(facts[1], ("buffer/byte-size", FactValue::U64(5)));
    assert_eq!(facts[2], ("buffer/dirty", FactValue::Bool(false)));
    assert_eq!(facts[3], ("buffer/observable", FactValue::Bool(true)));
    assert_eq!(facts[4], ("buffer/version", FactValue::U64(0)));
}

#[test]
fn classify_io_err_maps_not_found_to_missing() {
    let err = std::io::Error::from(std::io::ErrorKind::NotFound);
    let path = "/nonexistent/weaver-observer-probe";
    match classify_io_err(err, path) {
        ObserverError::Missing { path: p } => assert_eq!(p, path),
        other => panic!("expected Missing, got {other:?}"),
    }
}

#[test]
fn classify_io_err_maps_permission_denied_to_transient_read() {
    let err = std::io::Error::from(std::io::ErrorKind::PermissionDenied);
    let path = "/nonexistent/weaver-observer-probe";
    match classify_io_err(err, path) {
        ObserverError::TransientRead { path: p, source } => {
            assert_eq!(p, path);
            assert_eq!(source.kind(), std::io::ErrorKind::PermissionDenied);
        }
        other => panic!("expected TransientRead, got {other:?}"),
    }
}

#[test]
fn classify_io_err_maps_other_kinds_to_transient_read() {
    for kind in [std::io::ErrorKind::Other, std::io::ErrorKind::Interrupted, std::io::ErrorKind::UnexpectedEof] {
        let err = std::io::Error::from(kind);
        match classify_io_err(err, "/nonexistent/weaver-observer-probe") {
            ObserverError::TransientRead { .. } => {}
            other => panic!("expected TransientRead for {kind:?}, got {other:?}"),
        }
    }
}

#[test]
fn observe_clean_when_disk_matches_memory() {
    let content = b"hello buffer\n";
    let state = state_from_bytes(content);
    let obs = observation_from_digest(&state, &sha(content));
    assert_eq!(obs.byte_size, content.len() as u64);
    assert!(!obs.dirty);
    assert!(obs.observable);
}

#[test]
fn observe_dirty_when_disk_drifts_from_memory() {
    let state = state_from_bytes(b"initial\n");
    let obs = observation_from_digest(&state, &sha(b"mutated\n"));
    assert!(obs.dirty);
    assert!(obs.observable);
    assert_eq!(obs.byte_size, b"initial\n".len() as u64);
}

#[test]
fn observe_large_content_streams_without_buffering() {
    let size = 64 * 1024 * 4 + 137;
    let content: Vec<u8> = (0..size).map(|i| (i & 0xff) as u8).collect();
    let state = state_from_bytes(&content);
    let mut stream = DigestStream::new();
    for chunk in content.chunks(8 * 1024) {
        stream.feed(chunk);
    }
    let obs = observation_from_stream(&state, stream);
    assert!(!obs.dirty);
    assert_eq!(obs.byte_size, size as u64);
    let mut drifted = DigestStream::new();
    for chunk in content.chunks(8 * 1024) {
        drifted.feed(chunk);
    }
    drifted.feed(b"!");
    assert!(observation_from_stream(&state, drifted).dirty);
}

#[test]
fn parse_duration_accepts_valid_humantime() {
    assert_eq!(parse_duration("250ms").unwrap().0, std::time::Duration::from_millis(250));
    assert_eq!(parse_duration("1s").unwrap().0, std::time::Duration::from_secs(1));
}

#[test]
fn parse_duration_rejects_zero() {
    assert!(matches!(parse_duration("0ms").unwrap_err(), CliError::ZeroPollInterval));
    assert!(matches!(parse_duration("0s").unwrap_err(), CliError::ZeroPollInterval));
}

#[test]
fn parse_duration_rejects_garbage() {
    assert!(matches!(parse_duration("not-a-duration").unwrap_err(), CliError::BadPollInterval { .. }));
}

#[test]
fn observer_to_diagnostic_maps_each_startup_kind() {
    let d = observer_to_diagnostic(ObserverError::StartupFailure {
        path: "/fixture".into(),
        reason: "missing".into(),
        kind: StartupKind::NotOpenable,
    });
    assert!(matches!(d, StartupDiagnostic::NotOpenable { .. }));
    let d = observer_to_diagnostic(ObserverError::StartupFailure {
        path: "/fixture".into(),
        reason: "".into(),
        kind: StartupKind::NotRegularFile,
    });
    assert!(matches!(d, StartupDiagnostic::NotRegularFile { .. }));
    let d = observer_to_diagnostic(ObserverError::StartupFailure {
        path: "/fixture".into(),
        reason: "oom".into(),
        kind: StartupKind::TooLarge,
    });
    assert!(matches!(d, StartupDiagnostic::TooLarge { .. }));
    let d = observer_to_diagnostic(ObserverError::Missing { path: "/gone".into() });
    assert!(matches!(d, StartupDiagnostic::NotOpenable { path, .. } if path == "<unknown>"));
}

#[test]
fn startup_diagnostic_carries_stable_codes() {
    for (diag, expected) in [
        (StartupDiagnostic::NotOpenable { path: "/x".into(), reason: "y".into() }, "WEAVER-BUF-001"),
        (StartupDiagnostic::NotRegularFile { path: "/x".into() }, "WEAVER-BUF-002"),
        (StartupDiagnostic::TooLarge { path: "/x".into() }, "WEAVER-BUF-003"),
        (StartupDiagnostic::AuthorityConflict { detail: "d".into() }, "WEAVER-BUF-004"),
    ] {
        assert_eq!(diag.code(), expected, "diagnostic code drift: {diag:?}");
    }
    assert_eq!(
        StartupDiagnostic::NotRegularFile { path: "/x".into() }.message(),
        "buffer not openable at /x: path is not a regular file"
    );
}

#[test]
fn resolve_socket_prefers_explicit() {
    assert_eq!(resolve_socket(Some("/tmp/custom.sock".into()), Some("/run/user/1")), "/tmp/custom.sock");
    assert_eq!(resolve_socket(None, Some("/run/user/1")), "/run/user/1/weaver.sock");
    assert_eq!(resolve_socket(None, None), "/tmp/weaver.sock");
}

#[test]
fn canonicalise_and_dedup_drops_byte_identical_unresolvable_duplicates() {
    let missing = "/definitely/not/a/real/path/weaver-dedup-test".to_string();
    let out = dedup_paths(vec![missing.clone(), missing.clone()]);
    assert_eq!(out, vec![missing]);
}

#[test]
fn canonicalise_and_dedup_preserves_distinct_unresolvable_paths() {
    let a = "/definitely/not/a/real/path/weaver-a".to_string();
    let b = "/definitely/not/a/real/path/weaver-b".to_string();
    assert_eq!(dedup_paths(vec![a.clone(), b.clone()]), vec![a, b]);
}

#[test]
fn canonicalise_and_dedup_preserves_first_seen_order() {
    let a = "/definitely/not/a/real/path/weaver-a".to_string();
    let b = "/definitely/not/a/real/path/weaver-b".to_string();
    let c = "/definitely/not/a/real/path/weaver-c".to_string();
    let out = dedup_paths(vec![b.clone(), a.clone(), c.clone(), a.clone(), b.clone()]);
    assert_eq!(out, vec![b, a, c]);
}

#[test]
fn exit_codes_and_levels() {
    assert_eq!(exit_code_for(&bus_closed_error()), EXIT_BUS_UNAVAILABLE);
    assert_eq!(exit_code_for(&PublisherError::AuthorityConflict { detail: "d".into() }), EXIT_AUTHORITY_CONFLICT);
    assert_eq!(
        exit_code_for(&PublisherError::Observer { source: ObserverError::Missing { path: "/x".into() } }),
        EXIT_STARTUP_FAILURE
    );
    assert_eq!(
        exit_code_for(&PublisherError::Client { source: ClientError::Codec(CodecError::Encode("e".into())) }),
        EXIT_INTERNAL
    );
    assert_eq!(default_level(0), "info");
    assert_eq!(default_level(1), "debug");
    assert_eq!(default_level(2), "trace");
}

#[test]
fn classify_server_error_maps_authority_conflict() {
    let c = classify_server_error("authority-conflict", "buffer/path already claimed");
    assert!(matches!(c, ServerSentError::AuthorityConflict { detail } if detail == "buffer/path already claimed"));
}

#[test]
fn classify_server_error_maps_not_owner() {
    let c = classify_server_error("not-owner", "retract for key not owned");
    assert!(matches!(c, ServerSentError::NotOwner { .. }));
}

#[test]
fn classify_server_error_maps_other_categories() {
    for cat in ["identity-drift", "invalid-identity", "decode", "unknown-x"] {
        match classify_server_error(cat, "irrelevant") {
            ServerSentError::Other { category, .. } => assert_eq!(category, cat),
            other => panic!("expected Other for {cat}, got {other:?}"),
        }
    }
}

#[test]
fn translate_server_error_preserves_authority_conflict_detail() {
    match translate_server_error(ServerSentError::AuthorityConflict { detail: "d1".into() }) {
        PublisherError::AuthorityConflict { detail } => assert_eq!(detail, "d1"),
        other => panic!("expected AuthorityConflict, got {other:?}"),
    }
}

#[test]
fn translate_server_error_coerces_not_owner_to_authority_conflict() {
    match translate_server_error(ServerSentError::NotOwner { detail: "key/x".into() }) {
        PublisherError::AuthorityConflict { detail } => {
            assert!(detail.starts_with("not-owner:"), "{detail}");
            assert_eq!(detail, "not-owner: key/x");
        }
        other => panic!("expected AuthorityConflict, got {other:?}"),
    }
}

#[test]
fn translate_server_error_funnels_other_into_client_error() {
    let err = translate_server_error(ServerSentError::Other { category: "identity-drift".into(), detail: "why".into() });
    match err {
        PublisherError::Client { source: ClientError::Codec(CodecError::Io(e)) } => {
            assert_eq!(e.to_string(), "server error identity-drift: why");
        }
        other => panic!("expected Client, got {other:?}"),
    }
}

#[test]
fn bus_closed_error_surfaces_as_bus_unavailable() {
    match bus_closed_error() {
        PublisherError::BusUnavailable { source: ClientError::Codec(CodecError::Io(e)) } => {
            assert_eq!(e.kind(), std::io::ErrorKind::UnexpectedEof);
        }
        other => panic!("expected BusUnavailable, got {other:?}"),
    }
}

#[test]
fn classify_write_error_maps_transport_kinds_to_bus_unavailable() {
    for kind in [
        std::io::ErrorKind::BrokenPipe,
        std::io::ErrorKind::ConnectionReset,
        std::io::ErrorKind::ConnectionAborted,
        std::io::ErrorKind::UnexpectedEof,
        std::io::ErrorKind::NotConnected,
    ] {
        let src = ClientError::Codec(CodecError::Io(std::io::Error::new(kind, "peer gone")));
        let err = classify_write_error(src);
        assert!(matches!(err, PublisherError::BusUnavailable { .. }), "{kind:?}: {err:?}");
    }
}

#[test]
fn classify_write_error_preserves_client_for_encoding_errors() {
    let err = classify_write_error(ClientError::Codec(CodecError::Encode("bad encoding".into())));
    assert!(matches!(err, PublisherError::Client { .. }));
    let err = classify_write_error(ClientError::Codec(CodecError::FrameTooLarge { size: 1_000_000, max: 65536 }));
    assert!(matches!(err, PublisherError::Client { .. }));
}

#[test]
fn classify_write_error_preserves_client_for_unrelated_io_kinds() {
    let src = ClientError::Codec(CodecError::Io(std::io::Error::new(std::io::ErrorKind::PermissionDenied, "eacces")));
    assert!(matches!(classify_write_error(src), PublisherError::Client { .. }));
}

#[test]
fn dispatch_buffer_open_is_noop_for_already_owned_entity() {
    let path = "/tmp/weaver-open-fixture.txt";
    let mut registry = BufferRegistry::new();
    let first = dispatch_buffer_open(&registry, path, |p: &str| {
        Ok(BufferState::from_opened(p.to_string(), 9, b"fixture\n".to_vec()))
    })
    .expect("first dispatch must succeed");
    let state = match first {
        BufferOpenOutcome::Fresh(s) => s,
        BufferOpenOutcome::AlreadyOwned => panic!("first dispatch must be Fresh"),
    };
    assert_eq!(state.path(), path);
    let entity = state.entity();
    registry.insert(state);
    assert!(registry.is_owned(entity));
    assert_eq!(registry.version(entity), Some(0));
    let second = dispatch_buffer_open(&registry, path, |_: &str| -> Result<BufferState, ObserverError> {
        panic!("an owned entity must not be reopened")
    })
    .expect("second dispatch must succeed");
    assert!(matches!(second, BufferOpenOutcome::AlreadyOwned));
}

#[test]
fn dispatch_buffer_open_passes_observer_errors_through() {
    let registry = BufferRegistry::new();
    let missing = "/definitely/not/a/real/path/weaver-dispatch-test";
    let r = dispatch_buffer_open(&registry, missing, |p: &str| {
        Err(ObserverError::StartupFailure { path: p.to_string(), reason: "missing".into(), kind: StartupKind::NotOpenable })
    });
    match r {
        Err(err) => assert!(matches!(err, ObserverError::StartupFailure { .. })),
        Ok(_) => panic!("missing path must fail the open"),
    }
}

#[test]
fn publisher_error_observer_preserves_source() {
    let src = ObserverError::StartupFailure { path: "/nope".into(), reason: "missing".into(), kind: StartupKind::NotOpenable };
    let err = PublisherError::Observer { source: src };
    match err {
        PublisherError::Observer { source } => {
            assert_eq!(source.to_display_string(), "buffer not openable at /nope: missing");
            assert!(matches!(source, ObserverError::StartupFailure { path, .. } if path == "/nope"));
        }
        other => panic!("expected Observer(StartupFailure), got {other:?}"),
    }
}

fn registry_with_buffer(content: &[u8]) -> (BufferRegistry, EntityRef) {
    let state = state_from_bytes(content);
    let entity = state.entity();
    let mut reg = BufferRegistry::new();
    reg.insert(state);
    (reg, entity)
}

fn bump_to(reg: &mut BufferRegistry, entity: EntityRef, target: u64) {
    while reg.version(entity).unwrap() < target {
        let v = reg.version(entity).unwrap();
        assert!(matches!(dispatch_buffer_edit(reg, entity, v, &[]), BufferEditOutcome::Applied { .. }));
    }
}

#[test]
fn dispatch_buffer_edit_returns_not_owned_for_unknown_entity() {
    let mut reg = BufferRegistry::new();
    let outcome = dispatch_buffer_edit(&mut reg, EntityRef::new(0xDEAD_BEEF), 0, &[]);
    assert!(matches!(outcome, BufferEditOutcome::NotOwned));
}

#[test]
fn dispatch_buffer_edit_returns_stale_version_when_emitted_below_current() {
    let (mut reg, entity) = registry_with_buffer(b"hello");
    bump_to(&mut reg, entity, 5);
    match dispatch_buffer_edit(&mut reg, entity, 3, &[]) {
        BufferEditOutcome::StaleVersion { current, emitted } => {
            assert_eq!(current, 5);
            assert_eq!(emitted, 3);
        }
        other => panic!("expected StaleVersion, got {other:?}"),
    }
    assert_eq!(reg.version(entity), Some(5));
}

#[test]
fn dispatch_buffer_edit_returns_future_version_when_emitted_above_current() {
    let (mut reg, entity) = registry_with_buffer(b"hello");
    bump_to(&mut reg, entity, 5);
    match dispatch_buffer_edit(&mut reg, entity, 7, &[]) {
        BufferEditOutcome::FutureVersion { current, emitted } => {
            assert_eq!(current, 5);
            assert_eq!(emitted, 7);
        }
        other => panic!("expected FutureVersion, got {other:?}"),
    }
    assert_eq!(reg.version(entity), Some(5));
}

#[test]
fn dispatch_buffer_edit_returns_validation_failure_for_malformed_batch() {
    let (mut reg, entity) = registry_with_buffer(b"hi");
    let bad = pure_insert(0, 99, "boom");
    match dispatch_buffer_edit(&mut reg, entity, 0, std::slice::from_ref(&bad)) {
        BufferEditOutcome::ValidationFailure(err) => {
            assert_eq!(err.reason(), "validation-failure-out-of-bounds");
            assert_eq!(err.edit_index(), Some(0));
        }
        other => panic!("expected ValidationFailure, got {other:?}"),
    }
    assert_eq!(reg.version(entity), Some(0));
    assert_eq!(reg.get(entity).unwrap().content(), b"hi");
}

#[test]
fn dispatch_buffer_edit_returns_applied_for_valid_batch() {
    let (mut reg, entity) = registry_with_buffer(b"world");
    let e = pure_insert(0, 0, "hello ");
    match dispatch_buffer_edit(&mut reg, entity, 0, std::slice::from_ref(&e)) {
        BufferEditOutcome::Applied { entity: got, new_version, new_byte_size, new_memory_digest } => {
            assert_eq!(got, entity);
            assert_eq!(new_version, 1);
            assert_eq!(new_byte_size, b"hello world".len() as u64);
            assert_eq!(new_memory_digest, sha(b"hello world"));
        }
        other => panic!("expected Applied, got {other:?}"),
    }
    assert_eq!(reg.version(entity), Some(1));
    let state = reg.get(entity).unwrap();
    assert_eq!(state.content(), b"hello world");
    assert_eq!(state.byte_size(), b"hello world".len() as u64);
}

#[test]
fn dispatch_buffer_edit_increments_version_only_on_accept() {
    let (mut reg, entity) = registry_with_buffer(b"x");
    let valid = pure_insert(0, 0, "a");
    let _ = dispatch_buffer_edit(&mut reg, entity, 0, std::slice::from_ref(&valid));
    assert_eq!(reg.version(entity), Some(1));
    let _ = dispatch_buffer_edit(&mut reg, entity, 0, std::slice::from_ref(&valid));
    assert_eq!(reg.version(entity), Some(1));
    let _ = dispatch_buffer_edit(&mut reg, entity, 99, std::slice::from_ref(&valid));
    assert_eq!(reg.version(entity), Some(1));
    let bad = pure_insert(0, 99, "boom");
    let _ = dispatch_buffer_edit(&mut reg, entity, 1, std::slice::from_ref(&bad));
    assert_eq!(reg.version(entity), Some(1));
}

#[test]
fn dispatch_buffer_edit_empty_batch_at_correct_version_bumps_version() {
    let (mut reg, entity) = registry_with_buffer(b"hello");
    match dispatch_buffer_edit(&mut reg, entity, 0, &[]) {
        BufferEditOutcome::Applied { new_version, .. } => assert_eq!(new_version, 1),
        other => panic!("expected Applied (empty batch), got {other:?}"),
    }
    assert_eq!(reg.version(entity), Some(1));
    assert_eq!(reg.get(entity).unwrap().content(), b"hello");
}

fn poll_facts(reg: &mut BufferRegistry, obs: &Result<weaver::buffers::model::BufferObservation, ObserverError>) -> Vec<(String, FactValue)> {
    let identity = ActorIdentity::service("weaver-buffers".to_string(), 1).unwrap();
    let entity = reg.state_at(0).entity();
    poll_tick_per_buffer(reg, 0, obs, &identity, EventId::new(42), 7)
        .into_iter()
        .map(|m| match m {
            BusMessage::FactAssert(f) => {
                assert_eq!(f.key.entity, entity);
                assert_eq!(f.provenance.causal_parent, Some(EventId::new(42)));
                assert_eq!(f.provenance.timestamp_ns, 7);
                assert_eq!(f.provenance.source, identity);
                (f.key.attribute, f.value)
            },
            other => panic!("expected FactAssert, got {other:?}"),
        })
        .collect()
}

#[test]
fn poll_tick_publishes_only_edges() {
    let (mut reg, _entity) = registry_with_buffer(b"abc");
    let clean = weaver::buffers::model::BufferObservation { byte_size: 3, dirty: false, observable: true };
    let dirty = weaver::buffers::model::BufferObservation { byte_size: 3, dirty: true, observable: true };
    assert!(poll_facts(&mut reg, &Ok(clean)).is_empty());
    assert_eq!(poll_facts(&mut reg, &Ok(dirty)), vec![("buffer/dirty".to_string(), FactValue::Bool(true))]);
    assert!(poll_facts(&mut reg, &Ok(dirty)).is_empty());
    let gone: Result<_, ObserverError> = Err(ObserverError::Missing { path: "/tmp/weaver-fixture.txt".into() });
    assert_eq!(poll_facts(&mut reg, &gone), vec![("buffer/observable".to_string(), FactValue::Bool(false))]);
    assert!(poll_facts(&mut reg, &gone).is_empty());
    assert!(all_unobservable(&reg));
    assert_eq!(
        poll_facts(&mut reg, &Ok(clean)),
        vec![("buffer/observable".to_string(), FactValue::Bool(true)), ("buffer/dirty".to_string(), FactValue::Bool(false))]
    );
    assert!(!all_unobservable(&reg));
}

#[test]
fn degraded_transition_fires_on_edges_only() {
    assert_eq!(degraded_transition(true, false), Some(LifecycleSignal::Degraded));
    assert_eq!(degraded_transition(false, true), Some(LifecycleSignal::Ready));
    assert_eq!(degraded_transition(true, true), None);
    assert_eq!(degraded_transition(false, false), None);
    assert!(!all_unobservable(&BufferRegistry::new()));
}

#[test]
fn bootstrap_messages_anchor_on_the_open_event() {
    let identity = ActorIdentity::service("weaver-buffers".into(), 7).unwrap();
    let state = state_from_bytes(b"abc");
    let tick = bootstrap_tick(1_000, 2);
    assert_eq!(tick, EventId::new(1_002));
    assert_eq!(bootstrap_tick(u64::MAX, 1), EventId::new(0));
    let ev = buffer_open_event(&identity, &state, tick, 5);
    assert_eq!(ev.id, tick);
    assert_eq!(ev.target, Some(state.entity()));
    assert_eq!(ev.payload, EventPayload::BufferOpen { path: "/tmp/weaver-fixture.txt".into() });
    let ms = bootstrap_messages(&identity, &state, tick, 5);
    assert_eq!(ms.len(), 5);
    let attrs: Vec<String> = ms
        .iter()
        .map(|m| match m {
            BusMessage::FactAssert(f) => {
                assert_eq!(f.provenance.causal_parent, Some(tick));
                assert_eq!(f.key.entity, state.entity());
                f.key.attribute.clone()
            }
            other => panic!("unexpected {other:?}"),
        })
        .collect();
    assert_eq!(attrs, ["buffer/path", "buffer/byte-size", "buffer/dirty", "buffer/observable", "buffer/version"]);
    match watcher_status_message(EntityRef::new(3), &identity, LifecycleSignal::Ready, 9) {
        BusMessage::FactAssert(f) => {
            assert_eq!(f.key.attribute, "watcher/status");
            assert_eq!(f.value, FactValue::String("ready".into()));
        }
        other => panic!("unexpected {other:?}"),
    }
}

#[test]
fn watcher_instance_entity_hashes_the_uuid_bytes() {
    let id = 0x0123_4567_89ab_cdef_fedc_ba98_7654_3210_u128;
    let mut hasher = std::collections::hash_map::DefaultHasher::new();
    uuid::Uuid::from_u128(id).as_bytes().hash(&mut hasher);
    let expected = (hasher.finish() | INSTANCE_NAMESPACE_BIT) & !REPO_NAMESPACE_BIT;
    assert_eq!(watcher_instance_entity_ref(id).as_u64(), expected);
}

#[test]
fn buffer_debug_rendering_redacts_content() {
    let s = BufferState::from_opened("/tmp/secret.txt".into(), 5, b"TOP SECRET".to_vec());
    let text = s.to_debug_string();
    assert!(!text.contains("TOP SECRET"));
    let hex: String = sha(b"TOP SECRET").iter().map(|b| format!("{b:02x}")).collect();
    assert_eq!(weaver::buffers::model::hex_digest(&sha(b"TOP SECRET")), hex);
    assert_eq!(
        text,
        format!(
            "BufferState {{ path: \"/tmp/secret.txt\", entity: EntityRef({}), inode: 5, byte_size: 10, memory_digest: \"{hex}\", last_dirty: false, last_observable: true, .. }}",
            s.entity().as_u64()
        )
    );
}

#[test]
fn poll_interval_digit_limit() {
    assert!(duration_digits_within_limit("250ms"));
    assert!(duration_digits_within_limit("12345678901ns"));
    assert!(duration_digits_within_limit("000000000001s"));
    assert!(duration_digits_within_limit("0.000000001s 00000000000000ms"));
    assert!(!duration_digits_within_limit("123456789012ns"));
    assert!(!duration_digits_within_limit("1 00000000000ns"));
    assert!(!duration_digits_within_limit("18446744073709551615s 1000ms"));
}

#[test]
fn parse_duration_reports_total_nanoseconds() {
    assert_eq!(parse_duration("250ms").unwrap().1, 250_000_000);
    assert_eq!(parse_duration("1m 2s").unwrap().1, 62_000_000_000);
    assert_eq!(parse_duration("000000000001s").unwrap().1, 1_000_000_000);
}

#[test]
fn open_failures_are_classified_by_step() {
    let kind_of = |e: ObserverError| match e {
        ObserverError::StartupFailure { kind, .. } => kind,
        other => panic!("expected StartupFailure, got {other:?}"),
    };
    assert_eq!(kind_of(open_failure(OpenFailure::Stat, "/x", "No such file".into())), StartupKind::NotOpenable);
    assert_eq!(
        kind_of(open_failure(OpenFailure::Read { out_of_memory: true }, "/x", "oom".into())),
        StartupKind::TooLarge
    );
    assert_eq!(
        kind_of(open_failure(OpenFailure::Read { out_of_memory: false }, "/x", "denied".into())),
        StartupKind::NotOpenable
    );
    match open_failure(OpenFailure::NotRegularFile, "/dir", String::new()) {
        ObserverError::StartupFailure { path, reason, kind } => {
            assert_eq!(path, "/dir");
            assert_eq!(reason, "path is not a regular file (directory, symlink, or special file)");
            assert_eq!(kind, StartupKind::NotRegularFile);
        }
        other => panic!("unexpected {other:?}"),
    }
}

#[test]
fn shutdown_retracts_then_reports_unavailable_then_stopped() {
    let identity = ActorIdentity::service("weaver-buffers".into(), 3).unwrap();
    let watcher = EntityRef::new(900);
    let keys = vec![
        weaver::types::fact::FactKey::new(EntityRef::new(1), "buffer/dirty"),
        weaver::types::fact::FactKey::new(EntityRef::new(1), "buffer/path"),
    ];
    let ms = shutdown_messages(&keys, watcher, &identity, 55);
    assert_eq!(ms.len(), 4);
    for (m, k) in ms.iter().zip(keys.iter()) {
        assert!(matches!(m, BusMessage::FactRetract { key, provenance }
            if key == k && provenance.source == identity && provenance.timestamp_ns == 55 && provenance.causal_parent.is_none()));
    }
    let status = |m: &BusMessage| match m {
        BusMessage::FactAssert(f) => {
            assert_eq!(f.key.entity, watcher);
            assert_eq!(f.key.attribute, "watcher/status");
            match &f.value {
                FactValue::String(s) => s.clone(),
                other => panic!("unexpected {other:?}"),
            }
        }
        other => panic!("unexpected {other:?}"),
    };
    assert_eq!(status(&ms[2]), "unavailable");
    assert_eq!(status(&ms[3]), "stopped");
    assert_eq!(retraction_messages(&keys, &identity, 55).len(), 2);
}

#[test]
fn startup_runs_in_order_and_fails_as_the_step_says() {
    let mut step = first_startup_step();
    let mut seen = vec![step];
    while step != StartupStep::Poll {
        step = next_startup_step(step, true);
        seen.push(step);
    }
    assert_eq!(
        seen,
        vec![
            StartupStep::AnnounceStarted,
            StartupStep::Bootstrap,
            StartupStep::AwaitRefusal,
            StartupStep::AnnounceOpens,
            StartupStep::AnnounceReady,
            StartupStep::Poll,
        ]
    );
    assert_eq!(next_startup_step(StartupStep::AnnounceStarted, false), StartupStep::Fail);
    assert_eq!(next_startup_step(StartupStep::Bootstrap, false), StartupStep::RetractAndFail);
    assert_eq!(next_startup_step(StartupStep::AwaitRefusal, false), StartupStep::RetractAndFail);
    assert_eq!(next_startup_step(StartupStep::AnnounceReady, false), StartupStep::Fail);
}
