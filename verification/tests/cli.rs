use weaver::cli::config::{join, Config};
use weaver::cli::edit::{parse_range, RangeParseError};
use weaver::cli::errors::WeaverCliError;
use weaver::cli::exit_code;
use weaver::cli::inspect::{parse_fact_key, InspectCliError};
use weaver::cli::output::{format_source, format_value, StatusResponse};
use weaver::cli::save::{numeric_entity, save_event};
use weaver::cli::version::{profile_label, version_line, VersionInfo};
use weaver::provenance::ActorIdentity;
use weaver::types::edit::{Position, Range};
use weaver::types::entity_ref::EntityRef;
use weaver::types::event::EventPayload;
use weaver::types::fact::{FactKey, FactValue};
use weaver::types::ids::{BehaviorId, EventId};
use weaver::types::message::{LifecycleSignal, BUS_PROTOCOL_VERSION_STR};

fn pos(line: u32, character: u32) -> Position {
    Position { line, character }
}

fn rng(start: Position, end: Position) -> Range {
    Range { start, end }
}

#[test]
fn parses_zero_zero_zero_zero_point_cursor() {
    assert_eq!(parse_range("0:0-0:0").unwrap(), rng(pos(0, 0), pos(0, 0)));
}

#[test]
fn parses_first_five_bytes_of_line_zero() {
    assert_eq!(parse_range("0:0-0:5").unwrap(), rng(pos(0, 0), pos(0, 5)));
}

#[test]
fn parses_multi_line_range() {
    assert_eq!(parse_range("2:10-3:0").unwrap(), rng(pos(2, 10), pos(3, 0)));
}

#[test]
fn parses_max_u32_components() {
    let max = u32::MAX;
    let s = format!("{max}:{max}-{max}:{max}");
    assert_eq!(parse_range(&s).unwrap(), rng(pos(max, max), pos(max, max)));
}

#[test]
fn rejects_missing_dash() {
    let err = parse_range("0:0").unwrap_err();
    assert!(matches!(err, RangeParseError::Format { .. }));
}

#[test]
fn rejects_missing_colon_in_start() {
    let err = parse_range("0-0:5").unwrap_err();
    assert!(matches!(err, RangeParseError::Format { .. }));
}

#[test]
fn rejects_missing_colon_in_end() {
    let err = parse_range("0:0-5").unwrap_err();
    assert!(matches!(err, RangeParseError::Format { .. }));
}

#[test]
fn rejects_negative_components() {
    match parse_range("0:0--1:5").unwrap_err() {
        RangeParseError::Component { component, .. } => {
            assert!(component.contains("end-line"), "got: {component}");
        }
        other => panic!("expected Component, got {other:?}"),
    }
}

#[test]
fn rejects_non_decimal_components() {
    let err = parse_range("0xff:0-0:0").unwrap_err();
    assert!(matches!(err, RangeParseError::Component { .. }));
}

#[test]
fn rejects_overflow_beyond_u32_max() {
    let err = parse_range("4294967296:0-0:0").unwrap_err();
    assert!(matches!(err, RangeParseError::Component { .. }));
}

#[test]
fn rejects_empty_string() {
    let err = parse_range("").unwrap_err();
    assert!(matches!(err, RangeParseError::Format { .. }));
}

#[test]
fn rejects_spurious_extra_characters_in_end_component() {
    let err = parse_range("0:0-0:5-extra").unwrap_err();
    assert!(matches!(err, RangeParseError::Component { .. }));
}

#[test]
fn range_parse_error_messages_name_the_input() {
    let err = parse_range("0:0").unwrap_err();
    assert_eq!(
        err.to_display_string(),
        "invalid range \"0:0\": expected <start-line>:<start-char>-<end-line>:<end-char>"
    );
    match parse_range("0:x-1:0").unwrap_err() {
        RangeParseError::Component { input, component } => {
            assert_eq!(input, "0:x-1:0");
            assert_eq!(component, "start-character \"x\"");
        }
        other => panic!("expected Component, got {other:?}"),
    }
    match parse_range("0:0-1:+").unwrap_err() {
        RangeParseError::Component { component, .. } => assert_eq!(component, "end-character \"+\""),
        other => panic!("expected Component, got {other:?}"),
    }
    assert_eq!(parse_range("+1:+2-3:4").unwrap(), rng(pos(1, 2), pos(3, 4)));
}

#[test]
fn unavailable_envelope_shape() {
    let err = WeaverCliError::CoreUnavailable {
        message: "core not reachable at /tmp/x.sock".into(),
        context: Some("weaver status".into()),
    };
    let env = err.envelope();
    assert_eq!(env.error.category, "core-unavailable");
    assert_eq!(env.error.code, "WEAVER-002");
    assert!(env.error.fact_key.is_none());
    assert_eq!(env.error.context.as_deref(), Some("weaver status"));
    assert_eq!(env.error.message, "core not reachable at /tmp/x.sock");
}

#[test]
fn fact_not_found_envelope_populates_fact_key() {
    let err = WeaverCliError::FactNotFound {
        key: FactKey::new(EntityRef::new(1), "buffer/dirty"),
        context: Some("weaver inspect 1:buffer/dirty".into()),
    };
    let env = err.envelope();
    let fk = env.error.fact_key.as_ref().expect("fact key");
    assert_eq!(fk.entity, 1);
    assert_eq!(fk.attribute, "buffer/dirty");
    assert_eq!(env.error.category, "fact-not-found");
    assert_eq!(env.error.code, "WEAVER-201");
    assert_eq!(env.error.message, "fact not found: (EntityRef(1), buffer/dirty)");
}

#[test]
fn exit_codes_match_cli_surface_contract() {
    assert_eq!(
        WeaverCliError::CoreUnavailable { message: "x".into(), context: None }.exit_code(),
        exit_code::EXPECTED,
    );
    assert_eq!(
        WeaverCliError::FactNotFound {
            key: FactKey::new(EntityRef::new(1), "buffer/dirty"),
            context: None,
        }
        .exit_code(),
        exit_code::EXPECTED,
    );
}

#[test]
fn buffer_not_opened_envelope_shape() {
    let err = WeaverCliError::BufferNotOpened {
        path: "/tmp/foo.txt".into(),
        entity: 0xDEAD_BEEF,
        context: Some("weaver edit /tmp/foo.txt".into()),
    };
    let env = err.envelope();
    assert_eq!(env.error.category, "buffer-not-opened");
    assert_eq!(env.error.code, "WEAVER-EDIT-001");
    assert!(env.error.message.contains("/tmp/foo.txt"));
    assert!(env.error.message.contains("entity:3735928559"));
    assert_eq!(err.exit_code(), exit_code::GENERAL);
}

#[test]
fn malformed_edit_json_envelope_shape() {
    let err = WeaverCliError::MalformedEditJson {
        detail: "expected `[` at line 1 column 1".into(),
        context: Some("weaver edit-json /tmp/foo.txt".into()),
    };
    let env = err.envelope();
    assert_eq!(env.error.category, "malformed-edit-json");
    assert_eq!(env.error.code, "WEAVER-EDIT-003");
    assert!(env.error.message.contains("expected `["));
    assert_eq!(err.exit_code(), exit_code::GENERAL);
}

#[test]
fn edit_wire_frame_too_large_envelope_shape() {
    let err = WeaverCliError::EditWireFrameTooLarge {
        actual_bytes: 70_000,
        max_bytes: 65_536,
        context: Some("weaver edit-json".into()),
    };
    let env = err.envelope();
    assert_eq!(env.error.category, "edit-wire-frame-too-large");
    assert_eq!(env.error.code, "WEAVER-EDIT-004");
    assert!(env.error.message.contains("70000"));
    assert!(env.error.message.contains("65536"));
    assert_eq!(err.exit_code(), exit_code::GENERAL);
}

#[test]
fn buffer_not_opened_save_envelope_shape() {
    let err = WeaverCliError::BufferNotOpenedSave {
        entity_arg: "/tmp/foo.txt".into(),
        entity: 0xDEAD_BEEF,
        context: Some("weaver save /tmp/foo.txt".into()),
    };
    let env = err.envelope();
    assert_eq!(env.error.category, "buffer-not-opened");
    assert_eq!(env.error.code, "WEAVER-SAVE-001");
    assert!(env.error.message.contains("/tmp/foo.txt"));
    assert_eq!(err.exit_code(), exit_code::GENERAL);
}

#[test]
fn invalid_range_envelope_shape() {
    let err = WeaverCliError::InvalidRange {
        input: "0:0".into(),
        detail: "expected <start-line>:<start-char>-<end-line>:<end-char>".into(),
        context: None,
    };
    let env = err.envelope();
    assert_eq!(env.error.category, "invalid-range");
    assert_eq!(env.error.code, "WEAVER-EDIT-002");
    assert!(env.error.message.contains("0:0"));
    assert!(env.error.context.is_none());
    assert_eq!(err.exit_code(), exit_code::GENERAL);
}

#[test]
fn parse_and_protocol_errors_have_their_codes() {
    let p = WeaverCliError::ParseError { message: "bad".into(), context: None };
    assert_eq!(p.category(), "parse-error");
    assert_eq!(p.code_str(), "WEAVER-101");
    assert_eq!(p.to_display_string(), "invalid input: bad");
    let q = WeaverCliError::ProtocolError { message: "oops".into(), context: Some("c".into()) };
    assert_eq!(q.category(), "protocol-error");
    assert_eq!(q.code_str(), "WEAVER-301");
    assert_eq!(q.context(), Some("c"));
    assert_eq!(q.to_display_string(), "bus protocol error: oops");
    assert_eq!(q.exit_code(), exit_code::GENERAL);
}

#[test]
fn parse_key_simple() {
    let k = parse_fact_key("1:buffer/dirty").unwrap();
    assert_eq!(k.entity.as_u64(), 1);
    assert_eq!(k.attribute, "buffer/dirty");
}

#[test]
fn parse_key_rejects_missing_colon() {
    assert!(matches!(parse_fact_key("no-colon"), Err(InspectCliError::InvalidKey { .. })));
}

#[test]
fn parse_key_rejects_empty_fields() {
    assert!(matches!(parse_fact_key(":buffer/dirty"), Err(InspectCliError::InvalidKey { .. })));
    assert!(matches!(parse_fact_key("1:"), Err(InspectCliError::InvalidKey { .. })));
}

#[test]
fn parse_key_rejects_non_numeric_entity() {
    assert!(matches!(
        parse_fact_key("abc:buffer/dirty"),
        Err(InspectCliError::InvalidEntityId { .. })
    ));
}

#[test]
fn parse_key_splits_on_first_colon_only() {
    let k = parse_fact_key("7:a:b").unwrap();
    assert_eq!(k.entity.as_u64(), 7);
    assert_eq!(k.attribute, "a:b");
    match parse_fact_key("18446744073709551616:x") {
        Err(InspectCliError::InvalidEntityId { raw, .. }) => assert_eq!(raw, "18446744073709551616"),
        other => panic!("expected InvalidEntityId, got {other:?}"),
    }
}

#[test]
fn join_inserts_one_separator() {
    assert_eq!(join("/run/user/1000", "weaver.sock"), "/run/user/1000/weaver.sock");
    assert_eq!(join("/run/user/1000/", "weaver.sock"), "/run/user/1000/weaver.sock");
    assert_eq!(join("", "weaver.sock"), "weaver.sock");
}

#[test]
fn cli_override_wins_over_default() {
    let c = Config::from_parts(
        Some("/custom/path.sock".into()),
        None,
        Config::default_socket_path(None),
        None,
        None,
    );
    assert_eq!(c.socket_path, "/custom/path.sock");
}

#[test]
fn file_socket_path_used_when_cli_none() {
    let c = Config::from_parts(
        None,
        Some("/from-file.sock".into()),
        Config::default_socket_path(None),
        None,
        None,
    );
    assert_eq!(c.socket_path, "/from-file.sock");
}

#[test]
fn cli_overrides_file() {
    let c = Config::from_parts(
        Some("/cli.sock".into()),
        Some("/from-file.sock".into()),
        Config::default_socket_path(None),
        None,
        None,
    );
    assert_eq!(c.socket_path, "/cli.sock");
}

#[test]
fn default_when_neither_cli_nor_file() {
    let c = Config::from_parts(None, None, Config::default_socket_path(Some("/run/user/7")), None, None);
    assert!(c.socket_path.ends_with("weaver.sock"), "got {:?}", c.socket_path);
    assert_eq!(c.socket_path, "/run/user/7/weaver.sock");
    let d = Config::from_parts(None, None, Config::default_socket_path(None), None, None);
    assert_eq!(d.socket_path, "/tmp/weaver.sock");
}

#[test]
fn partial_file_config_only_overrides_set_keys() {
    let c = Config::from_parts(None, None, Config::default_socket_path(None), None, Some("trace".into()));
    assert_eq!(c.log_level, "trace");
    assert!(c.socket_path.ends_with("weaver.sock"));
    let e = Config::from_parts(None, None, Config::default_socket_path(None), Some("warn".into()), Some("trace".into()));
    assert_eq!(e.log_level, "warn");
    let f = Config::from_parts(None, None, Config::default_socket_path(None), None, None);
    assert_eq!(f.log_level, "info");
}

#[test]
fn config_file_path_prefers_non_empty_xdg() {
    assert_eq!(
        Config::config_file_path(Some("/xdg"), Some("/home/a")).as_deref(),
        Some("/xdg/weaver/config.toml")
    );
    assert_eq!(
        Config::config_file_path(Some(""), Some("/home/a")).as_deref(),
        Some("/home/a/.config/weaver/config.toml")
    );
    assert_eq!(Config::config_file_path(None, None), None);
}

#[test]
fn resolve_entity_parses_u64_form() {
    let (entity, display) = numeric_entity("4611686018427387946").expect("u64 parse");
    assert_eq!(entity.as_u64(), 4611686018427387946);
    assert_eq!(display, "4611686018427387946");
}

#[test]
fn resolve_entity_u64_max_round_trips() {
    let s = u64::MAX.to_string();
    let (entity, display) = numeric_entity(&s).expect("u64::MAX parse");
    assert_eq!(entity.as_u64(), u64::MAX);
    assert_eq!(display, s);
}

#[test]
fn non_numeric_entity_arguments_are_paths() {
    assert!(numeric_entity("/tmp/file.txt").is_none());
    assert!(numeric_entity("18446744073709551616").is_none());
    assert!(numeric_entity("").is_none());
}

#[test]
fn save_event_carries_entity_and_version() {
    let e = save_event(EntityRef::new(9), 4, 1_000, 0x77);
    assert_eq!(e.name, "buffer/save");
    assert_eq!(e.target, Some(EntityRef::new(9)));
    assert_eq!(e.payload, EventPayload::BufferSave { entity: EntityRef::new(9), version: 4 });
    assert_eq!(e.id, EventId::mint_v8(0x77, 1_000));
    assert_eq!(e.id.extract_prefix(), 0x77);
    assert_eq!(e.provenance.timestamp_ns, 1_000);
    assert_eq!(e.provenance.source, ActorIdentity::User);
}

#[test]
fn version_info_has_all_p11_fields() {
    let info = VersionInfo::from_build("0.1.0", "abc123", "false", "2024-01-01T00:00:00Z", "true", "rustc 1.80");
    assert!(!info.name.is_empty());
    assert!(!info.version.is_empty());
    assert!(!info.commit.is_empty());
    assert!(!info.built_at.is_empty());
    assert!(!info.profile.is_empty());
    assert!(!info.rustc.is_empty());
    assert!(!info.bus_protocol.is_empty());
    assert_eq!(info.name, "weaver");
    assert_eq!(info.bus_protocol, BUS_PROTOCOL_VERSION_STR);
    assert_eq!(info.profile, "debug");
    assert!(!info.dirty);
}

#[test]
fn version_line_mentions_dirty_only_when_dirty() {
    let clean = VersionInfo::from_build("0.1.0", "abc", "false", "t", "false", "r");
    assert_eq!(version_line(&clean), "weaver 0.1.0 (commit abc)");
    let dirty = VersionInfo::from_build("0.1.0", "abc", "true", "t", "false", "r");
    assert_eq!(version_line(&dirty), "weaver 0.1.0 (commit abc, dirty)");
    assert_eq!(profile_label("false"), "release");
    assert_eq!(profile_label("true"), "debug");
}

#[test]
fn json_round_trip_unavailable() {
    let r = StatusResponse::unavailable("core not reachable at /tmp/x.sock".into());
    assert_eq!(r.lifecycle, "unavailable");
    assert!(r.is_unavailable());
    assert!(r.uptime_ns.is_none());
    assert!(r.facts.is_empty());
    assert_eq!(r.error.as_deref(), Some("core not reachable at /tmp/x.sock"));
}

#[test]
fn ready_shape_omits_error_field() {
    let r = StatusResponse::reachable(LifecycleSignal::Ready, 42, Vec::new());
    assert!(r.error.is_none());
    assert_eq!(r.lifecycle, "ready");
    assert_eq!(r.uptime_ns, Some(42));
    assert!(!r.is_unavailable());
}

#[test]
fn format_value_renders_each_variant() {
    assert_eq!(format_value(&FactValue::Bool(true)), "true");
    assert_eq!(format_value(&FactValue::Bool(false)), "false");
    assert_eq!(format_value(&FactValue::String("a\"b".into())), format!("{:?}", "a\"b"));
    assert_eq!(format_value(&FactValue::Int(-42)), "-42");
    assert_eq!(format_value(&FactValue::Int(i64::MIN)), "-9223372036854775808");
    assert_eq!(format_value(&FactValue::Int(7)), "7");
    assert_eq!(format_value(&FactValue::U64(u64::MAX)), "18446744073709551615");
    assert_eq!(format_value(&FactValue::Null), "null");
}

#[test]
fn format_source_renders_each_actor() {
    assert_eq!(format_source(&ActorIdentity::Core), "core");
    assert_eq!(format_source(&ActorIdentity::Tui), "tui");
    assert_eq!(format_source(&ActorIdentity::User), "user");
    assert_eq!(
        format_source(&ActorIdentity::Behavior { id: BehaviorId::new("core/dirty-tracking".into()) }),
        "behavior:core/dirty-tracking"
    );
    assert_eq!(
        format_source(&ActorIdentity::Service { service_id: "weaver-buffers".into(), instance_id: 1 }),
        "service:weaver-buffers:00000000-0000-0000-0000-000000000001"
    );
}

#[test]
fn range_text_round_trips_through_parse_range() {
    for (sl, sc, el, ec) in [(0u32, 0u32, 0u32, 0u32), (1, 22, 333, 4444), (u32::MAX, 7, 0, u32::MAX)] {
        let text = format!("{sl}:{sc}-{el}:{ec}");
        assert_eq!(parse_range(&text).unwrap(), rng(pos(sl, sc), pos(el, ec)), "{text}");
    }
}

#[test]
fn fact_key_text_round_trips_through_parse_fact_key() {
    for (entity, attribute) in [(0u64, "a"), (42, "buffer/dirty"), (u64::MAX, "x:y")] {
        let k = parse_fact_key(&format!("{entity}:{attribute}")).unwrap();
        assert_eq!(k.entity.as_u64(), entity);
        assert_eq!(k.attribute, attribute);
    }
}
