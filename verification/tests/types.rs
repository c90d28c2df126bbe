use std::hash::{Hash, Hasher};
use weaver::types::buffer_entity::{
    buffer_entity_ref, BUFFER_NAMESPACE_BIT, INSTANCE_NAMESPACE_BIT, REPO_NAMESPACE_BIT,
};
use weaver::types::edit::{position_le, position_lt, Position};
use weaver::types::entity_ref::EntityRef;
use weaver::types::fact::FactKey;
use weaver::types::ids::{hash_to_58, BehaviorId, EventId};

fn pos(line: u32, character: u32) -> Position {
    Position { line, character }
}

#[test]
fn buffer_entity_sets_bit_61_clears_bits_62_and_63() {
    for path in [
        "/tmp/a",
        "/home/alex/code/weaver/core/src/lib.rs",
        "/",
        "/this/is/a/very/long/canonical/path/that/exercises/the/hasher",
    ] {
        let e = buffer_entity_ref(path).as_u64();
        assert!(e & BUFFER_NAMESPACE_BIT != 0, "bit 61 must be set for {path}");
        assert!(e & INSTANCE_NAMESPACE_BIT == 0, "bit 62 must be clear for {path}");
        assert!(e & REPO_NAMESPACE_BIT == 0, "bit 63 must be clear for {path}");
    }
}

#[test]
fn buffer_entity_buffer_entity_is_deterministic() {
    let path = "/home/alex/file.txt";
    assert_eq!(buffer_entity_ref(path), buffer_entity_ref(path));
}

#[test]
fn buffer_entity_buffer_entity_distinguishes_paths() {
    let a = buffer_entity_ref("/tmp/a");
    let b = buffer_entity_ref("/tmp/b");
    assert_ne!(a, b);
}

#[test]
fn position_ordering_is_lexicographic_on_line_then_character() {
    assert!(pos(0, 0) < pos(0, 1));
    assert!(pos(0, 5) < pos(0, 6));
    assert!(pos(0, 999) < pos(1, 0));
    assert!(pos(7, 0) > pos(6, 999_999));
    assert_eq!(pos(4, 4), pos(4, 4));
}

#[test]
fn position_lt_and_le_agree_with_derived_order() {
    let samples = [pos(0, 0), pos(0, 1), pos(0, 999), pos(1, 0), pos(6, 999_999), pos(7, 0)];
    for a in samples {
        for b in samples {
            assert_eq!(position_lt(a, b), a < b, "{a:?} < {b:?}");
            assert_eq!(position_le(a, b), a <= b, "{a:?} <= {b:?}");
        }
    }
}

#[test]
fn is_char_boundary_pins_validator_contract() {
    let line = "𝔸";
    assert!(line.is_char_boundary(0));
    assert!(line.is_char_boundary(4));
    assert!(!line.is_char_boundary(1));
    assert!(!line.is_char_boundary(2));
    assert!(!line.is_char_boundary(3));
    let line = "héllo";
    assert!(line.is_char_boundary(0));
    assert!(line.is_char_boundary(1));
    assert!(!line.is_char_boundary(2));
    assert!(line.is_char_boundary(3));
    assert!(line.is_char_boundary(line.len()));
}

#[test]
fn family_split() {
    let k = FactKey::new(EntityRef::new(1), "buffer/dirty");
    assert_eq!(k.family(), "buffer");
}

#[test]
fn family_no_slash() {
    let k = FactKey::new(EntityRef::new(1), "standalone");
    assert_eq!(k.family(), "standalone");
}

#[test]
fn fact_key_display_and_identity() {
    let k = FactKey::new(EntityRef::new(42), "buffer/path");
    assert_eq!(k.to_display_string(), "(EntityRef(42), buffer/path)");
    assert!(k.same_as(&FactKey::new(EntityRef::new(42), "buffer/path")));
    assert!(!k.same_as(&FactKey::new(EntityRef::new(43), "buffer/path")));
    assert!(!k.same_as(&FactKey::new(EntityRef::new(42), "buffer/dirty")));
}

#[test]
fn entity_ref_display_wraps_decimal() {
    assert_eq!(EntityRef::new(0).to_display_string(), "EntityRef(0)");
    assert_eq!(EntityRef::new(u64::MAX).to_display_string(), "EntityRef(18446744073709551615)");
}

#[test]
fn event_id_for_testing_is_deterministic() {
    assert_eq!(EventId::for_testing(42), EventId::for_testing(42));
    assert_ne!(EventId::for_testing(1), EventId::for_testing(2));
}

#[test]
fn event_id_nil_is_uuid_nil() {
    assert_eq!(EventId::nil(), EventId::new(uuid::Uuid::nil().as_u128()));
}

#[test]
fn event_id_display_is_hyphenated_lowercase_hex() {
    let id = EventId::new(0x0123_4567_89ab_cdef_0011_2233_4455_6677);
    assert_eq!(id.to_display_string(), "EventId(01234567-89ab-cdef-0011-223344556677)");
    assert_eq!(
        id.to_display_string(),
        format!("EventId({})", uuid::Uuid::from_u128(id.as_u128()).hyphenated())
    );
    assert_eq!(EventId::nil().to_display_string(), "EventId(00000000-0000-0000-0000-000000000000)");
}

#[test]
fn behavior_id_display() {
    let b = BehaviorId::new("core/dirty-tracking".to_string());
    assert_eq!(b.to_display_string(), "core/dirty-tracking");
    assert_eq!(b.as_str(), "core/dirty-tracking");
}

#[test]
fn mint_v8_produces_valid_uuidv8() {
    let id = EventId::mint_v8(0x12345, 0xABCD_EF12_3456_7890);
    let uuid = uuid::Uuid::from_u128(id.as_u128());
    assert_eq!(uuid.get_version_num(), 8, "UUIDv8 version nibble must be 8: {uuid}");
    assert_eq!(uuid.get_variant(), uuid::Variant::RFC4122, "variant must be RFC 4122: {uuid}");
}

#[test]
fn mint_v8_extract_prefix_round_trip() {
    for &prefix in &[0u64, 1, 0x12345, (1u64 << 58) - 1, 0x2A2A_BEEF_CAFE_1234] {
        let masked_prefix = prefix & ((1u64 << 58) - 1);
        for &time in &[0u64, 1, 0xCAFE_BABE, u64::MAX] {
            let id = EventId::mint_v8(prefix, time);
            assert_eq!(
                id.extract_prefix(),
                masked_prefix,
                "round-trip failed: prefix={prefix:#x} time={time:#x}"
            );
        }
    }
}

#[test]
fn mint_v8_distinct_inputs_distinct_outputs() {
    let a = EventId::mint_v8(0x1, 0x100);
    let b = EventId::mint_v8(0x2, 0x100);
    let c = EventId::mint_v8(0x1, 0x101);
    assert_ne!(a, b);
    assert_ne!(a, c);
    assert_ne!(b, c);
}

#[test]
fn extract_prefix_returns_zero_for_non_uuidv8() {
    assert_eq!(EventId::nil().extract_prefix(), 0);
    assert_eq!(EventId::for_testing(42).extract_prefix(), 0);
}

#[test]
fn hash_to_58_is_deterministic_and_bounded() {
    let u = 0xDEAD_BEEF_CAFE_1234_5678_9ABC_DEF0_4242_u128;
    let h1 = hash_to_58(u);
    let h2 = hash_to_58(u);
    assert_eq!(h1, h2);
    assert!(h1 < (1u64 << 58), "hash_to_58 must fit in 58 bits: got {h1:#x}");
}

#[test]
fn hash_to_58_matches_default_hasher_of_the_uuid() {
    let u = 0x1234_5678_9abc_def0_0fed_cba9_8765_4321_u128;
    let mut hasher = std::collections::hash_map::DefaultHasher::new();
    uuid::Uuid::from_u128(u).hash(&mut hasher);
    assert_eq!(hash_to_58(u), hasher.finish() & ((1u64 << 58) - 1));
}

#[test]
fn buffer_entity_ref_is_default_hash_of_path_with_namespace_bits() {
    let path = "/tmp/some/file.rs";
    let mut hasher = std::collections::hash_map::DefaultHasher::new();
    std::path::Path::new(path).hash(&mut hasher);
    let h = hasher.finish();
    let expected = (h | BUFFER_NAMESPACE_BIT) & !(INSTANCE_NAMESPACE_BIT | REPO_NAMESPACE_BIT);
    assert_eq!(buffer_entity_ref(path).as_u64(), expected);
}
