//! Strongly-typed identifiers — distinct from each other and from
//! [`crate::types::entity_ref::EntityRef`].

use vstd::prelude::*;
use crate::text::{hex_fixed, push_hex_fixed};

verus! {

/// Lowercase hyphenated UUID rendering (`8-4-4-4-12` hex digits) of the
/// 128-bit value `v`.
pub open spec fn hyphenated(v: nat) -> Seq<char> {
    hex_fixed(v / 0x1_0000_0000_0000_0000_0000_0000, 8) + "-"@
        + hex_fixed(v / 0x1_0000_0000_0000_0000_0000, 4) + "-"@
        + hex_fixed(v / 0x1_0000_0000_0000_0000, 4) + "-"@
        + hex_fixed(v / 0x1_0000_0000_0000, 4) + "-"@
        + hex_fixed(v, 12)
}

/// Append the hyphenated UUID rendering of `v` to `s`.
pub fn push_hyphenated(s: &mut String, v: u128)
    ensures
        final(s)@ == old(s)@ + hyphenated(v as nat),
{
    push_hex_fixed(s, v / 0x1_0000_0000_0000_0000_0000_0000, 8);
    s.append("-");
    push_hex_fixed(s, v / 0x1_0000_0000_0000_0000_0000, 4);
    s.append("-");
    push_hex_fixed(s, v / 0x1_0000_0000_0000_0000, 4);
    s.append("-");
    push_hex_fixed(s, v / 0x1_0000_0000_0000, 4);
    s.append("-");
    push_hex_fixed(s, v, 12);
    assert(final(s)@ =~= old(s)@ + hyphenated(v as nat));
}

/// Event identifier: the 128 bits of a UUID (UUIDv8 for minted ids).
///
/// The all-zero value ([`EventId::nil`]) is reserved as the "no causal
/// parent" sentinel.
#[derive(Clone, Copy, Debug, PartialEq, Eq, Structural, Hash, PartialOrd, Ord)]
pub struct EventId(pub u128);

/// Bits `127..80` of a UUIDv8 carry the high 48 bits of the 58-bit
/// producer prefix; bits `79..76` the version nibble `8`; bits `75..64`
/// the low 10 prefix bits followed by the high 2 time bits; bits
/// `63..62` the RFC 4122 variant `0b10`; bits `61..0` the low 62 time bits.
pub open spec fn spec_mint_v8(producer_prefix_58: u64, time_or_counter: u64) -> u128 {
    let prefix = producer_prefix_58 & 0x3ff_ffff_ffff_ffff;
    let custom_a = prefix >> 10u64;
    let prefix_low_10 = prefix & 0x3ff;
    let time_high_2 = (time_or_counter >> 62u64) & 3;
    let custom_b = (prefix_low_10 << 2u64) | time_high_2;
    let custom_c = time_or_counter & 0x3fff_ffff_ffff_ffff;
    ((custom_a as u128) << 80u128) | (0x8u128 << 76u128) | (((custom_b as u128) & 0xfff) << 64u128)
        | (0b10u128 << 62u128) | (custom_c as u128)
}

/// The 58-bit producer prefix packed into a UUIDv8 value by
/// [`spec_mint_v8`]; `0` for values with zero prefix fields.
pub open spec fn spec_extract_prefix(value: u128) -> u64 {
    let custom_a = ((value >> 80u128) & 0xffff_ffff_ffff) as u64;
    let custom_b = ((value >> 64u128) & 0xfff) as u64;
    let prefix_low_10 = (custom_b >> 2u64) & 0x3ff;
    (custom_a << 10u64) | prefix_low_10
}

impl EventId {
    /// Wrap the 128 bits of a UUID as an `EventId`.
    pub fn new(value: u128) -> (r: Self)
        ensures
            r.0 == value,
    {
        EventId(value)
    }

    /// The reserved "no causal parent" sentinel (all-zero bits).
    pub fn nil() -> (r: Self)
        ensures
            r.0 == 0,
    {
        EventId(0)
    }

    /// Deterministic constructor for test fixtures.
    pub fn for_testing(value: u128) -> (r: Self)
        ensures
            r.0 == value,
    {
        EventId(value)
    }

    /// The 128 UUID bits.
    pub fn as_u128(self) -> (r: u128)
        ensures
            r == self.0,
    {
        self.0
    }

    /// Mint a UUIDv8 event id from a 58-bit producer prefix (higher bits
    /// are ignored) and a 64-bit time or counter value.
    pub fn mint_v8(producer_prefix_58: u64, time_or_counter: u64) -> (r: Self)
        ensures
            r.0 == spec_mint_v8(producer_prefix_58, time_or_counter),
    {
        let prefix: u64 = producer_prefix_58 & 0x3ff_ffff_ffff_ffff;
        let custom_a: u64 = prefix >> 10;
        let prefix_low_10: u64 = prefix & 0x3ff;
        let time_high_2: u64 = (time_or_counter >> 62) & 3;
        let custom_b: u64 = (prefix_low_10 << 2) | time_high_2;
        let custom_c: u64 = time_or_counter & 0x3fff_ffff_ffff_ffff;
        let mut value: u128 = 0;
        value = value | ((custom_a as u128) << 80);
        value = value | (0x8u128 << 76);
        value = value | (((custom_b as u128) & 0xfff) << 64);
        value = value | (0b10u128 << 62);
        value = value | (custom_c as u128);
        assert(value == spec_mint_v8(producer_prefix_58, time_or_counter)) by (bit_vector)
            requires
                prefix == producer_prefix_58 & 0x3ff_ffff_ffff_ffff,
                custom_a == prefix >> 10u64,
                prefix_low_10 == prefix & 0x3ff,
                time_high_2 == (time_or_counter >> 62u64) & 3,
                custom_b == (prefix_low_10 << 2u64) | time_high_2,
                custom_c == time_or_counter & 0x3fff_ffff_ffff_ffff,
                value == ((((0u128 | ((custom_a as u128) << 80u128)) | (0x8u128 << 76u128))
                    | (((custom_b as u128) & 0xfff) << 64u128)) | (0b10u128 << 62u128))
                    | (custom_c as u128),
        ;
        EventId(value)
    }

    /// Recover the 58-bit producer prefix from a UUIDv8 event id.
    pub fn extract_prefix(&self) -> (r: u64)
        ensures
            r == spec_extract_prefix(self.0),
    {
        let value = self.0;
        let custom_a: u64 = ((value >> 80) & 0xffff_ffff_ffff) as u64;
        let custom_b: u64 = ((value >> 64) & 0xfff) as u64;
        let prefix_low_10: u64 = (custom_b >> 2) & 0x3ff;
        (custom_a << 10) | prefix_low_10
    }

    /// Human-readable rendering, `EventId(<hyphenated uuid>)`.
    pub fn to_display_string(&self) -> (s: String)
        ensures
            s@ == "EventId("@ + hyphenated(self.0 as nat) + ")"@,
    {
        let mut s = String::from_str("EventId(");
        push_hyphenated(&mut s, self.0);
        s.append(")");
        s
    }
}

/// Minting then extracting recovers the producer prefix (its low 58 bits).
pub proof fn lemma_mint_extract_round_trip(producer_prefix_58: u64, time_or_counter: u64)
    ensures
        spec_extract_prefix(spec_mint_v8(producer_prefix_58, time_or_counter))
            == producer_prefix_58 & 0x3ff_ffff_ffff_ffff,
{
    assert(spec_extract_prefix(spec_mint_v8(producer_prefix_58, time_or_counter))
        == producer_prefix_58 & 0x3ff_ffff_ffff_ffff) by (bit_vector);
}

/// A minted id always carries version nibble `8` and RFC 4122 variant `0b10`.
pub proof fn lemma_mint_version_and_variant(producer_prefix_58: u64, time_or_counter: u64)
    ensures
        (spec_mint_v8(producer_prefix_58, time_or_counter) >> 76u128) & 0xf == 8,
        (spec_mint_v8(producer_prefix_58, time_or_counter) >> 62u128) & 0x3 == 2,
{
    assert((spec_mint_v8(producer_prefix_58, time_or_counter) >> 76u128) & 0xf == 8) by (bit_vector);
    assert((spec_mint_v8(producer_prefix_58, time_or_counter) >> 62u128) & 0x3 == 2) by (bit_vector);
}

/// Minting is injective: equal ids come from the same 58-bit prefix and
/// the same time/counter value.
pub proof fn lemma_mint_injective(p1: u64, t1: u64, p2: u64, t2: u64)
    requires
        spec_mint_v8(p1, t1) == spec_mint_v8(p2, t2),
    ensures
        p1 & 0x3ff_ffff_ffff_ffff == p2 & 0x3ff_ffff_ffff_ffff,
        t1 == t2,
{
    assert(p1 & 0x3ff_ffff_ffff_ffff == p2 & 0x3ff_ffff_ffff_ffff) by (bit_vector)
        requires spec_mint_v8(p1, t1) == spec_mint_v8(p2, t2);
    assert(t1 == t2) by (bit_vector)
        requires spec_mint_v8(p1, t1) == spec_mint_v8(p2, t2);
}

/// What `std`'s `DefaultHasher` (fixed-key SipHash) yields for a UUID
/// hashed as `Uuid` hashes itself: its 16 big-endian bytes, written
/// without a length prefix.
pub uninterp spec fn uuid_default_hash(uuid: u128) -> u64;

/// Hashes `uuid::Uuid::from_u128(uuid)` with a fresh
/// `std::collections::hash_map::DefaultHasher` and returns `finish()`.
/// Trusted: the result is named [`uuid_default_hash`] of the UUID bits;
/// `DefaultHasher::new` is documented to build identical hashers.
#[verifier::external_body]
fn default_hash_of_uuid(uuid: u128) -> (h: u64)
    ensures
        h == uuid_default_hash(uuid),
{
    let mut hasher = std::collections::hash_map::DefaultHasher::new();
    std::hash::Hash::hash(&uuid::Uuid::from_u128(uuid), &mut hasher);
    std::hash::Hasher::finish(&hasher)
}

/// Hash a UUID to a 58-bit UUIDv8 producer prefix.
pub fn hash_to_58(uuid: u128) -> (r: u64)
    ensures
        r == uuid_default_hash(uuid) & 0x3ff_ffff_ffff_ffff,
        r < 0x400_0000_0000_0000,
{
    let h = default_hash_of_uuid(uuid);
    let r = h & 0x3ff_ffff_ffff_ffff;
    assert(r < 0x400_0000_0000_0000) by (bit_vector)
        requires r == h & 0x3ff_ffff_ffff_ffffu64;
    r
}

/// Human-readable behavior identifier, e.g. `"core/dirty-tracking"`.
#[derive(Debug, PartialEq, Eq, Hash)]
pub struct BehaviorId(pub String);

impl Clone for BehaviorId {
    fn clone(&self) -> (r: Self)
        ensures
            r == *self,
    {
        BehaviorId(self.0.clone())
    }
}

impl BehaviorId {
    pub fn new(id: String) -> (r: Self)
        ensures
            r.0@ == id@,
    {
        BehaviorId(id)
    }

    pub fn as_str(&self) -> (r: &str)
        ensures
            r@ == self.0@,
    {
        self.0.as_str()
    }

    /// The identifier itself, as displayed.
    pub fn to_display_string(&self) -> (s: String)
        ensures
            s@ == self.0@,
    {
        self.0.clone()
    }
}

} // verus!
