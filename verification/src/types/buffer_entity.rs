//! Buffer-namespace entity-id derivation.
//!
//! Three reserved namespace bits: bit 63 for repository entities, bit 62
//! for per-process service-instance entities, bit 61 for buffer entities
//! derived from a file's canonical path.

use vstd::prelude::*;
use crate::types::entity_ref::EntityRef;

verus! {

/// Buffer-namespace bit, set on every entity derived from a buffer's
/// canonical filesystem path.
pub const BUFFER_NAMESPACE_BIT: u64 = 0x2000_0000_0000_0000;

/// Service-instance-namespace bit.
pub const INSTANCE_NAMESPACE_BIT: u64 = 0x4000_0000_0000_0000;

/// Repository-namespace bit.
pub const REPO_NAMESPACE_BIT: u64 = 0x8000_0000_0000_0000;

/// What `std`'s `DefaultHasher` (SipHash with fixed keys) yields for a
/// `std::path::Path` built from the given path string.
pub uninterp spec fn path_default_hash(path: Seq<char>) -> u64;

/// Hashes `Path::new(path)` with a fresh `std::collections::hash_map::DefaultHasher`
/// and returns `finish()`. Trusted: the result is named
/// [`path_default_hash`] of the path string; `DefaultHasher::new` is
/// documented to be identical for every instance it creates.
#[verifier::external_body]
fn default_hash_of_path(path: &str) -> (h: u64)
    ensures
        h == path_default_hash(path@),
{
    let mut hasher = std::collections::hash_map::DefaultHasher::new();
    std::hash::Hash::hash(std::path::Path::new(path), &mut hasher);
    std::hash::Hasher::finish(&hasher)
}

/// The buffer entity id for a path hash: bit 61 set, bits 62 and 63 clear.
pub open spec fn spec_buffer_entity_bits(h: u64) -> u64 {
    (h | BUFFER_NAMESPACE_BIT) & !(INSTANCE_NAMESPACE_BIT | REPO_NAMESPACE_BIT)
}

/// Derive a stable [`EntityRef`] for a buffer entity from its
/// canonicalised absolute path. Pure: no I/O, no implicit
/// canonicalisation.
pub fn buffer_entity_ref(path: &str) -> (r: EntityRef)
    ensures
        r.0 == spec_buffer_entity_bits(path_default_hash(path@)),
        r.0 & BUFFER_NAMESPACE_BIT != 0,
        r.0 & INSTANCE_NAMESPACE_BIT == 0,
        r.0 & REPO_NAMESPACE_BIT == 0,
{
    let h = default_hash_of_path(path);
    let v = (h | BUFFER_NAMESPACE_BIT) & !(INSTANCE_NAMESPACE_BIT | REPO_NAMESPACE_BIT);
    assert(v & 0x2000_0000_0000_0000 != 0 && v & 0x4000_0000_0000_0000 == 0
        && v & 0x8000_0000_0000_0000 == 0) by (bit_vector)
        requires
            v == (h | 0x2000_0000_0000_0000u64) & !(0x4000_0000_0000_0000u64 | 0x8000_0000_0000_0000u64),
    ;
    EntityRef::new(v)
}

} // verus!
