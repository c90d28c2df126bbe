//! In-memory state of one opened buffer and its atomic edit pipeline.
//!
//! `BufferState` keeps `memory_digest == sha256(content)` across every
//! constructor and every accepted batch of edits.

use vstd::prelude::*;
use crate::buffers::batch::{
    all_valid, first_fault_at, first_overlap_at, no_overlap, overlap_error, sort_by_start,
    sorted_order, spec_apply, stable_sorted, find_overlap, apply_in_order,
};
use crate::buffers::edits::{ApplyError, BoundarySide, boundary_fault, edit_fault, error_for, validate_edit};
use crate::buffers::lines::{LineIndex, line_count, line_len, line_starts};
use crate::types::buffer_entity::{buffer_entity_ref, path_default_hash, spec_buffer_entity_bits};
use crate::types::buffer_entity::{INSTANCE_NAMESPACE_BIT, REPO_NAMESPACE_BIT};
use crate::types::edit::TextEdit;
use crate::types::entity_ref::EntityRef;
use crate::types::fact::FactValue;
use crate::cli::output::{debug_quoted, str_debug};
use crate::text::{decimal, hex_fixed, push_decimal, push_hex_fixed};

verus! {

/// The SHA-256 digest of a byte string.
pub uninterp spec fn sha256(data: Seq<u8>) -> Seq<u8>;

/// A running SHA-256 computation over the bytes fed so far, for
/// hashing data that arrives in pieces. The hasher itself (a
/// `sha2::Sha256`) stays opaque.
#[verifier::external_body]
pub struct DigestStream {
    hasher: sha2::Sha256,
}

/// The bytes fed into a digest stream so far, in order.
pub uninterp spec fn digest_stream_fed(s: DigestStream) -> Seq<u8>;

/// `<Sha256 as Digest>::new`. Trusted: the fresh hasher has been fed
/// nothing.
#[verifier::external_body]
fn digest_stream_new() -> (s: DigestStream)
    ensures
        digest_stream_fed(s) == Seq::<u8>::empty(),
{
    DigestStream { hasher: <sha2::Sha256 as sha2::Digest>::new() }
}

/// `<Sha256 as Digest>::update`. Trusted: the hasher has now been fed
/// `data` after what it was fed before.
#[verifier::external_body]
fn digest_stream_update(s: &mut DigestStream, data: &[u8])
    ensures
        digest_stream_fed(*final(s)) == digest_stream_fed(*old(s)) + data@,
{
    <sha2::Sha256 as sha2::Digest>::update(&mut s.hasher, data)
}

/// `<Sha256 as Digest>::finalize`. Trusted: the result is named
/// [`sha256`] of the bytes fed, in order.
#[verifier::external_body]
fn digest_stream_finalize(s: DigestStream) -> (d: [u8; 32])
    ensures
        d@ == sha256(digest_stream_fed(s)),
{
    <sha2::Sha256 as sha2::Digest>::finalize(s.hasher).into()
}

impl DigestStream {
    /// A stream that has been fed nothing.
    pub fn new() -> (s: Self)
        ensures
            digest_stream_fed(s) == Seq::<u8>::empty(),
    {
        digest_stream_new()
    }

    /// Feed the next piece of the data.
    pub fn feed(&mut self, chunk: &[u8])
        ensures
            digest_stream_fed(*final(self)) == digest_stream_fed(*old(self)) + chunk@,
    {
        digest_stream_update(self, chunk);
    }

    /// The SHA-256 digest of everything fed.
    pub fn finish(self) -> (d: [u8; 32])
        ensures
            d@ == sha256(digest_stream_fed(self)),
    {
        digest_stream_finalize(self)
    }
}

/// The SHA-256 digest of `data`, fed in one piece.
pub fn sha256_digest(data: &[u8]) -> (d: [u8; 32])
    ensures
        d@ == sha256(data@),
{
    let mut s = DigestStream::new();
    s.feed(data);
    assert(Seq::<u8>::empty() + data@ =~= data@);
    s.finish()
}

/// A batch is accepted against `c`: every edit passes the per-edit
/// checks and no two edits overlap in stable start order.
pub open spec fn batch_accepted(c: Seq<u8>, edits: Seq<TextEdit>) -> bool {
    all_valid(c, edits) && no_overlap(edits, sorted_order(edits))
}

/// An accepted batch never splits a character: for every edit, each of
/// its endpoints that lies strictly inside a line's content sits on a
/// byte that is not a UTF-8 continuation byte (`0b10xx_xxxx`), so an
/// endpoint inside a multi-byte sequence gets the batch refused.
pub proof fn lemma_accepted_endpoints_on_char_boundaries(c: Seq<u8>, edits: Seq<TextEdit>)
    requires
        batch_accepted(c, edits),
    ensures
        forall|i: int|
            #![trigger edits[i]]
            0 <= i < edits.len() && edits[i].range.start.line < line_count(c) && 0 < edits[i].range.start.character
                < line_len(c, edits[i].range.start.line as int) ==> c[line_starts(c)[edits[i].range.start.line as int]
                + edits[i].range.start.character] & 0xc0 != 0x80,
        forall|i: int|
            #![trigger edits[i]]
            0 <= i < edits.len() && edits[i].range.end.line < line_count(c) && 0 < edits[i].range.end.character
                < line_len(c, edits[i].range.end.line as int) ==> c[line_starts(c)[edits[i].range.end.line as int]
                + edits[i].range.end.character] & 0xc0 != 0x80,
{
    assert forall|i: int|
        0 <= i < edits.len() && edits[i].range.start.line < line_count(c) && 0 < edits[i].range.start.character
            < line_len(c, edits[i].range.start.line as int) implies #[trigger] c[line_starts(c)[edits[i].range.start.line as int]
            + edits[i].range.start.character] & 0xc0 != 0x80 by {
        assert(edit_fault(c, edits[i]) is None);
        assert(boundary_fault(c, BoundarySide::Start, edits[i].range.start) is None);
    }
    assert forall|i: int|
        0 <= i < edits.len() && edits[i].range.end.line < line_count(c) && 0 < edits[i].range.end.character
            < line_len(c, edits[i].range.end.line as int) implies #[trigger] c[line_starts(c)[edits[i].range.end.line as int]
            + edits[i].range.end.character] & 0xc0 != 0x80 by {
        assert(edit_fault(c, edits[i]) is None);
        assert(boundary_fault(c, BoundarySide::End, edits[i].range.end) is None);
    }
}

/// In-memory state for a single opened buffer.
pub struct BufferState {
    path: String,
    entity: EntityRef,
    inode: u64,
    content: Vec<u8>,
    memory_digest: [u8; 32],
    last_dirty: bool,
    last_observable: bool,
}

impl BufferState {
    /// The canonical path the buffer was opened from.
    pub closed spec fn spec_path(&self) -> Seq<char> {
        self.path@
    }

    /// The buffer's entity.
    pub closed spec fn spec_entity(&self) -> EntityRef {
        self.entity
    }

    /// The inode captured at open time.
    pub closed spec fn spec_inode(&self) -> u64 {
        self.inode
    }

    /// The in-memory content.
    pub closed spec fn spec_content(&self) -> Seq<u8> {
        self.content@
    }

    /// The recorded digest of the content.
    pub closed spec fn spec_digest(&self) -> Seq<u8> {
        self.memory_digest@
    }

    /// Most recently published `buffer/dirty` value.
    pub closed spec fn spec_last_dirty(&self) -> bool {
        self.last_dirty
    }

    /// Most recently published `buffer/observable` value.
    pub closed spec fn spec_last_observable(&self) -> bool {
        self.last_observable
    }

    /// The recorded digest is the SHA-256 of the content.
    pub open spec fn digest_consistent(&self) -> bool {
        self.spec_digest() == sha256(self.spec_content())
    }

    /// Build the state of a freshly opened file from what was read: its
    /// canonical path, its inode and its bytes. Not dirty, observable.
    pub fn from_opened(path: String, inode: u64, content: Vec<u8>) -> (s: Self)
        ensures
            s.spec_path() == path@,
            s.spec_entity().0 == spec_buffer_entity_bits(path_default_hash(path@)),
            s.spec_inode() == inode,
            s.spec_content() == content@,
            s.digest_consistent(),
            !s.spec_last_dirty(),
            s.spec_last_observable(),
    {
        let memory_digest = sha256_digest(content.as_slice());
        let entity = buffer_entity_ref(path.as_str());
        BufferState {
            path,
            entity,
            inode,
            content,
            memory_digest,
            last_dirty: false,
            last_observable: true,
        }
    }

    pub fn path(&self) -> (r: &str)
        ensures
            r@ == self.spec_path(),
    {
        self.path.as_str()
    }

    pub fn entity(&self) -> (r: EntityRef)
        ensures
            r == self.spec_entity(),
    {
        self.entity
    }

    /// Inode captured at open time.
    pub fn inode(&self) -> (r: u64)
        ensures
            r == self.spec_inode(),
    {
        self.inode
    }

    pub fn content(&self) -> (r: &[u8])
        ensures
            r@ == self.spec_content(),
    {
        self.content.as_slice()
    }

    pub fn memory_digest(&self) -> (r: &[u8; 32])
        ensures
            r@ == self.spec_digest(),
    {
        &self.memory_digest
    }

    /// Byte length of the in-memory content.
    pub fn byte_size(&self) -> (r: u64)
        ensures
            r as int == self.spec_content().len(),
    {
        self.content.len() as u64
    }

    pub fn last_dirty(&self) -> (r: bool)
        ensures
            r == self.spec_last_dirty(),
    {
        self.last_dirty
    }

    pub fn last_observable(&self) -> (r: bool)
        ensures
            r == self.spec_last_observable(),
    {
        self.last_observable
    }

    /// Record the most recently published `buffer/dirty` value.
    pub fn set_last_dirty(&mut self, v: bool)
        ensures
            final(self).spec_last_dirty() == v,
            final(self).spec_path() == old(self).spec_path(),
            final(self).spec_entity() == old(self).spec_entity(),
            final(self).spec_inode() == old(self).spec_inode(),
            final(self).spec_content() == old(self).spec_content(),
            final(self).spec_digest() == old(self).spec_digest(),
            final(self).spec_last_observable() == old(self).spec_last_observable(),
    {
        self.last_dirty = v;
    }

    /// Record the most recently published `buffer/observable` value.
    pub fn set_last_observable(&mut self, v: bool)
        ensures
            final(self).spec_last_observable() == v,
            final(self).spec_path() == old(self).spec_path(),
            final(self).spec_entity() == old(self).spec_entity(),
            final(self).spec_inode() == old(self).spec_inode(),
            final(self).spec_content() == old(self).spec_content(),
            final(self).spec_digest() == old(self).spec_digest(),
            final(self).spec_last_dirty() == old(self).spec_last_dirty(),
    {
        self.last_observable = v;
    }

    /// Overwrite the in-memory content, leaving the digest, entity and
    /// inode as they were (a test seam for pre-save states).
    pub fn set_content_for_test(&mut self, content: Vec<u8>)
        ensures
            final(self).spec_content() == content@,
            final(self).spec_path() == old(self).spec_path(),
            final(self).spec_entity() == old(self).spec_entity(),
            final(self).spec_inode() == old(self).spec_inode(),
            final(self).spec_digest() == old(self).spec_digest(),
            final(self).spec_last_dirty() == old(self).spec_last_dirty(),
            final(self).spec_last_observable() == old(self).spec_last_observable(),
    {
        self.content = content;
    }

    /// Apply a batch of edits atomically to the content.
    ///
    /// Every edit is checked in input order (the first failing edit
    /// decides the error); then the batch is stably sorted by start and
    /// the first adjacent overlapping pair is refused; otherwise every
    /// edit is applied against the original coordinates and the digest
    /// is recomputed once. An empty batch changes nothing. A refused
    /// batch changes nothing.
    pub fn apply_edits(&mut self, edits: &[TextEdit]) -> (r: Result<(), ApplyError>)
        ensures
            final(self).spec_path() == old(self).spec_path(),
            final(self).spec_entity() == old(self).spec_entity(),
            final(self).spec_inode() == old(self).spec_inode(),
            final(self).spec_last_dirty() == old(self).spec_last_dirty(),
            final(self).spec_last_observable() == old(self).spec_last_observable(),
            r is Ok <==> batch_accepted(old(self).spec_content(), edits@),
            r is Err ==> *final(self) == *old(self),
            r is Ok ==> final(self).spec_content() == spec_apply(old(self).spec_content(), edits@),
            r is Ok && edits@.len() > 0 ==> final(self).digest_consistent(),
            old(self).digest_consistent() ==> final(self).digest_consistent(),
            r is Err || edits@.len() == 0 ==> final(self).spec_content() == old(self).spec_content()
                && final(self).spec_digest() == old(self).spec_digest(),
            forall|i: int| #[trigger] first_fault_at(old(self).spec_content(), edits@, i)
                ==> r is Err && error_for(r->Err_0, i as usize, edit_fault(old(self).spec_content(), edits@[i]).unwrap()),
            forall|k: int| all_valid(old(self).spec_content(), edits@)
                && #[trigger] first_overlap_at(edits@, sorted_order(edits@), k)
                ==> r == Err::<(), ApplyError>(overlap_error(sorted_order(edits@), k)),
    {
        let ghost c = self.content@;
        if edits.len() == 0 {
            proof {
                assert(stable_sorted(edits@, Seq::<usize>::empty()));
                assert(c.subrange(0, c.len() as int) =~= c);
            }
            return Ok(());
        }
        let idx = LineIndex::build(self.content.as_slice());
        let mut i: usize = 0;
        while i < edits.len()
            invariant
                i <= edits@.len(),
                c == self.content@,
                idx.describes(c),
                forall|j: int| 0 <= j < i ==> #[trigger] edit_fault(c, edits@[j]) is None,
            decreases edits@.len() - i,
        {
            match validate_edit(i, &edits[i], &idx, self.content.as_slice()) {
                Ok(()) => {},
                Err(e) => {
                    proof {
                        assert(first_fault_at(c, edits@, i as int));
                        assert forall|i2: int| #[trigger] first_fault_at(c, edits@, i2) implies i2 == i as int by {
                            if i2 < i as int {
                                assert(edit_fault(c, edits@[i2]) is None);
                            } else if i2 > i as int {
                                assert(edit_fault(c, edits@[i as int]) is None);
                            }
                        }
                    }
                    return Err(e);
                },
            }
            i = i + 1;
        }
        assert(all_valid(c, edits@));
        let order = sort_by_start(edits);
        match find_overlap(edits, &order) {
            Some(k) => {
                let a = order[k];
                let b = order[k + 1];
                proof {
                    assert forall|k2: int| #[trigger] first_overlap_at(edits@, order@, k2) implies k2 == k as int by {
                        if k2 < k as int {
                            assert(!crate::buffers::batch::adjacent_overlap(edits@, order@, k2));
                        } else if k2 > k as int {
                            assert(!crate::buffers::batch::adjacent_overlap(edits@, order@, k as int));
                        }
                    }
                }
                if a <= b {
                    return Err(ApplyError::IntraBatchOverlap { first_index: a, second_index: b });
                } else {
                    return Err(ApplyError::IntraBatchOverlap { first_index: b, second_index: a });
                }
            },
            None => {},
        }
        let out = apply_in_order(self.content.as_slice(), &idx, edits, &order);
        self.content = out;
        self.memory_digest = sha256_digest(self.content.as_slice());
        Ok(())
    }
}

/// Lowercase hexadecimal of a byte string, two digits per byte.
pub open spec fn hex_bytes(b: Seq<u8>) -> Seq<char>
    decreases b.len(),
{
    if b.len() == 0 {
        Seq::empty()
    } else {
        hex_bytes(b.drop_last()) + hex_fixed(b.last() as nat, 2)
    }
}

/// Lowercase hexadecimal rendering of a digest.
pub fn hex_digest(digest: &[u8; 32]) -> (s: String)
    ensures
        s@ == hex_bytes(digest@),
{
    let mut s = String::new();
    let mut i: usize = 0;
    while i < 32
        invariant
            i <= 32,
            digest@.len() == 32,
            s@ == hex_bytes(digest@.subrange(0, i as int)),
        decreases 32 - i,
    {
        proof {
            assert(digest@.subrange(0, i + 1).drop_last() =~= digest@.subrange(0, i as int));
            assert(digest@.subrange(0, i + 1).last() == digest@[i as int]);
        }
        push_hex_fixed(&mut s, digest[i] as u128, 2);
        i = i + 1;
    }
    assert(digest@.subrange(0, 32) =~= digest@);
    s
}

/// `true` or `false`.
pub open spec fn bool_text(b: bool) -> Seq<char> {
    if b {
        "true"@
    } else {
        "false"@
    }
}

/// The rendering of a buffer for diagnostics: every field but the
/// content, whose place the byte size and the digest take.
pub open spec fn spec_buffer_debug(s: BufferState) -> Seq<char> {
    "BufferState { path: "@ + str_debug(s.spec_path()) + ", entity: EntityRef("@ + decimal(s.spec_entity().0 as nat)
        + "), inode: "@ + decimal(s.spec_inode() as nat) + ", byte_size: "@ + decimal(s.spec_content().len())
        + ", memory_digest: \""@ + hex_bytes(s.spec_digest()) + "\", last_dirty: "@ + bool_text(s.spec_last_dirty())
        + ", last_observable: "@ + bool_text(s.spec_last_observable()) + ", .. }"@
}

impl BufferState {
    /// The buffer as shown in diagnostics; the content never appears.
    pub fn to_debug_string(&self) -> (s: String)
        ensures
            s@ == spec_buffer_debug(*self),
    {
        let mut s = String::from_str("BufferState { path: ");
        s.append(debug_quoted(self.path.as_str()).as_str());
        s.append(", entity: EntityRef(");
        push_decimal(&mut s, self.entity.0);
        s.append("), inode: ");
        push_decimal(&mut s, self.inode);
        s.append(", byte_size: ");
        push_decimal(&mut s, self.content.len() as u64);
        s.append(", memory_digest: \"");
        s.append(hex_digest(&self.memory_digest).as_str());
        s.append("\", last_dirty: ");
        s.append(if self.last_dirty { "true" } else { "false" });
        s.append(", last_observable: ");
        s.append(if self.last_observable { "true" } else { "false" });
        s.append(", .. }");
        s
    }
}

/// What `std`'s `DefaultHasher` (fixed-key SipHash) yields for the byte
/// array of a UUID (`Uuid::as_bytes`), hashed as a `[u8; 16]` hashes
/// itself: its length, then its 16 big-endian bytes.
pub uninterp spec fn uuid_bytes_default_hash(uuid: u128) -> u64;

/// Hashes `uuid::Uuid::from_u128(uuid).as_bytes()` with a fresh
/// `std::collections::hash_map::DefaultHasher` and returns `finish()`.
/// Trusted: the result is named [`uuid_bytes_default_hash`] of the UUID
/// bits; `DefaultHasher::new` is documented to build identical hashers.
#[verifier::external_body]
fn default_hash_of_uuid_bytes(uuid: u128) -> (h: u64)
    ensures
        h == uuid_bytes_default_hash(uuid),
{
    let mut hasher = std::collections::hash_map::DefaultHasher::new();
    std::hash::Hash::hash(uuid::Uuid::from_u128(uuid).as_bytes(), &mut hasher);
    std::hash::Hasher::finish(&hasher)
}

/// The entity of a buffer-service instance: the hash of its instance
/// UUID's bytes with bit 62 set and bit 63 cleared.
pub open spec fn spec_watcher_instance_bits(h: u64) -> u64 {
    (h | INSTANCE_NAMESPACE_BIT) & !REPO_NAMESPACE_BIT
}

/// Derive the stable entity of a service instance from its UUID.
pub fn watcher_instance_entity_ref(instance: u128) -> (r: EntityRef)
    ensures
        r.0 == spec_watcher_instance_bits(uuid_bytes_default_hash(instance)),
        r.0 & INSTANCE_NAMESPACE_BIT != 0,
        r.0 & REPO_NAMESPACE_BIT == 0,
{
    let h = default_hash_of_uuid_bytes(instance);
    let v = (h | INSTANCE_NAMESPACE_BIT) & !REPO_NAMESPACE_BIT;
    assert(v & 0x4000_0000_0000_0000 != 0 && v & 0x8000_0000_0000_0000 == 0) by (bit_vector)
        requires
            v == (h | 0x4000_0000_0000_0000u64) & !0x8000_0000_0000_0000u64,
    ;
    EntityRef::new(v)
}

/// One step of the atomic-write sequence.
#[derive(Clone, Copy, Debug, PartialEq, Eq, Structural)]
pub enum WriteStep {
    OpenTempfile,
    WriteContents,
    FsyncTempfile,
    RenameToTarget,
    FsyncParentDir,
}

/// Outcome of saving a buffer to disk.
#[derive(Debug)]
pub enum SaveOutcome {
    /// The target now holds the buffer's content.
    Saved { path: String },
    /// The path is a regular file whose inode differs from the one
    /// captured at open time.
    InodeMismatch { expected: u64, actual: u64 },
    /// The path is missing, not a regular file, or could not be stat'ed.
    PathMissing,
    /// Opening, writing or syncing the tempfile failed.
    TempfileIo { error: std::io::Error },
    /// Renaming onto the target or syncing its directory failed.
    RenameIo { error: std::io::Error },
}

/// What the stat of the save target showed: `None` when it failed,
/// else whether it is a regular file and its inode.
pub struct TargetStat {
    pub is_file: bool,
    pub inode: u64,
}

impl BufferState {
    /// Decide, from the stat of the target, whether a save may proceed:
    /// `None` when the target is the regular file opened earlier (same
    /// inode); otherwise the refusal.
    pub fn save_precheck(&self, stat: Option<TargetStat>) -> (r: Option<SaveOutcome>)
        ensures
            match stat {
                None => r matches Some(SaveOutcome::PathMissing),
                Some(t) => if !t.is_file {
                    r matches Some(SaveOutcome::PathMissing)
                } else if t.inode != self.spec_inode() {
                    r matches Some(SaveOutcome::InodeMismatch { expected, actual }) && expected == self.spec_inode()
                        && actual == t.inode
                } else {
                    r is None
                },
            },
    {
        match stat {
            None => Some(SaveOutcome::PathMissing),
            Some(t) => {
                if !t.is_file {
                    Some(SaveOutcome::PathMissing)
                } else if t.inode != self.inode {
                    Some(SaveOutcome::InodeMismatch { expected: self.inode, actual: t.inode })
                } else {
                    None
                }
            },
        }
    }
}

/// Map the result of the atomic write to a save outcome: failures up
/// to syncing the tempfile are tempfile I/O; renaming and syncing the
/// directory are rename I/O.
pub fn save_outcome_from_write(path: &str, result: Result<(), (WriteStep, std::io::Error)>) -> (r: SaveOutcome)
    ensures
        match result {
            Ok(()) => r matches SaveOutcome::Saved { path: p } && p@ == path@,
            Err((step, e)) => if step is OpenTempfile || step is WriteContents || step is FsyncTempfile {
                r matches SaveOutcome::TempfileIo { error } && error == e
            } else {
                r matches SaveOutcome::RenameIo { error } && error == e
            },
        },
{
    match result {
        Ok(()) => SaveOutcome::Saved { path: path.to_owned() },
        Err((WriteStep::OpenTempfile, error)) | Err((WriteStep::WriteContents, error)) | Err(
            (WriteStep::FsyncTempfile, error),
        ) => SaveOutcome::TempfileIo { error },
        Err((WriteStep::RenameToTarget, error)) | Err((WriteStep::FsyncParentDir, error)) => SaveOutcome::RenameIo {
            error,
        },
    }
}

/// Pure output of one observation tick.
#[derive(Clone, Copy, Debug, PartialEq, Eq, Structural)]
pub struct BufferObservation {
    pub byte_size: u64,
    pub dirty: bool,
    pub observable: bool,
}

/// The five bootstrap facts of an opened buffer: its path, byte size,
/// not dirty, observable, version 0.
pub fn buffer_bootstrap_facts(state: &BufferState) -> (r: [(&'static str, FactValue); 5])
    ensures
        r@[0].0@ == "buffer/path"@,
        r@[0].1 matches FactValue::String(p) && p@ == state.spec_path(),
        r@[1].0@ == "buffer/byte-size"@ && r@[1].1 == FactValue::U64(state.spec_content().len() as u64),
        r@[2].0@ == "buffer/dirty"@ && r@[2].1 == FactValue::Bool(false),
        r@[3].0@ == "buffer/observable"@ && r@[3].1 == FactValue::Bool(true),
        r@[4].0@ == "buffer/version"@ && r@[4].1 == FactValue::U64(0),
{
    [
        ("buffer/path", FactValue::String(state.path().to_owned())),
        ("buffer/byte-size", FactValue::U64(state.byte_size())),
        ("buffer/dirty", FactValue::Bool(false)),
        ("buffer/observable", FactValue::Bool(true)),
        ("buffer/version", FactValue::U64(0)),
    ]
}

/// Which startup failure a buffer open hit.
#[derive(Clone, Copy, Debug, PartialEq, Eq, Structural)]
pub enum StartupKind {
    /// Missing, permission denied, I/O error.
    NotOpenable,
    /// A directory, socket or other non-regular file.
    NotRegularFile,
    /// The file did not fit in memory.
    TooLarge,
}

/// Failures of opening and observing a buffer.
#[derive(Debug)]
pub enum ObserverError {
    /// Not readable mid-session.
    TransientRead { path: String, source: std::io::Error },
    /// Deleted or unmounted mid-session.
    Missing { path: String },
    /// No longer a regular file.
    NotRegularFile { path: String },
    /// The path was not usable at open time.
    StartupFailure { path: String, reason: String, kind: StartupKind },
}

/// `io::Error`'s `Display` text. It comes from the operating system;
/// nothing is stated of it.
#[verifier::external_body]
fn io_error_text(e: &std::io::Error) -> String {
    e.to_string()
}

/// Where opening a buffer failed.
pub enum OpenFailure {
    /// Its metadata could not be read (missing, permission denied, I/O).
    Stat,
    /// It is a directory, symlink or special file.
    NotRegularFile,
    /// Its content could not be read; `out_of_memory` when the read ran
    /// out of memory.
    Read { out_of_memory: bool },
}

/// The reason given for a path that is not a regular file.
pub open spec fn not_regular_file_reason() -> Seq<char> {
    "path is not a regular file (directory, symlink, or special file)"@
}

/// The startup failure of opening `path`: a metadata failure or an
/// unreadable file is not openable, a non-regular file is reported as
/// such, a read that ran out of memory is too large. `reason` is the
/// I/O error's text; a non-regular file has a fixed reason instead.
pub fn open_failure(failure: OpenFailure, path: &str, reason: String) -> (r: ObserverError)
    ensures
        r matches ObserverError::StartupFailure { path: p, reason: why, kind } && p@ == path@ && kind == match failure {
            OpenFailure::Stat => StartupKind::NotOpenable,
            OpenFailure::NotRegularFile => StartupKind::NotRegularFile,
            OpenFailure::Read { out_of_memory } => if out_of_memory {
                StartupKind::TooLarge
            } else {
                StartupKind::NotOpenable
            },
        } && why@ == (if failure is NotRegularFile {
            not_regular_file_reason()
        } else {
            reason@
        }),
{
    let (kind, why) = match failure {
        OpenFailure::Stat => (StartupKind::NotOpenable, reason),
        OpenFailure::NotRegularFile => (
            StartupKind::NotRegularFile,
            String::from_str("path is not a regular file (directory, symlink, or special file)"),
        ),
        OpenFailure::Read { out_of_memory } => if out_of_memory {
            (StartupKind::TooLarge, reason)
        } else {
            (StartupKind::NotOpenable, reason)
        },
    };
    ObserverError::StartupFailure { path: path.to_owned(), reason: why, kind }
}

impl ObserverError {
    /// Human-readable message. A transient read ends with the text of
    /// the I/O error.
    pub fn to_display_string(&self) -> (s: String)
        ensures
            self matches ObserverError::TransientRead { path, .. } ==> ("transient read error for "@ + path@
                + ": "@).is_prefix_of(s@),
            self matches ObserverError::Missing { path } ==> s@ == "buffer file missing: "@ + path@,
            self matches ObserverError::NotRegularFile { path } ==> s@ == "buffer path is no longer a regular file: "@
                + path@,
            self matches ObserverError::StartupFailure { path, reason, .. } ==> s@ == "buffer not openable at "@
                + path@ + ": "@ + reason@,
    {
        match self {
            ObserverError::TransientRead { path, source } => {
                let mut s = String::from_str("transient read error for ");
                s.append(path.as_str());
                s.append(": ");
                let ghost head = s@;
                s.append(io_error_text(source).as_str());
                assert(head.is_prefix_of(s@)) by {
                    assert(s@.subrange(0, head.len() as int) =~= head);
                }
                s
            },
            ObserverError::Missing { path } => {
                let mut s = String::from_str("buffer file missing: ");
                s.append(path.as_str());
                s
            },
            ObserverError::NotRegularFile { path } => {
                let mut s = String::from_str("buffer path is no longer a regular file: ");
                s.append(path.as_str());
                s
            },
            ObserverError::StartupFailure { path, reason, .. } => {
                let mut s = String::from_str("buffer not openable at ");
                s.append(path.as_str());
                s.append(": ");
                s.append(reason.as_str());
                s
            },
        }
    }
}

} // verus!
