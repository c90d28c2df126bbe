//! The buffer service's decisions: which buffers it owns and at which
//! version, what an edit request does, which facts a poll tick
//! publishes, when the service is degraded, and how bus errors end it.
//! Sockets, timers and signals are the caller's part.

use vstd::prelude::*;
use crate::buffers::edits::{ApplyError, edit_fault, error_for};
use crate::buffers::model::{
    BufferObservation, BufferState, ObserverError, batch_accepted, buffer_bootstrap_facts,
};
use crate::buffers::batch::{all_valid, first_fault_at, first_overlap_at, overlap_error, sorted_order, spec_apply};
use crate::bus::client::ClientError;
use crate::bus::codec::{CodecError, IoErrorKind, io_error_kind, io_error_other, io_error_unexpected_eof};
use crate::keyed::{has_key_by, keyed_map, lemma_keyed_absent, lemma_keyed_at, lemma_keyed_push, lemma_keyed_update, unique_by};
use crate::provenance::{ActorIdentity, Provenance, identity_valid};
use crate::types::buffer_entity::{buffer_entity_ref, path_default_hash, spec_buffer_entity_bits};
use crate::types::edit::TextEdit;
use crate::types::entity_ref::EntityRef;
use crate::types::event::{Event, EventPayload};
use crate::types::fact::{Fact, FactKey, FactValue};
use crate::types::ids::EventId;
use crate::types::message::{BusMessage, LifecycleSignal, spec_lifecycle_name};

verus! {

/// Service id used in the handshake and the service identity.
pub const SERVICE_ID: &'static str = "weaver-buffers";

/// One owned buffer and its `buffer/version`.
pub struct RegisteredBuffer {
    pub state: BufferState,
    pub version: u64,
}

pub open spec fn registered_kf() -> spec_fn(RegisteredBuffer) -> u64 {
    |r: RegisteredBuffer| r.state.spec_entity().0
}

/// The buffers this instance owns, keyed by entity, with their
/// versions.
pub struct BufferRegistry {
    entries: Vec<RegisteredBuffer>,
}

impl BufferRegistry {
    /// Owned buffers by entity.
    pub closed spec fn view_map(&self) -> Map<u64, RegisteredBuffer> {
        keyed_map(self.entries@, registered_kf())
    }

    /// The owned buffers, in the order they were opened.
    pub closed spec fn spec_entries(&self) -> Seq<RegisteredBuffer> {
        self.entries@
    }

    #[verifier::type_invariant]
    spec fn unique(&self) -> bool {
        unique_by(self.entries@, registered_kf())
    }

    pub fn new() -> (r: Self)
        ensures
            r.view_map() == Map::<u64, RegisteredBuffer>::empty(),
            r.spec_entries().len() == 0,
    {
        let r = BufferRegistry { entries: Vec::new() };
        assert(keyed_map(r.entries@, registered_kf()) =~= Map::<u64, RegisteredBuffer>::empty());
        r
    }

    fn find(&self, entity: EntityRef) -> (r: Option<usize>)
        ensures
            match r {
                Some(i) => i < self.entries@.len() && registered_kf()(self.entries@[i as int]) == entity.0,
                None => !has_key_by(self.entries@, registered_kf(), entity.0),
            },
    {
        let mut i: usize = 0;
        while i < self.entries.len()
            invariant
                i <= self.entries@.len(),
                forall|j: int| 0 <= j < i ==> registered_kf()(#[trigger] self.entries@[j]) != entity.0,
            decreases self.entries@.len() - i,
        {
            if self.entries[i].state.entity().0 == entity.0 {
                return Some(i);
            }
            i = i + 1;
        }
        None
    }

    /// Whether this instance owns `entity`.
    pub fn is_owned(&self, entity: EntityRef) -> (r: bool)
        ensures
            r == self.view_map().contains_key(entity.0),
    {
        proof {
            use_type_invariant(self);
        }
        match self.find(entity) {
            Some(i) => {
                proof {
                    lemma_keyed_at(self.entries@, registered_kf(), i as int);
                }
                true
            },
            None => {
                proof {
                    lemma_keyed_absent(self.entries@, registered_kf(), entity.0);
                }
                false
            },
        }
    }

    /// The version of an owned buffer.
    pub fn version(&self, entity: EntityRef) -> (r: Option<u64>)
        ensures
            self.view_map().contains_key(entity.0) ==> r == Some(self.view_map()[entity.0].version),
            !self.view_map().contains_key(entity.0) ==> r is None,
    {
        proof {
            use_type_invariant(self);
        }
        match self.find(entity) {
            Some(i) => {
                proof {
                    lemma_keyed_at(self.entries@, registered_kf(), i as int);
                }
                Some(self.entries[i].version)
            },
            None => {
                proof {
                    lemma_keyed_absent(self.entries@, registered_kf(), entity.0);
                }
                None
            },
        }
    }

    /// The state of an owned buffer.
    pub fn get(&self, entity: EntityRef) -> (r: Option<&BufferState>)
        ensures
            self.view_map().contains_key(entity.0) ==> r == Some(&self.view_map()[entity.0].state),
            !self.view_map().contains_key(entity.0) ==> r is None,
    {
        proof {
            use_type_invariant(self);
        }
        match self.find(entity) {
            Some(i) => {
                proof {
                    lemma_keyed_at(self.entries@, registered_kf(), i as int);
                }
                Some(&self.entries[i].state)
            },
            None => {
                proof {
                    lemma_keyed_absent(self.entries@, registered_kf(), entity.0);
                }
                None
            },
        }
    }

    /// Number of owned buffers.
    pub fn len(&self) -> (n: usize)
        ensures
            n == self.spec_entries().len(),
    {
        self.entries.len()
    }

    /// The `i`-th owned buffer.
    pub fn state_at(&self, i: usize) -> (r: &BufferState)
        requires
            i < self.spec_entries().len(),
        ensures
            *r == self.spec_entries()[i as int].state,
    {
        &self.entries[i].state
    }

    /// Add a freshly opened buffer at version 0. The entity must not be
    /// owned yet.
    pub fn insert(&mut self, state: BufferState)
        requires
            !old(self).view_map().contains_key(state.spec_entity().0),
        ensures
            final(self).view_map() == old(self).view_map().insert(
                state.spec_entity().0,
                RegisteredBuffer { state, version: 0 },
            ),
            final(self).spec_entries() == old(self).spec_entries().push(RegisteredBuffer { state, version: 0 }),
    {
        proof {
            use_type_invariant(&*self);
        }
        let r = RegisteredBuffer { state, version: 0 };
        proof {
            lemma_keyed_push(self.entries@, registered_kf(), r);
        }
        let mut es: Vec<RegisteredBuffer> = Vec::new();
        std::mem::swap(&mut es, &mut self.entries);
        es.push(r);
        self.entries = es;
    }

    /// Take out the `i`-th buffer, apply `f`-like changes, and put it
    /// back at the same place with the same entity.
    fn replace_at(&mut self, i: usize, r: RegisteredBuffer)
        requires
            i < old(self).spec_entries().len(),
            r.state.spec_entity() == old(self).spec_entries()[i as int].state.spec_entity(),
        ensures
            final(self).spec_entries() == old(self).spec_entries().update(i as int, r),
            final(self).view_map() == old(self).view_map().insert(r.state.spec_entity().0, r),
    {
        proof {
            use_type_invariant(&*self);
            lemma_keyed_update(self.entries@, registered_kf(), i as int, r);
        }
        let mut es: Vec<RegisteredBuffer> = Vec::new();
        std::mem::swap(&mut es, &mut self.entries);
        let _ = es.remove(i);
        es.insert(i, r);
        assert(es@ =~= old(self).entries@.update(i as int, r));
        self.entries = es;
    }

    /// Record the last published `buffer/dirty` and `buffer/observable`
    /// of the `i`-th buffer.
    pub fn set_flags_at(&mut self, i: usize, dirty: bool, observable: bool)
        requires
            i < old(self).spec_entries().len(),
        ensures
            final(self).spec_entries().len() == old(self).spec_entries().len(),
            forall|j: int| 0 <= j < old(self).spec_entries().len() && j != i ==> #[trigger] final(self).spec_entries()[j]
                == old(self).spec_entries()[j],
            final(self).spec_entries()[i as int].version == old(self).spec_entries()[i as int].version,
            final(self).spec_entries()[i as int].state.spec_last_dirty() == dirty,
            final(self).spec_entries()[i as int].state.spec_last_observable() == observable,
            final(self).spec_entries()[i as int].state.spec_content() == old(self).spec_entries()[i as int].state.spec_content(),
            final(self).spec_entries()[i as int].state.spec_entity() == old(self).spec_entries()[i as int].state.spec_entity(),
    {
        proof {
            use_type_invariant(&*self);
        }
        let mut es: Vec<RegisteredBuffer> = Vec::new();
        std::mem::swap(&mut es, &mut self.entries);
        let mut r = es.remove(i);
        r.state.set_last_dirty(dirty);
        r.state.set_last_observable(observable);
        proof {
            lemma_keyed_update(old(self).entries@, registered_kf(), i as int, r);
        }
        es.insert(i, r);
        assert(es@ =~= old(self).entries@.update(i as int, r));
        self.entries = es;
    }
}

/// What opening a path yields.
pub enum BufferOpenOutcome {
    /// First sighting: the opened state, to bootstrap and register.
    Fresh(BufferState),
    /// The entity is already owned: nothing to do.
    AlreadyOwned,
}

/// Decide an open request for `path`: an already-owned entity is a
/// no-op and `open` is not called; otherwise the result of `open`
/// (which reads the file) is passed through.
pub fn dispatch_buffer_open<F: FnOnce(&str) -> Result<BufferState, ObserverError>>(
    registry: &BufferRegistry,
    path: &str,
    open: F,
) -> (r: Result<BufferOpenOutcome, ObserverError>)
    requires
        call_requires(open, (path,)),
    ensures
        registry.view_map().contains_key(spec_buffer_entity_bits(path_default_hash(path@))) ==> (r matches Ok(
            BufferOpenOutcome::AlreadyOwned,
        )),
        !registry.view_map().contains_key(spec_buffer_entity_bits(path_default_hash(path@))) ==> ((r matches Ok(
            BufferOpenOutcome::Fresh(s),
        ) && call_ensures(open, (path,), Ok::<BufferState, ObserverError>(s))) || (r matches Err(e) && call_ensures(
            open,
            (path,),
            Err::<BufferState, ObserverError>(e),
        ))),
{
    let entity = buffer_entity_ref(path);
    if registry.is_owned(entity) {
        return Ok(BufferOpenOutcome::AlreadyOwned);
    }
    match open(path) {
        Ok(state) => Ok(BufferOpenOutcome::Fresh(state)),
        Err(e) => Err(e),
    }
}

/// What an edit request did.
#[derive(Debug)]
pub enum BufferEditOutcome {
    /// The batch was applied; the buffer is now at `new_version`.
    Applied { entity: EntityRef, new_version: u64, new_byte_size: u64, new_memory_digest: [u8; 32] },
    /// This instance does not own the entity.
    NotOwned,
    /// The request was made against an older version.
    StaleVersion { current: u64, emitted: u64 },
    /// The request names a version this instance never issued.
    FutureVersion { current: u64, emitted: u64 },
    /// The batch failed validation; nothing changed.
    ValidationFailure(ApplyError),
}

/// Handle an edit request: ownership first, then the version, then the
/// atomic batch; the version is bumped only when the batch applies.
pub fn dispatch_buffer_edit(
    registry: &mut BufferRegistry,
    entity: EntityRef,
    version: u64,
    edits: &[TextEdit],
) -> (r: BufferEditOutcome)
    requires
        old(registry).view_map().contains_key(entity.0) && version == old(registry).view_map()[entity.0].version
            ==> version < u64::MAX,
    ensures
        ({
            let m = old(registry).view_map();
            if !m.contains_key(entity.0) {
                r is NotOwned && final(registry).view_map() == m
            } else if version < m[entity.0].version {
                r == (BufferEditOutcome::StaleVersion { current: m[entity.0].version, emitted: version })
                    && final(registry).view_map() == m
            } else if version > m[entity.0].version {
                r == (BufferEditOutcome::FutureVersion { current: m[entity.0].version, emitted: version })
                    && final(registry).view_map() == m
            } else if !batch_accepted(m[entity.0].state.spec_content(), edits@) {
                let c = m[entity.0].state.spec_content();
                &&& r is ValidationFailure
                &&& final(registry).view_map() == m
                &&& forall|i: int| #[trigger] first_fault_at(c, edits@, i) ==> (r matches BufferEditOutcome::ValidationFailure(
                    err,
                ) && error_for(err, i as usize, edit_fault(c, edits@[i]).unwrap()))
                &&& forall|k: int| all_valid(c, edits@) && #[trigger] first_overlap_at(edits@, sorted_order(edits@), k)
                    ==> r == BufferEditOutcome::ValidationFailure(overlap_error(sorted_order(edits@), k))
            } else {
                let s = final(registry).view_map()[entity.0].state;
                &&& r matches BufferEditOutcome::Applied { entity: e, new_version, new_byte_size, new_memory_digest }
                    && e == entity && new_version == version + 1 && new_byte_size == s.spec_content().len()
                    && new_memory_digest@ == s.spec_digest()
                &&& final(registry).view_map().dom() == m.dom()
                &&& final(registry).view_map()[entity.0].version == version + 1
                &&& s.spec_content() == spec_apply(m[entity.0].state.spec_content(), edits@)
                &&& edits@.len() > 0 ==> s.digest_consistent()
                &&& m[entity.0].state.digest_consistent() ==> s.digest_consistent()
            }
        }),
{
    proof {
        use_type_invariant(&*registry);
    }
    let i = match registry.find(entity) {
        Some(i) => i,
        None => {
            proof {
                lemma_keyed_absent(registry.entries@, registered_kf(), entity.0);
            }
            return BufferEditOutcome::NotOwned;
        },
    };
    proof {
        lemma_keyed_at(registry.entries@, registered_kf(), i as int);
    }
    let current = registry.entries[i].version;
    if version < current {
        return BufferEditOutcome::StaleVersion { current, emitted: version };
    }
    if version > current {
        return BufferEditOutcome::FutureVersion { current, emitted: version };
    }
    let mut es: Vec<RegisteredBuffer> = Vec::new();
    std::mem::swap(&mut es, &mut registry.entries);
    let mut entry = es.remove(i);
    let applied = entry.state.apply_edits(edits);
    match applied {
        Err(err) => {
            proof {
                lemma_keyed_update(old(registry).entries@, registered_kf(), i as int, entry);
            }
            es.insert(i, entry);
            assert(es@ =~= old(registry).entries@);
            registry.entries = es;
            BufferEditOutcome::ValidationFailure(err)
        },
        Ok(()) => {
            let new_byte_size = entry.state.byte_size();
            let new_memory_digest = *entry.state.memory_digest();
            let new_version = current + 1;
            entry.version = new_version;
            proof {
                lemma_keyed_update(old(registry).entries@, registered_kf(), i as int, entry);
            }
            es.insert(i, entry);
            assert(es@ =~= old(registry).entries@.update(i as int, entry));
            registry.entries = es;
            proof {
                assert(registry.view_map() == old(registry).view_map().insert(entity.0, entry));
                assert(registry.view_map().dom() =~= old(registry).view_map().dom());
            }
            BufferEditOutcome::Applied { entity, new_version, new_byte_size, new_memory_digest }
        },
    }
}

/// A classified server-sent error frame.
#[derive(Debug)]
pub enum ServerSentError {
    AuthorityConflict { detail: String },
    NotOwner { detail: String },
    Other { category: String, detail: String },
}

/// Classify a server-sent error frame by its category.
pub fn classify_server_error(category: &str, detail: &str) -> (r: ServerSentError)
    ensures
        category@ == "authority-conflict"@ ==> (r matches ServerSentError::AuthorityConflict { detail: d } && d@ == detail@),
        category@ == "not-owner"@ ==> (r matches ServerSentError::NotOwner { detail: d } && d@ == detail@),
        category@ != "authority-conflict"@ && category@ != "not-owner"@ ==> (r matches ServerSentError::Other {
            category: c,
            detail: d,
        } && c@ == category@ && d@ == detail@),
{
    proof {
        reveal_strlit("authority-conflict");
        reveal_strlit("not-owner");
        assert("not-owner"@.len() != "authority-conflict"@.len());
    }
    if crate::text::str_eq(category, "authority-conflict") {
        ServerSentError::AuthorityConflict { detail: detail.to_owned() }
    } else if crate::text::str_eq(category, "not-owner") {
        ServerSentError::NotOwner { detail: detail.to_owned() }
    } else {
        ServerSentError::Other { category: category.to_owned(), detail: detail.to_owned() }
    }
}

/// Why the buffer service stopped.
#[allow(inconsistent_fields)]
#[derive(Debug)]
pub enum PublisherError {
    /// The bus went away or could not be reached (exit 2).
    BusUnavailable { source: ClientError },
    /// Another instance owns a claimed entity (exit 3).
    AuthorityConflict { detail: String },
    /// A path could not be opened at startup (exit 1).
    Observer { source: ObserverError },
    /// Any other bus-client error (exit 10).
    Client { source: ClientError },
}

/// Turn a server-sent error into the error the service stops with. A
/// refused retraction counts as an authority conflict; any other
/// category becomes a client error carrying `server error <category>:
/// <detail>`.
pub fn translate_server_error(err: ServerSentError) -> (r: PublisherError)
    ensures
        err matches ServerSentError::AuthorityConflict { detail } ==> (r matches PublisherError::AuthorityConflict {
            detail: d,
        } && d == detail),
        err matches ServerSentError::NotOwner { detail } ==> (r matches PublisherError::AuthorityConflict { detail: d }
            && d@ == "not-owner: "@ + detail@),
        err is Other ==> r matches PublisherError::Client { source: ClientError::Codec(CodecError::Io(_)) },
{
    match err {
        ServerSentError::AuthorityConflict { detail } => PublisherError::AuthorityConflict { detail },
        ServerSentError::NotOwner { detail } => {
            let mut d = String::from_str("not-owner: ");
            d.append(detail.as_str());
            PublisherError::AuthorityConflict { detail: d }
        },
        ServerSentError::Other { category, detail } => {
            let mut msg = String::from_str("server error ");
            msg.append(category.as_str());
            msg.append(": ");
            msg.append(detail.as_str());
            PublisherError::Client { source: ClientError::Codec(CodecError::Io(io_error_other(msg))) }
        },
    }
}

/// The error of a bus connection that closed under the service.
pub fn bus_closed_error() -> (r: PublisherError)
    ensures
        r matches PublisherError::BusUnavailable { source: ClientError::Codec(CodecError::Io(_)) },
{
    PublisherError::BusUnavailable {
        source: ClientError::Codec(CodecError::Io(io_error_unexpected_eof(String::from_str("bus connection closed")))),
    }
}

/// I/O kinds that mean the peer is gone.
pub open spec fn transport_kind(k: IoErrorKind) -> bool {
    k is BrokenPipe || k is ConnectionReset || k is ConnectionAborted || k is UnexpectedEof || k is NotConnected
}

/// Classify a write failure given the kind of its I/O error (`None`
/// when it is not an I/O error): a dead peer makes the bus
/// unavailable; anything else is a client error.
pub fn classify_write_error_by_kind(kind: Option<IoErrorKind>, source: ClientError) -> (r: PublisherError)
    ensures
        (kind matches Some(k) && transport_kind(k)) ==> (r matches PublisherError::BusUnavailable { source: s } && s
            == source),
        !(kind matches Some(k) && transport_kind(k)) ==> (r matches PublisherError::Client { source: s } && s == source),
{
    match kind {
        Some(IoErrorKind::BrokenPipe) | Some(IoErrorKind::ConnectionReset) | Some(IoErrorKind::ConnectionAborted)
        | Some(IoErrorKind::UnexpectedEof) | Some(IoErrorKind::NotConnected) => PublisherError::BusUnavailable {
            source,
        },
        _ => PublisherError::Client { source },
    }
}

/// Classify a write-side client error: transport-level I/O failures
/// make the bus unavailable; encoding, frame-size and other errors are
/// client errors.
pub fn classify_write_error(source: ClientError) -> (r: PublisherError)
    ensures
        !(source matches ClientError::Codec(CodecError::Io(_))) ==> (r matches PublisherError::Client { source: s }
            && s == source),
        r matches PublisherError::Client { source: s } ==> s == source,
        r matches PublisherError::BusUnavailable { source: s } ==> s == source,
        r is Client || r is BusUnavailable,
{
    let kind = match &source {
        ClientError::Codec(CodecError::Io(e)) => Some(io_error_kind(e)),
        _ => None,
    };
    classify_write_error_by_kind(kind, source)
}

/// The facts one poll tick publishes for a buffer, given what the
/// observation found, and the flags to record: a recovered buffer
/// republishes `observable=true`; a dirty flip republishes
/// `buffer/dirty`; a buffer that becomes unobservable publishes
/// `observable=false` once.
pub open spec fn spec_poll_facts(last_dirty: bool, last_observable: bool, obs: Option<BufferObservation>) -> Seq<(Seq<char>, FactValue)> {
    match obs {
        Some(o) => {
            let a = if !last_observable {
                seq![("buffer/observable"@, FactValue::Bool(true))]
            } else {
                Seq::empty()
            };
            if o.dirty != last_dirty {
                a.push(("buffer/dirty"@, FactValue::Bool(o.dirty)))
            } else {
                a
            }
        },
        None => if last_observable {
            seq![("buffer/observable"@, FactValue::Bool(false))]
        } else {
            Seq::empty()
        },
    }
}

/// The `(dirty, observable)` flags a poll tick records: an observation
/// records its dirty value and observability; a failed one keeps the
/// dirty value and records the buffer as unobservable.
pub open spec fn spec_poll_flags(last_dirty: bool, obs: Option<BufferObservation>) -> (bool, bool) {
    match obs {
        Some(o) => (o.dirty, true),
        None => (last_dirty, false),
    }
}

/// Edge-triggered polling: once a tick has recorded its outcome, a
/// second tick that sees the same outcome publishes nothing.
pub proof fn lemma_poll_repeat_is_silent(last_dirty: bool, last_observable: bool, obs: Option<BufferObservation>)
    ensures
        spec_poll_facts(spec_poll_flags(last_dirty, obs).0, spec_poll_flags(last_dirty, obs).1, obs).len() == 0,
{
}

/// `m` publishes `(attribute, value)` about `entity` for `identity` at
/// `now_ns`, caused by `tick`.
pub open spec fn publishes(
    m: BusMessage,
    entity: EntityRef,
    fact: (Seq<char>, FactValue),
    identity: ActorIdentity,
    now_ns: u64,
    tick: EventId,
) -> bool {
    m matches BusMessage::FactAssert(f) && f.key.entity == entity && f.key.attribute@ == fact.0 && f.value == fact.1
        && f.provenance == (Provenance { source: identity, timestamp_ns: now_ns, causal_parent: Some(tick) })
}

/// Decide one poll tick for the `i`-th buffer from its observation and
/// record the new flags; returns the `FactAssert`s to publish, in order,
/// each caused by the poll tick `tick`.
pub fn poll_tick_per_buffer(
    registry: &mut BufferRegistry,
    i: usize,
    observed: &Result<BufferObservation, ObserverError>,
    identity: &ActorIdentity,
    tick: EventId,
    now_ns: u64,
) -> (ms: Vec<BusMessage>)
    requires
        i < old(registry).spec_entries().len(),
    ensures
        ({
            let before = old(registry).spec_entries()[i as int].state;
            let obs = match *observed {
                Ok(o) => Some(o),
                Err(_) => None,
            };
            let facts = spec_poll_facts(before.spec_last_dirty(), before.spec_last_observable(), obs);
            &&& ms@.len() == facts.len()
            &&& forall|k: int| 0 <= k < ms@.len() ==> publishes(
                #[trigger] ms@[k],
                before.spec_entity(),
                facts[k],
                *identity,
                now_ns,
                tick,
            )
            &&& final(registry).spec_entries()[i as int].state.spec_last_dirty() == spec_poll_flags(
                before.spec_last_dirty(),
                obs,
            ).0
            &&& final(registry).spec_entries()[i as int].state.spec_last_observable() == spec_poll_flags(
                before.spec_last_dirty(),
                obs,
            ).1
        }),
        final(registry).spec_entries().len() == old(registry).spec_entries().len(),
        forall|j: int| 0 <= j < old(registry).spec_entries().len() && j != i ==> #[trigger] final(registry).spec_entries()[j]
            == old(registry).spec_entries()[j],
        final(registry).spec_entries()[i as int].version == old(registry).spec_entries()[i as int].version,
        final(registry).spec_entries()[i as int].state.spec_content() == old(registry).spec_entries()[i as int].state.spec_content(),
        final(registry).spec_entries()[i as int].state.spec_entity() == old(registry).spec_entries()[i as int].state.spec_entity(),
{
    let last_dirty = registry.state_at(i).last_dirty();
    let last_observable = registry.state_at(i).last_observable();
    let entity = registry.state_at(i).entity();
    let mut ms: Vec<BusMessage> = Vec::new();
    let cause = Some(tick);
    match observed {
        Ok(obs) => {
            if !last_observable {
                ms.push(fact_message(FactKey::new(entity, "buffer/observable"), FactValue::Bool(true), identity, now_ns, cause));
            }
            if obs.dirty != last_dirty {
                ms.push(fact_message(FactKey::new(entity, "buffer/dirty"), FactValue::Bool(obs.dirty), identity, now_ns, cause));
            }
            registry.set_flags_at(i, obs.dirty, true);
        },
        Err(_) => {
            if last_observable {
                ms.push(fact_message(FactKey::new(entity, "buffer/observable"), FactValue::Bool(false), identity, now_ns, cause));
            }
            registry.set_flags_at(i, last_dirty, false);
        },
    }
    proof {
        reveal_strlit("buffer/observable");
        reveal_strlit("buffer/dirty");
    }
    ms
}

/// Every owned buffer is unobservable (and there is at least one).
pub open spec fn spec_all_unobservable(entries: Seq<RegisteredBuffer>) -> bool {
    entries.len() > 0 && forall|i: int| 0 <= i < entries.len() ==> !(#[trigger] entries[i]).state.spec_last_observable()
}

/// Whether every owned buffer is unobservable (and there is one).
pub fn all_unobservable(registry: &BufferRegistry) -> (r: bool)
    ensures
        r == spec_all_unobservable(registry.spec_entries()),
{
    let n = registry.len();
    if n == 0 {
        return false;
    }
    let mut i: usize = 0;
    while i < n
        invariant
            n == registry.spec_entries().len(),
            i <= n,
            forall|j: int| 0 <= j < i ==> !(#[trigger] registry.spec_entries()[j]).state.spec_last_observable(),
        decreases n - i,
    {
        if registry.state_at(i).last_observable() {
            return false;
        }
        i = i + 1;
    }
    true
}

/// The service-level status change of a tick: degraded when every
/// buffer just became unobservable, ready again when one recovered.
pub fn degraded_transition(all_unobservable: bool, was_degraded: bool) -> (r: Option<LifecycleSignal>)
    ensures
        r == if all_unobservable && !was_degraded {
            Some(LifecycleSignal::Degraded)
        } else if !all_unobservable && was_degraded {
            Some(LifecycleSignal::Ready)
        } else {
            None
        },
{
    if all_unobservable && !was_degraded {
        Some(LifecycleSignal::Degraded)
    } else if !all_unobservable && was_degraded {
        Some(LifecycleSignal::Ready)
    } else {
        None
    }
}

/// The `FactAssert` a service publishes for `(key, value)`.
pub fn fact_message(
    key: FactKey,
    value: FactValue,
    identity: &ActorIdentity,
    now_ns: u64,
    causal_parent: Option<EventId>,
) -> (m: BusMessage)
    ensures
        m == BusMessage::FactAssert(
            Fact { key, value, provenance: Provenance { source: *identity, timestamp_ns: now_ns, causal_parent } },
        ),
{
    BusMessage::FactAssert(
        Fact { key, value, provenance: Provenance { source: identity.clone(), timestamp_ns: now_ns, causal_parent } },
    )
}

/// The `watcher/status` fact of the service instance.
pub fn watcher_status_message(watcher_entity: EntityRef, identity: &ActorIdentity, signal: LifecycleSignal, now_ns: u64) -> (m:
    BusMessage)
    ensures
        m matches BusMessage::FactAssert(f) && f.key.entity == watcher_entity && f.key.attribute@ == "watcher/status"@
            && (f.value matches FactValue::String(s) && s@ == spec_lifecycle_name(signal))
            && f.provenance == (Provenance { source: *identity, timestamp_ns: now_ns, causal_parent: None }),
{
    fact_message(
        FactKey::new(watcher_entity, "watcher/status"),
        FactValue::String(signal.as_str().to_owned()),
        identity,
        now_ns,
        None,
    )
}

/// The `buffer/open` event anchoring a buffer's bootstrap facts.
pub fn buffer_open_event(identity: &ActorIdentity, state: &BufferState, bootstrap_tick: EventId, now_ns: u64) -> (e:
    Event)
    ensures
        e.id == bootstrap_tick,
        e.name@ == "buffer/open"@,
        e.target == Some(state.spec_entity()),
        e.payload matches EventPayload::BufferOpen { path } && path@ == state.spec_path(),
        e.provenance == (Provenance { source: *identity, timestamp_ns: now_ns, causal_parent: None }),
{
    Event {
        id: bootstrap_tick,
        name: String::from_str("buffer/open"),
        target: Some(state.entity()),
        payload: EventPayload::BufferOpen { path: state.path().to_owned() },
        provenance: Provenance { source: identity.clone(), timestamp_ns: now_ns, causal_parent: None },
    }
}

/// The bootstrap `FactAssert`s of a buffer, each caused by the
/// buffer's bootstrap tick.
pub fn bootstrap_messages(identity: &ActorIdentity, state: &BufferState, bootstrap_tick: EventId, now_ns: u64) -> (ms:
    Vec<BusMessage>)
    ensures
        ms@.len() == 5,
        forall|k: int| 0 <= k < 5 ==> ((#[trigger] ms@[k]) matches BusMessage::FactAssert(f) && f.key.entity
            == state.spec_entity() && f.provenance == (Provenance {
            source: *identity,
            timestamp_ns: now_ns,
            causal_parent: Some(bootstrap_tick),
        })),
        ms@[0] matches BusMessage::FactAssert(f) && f.key.attribute@ == "buffer/path"@ && (f.value matches FactValue::String(
            p,
        ) && p@ == state.spec_path()),
        ms@[1] matches BusMessage::FactAssert(f) && f.key.attribute@ == "buffer/byte-size"@ && f.value == FactValue::U64(
            state.spec_content().len() as u64,
        ),
        ms@[2] matches BusMessage::FactAssert(f) && f.key.attribute@ == "buffer/dirty"@ && f.value == FactValue::Bool(false),
        ms@[3] matches BusMessage::FactAssert(f) && f.key.attribute@ == "buffer/observable"@ && f.value == FactValue::Bool(
            true,
        ),
        ms@[4] matches BusMessage::FactAssert(f) && f.key.attribute@ == "buffer/version"@ && f.value == FactValue::U64(0),
{
    let facts = buffer_bootstrap_facts(state);
    let entity = state.entity();
    let mut ms: Vec<BusMessage> = Vec::new();
    let mut k: usize = 0;
    while k < 5
        invariant
            k <= 5,
            facts@.len() == 5,
            ms@.len() == k,
            entity == state.spec_entity(),
            forall|j: int| 0 <= j < k ==> ((#[trigger] ms@[j]) matches BusMessage::FactAssert(f) && f.key.entity
                == state.spec_entity() && f.provenance == (Provenance {
                source: *identity,
                timestamp_ns: now_ns,
                causal_parent: Some(bootstrap_tick),
            }) && f.key.attribute@ == facts@[j].0@ && f.value == facts@[j].1),
        decreases 5 - k,
    {
        let (attribute, value) = (facts[k].0, facts[k].1.clone());
        ms.push(fact_message(FactKey::new(entity, attribute), value, identity, now_ns, Some(bootstrap_tick)));
        k = k + 1;
    }
    ms
}

/// `ms` retracts each key of `published`, in order, for `identity` at
/// `now_ns` (none when the identity fails validation).
pub open spec fn retracts_all(ms: Seq<BusMessage>, published: Seq<FactKey>, identity: ActorIdentity, now_ns: u64) -> bool {
    let n = if identity_valid(identity) {
        published.len()
    } else {
        0
    };
    &&& ms.len() == n
    &&& forall|k: int| 0 <= k < n ==> (#[trigger] ms[k]) == (BusMessage::FactRetract {
        key: published[k],
        provenance: Provenance { source: identity, timestamp_ns: now_ns, causal_parent: None },
    })
}

/// The `FactRetract` of every key the service published, in order; a
/// retraction is sent only under an identity that passes validation.
pub fn retraction_messages(published: &Vec<FactKey>, identity: &ActorIdentity, now_ns: u64) -> (ms: Vec<BusMessage>)
    ensures
        retracts_all(ms@, published@, *identity, now_ns),
{
    let mut ms: Vec<BusMessage> = Vec::new();
    let mut i: usize = 0;
    while i < published.len()
        invariant
            i <= published@.len(),
            ms@.len() == if identity_valid(*identity) {
                i as int
            } else {
                0
            },
            forall|k: int| 0 <= k < ms@.len() ==> (#[trigger] ms@[k]) == (BusMessage::FactRetract {
                key: published@[k],
                provenance: Provenance { source: *identity, timestamp_ns: now_ns, causal_parent: None },
            }),
        decreases published@.len() - i,
    {
        match Provenance::new(identity.clone(), now_ns, None) {
            Ok(provenance) => {
                ms.push(BusMessage::FactRetract { key: published[i].clone(), provenance });
            },
            Err(_) => {},
        }
        i = i + 1;
    }
    ms
}

/// `m` sets the instance's `watcher/status` to `signal`.
pub open spec fn sets_status(m: BusMessage, watcher_entity: EntityRef, signal: LifecycleSignal, identity: ActorIdentity, now_ns: u64) -> bool {
    m matches BusMessage::FactAssert(f) && f.key.entity == watcher_entity && f.key.attribute@ == "watcher/status"@
        && (f.value matches FactValue::String(s) && s@ == spec_lifecycle_name(signal)) && f.provenance == (Provenance {
        source: identity,
        timestamp_ns: now_ns,
        causal_parent: None,
    })
}

/// The messages of a clean shutdown: the retraction of every key the
/// service published, then `watcher/status` set to `unavailable` and
/// then to `stopped`. Every write is best effort.
pub fn shutdown_messages(published: &Vec<FactKey>, watcher_entity: EntityRef, identity: &ActorIdentity, now_ns: u64) -> (ms:
    Vec<BusMessage>)
    ensures
        ms@.len() >= 2,
        retracts_all(ms@.subrange(0, ms@.len() - 2), published@, *identity, now_ns),
        sets_status(ms@[ms@.len() - 2], watcher_entity, LifecycleSignal::Unavailable, *identity, now_ns),
        sets_status(ms@[ms@.len() - 1], watcher_entity, LifecycleSignal::Stopped, *identity, now_ns),
{
    let mut ms = retraction_messages(published, identity, now_ns);
    let ghost r = ms@;
    ms.push(watcher_status_message(watcher_entity, identity, LifecycleSignal::Unavailable, now_ns));
    ms.push(watcher_status_message(watcher_entity, identity, LifecycleSignal::Stopped, now_ns));
    assert(ms@.subrange(0, ms@.len() - 2) =~= r);
    ms
}

/// A step of the service's startup, in the order the steps run.
#[derive(Clone, Copy, Debug, PartialEq, Eq, Structural)]
pub enum StartupStep {
    /// Publish `watcher/status = started`.
    AnnounceStarted,
    /// Open every buffer and publish its bootstrap facts.
    Bootstrap,
    /// Wait out the grace period for a refusal from the core.
    AwaitRefusal,
    /// Send each buffer's `buffer/open` event.
    AnnounceOpens,
    /// Publish `watcher/status = ready`.
    AnnounceReady,
    /// Startup is done: poll.
    Poll,
    /// Retract what was published and end with the error.
    RetractAndFail,
    /// End with the error.
    Fail,
}

/// The step after `step`, given whether it succeeded. Opening and
/// bootstrapping the buffers, or a refusal from the core during the
/// grace period, ends startup after retracting what was published;
/// a failed status or event write ends it at once.
pub open spec fn spec_next_startup_step(step: StartupStep, succeeded: bool) -> StartupStep {
    match step {
        StartupStep::AnnounceStarted => if succeeded { StartupStep::Bootstrap } else { StartupStep::Fail },
        StartupStep::Bootstrap => if succeeded { StartupStep::AwaitRefusal } else { StartupStep::RetractAndFail },
        StartupStep::AwaitRefusal => if succeeded { StartupStep::AnnounceOpens } else { StartupStep::RetractAndFail },
        StartupStep::AnnounceOpens => if succeeded { StartupStep::AnnounceReady } else { StartupStep::Fail },
        StartupStep::AnnounceReady => if succeeded { StartupStep::Poll } else { StartupStep::Fail },
        other => other,
    }
}

/// The step after `step`, given whether it succeeded.
pub fn next_startup_step(step: StartupStep, succeeded: bool) -> (r: StartupStep)
    ensures
        r == spec_next_startup_step(step, succeeded),
{
    match step {
        StartupStep::AnnounceStarted => if succeeded { StartupStep::Bootstrap } else { StartupStep::Fail },
        StartupStep::Bootstrap => if succeeded { StartupStep::AwaitRefusal } else { StartupStep::RetractAndFail },
        StartupStep::AwaitRefusal => if succeeded { StartupStep::AnnounceOpens } else { StartupStep::RetractAndFail },
        StartupStep::AnnounceOpens => if succeeded { StartupStep::AnnounceReady } else { StartupStep::Fail },
        StartupStep::AnnounceReady => if succeeded { StartupStep::Poll } else { StartupStep::Fail },
        other => other,
    }
}

/// The first step of startup.
pub fn first_startup_step() -> (r: StartupStep)
    ensures
        r == StartupStep::AnnounceStarted,
{
    StartupStep::AnnounceStarted
}

/// The order of startup: when every step succeeds, `started` is
/// announced, the buffers are bootstrapped, the grace period passes,
/// the opens are announced, `ready` is announced, and polling begins.
pub proof fn lemma_startup_order()
    ensures
        spec_next_startup_step(StartupStep::AnnounceStarted, true) == StartupStep::Bootstrap,
        spec_next_startup_step(StartupStep::Bootstrap, true) == StartupStep::AwaitRefusal,
        spec_next_startup_step(StartupStep::AwaitRefusal, true) == StartupStep::AnnounceOpens,
        spec_next_startup_step(StartupStep::AnnounceOpens, true) == StartupStep::AnnounceReady,
        spec_next_startup_step(StartupStep::AnnounceReady, true) == StartupStep::Poll,
{
}

/// The bootstrap tick of the `idx`-th buffer: the wall clock offset by
/// the buffer's position, so no buffer's anchor is the nil id at any
/// time but the one instant the clock reads zero.
pub fn bootstrap_tick(now_ns: u64, idx: u64) -> (id: EventId)
    ensures
        id.0 == now_ns.wrapping_add(idx),
{
    EventId::new(now_ns.wrapping_add(idx) as u128)
}

} // verus!
