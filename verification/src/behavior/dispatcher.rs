//! The dispatcher: owns the fact space, the trace, the authority claims
//! of service publishers and the registered behaviors, and processes
//! one input at a time.

use vstd::prelude::*;
use crate::bus::delivery::SequenceCounter;
use crate::bus::event_subscriptions::EventSubscriptions;
use crate::fact_space::{InMemoryFactStore, KeyView, key_view};
use crate::fact_space::in_memory::fact_offers;
use crate::keyed::{
    has_key_by, keyed_map, lemma_keyed_absent, lemma_keyed_at, lemma_keyed_push, lemma_keyed_remove, unique_by,
};
use crate::provenance::{ActorIdentity, Provenance, same_actor};
use crate::trace::entry::{TraceEntry, TracePayload};
use crate::trace::store::TraceStore;
use crate::types::entity_ref::EntityRef;
use crate::types::event::Event;
use crate::types::fact::{Fact, FactKey, family_prefix};
use crate::types::ids::{BehaviorId, EventId};

verus! {

/// Outcome of a service-originated fact assertion.
#[derive(Debug)]
pub enum ServicePublishOutcome {
    Asserted,
    /// Another connection already claims `(family, entity)`.
    AuthorityConflict { family: String, entity: EntityRef, existing: ActorIdentity },
    /// The connection already published under a different identity.
    IdentityDrift { bound: ActorIdentity, attempted: ActorIdentity },
}

/// Outcome of a service-originated fact retraction.
#[derive(Debug, Clone, Copy, PartialEq, Eq, Structural)]
pub enum ServiceRetractOutcome {
    Retracted,
    NotOwned,
    NotPresent,
}

/// The identity of an authority claim: family text and entity.
pub type ClaimKey = (Seq<char>, u64);

/// One authority claim.
pub struct Claim {
    pub family: String,
    pub entity: EntityRef,
    pub conn_id: u64,
    pub identity: ActorIdentity,
}

pub open spec fn claim_key(c: Claim) -> ClaimKey {
    (c.family@, c.entity.0)
}

/// `(family, entity) -> (connection, claiming actor)`. A claim is
/// released when its connection goes away.
pub struct AuthorityMap {
    claims: Vec<Claim>,
}

/// The key extractor of claims.
pub open spec fn claim_kf() -> spec_fn(Claim) -> ClaimKey {
    |c: Claim| claim_key(c)
}

/// The claims as a map from claim key to (connection, actor).
pub open spec fn claims_view(cs: Seq<Claim>) -> Map<ClaimKey, (u64, ActorIdentity)> {
    keyed_map(cs, claim_kf()).map_values(|c: Claim| (c.conn_id, c.identity))
}

/// `after` is `before` without the claims of `conn_id`.
pub open spec fn claims_released(
    before: Map<ClaimKey, (u64, ActorIdentity)>,
    after: Map<ClaimKey, (u64, ActorIdentity)>,
    conn_id: u64,
) -> bool {
    &&& forall|k: ClaimKey| #[trigger] after.contains_key(k) <==> (before.contains_key(k) && before[k].0 != conn_id)
    &&& forall|k: ClaimKey| #[trigger] after.contains_key(k) ==> after[k] == before[k]
}

/// What claiming `k` for `conn_id` as `identity` yields and leaves: a
/// fresh key is taken; the holding connection may claim it again; any
/// other connection is refused with the holder's actor.
pub open spec fn spec_claim(
    m: Map<ClaimKey, (u64, ActorIdentity)>,
    k: ClaimKey,
    conn_id: u64,
    identity: ActorIdentity,
) -> (Result<(), ActorIdentity>, Map<ClaimKey, (u64, ActorIdentity)>) {
    if !m.contains_key(k) {
        (Ok(()), m.insert(k, (conn_id, identity)))
    } else if m[k].0 == conn_id {
        (Ok(()), m)
    } else {
        (Err(m[k].1), m)
    }
}

/// Single writer per `(family, entity)`: once connection `a` holds `k`,
/// a claim of `k` by any other connection, whatever actor it presents,
/// is refused with the actor `a` holds it as and changes nothing, while
/// `a` may claim again.
pub proof fn lemma_claim_single_writer(
    m0: Map<ClaimKey, (u64, ActorIdentity)>,
    k: ClaimKey,
    a: u64,
    ida: ActorIdentity,
    b: u64,
    idb: ActorIdentity,
)
    requires
        a != b,
    ensures
        ({
            let (r1, m1) = spec_claim(m0, k, a, ida);
            r1 is Ok ==> {
                &&& m1.contains_key(k) && m1[k].0 == a
                &&& !m0.contains_key(k) ==> m1[k].1 == ida
                &&& spec_claim(m1, k, b, idb) == (Err::<(), ActorIdentity>(m1[k].1), m1)
                &&& spec_claim(m1, k, a, ida) == (Ok::<(), ActorIdentity>(()), m1)
            }
        }),
{
}

/// Releasing a connection frees its claims: after `a`'s claims are
/// released, another connection's claim of a key `a` held succeeds.
pub proof fn lemma_released_claim_is_free(
    m1: Map<ClaimKey, (u64, ActorIdentity)>,
    m2: Map<ClaimKey, (u64, ActorIdentity)>,
    a: u64,
    k: ClaimKey,
    b: u64,
    idb: ActorIdentity,
)
    requires
        claims_released(m1, m2, a),
        m1.contains_key(k),
        m1[k].0 == a,
    ensures
        spec_claim(m2, k, b, idb) == (Ok::<(), ActorIdentity>(()), m2.insert(k, (b, idb))),
{
    assert(!m2.contains_key(k));
}

impl AuthorityMap {
    pub closed spec fn spec_claims(&self) -> Seq<Claim> {
        self.claims@
    }

    pub open spec fn view_map(&self) -> Map<ClaimKey, (u64, ActorIdentity)> {
        claims_view(self.spec_claims())
    }

    #[verifier::type_invariant]
    spec fn unique(&self) -> bool {
        unique_by(self.claims@, claim_kf())
    }

    pub fn new() -> (m: Self)
        ensures
            m.view_map() == Map::<ClaimKey, (u64, ActorIdentity)>::empty(),
    {
        let m = AuthorityMap { claims: Vec::new() };
        assert(claims_view(m.claims@) =~= Map::<ClaimKey, (u64, ActorIdentity)>::empty());
        m
    }

    /// Claim `(family, entity)` for `conn_id`. A fresh key is claimed;
    /// the claiming connection may claim again; any other connection is
    /// refused with the claiming actor.
    pub fn claim(&mut self, conn_id: u64, identity: &ActorIdentity, family: &str, entity: EntityRef) -> (r: Result<
        (),
        ActorIdentity,
    >)
        ensures
            (r, final(self).view_map()) == spec_claim(old(self).view_map(), (family@, entity.0), conn_id, *identity),
    {
        proof {
            use_type_invariant(&*self);
        }
        let ghost kf = claim_kf();
        let mut i: usize = 0;
        while i < self.claims.len()
            invariant
                kf == claim_kf(),
                unique_by(self.claims@, kf),
                i <= self.claims@.len(),
                forall|j: int| 0 <= j < i ==> claim_key(#[trigger] self.claims@[j]) != (family@, entity.0),
            decreases self.claims@.len() - i,
        {
            if str_eq_family(&self.claims[i].family, family) && self.claims[i].entity.0 == entity.0 {
                proof {
                    lemma_keyed_at(self.claims@, kf, i as int);
                }
                if self.claims[i].conn_id == conn_id {
                    return Ok(());
                } else {
                    return Err(self.claims[i].identity.clone());
                }
            }
            i = i + 1;
        }
        let c = Claim { family: family.to_owned(), entity, conn_id, identity: identity.clone() };
        proof {
            assert(!has_key_by(self.claims@, kf, kf(c)));
            lemma_keyed_absent(self.claims@, kf, kf(c));
            lemma_keyed_push(self.claims@, kf, c);
        }
        let mut cs: Vec<Claim> = Vec::new();
        std::mem::swap(&mut cs, &mut self.claims);
        cs.push(c);
        self.claims = cs;
        proof {
            assert(claims_view(self.claims@) =~= claims_view(old(self).claims@).insert(
                (family@, entity.0),
                (conn_id, *identity),
            ));
        }
        Ok(())
    }

    /// Release every claim held by `conn_id`.
    pub fn release_connection(&mut self, conn_id: u64)
        ensures
            claims_released(old(self).view_map(), final(self).view_map(), conn_id),
    {
        proof {
            use_type_invariant(&*self);
        }
        let ghost kf = claim_kf();
        let mut cs: Vec<Claim> = Vec::new();
        std::mem::swap(&mut cs, &mut self.claims);
        let ghost start = cs@;
        let mut i: usize = 0;
        while i < cs.len()
            invariant
                kf == claim_kf(),
                unique_by(start, kf),
                unique_by(cs@, kf),
                i <= cs@.len(),
                forall|j: int| 0 <= j < i ==> (#[trigger] cs@[j]).conn_id != conn_id,
                forall|k: ClaimKey| #[trigger] keyed_map(cs@, kf).contains_key(k) ==> keyed_map(start, kf).contains_key(k)
                    && keyed_map(cs@, kf)[k] == keyed_map(start, kf)[k],
                forall|k: ClaimKey| #[trigger] keyed_map(start, kf).contains_key(k) && keyed_map(start, kf)[k].conn_id != conn_id
                    ==> keyed_map(cs@, kf).contains_key(k),
            decreases cs@.len() - i,
        {
            if cs[i].conn_id == conn_id {
                proof {
                    let before = cs@;
                    lemma_keyed_at(before, kf, i as int);
                    lemma_keyed_remove(before, kf, i as int);
                    let after = before.remove(i as int);
                    assert forall|j: int| 0 <= j < i implies (#[trigger] after[j]).conn_id != conn_id by {
                        assert(after[j] == before[j]);
                    }
                }
                cs.remove(i);
            } else {
                i = i + 1;
            }
        }
        proof {
            let km = keyed_map(cs@, kf);
            assert forall|k: ClaimKey| km.contains_key(k) implies km[k].conn_id != conn_id by {
                let j = choose|j: int| 0 <= j < cs@.len() && kf(#[trigger] cs@[j]) == k;
                lemma_keyed_at(cs@, kf, j);
            }
        }
        self.claims = cs;
    }
}

/// Whether a claim's family text equals `family`.
fn str_eq_family(a: &String, family: &str) -> (r: bool)
    ensures
        r == (a@ == family@),
{
    crate::text::str_eq(a.as_str(), family)
}

/// The fact family and entity a fact key is claimed under.
pub open spec fn family_key(k: FactKey) -> ClaimKey {
    (family_prefix(k.attribute@), k.entity.0)
}

/// The family of a fact key: its attribute up to the first `/`.
pub fn family_of(key: &FactKey) -> (r: &str)
    ensures
        r@ == family_prefix(key.attribute@),
{
    key.family()
}

/// Key extractor of ownership records.
pub open spec fn owned_kf() -> spec_fn((u64, FactKey)) -> (u64, KeyView) {
    |p: (u64, FactKey)| (p.0, key_view(p.1))
}

/// The key views of a sequence of keys.
pub open spec fn key_views(keys: Seq<FactKey>) -> Seq<KeyView> {
    keys.map_values(|k: FactKey| key_view(k))
}

/// Key extractor of bound identities.
pub open spec fn bound_kf() -> spec_fn((u64, ActorIdentity)) -> u64 {
    |p: (u64, ActorIdentity)| p.0
}

/// A registered behavior: an id and a firing body. A firing reads
/// nothing but the event and its context, so what it produces is a
/// function of them: `spec_fire` names it, and `fire` must return it.
pub trait Behavior: Send + Sync {
    /// The behavior's id.
    spec fn spec_id(&self) -> BehaviorId;

    /// What a firing on `event` at clock reading `now_ns` produces: a
    /// firing reads nothing but the event and its context.
    spec fn spec_fire(&self, event: Event, now_ns: u64) -> BehaviorOutputs;

    fn id(&self) -> (r: &BehaviorId)
        ensures
            *r == self.spec_id(),
    ;

    /// Run the behavior body against an event.
    fn fire(&self, event: &Event, ctx: BehaviorContext) -> (o: BehaviorOutputs)
        ensures
            o == self.spec_fire(*event, ctx.now_ns),
    ;
}

/// Inputs a behavior firing may read.
pub struct BehaviorContext {
    pub now_ns: u64,
}

/// What one behavior firing produced. When `error` is set none of the
/// assertions or retractions are applied.
pub struct BehaviorOutputs {
    pub assertions: Vec<Fact>,
    pub retractions: Vec<(FactKey, Provenance)>,
    pub error: Option<String>,
}

/// Wall-clock nanoseconds since the Unix epoch, if the clock is past it.
#[verifier::external_body]
fn unix_time_nanos() -> Option<u128> {
    std::time::SystemTime::now().duration_since(std::time::UNIX_EPOCH).ok().map(|d| d.as_nanos())
}

/// Nanoseconds as a `u64`: saturated at `u64::MAX`, `0` for a clock
/// before the epoch.
pub fn clamp_nanos(t: Option<u128>) -> (r: u64)
    ensures
        r == match t {
            Some(n) => if n > u64::MAX { u64::MAX } else { n as u64 },
            None => 0,
        },
{
    match t {
        Some(n) => if n > 0xffff_ffff_ffff_ffffu128 {
            0xffff_ffff_ffff_ffffu64
        } else {
            n as u64
        },
        None => 0,
    }
}

/// Wall-clock nanoseconds since the Unix epoch (saturating; `0` if the
/// clock reads before the epoch).
pub fn now_ns() -> u64 {
    clamp_nanos(unix_time_nanos())
}

/// `now - start`, or `0` when the clock ran backwards.
pub open spec fn elapsed(now: u64, start: u64) -> u64 {
    if now >= start { (now - start) as u64 } else { 0 }
}

/// `now - start`, or `0` when the clock ran backwards.
pub fn elapsed_ns(now: u64, start: u64) -> (r: u64)
    ensures
        r == elapsed(now, start),
{
    now.saturating_sub(start)
}

/// Which connection asserted which live fact.
pub struct OwnedFacts {
    pairs: Vec<(u64, FactKey)>,
}

impl OwnedFacts {
    /// The `(connection, key)` pairs.
    pub closed spec fn view_set(&self) -> Set<(u64, KeyView)> {
        keyed_map(self.pairs@, owned_kf()).dom()
    }

    #[verifier::type_invariant]
    spec fn unique(&self) -> bool {
        unique_by(self.pairs@, owned_kf())
    }

    pub fn new() -> (o: Self)
        ensures
            o.view_set() == Set::<(u64, KeyView)>::empty(),
    {
        let o = OwnedFacts { pairs: Vec::new() };
        assert(keyed_map(o.pairs@, owned_kf()).dom() =~= Set::<(u64, KeyView)>::empty());
        o
    }

    fn find(&self, conn_id: u64, key: &FactKey) -> (r: Option<usize>)
        ensures
            match r {
                Some(i) => i < self.pairs@.len() && owned_kf()(self.pairs@[i as int]) == (conn_id, key_view(*key)),
                None => !has_key_by(self.pairs@, owned_kf(), (conn_id, key_view(*key))),
            },
    {
        let mut i: usize = 0;
        while i < self.pairs.len()
            invariant
                i <= self.pairs@.len(),
                forall|j: int| 0 <= j < i ==> owned_kf()(#[trigger] self.pairs@[j]) != (conn_id, key_view(*key)),
            decreases self.pairs@.len() - i,
        {
            if self.pairs[i].0 == conn_id && self.pairs[i].1.same_as(key) {
                return Some(i);
            }
            i = i + 1;
        }
        None
    }

    /// Whether `conn_id` owns `key`.
    pub fn contains(&self, conn_id: u64, key: &FactKey) -> (r: bool)
        ensures
            r == self.view_set().contains((conn_id, key_view(*key))),
    {
        proof {
            use_type_invariant(self);
        }
        match self.find(conn_id, key) {
            Some(i) => {
                proof {
                    lemma_keyed_at(self.pairs@, owned_kf(), i as int);
                }
                true
            },
            None => {
                proof {
                    lemma_keyed_absent(self.pairs@, owned_kf(), (conn_id, key_view(*key)));
                }
                false
            },
        }
    }

    /// Record that `conn_id` owns `key`.
    pub fn insert(&mut self, conn_id: u64, key: FactKey)
        ensures
            final(self).view_set() == old(self).view_set().insert((conn_id, key_view(key))),
    {
        proof {
            use_type_invariant(&*self);
        }
        match self.find(conn_id, &key) {
            Some(i) => {
                proof {
                    lemma_keyed_at(self.pairs@, owned_kf(), i as int);
                    assert(self.view_set().insert((conn_id, key_view(key))) =~= self.view_set());
                }
            },
            None => {
                let p = (conn_id, key);
                proof {
                    lemma_keyed_push(self.pairs@, owned_kf(), p);
                }
                let mut ps: Vec<(u64, FactKey)> = Vec::new();
                std::mem::swap(&mut ps, &mut self.pairs);
                ps.push(p);
                self.pairs = ps;
            },
        }
    }

    /// Forget that `conn_id` owns `key`.
    pub fn remove(&mut self, conn_id: u64, key: &FactKey)
        ensures
            final(self).view_set() == old(self).view_set().remove((conn_id, key_view(*key))),
    {
        proof {
            use_type_invariant(&*self);
        }
        match self.find(conn_id, key) {
            Some(i) => {
                proof {
                    lemma_keyed_remove(self.pairs@, owned_kf(), i as int);
                }
                let mut ps: Vec<(u64, FactKey)> = Vec::new();
                std::mem::swap(&mut ps, &mut self.pairs);
                ps.remove(i);
                self.pairs = ps;
            },
            None => {
                proof {
                    lemma_keyed_absent(self.pairs@, owned_kf(), (conn_id, key_view(*key)));
                    assert(self.view_set().remove((conn_id, key_view(*key))) =~= self.view_set());
                }
            },
        }
    }

    /// Remove and return every key owned by `conn_id`, in insertion order.
    pub fn take_connection(&mut self, conn_id: u64) -> (keys: Vec<FactKey>)
        ensures
            forall|p: (u64, KeyView)| #[trigger] final(self).view_set().contains(p)
                <==> (old(self).view_set().contains(p) && p.0 != conn_id),
            forall|m: int| 0 <= m < keys@.len() ==> old(self).view_set().contains((conn_id, key_view(#[trigger] keys@[m]))),
            forall|kv: KeyView| old(self).view_set().contains((conn_id, kv)) ==> key_views(keys@).contains(kv),
            key_views(keys@).no_duplicates(),
    {
        proof {
            use_type_invariant(&*self);
        }
        let ghost kf = owned_kf();
        let mut ps: Vec<(u64, FactKey)> = Vec::new();
        std::mem::swap(&mut ps, &mut self.pairs);
        let ghost start = ps@;
        let mut keys: Vec<FactKey> = Vec::new();
        let mut i: usize = 0;
        while i < ps.len()
            invariant
                kf == owned_kf(),
                unique_by(ps@, kf),
                i <= ps@.len(),
                forall|j: int| 0 <= j < i ==> (#[trigger] ps@[j]).0 != conn_id,
                forall|p: (u64, KeyView)| #[trigger] keyed_map(ps@, kf).contains_key(p) ==> keyed_map(start, kf).contains_key(p),
                forall|p: (u64, KeyView)| #[trigger] keyed_map(start, kf).contains_key(p) && p.0 != conn_id
                    ==> keyed_map(ps@, kf).contains_key(p),
                forall|p: (u64, KeyView)| #[trigger] keyed_map(start, kf).contains_key(p) && p.0 == conn_id
                    ==> keyed_map(ps@, kf).contains_key(p) || key_views(keys@).contains(p.1),
                forall|m: int| 0 <= m < keys@.len() ==> keyed_map(start, kf).contains_key((conn_id, key_view(#[trigger] keys@[m]))),
                forall|m: int| 0 <= m < keys@.len() ==> !keyed_map(ps@, kf).contains_key((conn_id, key_view(#[trigger] keys@[m]))),
                key_views(keys@).no_duplicates(),
            decreases ps@.len() - i,
        {
            if ps[i].0 == conn_id {
                let ghost before = ps@;
                let ghost k0 = keys@;
                proof {
                    lemma_keyed_at(before, kf, i as int);
                    lemma_keyed_remove(before, kf, i as int);
                }
                let (_c, k) = ps.remove(i);
                keys.push(k);
                proof {
                    let after = ps@;
                    assert(after == before.remove(i as int));
                    assert forall|j: int| 0 <= j < i implies (#[trigger] after[j]).0 != conn_id by {
                        assert(after[j] == before[j]);
                    }
                    assert(key_views(keys@) == key_views(k0).push(key_view(k)));
                    assert(keyed_map(before, kf).contains_key((conn_id, key_view(k))));
                    assert forall|m: int| 0 <= m < k0.len() implies key_view(k0[m]) != key_view(k) by {
                        assert(!keyed_map(before, kf).contains_key((conn_id, key_view(#[trigger] k0[m]))));
                    }
                    assert forall|m: int| 0 <= m < keys@.len() implies !keyed_map(after, kf).contains_key(
                        (conn_id, key_view(#[trigger] keys@[m])),
                    ) by {
                        if m < k0.len() {
                            assert(keys@[m] == k0[m]);
                            assert(!keyed_map(before, kf).contains_key((conn_id, key_view(k0[m]))));
                        }
                    }
                    assert forall|a: int, b: int| 0 <= a < key_views(keys@).len() && 0 <= b < key_views(keys@).len() && a != b
                        implies key_views(keys@)[a] != key_views(keys@)[b] by {
                        if a < k0.len() && b < k0.len() {
                            assert(key_views(keys@)[a] == key_views(k0)[a]);
                            assert(key_views(keys@)[b] == key_views(k0)[b]);
                        } else if a < k0.len() {
                            assert(key_views(keys@)[a] == key_view(k0[a]));
                        } else if b < k0.len() {
                            assert(key_views(keys@)[b] == key_view(k0[b]));
                        }
                    }
                    assert forall|p: (u64, KeyView)| #[trigger] keyed_map(start, kf).contains_key(p) && p.0 == conn_id
                        implies keyed_map(after, kf).contains_key(p) || key_views(keys@).contains(p.1) by {
                        if p == kf(before[i as int]) {
                            assert(key_views(keys@)[k0.len() as int] == p.1);
                        } else if key_views(k0).contains(p.1) {
                            let m = choose|m: int| 0 <= m < key_views(k0).len() && key_views(k0)[m] == p.1;
                            assert(key_views(keys@)[m] == p.1);
                        }
                    }
                }
            } else {
                i = i + 1;
            }
        }
        proof {
            let km = keyed_map(ps@, kf);
            assert forall|p: (u64, KeyView)| km.contains_key(p) implies p.0 != conn_id by {
                let j = choose|j: int| 0 <= j < ps@.len() && kf(#[trigger] ps@[j]) == p;
                lemma_keyed_at(ps@, kf, j);
            }
        }
        self.pairs = ps;
        keys
    }
}

/// The identity each connection is bound to.
pub struct BoundIdentities {
    pairs: Vec<(u64, ActorIdentity)>,
}

impl BoundIdentities {
    pub closed spec fn view_map(&self) -> Map<u64, ActorIdentity> {
        keyed_map(self.pairs@, bound_kf()).map_values(|p: (u64, ActorIdentity)| p.1)
    }

    #[verifier::type_invariant]
    spec fn unique(&self) -> bool {
        unique_by(self.pairs@, bound_kf())
    }

    pub fn new() -> (b: Self)
        ensures
            b.view_map() == Map::<u64, ActorIdentity>::empty(),
    {
        let b = BoundIdentities { pairs: Vec::new() };
        assert(b.view_map() =~= Map::<u64, ActorIdentity>::empty());
        b
    }

    fn find(&self, conn_id: u64) -> (r: Option<usize>)
        ensures
            match r {
                Some(i) => i < self.pairs@.len() && self.pairs@[i as int].0 == conn_id,
                None => !has_key_by(self.pairs@, bound_kf(), conn_id),
            },
    {
        let mut i: usize = 0;
        while i < self.pairs.len()
            invariant
                i <= self.pairs@.len(),
                forall|j: int| 0 <= j < i ==> bound_kf()(#[trigger] self.pairs@[j]) != conn_id,
            decreases self.pairs@.len() - i,
        {
            if self.pairs[i].0 == conn_id {
                return Some(i);
            }
            i = i + 1;
        }
        None
    }

    /// The identity `conn_id` is bound to, if any.
    pub fn get(&self, conn_id: u64) -> (r: Option<&ActorIdentity>)
        ensures
            r is Some <==> self.view_map().contains_key(conn_id),
            r is Some ==> *r.unwrap() == self.view_map()[conn_id],
    {
        proof {
            use_type_invariant(self);
        }
        match self.find(conn_id) {
            Some(i) => {
                proof {
                    lemma_keyed_at(self.pairs@, bound_kf(), i as int);
                }
                Some(&self.pairs[i].1)
            },
            None => {
                proof {
                    lemma_keyed_absent(self.pairs@, bound_kf(), conn_id);
                }
                None
            },
        }
    }

    /// Bind `conn_id` to `identity` (it must not be bound yet).
    pub fn insert(&mut self, conn_id: u64, identity: ActorIdentity)
        requires
            !old(self).view_map().contains_key(conn_id),
        ensures
            final(self).view_map() == old(self).view_map().insert(conn_id, identity),
    {
        proof {
            use_type_invariant(&*self);
            assert(!has_key_by(self.pairs@, bound_kf(), conn_id));
            lemma_keyed_push(self.pairs@, bound_kf(), (conn_id, identity));
        }
        let mut ps: Vec<(u64, ActorIdentity)> = Vec::new();
        std::mem::swap(&mut ps, &mut self.pairs);
        ps.push((conn_id, identity));
        self.pairs = ps;
        assert(self.view_map() =~= old(self).view_map().insert(conn_id, identity));
    }

    /// Unbind `conn_id`.
    pub fn remove(&mut self, conn_id: u64)
        ensures
            final(self).view_map() == old(self).view_map().remove(conn_id),
    {
        proof {
            use_type_invariant(&*self);
        }
        match self.find(conn_id) {
            Some(i) => {
                proof {
                    lemma_keyed_remove(self.pairs@, bound_kf(), i as int);
                }
                let mut ps: Vec<(u64, ActorIdentity)> = Vec::new();
                std::mem::swap(&mut ps, &mut self.pairs);
                ps.remove(i);
                self.pairs = ps;
                assert(self.view_map() =~= old(self).view_map().remove(conn_id));
            },
            None => {
                proof {
                    lemma_keyed_absent(self.pairs@, bound_kf(), conn_id);
                }
                assert(self.view_map() =~= old(self).view_map().remove(conn_id));
            },
        }
    }
}

/// Pushing onto a sequence adds one to its length.
proof fn lemma_push_len<A>(s: Seq<A>, a: A)
    ensures
        s.push(a).len() == s.len() + 1,
{
}

/// The dispatcher.
pub struct Dispatcher {
    fact_store: InMemoryFactStore,
    trace: TraceStore,
    sequence: SequenceCounter,
    behaviors: Vec<Box<dyn Behavior>>,
    started_at_ns: u64,
    authority: AuthorityMap,
    conn_facts: OwnedFacts,
    conn_identity: BoundIdentities,
    event_subscriptions: EventSubscriptions,
}

impl Dispatcher {
    /// The asserted facts.
    pub closed spec fn spec_facts(&self) -> Map<KeyView, Fact> {
        self.fact_store.view_map()
    }

    /// The trace, in append order.
    pub closed spec fn spec_trace(&self) -> Seq<TraceEntry> {
        self.trace.spec_entries()
    }

    /// The authority claims.
    pub closed spec fn spec_claims(&self) -> Map<ClaimKey, (u64, ActorIdentity)> {
        self.authority.view_map()
    }

    /// `(connection, fact key)` pairs: which connection asserted which
    /// live fact.
    pub closed spec fn spec_owned(&self) -> Set<(u64, KeyView)> {
        self.conn_facts.view_set()
    }

    /// The identity each connection is bound to.
    pub closed spec fn spec_bound(&self) -> Map<u64, ActorIdentity> {
        self.conn_identity.view_map()
    }

    /// How many behaviors are registered.
    pub closed spec fn spec_behavior_count(&self) -> nat {
        self.behaviors@.len()
    }

    /// The registered behaviors, in registration order.
    pub closed spec fn spec_behaviors(&self) -> Seq<Box<dyn Behavior>> {
        self.behaviors@
    }

    /// The ids of the registered behaviors, in registration order.
    pub closed spec fn spec_behavior_ids(&self) -> Seq<BehaviorId> {
        self.behaviors@.map_values(|b: Box<dyn Behavior>| b.spec_id())
    }

    /// What each registered behavior, in order, produces when fired on
    /// `event` at clock reading `now_ns`.
    pub closed spec fn spec_fired(&self, event: Event, now_ns: u64) -> Seq<BehaviorOutputs> {
        self.behaviors@.map_values(|b: Box<dyn Behavior>| b.spec_fire(event, now_ns))
    }

    /// The fact subscribers, oldest first.
    pub closed spec fn spec_fact_subscribers(&self) -> Seq<crate::fact_space::in_memory::Subscriber> {
        self.fact_store.spec_subscribers()
    }

    /// The fact notifications offered so far, with their subscribers.
    pub closed spec fn spec_fact_offers(&self) -> Seq<(crate::fact_space::in_memory::Subscriber, crate::fact_space::FactEvent)> {
        self.fact_store.spec_offers()
    }

    /// The events offered so far, with their subscribers.
    pub closed spec fn spec_event_offers(&self) -> Seq<(crate::bus::event_subscriptions::EventSubscriber, Event)> {
        self.event_subscriptions.spec_offers()
    }

    /// The event subscribers, oldest first.
    pub closed spec fn spec_event_subscribers(&self) -> Seq<crate::bus::event_subscriptions::EventSubscriber> {
        self.event_subscriptions.spec_subscribers()
    }

    /// The sequence number the dispatcher allocates next.
    pub closed spec fn spec_next_sequence(&self) -> u64 {
        self.sequence.spec_next()
    }

    /// The clock reading taken when the dispatcher was built.
    pub closed spec fn spec_started_at(&self) -> u64 {
        self.started_at_ns
    }

    /// An empty dispatcher: no facts, no trace, no claims, no behaviors,
    /// no event subscribers, sequence numbers from zero.
    pub fn new() -> (d: Self)
        ensures
            d.spec_event_subscribers().len() == 0,
            d.spec_next_sequence() == 0,
            d.spec_facts() == Map::<KeyView, Fact>::empty(),
            d.spec_trace().len() == 0,
            d.spec_claims() == Map::<ClaimKey, (u64, ActorIdentity)>::empty(),
            d.spec_owned() == Set::<(u64, KeyView)>::empty(),
            d.spec_bound() == Map::<u64, ActorIdentity>::empty(),
            d.spec_behavior_count() == 0,
    {
        let d = Dispatcher {
            fact_store: InMemoryFactStore::new(),
            trace: TraceStore::new(),
            sequence: SequenceCounter::new(),
            behaviors: Vec::new(),
            started_at_ns: now_ns(),
            authority: AuthorityMap::new(),
            conn_facts: OwnedFacts::new(),
            conn_identity: BoundIdentities::new(),
            event_subscriptions: EventSubscriptions::new(),
        };
        d
    }

    /// The fact store.
    pub fn fact_store(&self) -> (r: &InMemoryFactStore)
        ensures
            r.view_map() == self.spec_facts(),
    {
        &self.fact_store
    }

    /// The trace.
    pub fn trace(&self) -> (r: &TraceStore)
        ensures
            r.spec_entries() == self.spec_trace(),
    {
        &self.trace
    }

    /// Nanoseconds since the dispatcher was built (0 if the clock ran
    /// backwards).
    pub fn uptime_ns(&self) -> (r: u64)
        ensures
            exists|now: u64| r == elapsed(now, self.spec_started_at()),
    {
        let now = now_ns();
        let r = elapsed_ns(now, self.started_at_ns);
        assert(r == elapsed(now, self.spec_started_at()));
        r
    }

    /// Register a behavior; it fires on every later event.
    pub fn register(&mut self, behavior: Box<dyn Behavior>)
        ensures
            final(self).spec_facts() == old(self).spec_facts(),
            final(self).spec_trace() == old(self).spec_trace(),
            final(self).spec_claims() == old(self).spec_claims(),
            final(self).spec_owned() == old(self).spec_owned(),
            final(self).spec_bound() == old(self).spec_bound(),
            final(self).spec_behavior_count() == old(self).spec_behavior_count() + 1,
    {
        proof {
            lemma_push_len(self.behaviors@, behavior);
        }
        self.behaviors.push(behavior);
    }
}

/// Two dispatcher states hold the same records: facts, trace, claims,
/// ownership and bound identities. Subscribers, behaviors and the
/// sequence counter are not part of it.
pub open spec fn same_records(a: &Dispatcher, b: &Dispatcher) -> bool {
    &&& a.spec_facts() == b.spec_facts()
    &&& a.spec_trace() == b.spec_trace()
    &&& a.spec_claims() == b.spec_claims()
    &&& a.spec_owned() == b.spec_owned()
    &&& a.spec_bound() == b.spec_bound()
}

/// The connection is bound to an identity other than `source`.
pub open spec fn drifts(bound: Map<u64, ActorIdentity>, conn_id: u64, source: ActorIdentity) -> bool {
    bound.contains_key(conn_id) && !same_actor(bound[conn_id], source)
}

/// Another connection claims the fact's `(family, entity)`.
pub open spec fn conflicts(claims: Map<ClaimKey, (u64, ActorIdentity)>, conn_id: u64, key: FactKey) -> bool {
    claims.contains_key(family_key(key)) && claims[family_key(key)].0 != conn_id
}

impl Dispatcher {
    /// Assert a fact published by a service over connection `conn_id`.
    ///
    /// The first publish binds the connection to the fact's source
    /// identity; a later publish under another identity is refused. The
    /// first connection to publish into a `(family, entity)` claims it;
    /// another connection publishing there is refused. An accepted fact
    /// is recorded in the trace, stored, and owned by the connection.
    pub fn publish_from_service(&mut self, conn_id: u64, fact: Fact) -> (r: ServicePublishOutcome)
        ensures
            old(self).spec_trace().is_prefix_of(final(self).spec_trace()),
            drifts(old(self).spec_bound(), conn_id, fact.provenance.source) ==> (r matches ServicePublishOutcome::IdentityDrift {
                bound,
                attempted,
            } && bound == old(self).spec_bound()[conn_id] && attempted == fact.provenance.source
                && same_records(&*final(self), &*old(self))),
            !drifts(old(self).spec_bound(), conn_id, fact.provenance.source) ==> final(self).spec_bound() == (
            if old(self).spec_bound().contains_key(conn_id) {
                old(self).spec_bound()
            } else {
                old(self).spec_bound().insert(conn_id, fact.provenance.source)
            }),
            !drifts(old(self).spec_bound(), conn_id, fact.provenance.source) && conflicts(
                old(self).spec_claims(),
                conn_id,
                fact.key,
            ) ==> (r matches ServicePublishOutcome::AuthorityConflict { family, entity, existing }
                && family@ == family_key(fact.key).0 && entity == fact.key.entity
                && existing == old(self).spec_claims()[family_key(fact.key)].1
                && final(self).spec_facts() == old(self).spec_facts()
                && final(self).spec_trace() == old(self).spec_trace()
                && final(self).spec_claims() == old(self).spec_claims()
                && final(self).spec_owned() == old(self).spec_owned()),
            !drifts(old(self).spec_bound(), conn_id, fact.provenance.source) && !conflicts(
                old(self).spec_claims(),
                conn_id,
                fact.key,
            ) ==> (r is Asserted && final(self).spec_claims() == (if old(self).spec_claims().contains_key(
                family_key(fact.key),
            ) {
                old(self).spec_claims()
            } else {
                old(self).spec_claims().insert(family_key(fact.key), (conn_id, fact.provenance.source))
            }) && final(self).spec_facts() == old(self).spec_facts().insert(key_view(fact.key), fact)
                && final(self).spec_trace().len() == old(self).spec_trace().len() + 1
                && final(self).spec_trace().last().payload == (TracePayload::FactAsserted { fact })
                && final(self).spec_owned() == old(self).spec_owned().insert((conn_id, key_view(fact.key)))
                && final(self).spec_fact_offers() == old(self).spec_fact_offers() + fact_offers(
                old(self).spec_fact_subscribers(),
                crate::fact_space::FactEvent::Asserted(fact),
            )),
    {
        let ghost t0 = self.trace.spec_entries();
        let family = family_of(&fact.key).to_owned();
        let entity = fact.key.entity;
        match self.conn_identity.get(conn_id) {
            Some(bound) => {
                if !bound.same_as(&fact.provenance.source) {
                    assert(t0.is_prefix_of(t0));
                    return ServicePublishOutcome::IdentityDrift {
                        bound: bound.clone(),
                        attempted: fact.provenance.source.clone(),
                    };
                }
            },
            None => {
                self.conn_identity.insert(conn_id, fact.provenance.source.clone());
            },
        }
        match self.authority.claim(conn_id, &fact.provenance.source, family.as_str(), entity) {
            Err(existing) => {
                assert(t0.is_prefix_of(t0));
                return ServicePublishOutcome::AuthorityConflict { family, entity, existing };
            },
            Ok(()) => {},
        }
        let now = now_ns();
        let _ = self.sequence.next();
        let key = fact.key.clone();
        self.trace.append(now, TracePayload::FactAsserted { fact: fact.clone() });
        self.fact_store.assert_fact(fact);
        self.conn_facts.insert(conn_id, key);
        assert(t0.is_prefix_of(self.trace.spec_entries()));
        ServicePublishOutcome::Asserted
    }

    /// Retract a fact on behalf of the service connection that asserted
    /// it. The retraction is attributed to the identity stored with the
    /// fact; only the causal parent comes from the client. A fact owned
    /// by another connection is refused; retracting a fact that is not
    /// asserted is a no-op.
    pub fn retract_from_service(&mut self, conn_id: u64, key: FactKey, causal_parent: Option<EventId>) -> (r:
        ServiceRetractOutcome)
        ensures
            old(self).spec_trace().is_prefix_of(final(self).spec_trace()),
            final(self).spec_claims() == old(self).spec_claims(),
            final(self).spec_bound() == old(self).spec_bound(),
            !old(self).spec_owned().contains((conn_id, key_view(key))) ==> (r == (if old(self).spec_facts().contains_key(
                key_view(key),
            ) {
                ServiceRetractOutcome::NotOwned
            } else {
                ServiceRetractOutcome::NotPresent
            }) && same_records(&*final(self), &*old(self))),
            old(self).spec_owned().contains((conn_id, key_view(key))) ==> (r == ServiceRetractOutcome::Retracted
                && final(self).spec_owned() == old(self).spec_owned().remove((conn_id, key_view(key)))
                && final(self).spec_facts() == old(self).spec_facts().remove(key_view(key))
                && final(self).spec_trace().len() == old(self).spec_trace().len() + 1
                && (final(self).spec_trace().last().payload matches TracePayload::FactRetracted { key: k, provenance: p }
                && k == key && p.causal_parent == causal_parent
                && p.source == (if old(self).spec_facts().contains_key(key_view(key)) {
                    old(self).spec_facts()[key_view(key)].provenance.source
                } else {
                    ActorIdentity::Core
                }) && final(self).spec_fact_offers() == (if old(self).spec_facts().contains_key(key_view(key)) {
                    old(self).spec_fact_offers() + fact_offers(
                        old(self).spec_fact_subscribers(),
                        crate::fact_space::FactEvent::Retracted { key: k, provenance: p },
                    )
                } else {
                    old(self).spec_fact_offers()
                }))),
    {
        let ghost t0 = self.trace.spec_entries();
        assert(t0.is_prefix_of(t0));
        if !self.conn_facts.contains(conn_id, &key) {
            let present = self.fact_store.query(&key).is_some();
            return if present {
                ServiceRetractOutcome::NotOwned
            } else {
                ServiceRetractOutcome::NotPresent
            };
        }
        self.conn_facts.remove(conn_id, &key);
        let now = now_ns();
        let _ = self.sequence.next();
        let attributed_source = match self.fact_store.query(&key) {
            Some(f) => f.provenance.source.clone(),
            None => ActorIdentity::Core,
        };
        let synthesized = Provenance { source: attributed_source, timestamp_ns: now, causal_parent };
        self.trace.append(now, TracePayload::FactRetracted { key: key.clone(), provenance: synthesized.clone() });
        let _ = self.fact_store.retract(&key, synthesized);
        assert(t0.is_prefix_of(self.trace.spec_entries()));
        ServiceRetractOutcome::Retracted
    }
}

/// `m` after asserting each fact of `fs` in order.
pub open spec fn assert_all(m: Map<KeyView, Fact>, fs: Seq<Fact>) -> Map<KeyView, Fact>
    decreases fs.len(),
{
    if fs.len() == 0 {
        m
    } else {
        assert_all(m, fs.drop_last()).insert(key_view(fs.last().key), fs.last())
    }
}

/// `m` after retracting each key of `rs` in order.
pub open spec fn retract_all(m: Map<KeyView, Fact>, rs: Seq<(FactKey, Provenance)>) -> Map<KeyView, Fact>
    decreases rs.len(),
{
    if rs.len() == 0 {
        m
    } else {
        retract_all(m, rs.drop_last()).remove(key_view(rs.last().0))
    }
}

/// The facts after one behavior firing's outputs are committed: an
/// erroneous firing changes nothing; otherwise its assertions apply,
/// then its retractions.
pub open spec fn firing_effect(m: Map<KeyView, Fact>, o: BehaviorOutputs) -> Map<KeyView, Fact> {
    if o.error is Some {
        m
    } else {
        retract_all(assert_all(m, o.assertions@), o.retractions@)
    }
}

/// The facts after committing the firings `outs`, in order.
pub open spec fn apply_firings(m: Map<KeyView, Fact>, outs: Seq<BehaviorOutputs>) -> Map<KeyView, Fact>
    decreases outs.len(),
{
    if outs.len() == 0 {
        m
    } else {
        firing_effect(apply_firings(m, outs.drop_last()), outs.last())
    }
}

/// How many trace entries one firing records: the firing alone when it
/// failed, else one per assertion, one per retraction, then the firing.
pub open spec fn firing_len(o: BehaviorOutputs) -> int {
    if o.error is Some {
        1
    } else {
        (o.assertions@.len() + o.retractions@.len() + 1) as int
    }
}

/// `seg` is the trace of one firing of behavior `b` on event `e` with
/// outputs `o`: unless it failed, a `FactAsserted` entry per assertion
/// and a `FactRetracted` entry per retraction, in order; then the
/// `BehaviorFired` entry naming the keys it touched, or its error.
pub open spec fn records_firing(seg: Seq<TraceEntry>, b: BehaviorId, e: EventId, o: BehaviorOutputs) -> bool {
    &&& seg.len() == firing_len(o)
    &&& o.error is None ==> forall|k: int|
        0 <= k < o.assertions@.len() ==> seg[k].payload == (TracePayload::FactAsserted {
            fact: #[trigger] o.assertions@[k],
        })
    &&& o.error is None ==> forall|k: int|
        0 <= k < o.retractions@.len() ==> seg[o.assertions@.len() + k].payload == (TracePayload::FactRetracted {
            key: (#[trigger] o.retractions@[k]).0,
            provenance: o.retractions@[k].1,
        })
    &&& seg.last().payload matches TracePayload::BehaviorFired { behavior, triggering_event, asserted, retracted, error }
    &&& behavior == b
    &&& triggering_event == e
    &&& error == o.error
    &&& asserted@ == (if o.error is Some {
        Seq::<FactKey>::empty()
    } else {
        o.assertions@.map_values(|f: Fact| f.key)
    })
    &&& retracted@ == (if o.error is Some {
        Seq::<FactKey>::empty()
    } else {
        o.retractions@.map_values(|r: (FactKey, Provenance)| r.0)
    })
}

/// `t` is the trace of the firings `outs` of the behaviors `ids` on
/// event `e`, one after another.
pub open spec fn records_firings(t: Seq<TraceEntry>, ids: Seq<BehaviorId>, e: EventId, outs: Seq<BehaviorOutputs>) -> bool
    decreases outs.len(),
{
    if outs.len() == 0 {
        t.len() == 0 && ids.len() == 0
    } else {
        let n = firing_len(outs.last());
        &&& ids.len() == outs.len()
        &&& n <= t.len()
        &&& records_firings(t.subrange(0, t.len() - n), ids.drop_last(), e, outs.drop_last())
        &&& records_firing(t.subrange(t.len() - n, t.len() as int), ids.last(), e, outs.last())
    }
}

/// The bound identities after a publish that did not drift: a
/// connection publishing for the first time is bound to its source.
pub open spec fn bound_after_publish(bound: Map<u64, ActorIdentity>, conn_id: u64, fact: Fact) -> Map<u64, ActorIdentity> {
    if bound.contains_key(conn_id) {
        bound
    } else {
        bound.insert(conn_id, fact.provenance.source)
    }
}

/// The claims after an accepted publish: a fresh family is claimed by
/// the publishing connection.
pub open spec fn claims_after_publish(
    claims: Map<ClaimKey, (u64, ActorIdentity)>,
    conn_id: u64,
    fact: Fact,
) -> Map<ClaimKey, (u64, ActorIdentity)> {
    if claims.contains_key(family_key(fact.key)) {
        claims
    } else {
        claims.insert(family_key(fact.key), (conn_id, fact.provenance.source))
    }
}

/// The key a trace entry retracts, if it is a retraction.
pub open spec fn retracted_view(e: TraceEntry) -> Option<KeyView> {
    match e.payload {
        TracePayload::FactRetracted { key, .. } => Some(key_view(key)),
        _ => None,
    }
}

/// The keys retracted by the entries of `t` from index `from` on, in
/// order.
pub open spec fn retracted_from(t: Seq<TraceEntry>, from: int) -> Seq<Option<KeyView>> {
    t.subrange(from, t.len() as int).map_values(|e: TraceEntry| retracted_view(e))
}

/// Every entry of `t` from index `from` on is a retraction by the core.
pub open spec fn core_retractions_from(t: Seq<TraceEntry>, from: int) -> bool {
    forall|j: int| from <= j < t.len() ==> ((#[trigger] t[j]).payload matches TracePayload::FactRetracted {
        provenance,
        ..
    } && provenance.source == ActorIdentity::Core && provenance.causal_parent is None)
}

impl Dispatcher {
    /// Release a connection that went away: retract, on behalf of the
    /// core, every fact it asserted; release its authority claims; forget
    /// its bound identity.
    pub fn release_connection(&mut self, conn_id: u64)
        ensures
            old(self).spec_trace().is_prefix_of(final(self).spec_trace()),
            core_retractions_from(final(self).spec_trace(), old(self).spec_trace().len() as int),
            retracted_from(final(self).spec_trace(), old(self).spec_trace().len() as int).no_duplicates(),
            forall|kv: KeyView| #[trigger] retracted_from(final(self).spec_trace(), old(self).spec_trace().len() as int).contains(Some(kv))
                <==> old(self).spec_owned().contains((conn_id, kv)),
            forall|kv: KeyView| #[trigger] final(self).spec_facts().contains_key(kv) <==> (old(self).spec_facts().contains_key(kv)
                && !old(self).spec_owned().contains((conn_id, kv))),
            forall|kv: KeyView| #[trigger] final(self).spec_facts().contains_key(kv) ==> final(self).spec_facts()[kv] == old(self).spec_facts()[kv],
            forall|p: (u64, KeyView)| #[trigger] final(self).spec_owned().contains(p) <==> (old(self).spec_owned().contains(p) && p.0 != conn_id),
            claims_released(old(self).spec_claims(), final(self).spec_claims(), conn_id),
            final(self).spec_bound() == old(self).spec_bound().remove(conn_id),
    {
        let ghost t0 = self.trace.spec_entries();
        let ghost m0 = self.fact_store.view_map();
        let ghost o0 = self.conn_facts.view_set();
        let keys = self.conn_facts.take_connection(conn_id);
        let ghost cf = self.conn_facts;
        let mut i: usize = 0;
        while i < keys.len()
            invariant
                i <= keys@.len(),
                self.conn_facts == cf,
                self.authority == old(self).authority,
                self.conn_identity == old(self).conn_identity,
                t0.is_prefix_of(self.trace.spec_entries()),
                core_retractions_from(self.trace.spec_entries(), t0.len() as int),
                retracted_from(self.trace.spec_entries(), t0.len() as int) == key_views(keys@.subrange(0, i as int)).map_values(
                    |kv: KeyView| Some(kv),
                ),
                forall|kv: KeyView| #[trigger] self.fact_store.view_map().contains_key(kv) <==> (m0.contains_key(kv)
                    && !key_views(keys@.subrange(0, i as int)).contains(kv)),
                forall|kv: KeyView| #[trigger] self.fact_store.view_map().contains_key(kv) ==> self.fact_store.view_map()[kv] == m0[kv],
            decreases keys@.len() - i,
        {
            let now = now_ns();
            let prov = Provenance { source: ActorIdentity::Core, timestamp_ns: now, causal_parent: None };
            let ghost t1 = self.trace.spec_entries();
            let ghost m1 = self.fact_store.view_map();
            self.trace.append(now, TracePayload::FactRetracted { key: keys[i].clone(), provenance: prov.clone() });
            let _ = self.fact_store.retract(&keys[i], prov);
            proof {
                assert(t1.is_prefix_of(self.trace.spec_entries()));
                assert(key_views(keys@.subrange(0, i + 1)) == key_views(keys@.subrange(0, i as int)).push(key_view(keys@[i as int])));
                assert(retracted_from(self.trace.spec_entries(), t0.len() as int) =~= retracted_from(t1, t0.len() as int).push(
                    Some(key_view(keys@[i as int])),
                ));
                assert(key_views(keys@.subrange(0, i + 1)).map_values(|kv: KeyView| Some(kv)) =~= key_views(
                    keys@.subrange(0, i as int),
                ).map_values(|kv: KeyView| Some(kv)).push(Some(key_view(keys@[i as int]))));
                assert forall|kv: KeyView| #[trigger] self.fact_store.view_map().contains_key(kv) <==> (m0.contains_key(kv)
                    && !key_views(keys@.subrange(0, i + 1)).contains(kv)) by {
                    let a = key_views(keys@.subrange(0, i as int));
                    let b = key_views(keys@.subrange(0, i + 1));
                    if a.contains(kv) {
                        let m = choose|m: int| 0 <= m < a.len() && a[m] == kv;
                        assert(b[m] == kv);
                    }
                    if b.contains(kv) && kv != key_view(keys@[i as int]) {
                        let m = choose|m: int| 0 <= m < b.len() && b[m] == kv;
                        assert(m < a.len());
                        assert(a[m] == kv);
                    }
                    if kv == key_view(keys@[i as int]) {
                        assert(b[i as int] == kv);
                    }
                }
            }
            i = i + 1;
        }
        proof {
            assert(keys@.subrange(0, keys@.len() as int) =~= keys@);
            let rk = retracted_from(self.trace.spec_entries(), t0.len() as int);
            let kvs = key_views(keys@);
            assert(rk == kvs.map_values(|kv: KeyView| Some(kv)));
            assert forall|a: int, b: int| 0 <= a < rk.len() && 0 <= b < rk.len() && a != b implies rk[a] != rk[b] by {
                assert(kvs[a] != kvs[b]);
            }
            assert forall|kv: KeyView| rk.contains(Some(kv)) <==> kvs.contains(kv) by {
                if rk.contains(Some(kv)) {
                    let m = choose|m: int| 0 <= m < rk.len() && rk[m] == Some(kv);
                    assert(kvs[m] == kv);
                }
                if kvs.contains(kv) {
                    let m = choose|m: int| 0 <= m < kvs.len() && kvs[m] == kv;
                    assert(rk[m] == Some(kv));
                }
            }
            assert forall|kv: KeyView| key_views(keys@).contains(kv) implies o0.contains((conn_id, kv)) by {
                let m = choose|m: int| 0 <= m < key_views(keys@).len() && key_views(keys@)[m] == kv;
                assert(o0.contains((conn_id, key_view(keys@[m]))));
            }
            assert forall|kv: KeyView| #[trigger] rk.contains(Some(kv)) <==> o0.contains((conn_id, kv)) by {
                if o0.contains((conn_id, kv)) {
                    assert(kvs.contains(kv));
                }
            }
        }
        self.authority.release_connection(conn_id);
        self.conn_identity.remove(conn_id);
    }

    /// Commit the outputs of one behavior firing: unless it reported an
    /// error, record and apply its assertions, then its retractions;
    /// always record the firing itself, naming the keys it touched.
    pub fn commit_firing(&mut self, behavior: BehaviorId, triggering_event: EventId, outputs: BehaviorOutputs)
        ensures
            old(self).spec_trace().is_prefix_of(final(self).spec_trace()),
            records_firing(
                final(self).spec_trace().subrange(old(self).spec_trace().len() as int, final(self).spec_trace().len() as int),
                behavior,
                triggering_event,
                outputs,
            ),
            final(self).spec_facts() == firing_effect(old(self).spec_facts(), outputs),
            final(self).spec_behaviors() == old(self).spec_behaviors(),
            final(self).spec_event_subscribers() == old(self).spec_event_subscribers(),
            final(self).spec_event_offers() == old(self).spec_event_offers(),
            final(self).spec_claims() == old(self).spec_claims(),
            final(self).spec_owned() == old(self).spec_owned(),
            final(self).spec_bound() == old(self).spec_bound(),
    {
        let ghost t0 = self.trace.spec_entries();
        let ghost m0 = self.fact_store.view_map();
        let ghost o = outputs;
        if outputs.error.is_some() {
            self.trace.append(
                now_ns(),
                TracePayload::BehaviorFired {
                    behavior,
                    triggering_event,
                    asserted: Vec::new(),
                    retracted: Vec::new(),
                    error: outputs.error,
                },
            );
            proof {
                let t = self.trace.spec_entries();
                assert(t0.is_prefix_of(t));
                assert(t.subrange(t0.len() as int, t.len() as int).last() == t.last());
            }
            return;
        }
        let mut asserted_keys: Vec<FactKey> = Vec::new();
        let mut i: usize = 0;
        while i < outputs.assertions.len()
            invariant
                o == outputs,
                i <= outputs.assertions@.len(),
                asserted_keys@ == outputs.assertions@.subrange(0, i as int).map_values(|f: Fact| f.key),
                t0.is_prefix_of(self.trace.spec_entries()),
                self.trace.spec_entries().len() == t0.len() + i,
                forall|k: int| 0 <= k < i ==> self.trace.spec_entries()[t0.len() + k].payload == (TracePayload::FactAsserted {
                    fact: #[trigger] outputs.assertions@[k],
                }),
                self.fact_store.view_map() == assert_all(m0, outputs.assertions@.subrange(0, i as int)),
                self.behaviors == old(self).behaviors,
                self.authority == old(self).authority,
                self.conn_facts == old(self).conn_facts,
                self.conn_identity == old(self).conn_identity,
                self.event_subscriptions == old(self).event_subscriptions,
            decreases outputs.assertions@.len() - i,
        {
            let fact = outputs.assertions[i].clone();
            let key = fact.key.clone();
            asserted_keys.push(key);
            let ghost t1 = self.trace.spec_entries();
            self.trace.append(now_ns(), TracePayload::FactAsserted { fact: fact.clone() });
            self.fact_store.assert_fact(fact);
            proof {
                assert(t1.is_prefix_of(self.trace.spec_entries()));
                assert(outputs.assertions@.subrange(0, i + 1).drop_last() =~= outputs.assertions@.subrange(0, i as int));
                assert(asserted_keys@ =~= outputs.assertions@.subrange(0, i + 1).map_values(|f: Fact| f.key));
                assert forall|k: int| 0 <= k < i + 1 implies self.trace.spec_entries()[t0.len() + k].payload
                    == (TracePayload::FactAsserted { fact: #[trigger] outputs.assertions@[k] }) by {
                    if k < i {
                        assert(self.trace.spec_entries()[t0.len() + k] == t1[t0.len() + k]);
                    }
                }
            }
            i = i + 1;
        }
        assert(outputs.assertions@.subrange(0, i as int) =~= outputs.assertions@);
        let ghost m1 = self.fact_store.view_map();
        let ghost na = outputs.assertions@.len();
        let mut retracted_keys: Vec<FactKey> = Vec::new();
        let mut j: usize = 0;
        while j < outputs.retractions.len()
            invariant
                o == outputs,
                na == outputs.assertions@.len(),
                outputs.error is None,
                j <= outputs.retractions@.len(),
                asserted_keys@ == outputs.assertions@.map_values(|f: Fact| f.key),
                retracted_keys@ == outputs.retractions@.subrange(0, j as int).map_values(|r: (FactKey, Provenance)| r.0),
                t0.is_prefix_of(self.trace.spec_entries()),
                self.trace.spec_entries().len() == t0.len() + na + j,
                forall|k: int| 0 <= k < na ==> self.trace.spec_entries()[t0.len() + k].payload == (TracePayload::FactAsserted {
                    fact: #[trigger] outputs.assertions@[k],
                }),
                forall|k: int| 0 <= k < j ==> self.trace.spec_entries()[t0.len() + na + k].payload == (TracePayload::FactRetracted {
                    key: (#[trigger] outputs.retractions@[k]).0,
                    provenance: outputs.retractions@[k].1,
                }),
                self.fact_store.view_map() == retract_all(m1, outputs.retractions@.subrange(0, j as int)),
                m1 == assert_all(m0, outputs.assertions@),
                self.behaviors == old(self).behaviors,
                self.authority == old(self).authority,
                self.conn_facts == old(self).conn_facts,
                self.conn_identity == old(self).conn_identity,
                self.event_subscriptions == old(self).event_subscriptions,
            decreases outputs.retractions@.len() - j,
        {
            let key = outputs.retractions[j].0.clone();
            let prov = outputs.retractions[j].1.clone();
            retracted_keys.push(key.clone());
            let ghost t1 = self.trace.spec_entries();
            self.trace.append(now_ns(), TracePayload::FactRetracted { key: key.clone(), provenance: prov.clone() });
            let _ = self.fact_store.retract(&key, prov);
            proof {
                assert(t1.is_prefix_of(self.trace.spec_entries()));
                assert(outputs.retractions@.subrange(0, j + 1).drop_last() =~= outputs.retractions@.subrange(0, j as int));
                assert(retracted_keys@ =~= outputs.retractions@.subrange(0, j + 1).map_values(
                    |r: (FactKey, Provenance)| r.0,
                ));
                assert forall|k: int| 0 <= k < na implies self.trace.spec_entries()[t0.len() + k].payload
                    == (TracePayload::FactAsserted { fact: #[trigger] outputs.assertions@[k] }) by {
                    assert(self.trace.spec_entries()[t0.len() + k] == t1[t0.len() + k]);
                }
                assert forall|k: int| 0 <= k < j + 1 implies self.trace.spec_entries()[t0.len() + na + k].payload
                    == (TracePayload::FactRetracted {
                    key: (#[trigger] outputs.retractions@[k]).0,
                    provenance: outputs.retractions@[k].1,
                }) by {
                    if k < j {
                        assert(self.trace.spec_entries()[t0.len() + na + k] == t1[t0.len() + na + k]);
                    }
                }
            }
            j = j + 1;
        }
        assert(outputs.retractions@.subrange(0, j as int) =~= outputs.retractions@);
        let ghost t2 = self.trace.spec_entries();
        self.trace.append(
            now_ns(),
            TracePayload::BehaviorFired {
                behavior,
                triggering_event,
                asserted: asserted_keys,
                retracted: retracted_keys,
                error: None,
            },
        );
        proof {
            let t = self.trace.spec_entries();
            assert(t0.is_prefix_of(t));
            let seg = t.subrange(t0.len() as int, t.len() as int);
            assert forall|k: int| 0 <= k < na implies seg[k].payload == (TracePayload::FactAsserted {
                fact: #[trigger] outputs.assertions@[k],
            }) by {
                assert(t[t0.len() + k] == t2[t0.len() + k]);
            }
            assert forall|k: int| 0 <= k < outputs.retractions@.len() implies seg[na + k].payload
                == (TracePayload::FactRetracted {
                key: (#[trigger] outputs.retractions@[k]).0,
                provenance: outputs.retractions@[k].1,
            }) by {
                assert(t[t0.len() + na + k] == t2[t0.len() + na + k]);
            }
            assert(seg.last() == t.last());
        }
    }

    /// Process one inbound event: record it in the trace, fire every
    /// registered behavior, in order, on it and commit each firing's
    /// outputs, then deliver the event to matching event subscribers.
    /// Every behavior fires with the same clock reading.
    pub fn process_event(&mut self, event: Event)
        ensures
            old(self).spec_trace().is_prefix_of(final(self).spec_trace()),
            final(self).spec_trace().len() > old(self).spec_trace().len(),
            (final(self).spec_trace()[old(self).spec_trace().len() as int].payload matches TracePayload::Event { event: e }
                && crate::types::event::same_event(e, event)),
            exists|now: u64|
                {
                    let outs = #[trigger] old(self).spec_fired(event, now);
                    &&& records_firings(
                        final(self).spec_trace().subrange(
                            (old(self).spec_trace().len() + 1) as int,
                            final(self).spec_trace().len() as int,
                        ),
                        old(self).spec_behavior_ids(),
                        event.id,
                        outs,
                    )
                    &&& final(self).spec_facts() == apply_firings(old(self).spec_facts(), outs)
                },
            final(self).spec_claims() == old(self).spec_claims(),
            final(self).spec_owned() == old(self).spec_owned(),
            final(self).spec_bound() == old(self).spec_bound(),
            final(self).spec_behaviors() == old(self).spec_behaviors(),
            final(self).spec_behavior_count() == old(self).spec_behavior_count(),
            crate::bus::event_subscriptions::offered_event(
                old(self).spec_event_offers(),
                final(self).spec_event_offers(),
                old(self).spec_event_subscribers(),
                event,
            ),
            old(self).spec_behavior_count() == 0 ==> final(self).spec_facts() == old(self).spec_facts()
                && final(self).spec_trace().len() == old(self).spec_trace().len() + 1,
    {
        let ghost m0 = self.fact_store.view_map();
        let ghost mut outs: Seq<BehaviorOutputs> = Seq::empty();
        let ghost t0 = self.trace.spec_entries();
        let now = now_ns();
        let ghost fired = self.spec_fired(event, now);
        let ghost ids = self.spec_behavior_ids();
        let _ = self.sequence.next();
        self.trace.append(now, TracePayload::Event { event: event.clone() });
        let ghost t1 = self.trace.spec_entries();
        proof {
            assert(self.trace.spec_entries().subrange(t1.len() as int, t1.len() as int) =~= Seq::<TraceEntry>::empty());
            assert(ids.subrange(0, 0) =~= Seq::<BehaviorId>::empty());
        }
        let mut i: usize = 0;
        while i < self.behaviors.len()
            invariant
                t0.is_prefix_of(t1),
                t1.len() == t0.len() + 1,
                (t1[t0.len() as int].payload matches TracePayload::Event { event: e } && crate::types::event::same_event(e, event)),
                t1.is_prefix_of(self.trace.spec_entries()),
                self.behaviors@ == old(self).behaviors@,
                self.spec_claims() == old(self).spec_claims(),
                self.spec_owned() == old(self).spec_owned(),
                self.spec_bound() == old(self).spec_bound(),
                fired == old(self).spec_fired(event, now),
                ids == old(self).spec_behavior_ids(),
                self.spec_event_subscribers() == old(self).spec_event_subscribers(),
                self.spec_event_offers() == old(self).spec_event_offers(),
                i <= self.behaviors@.len(),
                outs == fired.subrange(0, i as int),
                records_firings(
                    self.trace.spec_entries().subrange(t1.len() as int, self.trace.spec_entries().len() as int),
                    ids.subrange(0, i as int),
                    event.id,
                    outs,
                ),
                self.fact_store.view_map() == apply_firings(m0, outs),
                i == 0 ==> self.trace.spec_entries() == t1,
            decreases self.behaviors@.len() - i,
        {
            let outputs = self.behaviors[i].fire(&event, BehaviorContext { now_ns: now });
            let id = self.behaviors[i].id().clone();
            let ghost t2 = self.trace.spec_entries();
            let ghost o = outputs;
            let ghost m2 = self.fact_store.view_map();
            self.commit_firing(id, event.id, outputs);
            proof {
                let t3 = self.trace.spec_entries();
                assert(o == fired[i as int]);
                assert(id == ids[i as int]);
                assert(outs.push(o).drop_last() =~= outs);
                assert(fired.subrange(0, i + 1) =~= outs.push(o));
                assert(ids.subrange(0, i + 1).drop_last() =~= ids.subrange(0, i as int));
                let before = t2.subrange(t1.len() as int, t2.len() as int);
                let after = t3.subrange(t1.len() as int, t3.len() as int);
                let seg = t3.subrange(t2.len() as int, t3.len() as int);
                assert(after.subrange(0, after.len() - seg.len()) =~= before) by {
                    assert forall|k: int| 0 <= k < before.len() implies after[k] == before[k] by {
                        assert(t3[t1.len() + k] == t2[t1.len() + k]);
                    }
                }
                assert(after.subrange(after.len() - seg.len(), after.len() as int) =~= seg);
                outs = outs.push(o);
                assert(t1.is_prefix_of(t3)) by {
                    assert forall|k: int| 0 <= k < t1.len() implies t3[k] == t1[k] by {
                        assert(t2[k] == t1[k]);
                    }
                }
                assert(self.fact_store.view_map() == firing_effect(m2, o));
            }
            i = i + 1;
        }
        self.event_subscriptions.broadcast(&event);
        proof {
            assert(t0.is_prefix_of(self.trace.spec_entries())) by {
                assert forall|k: int| 0 <= k < t0.len() implies self.trace.spec_entries()[k] == t0[k] by {
                    assert(t1[k] == t0[k]);
                }
            }
            assert(fired.subrange(0, i as int) =~= fired);
            assert(ids.subrange(0, i as int) =~= ids);
            assert(m0 == old(self).spec_facts());
            assert(apply_firings(old(self).spec_facts(), fired) == self.spec_facts());
            assert(old(self).spec_fired(event, now) == fired);
        }
    }

    /// Register an event subscription.
    pub fn subscribe_events(&mut self, pattern: crate::types::message::EventSubscribePattern) -> (h:
        crate::bus::event_subscriptions::EventSubscriptionHandle)
        ensures
            same_records(&*final(self), &*old(self)),
            final(self).spec_event_subscribers().len() == old(self).spec_event_subscribers().len() + 1,
            final(self).spec_event_subscribers().drop_last() == old(self).spec_event_subscribers(),
            final(self).spec_event_subscribers().last().pattern == pattern,
    {
        self.event_subscriptions.subscribe(pattern)
    }

    /// Subscribe to fact notifications and take the snapshot to replay,
    /// both at one point of the fact store's history.
    pub fn subscribe_facts(&mut self, pattern: crate::types::message::SubscribePattern) -> (r: (
        crate::fact_space::FactSpaceSnapshot,
        crate::fact_space::SubscriptionHandle,
    ))
        ensures
            same_records(&*final(self), &*old(self)),
            r.0.view_map() == old(self).spec_facts(),
            final(self).spec_fact_subscribers().len() == old(self).spec_fact_subscribers().len() + 1,
            final(self).spec_fact_subscribers().drop_last() == old(self).spec_fact_subscribers(),
            final(self).spec_fact_subscribers().last().pattern == pattern,
    {
        let snap = self.fact_store.snapshot();
        let handle = self.fact_store.subscribe(pattern);
        proof {
            assert(self.fact_store.view_map() =~= old(self).fact_store.view_map());
        }
        (snap, handle)
    }
}

} // verus!
