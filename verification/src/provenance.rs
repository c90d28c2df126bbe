//! Provenance carried by every fact, event and trace entry: who acted,
//! when, and because of which event.

use vstd::prelude::*;
use crate::text::{chars_of, hex_fixed, push_hex_fixed};
use crate::types::ids::{BehaviorId, EventId};

verus! {

/// Provenance metadata attached to every fact, event and trace entry.
#[derive(Debug, PartialEq, Eq)]
pub struct Provenance {
    pub source: ActorIdentity,
    /// Nanoseconds timestamp of the action.
    pub timestamp_ns: u64,
    pub causal_parent: Option<EventId>,
}

/// The originating actor of a bus message or trace entry.
#[derive(Debug, PartialEq, Eq)]
pub enum ActorIdentity {
    /// The core process itself.
    Core,
    /// A registered in-core behavior firing.
    Behavior { id: BehaviorId },
    /// The TUI client.
    Tui,
    /// A governed service on the bus, with its stable service id and the
    /// 128 bits of its per-invocation instance UUID.
    Service { service_id: String, instance_id: u128 },
    /// A human user.
    User,
    /// A language host proxying user code.
    Host { host_id: String, hosted_origin: HostedOrigin },
    /// An agent delegated powers, optionally on behalf of another actor.
    Agent { agent_id: String, on_behalf_of: Option<Box<ActorIdentity>> },
}

/// Origin of language-hosted user code.
#[derive(Debug, PartialEq, Eq)]
pub struct HostedOrigin {
    pub file: String,
    pub location: Option<String>,
    pub runtime_version: String,
}

/// Why an actor identity is malformed.
#[derive(Debug, PartialEq, Eq)]
pub enum ProvenanceError {
    EmptyServiceId,
    NonKebabCaseServiceId(String),
    EmptyIdentityField { field: &'static str },
}

/// A character allowed in a kebab-case identifier.
pub open spec fn kebab_char(c: char) -> bool {
    ('a' <= c && c <= 'z') || ('0' <= c && c <= '9') || c == '-'
}

/// Non-empty; lowercase ASCII letters, digits and `-` only; no
/// leading, trailing or consecutive hyphens.
pub open spec fn is_kebab_case(s: Seq<char>) -> bool {
    &&& s.len() > 0
    &&& s[0] != '-'
    &&& s[s.len() - 1] != '-'
    &&& forall|i: int| 0 <= i < s.len() ==> kebab_char(#[trigger] s[i])
    &&& forall|i: int| 0 <= i && i + 1 < s.len() ==> !(#[trigger] s[i] == '-' && s[i + 1] == '-')
}

/// `e` is the error reported for the non-kebab-case identifier `s`.
pub open spec fn kebab_error(s: Seq<char>, e: ProvenanceError) -> bool {
    if s.len() == 0 {
        e is EmptyServiceId
    } else {
        e matches ProvenanceError::NonKebabCaseServiceId(t) && t@ == s
    }
}

/// `e` names the empty identity field `name`.
pub open spec fn empty_field_error(e: ProvenanceError, name: Seq<char>) -> bool {
    e matches ProvenanceError::EmptyIdentityField { field } && field@ == name
}

/// The structural invariants an identity carries hold, recursively.
pub open spec fn identity_valid(a: ActorIdentity) -> bool
    decreases a,
{
    match a {
        ActorIdentity::Service { service_id, .. } => is_kebab_case(service_id@),
        ActorIdentity::Behavior { id } => id.0@.len() > 0,
        ActorIdentity::Host { host_id, hosted_origin } => host_id@.len() > 0
            && hosted_origin.file@.len() > 0 && hosted_origin.runtime_version@.len() > 0,
        ActorIdentity::Agent { agent_id, on_behalf_of } => agent_id@.len() > 0 && match on_behalf_of {
            Some(inner) => identity_valid(*inner),
            None => true,
        },
        _ => true,
    }
}

/// `e` is the error reported for the first broken invariant of `a`.
pub open spec fn identity_error(a: ActorIdentity, e: ProvenanceError) -> bool
    decreases a,
{
    match a {
        ActorIdentity::Service { service_id, .. } => kebab_error(service_id@, e),
        ActorIdentity::Behavior { .. } => empty_field_error(e, "behavior-id"@),
        ActorIdentity::Host { host_id, hosted_origin } => if host_id@.len() == 0 {
            empty_field_error(e, "host-id"@)
        } else if hosted_origin.file@.len() == 0 {
            empty_field_error(e, "hosted-origin.file"@)
        } else {
            empty_field_error(e, "hosted-origin.runtime-version"@)
        },
        ActorIdentity::Agent { agent_id, on_behalf_of } => if agent_id@.len() == 0 {
            empty_field_error(e, "agent-id"@)
        } else {
            match on_behalf_of {
                Some(inner) => identity_error(*inner, e),
                None => false,
            }
        },
        _ => false,
    }
}

/// Two optional strings hold the same text.
pub open spec fn same_opt_string(a: Option<String>, b: Option<String>) -> bool {
    match a {
        None => b is None,
        Some(x) => b matches Some(y) && x@ == y@,
    }
}

/// Two identities are the same actor: same variant, same texts, same
/// instance, recursively.
pub open spec fn same_actor(a: ActorIdentity, b: ActorIdentity) -> bool
    decreases a,
{
    match a {
        ActorIdentity::Core => b is Core,
        ActorIdentity::Tui => b is Tui,
        ActorIdentity::User => b is User,
        ActorIdentity::Behavior { id } => b matches ActorIdentity::Behavior { id: id2 } && id.0@ == id2.0@,
        ActorIdentity::Service { service_id, instance_id } => b matches ActorIdentity::Service {
            service_id: s2,
            instance_id: i2,
        } && service_id@ == s2@ && instance_id == i2,
        ActorIdentity::Host { host_id, hosted_origin } => b matches ActorIdentity::Host {
            host_id: h2,
            hosted_origin: o2,
        } && host_id@ == h2@ && hosted_origin.file@ == o2.file@
            && same_opt_string(hosted_origin.location, o2.location)
            && hosted_origin.runtime_version@ == o2.runtime_version@,
        ActorIdentity::Agent { agent_id, on_behalf_of } => b matches ActorIdentity::Agent {
            agent_id: a2,
            on_behalf_of: ob2,
        } && agent_id@ == a2@ && match on_behalf_of {
            None => ob2 is None,
            Some(x) => ob2 matches Some(y) && same_actor(*x, *y),
        },
    }
}

/// Short kind label of an identity.
pub open spec fn spec_kind_label(a: ActorIdentity) -> Seq<char> {
    match a {
        ActorIdentity::Core => "core"@,
        ActorIdentity::Behavior { .. } => "behavior"@,
        ActorIdentity::Tui => "tui"@,
        ActorIdentity::Service { .. } => "service"@,
        ActorIdentity::User => "user"@,
        ActorIdentity::Host { .. } => "host"@,
        ActorIdentity::Agent { .. } => "agent"@,
    }
}

/// Diagnostic rendering that identifies the actor, not just its kind.
/// A service shows the first eight hex digits of its instance id.
pub open spec fn spec_identifying_label(a: ActorIdentity) -> Seq<char> {
    match a {
        ActorIdentity::Core => "core"@,
        ActorIdentity::Tui => "tui"@,
        ActorIdentity::User => "user"@,
        ActorIdentity::Behavior { id } => "behavior "@ + id.0@,
        ActorIdentity::Service { service_id, instance_id } => "service "@ + service_id@ + " (inst "@
            + hex_fixed(instance_id as nat / 0x1_0000_0000_0000_0000_0000_0000, 8) + ")"@,
        ActorIdentity::Host { host_id, .. } => "host "@ + host_id@,
        ActorIdentity::Agent { agent_id, .. } => "agent "@ + agent_id@,
    }
}

/// Human-readable message of a provenance error.
pub open spec fn spec_provenance_error_message(e: ProvenanceError) -> Seq<char> {
    match e {
        ProvenanceError::EmptyServiceId => "service identifier must be non-empty"@,
        ProvenanceError::NonKebabCaseServiceId(s) => "service identifier \""@ + s@ + "\" must be kebab-case"@,
        ProvenanceError::EmptyIdentityField { field } => field@
            + " must be non-empty: identity payloads are validated uniformly so malformed frames cannot poison trace or inspection output"@,
    }
}

impl Clone for HostedOrigin {
    fn clone(&self) -> (r: Self)
        ensures
            r == *self,
    {
        let location = match &self.location {
            Some(l) => Some(l.clone()),
            None => None,
        };
        HostedOrigin { file: self.file.clone(), location, runtime_version: self.runtime_version.clone() }
    }
}

impl Clone for ActorIdentity {
    fn clone(&self) -> (r: Self)
        ensures
            r == *self,
        decreases self,
    {
        match self {
            ActorIdentity::Core => ActorIdentity::Core,
            ActorIdentity::Tui => ActorIdentity::Tui,
            ActorIdentity::User => ActorIdentity::User,
            ActorIdentity::Behavior { id } => ActorIdentity::Behavior { id: id.clone() },
            ActorIdentity::Service { service_id, instance_id } => ActorIdentity::Service {
                service_id: service_id.clone(),
                instance_id: *instance_id,
            },
            ActorIdentity::Host { host_id, hosted_origin } => ActorIdentity::Host {
                host_id: host_id.clone(),
                hosted_origin: hosted_origin.clone(),
            },
            ActorIdentity::Agent { agent_id, on_behalf_of } => {
                let inner = match on_behalf_of {
                    Some(b) => Some(Box::new((&**b).clone())),
                    None => None,
                };
                ActorIdentity::Agent { agent_id: agent_id.clone(), on_behalf_of: inner }
            },
        }
    }
}

impl Clone for Provenance {
    fn clone(&self) -> (r: Self)
        ensures
            r == *self,
    {
        Provenance { source: self.source.clone(), timestamp_ns: self.timestamp_ns, causal_parent: self.causal_parent }
    }
}

impl Clone for ProvenanceError {
    fn clone(&self) -> (r: Self)
        ensures
            r == *self,
    {
        match self {
            ProvenanceError::EmptyServiceId => ProvenanceError::EmptyServiceId,
            ProvenanceError::NonKebabCaseServiceId(s) => ProvenanceError::NonKebabCaseServiceId(s.clone()),
            ProvenanceError::EmptyIdentityField { field } => ProvenanceError::EmptyIdentityField { field: *field },
        }
    }
}

fn is_kebab_char(c: char) -> (r: bool)
    ensures
        r == kebab_char(c),
{
    ('a' <= c && c <= 'z') || ('0' <= c && c <= '9') || c == '-'
}

/// Check that `id` is non-empty kebab-case.
pub fn validate_kebab_case(id: &str) -> (r: Result<(), ProvenanceError>)
    ensures
        r is Ok <==> is_kebab_case(id@),
        r is Err ==> kebab_error(id@, r->Err_0),
{
    let cs = chars_of(id);
    let n = cs.len();
    if n == 0 {
        return Err(ProvenanceError::EmptyServiceId);
    }
    if cs[0] == '-' || cs[n - 1] == '-' {
        return Err(ProvenanceError::NonKebabCaseServiceId(id.to_owned()));
    }
    let mut i: usize = 0;
    while i < n
        invariant
            n == cs@.len(),
            cs@ == id@,
            i <= n,
            forall|j: int| 0 <= j < i ==> kebab_char(#[trigger] cs@[j]),
            forall|j: int| 0 <= j < i && j + 1 < n ==> !(#[trigger] cs@[j] == '-' && cs@[j + 1] == '-'),
        decreases n - i,
    {
        if !is_kebab_char(cs[i]) {
            return Err(ProvenanceError::NonKebabCaseServiceId(id.to_owned()));
        }
        if i + 1 < n && cs[i] == '-' && cs[i + 1] == '-' {
            return Err(ProvenanceError::NonKebabCaseServiceId(id.to_owned()));
        }
        i = i + 1;
    }
    Ok(())
}

impl ActorIdentity {
    /// Construct a `Service` identity after validating its service id
    /// (non-empty kebab-case).
    pub fn service(service_id: String, instance_id: u128) -> (r: Result<Self, ProvenanceError>)
        ensures
            r is Ok <==> is_kebab_case(service_id@),
            r matches Ok(v) ==> v == (ActorIdentity::Service { service_id, instance_id }),
            r is Err ==> kebab_error(service_id@, r->Err_0),
    {
        match validate_kebab_case(service_id.as_str()) {
            Ok(()) => Ok(ActorIdentity::Service { service_id, instance_id }),
            Err(e) => Err(e),
        }
    }

    /// The `Behavior` identity of a behavior id.
    pub fn behavior(id: BehaviorId) -> (r: Self)
        ensures
            r == (ActorIdentity::Behavior { id }),
    {
        ActorIdentity::Behavior { id }
    }

    /// Short, human-readable kind label (not a wire format).
    pub fn kind_label(&self) -> (r: &'static str)
        ensures
            r@ == spec_kind_label(*self),
    {
        match self {
            ActorIdentity::Core => "core",
            ActorIdentity::Behavior { .. } => "behavior",
            ActorIdentity::Tui => "tui",
            ActorIdentity::Service { .. } => "service",
            ActorIdentity::User => "user",
            ActorIdentity::Host { .. } => "host",
            ActorIdentity::Agent { .. } => "agent",
        }
    }

    /// Diagnostic rendering that identifies the actor.
    pub fn identifying_label(&self) -> (s: String)
        ensures
            s@ == spec_identifying_label(*self),
    {
        match self {
            ActorIdentity::Core => String::from_str("core"),
            ActorIdentity::Tui => String::from_str("tui"),
            ActorIdentity::User => String::from_str("user"),
            ActorIdentity::Behavior { id } => {
                let mut s = String::from_str("behavior ");
                s.append(id.0.as_str());
                s
            },
            ActorIdentity::Service { service_id, instance_id } => {
                let mut s = String::from_str("service ");
                s.append(service_id.as_str());
                s.append(" (inst ");
                push_hex_fixed(&mut s, *instance_id / 0x1_0000_0000_0000_0000_0000_0000, 8);
                s.append(")");
                s
            },
            ActorIdentity::Host { host_id, .. } => {
                let mut s = String::from_str("host ");
                s.append(host_id.as_str());
                s
            },
            ActorIdentity::Agent { agent_id, .. } => {
                let mut s = String::from_str("agent ");
                s.append(agent_id.as_str());
                s
            },
        }
    }

    /// Re-check the structural invariants of an identity (the wire gate
    /// for identities that bypassed the constructors). Nested
    /// delegators are checked recursively.
    pub fn validate(&self) -> (r: Result<(), ProvenanceError>)
        ensures
            r is Ok <==> identity_valid(*self),
            r is Err ==> identity_error(*self, r->Err_0),
        decreases self,
    {
        match self {
            ActorIdentity::Service { service_id, .. } => validate_kebab_case(service_id.as_str()),
            ActorIdentity::Behavior { id } => {
                if id.0.as_str().is_empty() {
                    Err(ProvenanceError::EmptyIdentityField { field: "behavior-id" })
                } else {
                    Ok(())
                }
            },
            ActorIdentity::Host { host_id, hosted_origin } => {
                if host_id.as_str().is_empty() {
                    return Err(ProvenanceError::EmptyIdentityField { field: "host-id" });
                }
                if hosted_origin.file.as_str().is_empty() {
                    return Err(ProvenanceError::EmptyIdentityField { field: "hosted-origin.file" });
                }
                if hosted_origin.runtime_version.as_str().is_empty() {
                    return Err(ProvenanceError::EmptyIdentityField { field: "hosted-origin.runtime-version" });
                }
                Ok(())
            },
            ActorIdentity::Agent { agent_id, on_behalf_of } => {
                if agent_id.as_str().is_empty() {
                    return Err(ProvenanceError::EmptyIdentityField { field: "agent-id" });
                }
                match on_behalf_of {
                    Some(inner) => (&**inner).validate(),
                    None => Ok(()),
                }
            },
            ActorIdentity::Core | ActorIdentity::Tui | ActorIdentity::User => Ok(()),
        }
    }

    /// Whether two identities are the same actor.
    pub fn same_as(&self, other: &ActorIdentity) -> (r: bool)
        ensures
            r == same_actor(*self, *other),
        decreases self,
    {
        match self {
            ActorIdentity::Core => matches!(other, ActorIdentity::Core),
            ActorIdentity::Tui => matches!(other, ActorIdentity::Tui),
            ActorIdentity::User => matches!(other, ActorIdentity::User),
            ActorIdentity::Behavior { id } => match other {
                ActorIdentity::Behavior { id: id2 } => id.0 == id2.0,
                _ => false,
            },
            ActorIdentity::Service { service_id, instance_id } => match other {
                ActorIdentity::Service { service_id: s2, instance_id: i2 } => *service_id == *s2 && *instance_id == *i2,
                _ => false,
            },
            ActorIdentity::Host { host_id, hosted_origin } => match other {
                ActorIdentity::Host { host_id: h2, hosted_origin: o2 } => {
                    let loc_eq = match (&hosted_origin.location, &o2.location) {
                        (None, None) => true,
                        (Some(x), Some(y)) => *x == *y,
                        _ => false,
                    };
                    *host_id == *h2 && hosted_origin.file == o2.file && loc_eq
                        && hosted_origin.runtime_version == o2.runtime_version
                },
                _ => false,
            },
            ActorIdentity::Agent { agent_id, on_behalf_of } => match other {
                ActorIdentity::Agent { agent_id: a2, on_behalf_of: ob2 } => {
                    if !(*agent_id == *a2) {
                        return false;
                    }
                    match (on_behalf_of, ob2) {
                        (None, None) => true,
                        (Some(x), Some(y)) => (&**x).same_as(&**y),
                        _ => false,
                    }
                },
                _ => false,
            },
        }
    }
}

impl ProvenanceError {
    /// Human-readable message.
    pub fn to_display_string(&self) -> (s: String)
        ensures
            s@ == spec_provenance_error_message(*self),
    {
        match self {
            ProvenanceError::EmptyServiceId => String::from_str("service identifier must be non-empty"),
            ProvenanceError::NonKebabCaseServiceId(id) => {
                let mut s = String::from_str("service identifier \"");
                s.append(id.as_str());
                s.append("\" must be kebab-case");
                s
            },
            ProvenanceError::EmptyIdentityField { field } => {
                let mut s = String::from_str(*field);
                s.append(
                    " must be non-empty: identity payloads are validated uniformly so malformed frames cannot poison trace or inspection output",
                );
                s
            },
        }
    }
}

impl Provenance {
    /// Construct a provenance after re-validating the identity.
    pub fn new(source: ActorIdentity, timestamp_ns: u64, causal_parent: Option<EventId>) -> (r: Result<
        Self,
        ProvenanceError,
    >)
        ensures
            r is Ok <==> identity_valid(source),
            r matches Ok(p) ==> p == (Provenance { source, timestamp_ns, causal_parent }),
            r is Err ==> identity_error(source, r->Err_0),
    {
        match source.validate() {
            Ok(()) => Ok(Provenance { source, timestamp_ns, causal_parent }),
            Err(e) => Err(e),
        }
    }
}

} // verus!
