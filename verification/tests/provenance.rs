use weaver::provenance::{validate_kebab_case, ActorIdentity, HostedOrigin, Provenance, ProvenanceError};
use weaver::types::ids::{BehaviorId, EventId};

fn service(id: &str, inst: u128) -> Result<ActorIdentity, ProvenanceError> {
    ActorIdentity::service(id.to_string(), inst)
}

#[test]
fn rejects_empty_service_id() {
    assert_eq!(service("", 0).unwrap_err(), ProvenanceError::EmptyServiceId);
}

#[test]
fn rejects_non_kebab_case_service_id() {
    assert!(service("GitWatcher", 0).is_err());
    assert!(service("git_watcher", 0).is_err());
    assert!(service("-git-watcher", 0).is_err());
    assert!(service("git-watcher-", 0).is_err());
    assert!(service("git--watcher", 0).is_err());
    assert!(service("git watcher", 0).is_err());
    assert_eq!(
        service("GitWatcher", 0).unwrap_err(),
        ProvenanceError::NonKebabCaseServiceId("GitWatcher".into())
    );
}

#[test]
fn accepts_kebab_case_service_id() {
    assert!(service("git-watcher", 0x1234_5678_9abc_def0_1234_5678_9abc_def0).is_ok());
    assert!(service("a", 0).is_ok());
    assert!(service("weaver-cli", 0).is_ok());
    assert!(service("abc-123-xyz", 0).is_ok());
}

#[test]
fn kebab_case_allows_digits_anywhere() {
    assert!(validate_kebab_case("a1-2b").is_ok());
    assert!(validate_kebab_case("1abc").is_ok());
    assert!(validate_kebab_case("abc-").is_err());
    assert_eq!(validate_kebab_case("").unwrap_err(), ProvenanceError::EmptyServiceId);
}

#[test]
fn validate_rejects_empty_behavior_id() {
    let id = ActorIdentity::behavior(BehaviorId::new(String::new()));
    assert_eq!(
        id.validate().unwrap_err(),
        ProvenanceError::EmptyIdentityField { field: "behavior-id" }
    );
}

#[test]
fn validate_rejects_empty_host_id() {
    let id = ActorIdentity::Host {
        host_id: "".into(),
        hosted_origin: HostedOrigin {
            file: "script.lua".into(),
            location: None,
            runtime_version: "5.4.7".into(),
        },
    };
    assert_eq!(id.validate().unwrap_err(), ProvenanceError::EmptyIdentityField { field: "host-id" });
}

#[test]
fn validate_rejects_empty_hosted_origin_file() {
    let id = ActorIdentity::Host {
        host_id: "lua".into(),
        hosted_origin: HostedOrigin {
            file: "".into(),
            location: None,
            runtime_version: "5.4.7".into(),
        },
    };
    assert_eq!(
        id.validate().unwrap_err(),
        ProvenanceError::EmptyIdentityField { field: "hosted-origin.file" }
    );
}

#[test]
fn validate_rejects_empty_hosted_runtime_version() {
    let id = ActorIdentity::Host {
        host_id: "lua".into(),
        hosted_origin: HostedOrigin {
            file: "script.lua".into(),
            location: None,
            runtime_version: "".into(),
        },
    };
    assert_eq!(
        id.validate().unwrap_err(),
        ProvenanceError::EmptyIdentityField { field: "hosted-origin.runtime-version" }
    );
}

#[test]
fn validate_rejects_empty_agent_id() {
    let id = ActorIdentity::Agent { agent_id: "".into(), on_behalf_of: None };
    assert_eq!(id.validate().unwrap_err(), ProvenanceError::EmptyIdentityField { field: "agent-id" });
}

#[test]
fn validate_recurses_into_agent_on_behalf_of() {
    let malformed_delegator = ActorIdentity::Service { service_id: "".into(), instance_id: 5 };
    let id = ActorIdentity::Agent {
        agent_id: "researcher".into(),
        on_behalf_of: Some(Box::new(malformed_delegator)),
    };
    assert_eq!(id.validate().unwrap_err(), ProvenanceError::EmptyServiceId);
}

#[test]
fn validate_accepts_well_formed_reserved_variants() {
    assert!(ActorIdentity::User.validate().is_ok());
    let host = ActorIdentity::Host {
        host_id: "lua".into(),
        hosted_origin: HostedOrigin {
            file: "script.lua".into(),
            location: Some("line 7".into()),
            runtime_version: "5.4.7".into(),
        },
    };
    assert!(host.validate().is_ok());
    let agent = ActorIdentity::Agent {
        agent_id: "researcher".into(),
        on_behalf_of: Some(Box::new(ActorIdentity::User)),
    };
    assert!(agent.validate().is_ok());
}

#[test]
fn accepts_valid_sources() {
    assert!(Provenance::new(ActorIdentity::Core, 0, None).is_ok());
    assert!(Provenance::new(ActorIdentity::Tui, 1, None).is_ok());
    assert!(Provenance::new(
        ActorIdentity::behavior(BehaviorId::new("core/dirty-tracking".into())),
        2,
        Some(EventId::new(7)),
    )
    .is_ok());
    let svc = service("git-watcher", 99).unwrap();
    assert!(Provenance::new(svc, 3, None).is_ok());
}

#[test]
fn provenance_new_rejects_malformed_identity() {
    let bad = ActorIdentity::Service { service_id: "Bad".into(), instance_id: 1 };
    assert_eq!(
        Provenance::new(bad, 3, None).unwrap_err(),
        ProvenanceError::NonKebabCaseServiceId("Bad".into())
    );
    let p = Provenance::new(ActorIdentity::User, 11, Some(EventId::new(4))).unwrap();
    assert_eq!(p.timestamp_ns, 11);
    assert_eq!(p.causal_parent, Some(EventId::new(4)));
    assert_eq!(p.source, ActorIdentity::User);
}

#[test]
fn kind_label_matches_serde_tag() {
    assert_eq!(ActorIdentity::Core.kind_label(), "core");
    assert_eq!(ActorIdentity::Tui.kind_label(), "tui");
    assert_eq!(ActorIdentity::User.kind_label(), "user");
    assert_eq!(ActorIdentity::behavior(BehaviorId::new("x".into())).kind_label(), "behavior");
    assert_eq!(service("s", 0).unwrap().kind_label(), "service");
    assert_eq!(ActorIdentity::Agent { agent_id: "a".into(), on_behalf_of: None }.kind_label(), "agent");
}

#[test]
fn identifying_label_names_the_actor() {
    assert_eq!(ActorIdentity::Core.identifying_label(), "core");
    assert_eq!(
        ActorIdentity::behavior(BehaviorId::new("core/dirty-tracking".into())).identifying_label(),
        "behavior core/dirty-tracking"
    );
    assert_eq!(
        service("weaver-buffers", 0x0123_4567_89ab_cdef_0000_0000_0000_0001)
            .unwrap()
            .identifying_label(),
        "service weaver-buffers (inst 01234567)"
    );
    assert_eq!(
        ActorIdentity::Agent { agent_id: "researcher".into(), on_behalf_of: None }.identifying_label(),
        "agent researcher"
    );
}

#[test]
fn same_as_compares_structurally() {
    let a = service("git-watcher", 1).unwrap();
    assert!(a.same_as(&service("git-watcher", 1).unwrap()));
    assert!(!a.same_as(&service("git-watcher", 2).unwrap()));
    assert!(!a.same_as(&ActorIdentity::Core));
    let ag1 = ActorIdentity::Agent { agent_id: "r".into(), on_behalf_of: Some(Box::new(ActorIdentity::User)) };
    let ag2 = ActorIdentity::Agent { agent_id: "r".into(), on_behalf_of: Some(Box::new(ActorIdentity::Tui)) };
    assert!(!ag1.same_as(&ag2));
    assert!(ag1.same_as(&ag1.clone()));
}

#[test]
fn provenance_error_messages() {
    assert_eq!(ProvenanceError::EmptyServiceId.to_display_string(), "service identifier must be non-empty");
    assert_eq!(
        ProvenanceError::NonKebabCaseServiceId("X".into()).to_display_string(),
        "service identifier \"X\" must be kebab-case"
    );
    assert!(ProvenanceError::EmptyIdentityField { field: "agent-id" }
        .to_display_string()
        .starts_with("agent-id must be non-empty"));
}
