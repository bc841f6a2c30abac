use praetore_core::action::Action;
use praetore_core::authority::Authority;
use praetore_core::decision::{Decision, DecisionOutcome};
use praetore_core::evidence::Evidence;
use praetore_core::identity::{AgentId, AgentIdentity};

fn new_uuid() -> u128 {
    uuid::Uuid::new_v4().as_u128()
}

fn test_agent() -> AgentIdentity {
    AgentIdentity::new(AgentId::new(), b"test-public-key".to_vec(), "ed25519").unwrap()
}

fn test_authority(agent: &AgentIdentity) -> Authority {
    Authority::new(agent.id.clone(), "praetore-root", vec!["read:data".into()])
}

fn test_action() -> Action {
    Action::new(
        "read_data",
        Some("database".into()),
        "{\"table\":\"users\"}".to_string(),
    )
    .unwrap()
}

fn test_decision() -> Decision {
    Decision::allow("policy permitted action")
}

fn test_evidence() -> Evidence {
    let agent = test_agent();
    let authority = test_authority(&agent);

    Evidence::new(
        new_uuid(),
        agent,
        authority,
        test_action(),
        test_decision(),
        None,
    )
}

#[test]
fn creates_evidence_with_unique_id() {
    let first = test_evidence();
    let second = test_evidence();

    assert_ne!(first.evidence_id, second.evidence_id);
}

#[test]
fn evidence_verifies_after_creation() {
    let evidence = test_evidence();

    assert!(evidence.verify());
}

#[test]
fn evidence_exposes_decision_outcome() {
    let evidence = test_evidence();

    assert_eq!(evidence.outcome(), DecisionOutcome::Allow);
}

#[test]
fn trace_id_is_preserved_in_evidence() {
    let agent = test_agent();
    let authority = test_authority(&agent);

    let evidence = Evidence::new(
        new_uuid(),
        agent,
        authority,
        test_action(),
        test_decision(),
        Some("trace-001".into()),
    );

    assert_eq!(evidence.trace_id.as_deref(), Some("trace-001"));
    assert!(evidence.verify());
}

#[test]
fn tampering_with_trace_id_invalidates_evidence() {
    let agent = test_agent();
    let authority = test_authority(&agent);

    let mut evidence = Evidence::new(
        new_uuid(),
        agent,
        authority,
        test_action(),
        test_decision(),
        Some("trace-001".into()),
    );

    evidence.trace_id = Some("trace-999".into());

    assert!(!evidence.verify());
}

#[test]
fn tampering_with_action_invalidates_evidence() {
    let mut evidence = test_evidence();

    evidence.action = Action::new(
        "delete_data",
        Some("database".into()),
        "{\"table\":\"users\"}".to_string(),
    )
    .unwrap();

    assert!(!evidence.verify());
}

#[test]
fn tampering_with_request_id_invalidates_evidence() {
    let mut evidence = test_evidence();

    evidence.request_id = new_uuid();

    assert!(!evidence.verify());
}

#[test]
fn tampering_with_agent_invalidates_evidence() {
    let mut evidence = test_evidence();

    evidence.agent.public_key = b"tampered-public-key".to_vec();

    assert!(!evidence.verify());
}

#[test]
fn tampering_with_authority_invalidates_evidence() {
    let mut evidence = test_evidence();

    evidence.authority.issuer = "tampered-issuer".into();

    assert!(!evidence.verify());
}

#[test]
fn tampering_with_decision_invalidates_evidence() {
    let mut evidence = test_evidence();

    evidence.decision = Decision::deny("policy rejected action");

    assert!(!evidence.verify());
}

#[test]
fn tampering_with_hash_invalidates_evidence() {
    let mut evidence = test_evidence();

    evidence.context_hash = evidence.context_hash.to_uppercase();

    assert!(!evidence.verify());
}

#[test]
fn evidence_id_does_not_enter_the_hash() {
    let mut evidence = test_evidence();

    evidence.evidence_id = new_uuid();

    assert!(evidence.verify());
}

#[test]
fn context_hash_is_lowercase_hex_sha256() {
    let evidence = test_evidence();

    assert_eq!(evidence.context_hash.len(), 64);
    assert!(evidence
        .context_hash
        .chars()
        .all(|c| c.is_ascii_digit() || ('a'..='f').contains(&c)));
}

#[test]
fn tampering_with_key_algorithm_invalidates_evidence() {
    let mut evidence = test_evidence();

    evidence.agent.key_algorithm = "rsa".into();

    assert!(!evidence.verify());
}

#[test]
fn tampering_with_agent_id_invalidates_evidence() {
    let mut evidence = test_evidence();

    evidence.agent.id = AgentId::new();

    assert!(!evidence.verify());
}

#[test]
fn tampering_with_authority_capabilities_invalidates_evidence() {
    let mut evidence = test_evidence();

    evidence.authority.capabilities.push("delete:data".into());

    assert!(!evidence.verify());
}

#[test]
fn tampering_with_authority_constraints_invalidates_evidence() {
    let mut evidence = test_evidence();

    evidence.authority = evidence.authority.clone().with_constraint("region", "eu");

    assert!(!evidence.verify());
}

#[test]
fn tampering_with_authority_version_invalidates_evidence() {
    let mut evidence = test_evidence();

    evidence.authority.version += 1;

    assert!(!evidence.verify());
}

#[test]
fn tampering_with_authority_validity_invalidates_evidence() {
    let mut evidence = test_evidence();

    evidence.authority.validity.not_after = Some("2030-01-01T00:00:00Z".into());

    assert!(!evidence.verify());
}

#[test]
fn tampering_with_action_target_invalidates_evidence() {
    let mut evidence = test_evidence();

    evidence.action.target = None;

    assert!(!evidence.verify());
}

#[test]
fn tampering_with_action_parameters_invalidates_evidence() {
    let mut evidence = test_evidence();

    evidence.action.parameters = "{\"table\":\"accounts\"}".to_string();

    assert!(!evidence.verify());
}

#[test]
fn tampering_with_decision_contributions_invalidates_evidence() {
    let mut evidence = test_evidence();

    evidence.decision = evidence.decision.clone().with_contribution(
        praetore_core::decision::DecisionContribution::new(
            "allow-read",
            DecisionOutcome::Allow,
            "read permitted",
        ),
    );

    assert!(!evidence.verify());
}
