use praetore_core::action::Action;
use praetore_core::authority::Authority;
use praetore_core::authorization::AuthorizationRequest;
use praetore_core::decision::{Decision, DecisionOutcome};
use praetore_core::error::PraetoreError;
use praetore_core::identity::{AgentId, AgentIdentity};

fn test_agent() -> AgentIdentity {
    AgentIdentity::new(AgentId::new(), b"test-public-key".to_vec(), "ed25519").unwrap()
}

fn test_action() -> Action {
    Action::new(
        "read_data",
        Some("database".into()),
        "{\"table\":\"users\"}".to_string(),
    )
    .unwrap()
}

fn test_request() -> AuthorizationRequest {
    let agent = test_agent();
    let authority = Authority::new(agent.id.clone(), "praetore-root", vec!["read:data".into()]);

    AuthorizationRequest::new(agent, authority, test_action()).unwrap()
}

#[test]
fn creates_authorization_request() {
    let request = test_request();

    assert!(!uuid::Uuid::from_u128(request.request_id).is_nil());
    assert_eq!(request.agent.id, request.authority.subject);
}

#[test]
fn creates_unique_request_ids() {
    let first = test_request();
    let second = test_request();

    assert_ne!(first.request_id, second.request_id);
}

#[test]
fn attest_creates_verifiable_evidence() {
    let request = test_request();

    let evidence = request
        .attest(Decision::allow("policy permitted action"))
        .unwrap();

    assert_eq!(evidence.decision.outcome, DecisionOutcome::Allow);
    assert!(evidence.verify());
}

#[test]
fn attest_preserves_request_id() {
    let request = test_request();
    let request_id = request.request_id;

    let evidence = request
        .attest(Decision::deny("policy rejected action"))
        .unwrap();

    assert_eq!(evidence.request_id, request_id);
}

#[test]
fn attest_preserves_trace_id() {
    let request = test_request().with_trace_id("trace-001").unwrap();

    let evidence = request
        .attest(Decision::allow("policy permitted action"))
        .unwrap();

    assert_eq!(evidence.trace_id.as_deref(), Some("trace-001"));
    assert!(evidence.verify());
}

#[test]
fn rejects_mismatched_authority() {
    let agent = test_agent();
    let other_agent = test_agent();

    let authority = Authority::new(
        other_agent.id.clone(),
        "praetore-root",
        vec!["read:data".into()],
    );

    let result = AuthorizationRequest::new(agent, authority, test_action());

    assert!(result.is_err());
}

#[test]
fn rejects_invalid_authority() {
    let agent = test_agent();

    let mut authority =
        Authority::new(agent.id.clone(), "praetore-root", vec!["read:data".into()]);

    authority.issuer = String::new();

    let result = AuthorizationRequest::new(agent, authority, test_action());

    assert!(matches!(
        result,
        Err(PraetoreError::InvalidRequest(_))
    ));
}

#[test]
fn rejects_invalid_action() {
    let agent = test_agent();
    let authority = Authority::new(agent.id.clone(), "praetore-root", vec!["read:data".into()]);

    let action = Action {
        action_type: "   ".into(),
        target: None,
        parameters: "{}".to_string(),
    };

    let result = AuthorizationRequest::new(agent, authority, action);

    assert!(matches!(
        result,
        Err(PraetoreError::InvalidRequest(_))
    ));
}

#[test]
fn trace_id_can_be_attached() {
    let request = test_request().with_trace_id("trace-001").unwrap();

    assert_eq!(request.trace_id.as_deref(), Some("trace-001"));
}

#[test]
fn rejects_empty_trace_id() {
    let result = test_request().with_trace_id("");

    assert!(matches!(
        result,
        Err(PraetoreError::InvalidRequest(_))
    ));
}

#[test]
fn rejects_whitespace_trace_id() {
    let result = test_request().with_trace_id("   ");

    assert!(matches!(
        result,
        Err(PraetoreError::InvalidRequest(_))
    ));
}

#[test]
fn attest_rejects_tampered_identity() {
    let mut request = test_request();
    request.agent.public_key.clear();

    let result = request.attest(Decision::allow("policy permitted action"));

    assert!(matches!(
        result,
        Err(PraetoreError::InvalidIdentity(_))
    ));
}

#[test]
fn attest_rejects_tampered_authority() {
    let mut request = test_request();
    request.authority.issuer.clear();

    let result = request.attest(Decision::allow("policy permitted action"));

    assert!(matches!(
        result,
        Err(PraetoreError::InvalidRequest(_))
    ));
}

#[test]
fn attest_rejects_tampered_action() {
    let mut request = test_request();
    request.action.action_type = "   ".into();

    let result = request.attest(Decision::allow("policy permitted action"));

    assert!(matches!(
        result,
        Err(PraetoreError::InvalidRequest(_))
    ));
}

#[test]
fn attest_rejects_tampered_subject_binding() {
    let mut request = test_request();
    request.agent.id = AgentId::new();

    let result = request.attest(Decision::allow("policy permitted action"));

    assert!(matches!(
        result,
        Err(PraetoreError::InvalidRequest(_))
    ));
}

#[test]
fn attest_rejects_tampered_trace_id() {
    let mut request = test_request().with_trace_id("trace-001").unwrap();
    request.trace_id = Some("   ".into());

    let result = request.attest(Decision::allow("policy permitted action"));

    assert!(matches!(
        result,
        Err(PraetoreError::InvalidRequest(_))
    ));
}

#[test]
fn request_errors_carry_their_messages() {
    let agent = test_agent();
    let authority = Authority::new(AgentId::new(), "root", vec!["read:data".into()]);
    match AuthorizationRequest::new(agent, authority, test_action()) {
        Err(PraetoreError::InvalidRequest(m)) => {
            assert_eq!(m, "authority subject does not match agent identity")
        },
        other => panic!("unexpected result: {:?}", other),
    }
    match test_request().with_trace_id("\t") {
        Err(PraetoreError::InvalidRequest(m)) => assert_eq!(m, "trace id cannot be empty"),
        other => panic!("unexpected result: {:?}", other),
    }
}

#[test]
fn attested_evidence_binds_the_whole_request() {
    let request = test_request().with_trace_id("trace-7").unwrap();
    let copy = request.clone();
    let evidence = request.attest(Decision::require_approval("review")).unwrap();

    assert_eq!(evidence.request_id, copy.request_id);
    assert_eq!(evidence.agent, copy.agent);
    assert_eq!(evidence.authority.id, copy.authority.id);
    assert_eq!(evidence.action.action_type, copy.action.action_type);
    assert_eq!(evidence.decision, Decision::require_approval("review"));
    assert_eq!(evidence.outcome(), DecisionOutcome::RequireApproval);
    assert!(evidence.verify());
    assert_ne!(evidence.evidence_id, evidence.request_id);
}
