use praetore_core::action::Action;
use praetore_core::authority::{Authority, Validity};
use praetore_core::authorization::AuthorizationRequest;
use praetore_core::decision::DecisionOutcome;
use praetore_core::engine::{AuthorizationEngine, FixedClock};
use praetore_core::error::PraetoreError;
use praetore_core::identity::{AgentId, AgentIdentity};
use praetore_core::policy::{Policy, PolicyEffect, PolicyRule};

fn test_agent() -> AgentIdentity {
    AgentIdentity::new(
        AgentId::new(),
        b"test-public-key".to_vec(),
        "ed25519",
    )
    .unwrap()
}

fn test_action() -> Action {
    Action::new(
        "read_data",
        Some("database".into()),
        "{\"table\":\"users\"}".to_string(),
    )
    .unwrap()
}

fn allow_policy() -> Policy {
    Policy::new(
        "test-policy",
        1,
        vec![PolicyRule::new("allow-read-data", "read_data", PolicyEffect::Allow)],
    )
}

fn request_with_validity(validity: Validity) -> AuthorizationRequest {
    let agent = test_agent();
    let authority = Authority::new(agent.id.clone(), "praetore-root", vec!["read_data".into()])
        .with_validity(validity);
    AuthorizationRequest::new(agent, authority, test_action()).unwrap()
}

#[test]
fn authority_within_validity_is_accepted() {
    let agent = test_agent();

    let authority = Authority::new(
        agent.id.clone(),
        "praetore-root",
        vec!["read_data".into()],
    )
    .with_validity(Validity {
        not_before: Some("2026-01-01T00:00:00Z".into()),
        not_after: Some("2026-12-31T23:59:59Z".into()),
    });

    let request = AuthorizationRequest::new(agent, authority, test_action()).unwrap();

    let engine = AuthorizationEngine::with_clock(
        allow_policy(),
        FixedClock::new("2026-06-01T12:00:00Z"),
    );

    assert!(engine.evaluate(request).is_ok());
}

#[test]
fn authority_at_not_before_is_accepted() {
    let agent = test_agent();

    let authority = Authority::new(
        agent.id.clone(),
        "praetore-root",
        vec!["read_data".into()],
    )
    .with_validity(Validity {
        not_before: Some("2026-07-01T00:00:00Z".into()),
        not_after: None,
    });

    let request = AuthorizationRequest::new(agent, authority, test_action()).unwrap();

    let engine = AuthorizationEngine::with_clock(
        allow_policy(),
        FixedClock::new("2026-07-01T00:00:00Z"),
    );

    assert!(engine.evaluate(request).is_ok());
}

#[test]
fn authority_at_not_after_is_accepted() {
    let agent = test_agent();

    let authority = Authority::new(
        agent.id.clone(),
        "praetore-root",
        vec!["read_data".into()],
    )
    .with_validity(Validity {
        not_before: None,
        not_after: Some("2026-07-01T00:00:00Z".into()),
    });

    let request = AuthorizationRequest::new(agent, authority, test_action()).unwrap();

    let engine = AuthorizationEngine::with_clock(
        allow_policy(),
        FixedClock::new("2026-07-01T00:00:00Z"),
    );

    assert!(engine.evaluate(request).is_ok());
}

#[test]
fn authority_not_yet_valid_is_rejected() {
    let agent = test_agent();

    let authority = Authority::new(
        agent.id.clone(),
        "praetore-root",
        vec!["read_data".into()],
    )
    .with_validity(Validity {
        not_before: Some("2026-07-01T00:00:00Z".into()),
        not_after: None,
    });

    let request = AuthorizationRequest::new(agent, authority, test_action()).unwrap();

    let engine = AuthorizationEngine::with_clock(
        allow_policy(),
        FixedClock::new("2026-06-01T12:00:00Z"),
    );

    assert!(matches!(
        engine.evaluate(request),
        Err(PraetoreError::AuthorityVerificationFailed)
    ));
}

#[test]
fn authority_expired_is_rejected() {
    let agent = test_agent();

    let authority = Authority::new(
        agent.id.clone(),
        "praetore-root",
        vec!["read_data".into()],
    )
    .with_validity(Validity {
        not_before: None,
        not_after: Some("2026-05-01T00:00:00Z".into()),
    });

    let request = AuthorizationRequest::new(agent, authority, test_action()).unwrap();

    let engine = AuthorizationEngine::with_clock(
        allow_policy(),
        FixedClock::new("2026-06-01T12:00:00Z"),
    );

    assert!(matches!(
        engine.evaluate(request),
        Err(PraetoreError::AuthorityVerificationFailed)
    ));
}

#[test]
fn allowed_request_yields_verifiable_allow_evidence() {
    let engine = AuthorizationEngine::with_clock(allow_policy(), FixedClock::new("2026-06-01T12:00:00Z"));
    let evidence = engine.evaluate(request_with_validity(Validity::unbounded())).unwrap();

    assert_eq!(evidence.outcome(), DecisionOutcome::Allow);
    assert_eq!(evidence.decision.contributions.len(), 1);
    assert_eq!(evidence.decision.contributions[0].rule_id, "allow-read-data");
    assert!(evidence.verify());
}

#[test]
fn undeclared_capability_is_denied_with_evidence() {
    let agent = test_agent();
    let authority = Authority::new(agent.id, "praetore-root", vec!["write_data".into()]);
    let request = AuthorizationRequest::new(agent, authority, test_action()).unwrap();
    let engine = AuthorizationEngine::with_clock(allow_policy(), FixedClock::new("2026-06-01T12:00:00Z"));
    let evidence = engine.evaluate(request).unwrap();

    assert_eq!(evidence.outcome(), DecisionOutcome::Deny);
    assert_eq!(evidence.decision.reason, "authority does not permit action type: read_data");
    assert!(evidence.decision.contributions.is_empty());
    assert!(evidence.verify());
}

#[test]
fn system_clock_engine_evaluates_within_wide_window() {
    let engine = AuthorizationEngine::new(allow_policy());
    let request = request_with_validity(Validity {
        not_before: Some("2000-01-01T00:00:00Z".into()),
        not_after: Some("2999-12-31T23:59:59Z".into()),
    });

    assert_eq!(engine.evaluate(request).unwrap().outcome(), DecisionOutcome::Allow);
    assert_eq!(engine.policy(), &allow_policy());
}

#[test]
fn system_clock_engine_rejects_past_window() {
    let engine = AuthorizationEngine::new(allow_policy());
    let request = request_with_validity(Validity {
        not_before: None,
        not_after: Some("2000-01-01T00:00:00Z".into()),
    });

    assert!(matches!(engine.evaluate(request), Err(PraetoreError::AuthorityVerificationFailed)));
}

#[test]
fn evaluate_at_uses_the_given_instant() {
    // 2026-07-01T00:00:00Z as Unix seconds.
    let start = 1_782_864_000i128 * 1_000_000_000;
    let engine = AuthorizationEngine::new(allow_policy());
    let validity = Validity { not_before: Some("2026-07-01T00:00:00Z".into()), not_after: None };

    assert!(engine.evaluate_at(request_with_validity(validity.clone()), start).is_ok());
    assert!(matches!(
        engine.evaluate_at(request_with_validity(validity), start - 1),
        Err(PraetoreError::AuthorityVerificationFailed)
    ));
}

#[test]
fn fixed_clock_rejects_invalid_timestamps() {
    assert!(FixedClock::try_new("not-a-timestamp").is_none());
    assert!(FixedClock::try_new("").is_none());
    assert!(FixedClock::try_new("2026-07-01T00:00:00Z").is_some());
}

#[test]
fn engine_reports_invalid_authority_and_policy() {
    let agent = test_agent();
    let authority = Authority::new(agent.id, "praetore-root", vec!["read_data".into()]);
    let mut request = AuthorizationRequest::new(agent, authority, test_action()).unwrap();
    request.authority.version = 0;
    let engine = AuthorizationEngine::with_clock(allow_policy(), FixedClock::new("2026-06-01T12:00:00Z"));
    assert!(matches!(engine.evaluate(request), Err(PraetoreError::InvalidRequest(_))));

    let broken = AuthorizationEngine::with_clock(
        Policy::new("", 1, vec![]),
        FixedClock::new("2026-06-01T12:00:00Z"),
    );
    assert!(matches!(
        broken.evaluate(request_with_validity(Validity::unbounded())),
        Err(PraetoreError::PolicyEvaluationFailed(_))
    ));
}

#[test]
fn engine_attestation_rechecks_identity() {
    let mut request = request_with_validity(Validity::unbounded());
    request.agent.key_algorithm = " ed25519".into();
    let engine = AuthorizationEngine::with_clock(allow_policy(), FixedClock::new("2026-06-01T12:00:00Z"));

    assert!(matches!(engine.evaluate(request), Err(PraetoreError::InvalidIdentity(_))));
}
