use praetore_core::action::Action;
use praetore_core::authority::{Authority, Validity};
use praetore_core::canonical::context_json;
use praetore_core::decision::{Decision, DecisionContribution, DecisionOutcome};
use praetore_core::evidence::Evidence;
use praetore_core::identity::{AgentId, AgentIdentity};
use serde_json::Value;
use sha2::Digest;

fn text(x: &str) -> Value {
    Value::String(x.to_string())
}

fn opt_text(x: &Option<String>) -> Value {
    match x {
        Some(s) => text(s),
        None => Value::Null,
    }
}

fn uuid_value(v: u128) -> Value {
    text(&uuid::Uuid::from_u128(v).hyphenated().to_string())
}

fn object(pairs: Vec<(&str, Value)>) -> Value {
    let mut map = serde_json::Map::new();
    for (k, v) in pairs {
        map.insert(k.to_string(), v);
    }
    Value::Object(map)
}

fn outcome_value(o: DecisionOutcome) -> Value {
    text(match o {
        DecisionOutcome::Allow => "Allow",
        DecisionOutcome::RequireApproval => "RequireApproval",
        DecisionOutcome::Deny => "Deny",
    })
}

/// The payload as `serde_json` builds it from the derived representations.
fn serde_payload(
    request_id: u128,
    agent: &AgentIdentity,
    authority: &Authority,
    action: &Action,
    decision: &Decision,
    trace_id: &Option<String>,
) -> Vec<u8> {
    let action_value = object(vec![
        ("action_type", text(&action.action_type)),
        ("target", opt_text(&action.target)),
        ("parameters", serde_json::from_str::<Value>(&action.parameters).unwrap()),
    ]);
    let agent_value = object(vec![
        ("id", uuid_value(agent.id.as_uuid())),
        ("public_key", Value::Array(agent.public_key.iter().map(|b| Value::from(*b)).collect())),
        ("key_algorithm", text(&agent.key_algorithm)),
    ]);
    let authority_value = object(vec![
        ("id", uuid_value(authority.id.0)),
        ("subject", uuid_value(authority.subject.0)),
        ("capabilities", Value::Array(authority.capabilities.iter().map(|c| text(c)).collect())),
        (
            "constraints",
            Value::Array(
                authority
                    .constraints
                    .iter()
                    .map(|c| object(vec![("key", text(&c.key)), ("value", text(&c.value))]))
                    .collect(),
            ),
        ),
        ("issuer", text(&authority.issuer)),
        (
            "validity",
            object(vec![
                ("not_before", opt_text(&authority.validity.not_before)),
                ("not_after", opt_text(&authority.validity.not_after)),
            ]),
        ),
        ("version", Value::from(authority.version)),
    ]);
    let decision_value = object(vec![
        ("outcome", outcome_value(decision.outcome)),
        ("reason", text(&decision.reason)),
        (
            "contributions",
            Value::Array(
                decision
                    .contributions
                    .iter()
                    .map(|c| {
                        object(vec![
                            ("rule_id", text(&c.rule_id)),
                            ("outcome", outcome_value(c.outcome)),
                            ("reason", text(&c.reason)),
                        ])
                    })
                    .collect(),
            ),
        ),
    ]);
    let payload = object(vec![
        ("request_id", uuid_value(request_id)),
        ("agent", agent_value),
        ("authority", authority_value),
        ("action", action_value),
        ("decision", decision_value),
        ("trace_id", opt_text(trace_id)),
    ]);
    serde_json::to_vec(&payload).unwrap()
}

fn sample() -> (u128, AgentIdentity, Authority, Action, Decision, Option<String>) {
    let agent = AgentIdentity::new(AgentId::new(), vec![0, 7, 255, 16], "ed25519").unwrap();
    let mut authority = Authority::new(
        agent.id,
        "root \"quoted\" \\ back\nslash\ttab\u{1}\u{1f}\u{7f} é ✓ 😀",
        vec!["read:data".into(), "x\u{8}\u{c}\r".into()],
    )
    .with_constraint("environment", "pro\"duction")
    .with_validity(Validity {
        not_before: Some("2026-01-01T00:00:00Z".into()),
        not_after: None,
    });
    authority.version = 4_294_967_295;
    let action = Action::new(
        "read_data",
        Some("data\u{0}base".into()),
        serde_json::to_string(
            &serde_json::from_str::<Value>("{\"z\": [1, 2.5, null], \"a\": {\"k\": \"v\\\"\"}}")
                .unwrap(),
        )
        .unwrap(),
    )
    .unwrap();
    let decision = Decision::deny("blocked")
        .with_contribution(DecisionContribution::new("r1", DecisionOutcome::Deny, "because"))
        .with_contribution(DecisionContribution::new("r2", DecisionOutcome::RequireApproval, ""));
    (0x0123_4567_89ab_cdef_fedc_ba98_7654_3210, agent, authority, action, decision, Some("trace".into()))
}

#[test]
fn context_text_matches_serde_json() {
    let (request_id, agent, authority, action, decision, trace_id) = sample();
    let ours = context_json(request_id, &agent, &authority, &action, &decision, &trace_id);
    let theirs = serde_payload(request_id, &agent, &authority, &action, &decision, &trace_id);

    assert_eq!(String::from_utf8(ours.clone()).unwrap(), String::from_utf8(theirs.clone()).unwrap());
    assert_eq!(ours, theirs);
}

#[test]
fn context_text_matches_serde_json_for_empty_collections() {
    let agent = AgentIdentity::new(AgentId(0), vec![1], "k").unwrap();
    let authority = Authority::new(AgentId(u128::MAX), "i", vec![]);
    let action = Action::new("t", None, "null".to_string()).unwrap();
    let decision = Decision::allow("");
    let ours = context_json(0, &agent, &authority, &action, &decision, &None);
    let theirs = serde_payload(0, &agent, &authority, &action, &decision, &None);

    assert_eq!(ours, theirs);
}

#[test]
fn context_hash_is_sha256_hex_of_context_text() {
    let (request_id, agent, authority, action, decision, trace_id) = sample();
    let text = context_json(request_id, &agent, &authority, &action, &decision, &trace_id);
    let expected = hex::encode(sha2::Sha256::digest(&text));
    let evidence = Evidence::new(request_id, agent, authority, action, decision, trace_id);

    assert_eq!(evidence.context_hash, expected);
    assert!(evidence.verify());
}

#[test]
fn known_uuid_is_hyphenated_lowercase() {
    let agent = AgentIdentity::new(AgentId(0xa1a2a3a4_b1b2_c1c2_d1d2_d3d4d5d6d7d8), vec![1], "k")
        .unwrap();
    let authority = Authority::new(agent.id, "i", vec![]);
    let action = Action::new("t", None, "null".to_string()).unwrap();
    let text = context_json(1, &agent, &authority, &action, &Decision::allow("r"), &None);
    let text = String::from_utf8(text).unwrap();

    assert!(text.contains("\"id\":\"a1a2a3a4-b1b2-c1c2-d1d2-d3d4d5d6d7d8\""));
    assert!(text.ends_with("\"request_id\":\"00000000-0000-0000-0000-000000000001\",\"trace_id\":null}"));
}
