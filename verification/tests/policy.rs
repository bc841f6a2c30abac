use praetore_core::action::Action;
use praetore_core::authority::Authority;
use praetore_core::decision::DecisionOutcome;
use praetore_core::error::PraetoreError;
use praetore_core::identity::{AgentId, AgentIdentity};
use praetore_core::policy::{Policy, PolicyEffect, PolicyRule};

fn test_agent() -> AgentIdentity {
    let id = AgentId::new();

    AgentIdentity::new(id, b"test-public-key".to_vec(), "ed25519").unwrap()
}

fn test_action() -> Action {
    Action::new(
        "read_data",
        Some("database".into()),
        "{\"table\":\"users\"}".to_string(),
    )
    .unwrap()
}

fn evaluation_message(r: Result<praetore_core::decision::Decision, PraetoreError>) -> String {
    match r {
        Err(PraetoreError::PolicyEvaluationFailed(m)) => m,
        other => panic!("unexpected result: {:?}", other),
    }
}

#[test]
fn policy_allows_matching_rule() {
    let agent = test_agent();
    let authority = Authority::new(agent.id.clone(), "praetore-root", vec!["read:data".into()]);

    let policy = Policy::new(
        "production",
        1,
        vec![PolicyRule::new(
            "allow-read",
            "read_data",
            PolicyEffect::Allow,
        )],
    );

    let decision = policy.evaluate(&agent, &authority, &test_action()).unwrap();

    assert_eq!(decision.outcome, DecisionOutcome::Allow);
    assert_eq!(decision.contributions.len(), 1);
    assert_eq!(decision.contributions[0].rule_id, "allow-read");
}

#[test]
fn policy_denies_matching_rule() {
    let agent = test_agent();
    let authority = Authority::new(agent.id.clone(), "praetore-root", vec!["read:data".into()]);

    let policy = Policy::new(
        "production",
        1,
        vec![PolicyRule::new(
            "deny-read",
            "read_data",
            PolicyEffect::Deny,
        )],
    );

    let decision = policy.evaluate(&agent, &authority, &test_action()).unwrap();

    assert_eq!(decision.outcome, DecisionOutcome::Deny);
    assert_eq!(decision.contributions.len(), 1);
    assert_eq!(decision.contributions[0].rule_id, "deny-read");
}

#[test]
fn policy_requires_approval() {
    let agent = test_agent();
    let authority = Authority::new(agent.id.clone(), "praetore-root", vec!["read:data".into()]);

    let policy = Policy::new(
        "production",
        1,
        vec![PolicyRule::new(
            "approval-read",
            "read_data",
            PolicyEffect::RequireApproval,
        )],
    );

    let decision = policy.evaluate(&agent, &authority, &test_action()).unwrap();

    assert_eq!(decision.outcome, DecisionOutcome::RequireApproval);
    assert_eq!(decision.contributions.len(), 1);
    assert_eq!(decision.contributions[0].rule_id, "approval-read");
}

#[test]
fn unmatched_rule_denies_by_default() {
    let agent = test_agent();
    let authority = Authority::new(agent.id.clone(), "praetore-root", vec!["read:data".into()]);

    let policy = Policy::new(
        "production",
        1,
        vec![PolicyRule::new(
            "allow-write",
            "write_data",
            PolicyEffect::Allow,
        )],
    );

    let decision = policy.evaluate(&agent, &authority, &test_action()).unwrap();

    assert_eq!(decision.outcome, DecisionOutcome::Deny);
    assert!(decision.contributions.is_empty());
}

#[test]
fn capability_constraint_denies_when_capability_is_missing() {
    let agent = test_agent();
    let authority = Authority::new(agent.id.clone(), "praetore-root", vec!["read:data".into()]);

    let policy = Policy::new(
        "production",
        1,
        vec![
            PolicyRule::new("allow-read", "read_data", PolicyEffect::Allow)
                .with_capability("admin:data"),
        ],
    );

    let decision = policy.evaluate(&agent, &authority, &test_action()).unwrap();

    assert_eq!(decision.outcome, DecisionOutcome::Deny);
    assert!(decision.contributions.is_empty());
}

#[test]
fn target_constraint_is_enforced() {
    let agent = test_agent();
    let authority = Authority::new(agent.id.clone(), "praetore-root", vec!["read:data".into()]);

    let policy = Policy::new(
        "production",
        1,
        vec![
            PolicyRule::new("deny-database", "read_data", PolicyEffect::Deny)
                .with_target("database"),
        ],
    );

    let decision = policy.evaluate(&agent, &authority, &test_action()).unwrap();

    assert_eq!(decision.outcome, DecisionOutcome::Deny);
    assert_eq!(decision.contributions.len(), 1);
}

#[test]
fn deny_beats_allow_when_multiple_rules_match() {
    let agent = test_agent();
    let authority = Authority::new(agent.id.clone(), "praetore-root", vec!["read:data".into()]);

    let policy = Policy::new(
        "production",
        1,
        vec![
            PolicyRule::new("allow-read", "read_data", PolicyEffect::Allow),
            PolicyRule::new("deny-read", "read_data", PolicyEffect::Deny),
        ],
    );

    let decision = policy.evaluate(&agent, &authority, &test_action()).unwrap();

    assert_eq!(decision.outcome, DecisionOutcome::Deny);
    assert_eq!(decision.contributions.len(), 2);
}

#[test]
fn approval_beats_allow_when_multiple_rules_match() {
    let agent = test_agent();
    let authority = Authority::new(agent.id.clone(), "praetore-root", vec!["read:data".into()]);

    let policy = Policy::new(
        "production",
        1,
        vec![
            PolicyRule::new("allow-read", "read_data", PolicyEffect::Allow),
            PolicyRule::new("approval-read", "read_data", PolicyEffect::RequireApproval),
        ],
    );

    let decision = policy.evaluate(&agent, &authority, &test_action()).unwrap();

    assert_eq!(decision.outcome, DecisionOutcome::RequireApproval);
    assert_eq!(decision.contributions.len(), 2);
}

#[test]
fn deny_beats_approval_when_multiple_rules_match() {
    let agent = test_agent();
    let authority = Authority::new(agent.id.clone(), "praetore-root", vec!["read:data".into()]);

    let policy = Policy::new(
        "production",
        1,
        vec![
            PolicyRule::new("approval-read", "read_data", PolicyEffect::RequireApproval),
            PolicyRule::new("deny-read", "read_data", PolicyEffect::Deny),
        ],
    );

    let decision = policy.evaluate(&agent, &authority, &test_action()).unwrap();

    assert_eq!(decision.outcome, DecisionOutcome::Deny);
    assert_eq!(decision.contributions.len(), 2);
}

#[test]
fn decision_is_independent_of_rule_order() {
    let agent = test_agent();
    let authority = Authority::new(agent.id.clone(), "praetore-root", vec!["read:data".into()]);

    let first = Policy::new(
        "production",
        1,
        vec![
            PolicyRule::new("allow-read", "read_data", PolicyEffect::Allow),
            PolicyRule::new("deny-read", "read_data", PolicyEffect::Deny),
        ],
    );

    let second = Policy::new(
        "production",
        1,
        vec![
            PolicyRule::new("deny-read", "read_data", PolicyEffect::Deny),
            PolicyRule::new("allow-read", "read_data", PolicyEffect::Allow),
        ],
    );

    let first_decision = first.evaluate(&agent, &authority, &test_action()).unwrap();
    let second_decision = second.evaluate(&agent, &authority, &test_action()).unwrap();

    assert_eq!(first_decision.outcome, DecisionOutcome::Deny);
    assert_eq!(second_decision.outcome, DecisionOutcome::Deny);
}

#[test]
fn policy_allow_combined_with_allow_remains_allow() {
    let agent = test_agent();
    let authority = Authority::new(agent.id.clone(), "praetore-root", vec!["read:data".into()]);

    let policy = Policy::new(
        "production",
        1,
        vec![
            PolicyRule::new("allow-read-1", "read_data", PolicyEffect::Allow),
            PolicyRule::new("allow-read-2", "read_data", PolicyEffect::Allow),
        ],
    );

    let decision = policy.evaluate(&agent, &authority, &test_action()).unwrap();

    assert_eq!(decision.outcome, DecisionOutcome::Allow);
    assert_eq!(decision.contributions.len(), 2);
}

#[test]
fn deny_combined_with_deny_remains_deny() {
    let agent = test_agent();
    let authority = Authority::new(agent.id.clone(), "praetore-root", vec!["read:data".into()]);

    let policy = Policy::new(
        "production",
        1,
        vec![
            PolicyRule::new("deny-read-1", "read_data", PolicyEffect::Deny),
            PolicyRule::new("deny-read-2", "read_data", PolicyEffect::Deny),
        ],
    );

    let decision = policy.evaluate(&agent, &authority, &test_action()).unwrap();

    assert_eq!(decision.outcome, DecisionOutcome::Deny);
    assert_eq!(decision.contributions.len(), 2);
}

#[test]
fn policy_rejects_empty_id() {
    let policy = Policy::new("", 1, vec![]);

    assert!(policy.validate().is_err());
}

#[test]
fn policy_rejects_zero_version() {
    let policy = Policy::new("production", 0, vec![]);

    assert!(policy.validate().is_err());
}

#[test]
fn policy_evaluate_rejects_empty_id() {
    let agent = test_agent();
    let authority = Authority::new(agent.id.clone(), "praetore-root", vec!["read:data".into()]);

    let policy = Policy::new(
        "",
        1,
        vec![PolicyRule::new(
            "allow-read",
            "read_data",
            PolicyEffect::Allow,
        )],
    );

    let result = policy.evaluate(&agent, &authority, &test_action());

    assert!(matches!(
        result,
        Err(PraetoreError::PolicyEvaluationFailed(_))
    ));
}

#[test]
fn policy_evaluate_rejects_zero_version() {
    let agent = test_agent();
    let authority = Authority::new(agent.id.clone(), "praetore-root", vec!["read:data".into()]);

    let policy = Policy::new(
        "production",
        0,
        vec![PolicyRule::new(
            "allow-read",
            "read_data",
            PolicyEffect::Allow,
        )],
    );

    let result = policy.evaluate(&agent, &authority, &test_action());

    assert!(matches!(
        result,
        Err(PraetoreError::PolicyEvaluationFailed(_))
    ));
}

#[test]
fn decision_reasons_name_the_policy_or_rule() {
    let agent = test_agent();
    let authority = Authority::new(agent.id, "root", vec!["read:data".into()]);

    let none = Policy::new("production", 12, vec![]);
    let decision = none.evaluate(&agent, &authority, &test_action()).unwrap();
    assert_eq!(decision.reason, "Policy 'production' v12: no matching rule; default deny");

    let allow = Policy::new(
        "production",
        3,
        vec![PolicyRule::new("allow-read", "read_data", PolicyEffect::Allow)],
    );
    let decision = allow.evaluate(&agent, &authority, &test_action()).unwrap();
    assert_eq!(decision.reason, "Policy 'production' v3: no matching rule");
    assert_eq!(decision.contributions[0].reason, "Policy rule 'allow-read' matched");
    assert_eq!(decision.contributions[0].outcome, DecisionOutcome::Allow);

    let mixed = Policy::new(
        "production",
        1,
        vec![
            PolicyRule::new("allow-read", "read_data", PolicyEffect::Allow),
            PolicyRule::new("approve-1", "read_data", PolicyEffect::RequireApproval),
            PolicyRule::new("approve-2", "read_data", PolicyEffect::RequireApproval),
        ],
    );
    let decision = mixed.evaluate(&agent, &authority, &test_action()).unwrap();
    assert_eq!(decision.outcome, DecisionOutcome::RequireApproval);
    assert_eq!(decision.reason, "Policy rule 'approve-1' matched");
    let ids: Vec<&str> = decision.contributions.iter().map(|c| c.rule_id.as_str()).collect();
    assert_eq!(ids, vec!["allow-read", "approve-1", "approve-2"]);
}

#[test]
fn capability_and_target_conditions_select_rules() {
    let agent = test_agent();
    let authority = Authority::new(agent.id, "root", vec!["admin:data".into()]);
    let policy = Policy::new(
        "p",
        1,
        vec![
            PolicyRule::new("deny-other-target", "read_data", PolicyEffect::Deny)
                .with_target("archive"),
            PolicyRule::new("allow-admin", "read_data", PolicyEffect::Allow)
                .with_capability("admin:data")
                .with_target("database"),
        ],
    );
    let decision = policy.evaluate(&agent, &authority, &test_action()).unwrap();
    assert_eq!(decision.outcome, DecisionOutcome::Allow);
    assert_eq!(decision.contributions.len(), 1);
    assert_eq!(decision.contributions[0].rule_id, "allow-admin");

    let untargeted = Action::new("read_data", None, "{}".to_string()).unwrap();
    let decision = policy.evaluate(&agent, &authority, &untargeted).unwrap();
    assert_eq!(decision.outcome, DecisionOutcome::Deny);
    assert!(decision.contributions.is_empty());
}

#[test]
fn invalid_rules_fail_evaluation_with_their_messages() {
    let agent = test_agent();
    let authority = Authority::new(agent.id, "root", vec!["read:data".into()]);
    let check = |rule: PolicyRule| {
        let policy = Policy::new("p", 1, vec![PolicyRule::new("ok", "x", PolicyEffect::Allow), rule]);
        evaluation_message(policy.evaluate(&agent, &authority, &test_action()))
    };

    assert_eq!(
        check(PolicyRule::new(" ", "read_data", PolicyEffect::Allow)),
        "policy rule id cannot be empty"
    );
    assert_eq!(
        check(PolicyRule::new("r1", "", PolicyEffect::Allow)),
        "policy rule 'r1' has empty action_type"
    );
    assert_eq!(
        check(PolicyRule::new("r2", "read_data", PolicyEffect::Allow).with_capability(" ")),
        "policy rule 'r2' has empty capability"
    );
    assert_eq!(
        check(PolicyRule::new("r3", "read_data", PolicyEffect::Allow).with_target("\n")),
        "policy rule 'r3' has empty target"
    );
    assert_eq!(
        evaluation_message(
            Policy::new(" ", 1, vec![]).evaluate(&agent, &authority, &test_action())
        ),
        "policy id cannot be empty"
    );
    assert_eq!(
        evaluation_message(
            Policy::new("p", 0, vec![]).evaluate(&agent, &authority, &test_action())
        ),
        "policy version must be greater than zero"
    );
}

#[test]
fn order_independence_on_three_effects() {
    let agent = test_agent();
    let authority = Authority::new(agent.id, "root", vec!["read:data".into()]);
    let rules = [
        PolicyRule::new("a", "read_data", PolicyEffect::Allow),
        PolicyRule::new("r", "read_data", PolicyEffect::RequireApproval),
        PolicyRule::new("d", "read_data", PolicyEffect::Deny),
    ];
    let orders = [[0, 1, 2], [0, 2, 1], [1, 0, 2], [1, 2, 0], [2, 0, 1], [2, 1, 0]];
    for order in orders {
        let policy = Policy::new("p", 1, order.iter().map(|i| rules[*i].clone()).collect());
        let decision = policy.evaluate(&agent, &authority, &test_action()).unwrap();
        assert_eq!(decision.outcome, DecisionOutcome::Deny);
        assert_eq!(decision.reason, "Policy rule 'd' matched");
    }
}

#[test]
fn reordered_rules_permute_contributions() {
    let agent = test_agent();
    let authority = Authority::new(agent.id.clone(), "praetore-root", vec!["read:data".into()]);

    let first = Policy::new(
        "production",
        1,
        vec![
            PolicyRule::new("allow-read", "read_data", PolicyEffect::Allow),
            PolicyRule::new("deny-read", "read_data", PolicyEffect::Deny),
        ],
    );
    let second = Policy::new(
        "production",
        1,
        vec![
            PolicyRule::new("deny-read", "read_data", PolicyEffect::Deny),
            PolicyRule::new("allow-read", "read_data", PolicyEffect::Allow),
        ],
    );

    let first_decision = first.evaluate(&agent, &authority, &test_action()).unwrap();
    let second_decision = second.evaluate(&agent, &authority, &test_action()).unwrap();

    let first_ids: Vec<&str> =
        first_decision.contributions.iter().map(|c| c.rule_id.as_str()).collect();
    let second_ids: Vec<&str> =
        second_decision.contributions.iter().map(|c| c.rule_id.as_str()).collect();
    assert_eq!(first_ids, vec!["allow-read", "deny-read"]);
    assert_eq!(second_ids, vec!["deny-read", "allow-read"]);
}
