use vstd::prelude::*;

use crate::action::{Action, ActionModel};
use crate::authority::{Authority, AuthorityModel};
use crate::decision::{
    ContributionModel, Decision, DecisionContribution, DecisionModel, DecisionOutcome,
    bare_decision, combine, rank,
};
use crate::error::{
    ErrorModel, PraetoreError, failure, first_failure, lemma_first_failure_none,
    lemma_first_failure_step, result_view,
};
use crate::identity::AgentIdentity;
use crate::text::{blank, decimal, is_blank, opt_text, push_decimal};

verus! {

/// The effect a policy rule has when it matches.
#[derive(Debug, Clone, Copy, PartialEq, Eq, Structural)]
pub enum PolicyEffect {
    Allow,
    Deny,
    RequireApproval,
}

/// The decision outcome an effect yields.
pub open spec fn effect_outcome(e: PolicyEffect) -> DecisionOutcome {
    match e {
        PolicyEffect::Allow => DecisionOutcome::Allow,
        PolicyEffect::Deny => DecisionOutcome::Deny,
        PolicyEffect::RequireApproval => DecisionOutcome::RequireApproval,
    }
}

/// A rule of a policy: it matches actions of one type, optionally only when
/// the authority declares a capability and only for one target.
#[derive(Debug, Clone, PartialEq, Eq)]
pub struct PolicyRule {
    pub id: String,
    pub action_type: String,
    pub effect: PolicyEffect,
    pub required_capability: Option<String>,
    pub target: Option<String>,
}

/// Model of a [`PolicyRule`].
pub struct RuleModel {
    pub id: Seq<char>,
    pub action_type: Seq<char>,
    pub effect: PolicyEffect,
    pub required_capability: Option<Seq<char>>,
    pub target: Option<Seq<char>>,
}

impl View for PolicyRule {
    type V = RuleModel;

    open spec fn view(&self) -> RuleModel {
        RuleModel {
            id: self.id@,
            action_type: self.action_type@,
            effect: self.effect,
            required_capability: opt_text(self.required_capability),
            target: opt_text(self.target),
        }
    }
}

/// A policy: an identified, versioned list of rules.
#[derive(Debug, Clone, PartialEq, Eq)]
pub struct Policy {
    pub id: String,
    pub version: u32,
    pub rules: Vec<PolicyRule>,
}

/// Model of a [`Policy`].
pub struct PolicyModel {
    pub id: Seq<char>,
    pub version: u32,
    pub rules: Seq<RuleModel>,
}

/// Models of a sequence of rules.
pub open spec fn rule_models(rs: Seq<PolicyRule>) -> Seq<RuleModel> {
    rs.map_values(|r: PolicyRule| r@)
}

impl View for Policy {
    type V = PolicyModel;

    open spec fn view(&self) -> PolicyModel {
        PolicyModel { id: self.id@, version: self.version, rules: rule_models(self.rules@) }
    }
}

/// Whether a rule applies: the action type is the rule's, the authority
/// declares the rule's required capability (if any), and the action's target
/// is the rule's target (if any).
pub open spec fn rule_matches(r: RuleModel, authority: AuthorityModel, action: ActionModel) -> bool {
    &&& r.action_type == action.action_type
    &&& (r.required_capability is None || authority.capabilities.contains(
        r.required_capability.unwrap(),
    ))
    &&& (r.target is None || action.target == r.target)
}

pub open spec fn matcher(authority: AuthorityModel, action: ActionModel) -> spec_fn(
    RuleModel,
) -> bool {
    |r: RuleModel| rule_matches(r, authority, action)
}

/// The outcome a rule yields.
pub open spec fn rule_outcome(r: RuleModel) -> DecisionOutcome {
    effect_outcome(r.effect)
}

/// The reason given for a matching rule.
pub open spec fn rule_reason(r: RuleModel) -> Seq<char> {
    "Policy rule '"@ + r.id + "' matched"@
}

/// What a matching rule records in a decision.
pub open spec fn rule_contribution(r: RuleModel) -> ContributionModel {
    ContributionModel { rule_id: r.id, outcome: rule_outcome(r), reason: rule_reason(r) }
}

/// The decision a matching rule yields, with its own contribution recorded.
pub open spec fn rule_decision(r: RuleModel) -> DecisionModel {
    DecisionModel {
        outcome: rule_outcome(r),
        reason: rule_reason(r),
        contributions: seq![rule_contribution(r)],
    }
}

/// The first rule a rule breaks, if any: non-blank id and action type, and
/// a non-blank capability and target where these are given.
pub open spec fn rule_error(r: RuleModel) -> Option<ErrorModel> {
    if is_blank(r.id) {
        Some(ErrorModel::PolicyEvaluationFailed("policy rule id cannot be empty"@))
    } else if is_blank(r.action_type) {
        Some(
            ErrorModel::PolicyEvaluationFailed(
                "policy rule '"@ + r.id + "' has empty action_type"@,
            ),
        )
    } else if r.required_capability matches Some(c) && is_blank(c) {
        Some(ErrorModel::PolicyEvaluationFailed("policy rule '"@ + r.id + "' has empty capability"@))
    } else if r.target matches Some(t) && is_blank(t) {
        Some(ErrorModel::PolicyEvaluationFailed("policy rule '"@ + r.id + "' has empty target"@))
    } else {
        None
    }
}

pub open spec fn rule_check() -> spec_fn(RuleModel) -> Option<ErrorModel> {
    |r: RuleModel| rule_error(r)
}

/// The first rule a policy breaks, if any: a non-blank id, a positive
/// version, and valid rules (first failing one).
pub open spec fn policy_error(p: PolicyModel) -> Option<ErrorModel> {
    if is_blank(p.id) {
        Some(ErrorModel::PolicyEvaluationFailed("policy id cannot be empty"@))
    } else if p.version == 0 {
        Some(ErrorModel::PolicyEvaluationFailed("policy version must be greater than zero"@))
    } else {
        first_failure(p.rules, rule_check())
    }
}

/// `Policy '<id>' v<version>`
pub open spec fn policy_label(p: PolicyModel) -> Seq<char> {
    "Policy '"@ + p.id + "' v"@ + decimal(p.version as nat)
}

/// The reason of an allowing decision that no rule more restrictive than ALLOW decided.
pub open spec fn default_allow_reason(p: PolicyModel) -> Seq<char> {
    policy_label(p) + ": no matching rule"@
}

/// The reason of the decision when no rule matches.
pub open spec fn default_deny_reason(p: PolicyModel) -> Seq<char> {
    policy_label(p) + ": no matching rule; default deny"@
}

/// Whether some rule in `ms` yields outcome `o`.
pub open spec fn has_outcome(ms: Seq<RuleModel>, o: DecisionOutcome) -> bool {
    exists|i: int| 0 <= i < ms.len() && rule_outcome(#[trigger] ms[i]) == o
}

/// The strongest outcome among rules: DENY if one denies, else
/// REQUIRE_APPROVAL if one requires approval, else ALLOW.
pub open spec fn strongest_matching(ms: Seq<RuleModel>) -> DecisionOutcome {
    if has_outcome(ms, DecisionOutcome::Deny) {
        DecisionOutcome::Deny
    } else if has_outcome(ms, DecisionOutcome::RequireApproval) {
        DecisionOutcome::RequireApproval
    } else {
        DecisionOutcome::Allow
    }
}

/// The position of the first rule in `ms` that yields `o`: within the
/// prefix when the prefix has one, else the last position.
pub open spec fn first_with_outcome(ms: Seq<RuleModel>, o: DecisionOutcome) -> int
    decreases ms.len(),
{
    if ms.len() == 0 {
        0
    } else if has_outcome(ms.drop_last(), o) {
        first_with_outcome(ms.drop_last(), o)
    } else {
        ms.len() - 1
    }
}

/// The decision that a non-empty list of matching rules yields: their
/// strongest outcome; as reason, that of the first rule with that outcome,
/// except for ALLOW, where the policy's "no matching rule" text stands; and
/// one contribution per matching rule, in order.
pub open spec fn combined_decision(p: PolicyModel, ms: Seq<RuleModel>) -> DecisionModel {
    let o = strongest_matching(ms);
    DecisionModel {
        outcome: o,
        reason: if o == DecisionOutcome::Allow {
            default_allow_reason(p)
        } else {
            rule_reason(ms[first_with_outcome(ms, o)])
        },
        contributions: ms.map_values(|r: RuleModel| rule_contribution(r)),
    }
}

/// The rules of `p` that apply to `authority` and `action`, in order.
pub open spec fn matching_rules(p: PolicyModel, authority: AuthorityModel, action: ActionModel) -> Seq<
    RuleModel,
> {
    p.rules.filter(matcher(authority, action))
}

/// What evaluating a policy gives: the policy's error if it is invalid;
/// otherwise DENY with the default reason when no rule matches, and the
/// combined decision of the matching rules when some do.
pub open spec fn policy_decision(
    p: PolicyModel,
    authority: AuthorityModel,
    action: ActionModel,
) -> Result<DecisionModel, ErrorModel> {
    match policy_error(p) {
        Some(e) => Err(e),
        None => {
            let ms = matching_rules(p, authority, action);
            if ms.len() == 0 {
                Ok(bare_decision(DecisionOutcome::Deny, default_deny_reason(p)))
            } else {
                Ok(combined_decision(p, ms))
            }
        },
    }
}

proof fn lemma_has_outcome_push(ms: Seq<RuleModel>, r: RuleModel, o: DecisionOutcome)
    ensures
        has_outcome(ms.push(r), o) == (has_outcome(ms, o) || rule_outcome(r) == o),
{
    let s = ms.push(r);
    if has_outcome(s, o) {
        let i = choose|i: int| 0 <= i < s.len() && rule_outcome(#[trigger] s[i]) == o;
        if i < ms.len() {
            assert(s[i] == ms[i]);
        }
    }
    if has_outcome(ms, o) {
        let i = choose|i: int| 0 <= i < ms.len() && rule_outcome(#[trigger] ms[i]) == o;
        assert(s[i] == ms[i]);
    }
    if rule_outcome(r) == o {
        assert(s[ms.len() as int] == r);
    }
}

proof fn lemma_strongest_bounds(ms: Seq<RuleModel>, o: DecisionOutcome)
    requires
        has_outcome(ms, o),
    ensures
        rank(strongest_matching(ms)) >= rank(o),
{
}

/// One more matching rule combines into the decision as [`combine`] says.
proof fn lemma_combined_push(p: PolicyModel, ms: Seq<RuleModel>, r: RuleModel)
    ensures
        combined_decision(p, ms.push(r)) == combine(combined_decision(p, ms), rule_decision(r)),
{
    let s = ms.push(r);
    lemma_has_outcome_push(ms, r, DecisionOutcome::Deny);
    lemma_has_outcome_push(ms, r, DecisionOutcome::RequireApproval);
    lemma_has_outcome_push(ms, r, DecisionOutcome::Allow);
    let a = combined_decision(p, ms);
    let b = rule_decision(r);
    let c = combine(a, b);
    let n = combined_decision(p, s);
    let o = strongest_matching(ms);
    assert(n.outcome == c.outcome);
    assert(s.drop_last() =~= ms);
    assert(n.contributions =~= c.contributions) by {
        assert forall|i: int| 0 <= i < s.len() implies #[trigger] n.contributions[i]
            == c.contributions[i] by {
            if i < ms.len() {
                assert(s[i] == ms[i]);
            }
        }
    }
    if n.outcome != DecisionOutcome::Allow {
        if o == n.outcome {
            assert(has_outcome(ms, o));
            assert(first_with_outcome(s, o) == first_with_outcome(ms, o));
            let k = first_with_outcome(ms, o);
            lemma_first_in_range(ms, o);
            assert(s[k] == ms[k]);
        } else {
            assert(!has_outcome(ms, n.outcome)) by {
                if has_outcome(ms, n.outcome) {
                    lemma_strongest_bounds(ms, n.outcome);
                }
            }
            assert(first_with_outcome(s, n.outcome) == ms.len());
            assert(s[ms.len() as int] == r);
        }
    }
}

/// The first position with an outcome lies within the rules, and its rule yields it.
proof fn lemma_first_in_range(ms: Seq<RuleModel>, o: DecisionOutcome)
    requires
        has_outcome(ms, o),
    ensures
        0 <= first_with_outcome(ms, o) < ms.len(),
        rule_outcome(ms[first_with_outcome(ms, o)]) == o,
    decreases ms.len(),
{
    if has_outcome(ms.drop_last(), o) {
        lemma_first_in_range(ms.drop_last(), o);
        assert(ms.drop_last()[first_with_outcome(ms.drop_last(), o)] == ms[first_with_outcome(
            ms.drop_last(),
            o,
        )]);
    } else {
        let i = choose|i: int| 0 <= i < ms.len() && rule_outcome(#[trigger] ms[i]) == o;
        if i < ms.len() - 1 {
            assert(ms.drop_last()[i] == ms[i]);
        }
    }
}

/// Whether some rule of `rules` applies and yields `o`.
pub open spec fn some_matching_rule_yields(
    rules: Seq<RuleModel>,
    authority: AuthorityModel,
    action: ActionModel,
    o: DecisionOutcome,
) -> bool {
    exists|r: RuleModel|
        #![trigger rules.contains(r), rule_outcome(r)]
        rules.contains(r) && rule_matches(r, authority, action) && rule_outcome(r) == o
}

/// Whether some rule of `rules` applies at all.
pub open spec fn some_rule_matches(
    rules: Seq<RuleModel>,
    authority: AuthorityModel,
    action: ActionModel,
) -> bool {
    exists|r: RuleModel| #[trigger] rules.contains(r) && rule_matches(r, authority, action)
}

proof fn lemma_matching_outcomes(
    rules: Seq<RuleModel>,
    authority: AuthorityModel,
    action: ActionModel,
    o: DecisionOutcome,
)
    ensures
        has_outcome(rules.filter(matcher(authority, action)), o) == some_matching_rule_yields(
            rules,
            authority,
            action,
            o,
        ),
        (rules.filter(matcher(authority, action)).len() > 0) == some_rule_matches(
            rules,
            authority,
            action,
        ),
{
    broadcast use vstd::seq_lib::group_filter_ensures;

    let pred = matcher(authority, action);
    let ms = rules.filter(pred);
    if has_outcome(ms, o) {
        let i = choose|i: int| 0 <= i < ms.len() && rule_outcome(#[trigger] ms[i]) == o;
        assert(ms.contains(ms[i]));
        rules.lemma_filter_contains_rev(pred, ms[i]);
        assert(pred(ms[i]));
    }
    if some_matching_rule_yields(rules, authority, action, o) {
        let r = choose|r: RuleModel|
            #![trigger rules.contains(r), rule_outcome(r)]
            rules.contains(r) && rule_matches(r, authority, action) && rule_outcome(r) == o;
        let j = choose|j: int| 0 <= j < rules.len() && rules[j] == r;
        assert(pred(rules[j]));
        assert(ms.contains(rules[j]));
        let k = choose|k: int| 0 <= k < ms.len() && ms[k] == r;
        assert(rule_outcome(ms[k]) == o);
    }
    if ms.len() > 0 {
        assert(ms.contains(ms[0]));
        rules.lemma_filter_contains_rev(pred, ms[0]);
        assert(pred(ms[0]));
    }
    if some_rule_matches(rules, authority, action) {
        let r = choose|r: RuleModel| #[trigger] rules.contains(r) && rule_matches(r, authority, action);
        let j = choose|j: int| 0 <= j < rules.len() && rules[j] == r;
        assert(pred(rules[j]));
        assert(ms.contains(rules[j]));
    }
}

proof fn lemma_policy_valid(p: PolicyModel)
    ensures
        (policy_error(p) is None) == (!is_blank(p.id) && p.version != 0 && forall|i: int|
            0 <= i < p.rules.len() ==> rule_error(#[trigger] p.rules[i]) is None),
{
    lemma_first_failure_none(p.rules, rule_check());
    if forall|i: int| 0 <= i < p.rules.len() ==> rule_error(#[trigger] p.rules[i]) is None {
        assert forall|i: int| 0 <= i < p.rules.len() implies (#[trigger] rule_check()(
            p.rules[i],
        )) is None by {
            assert(rule_error(p.rules[i]) is None);
        }
    }
    if first_failure(p.rules, rule_check()) is None {
        assert forall|i: int| 0 <= i < p.rules.len() implies rule_error(#[trigger] p.rules[i]) is None by {
            assert(rule_check()(p.rules[i]) is None);
        }
    }
}

/// Decisions do not depend on the order of rules: two policies with the same
/// id and version whose rules are the same (in any order, any number of
/// times) both evaluate or both fail, and agree on the outcome.
pub proof fn law_decision_independent_of_rule_order(
    p1: PolicyModel,
    p2: PolicyModel,
    authority: AuthorityModel,
    action: ActionModel,
)
    requires
        p1.id == p2.id,
        p1.version == p2.version,
        forall|r: RuleModel| p1.rules.contains(r) <==> p2.rules.contains(r),
    ensures
        policy_decision(p1, authority, action) is Ok <==> policy_decision(p2, authority, action) is Ok,
        policy_decision(p1, authority, action) is Ok ==> policy_decision(p1, authority, action)->Ok_0.outcome
            == policy_decision(p2, authority, action)->Ok_0.outcome,
{
    lemma_policy_valid(p1);
    lemma_policy_valid(p2);
    assert((forall|i: int| 0 <= i < p1.rules.len() ==> rule_error(#[trigger] p1.rules[i]) is None)
        <==> (forall|i: int| 0 <= i < p2.rules.len() ==> rule_error(#[trigger] p2.rules[i]) is None)) by {
        if forall|i: int| 0 <= i < p1.rules.len() ==> rule_error(#[trigger] p1.rules[i]) is None {
            assert forall|i: int| 0 <= i < p2.rules.len() implies rule_error(#[trigger] p2.rules[i]) is None by {
                assert(p2.rules.contains(p2.rules[i]));
                let j = choose|j: int| 0 <= j < p1.rules.len() && p1.rules[j] == p2.rules[i];
            }
        }
        if forall|i: int| 0 <= i < p2.rules.len() ==> rule_error(#[trigger] p2.rules[i]) is None {
            assert forall|i: int| 0 <= i < p1.rules.len() implies rule_error(#[trigger] p1.rules[i]) is None by {
                assert(p1.rules.contains(p1.rules[i]));
                let j = choose|j: int| 0 <= j < p2.rules.len() && p2.rules[j] == p1.rules[i];
            }
        }
    }
    lemma_matching_outcomes(p1.rules, authority, action, DecisionOutcome::Deny);
    lemma_matching_outcomes(p2.rules, authority, action, DecisionOutcome::Deny);
    lemma_matching_outcomes(p1.rules, authority, action, DecisionOutcome::RequireApproval);
    lemma_matching_outcomes(p2.rules, authority, action, DecisionOutcome::RequireApproval);
    assert(some_rule_matches(p1.rules, authority, action) == some_rule_matches(p2.rules, authority, action));
    assert(some_matching_rule_yields(p1.rules, authority, action, DecisionOutcome::Deny)
        == some_matching_rule_yields(p2.rules, authority, action, DecisionOutcome::Deny));
    assert(some_matching_rule_yields(p1.rules, authority, action, DecisionOutcome::RequireApproval)
        == some_matching_rule_yields(p2.rules, authority, action, DecisionOutcome::RequireApproval));
}

/// The contributions that the rules in `rules` applicable to `authority`
/// and `action` make, in order.
pub open spec fn contributions_of(
    rules: Seq<RuleModel>,
    authority: AuthorityModel,
    action: ActionModel,
) -> Seq<ContributionModel> {
    rules.filter(matcher(authority, action)).map_values(|r: RuleModel| rule_contribution(r))
}

proof fn lemma_contributions_of_add(
    a: Seq<RuleModel>,
    b: Seq<RuleModel>,
    authority: AuthorityModel,
    action: ActionModel,
)
    ensures
        contributions_of(a + b, authority, action) == contributions_of(a, authority, action)
            + contributions_of(b, authority, action),
{
    let pred = matcher(authority, action);
    Seq::filter_distributes_over_add(a, b, pred);
    assert(contributions_of(a + b, authority, action) =~= contributions_of(a, authority, action)
        + contributions_of(b, authority, action));
}

/// Rules that are a permutation of each other make contributions that are a
/// permutation of each other.
proof fn lemma_contributions_permuted(
    s1: Seq<RuleModel>,
    s2: Seq<RuleModel>,
    authority: AuthorityModel,
    action: ActionModel,
)
    requires
        s1.to_multiset() == s2.to_multiset(),
    ensures
        contributions_of(s1, authority, action).to_multiset() == contributions_of(
            s2,
            authority,
            action,
        ).to_multiset(),
    decreases s1.len(),
{
    broadcast use vstd::seq_lib::group_to_multiset_ensures;
    broadcast use vstd::multiset::group_multiset_axioms;
    broadcast use vstd::seq_lib::lemma_multiset_commutative;

    if s1.len() == 0 {
        assert(s1.to_multiset().len() == s1.len());
        assert(s2.to_multiset().len() == s2.len());
        assert(s2.len() == 0);
        assert(s1 =~= s2);
    } else {
        let x = s1.last();
        let d = s1.drop_last();
        assert(s1 =~= d.push(x));
        assert(s1.to_multiset().count(x) > 0);
        assert(s2.contains(x));
        let i = choose|i: int| 0 <= i < s2.len() && s2[i] == x;
        let r = s2.remove(i);
        assert(d.to_multiset() =~= r.to_multiset());
        lemma_contributions_permuted(d, r, authority, action);
        let one = seq![x];
        let t = s2.take(i);
        let k = s2.skip(i + 1);
        assert(s1 =~= d + one);
        assert(s2 =~= t + one + k);
        assert(r =~= t + k);
        lemma_contributions_of_add(d, one, authority, action);
        lemma_contributions_of_add(t + one, k, authority, action);
        lemma_contributions_of_add(t, one, authority, action);
        lemma_contributions_of_add(t, k, authority, action);
        let cd = contributions_of(d, authority, action);
        let co = contributions_of(one, authority, action);
        let ct = contributions_of(t, authority, action);
        let ck = contributions_of(k, authority, action);
        assert(contributions_of(s1, authority, action).to_multiset() =~= cd.to_multiset().add(
            co.to_multiset(),
        ));
        assert(contributions_of(s2, authority, action).to_multiset() =~= ct.to_multiset().add(
            co.to_multiset(),
        ).add(ck.to_multiset()));
        assert(contributions_of(r, authority, action).to_multiset() =~= ct.to_multiset().add(
            ck.to_multiset(),
        ));
    }
}

/// Reordering the rules of a policy permutes the contributions of its
/// decision: two policies with the same id and version whose rules are a
/// permutation of each other both evaluate or both fail, agree on the
/// outcome, and have contributions that are a permutation of each other.
pub proof fn law_contributions_independent_of_rule_order(
    p1: PolicyModel,
    p2: PolicyModel,
    authority: AuthorityModel,
    action: ActionModel,
)
    requires
        p1.id == p2.id,
        p1.version == p2.version,
        p1.rules.to_multiset() == p2.rules.to_multiset(),
    ensures
        policy_decision(p1, authority, action) is Ok <==> policy_decision(p2, authority, action) is Ok,
        policy_decision(p1, authority, action) is Ok ==> {
            &&& policy_decision(p1, authority, action)->Ok_0.outcome == policy_decision(
                p2,
                authority,
                action,
            )->Ok_0.outcome
            &&& policy_decision(p1, authority, action)->Ok_0.contributions.to_multiset()
                == policy_decision(p2, authority, action)->Ok_0.contributions.to_multiset()
        },
{
    broadcast use vstd::seq_lib::group_to_multiset_ensures;

    assert forall|r: RuleModel| p1.rules.contains(r) <==> p2.rules.contains(r) by {
        assert(p1.rules.contains(r) <==> p1.rules.to_multiset().count(r) > 0);
        assert(p2.rules.contains(r) <==> p2.rules.to_multiset().count(r) > 0);
    }
    law_decision_independent_of_rule_order(p1, p2, authority, action);
    lemma_contributions_permuted(p1.rules, p2.rules, authority, action);
    lemma_matching_outcomes(p1.rules, authority, action, DecisionOutcome::Deny);
    lemma_matching_outcomes(p2.rules, authority, action, DecisionOutcome::Deny);
    let m1 = matching_rules(p1, authority, action);
    let m2 = matching_rules(p2, authority, action);
    assert(m1.len() == 0 <==> m2.len() == 0);
    if m1.len() == 0 {
        assert(bare_decision(DecisionOutcome::Deny, default_deny_reason(p1)).contributions
            == bare_decision(DecisionOutcome::Deny, default_deny_reason(p2)).contributions);
    }
}

/// Fail closed: a valid policy none of whose rules applies denies, with no contributions.
pub proof fn law_no_matching_rule_denies(p: PolicyModel, authority: AuthorityModel, action: ActionModel)
    requires
        policy_error(p) is None,
        !some_rule_matches(p.rules, authority, action),
    ensures
        policy_decision(p, authority, action) == Ok::<DecisionModel, ErrorModel>(
            bare_decision(DecisionOutcome::Deny, default_deny_reason(p)),
        ),
{
    lemma_matching_outcomes(p.rules, authority, action, DecisionOutcome::Deny);
}

/// The strongest applicable outcome prevails: in a valid policy, the outcome
/// is DENY when an applicable rule denies, else REQUIRE_APPROVAL when an
/// applicable rule requires approval, else ALLOW when an applicable rule
/// allows, and DENY when no rule applies.
pub proof fn law_strongest_applicable_rule_prevails(
    p: PolicyModel,
    authority: AuthorityModel,
    action: ActionModel,
)
    requires
        policy_error(p) is None,
    ensures
        policy_decision(p, authority, action) is Ok,
        policy_decision(p, authority, action)->Ok_0.outcome == if some_matching_rule_yields(
            p.rules,
            authority,
            action,
            DecisionOutcome::Deny,
        ) {
            DecisionOutcome::Deny
        } else if some_matching_rule_yields(
            p.rules,
            authority,
            action,
            DecisionOutcome::RequireApproval,
        ) {
            DecisionOutcome::RequireApproval
        } else if some_rule_matches(p.rules, authority, action) {
            DecisionOutcome::Allow
        } else {
            DecisionOutcome::Deny
        },
{
    lemma_matching_outcomes(p.rules, authority, action, DecisionOutcome::Deny);
    lemma_matching_outcomes(p.rules, authority, action, DecisionOutcome::RequireApproval);
}

/// The contributions of an evaluated decision are exactly the applicable
/// rules, in the policy's order, each with its own outcome and reason.
pub proof fn law_contributions_are_matching_rules(
    p: PolicyModel,
    authority: AuthorityModel,
    action: ActionModel,
)
    requires
        policy_error(p) is None,
    ensures
        policy_decision(p, authority, action)->Ok_0.contributions == matching_rules(
            p,
            authority,
            action,
        ).map_values(|r: RuleModel| rule_contribution(r)),
{
    let ms = matching_rules(p, authority, action);
    if ms.len() == 0 {
        assert(ms.map_values(|r: RuleModel| rule_contribution(r)) =~= Seq::<ContributionModel>::empty());
    }
}

impl PolicyRule {
    pub fn new(id: &str, action_type: &str, effect: PolicyEffect) -> (r: Self)
        ensures
            r@ == (RuleModel {
                id: id@,
                action_type: action_type@,
                effect,
                required_capability: None,
                target: None,
            }),
    {
        PolicyRule {
            id: id.to_owned(),
            action_type: action_type.to_owned(),
            effect,
            required_capability: None,
            target: None,
        }
    }

    /// Makes the rule apply only when the authority declares `capability`.
    pub fn with_capability(self, capability: &str) -> (r: Self)
        ensures
            r@ == (RuleModel { required_capability: Some(capability@), ..self@ }),
    {
        let mut rule = self;
        rule.required_capability = Some(capability.to_owned());
        rule
    }

    /// Makes the rule apply only to actions on `target`.
    pub fn with_target(self, target: &str) -> (r: Self)
        ensures
            r@ == (RuleModel { target: Some(target@), ..self@ }),
    {
        let mut rule = self;
        rule.target = Some(target.to_owned());
        rule
    }

    /// Whether the rule applies; see [`rule_matches`].
    fn matches(&self, _agent: &AgentIdentity, authority: &Authority, action: &Action) -> (r: bool)
        ensures
            r == rule_matches(self@, authority@, action@),
    {
        if !(self.action_type == action.action_type) {
            return false;
        }
        if let Some(required_capability) = &self.required_capability {
            if !authority.permits(required_capability.as_str()) {
                return false;
            }
        }
        if let Some(required_target) = &self.target {
            match &action.target {
                Some(target) => {
                    if !(*target == *required_target) {
                        return false;
                    }
                },
                None => {
                    return false;
                },
            }
        }
        true
    }

    /// The decision the rule yields when it matches, with no contributions yet.
    fn decision(&self) -> (r: Result<Decision, PraetoreError>)
        ensures
            r matches Ok(d) && d@ == bare_decision(rule_outcome(self@), rule_reason(self@)),
    {
        let mut reason = "Policy rule '".to_owned();
        reason.append(self.id.as_str());
        reason.append("' matched");
        match self.effect {
            PolicyEffect::Allow => Ok(Decision::allow(reason.as_str())),
            PolicyEffect::Deny => Ok(Decision::deny(reason.as_str())),
            PolicyEffect::RequireApproval => Ok(Decision::require_approval(reason.as_str())),
        }
    }

    /// Checks the rule; see [`rule_error`].
    fn validate(&self) -> (r: Result<(), PraetoreError>)
        ensures
            failure(r) == rule_error(self@),
    {
        if blank(self.id.as_str()) {
            return Err(
                PraetoreError::PolicyEvaluationFailed("policy rule id cannot be empty".to_owned()),
            );
        }
        if blank(self.action_type.as_str()) {
            let mut message = "policy rule '".to_owned();
            message.append(self.id.as_str());
            message.append("' has empty action_type");
            return Err(PraetoreError::PolicyEvaluationFailed(message));
        }
        if let Some(capability) = &self.required_capability {
            if blank(capability.as_str()) {
                let mut message = "policy rule '".to_owned();
                message.append(self.id.as_str());
                message.append("' has empty capability");
                return Err(PraetoreError::PolicyEvaluationFailed(message));
            }
        }
        if let Some(target) = &self.target {
            if blank(target.as_str()) {
                let mut message = "policy rule '".to_owned();
                message.append(self.id.as_str());
                message.append("' has empty target");
                return Err(PraetoreError::PolicyEvaluationFailed(message));
            }
        }
        Ok(())
    }
}

impl Policy {
    pub fn new(id: &str, version: u32, rules: Vec<PolicyRule>) -> (r: Self)
        ensures
            r@ == (PolicyModel { id: id@, version, rules: rule_models(rules@) }),
    {
        Policy { id: id.to_owned(), version, rules }
    }

    /// `Policy '<id>' v<version>`
    fn label(&self) -> (r: String)
        ensures
            r@ == policy_label(self@),
    {
        let mut label = "Policy '".to_owned();
        label.append(self.id.as_str());
        label.append("' v");
        push_decimal(&mut label, self.version as u64);
        label
    }

    /// Evaluates the policy for an action under an authority; see
    /// [`policy_decision`]. Restrictive rules override permissive ones
    /// whatever their order, and no matching rule means DENY.
    pub fn evaluate(&self, agent: &AgentIdentity, authority: &Authority, action: &Action) -> (r:
        Result<Decision, PraetoreError>)
        ensures
            result_view(r) == policy_decision(self@, authority@, action@),
    {
        match self.validate() {
            Ok(()) => {},
            Err(e) => return Err(e),
        }
        let ghost p = self@;
        let ghost pred = matcher(authority@, action@);
        let mut allow_reason = self.label();
        allow_reason.append(": no matching rule");
        let mut decision = Decision::allow(allow_reason.as_str());
        let mut matched = false;
        let n = self.rules.len();
        proof {
            assert(p.rules.take(0) =~= Seq::<RuleModel>::empty());
            reveal(Seq::filter);
            assert(p.rules.take(0).filter(pred) =~= Seq::<RuleModel>::empty());
            assert(decision@.contributions =~= combined_decision(
                p,
                Seq::<RuleModel>::empty(),
            ).contributions);
        }
        for i in 0..n
            invariant
                n == p.rules.len(),
                p == self@,
                pred == matcher(authority@, action@),
                policy_error(p) is None,
                decision@ == combined_decision(p, p.rules.take(i as int).filter(pred)),
                matched == (p.rules.take(i as int).filter(pred).len() > 0),
        {
            let ghost before = p.rules.take(i as int);
            proof {
                assert(p.rules.take(i + 1) =~= before.push(p.rules[i as int]));
                before.lemma_filter_push(p.rules[i as int], pred);
                assert(p.rules[i as int] == self.rules@[i as int]@);
            }
            let rule = &self.rules[i];
            if rule.matches(agent, authority, action) {
                matched = true;
                let rule_decision = match rule.decision() {
                    Ok(d) => d,
                    Err(e) => return Err(e),
                };
                let contribution = DecisionContribution::new(
                    rule.id.as_str(),
                    rule_decision.outcome,
                    rule_decision.reason.as_str(),
                );
                let rule_decision = rule_decision.with_contribution(contribution);
                proof {
                    assert(rule_decision@.contributions =~= seq![rule_contribution(rule@)]);
                    lemma_combined_push(p, before.filter(pred), rule@);
                }
                decision = decision.strongest(rule_decision);
            }
        }
        proof {
            assert(p.rules.take(n as int) =~= p.rules);
        }
        if !matched {
            let mut deny_reason = self.label();
            deny_reason.append(": no matching rule; default deny");
            return Ok(Decision::deny(deny_reason.as_str()));
        }
        Ok(decision)
    }

    /// Checks the policy; see [`policy_error`].
    pub fn validate(&self) -> (r: Result<(), PraetoreError>)
        ensures
            failure(r) == policy_error(self@),
    {
        if blank(self.id.as_str()) {
            return Err(
                PraetoreError::PolicyEvaluationFailed("policy id cannot be empty".to_owned()),
            );
        }
        if self.version == 0 {
            return Err(
                PraetoreError::PolicyEvaluationFailed(
                    "policy version must be greater than zero".to_owned(),
                ),
            );
        }
        let ghost rules = self@.rules;
        let n = self.rules.len();
        assert(rules.skip(0) =~= rules);
        for i in 0..n
            invariant
                n == rules.len(),
                rules == self@.rules,
                !is_blank(self@.id),
                self.version != 0,
                first_failure(rules, rule_check()) == first_failure(
                    rules.skip(i as int),
                    rule_check(),
                ),
        {
            proof {
                lemma_first_failure_step(rules, rule_check(), i as int);
                assert(rules[i as int] == self.rules@[i as int]@);
                assert(rule_check()(rules[i as int]) == rule_error(rules[i as int]));
            }
            match self.rules[i].validate() {
                Ok(()) => {},
                Err(e) => return Err(e),
            }
        }
        assert(rules.skip(n as int) =~= Seq::<RuleModel>::empty());
        Ok(())
    }
}

/// When a rule applies: the action has the rule's type, the authority
/// declares the rule's required capability (if it has one), and the action
/// has the rule's target (if it has one). Each condition holds whatever the
/// others are.
pub proof fn law_rule_applicability(r: RuleModel, authority: AuthorityModel, action: ActionModel)
    ensures
        rule_matches(r, authority, action) <==> {
            &&& r.action_type == action.action_type
            &&& (r.required_capability matches Some(c) ==> authority.capabilities.contains(c))
            &&& (r.target matches Some(t) ==> action.target == Some(t))
        },
        rule_matches(r, authority, action) ==> r.action_type == action.action_type,
        rule_matches(r, authority, action) && r.required_capability is Some
            ==> authority.capabilities.contains(r.required_capability->0),
        rule_matches(r, authority, action) && r.target is Some ==> action.target == r.target,
{
}

/// A valid policy with a single rule: when the rule applies, the decision
/// has the rule's outcome and records the rule as its only contribution;
/// otherwise the policy denies with no contributions.
pub proof fn law_single_rule_policy(
    p: PolicyModel,
    r: RuleModel,
    authority: AuthorityModel,
    action: ActionModel,
)
    requires
        policy_error(p) is None,
        p.rules == seq![r],
    ensures
        policy_decision(p, authority, action) is Ok,
        ({
            let d = policy_decision(p, authority, action)->Ok_0;
            if r.action_type == action.action_type && (r.required_capability matches Some(c)
                ==> authority.capabilities.contains(c)) && (r.target matches Some(t)
                ==> action.target == Some(t)) {
                &&& r.effect == PolicyEffect::Allow ==> d.outcome == DecisionOutcome::Allow
                &&& r.effect == PolicyEffect::Deny ==> d.outcome == DecisionOutcome::Deny
                &&& r.effect == PolicyEffect::RequireApproval ==> d.outcome
                    == DecisionOutcome::RequireApproval
                &&& d.contributions.len() == 1
                &&& d.contributions[0].rule_id == r.id
                &&& d.contributions[0].outcome == d.outcome
            } else {
                &&& d.outcome == DecisionOutcome::Deny
                &&& d.contributions.len() == 0
            }
        }),
{
    broadcast use vstd::seq_lib::group_filter_ensures;

    let pred = matcher(authority, action);
    let ms = p.rules.filter(pred);
    reveal(Seq::filter);
    assert(p.rules.drop_last() =~= Seq::<RuleModel>::empty());
    assert(p.rules.drop_last().filter(pred) =~= Seq::<RuleModel>::empty());
    if pred(r) {
        assert(ms =~= seq![r]);
        assert(first_with_outcome(ms, rule_outcome(r)) == 0);
    } else {
        assert(ms =~= Seq::<RuleModel>::empty());
    }
}

/// A policy passes its check exactly when its id is not blank, its version
/// is positive, and every rule has a non-blank id and action type and a
/// non-blank capability and target where it names them.
pub proof fn law_policy_check_is_exact(p: PolicyModel)
    ensures
        policy_error(p) is None <==> {
            &&& !is_blank(p.id)
            &&& p.version != 0
            &&& forall|i: int|
                0 <= i < p.rules.len() ==> {
                    let r = #[trigger] p.rules[i];
                    &&& !is_blank(r.id)
                    &&& !is_blank(r.action_type)
                    &&& (r.required_capability matches Some(c) ==> !is_blank(c))
                    &&& (r.target matches Some(t) ==> !is_blank(t))
                }
        },
{
    lemma_policy_valid(p);
}

proof fn lemma_first_with_outcome(ms: Seq<RuleModel>, o: DecisionOutcome)
    requires
        has_outcome(ms, o),
    ensures
        0 <= first_with_outcome(ms, o) < ms.len(),
        rule_outcome(ms[first_with_outcome(ms, o)]) == o,
        forall|j: int| 0 <= j < first_with_outcome(ms, o) ==> rule_outcome(#[trigger] ms[j]) != o,
    decreases ms.len(),
{
    let d = ms.drop_last();
    if has_outcome(d, o) {
        lemma_first_with_outcome(d, o);
        assert forall|j: int| 0 <= j < first_with_outcome(ms, o) implies rule_outcome(
            #[trigger] ms[j],
        ) != o by {
            assert(ms[j] == d[j]);
        }
    } else {
        let i = choose|i: int| 0 <= i < ms.len() && rule_outcome(#[trigger] ms[i]) == o;
        if i < ms.len() - 1 {
            assert(d[i] == ms[i]);
        }
        assert forall|j: int| 0 <= j < ms.len() - 1 implies rule_outcome(#[trigger] ms[j]) != o by {
            if rule_outcome(ms[j]) == o {
                assert(d[j] == ms[j]);
            }
        }
    }
}

/// The reason of a valid policy's decision when some rule applies: for
/// DENY or REQUIRE_APPROVAL, the reason of the first applicable rule (in
/// the policy's order) with that outcome; for ALLOW, the policy's "no
/// matching rule" text.
pub proof fn law_decision_reason(p: PolicyModel, authority: AuthorityModel, action: ActionModel)
    requires
        policy_error(p) is None,
        some_rule_matches(p.rules, authority, action),
    ensures
        ({
            let d = policy_decision(p, authority, action)->Ok_0;
            let ms = matching_rules(p, authority, action);
            &&& d.outcome == DecisionOutcome::Allow ==> d.reason == "Policy '"@ + p.id + "' v"@
                + decimal(p.version as nat) + ": no matching rule"@
            &&& d.outcome != DecisionOutcome::Allow ==> exists|i: int|
                0 <= i < ms.len() && rule_outcome(#[trigger] ms[i]) == d.outcome && (forall|j: int|
                    0 <= j < i ==> rule_outcome(#[trigger] ms[j]) != d.outcome) && d.reason
                    == "Policy rule '"@ + ms[i].id + "' matched"@
        }),
{
    lemma_matching_outcomes(p.rules, authority, action, DecisionOutcome::Deny);
    let ms = matching_rules(p, authority, action);
    let d = policy_decision(p, authority, action)->Ok_0;
    assert(ms.len() > 0);
    let o = strongest_matching(ms);
    if o != DecisionOutcome::Allow {
        lemma_first_with_outcome(ms, o);
        let k = first_with_outcome(ms, o);
        assert(rule_outcome(ms[k]) == d.outcome);
    }
}

/// When no rule of a valid policy applies, the policy denies with no
/// contributions and the reason "Policy '<id>' v<version>: no matching
/// rule; default deny".
pub proof fn law_default_deny(p: PolicyModel, authority: AuthorityModel, action: ActionModel)
    requires
        policy_error(p) is None,
        forall|i: int| 0 <= i < p.rules.len() ==> !rule_matches(#[trigger] p.rules[i], authority, action),
    ensures
        ({
            let d = policy_decision(p, authority, action)->Ok_0;
            &&& policy_decision(p, authority, action) is Ok
            &&& d.outcome == DecisionOutcome::Deny
            &&& d.contributions.len() == 0
            &&& d.reason == "Policy '"@ + p.id + "' v"@ + decimal(p.version as nat)
                + ": no matching rule; default deny"@
        }),
{
    if some_rule_matches(p.rules, authority, action) {
        let r = choose|r: RuleModel| #[trigger] p.rules.contains(r) && rule_matches(r, authority, action);
        let i = choose|i: int| 0 <= i < p.rules.len() && p.rules[i] == r;
        assert(!rule_matches(p.rules[i], authority, action));
    }
    law_no_matching_rule_denies(p, authority, action);
}

} // verus!
