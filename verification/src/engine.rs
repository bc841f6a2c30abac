use vstd::prelude::*;

use crate::authority::{ValidityModel, activity, authority_error, validity_error};
use crate::authorization::{AuthorizationRequest, RequestModel, attest_error, attests};
use crate::decision::{Decision, DecisionModel, DecisionOutcome, bare_decision};
use crate::error::{ErrorModel, PraetoreError, failure, result_view};
use crate::evidence::Evidence;
use crate::identity::identity_error;
use crate::ids::is_random_uuid;
use crate::policy::{
    Policy, PolicyModel, law_strongest_applicable_rule_prevails, policy_decision, policy_error,
    some_matching_rule_yields, some_rule_matches,
};
use crate::timestamp::{parse_rfc3339, rfc3339_instant, system_now};

verus! {

/// A source of the current instant, in nanoseconds since the Unix epoch.
pub trait Clock {
    fn now(&self) -> i128;
}

/// The system's clock.
#[derive(Debug, Clone, Copy)]
pub struct SystemClock;

impl Clock for SystemClock {
    fn now(&self) -> i128 {
        system_now()
    }
}

/// A clock that always reads the same instant.
#[derive(Debug, Clone, Copy)]
pub struct FixedClock {
    instant: i128,
}

impl FixedClock {
    /// The instant the clock reads.
    pub closed spec fn instant(&self) -> i128 {
        self.instant
    }

    /// A clock fixed at an RFC 3339 timestamp, which must be valid.
    pub fn new(timestamp: &str) -> (r: Self)
        requires
            rfc3339_instant(timestamp@) is Some,
        ensures
            r.instant() == rfc3339_instant(timestamp@).unwrap(),
    {
        FixedClock { instant: parse_rfc3339(timestamp).unwrap() }
    }

    /// A clock fixed at an RFC 3339 timestamp, or `None` when the timestamp
    /// is not valid.
    pub fn try_new(timestamp: &str) -> (r: Option<Self>)
        ensures
            r is Some <==> rfc3339_instant(timestamp@) is Some,
            r matches Some(c) ==> c.instant() == rfc3339_instant(timestamp@).unwrap(),
    {
        match parse_rfc3339(timestamp) {
            Some(_) => Some(FixedClock::new(timestamp)),
            None => None,
        }
    }
}

impl Clock for FixedClock {
    fn now(&self) -> (r: i128)
        ensures
            r == self.instant(),
    {
        self.instant
    }
}

/// A fixed clock reads its instant: whatever a call of its `now` returns is
/// that instant, so an engine with a fixed clock evaluates at that instant.
pub proof fn law_fixed_clock_reads_its_instant(c: FixedClock, now: i128)
    requires
        call_ensures(FixedClock::now, (&c,), now),
    ensures
        now == c.instant(),
{
}

/// Whether `now` lies within a validity window, each bound read as an
/// RFC 3339 timestamp; a bound that does not read admits nothing.
pub open spec fn in_window(v: ValidityModel, now: i128) -> bool {
    &&& (v.not_before matches Some(t) ==> rfc3339_instant(t) matches Some(start) && now >= start)
    &&& (v.not_after matches Some(t) ==> rfc3339_instant(t) matches Some(end) && now <= end)
}

/// For a validity that passes its check, the engine's window test agrees
/// with [`Validity::is_active_at`](crate::authority::Validity::is_active_at).
pub proof fn law_window_agrees_with_activity(v: ValidityModel, now: i128)
    requires
        validity_error(v) is None,
    ensures
        in_window(v, now) <==> activity(v, now) == Ok::<bool, ErrorModel>(true),
{
}

/// The reason of the denial of an action type that the authority does not declare.
pub open spec fn not_permitted_reason(action_type: Seq<char>) -> Seq<char> {
    "authority does not permit action type: "@ + action_type
}

/// The decision the engine takes for a request at `now`: the authority's
/// error if it is invalid; `AuthorityVerificationFailed` outside its
/// validity window; DENY when the authority does not declare the action
/// type as a capability; otherwise the policy's decision.
pub open spec fn engine_decision(p: PolicyModel, r: RequestModel, now: i128) -> Result<
    DecisionModel,
    ErrorModel,
> {
    if authority_error(r.authority) is Some {
        Err(authority_error(r.authority).unwrap())
    } else if !in_window(r.authority.validity, now) {
        Err(ErrorModel::AuthorityVerificationFailed)
    } else if !r.authority.capabilities.contains(r.action.action_type) {
        Ok(bare_decision(DecisionOutcome::Deny, not_permitted_reason(r.action.action_type)))
    } else {
        policy_decision(p, r.authority, r.action)
    }
}

/// What evaluating a request at `now` gives: the engine's error, or the
/// attestation of the request with the engine's decision.
pub open spec fn evaluation(
    result: Result<Evidence, PraetoreError>,
    p: PolicyModel,
    r: RequestModel,
    now: i128,
) -> bool {
    match engine_decision(p, r, now) {
        Err(e) => failure(result) == Some(e),
        Ok(d) => {
            &&& failure(result) == attest_error(r)
            &&& result matches Ok(ev) ==> is_random_uuid(ev.evidence_id) && attests(ev@, r, d)
        },
    }
}

/// Coordinates authority checks, the policy and attestation.
#[derive(Clone)]
pub struct AuthorizationEngine<C: Clock> {
    policy: Policy,
    clock: C,
}

impl AuthorizationEngine<SystemClock> {
    /// An engine that reads the system clock.
    pub fn new(policy: Policy) -> (r: Self)
        ensures
            r.policy_model() == policy@,
    {
        AuthorizationEngine { policy, clock: SystemClock }
    }
}

impl<C: Clock> AuthorizationEngine<C> {
    pub closed spec fn policy_model(&self) -> PolicyModel {
        self.policy@
    }

    pub closed spec fn clock_model(&self) -> C {
        self.clock
    }

    /// An engine that reads the given clock.
    pub fn with_clock(policy: Policy, clock: C) -> (r: Self)
        ensures
            r.policy_model() == policy@,
            r.clock_model() == clock,
    {
        AuthorizationEngine { policy, clock }
    }

    pub fn policy(&self) -> (r: &Policy)
        ensures
            r@ == self.policy_model(),
    {
        &self.policy
    }

    /// Evaluates a request at the instant the clock reads; see [`evaluation`].
    pub fn evaluate(&self, request: AuthorizationRequest) -> (r: Result<Evidence, PraetoreError>)
        ensures
            exists|now: i128|
                call_ensures(C::now, (&self.clock_model(),), now) && evaluation(
                    r,
                    self.policy_model(),
                    request@,
                    now,
                ),
    {
        let now = self.clock.now();
        self.evaluate_at(request, now)
    }

    /// Evaluates a request at `now` (nanoseconds since the Unix epoch); see
    /// [`evaluation`].
    pub fn evaluate_at(&self, request: AuthorizationRequest, now: i128) -> (r: Result<
        Evidence,
        PraetoreError,
    >)
        ensures
            evaluation(r, self.policy_model(), request@, now),
    {
        let decision = match self.evaluate_request(&request, now) {
            Ok(d) => d,
            Err(e) => return Err(e),
        };
        request.attest(decision)
    }

    fn evaluate_request(&self, request: &AuthorizationRequest, now: i128) -> (r: Result<
        Decision,
        PraetoreError,
    >)
        ensures
            result_view(r) == engine_decision(self.policy_model(), request@, now),
    {
        match request.authority.validate() {
            Ok(()) => {},
            Err(e) => return Err(e),
        }
        if let Some(not_before) = &request.authority.validity.not_before {
            match parse_rfc3339(not_before.as_str()) {
                Some(start) => {
                    if now < start {
                        return Err(PraetoreError::AuthorityVerificationFailed);
                    }
                },
                None => return Err(PraetoreError::AuthorityVerificationFailed),
            }
        }
        if let Some(not_after) = &request.authority.validity.not_after {
            match parse_rfc3339(not_after.as_str()) {
                Some(end) => {
                    if now > end {
                        return Err(PraetoreError::AuthorityVerificationFailed);
                    }
                },
                None => return Err(PraetoreError::AuthorityVerificationFailed),
            }
        }
        if !request.authority.permits(request.action.action_type.as_str()) {
            let mut reason = "authority does not permit action type: ".to_owned();
            reason.append(request.action.action_type.as_str());
            return Ok(Decision::deny(reason.as_str()));
        }
        self.policy.evaluate(&request.agent, &request.authority, &request.action)
    }
}

/// Fail closed: evidence of an ALLOW decision exists only for a request
/// whose agent identity and authority are valid, whose authority is in its
/// validity window at the evaluation instant and declares the action type,
/// and whose policy is valid, has an applicable ALLOW rule and no applicable
/// DENY or REQUIRE_APPROVAL rule.
pub proof fn law_allow_requires_every_check(
    result: Result<Evidence, PraetoreError>,
    p: PolicyModel,
    r: RequestModel,
    now: i128,
)
    requires
        evaluation(result, p, r, now),
        result matches Ok(ev) && ev.decision.outcome == DecisionOutcome::Allow,
    ensures
        identity_error(r.agent) is None,
        authority_error(r.authority) is None,
        in_window(r.authority.validity, now),
        r.authority.capabilities.contains(r.action.action_type),
        policy_error(p) is None,
        some_matching_rule_yields(p.rules, r.authority, r.action, DecisionOutcome::Allow),
        !some_matching_rule_yields(p.rules, r.authority, r.action, DecisionOutcome::Deny),
        !some_matching_rule_yields(
            p.rules,
            r.authority,
            r.action,
            DecisionOutcome::RequireApproval,
        ),
{
    let d = engine_decision(p, r, now)->Ok_0;
    assert(engine_decision(p, r, now) is Ok);
    assert(authority_error(r.authority) is None);
    assert(in_window(r.authority.validity, now));
    assert(r.authority.capabilities.contains(r.action.action_type));
    assert(policy_decision(p, r.authority, r.action) == Ok::<DecisionModel, ErrorModel>(d));
    assert(policy_error(p) is None);
    law_strongest_applicable_rule_prevails(p, r.authority, r.action);
    assert(some_rule_matches(p.rules, r.authority, r.action));
    let rule = choose|rule: crate::policy::RuleModel|
        #[trigger] p.rules.contains(rule) && crate::policy::rule_matches(rule, r.authority, r.action);
    assert(crate::policy::rule_outcome(rule) == DecisionOutcome::Allow || crate::policy::rule_outcome(rule) == DecisionOutcome::Deny || crate::policy::rule_outcome(rule) == DecisionOutcome::RequireApproval);
}

/// An invalid authority is refused with its own error, whatever the policy
/// and the instant.
pub proof fn law_invalid_authority_is_refused(p: PolicyModel, r: RequestModel, now: i128)
    requires
        authority_error(r.authority) is Some,
    ensures
        engine_decision(p, r, now) == Err::<DecisionModel, ErrorModel>(
            authority_error(r.authority)->0,
        ),
{
}

/// A valid authority is refused outside its validity window, whatever the
/// policy: when a bound it has does not read as an RFC 3339 instant, or
/// `now` is before its start or after its end (both ends belong to the
/// window).
pub proof fn law_outside_window_is_refused(p: PolicyModel, r: RequestModel, now: i128)
    requires
        authority_error(r.authority) is None,
        (r.authority.validity.not_before matches Some(t) && !(rfc3339_instant(t) is Some
            && rfc3339_instant(t)->0 <= now)) || (r.authority.validity.not_after matches Some(t)
            && !(rfc3339_instant(t) is Some && now <= rfc3339_instant(t)->0)),
    ensures
        engine_decision(p, r, now) == Err::<DecisionModel, ErrorModel>(
            ErrorModel::AuthorityVerificationFailed,
        ),
{
}

/// An action type that a valid authority in its window does not declare is
/// denied before the policy is consulted: the decision is DENY with the
/// not-permitted reason and no contributions, the same under any two
/// policies.
pub proof fn law_undeclared_action_type_is_denied(
    p: PolicyModel,
    q: PolicyModel,
    r: RequestModel,
    now: i128,
)
    requires
        authority_error(r.authority) is None,
        r.authority.validity.not_before matches Some(t) ==> rfc3339_instant(t) is Some
            && rfc3339_instant(t)->0 <= now,
        r.authority.validity.not_after matches Some(t) ==> rfc3339_instant(t) is Some && now
            <= rfc3339_instant(t)->0,
        !r.authority.capabilities.contains(r.action.action_type),
    ensures
        engine_decision(p, r, now) == Ok::<DecisionModel, ErrorModel>(
            DecisionModel {
                outcome: DecisionOutcome::Deny,
                reason: "authority does not permit action type: "@ + r.action.action_type,
                contributions: Seq::empty(),
            },
        ),
        engine_decision(p, r, now) == engine_decision(q, r, now),
{
}

/// Once a valid authority is in its window and declares the action type,
/// the engine's decision is the policy's decision, unchanged: its error, or
/// its outcome, reason and contributions (a REQUIRE_APPROVAL stays one).
pub proof fn law_declared_action_type_follows_policy(p: PolicyModel, r: RequestModel, now: i128)
    requires
        authority_error(r.authority) is None,
        r.authority.validity.not_before matches Some(t) ==> rfc3339_instant(t) is Some
            && rfc3339_instant(t)->0 <= now,
        r.authority.validity.not_after matches Some(t) ==> rfc3339_instant(t) is Some && now
            <= rfc3339_instant(t)->0,
        r.authority.capabilities.contains(r.action.action_type),
    ensures
        engine_decision(p, r, now) == policy_decision(p, r.authority, r.action),
{
}

} // verus!
