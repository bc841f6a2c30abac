use vstd::prelude::*;

verus! {

/// The outcome of an authorization decision.
///
/// Outcomes are ordered by security precedence:
/// DENY > REQUIRE_APPROVAL > ALLOW.
#[derive(Debug, Clone, Copy, PartialEq, Eq, Structural)]
pub enum DecisionOutcome {
    Allow,
    RequireApproval,
    Deny,
}

/// Security precedence of an outcome: the higher, the more restrictive.
pub open spec fn rank(o: DecisionOutcome) -> nat {
    match o {
        DecisionOutcome::Allow => 0,
        DecisionOutcome::RequireApproval => 1,
        DecisionOutcome::Deny => 2,
    }
}

/// The more restrictive of two outcomes.
pub open spec fn strongest_of(a: DecisionOutcome, b: DecisionOutcome) -> DecisionOutcome {
    if rank(a) >= rank(b) {
        a
    } else {
        b
    }
}

impl DecisionOutcome {
    /// Returns the strongest outcome between two decisions.
    pub fn strongest(self, other: Self) -> (r: Self)
        ensures
            r == strongest_of(self, other),
    {
        match (self, other) {
            (DecisionOutcome::Deny, _) | (_, DecisionOutcome::Deny) => DecisionOutcome::Deny,
            (DecisionOutcome::RequireApproval, _) | (_, DecisionOutcome::RequireApproval) => {
                DecisionOutcome::RequireApproval
            },
            (DecisionOutcome::Allow, DecisionOutcome::Allow) => DecisionOutcome::Allow,
        }
    }

    pub fn is_allowed(self) -> (r: bool)
        ensures
            r == (self == DecisionOutcome::Allow),
    {
        matches!(self, DecisionOutcome::Allow)
    }

    pub fn requires_approval(self) -> (r: bool)
        ensures
            r == (self == DecisionOutcome::RequireApproval),
    {
        matches!(self, DecisionOutcome::RequireApproval)
    }

    pub fn is_denied(self) -> (r: bool)
        ensures
            r == (self == DecisionOutcome::Deny),
    {
        matches!(self, DecisionOutcome::Deny)
    }
}

/// Combining outcomes does not depend on their order.
pub proof fn law_strongest_commutative(a: DecisionOutcome, b: DecisionOutcome)
    ensures
        strongest_of(a, b) == strongest_of(b, a),
{
}

/// Combining outcomes does not depend on how they are grouped.
pub proof fn law_strongest_associative(a: DecisionOutcome, b: DecisionOutcome, c: DecisionOutcome)
    ensures
        strongest_of(strongest_of(a, b), c) == strongest_of(a, strongest_of(b, c)),
{
}

/// Combining an outcome with itself leaves it unchanged.
pub proof fn law_strongest_idempotent(a: DecisionOutcome)
    ensures
        strongest_of(a, a) == a,
{
}

/// DENY overrides every outcome, and ALLOW overrides none.
pub proof fn law_deny_dominates_allow_yields(a: DecisionOutcome)
    ensures
        strongest_of(DecisionOutcome::Deny, a) == DecisionOutcome::Deny,
        strongest_of(a, DecisionOutcome::Deny) == DecisionOutcome::Deny,
        strongest_of(DecisionOutcome::Allow, a) == a,
        strongest_of(a, DecisionOutcome::Allow) == a,
{
}

/// The combined outcome is one of the two, and at least as restrictive as each.
pub proof fn law_strongest_is_upper_bound(a: DecisionOutcome, b: DecisionOutcome)
    ensures
        strongest_of(a, b) == a || strongest_of(a, b) == b,
        rank(strongest_of(a, b)) >= rank(a),
        rank(strongest_of(a, b)) >= rank(b),
{
}

/// A single policy rule that contributed to a decision.
#[derive(Debug, Clone, PartialEq, Eq)]
pub struct DecisionContribution {
    pub rule_id: String,
    pub outcome: DecisionOutcome,
    pub reason: String,
}

/// Model of a [`DecisionContribution`].
pub struct ContributionModel {
    pub rule_id: Seq<char>,
    pub outcome: DecisionOutcome,
    pub reason: Seq<char>,
}

impl View for DecisionContribution {
    type V = ContributionModel;

    open spec fn view(&self) -> ContributionModel {
        ContributionModel { rule_id: self.rule_id@, outcome: self.outcome, reason: self.reason@ }
    }
}

impl DecisionContribution {
    pub fn new(rule_id: &str, outcome: DecisionOutcome, reason: &str) -> (r: Self)
        ensures
            r@ == (ContributionModel { rule_id: rule_id@, outcome, reason: reason@ }),
    {
        DecisionContribution { rule_id: rule_id.to_owned(), outcome, reason: reason.to_owned() }
    }
}

/// An authorization decision: its outcome, the reason given for it, and the
/// policy rules that contributed to it, in order.
#[derive(Debug, Clone, PartialEq, Eq)]
pub struct Decision {
    pub outcome: DecisionOutcome,
    pub reason: String,
    pub contributions: Vec<DecisionContribution>,
}

/// Model of a [`Decision`].
pub struct DecisionModel {
    pub outcome: DecisionOutcome,
    pub reason: Seq<char>,
    pub contributions: Seq<ContributionModel>,
}

/// Models of a sequence of contributions.
pub open spec fn contribution_models(cs: Seq<DecisionContribution>) -> Seq<ContributionModel> {
    cs.map_values(|c: DecisionContribution| c@)
}

impl View for Decision {
    type V = DecisionModel;

    open spec fn view(&self) -> DecisionModel {
        DecisionModel {
            outcome: self.outcome,
            reason: self.reason@,
            contributions: contribution_models(self.contributions@),
        }
    }
}

/// A decision with the given outcome and reason and no contributions.
pub open spec fn bare_decision(outcome: DecisionOutcome, reason: Seq<char>) -> DecisionModel {
    DecisionModel { outcome, reason, contributions: Seq::empty() }
}

/// The combination of two decisions: the strongest outcome, the reason of
/// the first decision when its outcome prevails (ties included) and of the
/// second otherwise, and the contributions of both, first then second.
pub open spec fn combine(a: DecisionModel, b: DecisionModel) -> DecisionModel {
    let outcome = strongest_of(a.outcome, b.outcome);
    DecisionModel {
        outcome,
        reason: if a.outcome == outcome {
            a.reason
        } else {
            b.reason
        },
        contributions: a.contributions + b.contributions,
    }
}

impl Decision {
    pub fn allow(reason: &str) -> (r: Self)
        ensures
            r@ == bare_decision(DecisionOutcome::Allow, reason@),
    {
        let r = Decision {
            outcome: DecisionOutcome::Allow,
            reason: reason.to_owned(),
            contributions: Vec::new(),
        };
        assert(r@.contributions =~= Seq::<ContributionModel>::empty());
        r
    }

    pub fn require_approval(reason: &str) -> (r: Self)
        ensures
            r@ == bare_decision(DecisionOutcome::RequireApproval, reason@),
    {
        let r = Decision {
            outcome: DecisionOutcome::RequireApproval,
            reason: reason.to_owned(),
            contributions: Vec::new(),
        };
        assert(r@.contributions =~= Seq::<ContributionModel>::empty());
        r
    }

    pub fn deny(reason: &str) -> (r: Self)
        ensures
            r@ == bare_decision(DecisionOutcome::Deny, reason@),
    {
        let r = Decision {
            outcome: DecisionOutcome::Deny,
            reason: reason.to_owned(),
            contributions: Vec::new(),
        };
        assert(r@.contributions =~= Seq::<ContributionModel>::empty());
        r
    }

    /// Records one more contributing rule, after those already recorded.
    pub fn with_contribution(self, contribution: DecisionContribution) -> (r: Self)
        ensures
            r@ == (DecisionModel {
                contributions: self@.contributions.push(contribution@),
                ..self@
            }),
    {
        let mut d = self;
        d.contributions.push(contribution);
        assert(contribution_models(d.contributions@) =~= self@.contributions.push(contribution@));
        d
    }

    /// Combines two decisions; see [`combine`].
    pub fn strongest(self, other: Self) -> (r: Self)
        ensures
            r@ == combine(self@, other@),
    {
        let outcome = self.outcome.strongest(other.outcome);
        let reason = if self.outcome == outcome {
            self.reason.clone()
        } else {
            other.reason.clone()
        };
        let mut contributions = self.contributions;
        let mut rest = other.contributions;
        let ghost first = contributions@;
        let ghost second = rest@;
        contributions.append(&mut rest);
        assert(contribution_models(contributions@) =~= contribution_models(first)
            + contribution_models(second));
        Decision { outcome, reason, contributions }
    }
}

/// Combining two decisions: the outcome is DENY when either denies, else
/// REQUIRE_APPROVAL when either requires approval, else ALLOW; the reason is
/// that of the first decision when its outcome is the combined one, else
/// that of the second; every contribution of the first comes first, then
/// every contribution of the second.
pub proof fn law_combined_decision(a: DecisionModel, b: DecisionModel)
    ensures
        ({
            let c = combine(a, b);
            &&& c.outcome == if a.outcome == DecisionOutcome::Deny || b.outcome
                == DecisionOutcome::Deny {
                DecisionOutcome::Deny
            } else if a.outcome == DecisionOutcome::RequireApproval || b.outcome
                == DecisionOutcome::RequireApproval {
                DecisionOutcome::RequireApproval
            } else {
                DecisionOutcome::Allow
            }
            &&& c.reason == if a.outcome == c.outcome {
                a.reason
            } else {
                b.reason
            }
            &&& c.contributions.len() == a.contributions.len() + b.contributions.len()
            &&& forall|i: int| 0 <= i < a.contributions.len() ==> c.contributions[i] == a.contributions[i]
            &&& forall|j: int|
                0 <= j < b.contributions.len() ==> c.contributions[a.contributions.len() + j]
                    == b.contributions[j]
        }),
{
}

} // verus!
