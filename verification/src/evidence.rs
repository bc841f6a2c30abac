use vstd::prelude::*;

use crate::action::{Action, ActionModel};
use crate::authority::{Authority, AuthorityModel};
use crate::canonical::{context_json, json_context};
use crate::decision::{Decision, DecisionModel, DecisionOutcome};
use crate::digest::{hex_encode, hex_text, sha256, sha256_digest};
use crate::identity::{AgentIdentity, IdentityModel};
use crate::ids::{is_random_uuid, random_uuid};
use crate::text::opt_text;

verus! {

/// Evidence of an authorization decision: the request context, the decision,
/// and a SHA-256 context hash over both that detects later modification.
///
/// Identifiers are UUIDs held as their big-endian 128-bit values.
#[derive(Debug, Clone)]
pub struct Evidence {
    pub evidence_id: u128,
    pub request_id: u128,
    pub agent: AgentIdentity,
    pub authority: Authority,
    pub action: Action,
    pub decision: Decision,
    pub trace_id: Option<String>,
    pub context_hash: String,
}

/// Model of an [`Evidence`].
pub struct EvidenceModel {
    pub evidence_id: u128,
    pub request_id: u128,
    pub agent: IdentityModel,
    pub authority: AuthorityModel,
    pub action: ActionModel,
    pub decision: DecisionModel,
    pub trace_id: Option<Seq<char>>,
    pub context_hash: Seq<char>,
}

impl View for Evidence {
    type V = EvidenceModel;

    open spec fn view(&self) -> EvidenceModel {
        EvidenceModel {
            evidence_id: self.evidence_id,
            request_id: self.request_id,
            agent: self.agent@,
            authority: self.authority@,
            action: self.action@,
            decision: self.decision@,
            trace_id: opt_text(self.trace_id),
            context_hash: self.context_hash@,
        }
    }
}

/// The context hash of an authorization context: the lower-case hexadecimal
/// SHA-256 digest of its canonical JSON text.
pub open spec fn context_hash(
    request_id: u128,
    agent: IdentityModel,
    authority: AuthorityModel,
    action: ActionModel,
    decision: DecisionModel,
    trace_id: Option<Seq<char>>,
) -> Seq<char> {
    hex_text(sha256(json_context(request_id, agent, authority, action, decision, trace_id)))
}

/// Whether evidence carries the context hash of the context it holds.
pub open spec fn is_intact(e: EvidenceModel) -> bool {
    e.context_hash == context_hash(
        e.request_id,
        e.agent,
        e.authority,
        e.action,
        e.decision,
        e.trace_id,
    )
}

/// Whether `e` is evidence of exactly this context and decision, intact.
pub open spec fn records(
    e: EvidenceModel,
    request_id: u128,
    agent: IdentityModel,
    authority: AuthorityModel,
    action: ActionModel,
    decision: DecisionModel,
    trace_id: Option<Seq<char>>,
) -> bool {
    &&& e.request_id == request_id
    &&& e.agent == agent
    &&& e.authority == authority
    &&& e.action == action
    &&& e.decision == decision
    &&& e.trace_id == trace_id
    &&& is_intact(e)
}

impl Evidence {
    /// Binds a context and a decision into evidence with a fresh random id
    /// and the context's hash.
    pub fn new(
        request_id: u128,
        agent: AgentIdentity,
        authority: Authority,
        action: Action,
        decision: Decision,
        trace_id: Option<String>,
    ) -> (r: Self)
        ensures
            is_random_uuid(r.evidence_id),
            records(
                r@,
                request_id,
                agent@,
                authority@,
                action@,
                decision@,
                opt_text(trace_id),
            ),
    {
        let context_hash = Self::compute_context_hash(
            request_id,
            &agent,
            &authority,
            &action,
            &decision,
            &trace_id,
        );
        Evidence {
            evidence_id: random_uuid(),
            request_id,
            agent,
            authority,
            action,
            decision,
            trace_id,
            context_hash,
        }
    }

    /// The outcome of the recorded decision.
    pub fn outcome(&self) -> (r: DecisionOutcome)
        ensures
            r == self.decision.outcome,
    {
        self.decision.outcome
    }

    /// Whether the evidence is intact: its context hash is the hash of the
    /// context it holds.
    pub fn verify(&self) -> (r: bool)
        ensures
            r == is_intact(self@),
    {
        let expected = Self::compute_context_hash(
            self.request_id,
            &self.agent,
            &self.authority,
            &self.action,
            &self.decision,
            &self.trace_id,
        );
        self.context_hash == expected
    }

    fn compute_context_hash(
        request_id: u128,
        agent: &AgentIdentity,
        authority: &Authority,
        action: &Action,
        decision: &Decision,
        trace_id: &Option<String>,
    ) -> (r: String)
        ensures
            r@ == context_hash(
                request_id,
                agent@,
                authority@,
                action@,
                decision@,
                opt_text(*trace_id),
            ),
    {
        let canonical = context_json(request_id, agent, authority, action, decision, trace_id);
        let digest = sha256_digest(canonical.as_slice());
        hex_encode(digest.as_slice())
    }
}

/// Evidence verifies exactly when it is intact, and fresh evidence is intact:
/// whatever [`Evidence::new`] returns, [`Evidence::verify`] accepts.
pub proof fn law_fresh_evidence_verifies(
    e: EvidenceModel,
    request_id: u128,
    agent: IdentityModel,
    authority: AuthorityModel,
    action: ActionModel,
    decision: DecisionModel,
    trace_id: Option<Seq<char>>,
)
    requires
        records(e, request_id, agent, authority, action, decision, trace_id),
    ensures
        is_intact(e),
        e.context_hash == context_hash(request_id, agent, authority, action, decision, trace_id),
{
}

} // verus!
