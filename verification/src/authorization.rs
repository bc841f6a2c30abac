use vstd::prelude::*;

use crate::action::{Action, ActionModel, action_error};
use crate::authority::{Authority, AuthorityModel, authority_error};
use crate::decision::{Decision, DecisionModel};
use crate::error::{ErrorModel, PraetoreError, failure};
use crate::evidence::{Evidence, EvidenceModel, records};
use crate::identity::{AgentIdentity, IdentityModel, identity_error};
use crate::ids::{is_random_uuid, random_uuid};
use crate::text::{blank, is_blank, opt_text};

verus! {

/// A request by an agent, under an authority, to perform an action.
///
/// `request_id` is a UUID held as its big-endian 128-bit value.
#[derive(Debug, Clone)]
pub struct AuthorizationRequest {
    pub request_id: u128,
    pub agent: AgentIdentity,
    pub authority: Authority,
    pub action: Action,
    pub trace_id: Option<String>,
}

/// Model of an [`AuthorizationRequest`].
pub struct RequestModel {
    pub request_id: u128,
    pub agent: IdentityModel,
    pub authority: AuthorityModel,
    pub action: ActionModel,
    pub trace_id: Option<Seq<char>>,
}

impl View for AuthorizationRequest {
    type V = RequestModel;

    open spec fn view(&self) -> RequestModel {
        RequestModel {
            request_id: self.request_id,
            agent: self.agent@,
            authority: self.authority@,
            action: self.action@,
            trace_id: opt_text(self.trace_id),
        }
    }
}

pub open spec fn subject_mismatch() -> ErrorModel {
    ErrorModel::InvalidRequest("authority subject does not match agent identity"@)
}

pub open spec fn empty_trace_id() -> ErrorModel {
    ErrorModel::InvalidRequest("trace id cannot be empty"@)
}

/// The first rule a new request breaks, if any: the authority is the
/// agent's, then the authority is valid, then the action is valid.
pub open spec fn request_error(
    agent: IdentityModel,
    authority: AuthorityModel,
    action: ActionModel,
) -> Option<ErrorModel> {
    if agent.id != authority.subject {
        Some(subject_mismatch())
    } else if authority_error(authority) is Some {
        authority_error(authority)
    } else {
        action_error(action)
    }
}

/// The first rule a request breaks when it is attested, if any, in this
/// order: valid identity, valid authority, valid action, the authority is
/// the agent's, and a non-blank trace id where one is set.
pub open spec fn attest_error(r: RequestModel) -> Option<ErrorModel> {
    if identity_error(r.agent) is Some {
        identity_error(r.agent)
    } else if authority_error(r.authority) is Some {
        authority_error(r.authority)
    } else if action_error(r.action) is Some {
        action_error(r.action)
    } else if r.agent.id != r.authority.subject {
        Some(subject_mismatch())
    } else if r.trace_id matches Some(t) && is_blank(t) {
        Some(empty_trace_id())
    } else {
        None
    }
}

/// Whether `e` is evidence of request `r` with decision `d`.
pub open spec fn attests(e: EvidenceModel, r: RequestModel, d: DecisionModel) -> bool {
    records(e, r.request_id, r.agent, r.authority, r.action, d, r.trace_id)
}

impl AuthorizationRequest {
    /// A request with a fresh random id and no trace id; see [`request_error`].
    pub fn new(agent: AgentIdentity, authority: Authority, action: Action) -> (r: Result<
        Self,
        PraetoreError,
    >)
        ensures
            failure(r) == request_error(agent@, authority@, action@),
            r matches Ok(req) ==> is_random_uuid(req.request_id) && req@ == (RequestModel {
                request_id: req.request_id,
                agent: agent@,
                authority: authority@,
                action: action@,
                trace_id: None,
            }),
    {
        if !(agent.id == authority.subject) {
            return Err(
                PraetoreError::InvalidRequest(
                    "authority subject does not match agent identity".to_owned(),
                ),
            );
        }
        match authority.validate() {
            Ok(()) => {},
            Err(e) => return Err(e),
        }
        match action.validate() {
            Ok(()) => {},
            Err(e) => return Err(e),
        }
        Ok(
            AuthorizationRequest {
                request_id: random_uuid(),
                agent,
                authority,
                action,
                trace_id: None,
            },
        )
    }

    /// Attaches a trace id, which may not be blank.
    pub fn with_trace_id(self, trace_id: &str) -> (r: Result<Self, PraetoreError>)
        ensures
            failure(r) == if is_blank(trace_id@) {
                Some(empty_trace_id())
            } else {
                None
            },
            r matches Ok(req) ==> req@ == (RequestModel { trace_id: Some(trace_id@), ..self@ }),
    {
        if blank(trace_id) {
            return Err(PraetoreError::InvalidRequest("trace id cannot be empty".to_owned()));
        }
        let mut req = self;
        req.trace_id = Some(trace_id.to_owned());
        Ok(req)
    }

    /// Re-checks the request and binds it with `decision` into evidence; see
    /// [`attest_error`] and [`attests`].
    pub fn attest(self, decision: Decision) -> (r: Result<Evidence, PraetoreError>)
        ensures
            failure(r) == attest_error(self@),
            r matches Ok(e) ==> is_random_uuid(e.evidence_id) && attests(e@, self@, decision@),
    {
        match self.agent.validate() {
            Ok(()) => {},
            Err(e) => return Err(e),
        }
        match self.authority.validate() {
            Ok(()) => {},
            Err(e) => return Err(e),
        }
        match self.action.validate() {
            Ok(()) => {},
            Err(e) => return Err(e),
        }
        if !(self.agent.id == self.authority.subject) {
            return Err(
                PraetoreError::InvalidRequest(
                    "authority subject does not match agent identity".to_owned(),
                ),
            );
        }
        if let Some(trace_id) = &self.trace_id {
            if blank(trace_id.as_str()) {
                return Err(PraetoreError::InvalidRequest("trace id cannot be empty".to_owned()));
            }
        }
        Ok(
            Evidence::new(
                self.request_id,
                self.agent,
                self.authority,
                self.action,
                decision,
                self.trace_id,
            ),
        )
    }
}

/// A request that passed its own checks, with a valid agent identity and no
/// tampering since, is always attested.
pub proof fn law_untampered_request_attests(r: RequestModel)
    requires
        identity_error(r.agent) is None,
        request_error(r.agent, r.authority, r.action) is None,
        r.trace_id matches Some(t) ==> !is_blank(t),
    ensures
        attest_error(r) is None,
{
}

/// A new request is accepted exactly when the authority is the agent's, the
/// authority passes its check and the action's type is not blank.
pub proof fn law_request_check_is_exact(
    agent: IdentityModel,
    authority: AuthorityModel,
    action: ActionModel,
)
    ensures
        request_error(agent, authority, action) is None <==> {
            &&& agent.id == authority.subject
            &&& authority_error(authority) is None
            &&& !is_blank(action.action_type)
        },
{
}

/// A request is attested exactly when its identity, authority and action
/// pass their checks, the authority is the agent's, and a trace id, where
/// set, is not blank.
pub proof fn law_attestation_check_is_exact(r: RequestModel)
    ensures
        attest_error(r) is None <==> {
            &&& identity_error(r.agent) is None
            &&& authority_error(r.authority) is None
            &&& !is_blank(r.action.action_type)
            &&& r.agent.id == r.authority.subject
            &&& (r.trace_id matches Some(t) ==> !is_blank(t))
        },
{
}

} // verus!
