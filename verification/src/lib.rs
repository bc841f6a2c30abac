//! Authorization and governance primitives: identities, authorities, actions,
//! policies, decisions and tamper-evident evidence.

pub mod error;
pub mod text;
pub mod decision;
pub mod ids;
pub mod identity;
pub mod timestamp;
pub mod authority;
pub mod action;
pub mod policy;
pub mod canonical;
pub mod digest;
pub mod evidence;
pub mod authorization;
pub mod engine;
pub mod integrity;
pub mod framing;

pub use action::Action;
pub use authority::{Authority, AuthorityId};
pub use authorization::AuthorizationRequest;
pub use decision::{Decision, DecisionOutcome};
pub use error::{PraetoreError, Result};
pub use identity::{AgentId, AgentIdentity};
pub use policy::{Policy, PolicyEffect, PolicyRule};
