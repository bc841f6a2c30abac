use vstd::prelude::*;

use crate::error::{ErrorModel, PraetoreError, failure};
use crate::ids::{is_random_uuid, random_uuid};
use crate::text::{
    blank, has_surrounding_white_space, is_blank, is_white_space, surrounded_by_white_space,
};

verus! {

/// Stable identifier for an agent: a UUID, held as its big-endian 128-bit value.
///
/// This identifier is intentionally separate from cryptographic key material.
/// An AgentId identifies an agent; it does not, by itself, authenticate it.
#[derive(Debug, Clone, Copy, PartialEq, Eq, Hash, Structural)]
pub struct AgentId(pub u128);

impl AgentId {
    /// A fresh random identifier.
    pub fn new() -> (r: Self)
        ensures
            is_random_uuid(r.0),
    {
        AgentId(random_uuid())
    }

    /// The underlying UUID, as its big-endian 128-bit value.
    pub fn as_uuid(&self) -> (r: u128)
        ensures
            r == self.0,
    {
        self.0
    }
}

impl Default for AgentId {
    fn default() -> (r: Self)
        ensures
            is_random_uuid(r.0),
    {
        AgentId::new()
    }
}

/// Public identity information associated with an agent.
///
/// `public_key` is represented as opaque bytes at this layer. The concrete
/// cryptographic algorithm belongs to the authentication layer and must not
/// be inferred from an arbitrary caller-supplied string.
#[derive(Debug, Clone, PartialEq, Eq)]
pub struct AgentIdentity {
    pub id: AgentId,
    pub public_key: Vec<u8>,
    pub key_algorithm: String,
}

/// Model of an [`AgentIdentity`].
pub struct IdentityModel {
    pub id: u128,
    pub public_key: Seq<u8>,
    pub key_algorithm: Seq<char>,
}

impl View for AgentIdentity {
    type V = IdentityModel;

    open spec fn view(&self) -> IdentityModel {
        IdentityModel {
            id: self.id.0,
            public_key: self.public_key@,
            key_algorithm: self.key_algorithm@,
        }
    }
}

/// The first rule an identity breaks, if any: a non-empty public key, and a
/// key algorithm that is neither blank nor surrounded by white space.
pub open spec fn identity_error(m: IdentityModel) -> Option<ErrorModel> {
    if m.public_key.len() == 0 {
        Some(ErrorModel::InvalidIdentity("public key cannot be empty"@))
    } else if is_blank(m.key_algorithm) {
        Some(ErrorModel::InvalidIdentity("key algorithm cannot be empty"@))
    } else if has_surrounding_white_space(m.key_algorithm) {
        Some(
            ErrorModel::InvalidIdentity(
                "key algorithm cannot have leading or trailing whitespace"@,
            ),
        )
    } else {
        None
    }
}

impl AgentIdentity {
    /// Builds an identity and checks it; see [`identity_error`].
    pub fn new(id: AgentId, public_key: Vec<u8>, key_algorithm: &str) -> (r: Result<
        Self,
        PraetoreError,
    >)
        ensures
            failure(r) == identity_error(
                IdentityModel { id: id.0, public_key: public_key@, key_algorithm: key_algorithm@ },
            ),
            r matches Ok(identity) ==> identity@ == (IdentityModel {
                id: id.0,
                public_key: public_key@,
                key_algorithm: key_algorithm@,
            }),
    {
        let identity = AgentIdentity { id, public_key, key_algorithm: key_algorithm.to_owned() };
        match identity.validate() {
            Ok(()) => Ok(identity),
            Err(e) => Err(e),
        }
    }

    /// Checks the identity; see [`identity_error`].
    pub fn validate(&self) -> (r: Result<(), PraetoreError>)
        ensures
            failure(r) == identity_error(self@),
    {
        if self.public_key.len() == 0 {
            return Err(PraetoreError::InvalidIdentity("public key cannot be empty".to_owned()));
        }
        if blank(self.key_algorithm.as_str()) {
            return Err(PraetoreError::InvalidIdentity("key algorithm cannot be empty".to_owned()));
        }
        if surrounded_by_white_space(self.key_algorithm.as_str()) {
            return Err(
                PraetoreError::InvalidIdentity(
                    "key algorithm cannot have leading or trailing whitespace".to_owned(),
                ),
            );
        }
        Ok(())
    }
}

/// An identity passes its check exactly when it has a public key and a key
/// algorithm that is not blank and neither starts nor ends with white space.
pub proof fn law_identity_check_is_exact(m: IdentityModel)
    ensures
        identity_error(m) is None <==> {
            &&& m.public_key.len() > 0
            &&& !is_blank(m.key_algorithm)
            &&& !is_white_space(m.key_algorithm[0])
            &&& !is_white_space(m.key_algorithm[m.key_algorithm.len() - 1])
        },
{
}

} // verus!
