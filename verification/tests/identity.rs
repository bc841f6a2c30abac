use praetore_core::error::PraetoreError;
use praetore_core::identity::{AgentId, AgentIdentity};

#[test]
fn creates_unique_agent_ids() {
    let first = AgentId::new();
    let second = AgentId::new();

    assert_ne!(first, second);
}

#[test]
fn agent_id_exposes_underlying_uuid() {
    let id = AgentId::new();

    assert!(!uuid::Uuid::from_u128(id.as_uuid()).is_nil());
}

#[test]
fn agent_id_is_a_random_uuid() {
    let id = AgentId::default();
    let uuid = uuid::Uuid::from_u128(id.as_uuid());

    assert_eq!(uuid.get_version_num(), 4);
    assert_eq!(uuid.get_variant(), uuid::Variant::RFC4122);
}

#[test]
fn rejects_empty_public_key() {
    let result = AgentIdentity::new(AgentId::new(), Vec::new(), "ed25519");

    assert!(matches!(result, Err(PraetoreError::InvalidIdentity(_))));
}

#[test]
fn rejects_empty_algorithm() {
    let result = AgentIdentity::new(AgentId::new(), vec![1, 2, 3], "");

    assert!(matches!(result, Err(PraetoreError::InvalidIdentity(_))));
}

#[test]
fn rejects_whitespace_algorithm() {
    let result = AgentIdentity::new(AgentId::new(), vec![1, 2, 3], "   ");

    assert!(matches!(result, Err(PraetoreError::InvalidIdentity(_))));
}

#[test]
fn rejects_algorithm_with_surrounding_whitespace() {
    let result = AgentIdentity::new(AgentId::new(), vec![1, 2, 3], " ed25519 ");

    assert!(matches!(result, Err(PraetoreError::InvalidIdentity(_))));
}

#[test]
fn accepts_valid_identity() {
    let identity =
        AgentIdentity::new(AgentId::new(), vec![1, 2, 3], "ed25519").expect("valid identity");

    assert_eq!(identity.public_key, vec![1, 2, 3]);
    assert_eq!(identity.key_algorithm, "ed25519");
    assert!(identity.validate().is_ok());
}

#[test]
fn validate_rejects_tampered_identity() {
    let mut identity = AgentIdentity::new(AgentId::new(), vec![1, 2, 3], "ed25519").unwrap();

    identity.public_key.clear();

    assert!(matches!(
        identity.validate(),
        Err(PraetoreError::InvalidIdentity(_))
    ));
}

#[test]
fn identity_errors_carry_their_messages() {
    let message = |r: Result<AgentIdentity, PraetoreError>| match r {
        Err(PraetoreError::InvalidIdentity(m)) => m,
        other => panic!("unexpected result: {:?}", other),
    };

    assert_eq!(
        message(AgentIdentity::new(AgentId::new(), Vec::new(), "")),
        "public key cannot be empty"
    );
    assert_eq!(
        message(AgentIdentity::new(AgentId::new(), vec![1], " ")),
        "key algorithm cannot be empty"
    );
    assert_eq!(
        message(AgentIdentity::new(AgentId::new(), vec![1], "ed25519\n")),
        "key algorithm cannot have leading or trailing whitespace"
    );
}

#[test]
fn inner_whitespace_is_allowed_in_algorithm() {
    assert!(AgentIdentity::new(AgentId::new(), vec![1], "ed 25519").is_ok());
}
