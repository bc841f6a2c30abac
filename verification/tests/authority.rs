use praetore_core::authority::{Authority, AuthorityConstraint, AuthorityId, Validity};
use praetore_core::error::PraetoreError;
use praetore_core::identity::AgentId;

fn test_agent() -> AgentId {
    AgentId::new()
}

fn invalid_request(r: Result<(), PraetoreError>) -> String {
    match r {
        Err(PraetoreError::InvalidRequest(m)) => m,
        other => panic!("unexpected result: {:?}", other),
    }
}

const NANOS: i128 = 1_000_000_000;

#[test]
fn creates_unique_authority_ids() {
    let first = AuthorityId::new();
    let second = AuthorityId::new();

    assert_ne!(first, second);
}

#[test]
fn authority_permits_declared_capability() {
    let authority = Authority::new(
        test_agent(),
        "praetore-root",
        vec!["read:data".into(), "write:data".into()],
    );

    assert!(authority.permits("read:data"));
    assert!(authority.permits("write:data"));
}

#[test]
fn authority_rejects_undeclared_capability() {
    let authority = Authority::new(test_agent(), "praetore-root", vec!["read:data".into()]);

    assert!(!authority.permits("delete:data"));
}

#[test]
fn authority_can_have_constraints() {
    let authority = Authority::new(test_agent(), "praetore-root", vec!["call:api".into()])
        .with_constraint("environment", "production");

    assert_eq!(authority.constraints.len(), 1);
    assert_eq!(authority.constraints[0].key, "environment");
    assert_eq!(authority.constraints[0].value, "production");
    assert!(authority.validate().is_ok());
}

#[test]
fn authority_can_have_validity() {
    let validity = Validity {
        not_before: Some("2026-01-01T00:00:00Z".into()),
        not_after: Some("2027-01-01T00:00:00Z".into()),
    };

    let authority = Authority::new(test_agent(), "praetore-root", vec!["read:data".into()])
        .with_validity(validity.clone());

    assert_eq!(authority.validity, validity);
    assert!(authority.validate().is_ok());
}

#[test]
fn authority_defaults_to_version_one() {
    let authority = Authority::new(test_agent(), "praetore-root", vec!["read:data".into()]);

    assert_eq!(authority.version, 1);
}

#[test]
fn authority_rejects_empty_issuer() {
    let authority = Authority::new(test_agent(), "", vec!["read:data".into()]);

    assert!(authority.validate().is_err());
}

#[test]
fn authority_rejects_empty_capability() {
    let authority = Authority::new(test_agent(), "praetore-root", vec!["".into()]);

    assert!(authority.validate().is_err());
}

#[test]
fn authority_rejects_invalid_version() {
    let mut authority = Authority::new(test_agent(), "praetore-root", vec!["read:data".into()]);

    authority.version = 0;

    assert!(authority.validate().is_err());
}

#[test]
fn authority_rejects_empty_constraint_key() {
    let authority = Authority::new(test_agent(), "praetore-root", vec!["read:data".into()])
        .with_constraint("", "production");

    assert!(authority.validate().is_err());
}

#[test]
fn authority_rejects_empty_constraint_value() {
    let authority = Authority::new(test_agent(), "praetore-root", vec!["read:data".into()])
        .with_constraint("environment", "");

    assert!(authority.validate().is_err());
}

#[test]
fn authority_rejects_empty_not_before() {
    let authority = Authority::new(test_agent(), "praetore-root", vec!["read:data".into()])
        .with_validity(Validity {
            not_before: Some(String::new()),
            not_after: None,
        });

    assert!(authority.validate().is_err());
}

#[test]
fn authority_rejects_invalid_timestamp() {
    let authority = Authority::new(test_agent(), "praetore-root", vec!["read:data".into()])
        .with_validity(Validity {
            not_before: Some("not-a-timestamp".into()),
            not_after: None,
        });

    assert!(authority.validate().is_err());
}

#[test]
fn authority_rejects_invalid_validity_range() {
    let authority = Authority::new(test_agent(), "praetore-root", vec!["read:data".into()])
        .with_validity(Validity {
            not_before: Some("2027-01-01T00:00:00Z".into()),
            not_after: Some("2026-01-01T00:00:00Z".into()),
        });

    assert!(authority.validate().is_err());
}

#[test]
fn authority_errors_carry_their_messages_in_order() {
    let mut authority = Authority::new(test_agent(), " ", vec![" ".into()])
        .with_constraint("", "")
        .with_validity(Validity { not_before: Some("x".into()), not_after: None });
    authority.version = 0;
    assert_eq!(invalid_request(authority.validate()), "authority issuer cannot be empty");
    authority.issuer = "root".into();
    assert_eq!(
        invalid_request(authority.validate()),
        "authority version must be greater than zero"
    );
    authority.version = 2;
    assert_eq!(invalid_request(authority.validate()), "authority capability cannot be empty");
    authority.capabilities = vec!["read".into()];
    assert_eq!(
        invalid_request(authority.validate()),
        "authority constraint key cannot be empty"
    );
    authority.constraints = vec![
        AuthorityConstraint::new("region", "eu"),
        AuthorityConstraint::new("environment", "\t"),
        AuthorityConstraint::new("", "x"),
    ];
    assert_eq!(
        invalid_request(authority.validate()),
        "authority constraint 'environment' cannot have an empty value"
    );
    authority.constraints.clear();
    assert_eq!(
        invalid_request(authority.validate()),
        "authority validity timestamp must be valid RFC 3339"
    );
    authority.validity.not_before = Some(" ".into());
    assert_eq!(
        invalid_request(authority.validate()),
        "authority validity timestamp cannot be empty"
    );
    authority.validity = Validity {
        not_before: Some("2026-02-01T00:00:00Z".into()),
        not_after: Some("2026-01-01T00:00:00Z".into()),
    };
    assert_eq!(
        invalid_request(authority.validate()),
        "authority validity not_before cannot be after not_after"
    );
}

#[test]
fn constraint_validation() {
    assert!(AuthorityConstraint::new("environment", "production").validate().is_ok());
    assert!(AuthorityConstraint::new("  ", "production").validate().is_err());
    assert!(AuthorityConstraint::new("environment", "  ").validate().is_err());
}

#[test]
fn unbounded_validity_is_valid_and_always_active() {
    let validity = Validity::unbounded();

    assert_eq!(validity, Validity { not_before: None, not_after: None });
    assert!(validity.validate().is_ok());
    assert_eq!(validity.is_active_at(i128::MIN).unwrap(), true);
    assert_eq!(validity.is_active_at(i128::MAX).unwrap(), true);
}

#[test]
fn validity_is_active_within_bounds_inclusive() {
    // 2026-01-01T00:00:00Z and 2027-01-01T00:00:00Z as Unix seconds.
    let start = 1_767_225_600i128 * NANOS;
    let end = 1_798_761_600i128 * NANOS;
    let validity = Validity {
        not_before: Some("2026-01-01T00:00:00Z".into()),
        not_after: Some("2027-01-01T00:00:00Z".into()),
    };

    assert_eq!(validity.is_active_at(start).unwrap(), true);
    assert_eq!(validity.is_active_at(end).unwrap(), true);
    assert_eq!(validity.is_active_at(start - 1).unwrap(), false);
    assert_eq!(validity.is_active_at(end + 1).unwrap(), false);
}

#[test]
fn validity_reads_offsets() {
    // 2026-01-01T01:00:00+01:00 is 2026-01-01T00:00:00Z.
    let start = 1_767_225_600i128 * NANOS;
    let validity = Validity {
        not_before: Some("2026-01-01T01:00:00+01:00".into()),
        not_after: None,
    };

    assert_eq!(validity.is_active_at(start).unwrap(), true);
    assert_eq!(validity.is_active_at(start - 1).unwrap(), false);
}

#[test]
fn is_active_at_reports_unreadable_bounds() {
    let validity = Validity { not_before: None, not_after: Some("tomorrow".into()) };

    assert!(matches!(validity.is_active_at(0), Err(PraetoreError::InvalidRequest(_))));
}

#[test]
fn read_bounds_are_checked_in_order() {
    assert!(Validity::check_bounds(Some(5), Some(5)).is_ok());
    assert!(Validity::check_bounds(Some(6), Some(5)).is_err());
    assert!(Validity::check_bounds(None, Some(5)).is_ok());
    assert!(Validity::within(Some(5), Some(7), 5));
    assert!(Validity::within(Some(5), Some(7), 7));
    assert!(!Validity::within(Some(5), Some(7), 8));
    assert!(!Validity::within(Some(5), None, 4));
}

#[test]
fn with_validity_and_constraint_keep_other_fields() {
    let agent = test_agent();
    let authority = Authority::new(agent, "praetore-root", vec!["read:data".into()]);
    let id = authority.id;
    let updated = authority.with_constraint("k", "v").with_validity(Validity::unbounded());

    assert_eq!(updated.id, id);
    assert_eq!(updated.subject, agent);
    assert_eq!(updated.issuer, "praetore-root");
    assert_eq!(updated.capabilities, vec!["read:data".to_string()]);
}

#[test]
fn capabilities_are_compared_exactly() {
    let authority = Authority::new(test_agent(), "root", vec!["read:data".into()]);

    assert!(!authority.permits("read:data "));
    assert!(!authority.permits("READ:DATA"));
    assert!(!authority.permits(""));
}
