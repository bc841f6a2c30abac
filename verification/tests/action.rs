use praetore_core::action::Action;
use praetore_core::error::PraetoreError;

#[test]
fn creates_valid_action() {
    let action = Action::new("read:data", None, "{\"resource\":\"users\"}".to_string())
        .expect("valid action");

    assert_eq!(action.action_type, "read:data");
    assert_eq!(action.target, None);
}

#[test]
fn rejects_empty_action_type() {
    let result = Action::new("", None, "null".to_string());

    assert!(result.is_err());
}

#[test]
fn rejects_whitespace_action_type() {
    let result = Action::new("   ", None, "null".to_string());

    assert!(result.is_err());
}

#[test]
fn rejects_invalid_action_after_construction() {
    let action = Action {
        action_type: "   ".into(),
        target: None,
        parameters: "null".to_string(),
    };

    assert!(action.validate().is_err());
}

#[test]
fn action_error_carries_message() {
    match Action::new("\t\n", Some("db".to_string()), "{}".to_string()) {
        Err(PraetoreError::InvalidRequest(m)) => assert_eq!(m, "action type cannot be empty"),
        other => panic!("unexpected result: {:?}", other),
    }
}

#[test]
fn action_keeps_target_and_parameters() {
    let action =
        Action::new("write", Some("database".to_string()), "{\"a\":1}".to_string()).unwrap();

    assert_eq!(action.target.as_deref(), Some("database"));
    assert_eq!(action.parameters, "{\"a\":1}");
    assert!(action.validate().is_ok());
}

#[test]
fn non_ascii_white_space_is_blank() {
    // U+3000 IDEOGRAPHIC SPACE and U+00A0 NO-BREAK SPACE are white space for `trim`.
    assert!(Action::new("\u{3000}\u{a0}", None, "null".to_string()).is_err());
    assert!(Action::new("\u{3000}x", None, "null".to_string()).is_ok());
}

#[test]
fn rejects_parameters_that_are_not_json() {
    match Action::new("read:data", None, "{table: users".to_string()) {
        Err(PraetoreError::InvalidRequest(message)) => {
            assert_eq!(message, "action parameters must be a JSON value")
        }
        other => panic!("expected an invalid request, got {:?}", other),
    }
}

#[test]
fn stores_parameters_in_compact_sorted_form() {
    let action =
        Action::new("read:data", None, "{ \"z\": [1, 2], \"a\": true }".to_string()).unwrap();

    assert_eq!(action.parameters, "{\"a\":true,\"z\":[1,2]}");
}

#[test]
fn blank_type_is_reported_before_bad_parameters() {
    match Action::new(" ", None, "not json".to_string()) {
        Err(PraetoreError::InvalidRequest(message)) => {
            assert_eq!(message, "action type cannot be empty")
        }
        other => panic!("expected an invalid request, got {:?}", other),
    }
}
