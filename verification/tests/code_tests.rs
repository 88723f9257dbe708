use fhir_resources_rs::data_types::code::{Code, CodeError};
use std::str::FromStr;

#[test]
fn test_valid_single_token() {
    let code = Code::new("active".to_string()).unwrap();
    assert_eq!(code.as_str(), "active");
    assert!(code.is_single_token());
    assert_eq!(code.token_count(), 1);
}

#[test]
fn test_valid_multi_token() {
    let code = Code::new("active status".to_string()).unwrap();
    assert_eq!(code.as_str(), "active status");
    assert!(code.is_multi_token());
    assert_eq!(code.token_count(), 2);
    assert_eq!(code.tokens(), vec!["active", "status"]);
}

#[test]
fn test_empty_code() {
    let result = Code::new("".to_string());
    assert!(result.is_err());
    assert!(matches!(result.unwrap_err(), CodeError::Empty));
}

#[test]
fn test_leading_whitespace() {
    let result = Code::new(" active".to_string());
    assert!(result.is_err());
    assert!(matches!(result.unwrap_err(), CodeError::LeadingTrailingWhitespace));
}

#[test]
fn test_trailing_whitespace() {
    let result = Code::new("active ".to_string());
    assert!(result.is_err());
    assert!(matches!(result.unwrap_err(), CodeError::LeadingTrailingWhitespace));
}

#[test]
fn test_multiple_spaces() {
    let result = Code::new("active  status".to_string());
    assert!(result.is_err());
    assert!(matches!(result.unwrap_err(), CodeError::MultipleSpaces));
}

#[test]
fn test_tab_character() {
    let result = Code::new("active\tstatus".to_string());
    assert!(result.is_err());
    assert!(matches!(result.unwrap_err(), CodeError::InvalidWhitespace));
}

#[test]
fn test_newline_character() {
    let result = Code::new("active\nstatus".to_string());
    assert!(result.is_err());
    assert!(matches!(result.unwrap_err(), CodeError::InvalidWhitespace));
}

#[test]
fn test_complex_valid_code() {
    let code = Code::new("active status with multiple tokens".to_string()).unwrap();
    assert_eq!(code.token_count(), 5);
    assert_eq!(code.tokens(), vec!["active", "status", "with", "multiple", "tokens"]);
}

#[test]
fn code_test_from_str() {
    let code = Code::from_str("active").unwrap();
    assert_eq!(code.as_str(), "active");
}

#[test]
fn code_test_display() {
    let code = Code::new("active status".to_string()).unwrap();
    assert_eq!(code.to_string(), "active status");
}

#[test]
fn test_regex_pattern_validation() {
    // Valid patterns
    assert!(Code::new("token".to_string()).is_ok());
    assert!(Code::new("token1 token2".to_string()).is_ok());
    assert!(Code::new("token1 token2 token3".to_string()).is_ok());

    // Invalid patterns
    assert!(Code::new(" token".to_string()).is_err()); // leading space
    assert!(Code::new("token ".to_string()).is_err()); // trailing space
    assert!(Code::new("token  token2".to_string()).is_err()); // multiple spaces
    assert!(Code::new("".to_string()).is_err()); // empty
}

#[test]
fn test_code_validate_method() {
    let checked = Code::new_unchecked("a b".to_string());
    assert!(checked.validate().is_ok());
    let bad = Code::new_unchecked("a  b".to_string());
    assert!(matches!(bad.validate().unwrap_err(), CodeError::MultipleSpaces));
}

#[test]
fn test_code_error_priority_order() {
    // Empty wins over everything.
    assert!(matches!(Code::new("".to_string()).unwrap_err(), CodeError::Empty));
    // Edge whitespace wins over interior problems.
    assert!(matches!(
        Code::new(" a\tb  c ".to_string()).unwrap_err(),
        CodeError::LeadingTrailingWhitespace
    ));
    // Tabs and newlines win over double spaces.
    assert!(matches!(
        Code::new("a\tb  c".to_string()).unwrap_err(),
        CodeError::InvalidWhitespace
    ));
    // Double spaces win over exotic whitespace.
    assert!(matches!(
        Code::new("a  b\u{00a0}c".to_string()).unwrap_err(),
        CodeError::MultipleSpaces
    ));
    // Interior non-space whitespace fails the token pattern.
    assert!(matches!(
        Code::new("a\u{00a0}b".to_string()).unwrap_err(),
        CodeError::InvalidPattern
    ));
}

#[test]
fn test_code_token_shape() {
    // A valid code never yields empty tokens when split on spaces.
    let code = Code::new("one two three".to_string()).unwrap();
    for token in code.tokens() {
        assert!(!token.is_empty());
        assert!(!token.contains(' '));
    }
    assert_eq!(code.is_single_token(), !code.is_multi_token());
    assert_eq!(code.token_count(), code.tokens().len());
}
