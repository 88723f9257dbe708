use fhir_resources_rs::data_types::uri::{Uri, UriError};
use std::str::FromStr;

#[test]
fn test_valid_uri() {
    let uri = Uri::new("https://example.com".to_string()).unwrap();
    assert_eq!(uri.as_str(), "https://example.com");
}

#[test]
fn test_empty_uri() {
    let result = Uri::new("".to_string());
    assert!(result.is_err());
}

#[test]
fn test_uuid_uri_lowercase() {
    let uri = Uri::new("urn:uuid:53fefa32-fcbb-4ff8-8a92-55ee120877b7".to_string()).unwrap();
    assert!(uri.is_uuid());
}

#[test]
fn test_uuid_uri_uppercase_error() {
    let result = Uri::new("urn:uuid:53FEFA32-FCBB-4FF8-8A92-55EE120877B7".to_string());
    assert!(result.is_err());
}

#[test]
fn test_relative_uri() {
    let uri = Uri::new("relative/path".to_string()).unwrap();
    assert!(uri.is_relative());
    assert!(!uri.is_absolute());
}

#[test]
fn test_absolute_uri() {
    let uri = Uri::new("https://example.com/path".to_string()).unwrap();
    assert!(uri.is_absolute());
    assert!(!uri.is_relative());
}

#[test]
fn test_uri_with_fragment() {
    let uri = Uri::new("https://example.com#fragment".to_string()).unwrap();
    assert_eq!(uri.fragment(), Some("fragment"));
}

#[test]
fn test_uri_without_fragment() {
    let uri = Uri::new("https://example.com".to_string()).unwrap();
    assert_eq!(uri.fragment(), None);
}

#[test]
fn uri_test_from_str() {
    let uri = Uri::from_str("https://example.com").unwrap();
    assert_eq!(uri.as_str(), "https://example.com");
}

#[test]
fn uri_test_display() {
    let uri = Uri::new("https://example.com".to_string()).unwrap();
    assert_eq!(uri.to_string(), "https://example.com");
}

#[test]
fn test_uri_error_kinds() {
    assert!(matches!(Uri::new("".to_string()).unwrap_err(), UriError::Empty));
    assert!(matches!(
        Uri::new("https://example.com/\u{0007}".to_string()).unwrap_err(),
        UriError::InvalidCharacters(_)
    ));
    assert!(matches!(
        Uri::new("urn:uuid:53FEFA32".to_string()).unwrap_err(),
        UriError::UuidNotLowercase(_)
    ));
    // An empty scheme before `://` is a format error.
    assert!(matches!(
        Uri::new("://example.com".to_string()).unwrap_err(),
        UriError::InvalidFormat(_)
    ));
    // A scheme with a forbidden character is a format error.
    assert!(matches!(
        Uri::new("ht tp://example.com".to_string()).unwrap_err(),
        UriError::InvalidFormat(_)
    ));
    // An all-whitespace string trims to nothing.
    assert!(matches!(Uri::new("   ".to_string()).unwrap_err(), UriError::InvalidFormat(_)));
}

#[test]
fn test_uri_scheme_characters() {
    assert!(Uri::new("svn+ssh://example.com".to_string()).is_ok());
    assert!(Uri::new("view-source://example.com".to_string()).is_ok());
    assert!(Uri::new("a.b://example.com".to_string()).is_ok());
}

#[test]
fn test_uri_fragment_edges() {
    // The fragment runs to the end of the string, later `#` included.
    let uri = Uri::new("https://example.com#a#b".to_string()).unwrap();
    assert_eq!(uri.fragment(), Some("a#b"));
    let uri = Uri::new("https://example.com#".to_string()).unwrap();
    assert_eq!(uri.fragment(), Some(""));
}
