use fhir_resources_rs::data_types::uri::Uri;
use fhir_resources_rs::identifier::Identifier;
use fhir_resources_rs::period::Period;

#[test]
fn test_identifier_creation() {
    let system_uri = Uri::new_unchecked("https://hospital.example.com/patients".to_string());
    let use_uri = Uri::new_unchecked("official".to_string());
    let identifier = Identifier::new(use_uri, system_uri, "MRN12345".to_string());

    assert_eq!(identifier.use_value().as_str(), "official");
    assert_eq!(identifier.system().as_str(), "https://hospital.example.com/patients");
    assert_eq!(identifier.value(), "MRN12345");
    assert_eq!(identifier.period(), None);
}

#[test]
fn test_identifier_with_period() {
    let system_uri = Uri::new_unchecked("https://hospital.example.com/patients".to_string());
    let use_uri = Uri::new_unchecked("official".to_string());
    let mut identifier = Identifier::new(use_uri, system_uri, "MRN12345".to_string());

    let period = Period::new("2020-01-01".to_string(), "2023-12-31".to_string());
    identifier.set_period(Some(period));

    assert_eq!(identifier.use_value().as_str(), "official");
    assert_eq!(identifier.system().as_str(), "https://hospital.example.com/patients");
    assert_eq!(identifier.value(), "MRN12345");
    assert!(identifier.period().is_some());

    let period_ref = identifier.period().unwrap();
    assert_eq!(period_ref.start(), "2020-01-01");
    assert_eq!(period_ref.end(), "2023-12-31");
}

#[test]
fn test_identifier_different_use_types() {
    let use_types = vec![
        ("official", "Primary identifier"),
        ("secondary", "Secondary identifier"),
        ("temp", "Temporary identifier"),
        ("old", "Old identifier"),
    ];

    for (use_type, _description) in use_types {
        let system_uri = Uri::new_unchecked("https://example.com/system".to_string());
        let use_uri = Uri::new_unchecked(use_type.to_string());
        let identifier = Identifier::new(use_uri, system_uri, "ID123".to_string());

        assert_eq!(identifier.use_value().as_str(), use_type);
    }
}

#[test]
fn test_identifier_healthcare_systems() {
    let healthcare_systems = vec![
        ("https://hospital.example.com/patients", "official", "MRN12345"),
        ("https://ssa.gov/ssn", "official", "123-45-6789"),
        ("https://insurance.example.com/member", "secondary", "INS98765"),
        ("https://pharmacy.example.com/customer", "secondary", "PHARM123"),
        ("https://lab.example.com/patient", "secondary", "LAB456"),
    ];

    for (system, use_type, value) in healthcare_systems {
        let system_uri = Uri::new_unchecked(system.to_string());
        let use_uri = Uri::new_unchecked(use_type.to_string());
        let identifier = Identifier::new(use_uri, system_uri, value.to_string());

        assert_eq!(identifier.system().as_str(), system);
        assert_eq!(identifier.use_value().as_str(), use_type);
        assert_eq!(identifier.value(), value);
    }
}

#[test]
fn test_identifier_international_formats() {
    let international_identifiers = vec![
        ("https://nhs.uk/patients", "official", "1234567890"),
        ("https://medicare.gov/beneficiary", "official", "1-2345-6789-01"),
        ("https://ramq.gouv.qc.ca/assure", "official", "ABCD12345678"),
        ("https://australia.gov.au/medicare", "official", "1234567890"),
        ("https://canada.ca/health", "official", "1234567890"),
    ];

    for (system, use_type, value) in international_identifiers {
        let system_uri = Uri::new_unchecked(system.to_string());
        let use_uri = Uri::new_unchecked(use_type.to_string());
        let identifier = Identifier::new(use_uri, system_uri, value.to_string());
        assert_eq!(identifier.value(), value);
    }
}

#[test]
fn test_identifier_validation_scenarios() {
    let validation_scenarios = vec![
        (
            "urn:uuid:53fefa32-fcbb-4ff8-8a92-55ee120877b7",
            "urn:uuid:53fefa32-fcbb-4ff8-8a92-55ee120877b7",
        ),
        ("https://email.example.com/user", "user@example.com"),
        ("https://phone.example.com/contact", "+1-555-123-4567"),
        ("https://custom.example.com/id", "CUSTOM-123-ABC"),
    ];

    for (system, value) in validation_scenarios {
        let system_uri = Uri::new_unchecked(system.to_string());
        let use_uri = Uri::new_unchecked("official".to_string());
        let identifier = Identifier::new(use_uri, system_uri, value.to_string());
        assert_eq!(identifier.system().as_str(), system);
        assert_eq!(identifier.value(), value);
    }
}

#[test]
fn test_identifier_serialization() {
    let system_uri = Uri::new_unchecked("https://hospital.example.com/patients".to_string());
    let use_uri = Uri::new_unchecked("official".to_string());
    let mut identifier = Identifier::new(use_uri, system_uri, "MRN12345".to_string());

    let period = Period::new("2020-01-01".to_string(), "2023-12-31".to_string());
    identifier.set_period(Some(period));

    let encoded = identifier.encode();
    let deserialized_identifier = Identifier::decode(&encoded).unwrap();

    assert_eq!(identifier, deserialized_identifier);
}

#[test]
fn test_identifier_edge_cases() {
    let edge_cases = vec![
        (
            "https://example.com/long",
            "VERY-LONG-IDENTIFIER-WITH-MANY-CHARACTERS-AND-NUMBERS-1234567890",
        ),
        ("https://example.com/special", "ID-123_ABC@#$%"),
        ("https://example.com/numeric", "1234567890"),
        ("https://example.com/alphanumeric", "ABC123DEF456"),
        ("https://example.com/mixed", "AbC123dEf456"),
    ];

    for (system, value) in edge_cases {
        let system_uri = Uri::new_unchecked(system.to_string());
        let use_uri = Uri::new_unchecked("official".to_string());
        let identifier = Identifier::new(use_uri, system_uri, value.to_string());
        assert_eq!(identifier.value(), value);
    }
}

#[test]
fn test_identifier_real_world_scenarios() {
    let real_world_scenarios = vec![
        ("https://hospital.example.com/admission", "official", "ADM-2023-001"),
        ("https://insurance.example.com/claim", "secondary", "CLM-2023-789"),
        ("https://lab.example.com/test", "secondary", "LAB-2023-456"),
        ("https://pharmacy.example.com/rx", "secondary", "RX-2023-123"),
        ("https://emergency.example.com/contact", "temp", "EMG-2023-999"),
    ];

    for (system, use_type, value) in real_world_scenarios {
        let system_uri = Uri::new_unchecked(system.to_string());
        let use_uri = Uri::new_unchecked(use_type.to_string());
        let identifier = Identifier::new(use_uri, system_uri, value.to_string());
        assert_eq!(identifier.use_value().as_str(), use_type);
        assert_eq!(identifier.value(), value);
    }
}
