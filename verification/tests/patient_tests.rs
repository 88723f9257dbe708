use fhir_resources_rs::data_types::uri::Uri;
use fhir_resources_rs::human_name::HumanName;
use fhir_resources_rs::identifier::Identifier;
use fhir_resources_rs::patient::Patient;

#[test]
fn test_patient_creation() {
    let patient = Patient::new();

    assert_eq!(patient.resource_type(), "Patient");
    assert_eq!(patient.identifiers().len(), 0);
    assert_eq!(patient.names().len(), 0);
}

#[test]
fn test_patient_with_demo_data() {
    let system_uri = Uri::new_unchecked("https://hospital.example.com/patients".to_string());
    let use_uri = Uri::new_unchecked("official".to_string());

    let identifier = Identifier::new(use_uri, system_uri, "MRN12345".to_string());

    let mut human_name = HumanName::new(
        "official".to_string(),
        "Dr. John A. Smith".to_string(),
        "Smith".to_string(),
    );

    human_name.set_given(vec!["John".to_string(), "Andrew".to_string()]);
    human_name.set_prefix(vec!["Dr.".to_string()]);
    human_name.set_suffix(vec!["MD".to_string(), "PhD".to_string()]);

    let mut patient = Patient::new();
    patient.add_identifier(identifier);
    patient.add_name(human_name);

    assert_eq!(patient.resource_type(), "Patient");
    assert_eq!(patient.identifiers().len(), 1);
    assert_eq!(patient.names().len(), 1);

    let first_identifier = &patient.identifiers()[0];
    assert_eq!(first_identifier.use_value().as_str(), "official");
    assert_eq!(first_identifier.system().as_str(), "https://hospital.example.com/patients");
    assert_eq!(first_identifier.value(), "MRN12345");

    let first_name = &patient.names()[0];
    assert_eq!(first_name.use_value(), "official");
    assert_eq!(first_name.text(), "Dr. John A. Smith");
    assert_eq!(first_name.family(), "Smith");
    assert_eq!(first_name.given(), &["John", "Andrew"]);
    assert_eq!(first_name.prefix(), &["Dr."]);
    assert_eq!(first_name.suffix(), &["MD", "PhD"]);
}

#[test]
fn test_patient_multiple_identifiers_and_names() {
    let mut patient = Patient::new();

    let mrn_system = Uri::new_unchecked("https://hospital.example.com/patients".to_string());
    let mrn_use = Uri::new_unchecked("official".to_string());
    let mrn_identifier = Identifier::new(mrn_use, mrn_system, "MRN12345".to_string());
    patient.add_identifier(mrn_identifier);

    let ssn_system = Uri::new_unchecked("https://ssa.gov/ssn".to_string());
    let ssn_use = Uri::new_unchecked("official".to_string());
    let ssn_identifier = Identifier::new(ssn_use, ssn_system, "123-45-6789".to_string());
    patient.add_identifier(ssn_identifier);

    let mut official_name = HumanName::new(
        "official".to_string(),
        "Dr. John Andrew Smith".to_string(),
        "Smith".to_string(),
    );
    official_name.set_given(vec!["John".to_string(), "Andrew".to_string()]);
    official_name.set_prefix(vec!["Dr.".to_string()]);
    patient.add_name(official_name);

    let mut nickname = HumanName::new(
        "nickname".to_string(),
        "Johnny".to_string(),
        "Smith".to_string(),
    );
    nickname.set_given(vec!["Johnny".to_string()]);
    patient.add_name(nickname);

    assert_eq!(patient.identifiers().len(), 2);
    assert_eq!(patient.names().len(), 2);
}

#[test]
fn test_patient_serialization() {
    let mut patient = Patient::new();

    let system_uri = Uri::new_unchecked("https://hospital.example.com/patients".to_string());
    let use_uri = Uri::new_unchecked("official".to_string());
    let identifier = Identifier::new(use_uri, system_uri, "MRN12345".to_string());
    patient.add_identifier(identifier);

    let mut name = HumanName::new(
        "official".to_string(),
        "John Smith".to_string(),
        "Smith".to_string(),
    );
    name.set_given(vec!["John".to_string()]);
    patient.add_name(name);

    let encoded = patient.encode();
    let deserialized_patient = Patient::decode(&encoded).unwrap();

    assert_eq!(patient, deserialized_patient);
}

#[test]
fn test_patient_real_world_scenario() {
    let mut patient = Patient::new();

    let identifiers = vec![
        ("https://hospital.example.com/patients", "official", "MRN12345"),
        ("https://ssa.gov/ssn", "official", "123-45-6789"),
        ("https://insurance.example.com/member", "secondary", "INS98765"),
    ];

    for (system, use_type, value) in identifiers {
        let system_uri = Uri::new_unchecked(system.to_string());
        let use_uri = Uri::new_unchecked(use_type.to_string());
        let identifier = Identifier::new(use_uri, system_uri, value.to_string());
        patient.add_identifier(identifier);
    }

    let names = vec![
        ("official", "Dr. John Andrew Smith", "Smith", vec!["John", "Andrew"], vec!["Dr."], vec!["MD", "PhD"]),
        ("nickname", "Johnny", "Smith", vec!["Johnny"], vec![], vec![]),
        ("maiden", "Jane Smith", "Smith", vec!["Jane"], vec![], vec![]),
    ];

    for (use_type, text, family, given, prefix, suffix) in names {
        let mut name = HumanName::new(use_type.to_string(), text.to_string(), family.to_string());
        name.set_given(given.into_iter().map(|s| s.to_string()).collect());
        name.set_prefix(prefix.into_iter().map(|s: &str| s.to_string()).collect());
        name.set_suffix(suffix.into_iter().map(|s: &str| s.to_string()).collect());
        patient.add_name(name);
    }

    assert_eq!(patient.identifiers().len(), 3);
    assert_eq!(patient.names().len(), 3);
}
