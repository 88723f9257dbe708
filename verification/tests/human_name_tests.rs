use fhir_resources_rs::human_name::HumanName;

#[test]
fn test_human_name_creation() {
    let name = HumanName::new(
        "official".to_string(),
        "John Smith".to_string(),
        "Smith".to_string(),
    );

    assert_eq!(name.use_value(), "official");
    assert_eq!(name.text(), "John Smith");
    assert_eq!(name.family(), "Smith");
    assert_eq!(name.given().len(), 0);
    assert_eq!(name.prefix().len(), 0);
    assert_eq!(name.suffix().len(), 0);
    assert_eq!(name.period(), None);
}

#[test]
fn test_human_name_with_full_details() {
    let mut name = HumanName::new(
        "official".to_string(),
        "Dr. John Andrew Smith, MD, PhD".to_string(),
        "Smith".to_string(),
    );

    name.set_given(vec!["John".to_string(), "Andrew".to_string()]);
    name.set_prefix(vec!["Dr.".to_string()]);
    name.set_suffix(vec!["MD".to_string(), "PhD".to_string()]);
    name.set_period(Some("2020-01-01 to 2023-12-31".to_string()));

    assert_eq!(name.use_value(), "official");
    assert_eq!(name.text(), "Dr. John Andrew Smith, MD, PhD");
    assert_eq!(name.family(), "Smith");
    assert_eq!(name.given(), &["John", "Andrew"]);
    assert_eq!(name.prefix(), &["Dr."]);
    assert_eq!(name.suffix(), &["MD", "PhD"]);
    assert_eq!(name.period(), Some("2020-01-01 to 2023-12-31"));
}

#[test]
fn test_human_name_different_use_types() {
    let use_types = vec![
        ("official", "Dr. John Smith"),
        ("nickname", "Johnny"),
        ("maiden", "Jane Smith"),
        ("anonymous", "Anonymous"),
    ];

    for (use_type, text) in use_types {
        let name = HumanName::new(
            use_type.to_string(),
            text.to_string(),
            "Smith".to_string(),
        );

        assert_eq!(name.use_value(), use_type);
        assert_eq!(name.text(), text);
    }
}

#[test]
fn test_human_name_international_formats() {
    let international_names = vec![
        ("official", "Li Wei", "Li", vec!["Wei"]),
        ("official", "Tanaka Yuki", "Tanaka", vec!["Yuki"]),
        ("official", "Kim Min-seok", "Kim", vec!["Min-seok"]),
        ("official", "María José García", "García", vec!["María", "José"]),
        ("official", "Ahmed Al-Rashid", "Al-Rashid", vec!["Ahmed"]),
    ];

    for (use_type, text, family, given) in international_names {
        let mut name = HumanName::new(
            use_type.to_string(),
            text.to_string(),
            family.to_string(),
        );
        name.set_given(given.into_iter().map(|s| s.to_string()).collect());

        assert_eq!(name.use_value(), use_type);
        assert_eq!(name.text(), text);
        assert_eq!(name.family(), family);
    }
}

#[test]
fn test_human_name_professional_titles() {
    let professional_names = vec![
        ("Dr. Sarah Johnson, MD", "Johnson", vec!["Sarah"], vec!["Dr."], vec!["MD"]),
        ("Prof. Michael Chen, PhD, MBA", "Chen", vec!["Michael"], vec!["Prof."], vec!["PhD", "MBA"]),
        ("Rev. David Williams", "Williams", vec!["David"], vec!["Rev."], vec![]),
        ("Sir James Bond, KBE", "Bond", vec!["James"], vec!["Sir"], vec!["KBE"]),
        ("Lady Elizabeth Windsor", "Windsor", vec!["Elizabeth"], vec!["Lady"], vec![]),
    ];

    for (text, family, given, prefix, suffix) in professional_names {
        let mut name = HumanName::new(
            "official".to_string(),
            text.to_string(),
            family.to_string(),
        );
        name.set_given(given.into_iter().map(|s| s.to_string()).collect());
        name.set_prefix(prefix.into_iter().map(|s| s.to_string()).collect());
        name.set_suffix(suffix.into_iter().map(|s| s.to_string()).collect());

        assert_eq!(name.text(), text);
        assert_eq!(name.family(), family);
    }
}

#[test]
fn test_human_name_serialization() {
    let mut name = HumanName::new(
        "official".to_string(),
        "Dr. John Andrew Smith, MD, PhD".to_string(),
        "Smith".to_string(),
    );
    name.set_given(vec!["John".to_string(), "Andrew".to_string()]);
    name.set_prefix(vec!["Dr.".to_string()]);
    name.set_suffix(vec!["MD".to_string(), "PhD".to_string()]);
    name.set_period(Some("2020-2023".to_string()));

    let encoded = name.encode();
    let deserialized_name = HumanName::decode(&encoded).unwrap();

    assert_eq!(name, deserialized_name);
}

#[test]
fn test_human_name_edge_cases() {
    let edge_cases = vec![
        ("Madonna", "Madonna", vec![], vec![], vec![]),
        ("John Paul George Ringo", "Ringo", vec!["John", "Paul", "George"], vec![], vec![]),
        ("Dr. Prof. Sir James", "James", vec!["James"], vec!["Dr.", "Prof.", "Sir"], vec![]),
        ("John Smith Jr. Sr. III", "Smith", vec!["John"], vec![], vec!["Jr.", "Sr.", "III"]),
        ("Smith", "Smith", vec![], vec![], vec![]),
    ];

    for (text, family, given, prefix, suffix) in edge_cases {
        let mut name = HumanName::new(
            "official".to_string(),
            text.to_string(),
            family.to_string(),
        );
        name.set_given(given.into_iter().map(|s: &str| s.to_string()).collect());
        name.set_prefix(prefix.into_iter().map(|s: &str| s.to_string()).collect());
        name.set_suffix(suffix.into_iter().map(|s: &str| s.to_string()).collect());

        assert_eq!(name.text(), text);
        assert_eq!(name.family(), family);
    }
}
