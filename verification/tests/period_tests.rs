use fhir_resources_rs::period::Period;

#[test]
fn test_period_creation() {
    let period = Period::new("2020-01-01".to_string(), "2023-12-31".to_string());

    assert_eq!(period.start(), "2020-01-01");
    assert_eq!(period.end(), "2023-12-31");
}

#[test]
fn test_period_modification() {
    let mut period = Period::new("2020-01-01".to_string(), "2023-12-31".to_string());

    period.set_start("2021-01-01".to_string());
    period.set_end("2024-12-31".to_string());

    assert_eq!(period.start(), "2021-01-01");
    assert_eq!(period.end(), "2024-12-31");
}

#[test]
fn test_period_different_formats() {
    let period_formats = vec![
        ("2020-01-01", "2023-12-31"),
        ("2020-01-01T00:00:00Z", "2023-12-31T23:59:59Z"),
        ("2020-01-01 00:00:00", "2023-12-31 23:59:59"),
        ("2020-01-01T00:00:00+00:00", "2023-12-31T23:59:59+00:00"),
    ];

    for (start, end) in period_formats {
        let period = Period::new(start.to_string(), end.to_string());

        assert_eq!(period.start(), start);
        assert_eq!(period.end(), end);
    }
}

#[test]
fn test_period_healthcare_scenarios() {
    let healthcare_periods = vec![
        ("2020-01-01", "2020-12-31"),
        ("2020-01-01", "2020-01-31"),
        ("2020-01-01", "2020-01-07"),
        ("2020-01-01", "2020-01-01"),
        ("2020-01-01", "2023-12-31"),
    ];

    for (start, end) in healthcare_periods {
        let period = Period::new(start.to_string(), end.to_string());
        assert_eq!(period.start(), start);
        assert_eq!(period.end(), end);
    }
}

#[test]
fn test_period_serialization() {
    let period = Period::new("2020-01-01".to_string(), "2023-12-31".to_string());

    let encoded = period.encode();
    let deserialized_period = Period::decode(&encoded).unwrap();

    assert_eq!(period, deserialized_period);
}

#[test]
fn test_period_edge_cases() {
    let edge_cases = vec![
        ("2020-01-01", "2020-01-01"),
        ("2020-12-31", "2021-01-01"),
        ("2020-02-29", "2020-02-29"),
        ("2020-01-01T00:00:00.000Z", "2023-12-31T23:59:59.999Z"),
    ];

    for (start, end) in edge_cases {
        let period = Period::new(start.to_string(), end.to_string());
        assert_eq!(period.start(), start);
        assert_eq!(period.end(), end);
    }
}

#[test]
fn test_period_real_world_scenarios() {
    let real_world_scenarios = vec![
        ("2020-01-01", "2020-12-31"),
        ("2020-03-15", "2020-03-20"),
        ("2020-01-01", "2020-12-31"),
        ("2020-01-01", "2020-06-30"),
        ("2020-01-01", "2020-01-31"),
    ];

    for (start, end) in real_world_scenarios {
        let period = Period::new(start.to_string(), end.to_string());
        assert_eq!(period.start(), start);
        assert_eq!(period.end(), end);
    }
}

#[test]
fn test_period_international_formats() {
    let international_formats = vec![
        ("2020-01-01", "2023-12-31"),
        ("01/01/2020", "12/31/2023"),
        ("01/01/2020", "31/12/2023"),
        ("2020年1月1日", "2023年12月31日"),
        ("1. Januar 2020", "31. Dezember 2023"),
    ];

    for (start, end) in international_formats {
        let period = Period::new(start.to_string(), end.to_string());
        assert_eq!(period.start(), start);
        assert_eq!(period.end(), end);
    }
}
