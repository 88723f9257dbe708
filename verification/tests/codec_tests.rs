use fhir_resources_rs::account::Account;
use fhir_resources_rs::account_balance::AccountBalance;
use fhir_resources_rs::data_types::uri::Uri;
use fhir_resources_rs::json::{DecodeError, Json};
use fhir_resources_rs::money::{Decimal, Money};
use fhir_resources_rs::patient::Patient;

#[test]
fn it_works() {
    let result = fhir_resources_rs::add(2, 2);
    assert_eq!(result, 4);
}

fn obj_entries(j: &Json) -> &Vec<(String, Json)> {
    match j {
        Json::Obj(entries) => entries,
        _ => panic!("expected an object"),
    }
}

fn get<'a>(j: &'a Json, key: &str) -> Option<&'a Json> {
    Json::obj_get(obj_entries(j), key)
}

#[test]
fn test_omission_of_absent_optional_fields() {
    // An absent optional field leaves no key behind, not even a null.
    let account = Account::new();
    let encoded = account.encode();
    assert!(get(&encoded, "status").is_none());
    assert!(get(&encoded, "name").is_none());
    assert!(get(&encoded, "description").is_none());
    assert!(get(&encoded, "calculatedAt").is_none());

    let mut account = Account::new();
    account.set_status(Some("active".to_string()));
    let encoded = account.encode();
    assert_eq!(get(&encoded, "status"), Some(&Json::Str("active".to_string())));
    assert!(get(&encoded, "name").is_none());
}

#[test]
fn test_empty_repeated_fields_stay_present() {
    // An empty repeated field is still present, as an empty array.
    let account = Account::new();
    let encoded = account.encode();
    assert_eq!(get(&encoded, "identifier"), Some(&Json::Arr(Vec::new())));
    assert_eq!(get(&encoded, "subject"), Some(&Json::Arr(Vec::new())));
    assert_eq!(get(&encoded, "balance"), Some(&Json::Arr(Vec::new())));
}

#[test]
fn test_encoding_is_deterministic() {
    let mut patient = Patient::new();
    patient.set_gender(Some("male".to_string()));
    patient.set_active(Some(true));

    let first = patient.encode();
    let second = patient.encode();
    assert_eq!(first, second);
}

#[test]
fn test_default_patient_round_trip() {
    // A default patient encodes with its kind label present and every list
    // present but empty, and decodes back to an equal patient.
    let patient = Patient::new();
    let encoded = patient.encode();

    assert_eq!(get(&encoded, "resourceType"), Some(&Json::Str("Patient".to_string())));
    assert_eq!(get(&encoded, "identifier"), Some(&Json::Arr(Vec::new())));
    assert_eq!(get(&encoded, "name"), Some(&Json::Arr(Vec::new())));
    assert_eq!(get(&encoded, "telecom"), Some(&Json::Arr(Vec::new())));
    assert_eq!(get(&encoded, "address"), Some(&Json::Arr(Vec::new())));
    assert_eq!(get(&encoded, "photo"), Some(&Json::Arr(Vec::new())));
    assert_eq!(get(&encoded, "contact"), Some(&Json::Arr(Vec::new())));
    assert_eq!(get(&encoded, "communication"), Some(&Json::Arr(Vec::new())));
    assert_eq!(get(&encoded, "generalPractitioner"), Some(&Json::Arr(Vec::new())));
    assert_eq!(get(&encoded, "link"), Some(&Json::Arr(Vec::new())));
    assert!(get(&encoded, "active").is_none());
    assert!(get(&encoded, "gender").is_none());

    let decoded = Patient::decode(&encoded).unwrap();
    assert_eq!(decoded, patient);
}

#[test]
fn test_default_account_round_trip() {
    let account = Account::new();
    let encoded = account.encode();
    assert_eq!(get(&encoded, "resourceType"), Some(&Json::Str("Account".to_string())));
    let decoded = Account::decode(&encoded).unwrap();
    assert_eq!(decoded, account);
}

#[test]
fn test_decode_rejects_wrong_shape() {
    // A non-object payload fails outright.
    let result = Account::decode(&Json::Str("Account".to_string()));
    assert_eq!(result.unwrap_err(), DecodeError::TypeMismatch);

    // A wrongly typed field fails with a type mismatch.
    let mut account = Account::new();
    account.set_name(Some("A".to_string()));
    let encoded = account.encode();
    let mut entries: Vec<(String, Json)> = obj_entries(&encoded)
        .iter()
        .map(|e| (e.0.clone(), clone_json(&e.1)))
        .collect();
    for entry in entries.iter_mut() {
        if entry.0 == "name" {
            entry.1 = Json::Bool(true);
        }
    }
    let result = Account::decode(&Json::Obj(entries));
    assert_eq!(result.unwrap_err(), DecodeError::TypeMismatch);
}

#[test]
fn test_decode_rejects_missing_required_field() {
    // Dropping a required list field fails with a missing-field error.
    let account = Account::new();
    let encoded = account.encode();
    let entries = obj_entries(&encoded);
    let mut pruned: Vec<(String, Json)> = Vec::new();
    for entry in entries.iter() {
        if entry.0 != "identifier" {
            pruned.push((entry.0.clone(), clone_json(&entry.1)));
        }
    }
    let result = Account::decode(&Json::Obj(pruned));
    assert_eq!(result.unwrap_err(), DecodeError::MissingField);
}

fn clone_json(j: &Json) -> Json {
    match j {
        Json::Null => Json::Null,
        Json::Bool(b) => Json::Bool(*b),
        Json::Int(n) => Json::Int(*n),
        Json::Dec(d) => Json::Dec(*d),
        Json::Str(s) => Json::Str(s.clone()),
        Json::Arr(a) => Json::Arr(a.iter().map(clone_json).collect()),
        Json::Obj(o) => Json::Obj(o.iter().map(|e| (e.0.clone(), clone_json(&e.1))).collect()),
    }
}

#[test]
fn test_missing_optional_key_decodes_as_absent() {
    // A payload without an optional key decodes the field as absent.
    let mut account = Account::new();
    account.set_status(Some("active".to_string()));
    let encoded = account.encode();
    let entries = obj_entries(&encoded);
    let mut pruned: Vec<(String, Json)> = Vec::new();
    for entry in entries.iter() {
        if entry.0 != "status" {
            pruned.push((entry.0.clone(), clone_json(&entry.1)));
        }
    }
    let decoded = Account::decode(&Json::Obj(pruned)).unwrap();
    assert!(decoded.status().is_none());
    assert_eq!(decoded, Account::new());
}

#[test]
fn test_account_scenario_with_balance() {
    // Building an account with a name, a status and one balance of value
    // 1000.0 in US dollars survives an encode and decode unchanged.
    let mut account = Account::new();
    account.set_name(Some("Test Account".to_string()));
    account.set_status(Some("active".to_string()));
    let money = Money::with_currency(Decimal::new(10000, 1), "USD".to_string());
    account.add_balance(AccountBalance::new(money));

    let decoded = Account::decode(&account.encode()).unwrap();
    assert_eq!(decoded, account);
    assert_eq!(decoded.balance()[0].amount().value(), Some(Decimal::new(10000, 1)));
    assert_eq!(decoded.balance()[0].amount().currency(), Some("USD"));
}

#[test]
fn test_uri_unicode_scheme_characters() {
    // The scheme check accepts any alphanumeric character.
    assert!(Uri::new("htt\u{00e9}p://example.com".to_string()).is_ok());
    assert!(Uri::new("ht!tp://example.com".to_string()).is_err());
}

#[test]
fn test_to_json_text() {
    // The textual form is fixed: field order, omission, no added spacing.
    let period = fhir_resources_rs::period::Period::new(
        "2020-01-01".to_string(),
        "2023-12-31".to_string(),
    );
    assert_eq!(period.to_json(), "{\"start\":\"2020-01-01\",\"end\":\"2023-12-31\"}");

    let mut account = Account::new();
    account.set_name(Some("Test Account".to_string()));
    account.set_status(Some("active".to_string()));
    let json = account.to_json();
    assert!(json.contains("Test Account"));
    assert!(json.contains("active"));
    assert!(json.contains("Account"));
    // Byte-identical idempotence.
    assert_eq!(account.to_json(), account.to_json());
}

#[test]
fn test_to_json_numbers_and_escapes() {
    let mut account = Account::new();
    let money = Money::with_currency(Decimal::new(10000, 1), "USD".to_string());
    account.add_balance(AccountBalance::new(money));
    let json = account.to_json();
    assert!(json.contains("\"value\":1000.0"));
    assert!(json.contains("\"currency\":\"USD\""));

    let mut named = Account::new();
    named.set_name(Some("a\"b\\c".to_string()));
    let json = named.to_json();
    assert!(json.contains("a\\\"b\\\\c"));
}

#[test]
fn test_decimal_values_survive_exactly() {
    let money = Money::with_value(Decimal::new(123456789, 4));
    let decoded = Money::decode(&money.encode()).unwrap();
    assert_eq!(decoded.value(), Some(Decimal::new(123456789, 4)));
}
