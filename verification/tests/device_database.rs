use monitorhop::device_database::{validate_or_fallback, SEED_DEVICE_DATABASE};

#[test]
fn passes_through_valid_json_unchanged() {
    let valid = r#"{"046d": "Logitech"}"#;
    assert_eq!(validate_or_fallback(valid), valid);
}

#[test]
fn falls_back_to_seed_for_invalid_json() {
    assert_eq!(validate_or_fallback("not json at all"), SEED_DEVICE_DATABASE);
}

#[test]
fn falls_back_to_seed_for_empty_content() {
    assert_eq!(validate_or_fallback(""), SEED_DEVICE_DATABASE);
}

#[test]
fn seed_is_itself_valid_json() {
    assert_eq!(validate_or_fallback(SEED_DEVICE_DATABASE), SEED_DEVICE_DATABASE);
    let value: serde_json::Value = serde_json::from_str(SEED_DEVICE_DATABASE).unwrap();
    assert_eq!(value["17e9:6000"], "DisplayLink Dock/Switch");
}
