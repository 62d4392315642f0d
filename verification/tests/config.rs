use monitorhop::config::{parse_int, Configuration, ConfigurationFields, InputSource, SymbolicInputSource};
use std::convert::TryFrom;

/// The fields of `{"usb_device": <usb_device>, "on_usb_connect": <connect>}`.
fn fields(usb_device: &str, connect: Option<&str>) -> ConfigurationFields {
    ConfigurationFields {
        usb_device: usb_device.to_string(),
        mxkeys_usb_device: None,
        on_usb_connect: connect.map(|s| s.to_string()),
        on_usb_disconnect: None,
        on_usb_connect_source_addr: None,
        on_usb_connect_vcp_code: None,
        display_index: None,
    }
}

fn load(f: &ConfigurationFields) -> Configuration {
    match Configuration::from_fields(f) {
        Ok(c) => c,
        Err(text) => panic!("invalid input source: {}", text),
    }
}

#[test]
fn usb_device_is_lowercased() {
    let config = load(&fields("17E9:6000", Some("Hdmi1")));
    assert_eq!(config.usb_device, "17e9:6000");
}

#[test]
fn symbolic_input_source_resolves_to_vcp_value() {
    let config = load(&fields("17e9:6000", Some("Hdmi1")));
    assert_eq!(config.on_usb_connect.unwrap().value(), 0x11);
}

#[test]
fn hex_input_source_is_accepted() {
    let config = load(&fields("17e9:6000", Some("0x11")));
    assert_eq!(config.on_usb_connect.unwrap().value(), 0x11);
}

#[test]
fn source_addr_defaults_to_none() {
    let config = load(&fields("17e9:6000", Some("Hdmi1")));
    assert_eq!(config.on_usb_connect_source_addr, None);
}

#[test]
fn source_addr_override_is_a_plain_number() {
    let mut f = fields("17e9:6000", Some("Hdmi1"));
    f.on_usb_connect_source_addr = Some(80);
    let config = load(&f);
    assert_eq!(config.on_usb_connect_source_addr, Some(0x50));
}

#[test]
fn display_index_defaults_to_zero() {
    let config = load(&fields("17e9:6000", Some("Hdmi1")));
    assert_eq!(config.display_index(), 0);
}

#[test]
fn vcp_code_defaults_to_input_select() {
    let config = load(&fields("17e9:6000", Some("Hdmi1")));
    assert_eq!(config.vcp_code(), 0x60);
}

#[test]
fn mxkeys_usb_device_defaults_to_none() {
    let config = load(&fields("17e9:6000", Some("Hdmi1")));
    assert_eq!(config.mxkeys_usb_device, None);
}

#[test]
fn round_trips_through_fields() {
    let config = Configuration {
        usb_device: "17e9:6000".to_string(),
        mxkeys_usb_device: Some("046d:c52b".to_string()),
        on_usb_connect: Some(InputSource::Symbolic(SymbolicInputSource::Hdmi1)),
        on_usb_disconnect: Some(InputSource::Raw(0x1b)),
        on_usb_connect_source_addr: Some(0x50),
        on_usb_connect_vcp_code: None,
        display_index: Some(0),
    };
    let stored = config.to_fields();
    assert_eq!(stored.on_usb_connect.as_deref(), Some("hdmi1"));
    assert_eq!(stored.on_usb_disconnect.as_deref(), Some("0x1b"));
    let loaded = load(&stored);
    assert_eq!(loaded.usb_device, config.usb_device);
    assert_eq!(loaded.mxkeys_usb_device, config.mxkeys_usb_device);
    assert_eq!(loaded.on_usb_connect.unwrap().value(), 0x11);
    assert_eq!(loaded.on_usb_disconnect.unwrap().value(), 0x1b);
    assert_eq!(loaded.on_usb_connect_source_addr, Some(0x50));
    assert_eq!(loaded.display_index, Some(0));
}

#[test]
fn invalid_input_source_is_reported_normalized() {
    match Configuration::from_fields(&fields("17e9:6000", Some("  VGA3 "))) {
        Ok(_) => panic!("expected an error"),
        Err(text) => assert_eq!(text, "vga3"),
    }
}

#[test]
fn input_source_text_forms() {
    assert!(InputSource::from_text(" HDMI2 ") == Some(InputSource::Symbolic(SymbolicInputSource::Hdmi2)));
    assert!(InputSource::from_text("0x0f") == Some(InputSource::Symbolic(SymbolicInputSource::DisplayPort1)));
    assert!(InputSource::from_text("16") == Some(InputSource::Symbolic(SymbolicInputSource::DisplayPort2)));
    assert!(InputSource::from_text("0X1B") == Some(InputSource::Raw(0x1b)));
    assert!(InputSource::from_text("27") == Some(InputSource::Raw(27)));
    assert!(InputSource::from_text("0x10000") == None);
    assert!(InputSource::from_text("") == None);
}

#[test]
fn raw_values_with_a_name_are_normalized() {
    assert!(InputSource::Raw(0x11).normalize() == InputSource::Symbolic(SymbolicInputSource::Hdmi1));
    assert!(InputSource::Raw(0x90).normalize() == InputSource::Raw(0x90));
}

#[test]
fn input_source_is_written_by_name_or_hex() {
    assert_eq!(InputSource::Symbolic(SymbolicInputSource::DisplayPort2).to_text(), "displayport2");
    assert_eq!(InputSource::Raw(0xd0).to_text(), "0xd0");
    assert_eq!(InputSource::Raw(0).to_text(), "0x0");
}

#[test]
fn input_source_description() {
    assert_eq!(InputSource::Symbolic(SymbolicInputSource::Hdmi1).describe(), "Hdmi1(0x11)");
    assert_eq!(InputSource::Raw(0x1f).describe(), "Custom(0x1f)");
}

#[test]
fn parse_int_reads_hex_and_decimal() {
    assert_eq!(parse_int("0x11"), Some(0x11));
    assert_eq!(parse_int("17"), Some(17));
    assert_eq!(parse_int("+17"), Some(17));
    assert_eq!(parse_int("65535"), Some(65535));
    assert_eq!(parse_int("65536"), None);
    assert_eq!(parse_int("0x"), None);
    assert_eq!(parse_int("hdmi1"), None);
}

#[test]
fn symbolic_sources_convert_from_values_and_names() {
    assert_eq!(SymbolicInputSource::try_from(0x12u16), Ok(SymbolicInputSource::Hdmi2));
    assert_eq!(SymbolicInputSource::try_from(0x13u16), Err(()));
    assert_eq!(SymbolicInputSource::try_from("DisplayPort1"), Ok(SymbolicInputSource::DisplayPort1));
    assert_eq!(SymbolicInputSource::try_from("hdmi 1"), Err(()));
    assert_eq!(SymbolicInputSource::Hdmi2.label(), "hdmi2");
}

#[test]
fn non_ascii_device_ids_are_lowercased_too() {
    assert_eq!(Configuration::normalize_usb_device("ÄB:ÉC"), "äb:éc");
    assert_eq!(SymbolicInputSource::from_name("HDMİ1"), None);
    assert_eq!(SymbolicInputSource::from_lowercase_name("Hdmi1"), None);
    assert_eq!(SymbolicInputSource::from_lowercase_name("hdmi1"), Some(SymbolicInputSource::Hdmi1));
}
