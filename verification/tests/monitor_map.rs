use monitorhop::config::{Configuration, ConfigurationFields};
use monitorhop::monitor_map::{resolve, SwitchDirection};

fn load(connect: &str, source_addr: Option<u8>) -> Configuration {
    let fields = ConfigurationFields {
        usb_device: "17e9:6000".to_string(),
        mxkeys_usb_device: None,
        on_usb_connect: Some(connect.to_string()),
        on_usb_disconnect: None,
        on_usb_connect_source_addr: source_addr,
        on_usb_connect_vcp_code: None,
        display_index: None,
    };
    match Configuration::from_fields(&fields) {
        Ok(c) => c,
        Err(text) => panic!("invalid input source: {}", text),
    }
}

#[test]
fn resolves_connect_target_from_config() {
    let config = load("Hdmi1", Some(80));
    let target = resolve(&config, SwitchDirection::Connect).unwrap();
    assert_eq!(target.display_index, 0);
    assert_eq!(target.input_source.value(), 0x11);
    assert_eq!(target.source_addr, Some(0x50));
    assert_eq!(target.vcp_code, 0x60);
}

#[test]
fn disconnect_with_no_config_resolves_to_none() {
    let config = load("Hdmi1", None);
    assert!(resolve(&config, SwitchDirection::Disconnect).is_none());
}

#[test]
fn overrides_reach_the_target() {
    let mut config = load("0x1b", None);
    config.display_index = Some(2);
    config.on_usb_connect_vcp_code = Some(0xf4);
    let target = resolve(&config, SwitchDirection::Connect).unwrap();
    assert_eq!(target.display_index, 2);
    assert_eq!(target.vcp_code, 0xf4);
    assert_eq!(target.input_source.value(), 0x1b);
}
