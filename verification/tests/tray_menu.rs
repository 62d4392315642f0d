use monitorhop::tray_menu::{
    mxkeys_status, quick_switch_item_id, quick_switch_item_label, quick_switch_items, tray_action, TrayAction,
};
use monitorhop::trigger::TriggerEvent;

#[test]
fn quick_switch_items_write_the_code_in_hex() {
    assert_eq!(quick_switch_item_id(0x0f), "switch:0x0f");
    assert_eq!(quick_switch_item_label(0x11), "Switch to 0x11");
    assert_eq!(quick_switch_item_id(0xd0), "switch:0xd0");
    assert_eq!(quick_switch_item_id(0), "switch:0x00");
}

#[test]
fn tray_actions_from_item_ids() {
    assert_eq!(tray_action("open"), TrayAction::Open);
    assert_eq!(tray_action("quit"), TrayAction::Quit);
    assert_eq!(tray_action("switch:0x12"), TrayAction::Switch(0x12));
    assert_eq!(tray_action("switch:0xswitch:0x1F4"), TrayAction::Switch(0x1f4));
    assert_eq!(tray_action("switch:12"), TrayAction::Ignore);
    assert_eq!(tray_action("switch:0x"), TrayAction::Ignore);
    assert_eq!(tray_action("mxkeys-status"), TrayAction::Ignore);
    assert_eq!(tray_action("Open"), TrayAction::Ignore);
}

#[test]
fn every_quick_switch_item_switches_to_its_code() {
    for code in 0..=255u8 {
        assert_eq!(tray_action(&quick_switch_item_id(code)), TrayAction::Switch(code as u16));
    }
}

#[test]
fn tray_menu_lists_open_status_switch_items_and_quit() {
    let items = quick_switch_items(&vec![0x0f, 0x11]);
    let ids: Vec<&str> = items.iter().map(|i| i.id.as_str()).collect();
    assert_eq!(ids, vec!["open", "mxkeys-status", "switch:0x0f", "switch:0x11", "quit"]);
    assert_eq!(items[1].label, "MX Keys: unknown");
    assert!(!items[1].enabled);
    assert_eq!(items[3].label, "Switch to 0x11");
    assert!(items[4].enabled);
    assert_eq!(quick_switch_items(&vec![]).len(), 3);
}

#[test]
fn keyboard_status_follows_the_receiver() {
    assert_eq!(mxkeys_status(TriggerEvent::HostGainedFocus), (true, "MX Keys: connected"));
    assert_eq!(mxkeys_status(TriggerEvent::HostLostFocus), (false, "MX Keys: not connected"));
}
