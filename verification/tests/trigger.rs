use monitorhop::trigger::{device_id, diff_to_events, HotplugWatch, MacosHotplugTrigger, TriggerEvent, UsbHotplugTrigger};
use std::collections::HashSet;

#[test]
fn gained_focus_when_watched_device_appears() {
    let current: HashSet<String> = HashSet::new();
    let new: HashSet<String> = ["17e9:6000".to_string()].into_iter().collect();
    assert_eq!(diff_to_events(&current, &new, "17e9:6000"), vec![TriggerEvent::HostGainedFocus]);
}

#[test]
fn lost_focus_when_watched_device_disappears() {
    let current: HashSet<String> = ["17e9:6000".to_string()].into_iter().collect();
    let new: HashSet<String> = HashSet::new();
    assert_eq!(diff_to_events(&current, &new, "17e9:6000"), vec![TriggerEvent::HostLostFocus]);
}

#[test]
fn no_event_for_unrelated_device_changes() {
    let current: HashSet<String> = HashSet::new();
    let new: HashSet<String> = ["aaaa:bbbb".to_string()].into_iter().collect();
    assert!(diff_to_events(&current, &new, "17e9:6000").is_empty());
}

#[test]
fn no_event_while_the_watched_device_stays_connected() {
    let current: HashSet<String> = ["17e9:6000".to_string()].into_iter().collect();
    let new: HashSet<String> = ["17e9:6000".to_string(), "aaaa:bbbb".to_string()].into_iter().collect();
    assert!(diff_to_events(&current, &new, "17e9:6000").is_empty());
}

#[test]
fn device_id_is_four_lowercase_hex_digits_each() {
    assert_eq!(device_id(0x17e9, 0x6000), "17e9:6000");
    assert_eq!(device_id(0x46d, 0xc52b), "046d:c52b");
    assert_eq!(device_id(0, 1), "0000:0001");
    assert_eq!(device_id(0xffff, 0xABCD), "ffff:abcd");
}

#[test]
fn triggers_watch_the_lowercased_device() {
    assert_eq!(UsbHotplugTrigger::new("17E9:6000").usb_device(), "17e9:6000");
    assert_eq!(MacosHotplugTrigger::new("046D:C52B").usb_device(), "046d:c52b");
}

fn devices(ids: &[&str]) -> HashSet<String> {
    ids.iter().map(|id| id.to_string()).collect()
}

#[test]
fn hotplug_watch_emits_alternating_events_across_changes() {
    let mut watch = HotplugWatch::new("17e9:6000", devices(&["aaaa:bbbb"]));
    assert_eq!(watch.observe(devices(&["aaaa:bbbb", "17e9:6000"])), vec![TriggerEvent::HostGainedFocus]);
    assert_eq!(watch.observe(devices(&["17e9:6000"])), Vec::<TriggerEvent>::new());
    assert_eq!(watch.observe(devices(&["cccc:dddd"])), vec![TriggerEvent::HostLostFocus]);
    assert_eq!(watch.observe(devices(&[])), Vec::<TriggerEvent>::new());
    assert_eq!(watch.observe(devices(&["17e9:6000"])), vec![TriggerEvent::HostGainedFocus]);
}

#[test]
fn hotplug_watch_starting_with_the_device_reports_its_loss_first() {
    let mut watch = HotplugWatch::new("17e9:6000", devices(&["17e9:6000"]));
    assert_eq!(watch.observe(devices(&["17e9:6000"])), Vec::<TriggerEvent>::new());
    assert_eq!(watch.observe(devices(&[])), vec![TriggerEvent::HostLostFocus]);
}
