//! Detecting that this host gained or lost the shared USB device.
use std::collections::HashSet;
use crate::text::{hex_text, lowercase, push_padded_radix_text, string_from_chars, to_lowercase, zero_padded};
use vstd::prelude::*;

verus! {

#[derive(Clone, Copy, Debug, PartialEq, Eq, Structural)]
pub enum TriggerEvent {
    HostGainedFocus,
    HostLostFocus,
}

/// `set` holds a string equal to `key`.
pub open spec fn holds(set: Set<String>, key: Seq<char>) -> bool {
    exists|s: String| set.contains(s) && s@ == key
}

/// Calls `HashSet::<String>::contains` with a `&str` key: whether the set
/// holds a string equal to `key`.
#[verifier::external_body]
fn set_holds(set: &HashSet<String>, key: &str) -> (r: bool)
    ensures
        r == holds(set@, key@),
{
    set.contains(key)
}

/// The events that a change of the connected devices means for the watched
/// device, given whether it was connected before and is now: gained when it
/// appears, lost when it disappears, nothing otherwise.
pub open spec fn events_for(was_present: bool, is_present: bool) -> Seq<TriggerEvent> {
    if is_present && !was_present {
        seq![TriggerEvent::HostGainedFocus]
    } else if was_present && !is_present {
        seq![TriggerEvent::HostLostFocus]
    } else {
        seq![]
    }
}

/// The events for the watched device when the connected devices change from
/// `current` to `new`.
pub fn diff_to_events(current: &HashSet<String>, new: &HashSet<String>, watched: &str) -> (r: Vec<
    TriggerEvent,
>)
    ensures
        r@ == events_for(holds(current@, watched@), holds(new@, watched@)),
        r@.len() <= 1,
{
    let mut events: Vec<TriggerEvent> = Vec::new();
    let in_new = set_holds(new, watched);
    let in_current = set_holds(current, watched);
    if in_new && !in_current {
        events.push(TriggerEvent::HostGainedFocus);
    }
    if in_current && !in_new {
        events.push(TriggerEvent::HostLostFocus);
    }
    proof {
        assert(events@ =~= events_for(in_current, in_new));
    }
    events
}

/// The events along a run of observations of whether the watched device is
/// connected: those of each change, in order.
pub open spec fn events_along(states: Seq<bool>) -> Seq<TriggerEvent>
    decreases states.len(),
{
    if states.len() < 2 {
        seq![]
    } else {
        events_along(states.drop_last()) + events_for(states[states.len() - 2], states.last())
    }
}

/// Gained and lost alternate: no two neighbouring events are the same; the
/// first event is a gain exactly when the device was absent at the start,
/// and the last is a gain exactly when it is present at the end. With no
/// event at all, the device ends as it started.
pub proof fn lemma_events_alternate(states: Seq<bool>)
    ensures
        ({
            let e = events_along(states);
            &&& forall|i: int| 0 <= i < e.len() - 1 ==> e[i] != #[trigger] e[i + 1]
            &&& e.len() > 0 ==> (e[0] == TriggerEvent::HostGainedFocus <==> !states[0])
            &&& e.len() > 0 ==> (e.last() == TriggerEvent::HostGainedFocus <==> states.last())
            &&& e.len() == 0 && states.len() > 0 ==> states.last() == states[0]
        }),
    decreases states.len(),
{
    if states.len() >= 2 {
        let prev = states.drop_last();
        lemma_events_alternate(prev);
        let e0 = events_along(prev);
        let f = events_for(states[states.len() - 2], states.last());
        let e = events_along(states);
        assert(e =~= e0 + f);
        assert(prev.last() == states[states.len() - 2]);
        assert(prev[0] == states[0]);
        assert forall|i: int| 0 <= i < e.len() - 1 implies e[i] != #[trigger] e[i + 1] by {
            if i + 1 < e0.len() {
                assert(e[i] == e0[i]);
                assert(e[i + 1] == e0[i + 1]);
            }
        }
    }
}

/// The connected USB devices as last seen, and the device watched among
/// them.
pub struct HotplugWatch {
    usb_device: String,
    current_devices: HashSet<String>,
}

impl HotplugWatch {
    pub closed spec fn watched(&self) -> Seq<char> {
        self.usb_device@
    }

    pub closed spec fn devices(&self) -> Set<String> {
        self.current_devices@
    }

    /// The watched device is among the devices last seen.
    pub open spec fn present(&self) -> bool {
        holds(self.devices(), self.watched())
    }

    /// Watches `usb_device`, starting from the devices connected now.
    pub fn new(usb_device: &str, connected: HashSet<String>) -> (r: HotplugWatch)
        ensures
            r.watched() == usb_device@,
            r.devices() == connected@,
    {
        HotplugWatch { usb_device: usb_device.to_string(), current_devices: connected }
    }

    /// Takes the devices connected now: returns the events for the watched
    /// device (see [`events_for`]) and remembers the new devices.
    pub fn observe(&mut self, connected: HashSet<String>) -> (r: Vec<TriggerEvent>)
        ensures
            r@ == events_for(old(self).present(), holds(connected@, old(self).watched())),
            final(self).watched() == old(self).watched(),
            final(self).devices() == connected@,
            final(self).present() == holds(connected@, old(self).watched()),
    {
        let events = diff_to_events(&self.current_devices, &connected, self.usb_device.as_str());
        self.current_devices = connected;
        events
    }
}

/// The `vvvv:pppp` id of a USB device: vendor and product id as four
/// lowercase hexadecimal digits each.
pub open spec fn device_id_text(vendor_id: u16, product_id: u16) -> Seq<char> {
    zero_padded(hex_text(vendor_id as nat, false), 4) + seq![':'] + zero_padded(
        hex_text(product_id as nat, false),
        4,
    )
}

/// Formats a USB device id (`{:04x}:{:04x}` of vendor and product id).
pub fn device_id(vendor_id: u16, product_id: u16) -> (r: String)
    ensures
        r@ == device_id_text(vendor_id, product_id),
{
    let mut out: Vec<char> = Vec::new();
    push_padded_radix_text(&mut out, vendor_id as u32, 16, false, 4);
    out.push(':');
    push_padded_radix_text(&mut out, product_id as u32, 16, false, 4);
    string_from_chars(&out)
}

/// Watches for the USB device through OS device-change notifications.
pub struct UsbHotplugTrigger {
    usb_device: String,
}

impl UsbHotplugTrigger {
    pub closed spec fn watched(&self) -> Seq<char> {
        self.usb_device@
    }

    /// Watches `usb_device`, compared in lowercase.
    pub fn new(usb_device: &str) -> (r: UsbHotplugTrigger)
        ensures
            r.watched() == lowercase(usb_device@),
    {
        UsbHotplugTrigger { usb_device: to_lowercase(usb_device) }
    }

    /// The watched device id.
    pub fn usb_device(&self) -> (r: &str)
        ensures
            r@ == self.watched(),
    {
        self.usb_device.as_str()
    }
}

/// Watches for the USB device through libusb hotplug callbacks.
pub struct MacosHotplugTrigger {
    usb_device: String,
}

impl MacosHotplugTrigger {
    pub closed spec fn watched(&self) -> Seq<char> {
        self.usb_device@
    }

    /// Watches `usb_device`, compared in lowercase.
    pub fn new(usb_device: &str) -> (r: MacosHotplugTrigger)
        ensures
            r.watched() == lowercase(usb_device@),
    {
        MacosHotplugTrigger { usb_device: to_lowercase(usb_device) }
    }

    /// The watched device id.
    pub fn usb_device(&self) -> (r: &str)
        ensures
            r@ == self.watched(),
    {
        self.usb_device.as_str()
    }
}

} // verus!
