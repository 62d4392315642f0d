//! Which input to select, on which display and with which DDC/CI recipe,
//! when the watched USB device connects or disconnects.
use crate::config::{Configuration, ConfigurationView, InputSource};
use vstd::prelude::*;

verus! {

#[derive(Clone, Copy, Debug, PartialEq, Eq, Structural)]
pub enum SwitchDirection {
    Connect,
    Disconnect,
}

/// Everything one input switch needs.
#[derive(Clone, Copy)]
pub struct SwitchTarget {
    pub display_index: u32,
    pub input_source: InputSource,
    pub source_addr: Option<u8>,
    pub vcp_code: u8,
}

/// A switch to `input` with the display and recipe of configuration `c`.
pub open spec fn target_with(c: ConfigurationView, input: InputSource) -> SwitchTarget {
    SwitchTarget {
        display_index: c.selected_display(),
        input_source: input,
        source_addr: c.on_usb_connect_source_addr,
        vcp_code: c.selected_vcp_code(),
    }
}

/// The input configured for a direction.
pub open spec fn configured_input(c: ConfigurationView, direction: SwitchDirection) -> Option<
    InputSource,
> {
    match direction {
        SwitchDirection::Connect => c.on_usb_connect,
        SwitchDirection::Disconnect => c.on_usb_disconnect,
    }
}

/// The switch for a direction: none when no input is configured for it.
pub open spec fn resolved(c: ConfigurationView, direction: SwitchDirection) -> Option<SwitchTarget> {
    match configured_input(c, direction) {
        Some(input) => Some(target_with(c, input)),
        None => None,
    }
}

/// The switch resolved for a direction takes the input configured for that
/// same direction, and exists exactly when one is configured: the connect
/// input on connect, the disconnect input on disconnect. It writes to the
/// configured display (`0` unless set), with the configured feature code
/// (`0x60` unless set) and source address.
pub proof fn lemma_resolved_follows_direction(c: ConfigurationView, direction: SwitchDirection)
    ensures
        direction == SwitchDirection::Connect ==> (resolved(c, direction) is None <==> c.on_usb_connect is None),
        direction == SwitchDirection::Disconnect ==> (resolved(c, direction) is None
            <==> c.on_usb_disconnect is None),
        resolved(c, direction) matches Some(t) ==> {
            &&& direction == SwitchDirection::Connect ==> Some(t.input_source) == c.on_usb_connect
            &&& direction == SwitchDirection::Disconnect ==> Some(t.input_source) == c.on_usb_disconnect
            &&& t.display_index == (match c.display_index {
                Some(i) => i,
                None => 0u32,
            })
            &&& t.vcp_code == (match c.on_usb_connect_vcp_code {
                Some(v) => v,
                None => 0x60u8,
            })
            &&& t.source_addr == c.on_usb_connect_source_addr
        },
{
}

/// The switch to `input` with the display and recipe of `config`.
pub fn target_for_input(config: &Configuration, input: InputSource) -> (r: SwitchTarget)
    ensures
        r == target_with(config@, input),
{
    SwitchTarget {
        display_index: config.display_index(),
        input_source: input,
        source_addr: config.on_usb_connect_source_addr,
        vcp_code: config.vcp_code(),
    }
}

/// The switch to perform for `direction`; `None` when no input is configured for it.
pub fn resolve(config: &Configuration, direction: SwitchDirection) -> (r: Option<SwitchTarget>)
    ensures
        r == resolved(config@, direction),
        direction == SwitchDirection::Connect ==> (r is None <==> config@.on_usb_connect is None),
        direction == SwitchDirection::Disconnect ==> (r is None <==> config@.on_usb_disconnect is None),
        r matches Some(t) ==> {
            &&& direction == SwitchDirection::Connect ==> Some(t.input_source) == config@.on_usb_connect
            &&& direction == SwitchDirection::Disconnect ==> Some(t.input_source) == config@.on_usb_disconnect
            &&& t.display_index == (match config@.display_index {
                Some(i) => i,
                None => 0u32,
            })
            &&& t.vcp_code == (match config@.on_usb_connect_vcp_code {
                Some(c) => c,
                None => 0x60u8,
            })
            &&& t.source_addr == config@.on_usb_connect_source_addr
        },
{
    proof {
        lemma_resolved_follows_direction(config@, direction);
    }
    let input = match direction {
        SwitchDirection::Connect => config.on_usb_connect,
        SwitchDirection::Disconnect => config.on_usb_disconnect,
    };
    match input {
        Some(input_source) => Some(target_for_input(config, input_source)),
        None => None,
    }
}

} // verus!
