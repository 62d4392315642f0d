//! What saving a configuration starts: on the first save the switch
//! pipeline, which was waiting for a configuration, is started; a later
//! save only stores the configuration, and takes effect after a restart.
use crate::config::{Configuration, ConfigurationView};
use vstd::prelude::*;

verus! {

/// A step of starting the switch pipeline, for the application to carry out.
#[derive(Debug, PartialEq, Eq)]
pub enum PipelineAction {
    /// Watch for this USB device coming and going.
    WatchUsbDevice(String),
    /// Watch for this keyboard receiver, to show whether it is present.
    WatchKeyboardReceiver(String),
    /// Start handling switch events.
    StartConsumer,
    /// Rebuild the tray's quick-switch items for the saved configuration.
    RefreshTrayItems,
}

/// The steps that start the pipeline for `c`, in order: watch the USB
/// device, watch the keyboard receiver where one is configured, start the
/// consumer, refresh the tray.
pub open spec fn starts_pipeline(r: Seq<PipelineAction>, c: ConfigurationView) -> bool {
    &&& r.len() >= 1
    &&& r[0] matches PipelineAction::WatchUsbDevice(d) && d@ == c.usb_device
    &&& match c.mxkeys_usb_device {
        Some(m) => {
            &&& r.len() == 4
            &&& r[1] matches PipelineAction::WatchKeyboardReceiver(k) && k@ == m
            &&& r[2] is StartConsumer
            &&& r[3] is RefreshTrayItems
        },
        None => {
            &&& r.len() == 3
            &&& r[1] is StartConsumer
            &&& r[2] is RefreshTrayItems
        },
    }
}

/// The steps to take once `config` has been stored: none when the pipeline
/// is already running (`pipeline_waiting` false), otherwise the steps that
/// start it (see [`starts_pipeline`]).
pub fn actions_after_save(pipeline_waiting: bool, config: &Configuration) -> (r: Vec<PipelineAction>)
    ensures
        !pipeline_waiting ==> r@.len() == 0,
        pipeline_waiting ==> starts_pipeline(r@, config@),
{
    let mut actions: Vec<PipelineAction> = Vec::new();
    if !pipeline_waiting {
        return actions;
    }
    actions.push(PipelineAction::WatchUsbDevice(config.usb_device.clone()));
    match &config.mxkeys_usb_device {
        Some(device) => actions.push(PipelineAction::WatchKeyboardReceiver(device.clone())),
        None => {},
    }
    actions.push(PipelineAction::StartConsumer);
    actions.push(PipelineAction::RefreshTrayItems);
    actions
}

} // verus!
