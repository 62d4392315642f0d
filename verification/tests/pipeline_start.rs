use monitorhop::config::{Configuration, InputSource};
use monitorhop::pipeline_start::{actions_after_save, PipelineAction};

fn config(mxkeys: Option<&str>) -> Configuration {
    Configuration {
        usb_device: "17e9:6000".to_string(),
        mxkeys_usb_device: mxkeys.map(|m| m.to_string()),
        on_usb_connect: Some(InputSource::Raw(0x11)),
        on_usb_disconnect: None,
        on_usb_connect_source_addr: None,
        on_usb_connect_vcp_code: None,
        display_index: None,
    }
}

#[test]
fn first_save_starts_the_pipeline_with_the_keyboard_watch() {
    assert_eq!(
        actions_after_save(true, &config(Some("046d:c52b"))),
        vec![
            PipelineAction::WatchUsbDevice("17e9:6000".to_string()),
            PipelineAction::WatchKeyboardReceiver("046d:c52b".to_string()),
            PipelineAction::StartConsumer,
            PipelineAction::RefreshTrayItems,
        ]
    );
}

#[test]
fn first_save_without_keyboard_receiver_skips_its_watch() {
    assert_eq!(
        actions_after_save(true, &config(None)),
        vec![
            PipelineAction::WatchUsbDevice("17e9:6000".to_string()),
            PipelineAction::StartConsumer,
            PipelineAction::RefreshTrayItems,
        ]
    );
}

#[test]
fn saving_again_while_running_starts_nothing() {
    assert!(actions_after_save(false, &config(Some("046d:c52b"))).is_empty());
}
