use monitorhop::config::{Configuration, ConfigurationFields, InputSource, SymbolicInputSource};
use monitorhop::ddc::DdcBackend;
use monitorhop::orchestrator::{
    handle_daemon_event, handle_event, handle_manual_switch, DaemonEvent, SwitchCommand, SwitchOutcome, VcpWrite,
};
use monitorhop::power::PowerFallback;
use monitorhop::trigger::TriggerEvent;
use std::cell::RefCell;

struct FakeDdc {
    calls: RefCell<Vec<(u32, u8, u16, Option<u8>)>>,
    fail_first_n: RefCell<u32>,
}

impl DdcBackend for FakeDdc {
    fn set_vcp(&self, monitor_index: u32, code: u8, value: u16, source_addr: Option<u8>) -> anyhow::Result<()> {
        self.calls.borrow_mut().push((monitor_index, code, value, source_addr));
        let mut remaining = self.fail_first_n.borrow_mut();
        if *remaining > 0 {
            *remaining -= 1;
            return Err(anyhow::Error::msg("simulated failure"));
        }
        Ok(())
    }
}

struct FakePower {
    called: RefCell<u32>,
}

impl PowerFallback for FakePower {
    fn blank_and_restore(&self) -> anyhow::Result<()> {
        *self.called.borrow_mut() += 1;
        Ok(())
    }
}

fn load(connect: &str, source_addr: Option<u8>) -> Configuration {
    let fields = ConfigurationFields {
        usb_device: "17e9:6000".to_string(),
        mxkeys_usb_device: None,
        on_usb_connect: Some(connect.to_string()),
        on_usb_disconnect: None,
        on_usb_connect_source_addr: source_addr,
        on_usb_connect_vcp_code: None,
        display_index: None,
    };
    match Configuration::from_fields(&fields) {
        Ok(c) => c,
        Err(text) => panic!("invalid input source: {}", text),
    }
}

fn ddc(fail_first_n: u32) -> FakeDdc {
    FakeDdc { calls: RefCell::new(vec![]), fail_first_n: RefCell::new(fail_first_n) }
}

#[test]
fn successful_switch_calls_ddc_backend_once_with_resolved_target() {
    let config = load("Hdmi1", Some(80));
    let ddc = ddc(0);
    let power = FakePower { called: RefCell::new(0) };

    handle_event(TriggerEvent::HostGainedFocus, &config, &ddc, &power);

    assert_eq!(*ddc.calls.borrow(), vec![(0, 0x60, 0x11, Some(0x50))]);
    assert_eq!(*power.called.borrow(), 0);
}

#[test]
fn failed_switch_triggers_power_fallback_and_retries_once() {
    let config = load("Hdmi1", None);
    let ddc = ddc(1);
    let power = FakePower { called: RefCell::new(0) };

    handle_event(TriggerEvent::HostGainedFocus, &config, &ddc, &power);

    assert_eq!(ddc.calls.borrow().len(), 2);
    assert_eq!(*power.called.borrow(), 1);
}

#[test]
fn unconfigured_direction_does_not_touch_backend() {
    let config = load("Hdmi1", None);
    let ddc = ddc(0);
    let power = FakePower { called: RefCell::new(0) };

    handle_event(TriggerEvent::HostLostFocus, &config, &ddc, &power);

    assert!(ddc.calls.borrow().is_empty());
}

#[test]
fn manual_switch_calls_ddc_backend_with_given_input_and_configured_display() {
    let config = load("Hdmi1", Some(80));
    let ddc = ddc(0);
    let power = FakePower { called: RefCell::new(0) };

    handle_manual_switch(InputSource::Symbolic(SymbolicInputSource::DisplayPort1), &config, &ddc, &power);

    assert_eq!(*ddc.calls.borrow(), vec![(0, 0x60, 0x0f, Some(0x50))]);
}

#[test]
fn run_processes_trigger_and_manual_events_through_the_same_handlers() {
    let config = load("Hdmi1", None);
    let ddc = ddc(0);
    let power = FakePower { called: RefCell::new(0) };
    let events = vec![
        DaemonEvent::Trigger(TriggerEvent::HostGainedFocus),
        DaemonEvent::ManualSwitch(InputSource::Symbolic(SymbolicInputSource::Hdmi2)),
    ];

    for event in events {
        handle_daemon_event(event, &config, &ddc, &power);
    }

    assert_eq!(*ddc.calls.borrow(), vec![(0, 0x60, 0x11, None), (0, 0x60, 0x12, None)]);
}

#[test]
fn reports_record_the_commands_carried_out() {
    let config = load("Hdmi1", None);
    let power = FakePower { called: RefCell::new(0) };
    let write = SwitchCommand::WriteVcp(VcpWrite { monitor_index: 0, code: 0x60, value: 0x11, source_addr: None });

    let ok = handle_event(TriggerEvent::HostGainedFocus, &config, &ddc(0), &power).unwrap();
    assert_eq!(ok.outcome, SwitchOutcome::Switched);
    assert_eq!(ok.commands, vec![write, SwitchCommand::Finish(SwitchOutcome::Switched)]);

    let retried = handle_event(TriggerEvent::HostGainedFocus, &config, &ddc(1), &power).unwrap();
    assert_eq!(retried.outcome, SwitchOutcome::SwitchedAfterFallback);
    assert_eq!(
        retried.commands,
        vec![write, SwitchCommand::BlankAndRestore, write, SwitchCommand::Finish(SwitchOutcome::SwitchedAfterFallback)]
    );

    let failing = ddc(5);
    let gave_up = handle_event(TriggerEvent::HostGainedFocus, &config, &failing, &power).unwrap();
    assert_eq!(gave_up.outcome, SwitchOutcome::GaveUp);
    assert_eq!(failing.calls.borrow().len(), 2);
    assert_eq!(*power.called.borrow(), 2);

    assert!(handle_event(TriggerEvent::HostLostFocus, &config, &ddc(0), &power).is_none());
}

#[test]
fn reports_carry_the_backend_errors() {
    let config = load("Hdmi1", None);
    let power = FakePower { called: RefCell::new(0) };

    let ok = handle_event(TriggerEvent::HostGainedFocus, &config, &ddc(0), &power).unwrap();
    assert!(ok.first_write.is_ok());
    assert!(ok.fallback.is_none() && ok.retry_write.is_none());

    let gave_up = handle_event(TriggerEvent::HostGainedFocus, &config, &ddc(2), &power).unwrap();
    assert_eq!(gave_up.first_write.unwrap_err().to_string(), "simulated failure");
    assert!(gave_up.fallback.unwrap().is_ok());
    assert_eq!(gave_up.retry_write.unwrap().unwrap_err().to_string(), "simulated failure");
}
