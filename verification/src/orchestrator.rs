//! The switching pipeline: turning trigger events and manual requests into
//! input switches, and carrying each switch out.
//!
//! A switch writes the input-select value once; when that write fails, the
//! displays are blanked and restored and the write is tried once more. The
//! order of these steps is a small state machine, [`SwitchRun`]; the
//! functions that call the backends follow it step by step and report the
//! commands they carried out.
use crate::config::{Configuration, ConfigurationView, InputSource};
use crate::ddc::DdcBackend;
use crate::monitor_map::{
    configured_input, resolve, resolved, target_for_input, target_with, SwitchDirection, SwitchTarget,
};
use crate::power::PowerFallback;
use crate::trigger::TriggerEvent;
use vstd::prelude::*;

verus! {

/// VCP feature code for input select (DDC/CI standard).
pub const INPUT_SELECT: u8 = 0x60;

/// Events consumed by the single consumer loop: trigger events from a
/// watcher, and manual switch requests from the user interface. Both go
/// through the same handlers, so only one consumer ever writes over DDC/CI.
#[derive(Clone, Copy)]
pub enum DaemonEvent {
    Trigger(TriggerEvent),
    ManualSwitch(InputSource),
}

/// One VCP write: the arguments of `DdcBackend::set_vcp`.
#[derive(Clone, Copy, Debug, PartialEq, Eq)]
pub struct VcpWrite {
    pub monitor_index: u32,
    pub code: u8,
    pub value: u16,
    pub source_addr: Option<u8>,
}

/// How a switch ended.
#[derive(Clone, Copy, Debug, PartialEq, Eq, Structural)]
pub enum SwitchOutcome {
    /// The first write succeeded.
    Switched,
    /// The first write failed; the write after the power fallback succeeded.
    SwitchedAfterFallback,
    /// Both writes failed.
    GaveUp,
}

/// What a switch does next.
#[derive(Clone, Copy, Debug, PartialEq, Eq)]
pub enum SwitchCommand {
    WriteVcp(VcpWrite),
    BlankAndRestore,
    Finish(SwitchOutcome),
}

#[derive(Clone, Copy, Debug, PartialEq, Eq)]
pub enum SwitchStage {
    FirstWrite,
    PowerFallback,
    RetryWrite,
    Finished(SwitchOutcome),
}

/// The progress of one switch.
#[derive(Clone, Copy)]
pub struct SwitchRun {
    pub target: SwitchTarget,
    pub stage: SwitchStage,
}

/// The write that switches to `t`.
pub open spec fn write_for(t: SwitchTarget) -> VcpWrite {
    VcpWrite {
        monitor_index: t.display_index,
        code: t.vcp_code,
        value: t.input_source.code(),
        source_addr: t.source_addr,
    }
}

/// The commands of a switch to `t`, given whether the first write and the
/// retry succeed: the write; then, only when it failed, the power fallback
/// and the same write again; then the outcome.
pub open spec fn switch_trace(t: SwitchTarget, first_ok: bool, retry_ok: bool) -> Seq<SwitchCommand> {
    if first_ok {
        seq![SwitchCommand::WriteVcp(write_for(t)), SwitchCommand::Finish(SwitchOutcome::Switched)]
    } else {
        seq![
            SwitchCommand::WriteVcp(write_for(t)),
            SwitchCommand::BlankAndRestore,
            SwitchCommand::WriteVcp(write_for(t)),
            SwitchCommand::Finish(
                if retry_ok {
                    SwitchOutcome::SwitchedAfterFallback
                } else {
                    SwitchOutcome::GaveUp
                },
            ),
        ]
    }
}

/// `commands` is what a switch to `t` does for some results of its writes.
pub open spec fn is_switch_trace(t: SwitchTarget, commands: Seq<SwitchCommand>) -> bool {
    exists|first_ok: bool, retry_ok: bool| commands == switch_trace(t, first_ok, retry_ok)
}

impl SwitchRun {
    pub open spec fn started(t: SwitchTarget) -> SwitchRun {
        SwitchRun { target: t, stage: SwitchStage::FirstWrite }
    }

    pub open spec fn command(self) -> SwitchCommand {
        match self.stage {
            SwitchStage::FirstWrite => SwitchCommand::WriteVcp(write_for(self.target)),
            SwitchStage::PowerFallback => SwitchCommand::BlankAndRestore,
            SwitchStage::RetryWrite => SwitchCommand::WriteVcp(write_for(self.target)),
            SwitchStage::Finished(o) => SwitchCommand::Finish(o),
        }
    }

    /// The run after a write whose success is `ok`.
    pub open spec fn after_write(self, ok: bool) -> SwitchRun {
        match self.stage {
            SwitchStage::FirstWrite => SwitchRun {
                stage: if ok {
                    SwitchStage::Finished(SwitchOutcome::Switched)
                } else {
                    SwitchStage::PowerFallback
                },
                ..self
            },
            SwitchStage::RetryWrite => SwitchRun {
                stage: SwitchStage::Finished(
                    if ok {
                        SwitchOutcome::SwitchedAfterFallback
                    } else {
                        SwitchOutcome::GaveUp
                    },
                ),
                ..self
            },
            _ => self,
        }
    }

    /// The run after the power fallback, whatever its result.
    pub open spec fn after_fallback(self) -> SwitchRun {
        match self.stage {
            SwitchStage::PowerFallback => SwitchRun { stage: SwitchStage::RetryWrite, ..self },
            _ => self,
        }
    }

    /// Steps left before the run finishes.
    pub open spec fn steps_left(self) -> nat {
        match self.stage {
            SwitchStage::FirstWrite => 3,
            SwitchStage::PowerFallback => 2,
            SwitchStage::RetryWrite => 1,
            SwitchStage::Finished(_) => 0,
        }
    }

    pub fn new(target: SwitchTarget) -> (r: SwitchRun)
        ensures
            r == SwitchRun::started(target),
    {
        SwitchRun { target, stage: SwitchStage::FirstWrite }
    }

    pub fn next_command(&self) -> (r: SwitchCommand)
        ensures
            r == self.command(),
    {
        match self.stage {
            SwitchStage::FirstWrite | SwitchStage::RetryWrite => SwitchCommand::WriteVcp(
                VcpWrite {
                    monitor_index: self.target.display_index,
                    code: self.target.vcp_code,
                    value: self.target.input_source.value(),
                    source_addr: self.target.source_addr,
                },
            ),
            SwitchStage::PowerFallback => SwitchCommand::BlankAndRestore,
            SwitchStage::Finished(o) => SwitchCommand::Finish(o),
        }
    }

    /// Records the result of the write that [`SwitchRun::next_command`] asked for.
    pub fn record_write(&mut self, succeeded: bool)
        requires
            old(self).command() is WriteVcp,
        ensures
            *final(self) == old(self).after_write(succeeded),
            final(self).steps_left() < old(self).steps_left(),
    {
        match self.stage {
            SwitchStage::FirstWrite => {
                self.stage = if succeeded {
                    SwitchStage::Finished(SwitchOutcome::Switched)
                } else {
                    SwitchStage::PowerFallback
                };
            },
            SwitchStage::RetryWrite => {
                self.stage = SwitchStage::Finished(
                    if succeeded {
                        SwitchOutcome::SwitchedAfterFallback
                    } else {
                        SwitchOutcome::GaveUp
                    },
                );
            },
            _ => {},
        }
    }

    /// Records that the power fallback was carried out.
    pub fn record_fallback(&mut self)
        requires
            old(self).command() is BlankAndRestore,
        ensures
            *final(self) == old(self).after_fallback(),
            final(self).steps_left() < old(self).steps_left(),
    {
        self.stage = SwitchStage::RetryWrite;
    }
}

/// The commands a run issues when its writes succeed as `results` says, in
/// order, for at most `fuel` commands.
pub open spec fn driven(run: SwitchRun, results: Seq<bool>, fuel: nat) -> Seq<SwitchCommand>
    decreases fuel,
{
    if fuel == 0 {
        seq![]
    } else {
        match run.command() {
            SwitchCommand::Finish(o) => seq![SwitchCommand::Finish(o)],
            SwitchCommand::WriteVcp(w) => if results.len() == 0 {
                seq![SwitchCommand::WriteVcp(w)]
            } else {
                seq![SwitchCommand::WriteVcp(w)] + driven(
                    run.after_write(results[0]),
                    results.drop_first(),
                    (fuel - 1) as nat,
                )
            },
            SwitchCommand::BlankAndRestore => seq![SwitchCommand::BlankAndRestore] + driven(
                run.after_fallback(),
                results,
                (fuel - 1) as nat,
            ),
        }
    }
}

/// A switch writes the target's input once when that succeeds; when it
/// fails, it blanks and restores the displays once and writes the same
/// input once more, and then stops: never more than two writes and one
/// fallback, and the fallback only after a failed write.
pub proof fn lemma_switch_follows_trace(t: SwitchTarget, first_ok: bool, retry_ok: bool)
    ensures
        driven(SwitchRun::started(t), seq![first_ok, retry_ok], 4) == switch_trace(
            t,
            first_ok,
            retry_ok,
        ),
{
    let r0 = SwitchRun::started(t);
    let results = seq![first_ok, retry_ok];
    let r1 = r0.after_write(first_ok);
    assert(results.drop_first() =~= seq![retry_ok]);
    if first_ok {
        assert(driven(r1, seq![retry_ok], 3) =~= seq![SwitchCommand::Finish(SwitchOutcome::Switched)]);
        assert(driven(r0, results, 4) =~= switch_trace(t, first_ok, retry_ok));
    } else {
        let r2 = r1.after_fallback();
        let r3 = r2.after_write(retry_ok);
        assert(seq![retry_ok].drop_first() =~= Seq::<bool>::empty());
        let fin = driven(r3, Seq::<bool>::empty(), 1);
        assert(fin =~= seq![r3.command()]);
        let d2 = driven(r2, seq![retry_ok], 2);
        assert(d2 =~= seq![SwitchCommand::WriteVcp(write_for(t))] + fin);
        let d1 = driven(r1, seq![retry_ok], 3);
        assert(d1 =~= seq![SwitchCommand::BlankAndRestore] + d2);
        assert(driven(r0, results, 4) =~= switch_trace(t, first_ok, retry_ok));
    }
}

/// The record of one switch that was carried out.
pub struct SwitchReport {
    pub outcome: SwitchOutcome,
    /// The commands carried out, in order, ending with the outcome.
    pub commands: Vec<SwitchCommand>,
    /// What the first write returned.
    pub first_write: Result<(), anyhow::Error>,
    /// What the power fallback returned, when it ran.
    pub fallback: Option<Result<(), anyhow::Error>>,
    /// What the write after the fallback returned, when it ran.
    pub retry_write: Option<Result<(), anyhow::Error>>,
}

/// `result` is what `ddc.set_vcp` returned for the write that switches to `t`.
pub open spec fn wrote<D: DdcBackend>(ddc: &D, t: SwitchTarget, result: Result<(), anyhow::Error>) -> bool {
    call_ensures(
        D::set_vcp,
        (ddc, t.display_index, t.vcp_code, t.input_source.code(), t.source_addr),
        result,
    )
}

impl SwitchReport {
    /// `self` records a switch to `t`.
    pub open spec fn records(self, t: SwitchTarget) -> bool {
        &&& is_switch_trace(t, self.commands@)
        &&& self.commands@.last() == SwitchCommand::Finish(self.outcome)
    }

    /// The backend calls of a switch to `t`, with what they returned: the
    /// write with the target's display, feature code, value and source
    /// address; it succeeded exactly when the outcome is `Switched`, and
    /// then nothing else ran. Otherwise the power fallback ran and then the
    /// same write again, which succeeded exactly when the outcome is
    /// `SwitchedAfterFallback`.
    pub open spec fn made_calls<D: DdcBackend, P: PowerFallback>(
        self,
        ddc: &D,
        power: &P,
        t: SwitchTarget,
    ) -> bool {
        &&& wrote(ddc, t, self.first_write)
        &&& (self.first_write is Ok <==> self.outcome == SwitchOutcome::Switched)
        &&& self.outcome == SwitchOutcome::Switched ==> self.fallback is None
            && self.retry_write is None
        &&& self.outcome != SwitchOutcome::Switched ==> {
            &&& self.fallback matches Some(f) && call_ensures(P::blank_and_restore, (power,), f)
            &&& self.retry_write matches Some(w) && wrote(ddc, t, w) && (w is Ok <==> self.outcome
                == SwitchOutcome::SwitchedAfterFallback)
        }
    }

    /// `self` records a switch to `t` and the backend calls it made.
    pub open spec fn switched<D: DdcBackend, P: PowerFallback>(
        self,
        ddc: &D,
        power: &P,
        t: SwitchTarget,
    ) -> bool {
        self.records(t) && self.made_calls(ddc, power, t)
    }
}

/// Carries out a switch to `target`: the write, and when it fails the power
/// fallback and one more write with the same arguments, reporting the
/// commands carried out and what each call returned.
pub fn perform_switch<D: DdcBackend, P: PowerFallback>(target: &SwitchTarget, ddc: &D, power: &P) -> (r:
    SwitchReport)
    ensures
        r.switched(ddc, power, *target),
{
    let mut run = SwitchRun::new(*target);
    let mut commands: Vec<SwitchCommand> = Vec::new();
    let write = VcpWrite {
        monitor_index: target.display_index,
        code: target.vcp_code,
        value: target.input_source.value(),
        source_addr: target.source_addr,
    };
    let first = run.next_command();
    assert(first == SwitchCommand::WriteVcp(write));
    commands.push(first);
    let first_write = ddc.set_vcp(write.monitor_index, write.code, write.value, write.source_addr);
    run.record_write(first_write.is_ok());
    if first_write.is_ok() {
        let finish = run.next_command();
        commands.push(finish);
        proof {
            assert(commands@ =~= switch_trace(*target, true, true));
        }
        return SwitchReport {
            outcome: SwitchOutcome::Switched,
            commands,
            first_write,
            fallback: None,
            retry_write: None,
        };
    }
    commands.push(run.next_command());
    let fallback = power.blank_and_restore();
    run.record_fallback();
    commands.push(run.next_command());
    let retry_write = ddc.set_vcp(write.monitor_index, write.code, write.value, write.source_addr);
    let retry_ok = retry_write.is_ok();
    run.record_write(retry_ok);
    let finish = run.next_command();
    commands.push(finish);
    proof {
        assert(commands@ =~= switch_trace(*target, false, retry_ok));
    }
    let outcome = if retry_ok {
        SwitchOutcome::SwitchedAfterFallback
    } else {
        SwitchOutcome::GaveUp
    };
    SwitchReport {
        outcome,
        commands,
        first_write,
        fallback: Some(fallback),
        retry_write: Some(retry_write),
    }
}

/// The direction a trigger event asks for.
pub open spec fn direction_of(event: TriggerEvent) -> SwitchDirection {
    match event {
        TriggerEvent::HostGainedFocus => SwitchDirection::Connect,
        TriggerEvent::HostLostFocus => SwitchDirection::Disconnect,
    }
}

/// The switch a daemon event asks for: a trigger event's configured input,
/// or the requested input with the configured display and recipe.
pub open spec fn daemon_event_target(event: DaemonEvent, c: ConfigurationView) -> Option<SwitchTarget> {
    match event {
        DaemonEvent::Trigger(e) => resolved(c, direction_of(e)),
        DaemonEvent::ManualSwitch(input) => Some(target_with(c, input)),
    }
}

/// Handles a trigger event: switches to the input configured for its
/// direction, and reports the switch; returns `None`, with no report, when
/// no input is configured for that direction.
pub fn handle_event<D: DdcBackend, P: PowerFallback>(
    event: TriggerEvent,
    config: &Configuration,
    ddc_backend: &D,
    power_fallback: &P,
) -> (r: Option<SwitchReport>)
    ensures
        match resolved(config@, direction_of(event)) {
            None => r is None,
            Some(t) => r matches Some(report) && report.switched(ddc_backend, power_fallback, t),
        },
        event == TriggerEvent::HostGainedFocus ==> match config@.on_usb_connect {
            None => r is None,
            Some(i) => r matches Some(report) && report.switched(
                ddc_backend,
                power_fallback,
                target_with(config@, i),
            ),
        },
        event == TriggerEvent::HostLostFocus ==> match config@.on_usb_disconnect {
            None => r is None,
            Some(i) => r matches Some(report) && report.switched(
                ddc_backend,
                power_fallback,
                target_with(config@, i),
            ),
        },
{
    let direction = match event {
        TriggerEvent::HostGainedFocus => SwitchDirection::Connect,
        TriggerEvent::HostLostFocus => SwitchDirection::Disconnect,
    };
    match resolve(config, direction) {
        Some(target) => Some(perform_switch(&target, ddc_backend, power_fallback)),
        None => None,
    }
}

/// Switches directly to `input`, with the configured display, source
/// address and feature code but regardless of the connect/disconnect mapping.
pub fn handle_manual_switch<D: DdcBackend, P: PowerFallback>(
    input: InputSource,
    config: &Configuration,
    ddc_backend: &D,
    power_fallback: &P,
) -> (r: SwitchReport)
    ensures
        r.switched(ddc_backend, power_fallback, target_with(config@, input)),
{
    let target = target_for_input(config, input);
    perform_switch(&target, ddc_backend, power_fallback)
}

/// Handles one event of the consumer loop, through the same handlers for
/// trigger events and manual requests.
pub fn handle_daemon_event<D: DdcBackend, P: PowerFallback>(
    event: DaemonEvent,
    config: &Configuration,
    ddc_backend: &D,
    power_fallback: &P,
) -> (r: Option<SwitchReport>)
    ensures
        match daemon_event_target(event, config@) {
            None => r is None,
            Some(t) => r matches Some(report) && report.switched(ddc_backend, power_fallback, t),
        },
{
    match event {
        DaemonEvent::Trigger(trigger_event) => handle_event(
            trigger_event,
            config,
            ddc_backend,
            power_fallback,
        ),
        DaemonEvent::ManualSwitch(input) => Some(
            handle_manual_switch(input, config, ddc_backend, power_fallback),
        ),
    }
}

/// A trigger event switches exactly as a manual switch to the input that is
/// configured for its direction: same target, so (by the contracts of
/// `handle_event` and `handle_manual_switch`) the same backend calls with the
/// same arguments.
pub proof fn lemma_trigger_switches_like_manual(event: TriggerEvent, c: ConfigurationView)
    ensures
        configured_input(c, direction_of(event)) matches Some(i) ==> resolved(c, direction_of(event))
            == Some(target_with(c, i)),
        configured_input(c, direction_of(event)) is None ==> resolved(c, direction_of(event)) is None,
{
}

/// A manual switch does not depend on the connect/disconnect mapping: two
/// configurations that differ only there give the same target, whose write
/// carries the configured display, feature code and source address.
pub proof fn lemma_manual_switch_ignores_mapping(c1: ConfigurationView, c2: ConfigurationView, input: InputSource)
    requires
        c1.display_index == c2.display_index,
        c1.on_usb_connect_source_addr == c2.on_usb_connect_source_addr,
        c1.on_usb_connect_vcp_code == c2.on_usb_connect_vcp_code,
    ensures
        target_with(c1, input) == target_with(c2, input),
        write_for(target_with(c1, input)) == (VcpWrite {
            monitor_index: c1.selected_display(),
            code: c1.selected_vcp_code(),
            value: input.code(),
            source_addr: c1.on_usb_connect_source_addr,
        }),
{
}

} // verus!
