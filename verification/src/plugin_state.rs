//! The plugin instance lifecycle and the decisions the host takes when the plugin calls back.
//!
//! A plugin goes from uninitialized to deactivated (`init`), to activated (`activate`, passing
//! through activating while the call runs), to processing (`start_processing`) and back. Every
//! call into the plugin is only allowed in certain states; the functions here state which, and
//! what the state becomes given what the plugin answered.

use vstd::prelude::*;
use vstd::string::*;
use crate::listing::{decimal, decimal_spec};
use crate::clap_abi::{
    AUDIO_PORTS_RESCAN_NAMES, NOTE_PORTS_RESCAN_ALL, NOTE_PORTS_RESCAN_NAMES, PARAM_RESCAN_ALL,
    PARAM_RESCAN_INFO, PARAM_RESCAN_TEXT, PARAM_RESCAN_VALUES, PROCESS_CONTINUE,
    PROCESS_CONTINUE_IF_NOT_QUIET, PROCESS_ERROR, PROCESS_SLEEP, PROCESS_TAIL,
};

verus! {

/// Host callbacks made by the plugin, in the order they were made.
#[derive(Debug, Clone, Copy, PartialEq, Eq, Hash, Structural)]
pub enum CallbackEvent {
    RequestProcess,
    RequestFlush,
    RescanParamsValues,
    RescanParamsText,
    RescanParamsInfo,
    RescanParamsAll,
    RescanAudioPortsNames,
    RescanAudioPortsAll,
    RescanNotePortsNames,
    RescanNotePortsAll,
    ChangedLatency,
    ChangedTail,
    ChangedVoiceInfo,
    ChangedState,
}

/// The plugin's current lifecycle state, in lifecycle order.
#[derive(Debug, Clone, Copy, PartialEq, Eq, PartialOrd, Ord, Hash, Structural)]
pub enum PluginStatus {
    Uninitialized,
    Deactivated,
    Activating,
    Activated,
    Processing,
}

impl Default for PluginStatus {
    fn default() -> (r: Self)
        ensures
            r == PluginStatus::Uninitialized,
    {
        PluginStatus::Uninitialized
    }
}

/// The equivalent of `clap_process_status`, minus `CLAP_PROCESS_ERROR`, which is an error.
#[derive(Debug, Clone, Copy, PartialEq, Eq, Hash, Structural)]
pub enum ProcessStatus {
    Continue,
    ContinueIfNotQuiet,
    Tail,
    Sleep,
}

/// Why a lifecycle call failed.
#[derive(Debug, Clone, Copy, PartialEq, Eq, Structural)]
pub enum LifecycleError {
    /// `clap_plugin::init()` returned false.
    InitReturnedFalse,
    /// `clap_plugin::init()` succeeded but `clap_plugin::on_main_thread` is null.
    OnMainThreadMissing,
    /// `clap_plugin::activate()` returned false.
    ActivateReturnedFalse,
    /// `clap_plugin::start_processing()` returned false.
    StartProcessingReturnedFalse,
    /// `clap_plugin::process()` returned `CLAP_PROCESS_ERROR`.
    ProcessReturnedError,
    /// `clap_plugin::process()` returned a status code that CLAP does not define.
    UnknownProcessStatus(i32),
}

/// A whole number in decimal, with a minus sign when it is negative.
pub open spec fn signed_decimal_spec(n: int) -> Seq<char> {
    if n < 0 {
        "-"@ + decimal_spec((-n) as nat)
    } else {
        decimal_spec(n as nat)
    }
}

fn signed_decimal(n: i32) -> (r: String)
    ensures
        r@ == signed_decimal_spec(n as int),
{
    if n < 0 {
        let mut s = String::from_str("-");
        let m: i64 = -(n as i64);
        s.append(decimal(m as u128).as_str());
        s
    } else {
        decimal(n as u128)
    }
}

/// The message of a lifecycle error.
pub open spec fn lifecycle_error_text(e: LifecycleError) -> Seq<char> {
    match e {
        LifecycleError::InitReturnedFalse => "'clap_plugin::init()' returned false."@,
        LifecycleError::OnMainThreadMissing => "clap_plugin::on_main_thread is null"@,
        LifecycleError::ActivateReturnedFalse => "'clap_plugin::activate()' returned false."@,
        LifecycleError::StartProcessingReturnedFalse => "'clap_plugin::start_processing()' returned false."@,
        LifecycleError::ProcessReturnedError =>
            "The plugin returned 'CLAP_PROCESS_ERROR' from 'clap_plugin::process()'."@,
        LifecycleError::UnknownProcessStatus(code) =>
            "The plugin returned an unknown 'clap_process_status' value "@ + signed_decimal_spec(code as int)
            + " from 'clap_plugin::process()'."@,
    }
}

impl LifecycleError {
    /// The error's message, as in `'clap_plugin::init()' returned false.`
    pub fn describe(&self) -> (r: String)
        ensures
            r@ == lifecycle_error_text(*self),
    {
        match self {
            LifecycleError::InitReturnedFalse => String::from_str("'clap_plugin::init()' returned false."),
            LifecycleError::OnMainThreadMissing => String::from_str("clap_plugin::on_main_thread is null"),
            LifecycleError::ActivateReturnedFalse => String::from_str("'clap_plugin::activate()' returned false."),
            LifecycleError::StartProcessingReturnedFalse => String::from_str(
                "'clap_plugin::start_processing()' returned false.",
            ),
            LifecycleError::ProcessReturnedError => String::from_str(
                "The plugin returned 'CLAP_PROCESS_ERROR' from 'clap_plugin::process()'.",
            ),
            LifecycleError::UnknownProcessStatus(code) => {
                let mut s = String::from_str("The plugin returned an unknown 'clap_process_status' value ");
                s.append(signed_decimal(*code).as_str());
                s.append(" from 'clap_plugin::process()'.");
                s
            },
        }
    }
}

/// What has to happen to a plugin instance before it is destroyed.
#[derive(Debug, Clone, Copy, PartialEq, Eq, Structural)]
pub enum DropAction {
    /// Nothing: the plugin is not active.
    Nothing,
    /// The plugin is still active and is deactivated first.
    Deactivate,
    /// The plugin is in a state it cannot be destroyed from, which is a validator bug.
    InvalidState,
}

/// Control flow for the processing loop.
#[derive(Debug, Clone, Copy, PartialEq, Eq, Structural)]
pub enum ProcessControlFlow {
    Continue,
    Reset,
    Exit,
}

impl PluginStatus {
    /// The position of a state in lifecycle order.
    pub open spec fn rank(self) -> int {
        match self {
            PluginStatus::Uninitialized => 0,
            PluginStatus::Deactivated => 1,
            PluginStatus::Activating => 2,
            PluginStatus::Activated => 3,
            PluginStatus::Processing => 4,
        }
    }

    /// The position of a state in lifecycle order.
    pub fn order(&self) -> (r: u8)
        ensures
            r == self.rank(),
    {
        match self {
            PluginStatus::Uninitialized => 0,
            PluginStatus::Deactivated => 1,
            PluginStatus::Activating => 2,
            PluginStatus::Activated => 3,
            PluginStatus::Processing => 4,
        }
    }

    /// Requires the plugin to be in state `expected`; calling this in any other state is a bug in
    /// the validator.
    pub fn assert_is(&self, expected: PluginStatus)
        requires
            *self == expected,
    {
    }

    /// Requires the plugin not to be in state `unexpected`.
    pub fn assert_is_not(&self, unexpected: PluginStatus)
        requires
            *self != unexpected,
    {
    }

    /// Requires the plugin to be activated or processing.
    pub fn assert_active(&self)
        requires
            self.rank() >= PluginStatus::Activated.rank(),
    {
    }

    /// Requires the plugin to be neither activated nor processing.
    pub fn assert_inactive(&self)
        requires
            self.rank() < PluginStatus::Activated.rank(),
    {
    }

    /// Whether the plugin is activated or processing.
    pub fn is_active(&self) -> (r: bool)
        ensures
            r == (self.rank() >= PluginStatus::Activated.rank()),
    {
        self.order() >= 3
    }

    /// The state after `clap_plugin::init()` returned `returned`; `has_on_main_thread` tells
    /// whether the plugin's `on_main_thread` function pointer is set. The state only advances
    /// when both hold.
    pub fn after_init(self, returned: bool, has_on_main_thread: bool) -> (r: (
        PluginStatus,
        Result<(), LifecycleError>,
    ))
        requires
            self == PluginStatus::Uninitialized,
        ensures
            !returned ==> r == (PluginStatus::Uninitialized, Err::<(), LifecycleError>(
                LifecycleError::InitReturnedFalse,
            )),
            returned && !has_on_main_thread ==> r == (PluginStatus::Uninitialized, Err::<
                (),
                LifecycleError,
            >(LifecycleError::OnMainThreadMissing)),
            returned && has_on_main_thread ==> r == (PluginStatus::Deactivated, Ok::<(), LifecycleError>(())),
    {
        if returned {
            if has_on_main_thread {
                (PluginStatus::Deactivated, Ok(()))
            } else {
                (PluginStatus::Uninitialized, Err(LifecycleError::OnMainThreadMissing))
            }
        } else {
            (PluginStatus::Uninitialized, Err(LifecycleError::InitReturnedFalse))
        }
    }

    /// The state while `clap_plugin::activate()` runs. Activation needs a deactivated plugin and
    /// buffer sizes with `1 <= min_buffer_size <= max_buffer_size`.
    pub fn activating(self, min_buffer_size: u32, max_buffer_size: u32) -> (r: PluginStatus)
        requires
            self == PluginStatus::Deactivated,
            min_buffer_size >= 1,
            max_buffer_size >= min_buffer_size,
        ensures
            r == PluginStatus::Activating,
    {
        PluginStatus::Activating
    }

    /// The state after `clap_plugin::activate()` returned `returned`.
    pub fn after_activate(self, returned: bool) -> (r: (PluginStatus, Result<(), LifecycleError>))
        requires
            self == PluginStatus::Activating,
        ensures
            returned ==> r == (PluginStatus::Activated, Ok::<(), LifecycleError>(())),
            !returned ==> r == (PluginStatus::Deactivated, Err::<(), LifecycleError>(
                LifecycleError::ActivateReturnedFalse,
            )),
    {
        if returned {
            (PluginStatus::Activated, Ok(()))
        } else {
            (PluginStatus::Deactivated, Err(LifecycleError::ActivateReturnedFalse))
        }
    }

    /// The state after `clap_plugin::deactivate()`, which needs an activated plugin.
    pub fn after_deactivate(self) -> (r: PluginStatus)
        requires
            self == PluginStatus::Activated,
        ensures
            r == PluginStatus::Deactivated,
    {
        PluginStatus::Deactivated
    }

    /// The state after `clap_plugin::start_processing()` returned `returned`. It needs an
    /// activated plugin, and the plugin stays activated when the call fails.
    pub fn after_start_processing(self, returned: bool) -> (r: (PluginStatus, Result<(), LifecycleError>))
        requires
            self == PluginStatus::Activated,
        ensures
            returned ==> r == (PluginStatus::Processing, Ok::<(), LifecycleError>(())),
            !returned ==> r == (PluginStatus::Activated, Err::<(), LifecycleError>(
                LifecycleError::StartProcessingReturnedFalse,
            )),
    {
        if returned {
            (PluginStatus::Processing, Ok(()))
        } else {
            (PluginStatus::Activated, Err(LifecycleError::StartProcessingReturnedFalse))
        }
    }

    /// The state after `clap_plugin::stop_processing()`, which needs a processing plugin.
    pub fn after_stop_processing(self) -> (r: PluginStatus)
        requires
            self == PluginStatus::Processing,
        ensures
            r == PluginStatus::Activated,
    {
        PluginStatus::Activated
    }

    /// What to do with a plugin in this state before destroying it.
    pub fn drop_action(self) -> (r: DropAction)
        ensures
            r == match self {
                PluginStatus::Uninitialized | PluginStatus::Deactivated => DropAction::Nothing,
                PluginStatus::Activated => DropAction::Deactivate,
                _ => DropAction::InvalidState,
            },
    {
        match self {
            PluginStatus::Uninitialized | PluginStatus::Deactivated => DropAction::Nothing,
            PluginStatus::Activated => DropAction::Deactivate,
            _ => DropAction::InvalidState,
        }
    }
}

/// The process status that a `clap_process_status` code stands for, or the error it means.
pub open spec fn process_status_spec(code: i32) -> Result<ProcessStatus, LifecycleError> {
    if code == PROCESS_ERROR {
        Err(LifecycleError::ProcessReturnedError)
    } else if code == PROCESS_CONTINUE {
        Ok(ProcessStatus::Continue)
    } else if code == PROCESS_CONTINUE_IF_NOT_QUIET {
        Ok(ProcessStatus::ContinueIfNotQuiet)
    } else if code == PROCESS_TAIL {
        Ok(ProcessStatus::Tail)
    } else if code == PROCESS_SLEEP {
        Ok(ProcessStatus::Sleep)
    } else {
        Err(LifecycleError::UnknownProcessStatus(code))
    }
}

/// Law: each status code that CLAP defines for `clap_plugin::process()` means its own outcome:
/// 0 is an error, 1 continue, 2 continue if not quiet, 3 tail, 4 sleep; every other code is an
/// unknown status carrying the code.
pub proof fn law_process_status_codes(code: i32)
    ensures
        process_status_spec(0) == Err::<ProcessStatus, LifecycleError>(LifecycleError::ProcessReturnedError),
        process_status_spec(1) == Ok::<ProcessStatus, LifecycleError>(ProcessStatus::Continue),
        process_status_spec(2) == Ok::<ProcessStatus, LifecycleError>(ProcessStatus::ContinueIfNotQuiet),
        process_status_spec(3) == Ok::<ProcessStatus, LifecycleError>(ProcessStatus::Tail),
        process_status_spec(4) == Ok::<ProcessStatus, LifecycleError>(ProcessStatus::Sleep),
        (code < 0 || code > 4) ==> process_status_spec(code) == Err::<ProcessStatus, LifecycleError>(
            LifecycleError::UnknownProcessStatus(code),
        ),
        process_status_spec(code) is Ok ==> 1 <= code <= 4,
{
}

/// Interpret the status code that `clap_plugin::process()` returned. Processing needs a
/// processing plugin.
pub fn process_status_from_code(status: PluginStatus, code: i32) -> (r: Result<ProcessStatus, LifecycleError>)
    requires
        status == PluginStatus::Processing,
    ensures
        r == process_status_spec(code),
{
    if code == PROCESS_ERROR {
        Err(LifecycleError::ProcessReturnedError)
    } else if code == PROCESS_CONTINUE {
        Ok(ProcessStatus::Continue)
    } else if code == PROCESS_CONTINUE_IF_NOT_QUIET {
        Ok(ProcessStatus::ContinueIfNotQuiet)
    } else if code == PROCESS_TAIL {
        Ok(ProcessStatus::Tail)
    } else if code == PROCESS_SLEEP {
        Ok(ProcessStatus::Sleep)
    } else {
        Err(LifecycleError::UnknownProcessStatus(code))
    }
}

/// The host's answer to a rescan request: the callback events it records, and whether the
/// request is one that is not allowed while the plugin processes audio.
pub struct RescanOutcome {
    pub events: Vec<CallbackEvent>,
    pub while_active: bool,
}

/// `[e]` when `b` holds, else nothing.
pub open spec fn event_if(b: bool, e: CallbackEvent) -> Seq<CallbackEvent> {
    if b {
        seq![e]
    } else {
        Seq::empty()
    }
}

fn push_if(events: &mut Vec<CallbackEvent>, b: bool, e: CallbackEvent)
    ensures
        final(events)@ == old(events)@ + event_if(b, e),
{
    if b {
        events.push(e);
    }
    proof {
        if !b {
            assert(old(events)@ + event_if(b, e) =~= old(events)@);
        }
    }
}

/// `clap_host_audio_ports::rescan(flags)`: a name rescan is recorded as such, and any other flag
/// means a full rescan, which is not allowed while the plugin processes.
pub fn audio_ports_rescan(flags: u32, status: PluginStatus) -> (r: RescanOutcome)
    ensures
        r.events@ == event_if(flags & AUDIO_PORTS_RESCAN_NAMES != 0, CallbackEvent::RescanAudioPortsNames)
            + event_if(flags & !AUDIO_PORTS_RESCAN_NAMES != 0, CallbackEvent::RescanAudioPortsAll),
        r.while_active == (flags & !AUDIO_PORTS_RESCAN_NAMES != 0 && status.rank()
            > PluginStatus::Activated.rank()),
{
    let mut events: Vec<CallbackEvent> = Vec::new();
    push_if(&mut events, flags & AUDIO_PORTS_RESCAN_NAMES != 0, CallbackEvent::RescanAudioPortsNames);
    let full = flags & !AUDIO_PORTS_RESCAN_NAMES != 0;
    push_if(&mut events, full, CallbackEvent::RescanAudioPortsAll);
    proof {
        assert(Seq::<CallbackEvent>::empty() + event_if(flags & AUDIO_PORTS_RESCAN_NAMES != 0, CallbackEvent::RescanAudioPortsNames)
            =~= event_if(flags & AUDIO_PORTS_RESCAN_NAMES != 0, CallbackEvent::RescanAudioPortsNames));
    }
    RescanOutcome { events, while_active: full && status.order() > 3 }
}

/// `clap_host_note_ports::rescan(flags)`: names and full rescans are recorded; a full rescan is
/// not allowed while the plugin processes.
pub fn note_ports_rescan(flags: u32, status: PluginStatus) -> (r: RescanOutcome)
    ensures
        r.events@ == event_if(flags & NOTE_PORTS_RESCAN_NAMES != 0, CallbackEvent::RescanNotePortsNames)
            + event_if(flags & NOTE_PORTS_RESCAN_ALL != 0, CallbackEvent::RescanNotePortsAll),
        r.while_active == (flags & NOTE_PORTS_RESCAN_ALL != 0 && status.rank() > PluginStatus::Activated.rank()),
{
    let mut events: Vec<CallbackEvent> = Vec::new();
    push_if(&mut events, flags & NOTE_PORTS_RESCAN_NAMES != 0, CallbackEvent::RescanNotePortsNames);
    let full = flags & NOTE_PORTS_RESCAN_ALL != 0;
    push_if(&mut events, full, CallbackEvent::RescanNotePortsAll);
    proof {
        assert(Seq::<CallbackEvent>::empty() + event_if(flags & NOTE_PORTS_RESCAN_NAMES != 0, CallbackEvent::RescanNotePortsNames)
            =~= event_if(flags & NOTE_PORTS_RESCAN_NAMES != 0, CallbackEvent::RescanNotePortsNames));
    }
    RescanOutcome { events, while_active: full && status.order() > 3 }
}

/// `clap_host_params::rescan(flags)`: each of the values, text, info and full rescans is
/// recorded, in that order; a full rescan is not allowed while the plugin processes.
pub fn params_rescan(flags: u32, status: PluginStatus) -> (r: RescanOutcome)
    ensures
        r.events@ == event_if(flags & PARAM_RESCAN_VALUES != 0, CallbackEvent::RescanParamsValues) + event_if(
            flags & PARAM_RESCAN_TEXT != 0,
            CallbackEvent::RescanParamsText,
        ) + event_if(flags & PARAM_RESCAN_INFO != 0, CallbackEvent::RescanParamsInfo) + event_if(
            flags & PARAM_RESCAN_ALL != 0,
            CallbackEvent::RescanParamsAll,
        ),
        r.while_active == (flags & PARAM_RESCAN_ALL != 0 && status.rank() > PluginStatus::Activated.rank()),
{
    let mut events: Vec<CallbackEvent> = Vec::new();
    push_if(&mut events, flags & PARAM_RESCAN_VALUES != 0, CallbackEvent::RescanParamsValues);
    push_if(&mut events, flags & PARAM_RESCAN_TEXT != 0, CallbackEvent::RescanParamsText);
    push_if(&mut events, flags & PARAM_RESCAN_INFO != 0, CallbackEvent::RescanParamsInfo);
    let full = flags & PARAM_RESCAN_ALL != 0;
    push_if(&mut events, full, CallbackEvent::RescanParamsAll);
    proof {
        assert(Seq::<CallbackEvent>::empty() + event_if(flags & PARAM_RESCAN_VALUES != 0, CallbackEvent::RescanParamsValues)
            =~= event_if(flags & PARAM_RESCAN_VALUES != 0, CallbackEvent::RescanParamsValues));
    }
    RescanOutcome { events, while_active: full && status.order() > 3 }
}

/// `clap_host_latency::changed()`: recorded, and only allowed while `clap_plugin::activate()`
/// runs. Returns the event and whether the call came at a wrong time.
pub fn latency_changed(status: PluginStatus) -> (r: (CallbackEvent, bool))
    ensures
        r == (CallbackEvent::ChangedLatency, status != PluginStatus::Activating),
{
    (CallbackEvent::ChangedLatency, status != PluginStatus::Activating)
}

/// Record a callback error unless one is already recorded: the first error is kept.
pub fn record_callback_error(slot: &mut Option<String>, error: String)
    ensures
        *final(slot) == match *old(slot) {
            Some(e) => Some(e),
            None => Some(error),
        },
{
    if slot.is_none() {
        *slot = Some(error);
    }
}

/// What the processing loop does after a process callback returned `flow`, when the plugin
/// has or has not requested a restart: whether the loop keeps running, and whether processing
/// stops so that the plugin is deactivated (and reactivated while the loop keeps running).
pub fn processing_loop_step(running: bool, flow: ProcessControlFlow, restart_requested: bool) -> (r: (bool, bool))
    ensures
        r.0 == (running && flow != ProcessControlFlow::Exit),
        r.1 == (!r.0 || restart_requested || flow == ProcessControlFlow::Reset),
{
    let still_running = running && flow != ProcessControlFlow::Exit;
    (still_running, !still_running || restart_requested || flow == ProcessControlFlow::Reset)
}

/// A lifecycle call the host makes on the plugin.
#[derive(Debug, Clone, Copy, PartialEq, Eq, Structural)]
pub enum LifecycleCall {
    StopProcessing,
    Deactivate,
    Activate,
    StartProcessing,
}

/// The calls that bring a plugin back to deactivated: a processing plugin stops processing, and
/// an activated one is deactivated.
pub open spec fn restart_calls_spec(status: PluginStatus) -> Seq<LifecycleCall> {
    match status {
        PluginStatus::Processing => seq![LifecycleCall::StopProcessing, LifecycleCall::Deactivate],
        PluginStatus::Activated => seq![LifecycleCall::Deactivate],
        _ => Seq::empty(),
    }
}

/// The state after the calls that bring a plugin back to deactivated.
pub open spec fn after_restart(status: PluginStatus) -> PluginStatus {
    match status {
        PluginStatus::Processing | PluginStatus::Activated => PluginStatus::Deactivated,
        _ => status,
    }
}

/// The calls that bring a plugin back to deactivated, as a processing run does when it ends or
/// restarts.
pub fn restart_calls(status: PluginStatus) -> (r: Vec<LifecycleCall>)
    ensures
        r@ == restart_calls_spec(status),
{
    let mut calls: Vec<LifecycleCall> = Vec::new();
    match status {
        PluginStatus::Processing => {
            calls.push(LifecycleCall::StopProcessing);
            calls.push(LifecycleCall::Deactivate);
        },
        PluginStatus::Activated => {
            calls.push(LifecycleCall::Deactivate);
        },
        _ => {},
    }
    proof {
        assert(calls@ =~= restart_calls_spec(status));
    }
    calls
}

/// The calls before a block is processed: a restart first when one was requested, then a
/// deactivated plugin is activated and an activated one starts processing.
pub open spec fn calls_before_process_spec(status: PluginStatus, restart_requested: bool) -> Seq<LifecycleCall> {
    let s = if restart_requested {
        after_restart(status)
    } else {
        status
    };
    let first = if restart_requested {
        restart_calls_spec(status)
    } else {
        Seq::<LifecycleCall>::empty()
    };
    first + if s == PluginStatus::Deactivated {
        seq![LifecycleCall::Activate, LifecycleCall::StartProcessing]
    } else if s == PluginStatus::Activated {
        seq![LifecycleCall::StartProcessing]
    } else {
        Seq::<LifecycleCall>::empty()
    }
}

/// The state a successful call leaves the plugin in, or `None` when the call is not allowed in
/// the state: stopping needs a processing plugin, deactivating and starting an activated one,
/// and activating a deactivated one.
pub open spec fn apply_call(status: PluginStatus, call: LifecycleCall) -> Option<PluginStatus> {
    match (call, status) {
        (LifecycleCall::StopProcessing, PluginStatus::Processing) => Some(PluginStatus::Activated),
        (LifecycleCall::Deactivate, PluginStatus::Activated) => Some(PluginStatus::Deactivated),
        (LifecycleCall::Activate, PluginStatus::Deactivated) => Some(PluginStatus::Activated),
        (LifecycleCall::StartProcessing, PluginStatus::Activated) => Some(PluginStatus::Processing),
        _ => None,
    }
}

/// The state after a sequence of successful calls, or `None` when one of them is not allowed.
pub open spec fn apply_calls(status: PluginStatus, calls: Seq<LifecycleCall>) -> Option<PluginStatus>
    decreases calls.len(),
{
    if calls.len() == 0 {
        Some(status)
    } else {
        match apply_call(status, calls[0]) {
            Some(next) => apply_calls(next, calls.drop_first()),
            None => None,
        }
    }
}

/// Law: the calls made before a block are each allowed when they are made, and leave an
/// initialized plugin processing, whether or not a restart was requested.
pub proof fn law_calls_before_process_reach_processing(status: PluginStatus, restart_requested: bool)
    requires
        status == PluginStatus::Deactivated || status == PluginStatus::Activated || status
            == PluginStatus::Processing,
    ensures
        apply_calls(status, calls_before_process_spec(status, restart_requested)) == Some(PluginStatus::Processing),
{
    reveal_with_fuel(apply_calls, 5);
    let calls = calls_before_process_spec(status, restart_requested);
    if restart_requested {
        match status {
            PluginStatus::Processing => {
                assert(calls =~= seq![LifecycleCall::StopProcessing, LifecycleCall::Deactivate, LifecycleCall::Activate, LifecycleCall::StartProcessing]);
                assert(calls.drop_first() =~= seq![LifecycleCall::Deactivate, LifecycleCall::Activate, LifecycleCall::StartProcessing]);
                assert(calls.drop_first().drop_first() =~= seq![LifecycleCall::Activate, LifecycleCall::StartProcessing]);
                assert(calls.drop_first().drop_first().drop_first() =~= seq![LifecycleCall::StartProcessing]);
                assert(calls.drop_first().drop_first().drop_first().drop_first() =~= Seq::<LifecycleCall>::empty());
            },
            PluginStatus::Activated => {
                assert(calls =~= seq![LifecycleCall::Deactivate, LifecycleCall::Activate, LifecycleCall::StartProcessing]);
                assert(calls.drop_first() =~= seq![LifecycleCall::Activate, LifecycleCall::StartProcessing]);
                assert(calls.drop_first().drop_first() =~= seq![LifecycleCall::StartProcessing]);
                assert(calls.drop_first().drop_first().drop_first() =~= Seq::<LifecycleCall>::empty());
            },
            _ => {
                assert(calls =~= seq![LifecycleCall::Activate, LifecycleCall::StartProcessing]);
                assert(calls.drop_first() =~= seq![LifecycleCall::StartProcessing]);
                assert(calls.drop_first().drop_first() =~= Seq::<LifecycleCall>::empty());
            },
        }
    } else {
        match status {
            PluginStatus::Processing => {
                assert(calls =~= Seq::<LifecycleCall>::empty());
            },
            PluginStatus::Activated => {
                assert(calls =~= seq![LifecycleCall::StartProcessing]);
                assert(calls.drop_first() =~= Seq::<LifecycleCall>::empty());
            },
            _ => {
                assert(calls =~= seq![LifecycleCall::Activate, LifecycleCall::StartProcessing]);
                assert(calls.drop_first() =~= seq![LifecycleCall::StartProcessing]);
                assert(calls.drop_first().drop_first() =~= Seq::<LifecycleCall>::empty());
            },
        }
    }
}

/// Law: the calls of a restart are each allowed when they are made, and leave the plugin
/// deactivated when it was active; a plugin that was not active is left as it was.
pub proof fn law_restart_deactivates(status: PluginStatus)
    ensures
        apply_calls(status, restart_calls_spec(status)) == Some(after_restart(status)),
{
    reveal_with_fuel(apply_calls, 3);
    let calls = restart_calls_spec(status);
    match status {
        PluginStatus::Processing => {
            assert(calls.drop_first() =~= seq![LifecycleCall::Deactivate]);
            assert(calls.drop_first().drop_first() =~= Seq::<LifecycleCall>::empty());
        },
        PluginStatus::Activated => {
            assert(calls.drop_first() =~= Seq::<LifecycleCall>::empty());
        },
        _ => {},
    }
}

/// The calls before a block is processed, as [`calls_before_process_spec`] gives them. The
/// second value says whether the restart request is cleared, which happens when the plugin is
/// activated.
pub fn calls_before_process(status: PluginStatus, restart_requested: bool) -> (r: (Vec<LifecycleCall>, bool))
    ensures
        r.0@ == calls_before_process_spec(status, restart_requested),
        r.1 == ((if restart_requested {
            after_restart(status)
        } else {
            status
        }) == PluginStatus::Deactivated),
{
    let mut calls: Vec<LifecycleCall> = Vec::new();
    let mut s = status;
    if restart_requested {
        calls = restart_calls(status);
        s = match status {
            PluginStatus::Processing | PluginStatus::Activated => PluginStatus::Deactivated,
            _ => status,
        };
    }
    let ghost first = calls@;
    let clear = s == PluginStatus::Deactivated;
    if clear {
        calls.push(LifecycleCall::Activate);
        s = PluginStatus::Activated;
    }
    if s == PluginStatus::Activated {
        calls.push(LifecycleCall::StartProcessing);
    }
    proof {
        if restart_requested {
            assert(first == restart_calls_spec(status));
        } else {
            assert(first =~= Seq::<LifecycleCall>::empty());
        }
        assert(calls@ =~= first + if clear {
            seq![LifecycleCall::Activate, LifecycleCall::StartProcessing]
        } else if status == PluginStatus::Activated && !restart_requested {
            seq![LifecycleCall::StartProcessing]
        } else {
            Seq::<LifecycleCall>::empty()
        });
    }
    (calls, clear)
}

/// Whether resetting the plugin's processing state reaches the plugin: only while it is activated
/// or processing.
pub fn resets_plugin(status: PluginStatus) -> (r: bool)
    ensures
        r == (status.rank() >= PluginStatus::Activated.rank()),
{
    status.order() >= 3
}

} // verus!
