//! The decisions of the processing tests: for the test that watches a plugin go to sleep, which
//! blocks are quiet and when the plugin counts as sleeping after each process call; and the
//! verdicts of the sleep, constant mask and reset determinism tests.

use vstd::prelude::*;
use vstd::string::*;
use crate::plugin_state::ProcessStatus;
use crate::status::TestStatus;

verus! {

/// The number of blocks the process status test runs.
pub const SLEEP_TEST_BLOCKS: u32 = 80;

/// The size of each block the sleep tests process, in samples.
pub const SLEEP_TEST_BLOCK_SIZE: u32 = 512;

/// Whether block `i` of the process status test gets silent input and no notes: the first five
/// blocks, blocks 10 to 19, and every block from 30 on.
pub open spec fn quiet_block(i: u32) -> bool {
    i < 5 || (10 <= i && i < 20) || 30 <= i
}

/// Whether block `i` of the process status test is a quiet one.
pub fn block_is_quiet(i: u32) -> (r: bool)
    ensures
        r == quiet_block(i),
{
    i < 5 || (10 <= i && i < 20) || 30 <= i
}

/// What the process status test tracks while the plugin processes.
#[derive(Debug, Clone, Copy, PartialEq, Eq, Structural)]
pub struct SleepTracker {
    /// Whether the plugin is asleep: its last status allowed it to sleep, and it has not asked
    /// to be woken since.
    pub is_sleeping: bool,
    /// How many samples of quiet input the plugin has had since the last loud block, counted
    /// while it reports a tail.
    pub quiet_time: u32,
    /// Whether the plugin was ever asleep during a block.
    pub has_ever_slept: bool,
    /// Whether the plugin ever returned `CLAP_PROCESS_CONTINUE_IF_NOT_QUIET`.
    pub has_ever_returned_continue_if_not_quiet: bool,
}

/// Why the process status test failed.
#[derive(Debug, Clone, Copy, PartialEq, Eq, Structural)]
pub enum SleepError {
    /// The plugin returned `CLAP_PROCESS_TAIL` but has no `tail` extension to ask for its tail.
    TailWithoutExtension,
}

/// The tracker after a block: whether the plugin slept during it is recorded, and its status
/// decides whether it sleeps now. `outputs_constant` says whether every output channel was marked
/// constant, and `tail` is the tail the plugin reports; each is read only for the status that
/// asks for it.
pub open spec fn after_block(t: SleepTracker, is_quiet: bool, status: ProcessStatus, outputs_constant: bool, tail: u32) -> SleepTracker {
    let slept = SleepTracker { has_ever_slept: t.has_ever_slept || t.is_sleeping, ..t };
    match status {
        ProcessStatus::Continue => SleepTracker { is_sleeping: false, ..slept },
        ProcessStatus::Sleep => SleepTracker { is_sleeping: true, ..slept },
        ProcessStatus::ContinueIfNotQuiet => SleepTracker {
            is_sleeping: outputs_constant,
            has_ever_returned_continue_if_not_quiet: true,
            ..slept
        },
        ProcessStatus::Tail => SleepTracker {
            is_sleeping: tail < t.quiet_time,
            quiet_time: if is_quiet {
                (t.quiet_time + SLEEP_TEST_BLOCK_SIZE) as u32
            } else {
                0
            },
            ..slept
        },
    }
}

/// The message of a plugin that never slept.
pub open spec fn never_slept_message(returned_continue_if_not_quiet: bool) -> Seq<char> {
    if returned_continue_if_not_quiet {
        "The plugin never went to sleep during the test. Make sure to set the output constant mask correctly when returning `CLAP_PROCESS_CONTINUE_IF_NOT_QUIET`."@
    } else {
        "The plugin never went to sleep during the test."@
    }
}

impl SleepTracker {
    /// The tracker before the first block: awake, with nothing seen yet.
    pub fn new() -> (r: SleepTracker)
        ensures
            r == (SleepTracker {
                is_sleeping: false,
                quiet_time: 0,
                has_ever_slept: false,
                has_ever_returned_continue_if_not_quiet: false,
            }),
    {
        SleepTracker {
            is_sleeping: false,
            quiet_time: 0,
            has_ever_slept: false,
            has_ever_returned_continue_if_not_quiet: false,
        }
    }

    /// The plugin asked to be processed (`clap_host::request_process()`), which wakes it.
    pub fn wake(&mut self)
        ensures
            *final(self) == (SleepTracker { is_sleeping: false, ..*old(self) }),
    {
        self.is_sleeping = false;
    }

    /// Whether the outputs of a block must be silent: the plugin is asleep and its input was.
    pub fn must_be_silent(&self, is_quiet: bool) -> (r: bool)
        ensures
            r == (self.is_sleeping && is_quiet),
    {
        self.is_sleeping && is_quiet
    }

    /// Records a processed block. A tail status fails the test when the plugin cannot say how
    /// long its tail is (`tail` is `None`); otherwise the tracker moves on as [`after_block`]
    /// says.
    pub fn record_block(&mut self, is_quiet: bool, status: ProcessStatus, outputs_constant: bool, tail: Option<u32>) -> (r: Result<(), SleepError>)
        requires
            status == ProcessStatus::Tail && is_quiet ==> old(self).quiet_time + SLEEP_TEST_BLOCK_SIZE <= u32::MAX,
        ensures
            r is Err <==> (status == ProcessStatus::Tail && tail is None),
            r matches Err(e) ==> e == SleepError::TailWithoutExtension && *final(self) == *old(self),
            r is Ok ==> *final(self) == after_block(*old(self), is_quiet, status, outputs_constant, match tail {
                Some(t) => t,
                None => 0,
            }),
    {
        let tail_samples: u32 = match tail {
            Some(t) => t,
            None => 0,
        };
        if status == ProcessStatus::Tail && tail.is_none() {
            return Err(SleepError::TailWithoutExtension);
        }
        self.has_ever_slept = self.has_ever_slept || self.is_sleeping;
        match status {
            ProcessStatus::Continue => {
                self.is_sleeping = false;
            },
            ProcessStatus::Sleep => {
                self.is_sleeping = true;
            },
            ProcessStatus::ContinueIfNotQuiet => {
                self.is_sleeping = outputs_constant;
                self.has_ever_returned_continue_if_not_quiet = true;
            },
            ProcessStatus::Tail => {
                self.is_sleeping = tail_samples < self.quiet_time;
                if is_quiet {
                    self.quiet_time = self.quiet_time + SLEEP_TEST_BLOCK_SIZE;
                } else {
                    self.quiet_time = 0;
                }
            },
        }
        Ok(())
    }

    /// The verdict of the process status test once every block ran: a warning when the plugin
    /// never slept, which also reminds of the constant mask when it returned
    /// `CLAP_PROCESS_CONTINUE_IF_NOT_QUIET`.
    pub fn verdict(&self) -> (r: TestStatus)
        ensures
            self.has_ever_slept ==> r == (TestStatus::Success { details: None }),
            !self.has_ever_slept ==> (r matches TestStatus::Warning { details: Some(d) } && d@ == never_slept_message(
                self.has_ever_returned_continue_if_not_quiet,
            )),
    {
        if self.has_ever_slept {
            TestStatus::Success { details: None }
        } else if self.has_ever_returned_continue_if_not_quiet {
            TestStatus::Warning {
                details: Some(String::from_str("The plugin never went to sleep during the test. Make sure to set the output constant mask correctly when returning `CLAP_PROCESS_CONTINUE_IF_NOT_QUIET`.")),
            }
        } else {
            TestStatus::Warning { details: Some(String::from_str("The plugin never went to sleep during the test.")) }
        }
    }
}

/// The verdict of the constant mask test: a warning when some output was silent but the plugin
/// never marked a channel as constant.
pub fn constant_mask_verdict(has_received_constant_flag: bool, has_received_constant_output: bool) -> (r: TestStatus)
    ensures
        (!has_received_constant_flag && has_received_constant_output) ==> (r matches TestStatus::Warning {
            details: Some(d),
        } && d@ == "The plugin does not seem to set the constant mask during processing."@),
        !(!has_received_constant_flag && has_received_constant_output) ==> r == (TestStatus::Success { details: None }),
{
    if !has_received_constant_flag && has_received_constant_output {
        TestStatus::Warning {
            details: Some(String::from_str("The plugin does not seem to set the constant mask during processing.")),
        }
    } else {
        TestStatus::Success { details: None }
    }
}

/// The verdict of the reset determinism test, given whether the output after reactivating and
/// the output after `clap_plugin::reset()` matched the first run. A different output after
/// reactivation is a warning; a different output after a reset fails the test with the returned
/// message.
pub fn reset_determinism_verdict(same_after_reactivation: bool, same_after_reset: bool) -> (r: Result<TestStatus, String>)
    ensures
        !same_after_reactivation ==> (r matches Ok(TestStatus::Warning { details: Some(d) })
            && d@ == "Plugin output does not seem to be deterministic after reactivation"@),
        same_after_reactivation && !same_after_reset ==> (r matches Err(m) && m@ == "Plugin output differs after reset"@),
        same_after_reactivation && same_after_reset ==> r == Ok::<TestStatus, String>(TestStatus::Success { details: None }),
{
    if !same_after_reactivation {
        Ok(TestStatus::Warning {
            details: Some(String::from_str("Plugin output does not seem to be deterministic after reactivation")),
        })
    } else if !same_after_reset {
        Err(String::from_str("Plugin output differs after reset"))
    } else {
        Ok(TestStatus::Success { details: None })
    }
}

/// Law: once the process status test has seen the plugin asleep, or seen it return
/// `CLAP_PROCESS_CONTINUE_IF_NOT_QUIET`, later blocks and wake-ups never forget it.
pub proof fn law_sleep_observations_persist(t: SleepTracker, is_quiet: bool, status: ProcessStatus, outputs_constant: bool, tail: u32)
    ensures
        t.has_ever_slept ==> after_block(t, is_quiet, status, outputs_constant, tail).has_ever_slept,
        t.has_ever_returned_continue_if_not_quiet ==> after_block(
            t,
            is_quiet,
            status,
            outputs_constant,
            tail,
        ).has_ever_returned_continue_if_not_quiet,
        t.is_sleeping ==> after_block(t, is_quiet, status, outputs_constant, tail).has_ever_slept,
{
}

} // verus!
