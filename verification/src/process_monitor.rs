//! Detection of VRChat start and exit from two successive observations.

use vstd::prelude::*;

verus! {

/// Transition of the VRChat process between two polls.
#[derive(Debug, Clone, Copy, PartialEq, Eq)]
pub enum ProcessTransition {
    /// Not running before, running now.
    Started,
    /// Running before, not running now.
    Stopped,
    /// Same state as before.
    NoChange,
}

/// The transition from `previous_was_running` to `currently_running`.
pub fn detect_transition(previous_was_running: bool, currently_running: bool) -> (r:
    ProcessTransition)
    ensures
        r == (if !previous_was_running && currently_running {
            ProcessTransition::Started
        } else if previous_was_running && !currently_running {
            ProcessTransition::Stopped
        } else {
            ProcessTransition::NoChange
        }),
{
    match (previous_was_running, currently_running) {
        (false, true) => ProcessTransition::Started,
        (true, false) => ProcessTransition::Stopped,
        _ => ProcessTransition::NoChange,
    }
}

/// Law: a transition is reported exactly when the observed state changes.
pub proof fn lemma_transition_iff_change(prev: bool, now: bool)
    ensures
        (if !prev && now {
            ProcessTransition::Started
        } else if prev && !now {
            ProcessTransition::Stopped
        } else {
            ProcessTransition::NoChange
        } == ProcessTransition::NoChange) <==> (prev == now),
{
}

/// Executable name of VRChat on Windows.
pub const VRCHAT_PROCESS_NAME: &'static str = "VRChat.exe";

/// Settings of the process monitor.
#[derive(Debug, Clone, PartialEq, Eq)]
pub struct VRChatProcessMonitorConfig {
    /// Poll interval in milliseconds.
    pub poll_interval_ms: u64,
    /// Process name to look for.
    pub process_name: String,
}

impl Default for VRChatProcessMonitorConfig {
    /// Two-second polling of `VRChat.exe`.
    fn default() -> (r: Self)
        ensures
            r.poll_interval_ms == 2000,
            r.process_name@ == VRCHAT_PROCESS_NAME@,
    {
        VRChatProcessMonitorConfig {
            poll_interval_ms: 2000,
            process_name: String::from_str(VRCHAT_PROCESS_NAME),
        }
    }
}

/// Whether a process with exactly `process_name` is among `names`.
pub fn is_vrchat_process_running(names: &Vec<String>, process_name: &str) -> (r: bool)
    ensures
        r == exists|i: int| 0 <= i < names@.len() && (#[trigger] names@[i])@ == process_name@,
{
    let target = crate::text::chars_of(process_name);
    let mut i: usize = 0;
    while i < names.len()
        invariant
            i <= names@.len(),
            target@ == process_name@,
            forall|j: int| 0 <= j < i ==> (#[trigger] names@[j])@ != process_name@,
        decreases names@.len() - i,
    {
        let c = crate::text::chars_of(names[i].as_str());
        if crate::text::chars_equal(c.as_slice(), target.as_slice()) {
            return true;
        }
        i = i + 1;
    }
    false
}

/// The process monitor: polls and reports transitions.
#[derive(Debug, Clone, PartialEq, Eq)]
pub struct VRChatProcessMonitor {
    pub config: VRChatProcessMonitorConfig,
}

impl VRChatProcessMonitor {
    pub fn new(config: VRChatProcessMonitorConfig) -> (r: Self)
        ensures
            r.config == config,
    {
        VRChatProcessMonitor { config }
    }
}

} // verus!
