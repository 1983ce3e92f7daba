use vstd::prelude::*;

use crate::errors::WatchError;
use crate::watch_set::{State, all_present, any_changed, present_times, refreshed};

verus! {

/// Where the polling loop stands.
#[derive(Clone, Copy, Debug, PartialEq, Eq, Structural)]
pub enum Phase {
    /// Waiting for the next poll tick.
    Idle,
    /// A command invocation is in flight.
    Triggering,
}

/// What the driver must do next.
#[derive(Clone, Copy, Debug, PartialEq, Eq, Structural)]
pub enum Action {
    /// Sleep for the poll interval, then poll again.
    Wait,
    /// Run the configured command once and relay its output.
    Trigger,
}

/// The trigger-on-change state machine. It decides, from each poll's
/// answer, whether the driver runs the command, and it admits at most one
/// command invocation in flight at a time: a new trigger can only be
/// decided from the idle phase, which is reached again only once the
/// previous invocation's output has been fully consumed.
#[derive(Debug)]
pub struct WatchLoop {
    pub phase: Phase,
}

impl WatchLoop {
    /// A fresh loop, idle, waiting for its first tick.
    pub fn new() -> (w: WatchLoop)
        ensures
            w.phase == Phase::Idle,
    {
        WatchLoop { phase: Phase::Idle }
    }

    /// A poll tick taken in the idle phase: a detected change moves the
    /// loop to triggering and asks the driver for exactly one command
    /// invocation; no change leaves the loop idle, asking only for the
    /// next wait.
    pub fn on_tick(&mut self, changed: bool) -> (a: Action)
        requires
            old(self).phase == Phase::Idle,
        ensures
            a == Action::Trigger <==> changed,
            final(self).phase == (if changed {
                Phase::Triggering
            } else {
                Phase::Idle
            }),
    {
        if changed {
            self.phase = Phase::Triggering;
            Action::Trigger
        } else {
            Action::Wait
        }
    }

    /// The triggered command's output has been fully consumed and relayed:
    /// back to idle unconditionally, whatever the command's own outcome.
    pub fn on_command_done(&mut self)
        requires
            old(self).phase == Phase::Triggering,
        ensures
            final(self).phase == Phase::Idle,
    {
        self.phase = Phase::Idle;
    }
}

/// One whole polling iteration's decision, taken after the driver slept
/// for the poll interval and read the watched files' modification times:
/// refresh the watch set in a single full pass and move the loop. The
/// driver gets at most one `Trigger` per pass, however many entries
/// changed, and a failed read is fatal, leaving watch set and loop as
/// they were.
pub fn poll_once(state: &mut State, wl: &mut WatchLoop, observed: &Vec<Option<u128>>) -> (r:
    Result<Action, WatchError>)
    requires
        old(state).wf(),
        old(wl).phase == Phase::Idle,
        observed@.len() == old(state).files@.len(),
    ensures
        final(state).wf(),
        final(state).command == old(state).command,
        final(state).command_args == old(state).command_args,
        final(state).poll_rate == old(state).poll_rate,
        !all_present(observed@) ==> r == Err::<Action, WatchError>(WatchError::RuntimeAccess)
            && final(state).files == old(state).files && *final(wl) == *old(wl),
        all_present(observed@) ==> {
            &&& final(state).files@ =~= refreshed(old(state).files@, present_times(observed@))
            &&& r == Ok::<Action, WatchError>(
                if any_changed(old(state).files@, present_times(observed@)) {
                    Action::Trigger
                } else {
                    Action::Wait
                },
            )
            &&& final(wl).phase == (if any_changed(old(state).files@, present_times(observed@)) {
                Phase::Triggering
            } else {
                Phase::Idle
            })
        },
{
    let changed = match state.check(observed) {
        Ok(c) => c,
        Err(e) => { return Err(e) },
    };
    Ok(wl.on_tick(changed))
}

} // verus!
