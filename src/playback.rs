//! Playback of a pattern over a session's devices, as a state machine.
//!
//! The caller reads the device list once, starts a [`Playback`] with the
//! number of steps and of devices, performs each [`PlayAction`] it is given
//! (awaiting it) and reports whether it succeeded. Every step sets each device
//! in list order, then sleeps for the step's duration; after the last step all
//! devices are stopped. With no devices nothing is sent at all.
use vstd::prelude::*;

verus! {

/// Where a playback stands.
#[derive(Clone, Copy, Debug, PartialEq, Eq, Structural)]
pub enum Phase {
    /// Setting the speed of `step` on `device`.
    Command { step: usize, device: usize },
    /// Waiting out the duration of `step`.
    Pause { step: usize },
    /// Stopping all devices after the last step.
    Stop,
    /// Finished; `ok` is false where a device command failed.
    Over { ok: bool },
}

/// What the caller is to do next.
#[derive(Clone, Copy, Debug, PartialEq, Eq, Structural)]
pub enum PlayAction {
    /// Set device number `device` to the speed of step number `step`.
    Vibrate { step: usize, device: usize },
    /// Sleep for the duration of step number `step`.
    Sleep { step: usize },
    /// Stop every device of the session.
    StopAll,
    /// Playback is over: with success, or with a failed device command.
    Finish { ok: bool },
}

#[derive(Clone, Copy, Debug)]
pub struct Playback {
    pub steps: usize,
    pub devices: usize,
    pub phase: Phase,
}

/// The action that belongs to a phase.
pub open spec fn action_of(p: Phase) -> PlayAction {
    match p {
        Phase::Command { step, device } => PlayAction::Vibrate { step, device },
        Phase::Pause { step } => PlayAction::Sleep { step },
        Phase::Stop => PlayAction::StopAll,
        Phase::Over { ok } => PlayAction::Finish { ok },
    }
}

/// The first phase of a playback of `steps` steps over `devices` devices.
pub open spec fn first_phase(steps: nat, devices: nat) -> Phase {
    if devices == 0 {
        Phase::Over { ok: true }
    } else if steps == 0 {
        Phase::Stop
    } else {
        Phase::Command { step: 0, device: 0 }
    }
}

/// The phase after `p` once its action has been performed; `ok` says whether
/// it succeeded.
pub open spec fn next_phase(steps: nat, devices: nat, p: Phase, ok: bool) -> Phase {
    match p {
        Phase::Over { ok: was } => Phase::Over { ok: was },
        _ => if !ok {
            Phase::Over { ok: false }
        } else {
            match p {
                Phase::Command { step, device } => if device + 1 < devices {
                    Phase::Command { step, device: (device + 1) as usize }
                } else {
                    Phase::Pause { step }
                },
                Phase::Pause { step } => if step + 1 < steps {
                    Phase::Command { step: (step + 1) as usize, device: 0 }
                } else {
                    Phase::Stop
                },
                _ => Phase::Over { ok: true },
            }
        },
    }
}

/// The actions that a run of `outcomes` brings from phase `p`: the action of
/// each phase passed through, then that of the phase reached.
pub open spec fn actions_from(steps: nat, devices: nat, p: Phase, outcomes: Seq<bool>) -> Seq<PlayAction>
    decreases outcomes.len(),
{
    if outcomes.len() == 0 {
        seq![action_of(p)]
    } else {
        seq![action_of(p)] + actions_from(
            steps,
            devices,
            next_phase(steps, devices, p, outcomes[0]),
            outcomes.drop_first(),
        )
    }
}

impl Playback {
    pub open spec fn wf(&self) -> bool {
        match self.phase {
            Phase::Command { step, device } => step < self.steps && device < self.devices,
            Phase::Pause { step } => step < self.steps && self.devices > 0,
            Phase::Stop => self.devices > 0,
            Phase::Over { .. } => true,
        }
    }

    /// Starts a playback of `steps` steps over `devices` devices and gives the
    /// first action.
    pub fn start(steps: usize, devices: usize) -> (r: (Playback, PlayAction))
        ensures
            r.0.wf(),
            r.0.steps == steps,
            r.0.devices == devices,
            r.0.phase == first_phase(steps as nat, devices as nat),
            r.1 == action_of(r.0.phase),
    {
        let phase = if devices == 0 {
            Phase::Over { ok: true }
        } else if steps == 0 {
            Phase::Stop
        } else {
            Phase::Command { step: 0, device: 0 }
        };
        let p = Playback { steps, devices, phase };
        (p, p.action())
    }

    /// The action of the current phase.
    pub fn action(&self) -> (r: PlayAction)
        ensures
            r == action_of(self.phase),
    {
        match self.phase {
            Phase::Command { step, device } => PlayAction::Vibrate { step, device },
            Phase::Pause { step } => PlayAction::Sleep { step },
            Phase::Stop => PlayAction::StopAll,
            Phase::Over { ok } => PlayAction::Finish { ok },
        }
    }

    /// Records the outcome of the last action and gives the next one.
    pub fn advance(&mut self, ok: bool) -> (r: PlayAction)
        requires
            old(self).wf(),
        ensures
            final(self).wf(),
            final(self).steps == old(self).steps,
            final(self).devices == old(self).devices,
            final(self).phase == next_phase(
                old(self).steps as nat,
                old(self).devices as nat,
                old(self).phase,
                ok,
            ),
            r == action_of(final(self).phase),
    {
        let next = match self.phase {
            Phase::Over { ok: was } => Phase::Over { ok: was },
            Phase::Command { step, device } => if !ok {
                Phase::Over { ok: false }
            } else if device + 1 < self.devices {
                Phase::Command { step, device: device + 1 }
            } else {
                Phase::Pause { step }
            },
            Phase::Pause { step } => if !ok {
                Phase::Over { ok: false }
            } else if step + 1 < self.steps {
                Phase::Command { step: step + 1, device: 0 }
            } else {
                Phase::Stop
            },
            Phase::Stop => Phase::Over { ok },
        };
        self.phase = next;
        self.action()
    }
}

/// Once over, a playback stays over and only repeats its outcome.
pub proof fn lemma_over_stays_over(steps: nat, devices: nat, ok: bool, outcomes: Seq<bool>)
    ensures
        forall|i: int| 0 <= i < actions_from(steps, devices, Phase::Over { ok }, outcomes).len() ==>
            #[trigger] actions_from(steps, devices, Phase::Over { ok }, outcomes)[i]
                == (PlayAction::Finish { ok }),
    decreases outcomes.len(),
{
    if outcomes.len() > 0 {
        lemma_over_stays_over(steps, devices, ok, outcomes.drop_first());
        let rest = actions_from(steps, devices, Phase::Over { ok }, outcomes.drop_first());
        assert forall|i: int| 0 <= i < actions_from(steps, devices, Phase::Over { ok }, outcomes).len()
            implies #[trigger] actions_from(steps, devices, Phase::Over { ok }, outcomes)[i]
                == (PlayAction::Finish { ok }) by {
            if i > 0 {
                assert(actions_from(steps, devices, Phase::Over { ok }, outcomes)[i] == rest[i - 1]);
            }
        }
    }
}

/// With no devices, playback sends no command whatever happens: every action
/// it gives is a successful finish.
pub proof fn lemma_no_devices_no_commands(steps: nat, outcomes: Seq<bool>)
    ensures
        forall|i: int| 0 <= i < actions_from(steps, 0, first_phase(steps, 0), outcomes).len() ==>
            #[trigger] actions_from(steps, 0, first_phase(steps, 0), outcomes)[i]
                == (PlayAction::Finish { ok: true }),
{
    lemma_over_stays_over(steps, 0, true, outcomes);
}

} // verus!
