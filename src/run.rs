//! The decisions of one run: wait for the wrapped command, then pick a session
//! (the remote one if it is already up, else the in-process one), play, and
//! exit with the command's own code.
//!
//! The caller performs each [`RunAction`] and reports what came of it as a
//! [`RunEvent`]. Both connection attempts are started before the command, so
//! by the time it exits the remote one may be ready; it is only polled, never
//! waited for.
use vstd::prelude::*;

verus! {

/// The code a run exits with where the command's own code is unknown.
pub const UNKNOWN_CODE: i32 = -1;

/// The session that playback uses.
#[derive(Clone, Copy, Debug, PartialEq, Eq, Structural)]
pub enum Source {
    Remote,
    Local,
}

/// What a poll of the remote attempt, without waiting, found.
#[derive(Clone, Copy, Debug, PartialEq, Eq, Structural)]
pub enum RemoteState {
    /// It has completed with a session.
    Ready,
    /// It has completed with an error.
    Failed,
    /// It has not completed yet.
    Pending,
}

#[derive(Clone, Copy, Debug, PartialEq, Eq, Structural)]
pub enum Stage {
    AwaitChild,
    PollRemote,
    AwaitLocal,
    Playing { source: Source },
    Exited,
}

/// What the caller reports back.
#[derive(Clone, Copy, Debug, PartialEq, Eq, Structural)]
pub enum RunEvent {
    /// The command could not be started.
    ChildNotStarted,
    /// The command exited; `code` is its exit code where it has one.
    ChildExited { success: bool, code: Option<i32> },
    /// The remote attempt was polled.
    RemotePolled { remote: RemoteState },
    /// The in-process attempt completed, with a session or not.
    LocalDone { ok: bool },
    /// Playback is over (its own errors are only reported, never fatal).
    PlaybackDone,
}

/// What the caller is to do next.
#[derive(Clone, Copy, Debug, PartialEq, Eq, Structural)]
pub enum RunAction {
    /// Wait for the command to exit.
    WaitChild,
    /// Poll the remote attempt without waiting.
    PollRemote,
    /// Wait for the in-process attempt.
    AwaitLocal,
    /// Play the pattern on the session of `source`.
    Play { source: Source },
    /// Exit the process with `code`.
    Exit { code: i32 },
}

#[derive(Clone, Copy, Debug)]
pub struct Run {
    pub stage: Stage,
    /// The code to exit with, once the command has exited.
    pub code: i32,
}

pub open spec fn exit_code_spec(code: Option<i32>) -> i32 {
    match code {
        Some(c) => c,
        None => UNKNOWN_CODE,
    }
}

/// The action that belongs to a stage.
pub open spec fn run_action_of(stage: Stage, code: i32) -> RunAction {
    match stage {
        Stage::AwaitChild => RunAction::WaitChild,
        Stage::PollRemote => RunAction::PollRemote,
        Stage::AwaitLocal => RunAction::AwaitLocal,
        Stage::Playing { source } => RunAction::Play { source },
        Stage::Exited => RunAction::Exit { code },
    }
}

/// The stage and exit code after `ev` in `stage`; an event that does not
/// belong to the stage changes nothing.
pub open spec fn run_next(stage: Stage, code: i32, ev: RunEvent) -> (Stage, i32) {
    match (stage, ev) {
        (Stage::AwaitChild, RunEvent::ChildNotStarted) => (Stage::Exited, UNKNOWN_CODE),
        (Stage::AwaitChild, RunEvent::ChildExited { success, code: c }) => if success {
            (Stage::PollRemote, exit_code_spec(c))
        } else {
            (Stage::Exited, exit_code_spec(c))
        },
        (Stage::PollRemote, RunEvent::RemotePolled { remote }) => match remote {
            RemoteState::Ready => (Stage::Playing { source: Source::Remote }, code),
            _ => (Stage::AwaitLocal, code),
        },
        (Stage::AwaitLocal, RunEvent::LocalDone { ok }) => if ok {
            (Stage::Playing { source: Source::Local }, code)
        } else {
            (Stage::Exited, code)
        },
        (Stage::Playing { .. }, RunEvent::PlaybackDone) => (Stage::Exited, code),
        _ => (stage, code),
    }
}

/// The actions that a run of `events` brings from `stage`: the action of each
/// stage passed through, then that of the stage reached.
pub open spec fn run_actions(stage: Stage, code: i32, events: Seq<RunEvent>) -> Seq<RunAction>
    decreases events.len(),
{
    if events.len() == 0 {
        seq![run_action_of(stage, code)]
    } else {
        let (s, c) = run_next(stage, code, events[0]);
        seq![run_action_of(stage, code)] + run_actions(s, c, events.drop_first())
    }
}

/// The exit code for a command that exited with `code`, where it had one.
pub fn exit_code(code: Option<i32>) -> (r: i32)
    ensures
        r == exit_code_spec(code),
{
    match code {
        Some(c) => c,
        None => UNKNOWN_CODE,
    }
}

impl Run {
    /// A run that waits for the command.
    pub fn new() -> (r: Run)
        ensures
            r.stage == Stage::AwaitChild,
            r.code == UNKNOWN_CODE,
    {
        Run { stage: Stage::AwaitChild, code: UNKNOWN_CODE }
    }

    /// The action of the current stage.
    pub fn action(&self) -> (r: RunAction)
        ensures
            r == run_action_of(self.stage, self.code),
    {
        match self.stage {
            Stage::AwaitChild => RunAction::WaitChild,
            Stage::PollRemote => RunAction::PollRemote,
            Stage::AwaitLocal => RunAction::AwaitLocal,
            Stage::Playing { source } => RunAction::Play { source },
            Stage::Exited => RunAction::Exit { code: self.code },
        }
    }

    /// Records `ev` and gives the next action.
    pub fn handle(&mut self, ev: RunEvent) -> (r: RunAction)
        ensures
            (final(self).stage, final(self).code) == run_next(old(self).stage, old(self).code, ev),
            r == run_action_of(final(self).stage, final(self).code),
    {
        match (self.stage, ev) {
            (Stage::AwaitChild, RunEvent::ChildNotStarted) => {
                self.stage = Stage::Exited;
                self.code = UNKNOWN_CODE;
            },
            (Stage::AwaitChild, RunEvent::ChildExited { success, code }) => {
                self.stage = if success {
                    Stage::PollRemote
                } else {
                    Stage::Exited
                };
                self.code = exit_code(code);
            },
            (Stage::PollRemote, RunEvent::RemotePolled { remote }) => {
                self.stage = match remote {
                    RemoteState::Ready => Stage::Playing { source: Source::Remote },
                    _ => Stage::AwaitLocal,
                };
            },
            (Stage::AwaitLocal, RunEvent::LocalDone { ok }) => {
                self.stage = if ok {
                    Stage::Playing { source: Source::Local }
                } else {
                    Stage::Exited
                };
            },
            (Stage::Playing { .. }, RunEvent::PlaybackDone) => {
                self.stage = Stage::Exited;
            },
            _ => {},
        }
        self.action()
    }
}

/// Once exited, a run only repeats its exit.
pub proof fn lemma_exited_stays(code: i32, events: Seq<RunEvent>)
    ensures
        forall|i: int| 0 <= i < run_actions(Stage::Exited, code, events).len() ==>
            #[trigger] run_actions(Stage::Exited, code, events)[i] == (RunAction::Exit { code }),
    decreases events.len(),
{
    if events.len() > 0 {
        lemma_exited_stays(code, events.drop_first());
        let all = run_actions(Stage::Exited, code, events);
        let rest = run_actions(Stage::Exited, code, events.drop_first());
        assert forall|i: int| 0 <= i < all.len() implies #[trigger] all[i] == (RunAction::Exit { code }) by {
            if i > 0 {
                assert(all[i] == rest[i - 1]);
            }
        }
    }
}

/// When the command fails, nothing is played and no session is even looked
/// at, whatever is reported afterwards: the run exits with the command's code.
pub proof fn lemma_failed_command_never_plays(code: Option<i32>, events: Seq<RunEvent>)
    ensures
        ({
            let acts = run_actions(
                Stage::AwaitChild,
                UNKNOWN_CODE,
                seq![RunEvent::ChildExited { success: false, code }] + events,
            );
            &&& acts[0] == RunAction::WaitChild
            &&& forall|i: int| 1 <= i < acts.len() ==> #[trigger] acts[i] == (RunAction::Exit {
                code: exit_code_spec(code),
            })
        }),
{
    let evs = seq![RunEvent::ChildExited { success: false, code }] + events;
    assert(evs.drop_first() =~= events);
    lemma_exited_stays(exit_code_spec(code), events);
    let acts = run_actions(Stage::AwaitChild, UNKNOWN_CODE, evs);
    let rest = run_actions(Stage::Exited, exit_code_spec(code), events);
    assert forall|i: int| 1 <= i < acts.len() implies #[trigger] acts[i] == (RunAction::Exit {
        code: exit_code_spec(code),
    }) by {
        assert(acts[i] == rest[i - 1]);
    }
}

/// Once playback has begun on a session, the other attempt is never waited
/// for: the only stages left are that playback and the exit.
pub proof fn lemma_playing_never_awaits(source: Source, code: i32, events: Seq<RunEvent>)
    ensures
        forall|i: int| 0 <= i < run_actions(Stage::Playing { source }, code, events).len() ==>
            #[trigger] run_actions(Stage::Playing { source }, code, events)[i] == (RunAction::Play { source })
            || run_actions(Stage::Playing { source }, code, events)[i] == (RunAction::Exit { code }),
    decreases events.len(),
{
    if events.len() > 0 {
        let all = run_actions(Stage::Playing { source }, code, events);
        let (s, c) = run_next(Stage::Playing { source }, code, events[0]);
        if s == Stage::Exited {
            lemma_exited_stays(code, events.drop_first());
        } else {
            lemma_playing_never_awaits(source, code, events.drop_first());
        }
        let rest = run_actions(s, c, events.drop_first());
        assert forall|i: int| 0 <= i < all.len() implies #[trigger] all[i] == (RunAction::Play { source })
            || all[i] == (RunAction::Exit { code }) by {
            if i > 0 {
                assert(all[i] == rest[i - 1]);
            }
        }
    }
}

/// When the command succeeds and the remote session is already up, that
/// session is played on and the in-process one is never waited for.
pub proof fn lemma_ready_remote_is_used(code: Option<i32>, events: Seq<RunEvent>)
    ensures
        ({
            let acts = run_actions(
                Stage::AwaitChild,
                UNKNOWN_CODE,
                seq![
                    RunEvent::ChildExited { success: true, code },
                    RunEvent::RemotePolled { remote: RemoteState::Ready },
                ] + events,
            );
            &&& acts[0] == RunAction::WaitChild
            &&& acts[1] == RunAction::PollRemote
            &&& acts[2] == (RunAction::Play { source: Source::Remote })
            &&& forall|i: int| 0 <= i < acts.len() ==> #[trigger] acts[i] != RunAction::AwaitLocal
        }),
{
    let evs = seq![
        RunEvent::ChildExited { success: true, code },
        RunEvent::RemotePolled { remote: RemoteState::Ready },
    ] + events;
    let c = exit_code_spec(code);
    let src = Source::Remote;
    assert(evs.drop_first().drop_first() =~= events);
    lemma_playing_never_awaits(src, c, events);
    let acts = run_actions(Stage::AwaitChild, UNKNOWN_CODE, evs);
    let mid = run_actions(Stage::PollRemote, c, evs.drop_first());
    let rest = run_actions(Stage::Playing { source: src }, c, events);
    assert forall|i: int| 0 <= i < acts.len() implies #[trigger] acts[i] != RunAction::AwaitLocal by {
        if i >= 2 {
            assert(acts[i] == mid[i - 1]);
            assert(mid[i - 1] == rest[i - 2]);
        }
    }
}

/// When the command succeeds and the remote session is not up at the poll, the
/// in-process session is waited for and played on once it is there.
pub proof fn lemma_local_fallback(code: Option<i32>, remote: RemoteState)
    requires
        remote != RemoteState::Ready,
    ensures
        run_actions(
            Stage::AwaitChild,
            UNKNOWN_CODE,
            seq![
                RunEvent::ChildExited { success: true, code },
                RunEvent::RemotePolled { remote },
                RunEvent::LocalDone { ok: true },
            ],
        ) == seq![
            RunAction::WaitChild,
            RunAction::PollRemote,
            RunAction::AwaitLocal,
            RunAction::Play { source: Source::Local },
        ],
{
    let evs = seq![
        RunEvent::ChildExited { success: true, code },
        RunEvent::RemotePolled { remote },
        RunEvent::LocalDone { ok: true },
    ];
    let c = exit_code_spec(code);
    assert(evs.drop_first() =~= seq![RunEvent::RemotePolled { remote }, RunEvent::LocalDone { ok: true }]);
    assert(evs.drop_first().drop_first() =~= seq![RunEvent::LocalDone { ok: true }]);
    assert(evs.drop_first().drop_first().drop_first() =~= Seq::<RunEvent>::empty());
    assert(run_actions(Stage::Playing { source: Source::Local }, c, Seq::empty()) =~= seq![
        RunAction::Play { source: Source::Local },
    ]);
    let e2 = evs.drop_first();
    let e3 = e2.drop_first();
    assert(e3[0] == RunEvent::LocalDone { ok: true });
    assert(run_actions(Stage::AwaitLocal, c, e3) =~= seq![
        RunAction::AwaitLocal,
        RunAction::Play { source: Source::Local },
    ]);
    assert(e2[0] == RunEvent::RemotePolled { remote });
    assert(run_actions(Stage::PollRemote, c, e2) =~= seq![
        RunAction::PollRemote,
        RunAction::AwaitLocal,
        RunAction::Play { source: Source::Local },
    ]);
    assert(run_actions(Stage::AwaitChild, UNKNOWN_CODE, evs) =~= seq![
        RunAction::WaitChild,
        RunAction::PollRemote,
        RunAction::AwaitLocal,
        RunAction::Play { source: Source::Local },
    ]);
}

} // verus!
