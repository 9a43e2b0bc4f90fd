use wally_vibe::pattern::parse_pattern;
use wally_vibe::playback::{PlayAction, Playback};
use wally_vibe::run::{exit_code, RemoteState, Run, RunAction, RunEvent, Source};

#[test]
fn failed_command_exits_with_its_code_without_playing() {
    let mut r = Run::new();
    assert_eq!(r.action(), RunAction::WaitChild);
    let a = r.handle(RunEvent::ChildExited { success: false, code: Some(1) });
    assert_eq!(a, RunAction::Exit { code: 1 });
    assert_eq!(r.handle(RunEvent::RemotePolled { remote: RemoteState::Ready }), RunAction::Exit { code: 1 });
    assert_eq!(r.handle(RunEvent::LocalDone { ok: true }), RunAction::Exit { code: 1 });
}

#[test]
fn ready_remote_is_played_on() {
    let mut r = Run::new();
    assert_eq!(r.handle(RunEvent::ChildExited { success: true, code: Some(0) }), RunAction::PollRemote);
    assert_eq!(
        r.handle(RunEvent::RemotePolled { remote: RemoteState::Ready }),
        RunAction::Play { source: Source::Remote }
    );
    assert_eq!(r.handle(RunEvent::PlaybackDone), RunAction::Exit { code: 0 });
}

#[test]
fn pending_remote_falls_back_to_local() {
    let mut r = Run::new();
    r.handle(RunEvent::ChildExited { success: true, code: Some(0) });
    assert_eq!(r.handle(RunEvent::RemotePolled { remote: RemoteState::Pending }), RunAction::AwaitLocal);
    assert_eq!(r.handle(RunEvent::LocalDone { ok: true }), RunAction::Play { source: Source::Local });
    assert_eq!(r.handle(RunEvent::PlaybackDone), RunAction::Exit { code: 0 });
}

#[test]
fn failed_remote_falls_back_to_local() {
    let mut r = Run::new();
    r.handle(RunEvent::ChildExited { success: true, code: Some(0) });
    assert_eq!(r.handle(RunEvent::RemotePolled { remote: RemoteState::Failed }), RunAction::AwaitLocal);
}

#[test]
fn no_session_skips_playback_and_keeps_code() {
    let mut r = Run::new();
    r.handle(RunEvent::ChildExited { success: true, code: Some(0) });
    r.handle(RunEvent::RemotePolled { remote: RemoteState::Pending });
    assert_eq!(r.handle(RunEvent::LocalDone { ok: false }), RunAction::Exit { code: 0 });
}

#[test]
fn command_not_started_exits_minus_one() {
    let mut r = Run::new();
    assert_eq!(r.handle(RunEvent::ChildNotStarted), RunAction::Exit { code: -1 });
}

#[test]
fn signal_killed_command_exits_minus_one() {
    let mut r = Run::new();
    assert_eq!(r.handle(RunEvent::ChildExited { success: false, code: None }), RunAction::Exit { code: -1 });
    assert_eq!(exit_code(None), -1);
    assert_eq!(exit_code(Some(7)), 7);
}

#[test]
fn out_of_place_event_changes_nothing() {
    let mut r = Run::new();
    assert_eq!(r.handle(RunEvent::PlaybackDone), RunAction::WaitChild);
    assert_eq!(r.handle(RunEvent::LocalDone { ok: true }), RunAction::WaitChild);
}

#[test]
fn end_to_end_two_steps_then_exit_zero() {
    let steps = parse_pattern("0.5 3s/0.75 1.5s").unwrap();
    let mut r = Run::new();
    r.handle(RunEvent::ChildExited { success: true, code: Some(0) });
    r.handle(RunEvent::RemotePolled { remote: RemoteState::Pending });
    assert_eq!(r.handle(RunEvent::LocalDone { ok: true }), RunAction::Play { source: Source::Local });

    let (mut p, mut a) = Playback::start(steps.len(), 1);
    let mut seen: Vec<String> = Vec::new();
    while !matches!(a, PlayAction::Finish { .. }) {
        seen.push(match a {
            PlayAction::Vibrate { step, .. } => format!("vibrate {}", steps[step].speed),
            PlayAction::Sleep { step } => format!("sleep {}", steps[step].seconds),
            PlayAction::StopAll => "stop".to_string(),
            PlayAction::Finish { .. } => unreachable!(),
        });
        a = p.advance(true);
    }
    assert_eq!(a, PlayAction::Finish { ok: true });
    assert_eq!(seen, vec!["vibrate 0.5", "sleep 3", "vibrate 0.75", "sleep 1.5", "stop"]);
    assert_eq!(r.handle(RunEvent::PlaybackDone), RunAction::Exit { code: 0 });
}
