use wally_vibe::playback::{PlayAction, Playback};

fn run_all(steps: usize, devices: usize, fail_at: Option<usize>) -> Vec<PlayAction> {
    let (mut p, mut a) = Playback::start(steps, devices);
    let mut out = vec![a];
    let mut n = 0;
    while !matches!(a, PlayAction::Finish { .. }) {
        a = p.advance(fail_at != Some(n));
        out.push(a);
        n += 1;
    }
    out
}

#[test]
fn two_steps_one_device() {
    assert_eq!(
        run_all(2, 1, None),
        vec![
            PlayAction::Vibrate { step: 0, device: 0 },
            PlayAction::Sleep { step: 0 },
            PlayAction::Vibrate { step: 1, device: 0 },
            PlayAction::Sleep { step: 1 },
            PlayAction::StopAll,
            PlayAction::Finish { ok: true },
        ]
    );
}

#[test]
fn every_device_in_order_before_the_sleep() {
    assert_eq!(
        run_all(1, 3, None),
        vec![
            PlayAction::Vibrate { step: 0, device: 0 },
            PlayAction::Vibrate { step: 0, device: 1 },
            PlayAction::Vibrate { step: 0, device: 2 },
            PlayAction::Sleep { step: 0 },
            PlayAction::StopAll,
            PlayAction::Finish { ok: true },
        ]
    );
}

#[test]
fn no_devices_sends_nothing() {
    assert_eq!(run_all(2, 0, None), vec![PlayAction::Finish { ok: true }]);
    let (mut p, _) = Playback::start(5, 0);
    assert_eq!(p.advance(false), PlayAction::Finish { ok: true });
}

#[test]
fn failed_command_aborts_without_stop() {
    assert_eq!(
        run_all(2, 2, Some(1)),
        vec![
            PlayAction::Vibrate { step: 0, device: 0 },
            PlayAction::Vibrate { step: 0, device: 1 },
            PlayAction::Finish { ok: false },
        ]
    );
}

#[test]
fn failed_stop_is_reported() {
    assert_eq!(
        run_all(1, 1, Some(2)),
        vec![
            PlayAction::Vibrate { step: 0, device: 0 },
            PlayAction::Sleep { step: 0 },
            PlayAction::StopAll,
            PlayAction::Finish { ok: false },
        ]
    );
}

#[test]
fn empty_pattern_only_stops() {
    assert_eq!(run_all(0, 1, None), vec![PlayAction::StopAll, PlayAction::Finish { ok: true }]);
}
