use typscord::frame::{DiagnosticRecord, FrameBody, ResultFrame};
use typscord::orchestrator::{announced, start, step, Action, CrashReason, Event, Outcome, State};

fn record(title: &str, hint: &str) -> DiagnosticRecord {
    DiagnosticRecord { title: title.to_string(), hint: hint.to_string() }
}

fn count(n: u64) -> [u8; 8] {
    n.to_be_bytes()
}

/// Reports `events` for a fresh request and collects what the driver is told.
fn drive(events: Vec<Event>) -> (State, Vec<Action>) {
    let (mut state, first) = start();
    let mut actions = vec![first];
    for event in events {
        let (next, action) = step(state, event);
        state = next;
        actions.push(action);
    }
    (state, actions)
}

fn concluding(actions: &[Action]) -> usize {
    actions.iter().filter(|a| matches!(a, Action::KillAndReap | Action::Deliver)).count()
}

#[test]
fn success_is_delivered() {
    let mut rest = count(0).to_vec();
    rest.extend([0xFF, 0xD8, 0x00, 0x01]);
    let (state, actions) = drive(vec![
        Event::InputWritten,
        Event::DeadlineArmed,
        Event::HeaderRead { header: count(0) },
        Event::Drained { rest },
        Event::Exited,
    ]);
    assert_eq!(
        state,
        State::Done {
            outcome: Outcome::Success { artifact: vec![0xFF, 0xD8, 0x00, 0x01], warnings: vec![] }
        }
    );
    assert_eq!(
        actions,
        vec![
            Action::SendInput,
            Action::ArmDeadline,
            Action::AwaitHeader,
            Action::Drain { warnings: 0 },
            Action::Wait,
            Action::Deliver,
        ]
    );
}

#[test]
fn failure_is_delivered() {
    let mut rest = b"Unused value\nremove the unused expression\n".to_vec();
    rest.extend(count(1));
    rest.extend(b"Syntax error\nmissing closing brace\n");
    let (state, actions) = drive(vec![
        Event::InputWritten,
        Event::DeadlineArmed,
        Event::HeaderRead { header: count(1) },
        Event::Drained { rest },
        Event::Exited,
    ]);
    assert_eq!(
        state,
        State::Done {
            outcome: Outcome::Failure {
                errors: vec![record("Syntax error", "missing closing brace")],
                warnings: vec![record("Unused value", "remove the unused expression")],
            }
        }
    );
    assert_eq!(actions[3], Action::Drain { warnings: 1 });
    assert_eq!(concluding(&actions), 1);
}

#[test]
fn deadline_ends_the_wait_for_the_header() {
    let (state, actions) =
        drive(vec![Event::InputWritten, Event::DeadlineArmed, Event::DeadlineElapsed]);
    assert_eq!(state, State::Done { outcome: Outcome::Timeout });
    assert_eq!(actions.last(), Some(&Action::KillAndReap));
    assert_eq!(concluding(&actions), 1);
}

#[test]
fn frame_cut_short_is_a_crash() {
    let (state, actions) = drive(vec![
        Event::InputWritten,
        Event::DeadlineArmed,
        Event::HeaderRead { header: count(2) },
        Event::Drained { rest: b"first warning\nits hint\n".to_vec() },
    ]);
    assert_eq!(
        state,
        State::Done { outcome: Outcome::Crash { reason: CrashReason::IncompleteFrame } }
    );
    assert_eq!(actions.last(), Some(&Action::KillAndReap));
    assert_eq!(concluding(&actions), 1);
}

#[test]
fn worker_that_does_not_exit_is_a_crash() {
    let mut rest = count(0).to_vec();
    rest.push(7);
    let before_exit = vec![
        Event::InputWritten,
        Event::DeadlineArmed,
        Event::HeaderRead { header: count(0) },
        Event::Drained { rest },
    ];
    let (state, actions) = drive(before_exit.clone());
    assert_eq!(
        state,
        State::Exiting {
            frame: ResultFrame { warnings: vec![], body: FrameBody::Success { artifact: vec![7] } }
        }
    );
    assert_eq!(actions.last(), Some(&Action::Wait));
    assert_eq!(concluding(&actions), 0);

    let mut overdue = before_exit;
    overdue.push(Event::GraceElapsed);
    let (state, actions) = drive(overdue);
    assert_eq!(state, State::Done { outcome: Outcome::Crash { reason: CrashReason::ExitOverdue } });
    assert_eq!(actions.last(), Some(&Action::KillAndReap));
    assert_eq!(concluding(&actions), 1);
}

#[test]
fn timeout_is_final() {
    let mut rest = count(0).to_vec();
    rest.push(7);
    let (state, actions) = drive(vec![
        Event::InputWritten,
        Event::DeadlineArmed,
        Event::DeadlineElapsed,
        Event::HeaderRead { header: count(0) },
        Event::Drained { rest },
        Event::Exited,
        Event::Cancelled,
    ]);
    assert_eq!(state, State::Done { outcome: Outcome::Timeout });
    assert_eq!(&actions[4..], &[Action::Nothing; 4]);
    assert_eq!(concluding(&actions), 1);
}

#[test]
fn deadline_after_the_header_is_ignored() {
    let mut rest = count(0).to_vec();
    rest.push(7);
    let (state, actions) = drive(vec![
        Event::InputWritten,
        Event::DeadlineArmed,
        Event::HeaderRead { header: count(0) },
        Event::DeadlineElapsed,
        Event::Drained { rest },
        Event::DeadlineElapsed,
        Event::Exited,
        Event::DeadlineElapsed,
    ]);
    assert_eq!(
        state,
        State::Done { outcome: Outcome::Success { artifact: vec![7], warnings: vec![] } }
    );
    assert_eq!(actions[4], Action::Nothing);
    assert_eq!(actions[6], Action::Nothing);
    assert_eq!(concluding(&actions), 1);
}

#[test]
fn input_failure_is_a_crash() {
    let (state, actions) = drive(vec![Event::InputFailed]);
    assert_eq!(state, State::Done { outcome: Outcome::Crash { reason: CrashReason::InputRejected } });
    assert_eq!(actions, vec![Action::SendInput, Action::KillAndReap]);
}

#[test]
fn output_that_closes_before_the_header_is_a_crash() {
    let (state, actions) =
        drive(vec![Event::InputWritten, Event::DeadlineArmed, Event::OutputFailed]);
    assert_eq!(
        state,
        State::Done { outcome: Outcome::Crash { reason: CrashReason::HeaderUnreadable } }
    );
    assert_eq!(actions.last(), Some(&Action::KillAndReap));
}

#[test]
fn failed_drain_is_a_crash() {
    let (state, actions) = drive(vec![
        Event::InputWritten,
        Event::DeadlineArmed,
        Event::HeaderRead { header: count(3) },
        Event::OutputFailed,
    ]);
    assert_eq!(state, State::Done { outcome: Outcome::Crash { reason: CrashReason::DrainFailed } });
    assert_eq!(actions.last(), Some(&Action::KillAndReap));
}

#[test]
fn malformed_frame_is_a_crash() {
    let mut rest = count(1).to_vec();
    rest.extend(b"Syntax error\nmissing closing brace\nstray");
    let (state, actions) = drive(vec![
        Event::InputWritten,
        Event::DeadlineArmed,
        Event::HeaderRead { header: count(0) },
        Event::Drained { rest },
    ]);
    assert_eq!(
        state,
        State::Done { outcome: Outcome::Crash { reason: CrashReason::MalformedFrame } }
    );
    assert_eq!(actions.last(), Some(&Action::KillAndReap));
}

#[test]
fn cancellation_kills_the_worker_in_every_state_but_done() {
    let mut rest = count(0).to_vec();
    rest.push(7);
    let path = vec![
        Event::InputWritten,
        Event::DeadlineArmed,
        Event::HeaderRead { header: count(0) },
        Event::Drained { rest },
    ];
    for taken in 0..=path.len() {
        let mut events = path[..taken].to_vec();
        events.push(Event::Cancelled);
        let (state, actions) = drive(events);
        assert_eq!(
            state,
            State::Done { outcome: Outcome::Crash { reason: CrashReason::Cancelled } }
        );
        assert_eq!(actions.last(), Some(&Action::KillAndReap));
        assert_eq!(concluding(&actions), 1);
    }
}

#[test]
fn events_out_of_turn_change_nothing() {
    let (state, action) = step(State::Spawned, Event::Exited);
    assert_eq!((state, action), (State::Spawned, Action::Nothing));
    let (state, action) = step(State::InputSent, Event::HeaderRead { header: count(0) });
    assert_eq!((state, action), (State::InputSent, Action::Nothing));
    let (state, action) = step(State::AwaitingHeader, Event::Drained { rest: vec![] });
    assert_eq!((state, action), (State::AwaitingHeader, Action::Nothing));
    let (state, action) = step(State::Draining { header: count(0) }, Event::GraceElapsed);
    assert_eq!((state, action), (State::Draining { header: count(0) }, Action::Nothing));
}

#[test]
fn header_announces_the_warnings() {
    assert_eq!(announced(&[0, 0, 0, 0, 0, 0, 0, 0]), 0);
    assert_eq!(announced(&[0, 0, 0, 0, 0, 0, 1, 2]), 258);
    assert_eq!(announced(&[0xFF; 8]), u64::MAX);
}
