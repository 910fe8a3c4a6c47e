//! The life of one request: from a freshly spawned worker to the one outcome
//! that is reported for it.
//!
//! The orchestrator itself performs no I/O. The driver that owns the worker
//! process reports what happened as an [`Event`]; [`step`] answers with the
//! next [`State`] and the [`Action`] the driver has to perform. Only the wait
//! for the frame header can be cut short by the deadline. Once the header has
//! been read, the rest of the frame is drained without a time limit.

use crate::codec::{decode, decode_frame, DecodeError};
use crate::count::{count_value, read_usize};
use crate::frame::{
    records_view, BodyModel, DiagnosticRecord, FrameBody, FrameModel, RecordModel, ResultFrame,
};
use vstd::prelude::*;

verus! {

/// Why a request ended as a crash.
#[derive(Debug, Clone, Copy, PartialEq, Eq, Structural)]
pub enum CrashReason {
    /// The request text could not be written to the worker.
    InputRejected,
    /// The output closed or failed before the header was complete.
    HeaderUnreadable,
    /// Reading the rest of the output failed.
    DrainFailed,
    /// The output ended inside the frame.
    IncompleteFrame,
    /// The output was complete but broke the format.
    MalformedFrame,
    /// The worker did not exit within the grace period after its frame.
    ExitOverdue,
    /// The caller gave the request up.
    Cancelled,
}

/// What is reported for a request. Exactly one is produced per request.
#[derive(Debug, Clone, PartialEq, Eq)]
pub enum Outcome {
    Success { artifact: Vec<u8>, warnings: Vec<DiagnosticRecord> },
    Failure { errors: Vec<DiagnosticRecord>, warnings: Vec<DiagnosticRecord> },
    Timeout,
    Crash { reason: CrashReason },
}

/// Where a request stands.
#[derive(Debug, Clone, PartialEq, Eq)]
pub enum State {
    /// The worker runs; nothing was written to it yet.
    Spawned,
    /// The request text was written and the worker's input closed.
    InputSent,
    /// The deadline runs against the read of the header.
    AwaitingHeader,
    /// The header arrived in time; the rest of the output is being read.
    Draining { header: [u8; 8] },
    /// The frame was read; the worker is given time to exit.
    Exiting { frame: ResultFrame },
    /// The outcome is fixed.
    Done { outcome: Outcome },
}

/// What the driver observed.
#[derive(Debug, Clone, PartialEq, Eq)]
pub enum Event {
    /// The request text was written in full and the input closed.
    InputWritten,
    /// Writing the request text failed.
    InputFailed,
    /// The deadline timer and the header read were started.
    DeadlineArmed,
    /// The first eight bytes of the output arrived.
    HeaderRead { header: [u8; 8] },
    /// The deadline passed.
    DeadlineElapsed,
    /// The output failed, or closed before what was asked for had arrived.
    OutputFailed,
    /// The output was read to its end; `rest` is all that followed the header.
    Drained { rest: Vec<u8> },
    /// The worker exited.
    Exited,
    /// The worker did not exit within the grace period.
    GraceElapsed,
    /// The caller gave the request up.
    Cancelled,
}

/// What the driver has to do next.
#[derive(Debug, Clone, Copy, PartialEq, Eq, Structural)]
pub enum Action {
    /// Write the request text to the worker's input, then close the input.
    SendInput,
    /// Start the deadline timer together with the read of the header.
    ArmDeadline,
    /// Wait for the header or the deadline, whichever comes first.
    AwaitHeader,
    /// Read the output to its end, without a time limit. The header announced
    /// `warnings` warnings.
    Drain { warnings: u64 },
    /// Wait for the worker to exit, no longer than the grace period.
    Wait,
    /// Kill the worker, wait until it is gone, then report the outcome.
    KillAndReap,
    /// The worker is gone; report the outcome.
    Deliver,
    /// The event does not concern the request as it stands; carry on.
    Nothing,
}

/// Mathematical value of an [`Outcome`].
pub ghost enum OutcomeModel {
    Success { artifact: Seq<u8>, warnings: Seq<RecordModel> },
    Failure { errors: Seq<RecordModel>, warnings: Seq<RecordModel> },
    Timeout,
    Crash { reason: CrashReason },
}

/// Mathematical value of a [`State`].
pub ghost enum StateModel {
    Spawned,
    InputSent,
    AwaitingHeader,
    Draining { header: Seq<u8> },
    Exiting { frame: FrameModel },
    Done { outcome: OutcomeModel },
}

/// Mathematical value of an [`Event`].
pub ghost enum EventModel {
    InputWritten,
    InputFailed,
    DeadlineArmed,
    HeaderRead { header: Seq<u8> },
    DeadlineElapsed,
    OutputFailed,
    Drained { rest: Seq<u8> },
    Exited,
    GraceElapsed,
    Cancelled,
}

impl View for Outcome {
    type V = OutcomeModel;

    open spec fn view(&self) -> OutcomeModel {
        match self {
            Outcome::Success { artifact, warnings } => OutcomeModel::Success {
                artifact: artifact@,
                warnings: records_view(warnings@),
            },
            Outcome::Failure { errors, warnings } => OutcomeModel::Failure {
                errors: records_view(errors@),
                warnings: records_view(warnings@),
            },
            Outcome::Timeout => OutcomeModel::Timeout,
            Outcome::Crash { reason } => OutcomeModel::Crash { reason: *reason },
        }
    }
}

impl View for State {
    type V = StateModel;

    open spec fn view(&self) -> StateModel {
        match self {
            State::Spawned => StateModel::Spawned,
            State::InputSent => StateModel::InputSent,
            State::AwaitingHeader => StateModel::AwaitingHeader,
            State::Draining { header } => StateModel::Draining { header: header@ },
            State::Exiting { frame } => StateModel::Exiting { frame: frame@ },
            State::Done { outcome } => StateModel::Done { outcome: outcome@ },
        }
    }
}

impl View for Event {
    type V = EventModel;

    open spec fn view(&self) -> EventModel {
        match self {
            Event::InputWritten => EventModel::InputWritten,
            Event::InputFailed => EventModel::InputFailed,
            Event::DeadlineArmed => EventModel::DeadlineArmed,
            Event::HeaderRead { header } => EventModel::HeaderRead { header: header@ },
            Event::DeadlineElapsed => EventModel::DeadlineElapsed,
            Event::OutputFailed => EventModel::OutputFailed,
            Event::Drained { rest } => EventModel::Drained { rest: rest@ },
            Event::Exited => EventModel::Exited,
            Event::GraceElapsed => EventModel::GraceElapsed,
            Event::Cancelled => EventModel::Cancelled,
        }
    }
}

/// The outcome that a frame stands for: a success when it carries an artifact,
/// a failure when it names errors.
pub open spec fn outcome_of(frame: FrameModel) -> OutcomeModel {
    match frame.body {
        BodyModel::Success { artifact } => OutcomeModel::Success {
            artifact,
            warnings: frame.warnings,
        },
        BodyModel::Failure { errors } => OutcomeModel::Failure { errors, warnings: frame.warnings },
    }
}

/// The crash that a failure to read the frame stands for.
pub open spec fn reason_of(error: DecodeError) -> CrashReason {
    match error {
        DecodeError::IncompleteFrame => CrashReason::IncompleteFrame,
        DecodeError::MalformedFrame => CrashReason::MalformedFrame,
    }
}

/// The state and the action of a request that ends as a crash: the worker is
/// killed and reaped whatever it was doing.
pub open spec fn crashed(reason: CrashReason) -> (StateModel, Action) {
    (StateModel::Done { outcome: OutcomeModel::Crash { reason } }, Action::KillAndReap)
}

/// The transition of the orchestrator: the state after `event`, and what the
/// driver has to do. An event that the state does not expect changes nothing.
pub open spec fn advance(state: StateModel, event: EventModel) -> (StateModel, Action) {
    match state {
        StateModel::Spawned => match event {
            EventModel::InputWritten => (StateModel::InputSent, Action::ArmDeadline),
            EventModel::InputFailed => crashed(CrashReason::InputRejected),
            EventModel::Cancelled => crashed(CrashReason::Cancelled),
            _ => (state, Action::Nothing),
        },
        StateModel::InputSent => match event {
            EventModel::DeadlineArmed => (StateModel::AwaitingHeader, Action::AwaitHeader),
            EventModel::Cancelled => crashed(CrashReason::Cancelled),
            _ => (state, Action::Nothing),
        },
        StateModel::AwaitingHeader => match event {
            EventModel::DeadlineElapsed => (
                StateModel::Done { outcome: OutcomeModel::Timeout },
                Action::KillAndReap,
            ),
            EventModel::HeaderRead { header } => (
                StateModel::Draining { header },
                Action::Drain { warnings: count_value(header) as u64 },
            ),
            EventModel::OutputFailed => crashed(CrashReason::HeaderUnreadable),
            EventModel::Cancelled => crashed(CrashReason::Cancelled),
            _ => (state, Action::Nothing),
        },
        StateModel::Draining { header } => match event {
            EventModel::Drained { rest } => match decode_frame(header + rest) {
                Ok(frame) => (StateModel::Exiting { frame }, Action::Wait),
                Err(error) => crashed(reason_of(error)),
            },
            EventModel::OutputFailed => crashed(CrashReason::DrainFailed),
            EventModel::Cancelled => crashed(CrashReason::Cancelled),
            _ => (state, Action::Nothing),
        },
        StateModel::Exiting { frame } => match event {
            EventModel::Exited => (StateModel::Done { outcome: outcome_of(frame) }, Action::Deliver),
            EventModel::GraceElapsed => crashed(CrashReason::ExitOverdue),
            EventModel::Cancelled => crashed(CrashReason::Cancelled),
            _ => (state, Action::Nothing),
        },
        StateModel::Done { outcome } => (state, Action::Nothing),
    }
}

/// The state of a request whose worker was just spawned, and the first thing
/// to do for it.
pub fn start() -> (first: (State, Action))
    ensures
        first.0@ == StateModel::Spawned,
        first.1 == Action::SendInput,
{
    (State::Spawned, Action::SendInput)
}

fn crash(reason: CrashReason) -> (next: (State, Action))
    ensures
        (next.0@, next.1) == crashed(reason),
{
    (State::Done { outcome: Outcome::Crash { reason } }, Action::KillAndReap)
}

fn conclude(frame: ResultFrame) -> (outcome: Outcome)
    ensures
        outcome@ == outcome_of(frame@),
{
    let ResultFrame { warnings, body } = frame;
    match body {
        FrameBody::Success { artifact } => Outcome::Success { artifact, warnings },
        FrameBody::Failure { errors } => Outcome::Failure { errors, warnings },
    }
}

fn read_frame(header: &[u8; 8], rest: &Vec<u8>) -> (decoded: Result<ResultFrame, DecodeError>)
    ensures
        crate::codec::decoded_view(decoded) == decode_frame(header@ + rest@),
{
    let mut stream: Vec<u8> = Vec::new();
    stream.extend_from_slice(header.as_slice());
    stream.extend_from_slice(rest.as_slice());
    assert(stream@ =~= header@ + rest@);
    decode(stream.as_slice())
}

/// Advances a request by one event.
pub fn step(state: State, event: Event) -> (next: (State, Action))
    ensures
        (next.0@, next.1) == advance(state@, event@),
{
    match state {
        State::Spawned => match event {
            Event::InputWritten => (State::InputSent, Action::ArmDeadline),
            Event::InputFailed => crash(CrashReason::InputRejected),
            Event::Cancelled => crash(CrashReason::Cancelled),
            _ => (State::Spawned, Action::Nothing),
        },
        State::InputSent => match event {
            Event::DeadlineArmed => (State::AwaitingHeader, Action::AwaitHeader),
            Event::Cancelled => crash(CrashReason::Cancelled),
            _ => (State::InputSent, Action::Nothing),
        },
        State::AwaitingHeader => match event {
            Event::DeadlineElapsed => (
                State::Done { outcome: Outcome::Timeout },
                Action::KillAndReap,
            ),
            Event::HeaderRead { header } => {
                let warnings: u64 = announced(&header);
                (State::Draining { header }, Action::Drain { warnings })
            },
            Event::OutputFailed => crash(CrashReason::HeaderUnreadable),
            Event::Cancelled => crash(CrashReason::Cancelled),
            _ => (State::AwaitingHeader, Action::Nothing),
        },
        State::Draining { header } => match event {
            Event::Drained { rest } => match read_frame(&header, &rest) {
                Ok(frame) => (State::Exiting { frame }, Action::Wait),
                Err(error) => crash(
                    match error {
                        DecodeError::IncompleteFrame => CrashReason::IncompleteFrame,
                        DecodeError::MalformedFrame => CrashReason::MalformedFrame,
                    },
                ),
            },
            Event::OutputFailed => crash(CrashReason::DrainFailed),
            Event::Cancelled => crash(CrashReason::Cancelled),
            _ => (State::Draining { header }, Action::Nothing),
        },
        State::Exiting { frame } => match event {
            Event::Exited => (State::Done { outcome: conclude(frame) }, Action::Deliver),
            Event::GraceElapsed => crash(CrashReason::ExitOverdue),
            Event::Cancelled => crash(CrashReason::Cancelled),
            _ => (State::Exiting { frame }, Action::Nothing),
        },
        State::Done { outcome } => (State::Done { outcome }, Action::Nothing),
    }
}

/// The number of warnings that a header announces.
pub fn announced(header: &[u8; 8]) -> (warnings: u64)
    ensures
        warnings == count_value(header@),
{
    let count = read_usize(header.as_slice(), 0);
    proof {
        assert(header@.subrange(0, 8) =~= header@);
    }
    count.unwrap()
}

} // verus!
