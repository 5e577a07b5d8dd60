//! The supervisor's helper driver: what the worker that owns a helper process
//! does next, given how its last action ended.
//!
//! The worker alternates between I/O and decisions. The decisions are the
//! machine below: [`PumpState::action`] names the action that is due in a
//! state, [`PumpState::step`] takes the outcome of that action to the next
//! state. The caller performs the actions on the real process and channels.

use vstd::prelude::*;
use vstd::utf8::{encode_utf8, valid_utf8};
use crate::code::{code_of_status, ReturnCode};
use crate::error::SimuError;

verus! {

/// Bytes read from the helper's standard output at a time.
pub const BUFFER_SIZE: usize = 65536;

/// Bytes read from the helper's standard error at a time.
pub const LOG_BUFFER_SIZE: usize = 32768;

/// Chunks the data channel holds before the worker has to wait.
pub const DATA_CHANNEL_CAPACITY: usize = 16;

/// Verdicts the handshake channel holds.
pub const HANDSHAKE_CHANNEL_CAPACITY: usize = 1;

/// The file name of the helper, which lies beside the supervisor's own
/// executable.
pub const HELPER_NAME: &'static str = "simu_suid_helper";

/// What the supervisor writes to its log about a helper's standard error.
#[derive(Debug, Clone, PartialEq, Eq)]
pub enum LogReport {
    /// The helper wrote nothing.
    Nothing,
    /// The helper wrote this text.
    Text(String),
    /// The helper wrote bytes that are no text.
    Unparseable,
}

/// What the worker tells the request handler before any payload is handed
/// over.
#[derive(Debug, Clone, Copy, PartialEq, Eq, Structural)]
pub enum Verdict {
    /// The helper has begun to produce payload.
    Payload,
    /// The helper failed before it produced any payload.
    Failed(ReturnCode),
}

/// One action of the worker.
#[derive(Debug, Clone, Copy, PartialEq, Eq, Structural)]
pub enum PumpAction {
    /// Start the helper with its three standard streams piped.
    Spawn,
    /// Write the request frame to the helper's standard input.
    WriteFrame,
    /// Read up to `BUFFER_SIZE` bytes from the helper's standard output.
    ReadOutput,
    /// Send the verdict on the handshake channel.
    SendVerdict(Verdict),
    /// Send the first `len` bytes of the last read on the data channel.
    Forward { len: usize },
    /// Send an empty chunk on the data channel and close it.
    SendSentinel,
    /// Close the data channel.
    CloseData,
    /// Close the read side of the helper's standard output.
    CloseOutput,
    /// Read up to `LOG_BUFFER_SIZE` bytes from the helper's standard error
    /// and keep them for the log.
    ReadLog,
    /// Wait for the helper to exit.
    Wait,
    /// Nothing is left to do.
    Stop,
}

/// How an action ended.
#[derive(Debug, Clone, Copy, PartialEq, Eq)]
pub enum Outcome {
    /// The action was carried out.
    Done,
    /// A read returned this many bytes; none at the end of the stream.
    Read(usize),
    /// The action was interrupted before it did anything.
    Interrupted,
    /// The action failed; for a send, the receiver is gone.
    Failed,
    /// The helper has exited, with this status if it left one.
    Exited(Option<i32>),
}

/// Where the worker stands.
#[derive(Debug, Clone, Copy, PartialEq, Eq, Structural)]
pub enum PumpState {
    /// Nothing has happened yet.
    Start,
    /// The helper runs and waits for its request frame.
    Framing,
    /// The worker reads the helper's output. `reported` says whether the
    /// payload verdict has been sent.
    Pumping { reported: bool },
    /// A first chunk of `len` bytes has arrived and is about to be announced.
    Announcing { len: usize },
    /// A chunk of `len` bytes is on its way to the data channel.
    Forwarding { len: usize },
    /// The output ended; the data channel is about to be closed.
    Closing { reported: bool },
    /// Reading the output failed; the stream ends with an empty chunk.
    Failing { reported: bool },
    /// Nobody reads the output any more; the worker hangs up on the helper.
    HangingUp,
    /// The worker collects what the helper wrote to its standard error.
    Draining { reported: bool },
    /// The worker waits for the helper to exit.
    Reaping { reported: bool },
    /// The helper failed with `code` before any payload; `running` says
    /// whether the helper still has to be closed down.
    Rejecting { code: ReturnCode, running: bool },
    /// The run is over.
    Finished,
}

impl PumpState {
    /// The action that is due in this state.
    pub open spec fn spec_action(self) -> PumpAction {
        match self {
            PumpState::Start => PumpAction::Spawn,
            PumpState::Framing => PumpAction::WriteFrame,
            PumpState::Pumping { .. } => PumpAction::ReadOutput,
            PumpState::Announcing { .. } => PumpAction::SendVerdict(Verdict::Payload),
            PumpState::Forwarding { len } => PumpAction::Forward { len },
            PumpState::Closing { .. } => PumpAction::CloseData,
            PumpState::Failing { .. } => PumpAction::SendSentinel,
            PumpState::HangingUp => PumpAction::CloseOutput,
            PumpState::Draining { .. } => PumpAction::ReadLog,
            PumpState::Reaping { .. } => PumpAction::Wait,
            PumpState::Rejecting { code, .. } => PumpAction::SendVerdict(Verdict::Failed(code)),
            PumpState::Finished => PumpAction::Stop,
        }
    }

    /// The state after the action that was due in this state ended with
    /// `outcome`. An outcome that the action cannot have counts as its
    /// failure.
    pub open spec fn spec_step(self, outcome: Outcome) -> PumpState {
        match self {
            PumpState::Start => match outcome {
                Outcome::Done => PumpState::Framing,
                _ => PumpState::Rejecting { code: ReturnCode::Unknown, running: false },
            },
            PumpState::Framing => match outcome {
                Outcome::Done => PumpState::Pumping { reported: false },
                Outcome::Interrupted => PumpState::Framing,
                _ => PumpState::Rejecting { code: ReturnCode::Unknown, running: true },
            },
            PumpState::Pumping { reported } => match outcome {
                Outcome::Read(len) => if len == 0 {
                    PumpState::Closing { reported }
                } else if reported {
                    PumpState::Forwarding { len }
                } else {
                    PumpState::Announcing { len }
                },
                Outcome::Interrupted => PumpState::Pumping { reported },
                _ => PumpState::Failing { reported },
            },
            PumpState::Announcing { len } => PumpState::Forwarding { len },
            PumpState::Forwarding { .. } => match outcome {
                Outcome::Done => PumpState::Pumping { reported: true },
                _ => PumpState::HangingUp,
            },
            PumpState::Closing { reported } => PumpState::Draining { reported },
            PumpState::Failing { reported } => PumpState::Draining { reported },
            PumpState::HangingUp => PumpState::Draining { reported: true },
            PumpState::Draining { reported } => match outcome {
                Outcome::Read(len) => if len == 0 {
                    PumpState::Reaping { reported }
                } else {
                    PumpState::Draining { reported }
                },
                Outcome::Interrupted => PumpState::Draining { reported },
                _ => PumpState::Finished,
            },
            PumpState::Reaping { reported } => if reported {
                PumpState::Finished
            } else {
                match outcome {
                    Outcome::Exited(Some(status)) => PumpState::Rejecting {
                        code: code_of_status(status as int),
                        running: false,
                    },
                    _ => PumpState::Rejecting { code: ReturnCode::Unknown, running: false },
                }
            },
            PumpState::Rejecting { running, .. } => if running {
                PumpState::HangingUp
            } else {
                PumpState::Finished
            },
            PumpState::Finished => PumpState::Finished,
        }
    }

    /// The state a worker begins in.
    pub fn new() -> (state: PumpState)
        ensures
            state == PumpState::Start,
    {
        PumpState::Start
    }

    /// The action that is due in this state.
    pub fn action(&self) -> (action: PumpAction)
        ensures
            action == self.spec_action(),
    {
        match *self {
            PumpState::Start => PumpAction::Spawn,
            PumpState::Framing => PumpAction::WriteFrame,
            PumpState::Pumping { .. } => PumpAction::ReadOutput,
            PumpState::Announcing { .. } => PumpAction::SendVerdict(Verdict::Payload),
            PumpState::Forwarding { len } => PumpAction::Forward { len },
            PumpState::Closing { .. } => PumpAction::CloseData,
            PumpState::Failing { .. } => PumpAction::SendSentinel,
            PumpState::HangingUp => PumpAction::CloseOutput,
            PumpState::Draining { .. } => PumpAction::ReadLog,
            PumpState::Reaping { .. } => PumpAction::Wait,
            PumpState::Rejecting { code, .. } => PumpAction::SendVerdict(Verdict::Failed(code)),
            PumpState::Finished => PumpAction::Stop,
        }
    }

    /// Takes the outcome of the action that was due and moves on.
    pub fn step(self, outcome: Outcome) -> (next: PumpState)
        ensures
            next == self.spec_step(outcome),
    {
        match self {
            PumpState::Start => match outcome {
                Outcome::Done => PumpState::Framing,
                _ => PumpState::Rejecting { code: ReturnCode::Unknown, running: false },
            },
            PumpState::Framing => match outcome {
                Outcome::Done => PumpState::Pumping { reported: false },
                Outcome::Interrupted => PumpState::Framing,
                _ => PumpState::Rejecting { code: ReturnCode::Unknown, running: true },
            },
            PumpState::Pumping { reported } => match outcome {
                Outcome::Read(len) => {
                    if len == 0 {
                        PumpState::Closing { reported }
                    } else if reported {
                        PumpState::Forwarding { len }
                    } else {
                        PumpState::Announcing { len }
                    }
                },
                Outcome::Interrupted => PumpState::Pumping { reported },
                _ => PumpState::Failing { reported },
            },
            PumpState::Announcing { len } => PumpState::Forwarding { len },
            PumpState::Forwarding { .. } => match outcome {
                Outcome::Done => PumpState::Pumping { reported: true },
                _ => PumpState::HangingUp,
            },
            PumpState::Closing { reported } => PumpState::Draining { reported },
            PumpState::Failing { reported } => PumpState::Draining { reported },
            PumpState::HangingUp => PumpState::Draining { reported: true },
            PumpState::Draining { reported } => match outcome {
                Outcome::Read(len) => {
                    if len == 0 {
                        PumpState::Reaping { reported }
                    } else {
                        PumpState::Draining { reported }
                    }
                },
                Outcome::Interrupted => PumpState::Draining { reported },
                _ => PumpState::Finished,
            },
            PumpState::Reaping { reported } => {
                if reported {
                    PumpState::Finished
                } else {
                    match outcome {
                        Outcome::Exited(status) => PumpState::Rejecting {
                            code: ReturnCode::from_exit_status(status),
                            running: false,
                        },
                        _ => PumpState::Rejecting { code: ReturnCode::Unknown, running: false },
                    }
                }
            },
            PumpState::Rejecting { running, .. } => {
                if running {
                    PumpState::HangingUp
                } else {
                    PumpState::Finished
                }
            },
            PumpState::Finished => PumpState::Finished,
        }
    }
}

/// The state of a worker whose actions so far ended with `outcomes`, one
/// after the other.
pub open spec fn run(outcomes: Seq<Outcome>) -> PumpState
    decreases outcomes.len(),
{
    if outcomes.len() == 0 {
        PumpState::Start
    } else {
        run(outcomes.drop_last()).spec_step(outcomes.last())
    }
}

/// The action a worker performs after `i` earlier ones, where `outcomes`
/// tells how its actions end.
pub open spec fn action_at(outcomes: Seq<Outcome>, i: int) -> PumpAction {
    run(outcomes.take(i)).spec_action()
}

/// A verdict has been sent and the run goes on without another.
pub open spec fn settled(state: PumpState) -> bool {
    match state {
        PumpState::Forwarding { .. } => true,
        PumpState::Pumping { reported } => reported,
        PumpState::Closing { reported } => reported,
        PumpState::Failing { reported } => reported,
        PumpState::Draining { reported } => reported,
        PumpState::Reaping { reported } => reported,
        PumpState::HangingUp => true,
        PumpState::Finished => true,
        _ => false,
    }
}

/// The data channel is out of use: nothing is forwarded from here on.
pub open spec fn hung_up(state: PumpState) -> bool {
    match state {
        PumpState::HangingUp => true,
        PumpState::Draining { reported } => reported,
        PumpState::Reaping { reported } => reported,
        PumpState::Finished => true,
        _ => false,
    }
}

/// A run is extended by one step of the machine.
pub proof fn lemma_run_step(outcomes: Seq<Outcome>, i: int)
    requires
        0 <= i < outcomes.len(),
    ensures
        run(outcomes.take(i + 1)) == run(outcomes.take(i)).spec_step(outcomes[i]),
{
    assert(outcomes.take(i + 1).drop_last() =~= outcomes.take(i));
}

proof fn lemma_settled_stays(outcomes: Seq<Outcome>, i: int, j: int)
    requires
        0 <= i <= j <= outcomes.len(),
        settled(run(outcomes.take(i))),
    ensures
        settled(run(outcomes.take(j))),
    decreases j - i,
{
    if i < j {
        lemma_settled_stays(outcomes, i, j - 1);
        lemma_run_step(outcomes, j - 1);
    }
}

proof fn lemma_hung_up_stays(outcomes: Seq<Outcome>, i: int, j: int)
    requires
        0 <= i <= j <= outcomes.len(),
        hung_up(run(outcomes.take(i))),
    ensures
        hung_up(run(outcomes.take(j))),
    decreases j - i,
{
    if i < j {
        lemma_hung_up_stays(outcomes, i, j - 1);
        lemma_run_step(outcomes, j - 1);
    }
}

proof fn lemma_reported_was_announced(outcomes: Seq<Outcome>, i: int)
    requires
        0 <= i <= outcomes.len(),
        run(outcomes.take(i)) is Forwarding || run(outcomes.take(i)) == (PumpState::Pumping {
            reported: true,
        }),
    ensures
        exists|j: int|
            0 <= j < i && action_at(outcomes, j) == PumpAction::SendVerdict(Verdict::Payload),
    decreases i,
{
    if i == 0 {
        assert(outcomes.take(0) =~= Seq::<Outcome>::empty());
    } else {
        lemma_run_step(outcomes, i - 1);
        let before = run(outcomes.take(i - 1));
        if before is Announcing {
            assert(action_at(outcomes, i - 1) == PumpAction::SendVerdict(Verdict::Payload));
        } else {
            lemma_reported_was_announced(outcomes, i - 1);
        }
    }
}

/// The handshake comes first: in every run, a chunk of payload is forwarded
/// only after the payload verdict has been sent.
pub proof fn lemma_verdict_before_payload(outcomes: Seq<Outcome>, i: int)
    requires
        0 <= i <= outcomes.len(),
        action_at(outcomes, i) is Forward,
    ensures
        exists|j: int|
            0 <= j < i && action_at(outcomes, j) == PumpAction::SendVerdict(Verdict::Payload),
{
    lemma_reported_was_announced(outcomes, i);
}

/// Each run reports once: after a verdict has been sent, no second one
/// follows.
pub proof fn lemma_single_verdict(outcomes: Seq<Outcome>, i: int, j: int)
    requires
        0 <= i < j <= outcomes.len(),
        action_at(outcomes, i) is SendVerdict,
    ensures
        !(action_at(outcomes, j) is SendVerdict),
{
    lemma_run_step(outcomes, i);
    lemma_settled_stays(outcomes, i + 1, j);
}

/// A failure is reported only where no payload flows: a run that sends a
/// failure verdict forwards no chunk, before or after.
pub proof fn lemma_failure_excludes_payload(outcomes: Seq<Outcome>, i: int, j: int)
    requires
        0 <= i <= outcomes.len(),
        0 <= j <= outcomes.len(),
        action_at(outcomes, i) is SendVerdict,
        action_at(outcomes, i) != PumpAction::SendVerdict(Verdict::Payload),
    ensures
        !(action_at(outcomes, j) is Forward),
{
    if j < i {
        if action_at(outcomes, j) is Forward {
            lemma_settled_stays(outcomes, j, i);
        }
    } else if j > i {
        lemma_run_step(outcomes, i);
        if run(outcomes.take(i + 1)) is HangingUp {
            lemma_hung_up_stays(outcomes, i + 1, j);
        } else {
            lemma_hung_up_stays(outcomes, i + 1, j);
        }
    }
}

/// Cancellation reaches the helper: when the data channel refuses a chunk,
/// the worker closes the helper's output next and forwards nothing more.
pub proof fn lemma_refusal_hangs_up(outcomes: Seq<Outcome>, i: int, j: int)
    requires
        0 <= i < j <= outcomes.len(),
        action_at(outcomes, i) is Forward,
        !(outcomes[i] is Done),
    ensures
        action_at(outcomes, i + 1) == PumpAction::CloseOutput,
        !(action_at(outcomes, j) is Forward),
{
    lemma_run_step(outcomes, i);
    lemma_hung_up_stays(outcomes, i + 1, j);
}

/// Every read of the run returned `limit` bytes at most.
pub open spec fn reads_within(outcomes: Seq<Outcome>, limit: usize) -> bool {
    forall|k: int|
        0 <= k < outcomes.len() ==> match #[trigger] outcomes[k] {
            Outcome::Read(len) => len <= limit,
            _ => true,
        }
}

proof fn lemma_pending_chunk_bounded(outcomes: Seq<Outcome>, i: int, limit: usize)
    requires
        0 <= i <= outcomes.len(),
        reads_within(outcomes, limit),
    ensures
        match run(outcomes.take(i)) {
            PumpState::Announcing { len } => len <= limit,
            PumpState::Forwarding { len } => len <= limit,
            _ => true,
        },
    decreases i,
{
    if i == 0 {
        assert(outcomes.take(0) =~= Seq::<Outcome>::empty());
    } else {
        lemma_pending_chunk_bounded(outcomes, i - 1, limit);
        lemma_run_step(outcomes, i - 1);
        assert(outcomes[i - 1] is Read ==> outcomes[i - 1]->Read_0 <= limit);
    }
}

/// A chunk is no larger than a read: in a run whose reads return `limit`
/// bytes at most, every chunk that is forwarded holds `limit` bytes at most.
pub proof fn lemma_chunk_bounded(outcomes: Seq<Outcome>, i: int, limit: usize)
    requires
        0 <= i <= outcomes.len(),
        reads_within(outcomes, limit),
        action_at(outcomes, i) is Forward,
    ensures
        action_at(outcomes, i)->len <= limit,
{
    lemma_pending_chunk_bounded(outcomes, i, limit);
}

/// The exit status decides only where nothing was reported before: a run that
/// comes to wait for the helper without a verdict reports the code of the
/// status it finds, and a run with a verdict ends there.
pub proof fn lemma_exit_status_reported(outcomes: Seq<Outcome>, i: int)
    requires
        0 <= i < outcomes.len(),
        action_at(outcomes, i) == PumpAction::Wait,
    ensures
        run(outcomes.take(i)) == (PumpState::Reaping { reported: true }) ==> action_at(
            outcomes,
            i + 1,
        ) == PumpAction::Stop,
        run(outcomes.take(i)) == (PumpState::Reaping { reported: false }) ==> action_at(
            outcomes,
            i + 1,
        ) == PumpAction::SendVerdict(
            Verdict::Failed(
                match outcomes[i] {
                    Outcome::Exited(Some(status)) => code_of_status(status as int),
                    _ => ReturnCode::Unknown,
                },
            ),
        ),
{
    lemma_run_step(outcomes, i);
}

/// What the request handler makes of the handshake: the stream may be handed
/// on after the payload verdict, a failure verdict is the error with its
/// code, and a channel that closed without a verdict is an unknown error.
pub fn handshake_result(verdict: Option<Verdict>) -> (result: Result<(), SimuError>)
    ensures
        result == match verdict {
            Some(Verdict::Payload) => Ok::<(), SimuError>(()),
            Some(Verdict::Failed(code)) => Err::<(), SimuError>(SimuError { code }),
            None => Err::<(), SimuError>(SimuError { code: ReturnCode::Unknown }),
        },
{
    match verdict {
        Some(Verdict::Payload) => Ok(()),
        Some(Verdict::Failed(code)) => Err(SimuError::new(code)),
        None => Err(SimuError::unknown()),
    }
}

/// Reads bytes as text with `String::from_utf8`: the string whose UTF-8
/// encoding the bytes are, and nothing where they are not valid UTF-8.
#[verifier::external_body]
fn string_from_utf8(bytes: Vec<u8>) -> (text: Option<String>)
    ensures
        match text {
            Some(t) => encode_utf8(t@) == bytes@,
            None => !valid_utf8(bytes@),
        },
{
    String::from_utf8(bytes).ok()
}

/// What the log says about the bytes a helper wrote to its standard error:
/// nothing where there are none, their text where they are valid UTF-8, and
/// else that they cannot be read.
pub fn report_log(bytes: Vec<u8>) -> (report: LogReport)
    ensures
        match report {
            LogReport::Nothing => bytes@.len() == 0,
            LogReport::Text(text) => bytes@.len() > 0 && encode_utf8(text@) == bytes@,
            LogReport::Unparseable => bytes@.len() > 0 && !valid_utf8(bytes@),
        },
{
    if bytes.len() == 0 {
        return LogReport::Nothing;
    }
    match string_from_utf8(bytes) {
        Some(text) => LogReport::Text(text),
        None => LogReport::Unparseable,
    }
}

} // verus!
