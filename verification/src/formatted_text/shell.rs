//! Running an external command within a time limit, as a state machine.
//!
//! The machine decides; the program that owns the child process acts. It
//! hands the machine what it observed, an `Event`, and gets back what to do
//! next, an `Action`, until the action is `Kill` or `Finish`. No action asks
//! the program to wait longer than one pause, and the time limit holds from
//! the moment the child is spawned: while the input is written as well as
//! while the child is watched.

use crate::text::{chars_of, push_str, string_of};
use vstd::prelude::*;

verus! {

/// The pause between two looks at the child, in milliseconds.
pub const POLL_MILLIS: u64 = 10;

/// How far a run has come.
#[derive(Debug, Clone, Copy, PartialEq, Eq, Structural)]
pub enum Phase {
    /// The child has not been spawned yet.
    Spawning,
    /// The child runs and its input is being written.
    Feeding,
    /// The child runs and is watched; the clock is to be read next.
    Watching,
    /// The clock was read within the limit; the child is to be polled.
    Polling,
    /// The child has exited and its output is to be read.
    Reading { success: bool },
    /// The child has failed and its error output is to be read.
    ReadingError,
    /// The run is over.
    Done,
}

/// What the program observed.
pub enum Event {
    /// The child was spawned, or could not be.
    Spawned(Result<(), String>),
    /// The input was written to the child, or could not be.
    Fed(Result<(), String>),
    /// The child has no stream to take the input.
    InputUnavailable,
    /// The time since the child was spawned, in nanoseconds.
    Clock { elapsed_nanos: u128 },
    /// The child was polled: it still runs (`Ok(None)`), it has exited
    /// with or without success, or the poll failed.
    Polled(Result<Option<bool>, String>),
    /// The standard output of the child was read, or could not be.
    Output(Result<String, String>),
    /// The error output of the child was read, or could not be.
    ErrorOutput(Result<String, String>),
}

/// What the program is to do next.
pub enum Action {
    /// Begin to write the input to the child, without waiting for the
    /// write to end, and close the child's input when it has ended; report
    /// `InputUnavailable` where the child has no stream for it. Then wait
    /// as for `AwaitFed`.
    Feed { millis: u64 },
    /// Wait for the write to end, but no longer than so many milliseconds.
    /// Report `Fed` where it has ended, else read the clock and report
    /// `Clock`.
    AwaitFed { millis: u64 },
    /// Read the clock, then report `Clock`.
    ReadClock,
    /// Poll the child without waiting, then report `Polled`.
    Poll,
    /// Sleep for so many milliseconds, then read the clock and report `Clock`.
    Sleep { millis: u64 },
    /// Read the standard output of the child to its end, then report `Output`.
    ReadOutput,
    /// Read the error output of the child to its end, then report `ErrorOutput`.
    ReadErrorOutput,
    /// Kill the child, then return the error.
    Kill { error: String },
    /// Return the result.
    Finish(Result<String, String>),
}

/// What an action says, with its texts as values.
pub enum ActionView {
    Feed { millis: u64 },
    AwaitFed { millis: u64 },
    ReadClock,
    Poll,
    Sleep { millis: u64 },
    ReadOutput,
    ReadErrorOutput,
    Kill { error: Seq<char> },
    Finish(Result<Seq<char>, Seq<char>>),
}

impl View for Action {
    type V = ActionView;

    open spec fn view(&self) -> ActionView {
        match *self {
            Action::Feed { millis } => ActionView::Feed { millis },
            Action::AwaitFed { millis } => ActionView::AwaitFed { millis },
            Action::ReadClock => ActionView::ReadClock,
            Action::Poll => ActionView::Poll,
            Action::Sleep { millis } => ActionView::Sleep { millis },
            Action::ReadOutput => ActionView::ReadOutput,
            Action::ReadErrorOutput => ActionView::ReadErrorOutput,
            Action::Kill { error } => ActionView::Kill { error: error@ },
            Action::Finish(Ok(s)) => ActionView::Finish(Ok(s@)),
            Action::Finish(Err(e)) => ActionView::Finish(Err(e@)),
        }
    }
}

/// The error for an event that does not answer the last action.
pub open spec fn out_of_turn() -> Seq<char> {
    "Process error: event out of turn"@
}

/// The next phase and the action for `event` in the phase `phase`, for a
/// run with input or without, limited to `timeout_nanos`, which is
/// written `shown`.
pub open spec fn transition(
    phase: Phase,
    has_input: bool,
    timeout_nanos: u128,
    shown: Seq<char>,
    event: Event,
) -> (Phase, ActionView) {
    match (phase, event) {
        (Phase::Spawning, Event::Spawned(Ok(_))) => if has_input {
            (Phase::Feeding, ActionView::Feed { millis: POLL_MILLIS })
        } else {
            (Phase::Watching, ActionView::ReadClock)
        },
        (Phase::Spawning, Event::Spawned(Err(e))) => (
            Phase::Done,
            ActionView::Finish(Err("Failed to spawn process: "@ + e@)),
        ),
        (Phase::Feeding, Event::Fed(Ok(_))) => (Phase::Watching, ActionView::ReadClock),
        (Phase::Feeding, Event::Fed(Err(e))) => (
            Phase::Done,
            ActionView::Finish(Err("Stdin write failed: "@ + e@)),
        ),
        (Phase::Feeding, Event::InputUnavailable) => (
            Phase::Done,
            ActionView::Finish(Err("No stdin available"@)),
        ),
        (Phase::Feeding, Event::Clock { elapsed_nanos }) => if elapsed_nanos > timeout_nanos {
            (Phase::Done, ActionView::Kill { error: "Timeout after "@ + shown })
        } else {
            (Phase::Feeding, ActionView::AwaitFed { millis: POLL_MILLIS })
        },
        (Phase::Watching, Event::Clock { elapsed_nanos }) => if elapsed_nanos > timeout_nanos {
            (Phase::Done, ActionView::Kill { error: "Timeout after "@ + shown })
        } else {
            (Phase::Polling, ActionView::Poll)
        },
        (Phase::Polling, Event::Polled(Ok(None))) => (
            Phase::Watching,
            ActionView::Sleep { millis: POLL_MILLIS },
        ),
        (Phase::Polling, Event::Polled(Ok(Some(success)))) => (
            Phase::Reading { success },
            ActionView::ReadOutput,
        ),
        (Phase::Polling, Event::Polled(Err(e))) => (
            Phase::Done,
            ActionView::Finish(Err("Process error: "@ + e@)),
        ),
        (Phase::Reading { success }, Event::Output(Ok(out))) => if success {
            (Phase::Done, ActionView::Finish(Ok(out@)))
        } else {
            (Phase::ReadingError, ActionView::ReadErrorOutput)
        },
        (Phase::Reading { success }, Event::Output(Err(e))) => (
            Phase::Done,
            ActionView::Finish(Err("Output read failed: "@ + e@)),
        ),
        (Phase::ReadingError, Event::ErrorOutput(Ok(text))) => (
            Phase::Done,
            ActionView::Finish(Err("Process failed: "@ + text@)),
        ),
        (Phase::ReadingError, Event::ErrorOutput(Err(e))) => (
            Phase::Done,
            ActionView::Finish(Err("Error read failed: "@ + e@)),
        ),
        _ => (Phase::Done, ActionView::Finish(Err(out_of_turn()))),
    }
}

/// The supervisor of one run of an external command.
pub struct Supervisor {
    phase: Phase,
    has_input: bool,
    timeout_nanos: u128,
    shown: String,
}

/// `prefix` followed by `text`.
fn message(prefix: &str, text: &str) -> (r: String)
    ensures
        r@ == prefix@ + text@,
{
    let mut m = chars_of(prefix);
    push_str(&mut m, text);
    string_of(&m)
}

impl Supervisor {
    /// The phase of the run.
    pub closed spec fn phase(&self) -> Phase {
        self.phase
    }

    /// Whether the child is given input.
    pub closed spec fn has_input(&self) -> bool {
        self.has_input
    }

    /// The time limit in nanoseconds.
    pub closed spec fn timeout_nanos(&self) -> u128 {
        self.timeout_nanos
    }

    /// The time limit as the error for a timeout shows it.
    pub closed spec fn shown(&self) -> Seq<char> {
        self.shown@
    }

    /// The supervisor of a run that has not begun: with input for the child
    /// or without, and limited to `timeout_nanos`, which the error for a
    /// timeout shows as `shown`.
    pub fn new(has_input: bool, timeout_nanos: u128, shown: String) -> (s: Self)
        ensures
            s.phase() == Phase::Spawning,
            s.has_input() == has_input,
            s.timeout_nanos() == timeout_nanos,
            s.shown() == shown@,
    {
        Supervisor { phase: Phase::Spawning, has_input, timeout_nanos, shown }
    }

    /// Whether the run is over.
    pub fn is_done(&self) -> (r: bool)
        ensures
            r == (self.phase() == Phase::Done),
    {
        match self.phase {
            Phase::Done => true,
            _ => false,
        }
    }

    /// Takes what the program observed and returns what it is to do next.
    pub fn advance(&mut self, event: Event) -> (action: Action)
        ensures
            final(self).has_input() == old(self).has_input(),
            final(self).timeout_nanos() == old(self).timeout_nanos(),
            final(self).shown() == old(self).shown(),
            (final(self).phase(), action@) == transition(
                old(self).phase(),
                old(self).has_input(),
                old(self).timeout_nanos(),
                old(self).shown(),
                event,
            ),
    {
        let phase = self.phase;
        self.phase = Phase::Done;
        match (phase, event) {
            (Phase::Spawning, Event::Spawned(Ok(_))) => {
                if self.has_input {
                    self.phase = Phase::Feeding;
                    Action::Feed { millis: POLL_MILLIS }
                } else {
                    self.phase = Phase::Watching;
                    Action::ReadClock
                }
            },
            (Phase::Spawning, Event::Spawned(Err(e))) => Action::Finish(
                Err(message("Failed to spawn process: ", e.as_str())),
            ),
            (Phase::Feeding, Event::Fed(Ok(_))) => {
                self.phase = Phase::Watching;
                Action::ReadClock
            },
            (Phase::Feeding, Event::Fed(Err(e))) => Action::Finish(
                Err(message("Stdin write failed: ", e.as_str())),
            ),
            (Phase::Feeding, Event::InputUnavailable) => Action::Finish(
                Err("No stdin available".to_owned()),
            ),
            (Phase::Feeding, Event::Clock { elapsed_nanos }) => {
                if elapsed_nanos > self.timeout_nanos {
                    Action::Kill { error: message("Timeout after ", self.shown.as_str()) }
                } else {
                    self.phase = Phase::Feeding;
                    Action::AwaitFed { millis: POLL_MILLIS }
                }
            },
            (Phase::Watching, Event::Clock { elapsed_nanos }) => {
                if elapsed_nanos > self.timeout_nanos {
                    Action::Kill { error: message("Timeout after ", self.shown.as_str()) }
                } else {
                    self.phase = Phase::Polling;
                    Action::Poll
                }
            },
            (Phase::Polling, Event::Polled(Ok(None))) => {
                self.phase = Phase::Watching;
                Action::Sleep { millis: POLL_MILLIS }
            },
            (Phase::Polling, Event::Polled(Ok(Some(success)))) => {
                self.phase = Phase::Reading { success };
                Action::ReadOutput
            },
            (Phase::Polling, Event::Polled(Err(e))) => Action::Finish(
                Err(message("Process error: ", e.as_str())),
            ),
            (Phase::Reading { success }, Event::Output(Ok(out))) => {
                if success {
                    Action::Finish(Ok(out))
                } else {
                    self.phase = Phase::ReadingError;
                    Action::ReadErrorOutput
                }
            },
            (Phase::Reading { success }, Event::Output(Err(e))) => Action::Finish(
                Err(message("Output read failed: ", e.as_str())),
            ),
            (Phase::ReadingError, Event::ErrorOutput(Ok(text))) => Action::Finish(
                Err(message("Process failed: ", text.as_str())),
            ),
            (Phase::ReadingError, Event::ErrorOutput(Err(e))) => Action::Finish(
                Err(message("Error read failed: ", e.as_str())),
            ),
            _ => Action::Finish(Err("Process error: event out of turn".to_owned())),
        }
    }
}

/// The child is killed only when the clock shows that the limit has
/// passed, while its input is written or while it is watched, and the run
/// is over then: no kill follows another, and nothing is asked of the child
/// after it.
pub proof fn kill_ends_the_run(
    phase: Phase,
    has_input: bool,
    timeout_nanos: u128,
    shown: Seq<char>,
    event: Event,
)
    ensures
        transition(phase, has_input, timeout_nanos, shown, event).1 is Kill ==> {
            &&& phase == Phase::Feeding || phase == Phase::Watching
            &&& transition(phase, has_input, timeout_nanos, shown, event).0 == Phase::Done
            &&& match event {
                Event::Clock { elapsed_nanos } => elapsed_nanos > timeout_nanos,
                _ => false,
            }
            &&& transition(phase, has_input, timeout_nanos, shown, event).1
                == (ActionView::Kill { error: "Timeout after "@ + shown })
        },
{
}

/// The limit bounds the whole run: wherever the program waits for the
/// child, writing its input or watching it, a clock past the limit is
/// answered by killing the child with the timeout error, and a clock
/// within the limit by a wait of one pause at most.
pub proof fn limit_is_enforced(
    phase: Phase,
    has_input: bool,
    timeout_nanos: u128,
    shown: Seq<char>,
    elapsed_nanos: u128,
)
    requires
        phase == Phase::Feeding || phase == Phase::Watching,
    ensures
        elapsed_nanos > timeout_nanos ==> transition(
            phase,
            has_input,
            timeout_nanos,
            shown,
            Event::Clock { elapsed_nanos },
        ) == (Phase::Done, ActionView::Kill { error: "Timeout after "@ + shown }),
        elapsed_nanos <= timeout_nanos && phase == Phase::Feeding ==> transition(
            phase,
            has_input,
            timeout_nanos,
            shown,
            Event::Clock { elapsed_nanos },
        ) == (Phase::Feeding, ActionView::AwaitFed { millis: POLL_MILLIS }),
        elapsed_nanos <= timeout_nanos && phase == Phase::Watching ==> transition(
            phase,
            has_input,
            timeout_nanos,
            shown,
            Event::Clock { elapsed_nanos },
        ) == (Phase::Polling, ActionView::Poll),
{
}

/// The program is never asked to wait longer than one pause.
pub proof fn waits_are_one_pause(
    phase: Phase,
    has_input: bool,
    timeout_nanos: u128,
    shown: Seq<char>,
    event: Event,
)
    ensures
        match transition(phase, has_input, timeout_nanos, shown, event).1 {
            ActionView::Feed { millis } => millis == POLL_MILLIS,
            ActionView::AwaitFed { millis } => millis == POLL_MILLIS,
            ActionView::Sleep { millis } => millis == POLL_MILLIS,
            _ => true,
        },
{
}

/// A run that is over stays over: every further event is answered with an
/// error and no action on the child.
pub proof fn done_stays_done(has_input: bool, timeout_nanos: u128, shown: Seq<char>, event: Event)
    ensures
        transition(Phase::Done, has_input, timeout_nanos, shown, event) == (
            Phase::Done,
            ActionView::Finish(Err(out_of_turn())),
        ),
{
}

/// The run is over exactly when the action is to kill the child or to
/// return the result.
pub proof fn run_ends_with_a_result(
    phase: Phase,
    has_input: bool,
    timeout_nanos: u128,
    shown: Seq<char>,
    event: Event,
)
    ensures
        (transition(phase, has_input, timeout_nanos, shown, event).0 == Phase::Done) <==> (
        transition(phase, has_input, timeout_nanos, shown, event).1 is Kill || transition(
            phase,
            has_input,
            timeout_nanos,
            shown,
            event,
        ).1 is Finish),
{
}

/// Success is returned only for a child that exited with success, and is
/// then its standard output.
pub proof fn success_is_the_output(
    phase: Phase,
    has_input: bool,
    timeout_nanos: u128,
    shown: Seq<char>,
    event: Event,
)
    ensures
        match transition(phase, has_input, timeout_nanos, shown, event).1 {
            ActionView::Finish(Ok(out)) => {
                &&& phase == (Phase::Reading { success: true })
                &&& match event {
                    Event::Output(Ok(text)) => text@ == out,
                    _ => false,
                }
            },
            _ => true,
        },
{
}

} // verus!
