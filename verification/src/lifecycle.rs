//! The shutdown discipline as a state machine: which event moves the
//! process to which phase, and what the caller has to do on the way.

use vstd::prelude::*;

verus! {

/// Where the process stands between start and exit.
#[derive(Clone, Copy, PartialEq, Eq, Structural, Debug)]
pub enum Phase {
    /// The audio connection is being opened; nothing runs yet.
    Starting,
    /// Capture, spectral stage and repaints are at work.
    Running,
    /// The running flag is down; work in flight is finishing.
    ShuttingDown,
    /// The audio connection is closed. Terminal.
    Stopped,
}

/// What can happen to the process.
#[derive(Clone, Copy, PartialEq, Eq, Structural, Debug)]
pub enum Event {
    /// The audio connection was opened and activated.
    Activated,
    /// An interrupt signal arrived.
    Interrupt,
    /// The user interface announced its shutdown.
    UiShutdown,
    /// The repaint scheduling and the background loop have seen the
    /// lowered flag and declined to go on.
    LoopsQuiet,
}

/// What the caller must do after a step.
#[derive(Clone, Copy, PartialEq, Eq, Structural, Debug)]
pub enum Action {
    /// Nothing.
    Nothing,
    /// Set the running flag to false.
    LowerFlag,
    /// Close the audio connection.
    CloseAudio,
}

/// The transition table.
pub open spec fn next(phase: Phase, event: Event) -> (Phase, Action) {
    match (phase, event) {
        (Phase::Starting, Event::Activated) => (Phase::Running, Action::Nothing),
        (Phase::Running, Event::Interrupt) => (Phase::ShuttingDown, Action::LowerFlag),
        (Phase::Running, Event::UiShutdown) => (Phase::ShuttingDown, Action::LowerFlag),
        (Phase::ShuttingDown, Event::LoopsQuiet) => (Phase::Stopped, Action::CloseAudio),
        _ => (phase, Action::Nothing),
    }
}

/// The value of the running flag in a phase.
pub open spec fn flag_up(phase: Phase) -> bool {
    phase == Phase::Starting || phase == Phase::Running
}

/// The phase reached from `phase` after all of `events`, in order.
pub open spec fn phase_after(phase: Phase, events: Seq<Event>) -> Phase
    decreases events.len(),
{
    if events.len() == 0 {
        phase
    } else {
        phase_after(next(phase, events[0]).0, events.drop_first())
    }
}

/// How often `action` is asked for while `events` are handled from
/// `phase` on.
pub open spec fn times_asked(phase: Phase, events: Seq<Event>, action: Action) -> nat
    decreases events.len(),
{
    if events.len() == 0 {
        0
    } else {
        let (then, asked) = next(phase, events[0]);
        let here: nat = if asked == action {
            1
        } else {
            0
        };
        here + times_asked(then, events.drop_first(), action)
    }
}

/// Position of a phase on the way from start to exit.
pub open spec fn rank(phase: Phase) -> nat {
    match phase {
        Phase::Starting => 0,
        Phase::Running => 1,
        Phase::ShuttingDown => 2,
        Phase::Stopped => 3,
    }
}

/// Handles one event: the phase that follows and the action it asks for.
pub fn step(phase: Phase, event: Event) -> (out: (Phase, Action))
    ensures
        out == next(phase, event),
{
    match phase {
        Phase::Starting => match event {
            Event::Activated => (Phase::Running, Action::Nothing),
            _ => (phase, Action::Nothing),
        },
        Phase::Running => match event {
            Event::Interrupt => (Phase::ShuttingDown, Action::LowerFlag),
            Event::UiShutdown => (Phase::ShuttingDown, Action::LowerFlag),
            _ => (phase, Action::Nothing),
        },
        Phase::ShuttingDown => match event {
            Event::LoopsQuiet => (Phase::Stopped, Action::CloseAudio),
            _ => (phase, Action::Nothing),
        },
        Phase::Stopped => (phase, Action::Nothing),
    }
}

/// Whether work may still be scheduled in `phase`: the running flag.
pub fn running(phase: Phase) -> (up: bool)
    ensures
        up == flag_up(phase),
{
    match phase {
        Phase::Starting => true,
        Phase::Running => true,
        _ => false,
    }
}

/// A step never goes back, the flag is lowered only while it is up, and
/// the audio connection is closed only once the flag is down and only on
/// the step that ends in the terminal phase.
pub proof fn lemma_step_order(phase: Phase, event: Event)
    ensures
        rank(next(phase, event).0) >= rank(phase),
        !flag_up(phase) ==> !flag_up(next(phase, event).0),
        next(phase, event).1 == Action::LowerFlag ==> flag_up(phase) && !flag_up(
            next(phase, event).0,
        ),
        next(phase, event).1 == Action::CloseAudio ==> phase == Phase::ShuttingDown && next(
            phase,
            event,
        ).0 == Phase::Stopped,
        phase == Phase::Stopped ==> next(phase, event) == (Phase::Stopped, Action::Nothing),
{
}

/// Whatever events arrive and in whatever order, the flag is lowered at
/// most once and the audio connection is closed at most once; it is closed
/// exactly once when the run starts before and ends in the terminal phase,
/// and then the flag was lowered before, unless it was down already.
pub proof fn lemma_closed_once(phase: Phase, events: Seq<Event>)
    ensures
        times_asked(phase, events, Action::LowerFlag) <= 1,
        times_asked(phase, events, Action::CloseAudio) <= 1,
        !flag_up(phase) ==> times_asked(phase, events, Action::LowerFlag) == 0,
        phase == Phase::Stopped ==> times_asked(phase, events, Action::CloseAudio) == 0,
        (phase != Phase::Stopped && phase_after(phase, events) == Phase::Stopped)
            <==> times_asked(phase, events, Action::CloseAudio) == 1,
        (flag_up(phase) && !flag_up(phase_after(phase, events))) <==> times_asked(
            phase,
            events,
            Action::LowerFlag,
        ) == 1,
        rank(phase_after(phase, events)) >= rank(phase),
    decreases events.len(),
{
    if events.len() > 0 {
        lemma_step_order(phase, events[0]);
        lemma_closed_once(next(phase, events[0]).0, events.drop_first());
    }
}

} // verus!
