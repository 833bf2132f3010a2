//! The two-sample confirm filter for one input line.
//!
//! A [`Debouncer`] never touches the line and never sleeps. It says what it
//! is waiting for ([`Debouncer::pending`]); the caller does that and hands
//! the answer to [`Debouncer::advance`]. One round is: sample the line, wait
//! for any edge, let the debounce window pass, sample again. A second sample
//! that differs from the first confirms a transition; one that equals it
//! was a bounce, and the next round begins.

use vstd::prelude::*;
use crate::level::Level;

verus! {

/// What a debouncer is waiting for.
#[derive(Clone, Copy, Debug, PartialEq, Eq, Structural)]
pub enum Wait {
    /// A sample of the line's level, taken now.
    Sample,
    /// Any edge on the line, rising or falling.
    Edge,
    /// The passing of the debounce window, in milliseconds.
    Window { ms: u64 },
}

/// What the caller reports to a debouncer.
#[derive(Clone, Copy, Debug, PartialEq, Eq, Structural)]
pub enum Signal {
    /// The line was sampled and had this level.
    Level(Level),
    /// An edge occurred on the line.
    Edge,
    /// The debounce window has passed.
    Elapsed,
}

/// Where a debouncer stands within a round.
#[derive(Clone, Copy, Debug, PartialEq, Eq, Structural)]
pub enum Phase {
    /// The round begins: the first sample is wanted.
    Priming,
    /// The first sample is taken: an edge is awaited.
    Listening { reference: Level },
    /// An edge was seen: the window must pass.
    Settling { reference: Level },
    /// The window has passed: the second sample is wanted.
    Confirming { reference: Level },
}

/// What a debouncer in `phase` waits for, with a window of `window_ms`.
pub open spec fn wait_of(phase: Phase, window_ms: u64) -> Wait {
    match phase {
        Phase::Priming => Wait::Sample,
        Phase::Listening { .. } => Wait::Edge,
        Phase::Settling { .. } => Wait::Window { ms: window_ms },
        Phase::Confirming { .. } => Wait::Sample,
    }
}

/// The phase that follows `phase` on `signal`. A signal that does not
/// answer what the phase waits for leaves the phase as it is.
pub open spec fn next_phase(phase: Phase, signal: Signal) -> Phase {
    match (phase, signal) {
        (Phase::Priming, Signal::Level(level)) => Phase::Listening { reference: level },
        (Phase::Listening { reference }, Signal::Edge) => Phase::Settling { reference },
        (Phase::Settling { reference }, Signal::Elapsed) => Phase::Confirming { reference },
        (Phase::Confirming { .. }, Signal::Level(_)) => Phase::Priming,
        _ => phase,
    }
}

/// The transition that `signal` confirms in `phase`: the second sample of a
/// round, where it differs from the first.
pub open spec fn confirmed_by(phase: Phase, signal: Signal) -> Option<Level> {
    match (phase, signal) {
        (Phase::Confirming { reference }, Signal::Level(level)) => if level != reference {
            Some(level)
        } else {
            None
        },
        _ => None,
    }
}

/// The debounce filter of one input line.
pub struct Debouncer {
    window_ms: u64,
    confirmed: Option<Level>,
    phase: Phase,
}

impl Debouncer {
    /// The debounce window in milliseconds.
    pub closed spec fn window(self) -> u64 {
        self.window_ms
    }

    /// The level that was confirmed last, if any was.
    pub closed spec fn confirmed(self) -> Option<Level> {
        self.confirmed
    }

    /// Where the debouncer stands within its round.
    pub closed spec fn phase(self) -> Phase {
        self.phase
    }

    /// A debouncer at the start of a round, with nothing confirmed yet.
    pub fn new(window_ms: u64) -> (debouncer: Debouncer)
        ensures
            debouncer.window() == window_ms,
            debouncer.confirmed() == None::<Level>,
            debouncer.phase() == Phase::Priming,
    {
        Debouncer { window_ms, confirmed: None, phase: Phase::Priming }
    }

    /// The debounce window in milliseconds.
    pub fn window_ms(&self) -> (ms: u64)
        ensures
            ms == self.window(),
    {
        self.window_ms
    }

    /// The level that was confirmed last, if any was.
    pub fn last_confirmed(&self) -> (level: Option<Level>)
        ensures
            level == self.confirmed(),
    {
        self.confirmed
    }

    /// What the caller has to do next.
    pub fn pending(&self) -> (wait: Wait)
        ensures
            wait == wait_of(self.phase(), self.window()),
    {
        match self.phase {
            Phase::Priming => Wait::Sample,
            Phase::Listening { .. } => Wait::Edge,
            Phase::Settling { .. } => Wait::Window { ms: self.window_ms },
            Phase::Confirming { .. } => Wait::Sample,
        }
    }

    /// Takes the caller's report. The result is the newly confirmed level
    /// where the report completes a round with a genuine transition.
    pub fn advance(&mut self, signal: Signal) -> (report: Option<Level>)
        ensures
            report == confirmed_by(old(self).phase(), signal),
            final(self).phase() == next_phase(old(self).phase(), signal),
            final(self).window() == old(self).window(),
            final(self).confirmed() == if report is Some {
                report
            } else {
                old(self).confirmed()
            },
    {
        match (self.phase, signal) {
            (Phase::Priming, Signal::Level(level)) => {
                self.phase = Phase::Listening { reference: level };
                None
            },
            (Phase::Listening { reference }, Signal::Edge) => {
                self.phase = Phase::Settling { reference };
                None
            },
            (Phase::Settling { reference }, Signal::Elapsed) => {
                self.phase = Phase::Confirming { reference };
                None
            },
            (Phase::Confirming { reference }, Signal::Level(level)) => {
                self.phase = Phase::Priming;
                if level != reference {
                    self.confirmed = Some(level);
                    Some(level)
                } else {
                    None
                }
            },
            _ => None,
        }
    }
}

} // verus!
