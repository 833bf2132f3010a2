//! The task of one button: a debouncer and a classifier behind one agenda.
//!
//! At any time the task has one wait outstanding, the one its debouncer
//! asks for. While a press lasts the classifier puts a deadline on it. The
//! caller performs the wait for no longer than until the deadline and
//! reports whichever came first. An expired deadline is reported with
//! [`ButtonTask::on_deadline`], which leaves the wait as it stands: the
//! caller goes on with the same wait, not with a new one.

use vstd::prelude::*;
use crate::classifier::{
    deadline_of, emitted, next_stage, Emission, Input, PressClassifier, Stage,
};
use crate::debouncer::{confirmed_by, next_phase, wait_of, Debouncer, Phase, Signal, Wait};
use crate::level::Level;

verus! {

/// What a button task waits for, and until when at most.
#[derive(Clone, Copy, Debug, PartialEq, Eq, Structural)]
pub struct Agenda {
    /// The wait that is outstanding.
    pub wait: Wait,
    /// The instant at which the caller stops listening to the wait and
    /// reports the deadline instead, if there is one.
    pub deadline: Option<u64>,
}

/// The debouncer and the classifier of one button.
pub struct ButtonTask {
    debouncer: Debouncer,
    classifier: PressClassifier,
}

impl ButtonTask {
    /// Where the debouncer stands within its round.
    pub closed spec fn phase(self) -> Phase {
        self.debouncer.phase()
    }

    /// The debounce window in milliseconds.
    pub closed spec fn window(self) -> u64 {
        self.debouncer.window()
    }

    /// The level that was confirmed last, if any was.
    pub closed spec fn confirmed(self) -> Option<Level> {
        self.debouncer.confirmed()
    }

    /// Where the classifier stands within a press.
    pub closed spec fn stage(self) -> Stage {
        self.classifier.stage()
    }

    /// A task at the start of a round, with no press under way.
    pub fn new(window_ms: u64) -> (task: ButtonTask)
        ensures
            task.phase() == Phase::Priming,
            task.window() == window_ms,
            task.confirmed() == None::<Level>,
            task.stage() == Stage::Idle,
    {
        ButtonTask { debouncer: Debouncer::new(window_ms), classifier: PressClassifier::new() }
    }

    /// What the caller has to wait for next, and until when at most.
    pub fn agenda(&self) -> (agenda: Agenda)
        ensures
            agenda.wait == wait_of(self.phase(), self.window()),
            agenda.deadline == deadline_of(self.stage()),
    {
        Agenda { wait: self.debouncer.pending(), deadline: self.classifier.deadline() }
    }

    /// Tells whether no press is under way.
    pub fn is_idle(&self) -> (idle: bool)
        ensures
            idle == (self.stage() is Idle),
    {
        self.classifier.is_idle()
    }

    /// The level that was confirmed last, if any was.
    pub fn last_confirmed(&self) -> (level: Option<Level>)
        ensures
            level == self.confirmed(),
    {
        self.debouncer.last_confirmed()
    }

    /// Takes the answer to the outstanding wait, read at instant `now`. The
    /// debouncer moves on; where the answer confirms a transition, the
    /// classifier takes it as the press or the release that it is.
    pub fn on_signal(&mut self, signal: Signal, now: u64) -> (emission: Option<Emission>)
        ensures
            final(self).phase() == next_phase(old(self).phase(), signal),
            final(self).window() == old(self).window(),
            final(self).confirmed() == match confirmed_by(old(self).phase(), signal) {
                Some(level) => Some(level),
                None => old(self).confirmed(),
            },
            final(self).stage() == match confirmed_by(old(self).phase(), signal) {
                Some(_) => next_stage(old(self).stage(), Input::Transition { now }),
                None => old(self).stage(),
            },
            emission == match confirmed_by(old(self).phase(), signal) {
                Some(_) => emitted(old(self).stage(), Input::Transition { now }),
                None => None,
            },
    {
        match self.debouncer.advance(signal) {
            Some(_) => self.classifier.on_transition(now),
            None => None,
        }
    }

    /// Takes the expiry of the deadline. The classifier moves one step up
    /// the cascade. The debouncer is not touched: the wait that was
    /// outstanding is outstanding still.
    pub fn on_deadline(&mut self) -> (emission: Option<Emission>)
        ensures
            final(self).phase() == old(self).phase(),
            final(self).window() == old(self).window(),
            final(self).confirmed() == old(self).confirmed(),
            final(self).stage() == next_stage(old(self).stage(), Input::Deadline),
            emission == emitted(old(self).stage(), Input::Deadline),
    {
        self.classifier.on_deadline()
    }
}

} // verus!
