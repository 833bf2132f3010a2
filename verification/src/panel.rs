//! A panel of four buttons under the exclusive-select policy.
//!
//! The panel owns the four actuators with their channels. A press puts the
//! commands of the policy into the channels; the actuators take them at
//! their own pace. Whatever the pace, once the channels are empty the
//! actuator of the button pressed last is on and no other.

use vstd::prelude::*;
use crate::actuator::{level_for, Actuator, ActuatorAction, QUIESCENT_MS};
use crate::channel::{ActuatorCommand, CHANNEL_CAPACITY};
use crate::dispatcher::{command_for, exclusive_directives, exclusive_select, Button, Directive};
use crate::level::Level;

verus! {

/// The levels of the four outputs.
#[derive(Clone, Copy, Debug, PartialEq, Eq, Structural)]
pub struct Lights {
    pub p: Level,
    pub n: Level,
    pub r: Level,
    pub d: Level,
}

impl Lights {
    /// The level of the output of `button`.
    pub open spec fn of(self, button: Button) -> Level {
        match button {
            Button::P => self.p,
            Button::N => self.n,
            Button::R => self.r,
            Button::D => self.d,
        }
    }

    /// All outputs low.
    pub open spec fn dark() -> Lights {
        Lights { p: Level::Low, n: Level::Low, r: Level::Low, d: Level::Low }
    }

    /// The output of `button` high, the others low.
    pub open spec fn only(button: Button) -> Lights {
        Lights {
            p: level_for(command_for(Button::P, button)),
            n: level_for(command_for(Button::N, button)),
            r: level_for(command_for(Button::R, button)),
            d: level_for(command_for(Button::D, button)),
        }
    }

    /// The lights for a selection, or for none.
    pub open spec fn showing(selected: Option<Button>) -> Lights {
        match selected {
            Some(button) => Lights::only(button),
            None => Lights::dark(),
        }
    }

    /// These lights once the target of `directive` has taken its command.
    pub open spec fn after(self, directive: Directive) -> Lights {
        let level = level_for(directive.command);
        match directive.target {
            Button::P => Lights { p: level, ..self },
            Button::N => Lights { n: level, ..self },
            Button::R => Lights { r: level, ..self },
            Button::D => Lights { d: level, ..self },
        }
    }

    /// These lights once every directive has been taken, in order.
    pub open spec fn after_all(self, directives: Seq<Directive>) -> Lights
        decreases directives.len(),
    {
        if directives.len() == 0 {
            self
        } else {
            self.after_all(directives.drop_last()).after(directives.last())
        }
    }

    /// These lights once each of `presses` has been dispatched under the
    /// exclusive-select policy and its commands taken, in order.
    pub open spec fn after_presses(self, presses: Seq<Button>) -> Lights
        decreases presses.len(),
    {
        if presses.len() == 0 {
            self
        } else {
            self.after_presses(presses.drop_last()).after_all(exclusive_directives(presses.last()))
        }
    }

    /// The level of the output of `button`.
    pub fn level(&self, button: Button) -> (level: Level)
        ensures
            level == self.of(button),
    {
        match button {
            Button::P => self.p,
            Button::N => self.n,
            Button::R => self.r,
            Button::D => self.d,
        }
    }
}

/// One exclusive selection overrides whatever the lights showed: after its
/// four commands the selected output is high and the others are low.
pub proof fn lemma_selection_overrides(lights: Lights, pressed: Button)
    ensures
        lights.after_all(exclusive_directives(pressed)) == Lights::only(pressed),
{
    let directives = exclusive_directives(pressed);
    let three = directives.drop_last();
    let two = three.drop_last();
    let one = two.drop_last();
    assert(one.drop_last().len() == 0);
    assert(lights.after_all(one.drop_last()) == lights);
    assert(lights.after_all(one) == lights.after(directives[0]));
    assert(lights.after_all(two) == lights.after(directives[0]).after(directives[1]));
    assert(lights.after_all(three) == lights.after(directives[0]).after(directives[1]).after(
        directives[2],
    ));
}

/// Single active selection. After any presses, at least one, the output
/// of the button pressed last is high and every other output is low,
/// whatever the lights showed before.
pub proof fn lemma_single_active_selection(lights: Lights, presses: Seq<Button>)
    requires
        presses.len() > 0,
    ensures
        lights.after_presses(presses) == Lights::only(presses.last()),
        forall|button: Button|
            lights.after_presses(presses).of(button) == Level::High <==> button == presses.last(),
{
    lemma_selection_overrides(lights.after_presses(presses.drop_last()), presses.last());
}

/// Four actuators and the selection that their channels and outputs add
/// up to.
pub struct Panel {
    p: Actuator,
    n: Actuator,
    r: Actuator,
    d: Actuator,
    selected: Option<Button>,
}

impl Panel {
    /// The actuator of `button`.
    pub closed spec fn actuator(self, button: Button) -> Actuator {
        match button {
            Button::P => self.p,
            Button::N => self.n,
            Button::R => self.r,
            Button::D => self.d,
        }
    }

    /// The button pressed last, if any was.
    pub closed spec fn selected(self) -> Option<Button> {
        self.selected
    }

    /// The commands that wait for the actuator of `button`.
    pub open spec fn pending(self, button: Button) -> Seq<ActuatorCommand> {
        self.actuator(button).pending()
    }

    /// The outputs as they stand.
    pub open spec fn lights(self) -> Lights {
        Lights {
            p: self.actuator(Button::P).output(),
            n: self.actuator(Button::N).output(),
            r: self.actuator(Button::R).output(),
            d: self.actuator(Button::D).output(),
        }
    }

    /// The outputs as they will stand once every waiting command is taken.
    pub open spec fn settled_lights(self) -> Lights {
        Lights {
            p: self.actuator(Button::P).settled_level(),
            n: self.actuator(Button::N).settled_level(),
            r: self.actuator(Button::R).settled_level(),
            d: self.actuator(Button::D).settled_level(),
        }
    }

    /// No command waits in any channel.
    pub open spec fn quiescent(self) -> bool {
        forall|button: Button| self.pending(button).len() == 0
    }

    /// Every channel has room for one more command.
    pub open spec fn has_room(self) -> bool {
        forall|button: Button| self.pending(button).len() < CHANNEL_CAPACITY
    }

    /// No channel holds more than its capacity, and what the channels and
    /// outputs add up to is the selection: the selected output alone high,
    /// or all low before the first press.
    pub open spec fn wf(self) -> bool {
        &&& forall|button: Button| self.actuator(button).wf()
        &&& self.settled_lights() == Lights::showing(self.selected())
    }

    /// A panel before the first press: nothing selected, every channel
    /// empty, every output low.
    pub fn new() -> (panel: Panel)
        ensures
            panel.wf(),
            panel.selected() == None::<Button>,
            panel.quiescent(),
            panel.lights() == Lights::dark(),
    {
        Panel {
            p: Actuator::new(),
            n: Actuator::new(),
            r: Actuator::new(),
            d: Actuator::new(),
            selected: None,
        }
    }

    /// The button pressed last, if any was.
    pub fn selection(&self) -> (selected: Option<Button>)
        ensures
            selected == self.selected(),
    {
        self.selected
    }

    /// The outputs as they stand.
    pub fn snapshot(&self) -> (lights: Lights)
        ensures
            lights == self.lights(),
    {
        Lights { p: self.p.level(), n: self.n.level(), r: self.r.level(), d: self.d.level() }
    }

    /// The number of commands that wait for the actuator of `button`.
    pub fn backlog(&self, button: Button) -> (count: usize)
        ensures
            count == self.pending(button).len(),
    {
        match button {
            Button::P => self.p.backlog(),
            Button::N => self.n.backlog(),
            Button::R => self.r.backlog(),
            Button::D => self.d.backlog(),
        }
    }

    /// Tells whether no command waits in any channel.
    pub fn is_quiescent(&self) -> (quiescent: bool)
        ensures
            quiescent == self.quiescent(),
    {
        let quiescent = self.p.backlog() == 0 && self.n.backlog() == 0 && self.r.backlog() == 0
            && self.d.backlog() == 0;
        proof {
            if quiescent {
                assert forall|button: Button| self.pending(button).len() == 0 by {
                    match button {
                        Button::P => {},
                        Button::N => {},
                        Button::R => {},
                        Button::D => {},
                    }
                }
            } else {
                assert(self.pending(Button::P).len() != 0 || self.pending(Button::N).len() != 0
                    || self.pending(Button::R).len() != 0 || self.pending(Button::D).len() != 0);
            }
        }
        quiescent
    }

    /// Tells whether every channel has room for one more command.
    pub fn can_press(&self) -> (room: bool)
        ensures
            room == self.has_room(),
    {
        let room = self.p.backlog() < CHANNEL_CAPACITY && self.n.backlog() < CHANNEL_CAPACITY
            && self.r.backlog() < CHANNEL_CAPACITY && self.d.backlog() < CHANNEL_CAPACITY;
        proof {
            if room {
                assert forall|button: Button| self.pending(button).len() < CHANNEL_CAPACITY by {
                    match button {
                        Button::P => {},
                        Button::N => {},
                        Button::R => {},
                        Button::D => {},
                    }
                }
            } else {
                assert(!(self.pending(Button::P).len() < CHANNEL_CAPACITY) || !(self.pending(
                    Button::N,
                ).len() < CHANNEL_CAPACITY) || !(self.pending(Button::R).len() < CHANNEL_CAPACITY)
                    || !(self.pending(Button::D).len() < CHANNEL_CAPACITY));
            }
        }
        room
    }

    /// Puts one command into the channel of its target, without waiting.
    /// The result says whether the channel took it.
    pub fn deliver(&mut self, directive: Directive) -> (accepted: bool)
        ensures
            accepted == (old(self).pending(directive.target).len() < CHANNEL_CAPACITY),
            accepted ==> final(self).pending(directive.target) == old(self).pending(
                directive.target,
            ).push(directive.command),
            !accepted ==> final(self).pending(directive.target) == old(self).pending(
                directive.target,
            ),
            forall|button: Button|
                button != directive.target ==> final(self).actuator(button) == old(self).actuator(
                    button,
                ),
            forall|button: Button|
                old(self).actuator(button).wf() ==> final(self).actuator(button).wf(),
            final(self).lights() == old(self).lights(),
            final(self).selected() == old(self).selected(),
    {
        match directive.target {
            Button::P => self.p.post(directive.command),
            Button::N => self.n.post(directive.command),
            Button::R => self.r.post(directive.command),
            Button::D => self.d.post(directive.command),
        }
    }

    /// A press of `button`, dispatched under the exclusive-select policy.
    /// With room in every channel the four commands are queued and
    /// `button` is the selection. With any channel full the press is not
    /// taken and nothing changes: the caller lets the actuators run and
    /// presses again.
    pub fn press(&mut self, button: Button) -> (accepted: bool)
        requires
            old(self).wf(),
        ensures
            final(self).wf(),
            accepted == old(self).has_room(),
            final(self).lights() == old(self).lights(),
            accepted ==> final(self).selected() == Some(button),
            accepted ==> forall|target: Button|
                final(self).pending(target) == old(self).pending(target).push(
                    command_for(target, button),
                ),
            accepted ==> final(self).settled_lights() == old(self).settled_lights().after_all(
                exclusive_directives(button),
            ),
            accepted ==> final(self).settled_lights() == Lights::only(button),
            !accepted ==> final(self).selected() == old(self).selected(),
            !accepted ==> forall|target: Button|
                final(self).pending(target) == old(self).pending(target),
    {
        if !self.can_press() {
            return false;
        }
        let directives = exclusive_select(button);
        assert(old(self).pending(Button::P).len() < CHANNEL_CAPACITY);
        assert(old(self).pending(Button::N).len() < CHANNEL_CAPACITY);
        assert(old(self).pending(Button::R).len() < CHANNEL_CAPACITY);
        assert(old(self).pending(Button::D).len() < CHANNEL_CAPACITY);
        self.deliver(directives[0]);
        self.deliver(directives[1]);
        self.deliver(directives[2]);
        self.deliver(directives[3]);
        self.selected = Some(button);
        proof {
            lemma_selection_overrides(old(self).settled_lights(), button);
            assert forall|target: Button|
                self.pending(target) == old(self).pending(target).push(
                    command_for(target, button),
                ) by {
                match target {
                    Button::P => {},
                    Button::N => {},
                    Button::R => {},
                    Button::D => {},
                }
            }
            assert(self.pending(Button::P).last() == command_for(Button::P, button));
            assert(self.pending(Button::N).last() == command_for(Button::N, button));
            assert(self.pending(Button::R).last() == command_for(Button::R, button));
            assert(self.pending(Button::D).last() == command_for(Button::D, button));
        }
        true
    }

    /// One turn of the actuator task of `button`.
    pub fn service(&mut self, button: Button) -> (action: ActuatorAction)
        requires
            old(self).wf(),
        ensures
            final(self).wf(),
            final(self).selected() == old(self).selected(),
            old(self).pending(button).len() > 0 ==> {
                &&& action == ActuatorAction::Drive(level_for(old(self).pending(button).first()))
                &&& final(self).pending(button) == old(self).pending(button).drop_first()
                &&& final(self).lights() == old(self).lights().after(
                    Directive { target: button, command: old(self).pending(button).first() },
                )
            },
            old(self).pending(button).len() == 0 ==> {
                &&& action == ActuatorAction::Rest { ms: QUIESCENT_MS }
                &&& final(self).pending(button) == old(self).pending(button)
                &&& final(self).lights() == old(self).lights()
            },
            forall|other: Button|
                other != button ==> final(self).actuator(other) == old(self).actuator(other),
    {
        match button {
            Button::P => self.p.poll(),
            Button::N => self.n.poll(),
            Button::R => self.r.poll(),
            Button::D => self.d.poll(),
        }
    }

    /// Lets every actuator run until its channel is empty. The outputs
    /// then show the selection.
    pub fn settle(&mut self)
        requires
            old(self).wf(),
        ensures
            final(self).wf(),
            final(self).quiescent(),
            final(self).selected() == old(self).selected(),
            final(self).lights() == Lights::showing(old(self).selected()),
    {
        assert(self.actuator(Button::P).wf());
        assert(self.actuator(Button::N).wf());
        assert(self.actuator(Button::R).wf());
        assert(self.actuator(Button::D).wf());
        self.p.drain();
        self.n.drain();
        self.r.drain();
        self.d.drain();
        proof {
            assert forall|button: Button| self.pending(button).len() == 0 by {
                match button {
                    Button::P => {},
                    Button::N => {},
                    Button::R => {},
                    Button::D => {},
                }
            }
            assert forall|button: Button| self.actuator(button).wf() by {
                match button {
                    Button::P => {},
                    Button::N => {},
                    Button::R => {},
                    Button::D => {},
                }
            }
        }
    }

    /// Dispatches each of `presses` in turn. Where a channel is full the
    /// actuators run first until there is room, so that no press is lost.
    pub fn press_all(&mut self, presses: &Vec<Button>)
        requires
            old(self).wf(),
        ensures
            final(self).wf(),
            final(self).settled_lights() == old(self).settled_lights().after_presses(presses@),
            final(self).selected() == if presses@.len() > 0 {
                Some(presses@.last())
            } else {
                old(self).selected()
            },
    {
        let mut i: usize = 0;
        while i < presses.len()
            invariant
                i <= presses.len(),
                self.wf(),
                self.settled_lights() == old(self).settled_lights().after_presses(
                    presses@.take(i as int),
                ),
                self.selected() == if i > 0 {
                    Some(presses@[i - 1])
                } else {
                    old(self).selected()
                },
            decreases presses.len() - i,
        {
            proof {
                assert(presses@.take(i + 1).drop_last() =~= presses@.take(i as int));
            }
            if !self.press(presses[i]) {
                let ghost settled = self.settled_lights();
                self.settle();
                assert(self.pending(Button::P).len() == 0);
                assert(self.pending(Button::N).len() == 0);
                assert(self.pending(Button::R).len() == 0);
                assert(self.pending(Button::D).len() == 0);
                assert(self.settled_lights() == settled);
                self.press(presses[i]);
            }
            i += 1;
        }
        proof {
            assert(presses@.take(i as int) =~= presses@);
        }
    }
}

} // verus!
