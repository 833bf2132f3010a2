//! The policies that turn what a classifier emits into actuator commands.
//!
//! Classification knows nothing of actuators. A policy is the one place
//! where the meaning of a press is decided: which actuator gets which
//! command.

use vstd::prelude::*;
use crate::channel::ActuatorCommand;
use crate::classifier::{event_of, Emission, Marker};

verus! {

/// The buttons of the panel. Each has one actuator of its own.
#[derive(Clone, Copy, Debug, PartialEq, Eq, Structural)]
pub enum Button {
    P,
    N,
    R,
    D,
}

/// The lamps of a single-button device, one for each marker of a press.
#[derive(Clone, Copy, Debug, PartialEq, Eq, Structural)]
pub enum Lamp {
    Blue,
    Green,
    Orange,
    Red,
}

/// A command for the actuator of one button.
#[derive(Clone, Copy, Debug, PartialEq, Eq, Structural)]
pub struct Directive {
    pub target: Button,
    pub command: ActuatorCommand,
}

/// One step of a pulse on a lamp.
#[derive(Clone, Copy, Debug, PartialEq, Eq, Structural)]
pub enum LampStep {
    /// Send the command to the lamp's channel.
    Send { lamp: Lamp, command: ActuatorCommand },
    /// Wait this many milliseconds before the next step.
    Hold { ms: u64 },
}

/// The command that the actuator of `target` gets when `pressed` is
/// selected.
pub open spec fn command_for(target: Button, pressed: Button) -> ActuatorCommand {
    if target == pressed {
        ActuatorCommand::On
    } else {
        ActuatorCommand::Off
    }
}

/// Exclusive selection of `pressed`: one command for each actuator, in the
/// order P, N, R, D; on for the actuator of `pressed`, off for the others.
pub open spec fn exclusive_directives(pressed: Button) -> Seq<Directive> {
    seq![
        Directive { target: Button::P, command: command_for(Button::P, pressed) },
        Directive { target: Button::N, command: command_for(Button::N, pressed) },
        Directive { target: Button::R, command: command_for(Button::R, pressed) },
        Directive { target: Button::D, command: command_for(Button::D, pressed) },
    ]
}

/// The lamp that shows a marker. The release after a long hold shows on
/// no lamp.
pub open spec fn lamp_for(marker: Marker) -> Option<Lamp> {
    match marker {
        Marker::ShortPress => Some(Lamp::Blue),
        Marker::Held => Some(Lamp::Green),
        Marker::MediumPress => Some(Lamp::Orange),
        Marker::LongHeld => Some(Lamp::Red),
        Marker::Released => None,
    }
}

/// A pulse on `lamp`: on, hold, off.
pub open spec fn pulse(lamp: Lamp, hold_ms: u64) -> Seq<LampStep> {
    seq![
        LampStep::Send { lamp, command: ActuatorCommand::On },
        LampStep::Hold { ms: hold_ms },
        LampStep::Send { lamp, command: ActuatorCommand::Off },
    ]
}

fn command_to(target: Button, pressed: Button) -> (command: ActuatorCommand)
    ensures
        command == command_for(target, pressed),
{
    if target == pressed {
        ActuatorCommand::On
    } else {
        ActuatorCommand::Off
    }
}

/// The commands that select `pressed` and no other button.
pub fn exclusive_select(pressed: Button) -> (directives: [Directive; 4])
    ensures
        directives@ == exclusive_directives(pressed),
{
    let directives = [
        Directive { target: Button::P, command: command_to(Button::P, pressed) },
        Directive { target: Button::N, command: command_to(Button::N, pressed) },
        Directive { target: Button::R, command: command_to(Button::R, pressed) },
        Directive { target: Button::D, command: command_to(Button::D, pressed) },
    ];
    assert(directives@ =~= exclusive_directives(pressed));
    directives
}

/// The exclusive-select policy: an emission of `button` that ends a press
/// selects that button, whatever the category of the press; any other
/// emission sends nothing.
pub fn dispatch_exclusive(button: Button, emission: Emission) -> (directives: Option<
    [Directive; 4],
>)
    ensures
        directives is Some == event_of(emission) is Some,
        directives matches Some(directives) ==> directives@ == exclusive_directives(button),
{
    match emission.event() {
        Some(_) => Some(exclusive_select(button)),
        None => None,
    }
}

/// The duration-bucketed policy: each marker pulses the lamp of its own
/// for `pulse_ms` milliseconds; a marker without a lamp does nothing.
pub fn dispatch_bucketed(emission: Emission, pulse_ms: u64) -> (steps: Option<[LampStep; 3]>)
    ensures
        steps is Some == lamp_for(emission.marker) is Some,
        steps matches Some(steps) ==> steps@ == pulse(lamp_for(emission.marker)->0, pulse_ms),
{
    let lamp = match emission.marker {
        Marker::ShortPress => Lamp::Blue,
        Marker::Held => Lamp::Green,
        Marker::MediumPress => Lamp::Orange,
        Marker::LongHeld => Lamp::Red,
        Marker::Released => {
            return None;
        },
    };
    let steps = [
        LampStep::Send { lamp, command: ActuatorCommand::On },
        LampStep::Hold { ms: pulse_ms },
        LampStep::Send { lamp, command: ActuatorCommand::Off },
    ];
    assert(steps@ =~= pulse(lamp, pulse_ms));
    Some(steps)
}

} // verus!
