//! One output device and the channel that feeds it.
//!
//! An actuator task polls its channel without end. A command that waits
//! there is taken and drives the output; with none waiting the task rests
//! for a short fixed time before it looks again.

use vstd::prelude::*;
use crate::channel::{
    channel_len, channel_new, channel_try_receive, channel_try_send, queued, ActuatorCommand,
    CommandChannel, CHANNEL_CAPACITY,
};
use crate::level::Level;

verus! {

/// The time in milliseconds that an actuator task rests when it finds its
/// channel empty.
pub const QUIESCENT_MS: u64 = 250;

/// What an actuator task does after one look at its channel.
#[derive(Clone, Copy, Debug, PartialEq, Eq, Structural)]
pub enum ActuatorAction {
    /// Drive the output to this level.
    Drive(Level),
    /// Leave the output as it is and rest for this many milliseconds.
    Rest { ms: u64 },
}

/// The level that a command drives the output to.
pub open spec fn level_for(command: ActuatorCommand) -> Level {
    match command {
        ActuatorCommand::On => Level::High,
        ActuatorCommand::Off => Level::Low,
    }
}

/// What an actuator task does with what it received, if anything.
pub open spec fn action_for(received: Option<ActuatorCommand>) -> ActuatorAction {
    match received {
        Some(command) => ActuatorAction::Drive(level_for(command)),
        None => ActuatorAction::Rest { ms: QUIESCENT_MS },
    }
}

/// The level of an output that stood at `output` once the actuator has
/// taken all of `commands` in order.
pub open spec fn level_after(output: Level, commands: Seq<ActuatorCommand>) -> Level {
    if commands.len() == 0 {
        output
    } else {
        level_for(commands.last())
    }
}

/// Decides what an actuator task does with what it received from its
/// channel, if anything.
pub fn actuator_step(received: Option<ActuatorCommand>) -> (action: ActuatorAction)
    ensures
        action == action_for(received),
{
    match received {
        Some(ActuatorCommand::On) => ActuatorAction::Drive(Level::High),
        Some(ActuatorCommand::Off) => ActuatorAction::Drive(Level::Low),
        None => ActuatorAction::Rest { ms: QUIESCENT_MS },
    }
}

/// An output with its channel.
pub struct Actuator {
    inbox: CommandChannel,
    output: Level,
}

impl Actuator {
    /// The commands that wait in the channel, the oldest first.
    pub closed spec fn pending(self) -> Seq<ActuatorCommand> {
        queued(self.inbox)
    }

    /// The level of the output.
    pub closed spec fn output(self) -> Level {
        self.output
    }

    /// The channel holds no more than its capacity.
    pub open spec fn wf(self) -> bool {
        self.pending().len() <= CHANNEL_CAPACITY
    }

    /// The level on which the output comes to rest once all waiting
    /// commands are taken.
    pub open spec fn settled_level(self) -> Level {
        level_after(self.output(), self.pending())
    }

    /// An actuator with an empty channel and its output low.
    pub fn new() -> (actuator: Actuator)
        ensures
            actuator.wf(),
            actuator.pending() == Seq::<ActuatorCommand>::empty(),
            actuator.output() == Level::Low,
    {
        Actuator { inbox: channel_new(), output: Level::Low }
    }

    /// The level of the output.
    pub fn level(&self) -> (level: Level)
        ensures
            level == self.output(),
    {
        self.output
    }

    /// The number of commands that wait in the channel.
    pub fn backlog(&self) -> (count: usize)
        ensures
            count == self.pending().len(),
    {
        channel_len(&self.inbox)
    }

    /// Puts a command into the channel without waiting. A full channel
    /// takes nothing: the result is `false` and the sender has to come
    /// back once the actuator has made room.
    pub fn post(&mut self, command: ActuatorCommand) -> (accepted: bool)
        ensures
            accepted == (old(self).pending().len() < CHANNEL_CAPACITY),
            accepted ==> final(self).pending() == old(self).pending().push(command),
            !accepted ==> final(self).pending() == old(self).pending(),
            final(self).output() == old(self).output(),
            old(self).wf() ==> final(self).wf(),
    {
        channel_try_send(&mut self.inbox, command)
    }

    /// One turn of the actuator task: takes the oldest waiting command, if
    /// there is one, and drives the output as it says. The result is what
    /// the task does to the device.
    pub fn poll(&mut self) -> (action: ActuatorAction)
        ensures
            action == action_for(
                if old(self).pending().len() > 0 {
                    Some(old(self).pending().first())
                } else {
                    None
                },
            ),
            final(self).pending() == if old(self).pending().len() > 0 {
                old(self).pending().drop_first()
            } else {
                old(self).pending()
            },
            final(self).output() == match action {
                ActuatorAction::Drive(level) => level,
                ActuatorAction::Rest { .. } => old(self).output(),
            },
            final(self).settled_level() == old(self).settled_level(),
            old(self).wf() ==> final(self).wf(),
    {
        let received = channel_try_receive(&mut self.inbox);
        let action = actuator_step(received);
        match action {
            ActuatorAction::Drive(level) => {
                self.output = level;
            },
            ActuatorAction::Rest { .. } => {},
        }
        action
    }

    /// Polls until the channel is empty and returns the number of commands
    /// taken. The output then stands where the last of them put it.
    pub fn drain(&mut self) -> (taken: usize)
        requires
            old(self).wf(),
        ensures
            final(self).wf(),
            taken == old(self).pending().len(),
            final(self).pending() == Seq::<ActuatorCommand>::empty(),
            final(self).output() == old(self).settled_level(),
    {
        let mut taken: usize = 0;
        loop
            invariant
                self.wf(),
                taken + self.pending().len() == old(self).pending().len(),
                old(self).pending().len() <= CHANNEL_CAPACITY,
                self.settled_level() == old(self).settled_level(),
            ensures
                self.wf(),
                taken == old(self).pending().len(),
                self.pending().len() == 0,
                self.output() == old(self).settled_level(),
            decreases self.pending().len(),
        {
            match self.poll() {
                ActuatorAction::Drive(_) => {
                    taken += 1;
                },
                ActuatorAction::Rest { .. } => {
                    break ;
                },
            }
        }
        assert(self.pending() =~= Seq::<ActuatorCommand>::empty());
        taken
    }
}

} // verus!
