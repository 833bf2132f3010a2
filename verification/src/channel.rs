//! The bounded command queue between a dispatcher and an actuator.
//!
//! The queue is an `embassy_sync` channel. Nothing of it is proved here:
//! the functions of this file say what its methods do, as its source shows
//! it, and the rest of the crate is proved against what they say.

use vstd::prelude::*;
use embassy_sync::blocking_mutex::raw::NoopRawMutex;
use embassy_sync::channel::Channel;

verus! {

/// The number of commands that a channel holds at most.
pub const CHANNEL_CAPACITY: usize = 64;

/// An instruction for one actuator.
#[derive(Clone, Copy, Debug, PartialEq, Eq, Structural)]
pub enum ActuatorCommand {
    On,
    Off,
}

/// A channel of actuator commands: `embassy_sync::channel::Channel` over
/// `NoopRawMutex`, with room for `CHANNEL_CAPACITY` commands. The channel
/// is held as it is; what it holds is known to the proofs only by the name
/// [`queued`].
#[verifier::external_body]
pub struct CommandChannel {
    inner: Channel<NoopRawMutex, ActuatorCommand, CHANNEL_CAPACITY>,
}

/// The commands that wait in a channel, the oldest first.
pub uninterp spec fn queued(channel: CommandChannel) -> Seq<ActuatorCommand>;

/// `Channel::new`: a channel that holds nothing.
#[verifier::external_body]
pub(crate) fn channel_new() -> (channel: CommandChannel)
    ensures
        queued(channel) == Seq::<ActuatorCommand>::empty(),
{
    CommandChannel { inner: Channel::new() }
}

/// `Channel::len`: the number of commands that wait in the channel.
#[verifier::external_body]
pub(crate) fn channel_len(channel: &CommandChannel) -> (len: usize)
    ensures
        len == queued(*channel).len(),
{
    channel.inner.len()
}

/// `Channel::try_send`: with room left, the command is put behind those
/// that wait and the call succeeds; in a full channel nothing changes and
/// the call fails.
#[verifier::external_body]
pub(crate) fn channel_try_send(channel: &mut CommandChannel, command: ActuatorCommand) -> (sent:
    bool)
    ensures
        sent == (queued(*old(channel)).len() < CHANNEL_CAPACITY),
        sent ==> queued(*final(channel)) == queued(*old(channel)).push(command),
        !sent ==> queued(*final(channel)) == queued(*old(channel)),
{
    channel.inner.try_send(command).is_ok()
}

/// `Channel::try_receive`: the oldest command is taken out and returned;
/// from an empty channel nothing is returned and nothing changes.
#[verifier::external_body]
pub(crate) fn channel_try_receive(channel: &mut CommandChannel) -> (received: Option<
    ActuatorCommand,
>)
    ensures
        received is Some == (queued(*old(channel)).len() > 0),
        received is Some ==> received == Some(queued(*old(channel)).first()) && queued(
            *final(channel),
        ) == queued(*old(channel)).drop_first(),
        received is None ==> queued(*final(channel)) == queued(*old(channel)),
{
    channel.inner.try_receive().ok()
}

} // verus!
