//! The channel registry as the transport layer reads it: for each channel,
//! identified by its index, the guarantees its messages need.
use vstd::prelude::*;

verus! {

/// Reliability and ordering guarantees of a channel.
#[derive(Clone, Copy, Debug, PartialEq, Eq, Structural)]
pub enum MessageConsistency {
    /// Lost messages are not resent, and arrive in any order.
    UnreliableUnordered,
    /// Lost messages are not resent, and older messages are discarded.
    UnreliableSequenced,
    /// Lost messages are resent, and arrive in any order.
    ReliableUnordered,
    /// Lost messages are resent, and arrive in the order they were sent.
    ReliableOrdered,
}

/// Whether the consistency places an ordering constraint on messages.
pub open spec fn consistency_ordered(c: MessageConsistency) -> bool {
    c == MessageConsistency::UnreliableSequenced || c == MessageConsistency::ReliableOrdered
}

impl MessageConsistency {
    /// Returns `true` if messages in this channel have any ordering constraints applied.
    pub fn is_ordered(&self) -> (r: bool)
        ensures
            r == consistency_ordered(*self),
    {
        match self {
            MessageConsistency::UnreliableUnordered => false,
            MessageConsistency::UnreliableSequenced => true,
            MessageConsistency::ReliableUnordered => false,
            MessageConsistency::ReliableOrdered => true,
        }
    }
}

/// Configuration for a channel.
#[derive(Clone, Copy, Debug, PartialEq, Eq, Structural)]
pub struct ChannelConfiguration {
    /// Guarantees the transport layer makes for messages on this channel.
    pub consistency: MessageConsistency,
    /// The priority of messages on this channel.
    pub priority: u32,
}

/// All registered channels; channel `i` is the `i`-th entry.
pub struct ChannelRegistry {
    pub channels: Vec<ChannelConfiguration>,
}

impl ChannelRegistry {
    /// The configuration of `channel`, if it is registered.
    pub open spec fn spec_config(&self, channel: u32) -> Option<ChannelConfiguration> {
        if channel < self.channels@.len() {
            Some(self.channels@[channel as int])
        } else {
            None
        }
    }

    /// Returns the configuration of `channel`, or `None` if no such channel exists.
    pub fn config(&self, channel: u32) -> (r: Option<&ChannelConfiguration>)
        ensures
            match r {
                Some(c) => self.spec_config(channel) == Some(*c),
                None => self.spec_config(channel) is None,
            },
    {
        if (channel as usize) < self.channels.len() {
            Some(&self.channels[channel as usize])
        } else {
            None
        }
    }

    /// Returns `true` if `channel` is registered.
    pub fn channel_exists(&self, channel: u32) -> (r: bool)
        ensures
            r == self.spec_config(channel) is Some,
    {
        (channel as usize) < self.channels.len()
    }
}

} // verus!
