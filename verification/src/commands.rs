//! The channel confirmation of the splash window (the only IPC command with
//! a decision of its own): it fires at most once per launch.

use vstd::prelude::*;
use crate::dsh::Channel;

verus! {

/// The channel picker: which channel is chosen and whether the user has
/// confirmed it (which releases the supervisor).
#[derive(Clone, Copy, Debug, PartialEq, Eq, Structural)]
pub struct ChannelGate {
    pub channel: Channel,
    pub confirmed: bool,
}

/// The picker after a confirmation of `channel`: the first confirmation
/// sets the channel; after it nothing changes.
pub open spec fn confirmed_gate(g: ChannelGate, channel: Channel) -> ChannelGate {
    if g.confirmed {
        g
    } else {
        ChannelGate { channel, confirmed: true }
    }
}

impl ChannelGate {
    /// The picker at startup, preset to the persisted channel.
    pub fn new(channel: Channel) -> (r: ChannelGate)
        ensures
            r.channel == channel,
            !r.confirmed,
    {
        ChannelGate { channel, confirmed: false }
    }

    /// Confirms `channel`. Returns whether this call confirmed it (and so
    /// must persist it and release the supervisor).
    pub fn confirm(&mut self, channel: Channel) -> (r: bool)
        ensures
            r == !old(self).confirmed,
            *final(self) == confirmed_gate(*old(self), channel),
    {
        if self.confirmed {
            return false;
        }
        self.channel = channel;
        self.confirmed = true;
        true
    }

    /// The channel the supervisor may start with: none before the user has
    /// confirmed one.
    pub fn released(&self) -> (r: Option<Channel>)
        ensures
            r == released_channel(*self),
    {
        if self.confirmed {
            Some(self.channel)
        } else {
            None
        }
    }
}

/// The channel a picker releases: the confirmed one, none before.
pub open spec fn released_channel(g: ChannelGate) -> Option<Channel> {
    if g.confirmed {
        Some(g.channel)
    } else {
        None
    }
}

/// Nothing starts before the channel is confirmed: a fresh picker releases
/// no channel, and after confirmations it releases the first confirmed one.
pub proof fn law_start_after_confirm(persisted: Channel, first: Channel, second: Channel)
    ensures
        released_channel(ChannelGate { channel: persisted, confirmed: false }) is None,
        released_channel(confirmed_gate(ChannelGate { channel: persisted, confirmed: false }, first))
            == Some(first),
        released_channel(confirmed_gate(
            confirmed_gate(ChannelGate { channel: persisted, confirmed: false }, first),
            second,
        )) == Some(first),
{
}

/// Confirming is idempotent: a second confirmation, of any channel, leaves
/// the first one in place.
pub proof fn law_confirm_once(g: ChannelGate, first: Channel, second: Channel)
    ensures
        confirmed_gate(confirmed_gate(g, first), second) == confirmed_gate(g, first),
        confirmed_gate(g, first).confirmed,
{
}

} // verus!
