use vstd::prelude::*;

verus! {

/// Identifier the transport gives a connected peer (a 128-bit UUID).
#[derive(Clone, Copy, Debug, PartialEq, Eq, Hash, Structural)]
pub struct PeerId(pub u128);

/// What the transport reports about a peer.
#[derive(Clone, Copy, Debug, PartialEq, Eq, Structural)]
pub enum PeerState {
    Connected,
    Disconnected,
}

/// The two logical channels of a session.
#[derive(Clone, Copy, Debug, PartialEq, Eq, Hash, Structural)]
pub enum Channel {
    /// Ordered, never retransmitted.
    Unreliable,
    /// Ordered, retransmitted until delivered.
    Reliable,
}

/// The index of the unreliable channel in the transport.
pub const UNRELIABLE_CHANNEL_INDEX: usize = 0;
/// The index of the reliable channel in the transport.
pub const RELIABLE_CHANNEL_INDEX: usize = 1;

/// How the transport must set up one channel.
#[derive(Clone, Copy, Debug, PartialEq, Eq, Structural)]
pub struct ChannelConfig {
    pub ordered: bool,
    pub max_retransmits: Option<u16>,
}

impl Channel {
    pub open spec fn spec_index(self) -> usize {
        match self {
            Channel::Unreliable => UNRELIABLE_CHANNEL_INDEX,
            Channel::Reliable => RELIABLE_CHANNEL_INDEX,
        }
    }

    /// The transport channel index this logical channel is bound to.
    #[verifier::when_used_as_spec(spec_index)]
    pub fn index(self) -> (r: usize)
        ensures
            r == self.spec_index(),
    {
        match self {
            Channel::Unreliable => UNRELIABLE_CHANNEL_INDEX,
            Channel::Reliable => RELIABLE_CHANNEL_INDEX,
        }
    }

    /// The channel bound to a transport index, if any.
    pub fn from_index(i: usize) -> (r: Option<Channel>)
        ensures
            r matches Some(c) ==> c.spec_index() == i,
            r is None <==> i > RELIABLE_CHANNEL_INDEX,
    {
        if i == UNRELIABLE_CHANNEL_INDEX {
            Some(Channel::Unreliable)
        } else if i == RELIABLE_CHANNEL_INDEX {
            Some(Channel::Reliable)
        } else {
            None
        }
    }

    /// The transport settings of this channel: both ordered, the unreliable
    /// one without retransmission, the reliable one without a limit.
    pub open spec fn spec_config(self) -> ChannelConfig {
        match self {
            Channel::Unreliable => ChannelConfig { ordered: true, max_retransmits: Some(0) },
            Channel::Reliable => ChannelConfig { ordered: true, max_retransmits: None },
        }
    }

    #[verifier::when_used_as_spec(spec_config)]
    pub fn config(self) -> (r: ChannelConfig)
        ensures
            r == self.spec_config(),
    {
        match self {
            Channel::Unreliable => ChannelConfig { ordered: true, max_retransmits: Some(0) },
            Channel::Reliable => ChannelConfig { ordered: true, max_retransmits: None },
        }
    }

    /// The channels in transport index order.
    pub fn all() -> (r: Vec<Channel>)
        ensures
            r@ == seq![Channel::Unreliable, Channel::Reliable],
            forall|i: int| 0 <= i < r@.len() ==> (#[trigger] r@[i]).spec_index() == i,
    {
        vec![Channel::Unreliable, Channel::Reliable]
    }
}

} // verus!
