use vstd::prelude::*;
use crate::addr::{url_of, ConnectionAddr};
use crate::peer::{Channel, ChannelConfig};

verus! {

/// How to open the transport for a session: the signaling URL and the
/// channels in index order.
#[derive(Clone, Debug, PartialEq, Eq)]
pub struct SilkSocket {
    pub url: String,
    pub channels: Vec<ChannelConfig>,
}

impl SilkSocket {
    /// The transport setup for the signaling server at `addr`: the
    /// unreliable channel at index 0, the reliable one at index 1.
    pub fn new(addr: ConnectionAddr) -> (r: SilkSocket)
        ensures
            r.url@ == url_of(addr),
            r.channels@ == seq![
                Channel::Unreliable.spec_config(),
                Channel::Reliable.spec_config(),
            ],
    {
        let url = addr.to_url();
        let mut channels: Vec<ChannelConfig> = Vec::new();
        channels.push(Channel::Unreliable.config());
        channels.push(Channel::Reliable.config());
        SilkSocket { url, channels }
    }
}

} // verus!
