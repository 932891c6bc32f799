//! Per-channel sequence numbers of datagrams.
use vstd::prelude::*;
use std::collections::BTreeMap;

verus! {

/// The sequence number of each channel, for received and for sent datagrams.
pub struct ChannelDatagrams {
    recv_sequences: BTreeMap<u32, u16>,
    send_sequences: BTreeMap<u32, u16>,
}

impl ChannelDatagrams {
    /// The received sequence numbers by channel.
    pub closed spec fn recv_view(&self) -> Map<u32, u16> {
        self.recv_sequences@
    }

    /// The sent sequence numbers by channel.
    pub closed spec fn send_view(&self) -> Map<u32, u16> {
        self.send_sequences@
    }

    /// No channel has a sequence number yet.
    pub fn new() -> (r: Self)
        ensures
            r.recv_view() == Map::<u32, u16>::empty(),
            r.send_view() == Map::<u32, u16>::empty(),
    {
        ChannelDatagrams { recv_sequences: BTreeMap::new(), send_sequences: BTreeMap::new() }
    }
}

} // verus!
