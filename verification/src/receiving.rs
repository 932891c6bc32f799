//! Reading a received datagram of the compact format: a channel id of a fixed
//! width, a two-byte ordering number for ordered channels, then the payload.
use vstd::prelude::*;
use crate::channels::{consistency_ordered, ChannelConfiguration, ChannelRegistry, MessageConsistency};

verus! {

/// The input ended before a field could be read, or named an unknown channel.
#[derive(Clone, Copy, Debug, PartialEq, Eq, Structural)]
pub struct EndOfInput;

/// The channel id held in the first `width` bytes of `b`: the bytes fill the
/// most significant end of a big-endian `u32`, the rest being zero.
pub open spec fn channel_id_from_bytes(b: Seq<u8>, width: nat) -> u32 {
    if width == 1 {
        (b[0] * 0x100_0000) as u32
    } else if width == 2 {
        (b[0] * 0x100_0000 + b[1] * 0x1_0000) as u32
    } else if width == 3 {
        (b[0] * 0x100_0000 + b[1] * 0x1_0000 + b[2] * 0x100) as u32
    } else {
        (b[0] * 0x100_0000 + b[1] * 0x1_0000 + b[2] * 0x100 + b[3]) as u32
    }
}

/// The channel id, ordering number and payload of a datagram, or `None`
/// if it ends early or names a channel that is not registered. Unordered
/// channels carry no ordering number and report `0`.
pub open spec fn datagram_fields(
    s: Seq<u8>,
    registry: Seq<ChannelConfiguration>,
    width: nat,
) -> Option<(u32, u16, Seq<u8>)> {
    if s.len() < width {
        None
    } else {
        let cid = channel_id_from_bytes(s, width);
        let rest = s.skip(width as int);
        if cid >= registry.len() {
            None
        } else if consistency_ordered(registry[cid as int].consistency) {
            if rest.len() < 2 {
                None
            } else {
                Some((cid, (rest[0] * 256 + rest[1]) as u16, rest.skip(2)))
            }
        } else {
            Some((cid, 0, rest))
        }
    }
}

/// Reads the channel id (`cid_len` bytes), the ordering number (two bytes,
/// big-endian, present only on ordered channels) and the payload (the rest)
/// of a datagram.
pub fn read_datagram(buf: &[u8], channels: &ChannelRegistry, cid_len: u8) -> (r: Result<
    (u32, u16, Vec<u8>),
    EndOfInput,
>)
    requires
        1 <= cid_len <= 4,
    ensures
        match r {
            Ok((cid, ord, payload)) => datagram_fields(buf@, channels.channels@, cid_len as nat)
                == Some((cid, ord, payload@)),
            Err(_) => datagram_fields(buf@, channels.channels@, cid_len as nat) is None,
        },
{
    let width = cid_len as usize;
    if buf.len() < width {
        return Err(EndOfInput);
    }
    let b0 = buf[0] as u32;
    let cid: u32 = if cid_len == 1 {
        b0 * 0x100_0000
    } else if cid_len == 2 {
        b0 * 0x100_0000 + (buf[1] as u32) * 0x1_0000
    } else if cid_len == 3 {
        b0 * 0x100_0000 + (buf[1] as u32) * 0x1_0000 + (buf[2] as u32) * 0x100
    } else {
        b0 * 0x100_0000 + (buf[1] as u32) * 0x1_0000 + (buf[2] as u32) * 0x100 + (buf[3] as u32)
    };
    let rest = &buf[width..buf.len()];
    let config = match channels.config(cid) {
        Some(c) => c,
        None => return Err(EndOfInput),
    };
    if config.consistency.is_ordered() {
        if rest.len() < 2 {
            return Err(EndOfInput);
        }
        let ordering = (rest[0] as u16) * 256 + (rest[1] as u16);
        let payload = vstd::slice::slice_to_vec(&rest[2..rest.len()]);
        assert(payload@ =~= rest@.skip(2));
        Ok((cid, ordering, payload))
    } else {
        let payload = vstd::slice::slice_to_vec(rest);
        Ok((cid, 0, payload))
    }
}


/// What a successful read of a datagram gives, by its channel's consistency:
/// on a sequenced or ordered channel the two bytes after the channel id are
/// the ordering number, big-endian, and the payload starts after them; on an
/// unordered channel (reliable or not) nothing follows the id but the
/// payload, and the ordering number is `0`. The read succeeds exactly when
/// the id is there and names a registered channel, and for a sequenced or
/// ordered channel the two ordering bytes are there too.
pub proof fn lemma_read_datagram_by_consistency(
    s: Seq<u8>,
    registry: Seq<ChannelConfiguration>,
    width: nat,
)
    requires
        1 <= width <= 4,
    ensures
        datagram_fields(s, registry, width) is Some <==> ({
            &&& s.len() >= width
            &&& (channel_id_from_bytes(s, width) as nat) < registry.len()
            &&& (registry[channel_id_from_bytes(s, width) as int].consistency
                == MessageConsistency::UnreliableSequenced || registry[channel_id_from_bytes(
                s,
                width,
            ) as int].consistency == MessageConsistency::ReliableOrdered) ==> s.len() >= width + 2
        }),
        datagram_fields(s, registry, width) matches Some((cid, ord, payload)) ==> {
            &&& cid == channel_id_from_bytes(s, width)
            &&& (cid as nat) < registry.len()
            &&& (registry[cid as int].consistency == MessageConsistency::UnreliableSequenced
                || registry[cid as int].consistency == MessageConsistency::ReliableOrdered) ==> {
                &&& s.len() >= width + 2
                &&& ord as int == s[width as int] * 256 + s[width + 1int]
                &&& payload == s.skip(width + 2int)
            }
            &&& (registry[cid as int].consistency == MessageConsistency::UnreliableUnordered
                || registry[cid as int].consistency == MessageConsistency::ReliableUnordered) ==> {
                &&& ord == 0
                &&& payload == s.skip(width as int)
            }
        },
{
    if datagram_fields(s, registry, width) is Some {
        let cid = channel_id_from_bytes(s, width);
        let rest = s.skip(width as int);
        if rest.len() >= 2 {
            assert(rest[0] == s[width as int]);
            assert(rest[1] == s[width + 1int]);
            assert(rest.skip(2) =~= s.skip(width + 2int));
        }
    }
}

} // verus!
