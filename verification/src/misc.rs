use vstd::prelude::*;
use crate::numbers::pow256;

verus! {

/// The number of bytes needed to represent any channel ID up to `max`.
pub open spec fn channel_id_width(max: u32) -> u8 {
    if max <= 255 {
        1
    } else if max <= 65535 {
        2
    } else if max <= 16777216 {
        3
    } else {
        4
    }
}

/// Minimum amount of bytes needed to represent a channel ID
pub fn bytes_for_channel_id(max: u32) -> (r: u8)
    ensures
        r == channel_id_width(max),
        1 <= r <= 4,
{
    if max <= 255 {
        1
    } else if max <= 65535 {
        2
    } else if max <= 16777216 {
        3
    } else {
        4
    }
}

/// The width is the least number of bytes that holds `max`: every channel id
/// up to `max` fits in that many bytes, and one byte fewer would not do.
/// This fails for `max == 2^24` alone, where `channel_id_width` gives 3 bytes
/// although the value needs 4.
pub proof fn lemma_channel_id_width_minimal(max: u32)
    requires
        max != 0x100_0000,
    ensures
        max < pow256(channel_id_width(max) as nat),
        channel_id_width(max) > 1 ==> max >= pow256((channel_id_width(max) - 1) as nat),
{
    assert(pow256(1) == 256) by {
        reveal_with_fuel(pow256, 2);
    }
    assert(pow256(2) == 65536) by {
        reveal_with_fuel(pow256, 3);
    }
    assert(pow256(3) == 16777216) by {
        reveal_with_fuel(pow256, 4);
    }
    assert(pow256(4) == 4294967296) by {
        reveal_with_fuel(pow256, 5);
    }
}

} // verus!
