use stardust_quic::channels::{ChannelConfiguration, ChannelRegistry, MessageConsistency};
use stardust_quic::receiving::{read_datagram, EndOfInput};

fn registry(n: usize) -> ChannelRegistry {
    let mut channels = Vec::new();
    for i in 0..n {
        let consistency = if i % 2 == 0 {
            MessageConsistency::UnreliableUnordered
        } else {
            MessageConsistency::ReliableOrdered
        };
        channels.push(ChannelConfiguration { consistency, priority: 0 });
    }
    ChannelRegistry { channels }
}

#[test]
fn read_four_byte_channel_ordered() {
    let reg = registry(4);
    let r = read_datagram(&[0, 0, 0, 1, 0x12, 0x34, 9, 9], &reg, 4);
    assert_eq!(r, Ok((1, 0x1234, vec![9, 9])));
}

#[test]
fn read_four_byte_channel_unordered() {
    let reg = registry(4);
    let r = read_datagram(&[0, 0, 0, 2, 7], &reg, 4);
    assert_eq!(r, Ok((2, 0, vec![7])));
}

#[test]
fn narrow_ids_fill_high_bytes() {
    // one byte of id lands in the most significant byte
    let reg = registry(4);
    assert_eq!(read_datagram(&[0, 5], &reg, 1), Ok((0, 0, vec![5])));
    assert_eq!(read_datagram(&[1, 5], &reg, 1), Err(EndOfInput));
}

#[test]
fn read_errors() {
    let reg = registry(4);
    assert_eq!(read_datagram(&[0, 0], &reg, 4), Err(EndOfInput));
    assert_eq!(read_datagram(&[0, 0, 0, 9], &reg, 4), Err(EndOfInput));
    assert_eq!(read_datagram(&[0, 0, 0, 1, 3], &reg, 4), Err(EndOfInput));
}
