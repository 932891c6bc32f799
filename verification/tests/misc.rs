use stardust_quic::bytes_for_channel_id;

#[test]
fn channel_id_bytes() {
    assert_eq!(bytes_for_channel_id(0), 1);
    assert_eq!(bytes_for_channel_id(u8::MAX as u32), 1);
    assert_eq!(bytes_for_channel_id(u8::MAX as u32 + 1), 2);
    assert_eq!(bytes_for_channel_id(u16::MAX as u32), 2);
    assert_eq!(bytes_for_channel_id(u16::MAX as u32 + 1), 3);
    assert_eq!(bytes_for_channel_id(2u32.pow(24)), 3);
    assert_eq!(bytes_for_channel_id(2u32.pow(24) + 1), 4);
    assert_eq!(bytes_for_channel_id(u32::MAX), 4);
}
