use mpegts::error::DecodeError;
use mpegts::ts::PTSPacket;

#[test]
fn ts_test_parse() {
    let data: [u8; 8] = [0xFF, 0xFF, 0xFF, 0xFF, 0xFF, 0xFF, 0xFF, 0xFF];
    let packet = PTSPacket::parse_header(&data[..]).unwrap();

    assert_eq!(packet.sync_byte, 0xFF);
    assert!(packet.transport_error);
    assert!(packet.payload_unit_start);
    assert!(packet.transport_priority);
    assert_eq!(packet.pid, 0b0001111111111111);
    assert_eq!(packet.scrambling_control, 0b00000011);
    assert_eq!(packet.continuity_counter, 0b00001111);
}

#[test]
fn all_ones_announce_an_adaptation_field_that_is_not_there() {
    let short: [u8; 4] = [0xFF, 0xFF, 0xFF, 0xFF];
    assert_eq!(PTSPacket::parse(&short[..]), Err(DecodeError::OutOfData));
    // A length of 255 with two bytes behind it.
    let data: [u8; 8] = [0xFF, 0xFF, 0xFF, 0xFF, 0xFF, 0xFF, 0xFF, 0xFF];
    assert_eq!(PTSPacket::parse(&data[..]), Err(DecodeError::OutOfData));
}
