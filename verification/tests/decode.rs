use mpegts::error::DecodeError;
use mpegts::stream::Stream;
use mpegts::ts::{AdaptationField, AdaptationFieldExtension, PTSPacket, PacketHeader};

#[test]
fn payload_only() {
    let data = [0x47u8, 0x52, 0x11, 0x58, 1, 2, 3];
    let packet = PTSPacket::parse(&data[..]).unwrap();
    assert_eq!(packet.sync_byte, 0x47);
    assert!(!packet.transport_error);
    assert!(packet.payload_unit_start);
    assert!(!packet.transport_priority);
    assert_eq!(packet.pid, 0x0A11);
    assert_eq!(packet.scrambling_control, 0);
    assert!(!packet.adaptation_field_present);
    assert!(packet.payload_present);
    assert_eq!(packet.continuity_counter, 5);
    assert_eq!(packet.adaptation_field, None);
    assert_eq!(packet.payload, Some(&data[4..]));
}

#[test]
fn payload_may_be_empty() {
    let data = [0x47u8, 0x00, 0x00, 0x08];
    let packet = PTSPacket::parse(&data[..]).unwrap();
    assert_eq!(packet.adaptation_field, None);
    assert_eq!(packet.payload, Some(&data[4..]));
    assert_eq!(packet.payload.unwrap().len(), 0);
}

#[test]
fn neither_adaptation_field_nor_payload() {
    let data = [0x47u8, 0x00, 0x00, 0x50, 9, 9];
    let packet = PTSPacket::parse(&data[..]).unwrap();
    assert_eq!(packet.continuity_counter, 5);
    assert_eq!(packet.adaptation_field, None);
    assert_eq!(packet.payload, None);
}

#[test]
fn header_alone() {
    let data = [0x47u8, 0x52, 0x11, 0x5E];
    let header = PTSPacket::parse_header(&data[..]).unwrap();
    assert_eq!(
        header,
        PacketHeader {
            sync_byte: 0x47,
            transport_error: false,
            payload_unit_start: true,
            transport_priority: false,
            pid: 0x0A11,
            scrambling_control: 2,
            adaptation_field_present: true,
            payload_present: true,
            continuity_counter: 5,
        }
    );
    assert_eq!(header.adaptation_field_control(), 3);
    assert_eq!(PTSPacket::parse_header(&data[..3]), Err(DecodeError::OutOfData));
    assert_eq!(PTSPacket::parse(&data[..3]), Err(DecodeError::OutOfData));
    assert_eq!(PTSPacket::parse(&data[..0]), Err(DecodeError::OutOfData));
}

#[test]
fn header_from_a_cursor() {
    let data = [0x00u8, 0x47, 0x01, 0x00, 0x24, 0xFF];
    let mut stream = Stream::new(&data[..]);
    assert_eq!(stream.pull_bit(), Ok(false));
    assert_eq!(PacketHeader::parse(&mut stream), Err(DecodeError::NotByteAligned));
    assert_eq!(stream.pull_bits(7), Ok(0));
    let header = PacketHeader::parse(&mut stream).unwrap();
    assert_eq!(header.sync_byte, 0x47);
    assert!(header.transport_error);
    assert_eq!(header.pid, 0);
    assert_eq!(header.scrambling_control, 0);
    assert_eq!(header.adaptation_field_control(), 2);
    assert_eq!(header.continuity_counter, 2);
    // One byte is left: no second header, and the cursor stays.
    assert_eq!(PacketHeader::parse(&mut stream), Err(DecodeError::OutOfData));
    assert_eq!(stream.pull_byte(), Ok(0xFF));
}

fn full_packet() -> Vec<u8> {
    vec![
        0x47, 0x52, 0x11, 0x5E, // header
        32, 0xFD, // length and flags of the adaptation field
        0x01, 0x02, 0x03, 0x04, 0x05, 0x06, // PCR
        0x0A, 0x0B, 0x0C, 0x0D, 0x0E, 0x0F, // OPCR
        0x7F, // splice countdown
        2, 0xDE, 0xAD, // private data
        12, 0x07, // length and flags of the extension
        0x03, 0x23, // legal time window
        0x04, 0x02, 0x03, // piecewise rate
        0xD9, 0x01, 0x82, 0xFF, 0x7F, // seamless splice
        0xEE, // reserved
        0xFF, 0xFF, // stuffing
        0xAA, 0xBB, 0xCC, // payload
    ]
}

#[test]
fn every_part_present() {
    let data = full_packet();
    let packet = PTSPacket::parse(&data[..]).unwrap();
    assert_eq!(packet.pid, 0x0A11);
    assert_eq!(packet.scrambling_control, 2);
    assert!(packet.adaptation_field_present);
    assert!(packet.payload_present);
    assert_eq!(packet.payload, Some(&[0xAAu8, 0xBB, 0xCC][..]));

    let field = packet.adaptation_field.unwrap();
    assert_eq!(field.field_length, 32);
    assert!(field.discontinuity);
    assert!(!field.random_access);
    assert!(field.elementary_stream_priority);
    assert_eq!(field.pcr, Some(0x010203040506));
    assert_eq!(field.opcr, Some(0x0A0B0C0D0E0F));
    assert_eq!(field.splice_countdown, Some(0x7F));
    assert_eq!(field.transport_private_data, Some(vec![0xDE, 0xAD]));
    assert_eq!(field.stuffing_bytes, Some(&[0xFFu8, 0xFF][..]));

    let extension = field.adaptation_extension.unwrap();
    assert_eq!(
        *extension,
        AdaptationFieldExtension {
            adaptation_extension_length: 12,
            legal_time_window_flag: true,
            piecewise_rate_flag: true,
            seamless_rate_flag: true,
            legal_time_window_valid_flag: Some(true),
            legal_time_window_offset: Some(0x0123),
            piecewise_rate: Some(0x010203),
            splice_type: Some(9),
            dts_next_access_unit: Some(5373001727),
        }
    );
}

#[test]
fn largest_values() {
    let data = [
        12u8, 0xFF, // length and flags of the adaptation field
        0xFF, 0xFF, 0xFF, 0xFF, 0xFF, 0xFF, // PCR
        0, // no private data
        3, 0x02, 0xFF, 0xFF, 0xFF, // extension with a piecewise rate
    ];
    let mut stream = Stream::new(&data[..]);
    // The declared length leaves no room for the OPCR.
    assert_eq!(AdaptationField::parse(&mut stream), Err(DecodeError::AdaptationFieldOverrun));
    let data = [
        4u8, 0x02, 0xFF, 0xFF, 0xFF, // piecewise rate of all ones
        6, 0x04, 0xFF, 0xFF, 0xFF, 0xFF, 0xFF, // seamless splice of all ones
    ];
    let mut stream = Stream::new(&data[..]);
    let first = AdaptationFieldExtension::parse(&mut stream).unwrap();
    assert_eq!(first.piecewise_rate, Some(0x3F_FFFF));
    assert_eq!(first.legal_time_window_offset, None);
    let second = AdaptationFieldExtension::parse(&mut stream).unwrap();
    assert_eq!(second.splice_type, Some(0x0F));
    assert_eq!(second.dts_next_access_unit, Some(0x1_FFFF_FFFF));
    assert_eq!(second.piecewise_rate, None);
    assert_eq!(AdaptationFieldExtension::parse(&mut stream), Err(DecodeError::OutOfData));
}

#[test]
fn stuffing_only() {
    let data = [0x47u8, 0x00, 0x00, 0x0C, 3, 0x00, 0xFF, 0xFF, 0x55];
    let packet = PTSPacket::parse(&data[..]).unwrap();
    let field = packet.adaptation_field.unwrap();
    assert_eq!(field.field_length, 3);
    assert_eq!(field.pcr, None);
    assert_eq!(field.opcr, None);
    assert_eq!(field.splice_countdown, None);
    assert_eq!(field.transport_private_data, None);
    assert_eq!(field.adaptation_extension, None);
    assert_eq!(field.stuffing_bytes, Some(&data[6..8]));
    assert_eq!(packet.payload, Some(&data[8..]));
}

#[test]
fn flags_only() {
    let data = [1u8, 0x02, 0x99];
    let mut stream = Stream::new(&data[..]);
    let field = AdaptationField::parse(&mut stream).unwrap();
    assert!(field.random_access);
    assert!(!field.discontinuity);
    assert_eq!(field.stuffing_bytes, None);
    assert_eq!(stream.pull_byte(), Ok(0x99));
}

#[test]
fn declared_length_too_small() {
    // A PCR of six bytes in a body of three.
    let data = [0x47u8, 0x00, 0x00, 0x14, 3, 0x08, 0, 0, 0, 0, 0, 0];
    assert_eq!(PTSPacket::parse(&data[..]), Err(DecodeError::AdaptationFieldOverrun));
    // Not even the byte of the flags.
    let data = [0x47u8, 0x00, 0x00, 0x14, 0, 0x00, 0, 0];
    assert_eq!(PTSPacket::parse(&data[..]), Err(DecodeError::AdaptationFieldOverrun));
    // Private data of five bytes in a body of three.
    let data = [0x47u8, 0x00, 0x00, 0x14, 3, 0x40, 5, 1, 2, 3, 4, 5];
    assert_eq!(PTSPacket::parse(&data[..]), Err(DecodeError::AdaptationFieldOverrun));
    // Private data announced behind the last byte of the body.
    let data = [0x47u8, 0x00, 0x00, 0x14, 1, 0x40, 0, 0];
    assert_eq!(PTSPacket::parse(&data[..]), Err(DecodeError::AdaptationFieldOverrun));
    // An extension that is longer than what is left of the body.
    let data = [0x47u8, 0x00, 0x00, 0x14, 3, 0x80, 5, 0, 0, 0, 0, 0];
    assert_eq!(PTSPacket::parse(&data[..]), Err(DecodeError::AdaptationFieldOverrun));
    // An extension whose own length has no room for its legal time window.
    let data = [0x47u8, 0x00, 0x00, 0x14, 3, 0x80, 1, 0x01, 0, 0, 0, 0];
    assert_eq!(PTSPacket::parse(&data[..]), Err(DecodeError::AdaptationFieldOverrun));
    // An extension without the byte of its flags.
    let data = [0x47u8, 0x00, 0x00, 0x14, 2, 0x80, 0, 0];
    assert_eq!(PTSPacket::parse(&data[..]), Err(DecodeError::AdaptationFieldOverrun));
}

#[test]
fn declared_length_behind_the_buffer() {
    let data = [0x47u8, 0x00, 0x00, 0x14, 10, 0x00, 0xFF, 0xFF];
    assert_eq!(PTSPacket::parse(&data[..]), Err(DecodeError::OutOfData));
    let data = [0x47u8, 0x00, 0x00, 0x14];
    assert_eq!(PTSPacket::parse(&data[..]), Err(DecodeError::OutOfData));
}

#[test]
fn failed_decoding_leaves_the_cursor() {
    let data = [3u8, 0x08, 1, 2];
    let mut stream = Stream::new(&data[..]);
    assert_eq!(AdaptationField::parse(&mut stream), Err(DecodeError::AdaptationFieldOverrun));
    assert_eq!(AdaptationFieldExtension::parse(&mut stream).unwrap().adaptation_extension_length, 3);

    let data = [2u8, 0x01, 0x00, 0xAB];
    let mut stream = Stream::new(&data[..]);
    assert_eq!(AdaptationFieldExtension::parse(&mut stream), Err(DecodeError::AdaptationFieldOverrun));
    assert_eq!(stream.pull_bit(), Ok(false));
    assert_eq!(AdaptationFieldExtension::parse(&mut stream), Err(DecodeError::NotByteAligned));
    assert_eq!(AdaptationField::parse(&mut stream), Err(DecodeError::NotByteAligned));
    assert_eq!(stream.pull_bits(7), Ok(1));
}

#[test]
fn extension_with_reserved_bytes() {
    let data = [6u8, 0x01, 0xFE, 0xDC, 0x11, 0x22, 0x33, 0x44];
    let mut stream = Stream::new(&data[..]);
    let extension = AdaptationFieldExtension::parse(&mut stream).unwrap();
    assert_eq!(extension.adaptation_extension_length, 6);
    assert!(extension.legal_time_window_flag);
    assert!(!extension.piecewise_rate_flag);
    assert!(!extension.seamless_rate_flag);
    assert_eq!(extension.legal_time_window_valid_flag, Some(false));
    assert_eq!(extension.legal_time_window_offset, Some(0x7FDC));
    assert_eq!(extension.piecewise_rate, None);
    assert_eq!(extension.splice_type, None);
    assert_eq!(extension.dts_next_access_unit, None);
    // The three reserved bytes were passed over.
    assert_eq!(stream.pull_byte(), Ok(0x44));
}
