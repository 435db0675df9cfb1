use mpegts::error::DecodeError;
use mpegts::stream::Stream;

#[test]
fn two_reads_rebuild_the_byte() {
    for byte in 0..=255u8 {
        for n in 1..=7u8 {
            let data = [byte];
            let mut stream = Stream::new(&data[..]);
            let low = stream.pull_bits(n).unwrap();
            let high = stream.pull_bits(8 - n).unwrap();
            assert_eq!((high << n) | low, byte);
            assert_eq!(stream.pull_bit(), Err(DecodeError::OutOfData));
        }
    }
}

#[test]
fn whole_byte_through_pull_bits() {
    let data = [0xA5u8, 0x3C];
    let mut stream = Stream::new(&data[..]);
    assert_eq!(stream.pull_bits(8), Ok(0xA5));
    assert_eq!(stream.pull_bits(8), Ok(0x3C));
    assert_eq!(stream.pull_bits(8), Err(DecodeError::OutOfData));
}

#[test]
fn bytes_come_back_in_their_order() {
    let data: Vec<u8> = (0..=255u8).rev().collect();
    let mut stream = Stream::new(&data[..]);
    for expected in data.iter() {
        assert_eq!(stream.pull_byte(), Ok(*expected));
    }
    assert_eq!(stream.pull_byte(), Err(DecodeError::OutOfData));
}

#[test]
fn byte_needs_alignment() {
    let data = [0b1011_0101u8, 0x77];
    let mut stream = Stream::new(&data[..]);
    assert_eq!(stream.pull_bits(3), Ok(0b101));
    assert!(!stream.aligned());
    assert_eq!(stream.pull_byte(), Err(DecodeError::NotByteAligned));
    assert_eq!(stream.pull_bits(8), Err(DecodeError::NotByteAligned));
    assert_eq!(stream.pull_bytes(1).err(), Some(DecodeError::NotByteAligned));
    assert_eq!(stream.pull_rest().err(), Some(DecodeError::NotByteAligned));
    // The failures have not moved the cursor.
    assert_eq!(stream.pull_bits(5), Ok(0b10110));
    assert!(stream.aligned());
    assert_eq!(stream.pull_byte(), Ok(0x77));
}

#[test]
fn widths_out_of_range() {
    let data = [0xFFu8, 0xFF, 0xFF];
    let mut stream = Stream::new(&data[..]);
    assert_eq!(stream.pull_bits(9), Err(DecodeError::InvalidBitCount));
    assert_eq!(stream.pull_bits(255), Err(DecodeError::InvalidBitCount));
    assert_eq!(stream.pull_bits_u16(17), Err(DecodeError::InvalidBitCount));
    assert_eq!(stream.pull_bits_u16(255), Err(DecodeError::InvalidBitCount));
    // A wide read reaches the end of the current byte at the least.
    assert_eq!(stream.pull_bits_u16(3), Err(DecodeError::InvalidBitCount));
    assert_eq!(stream.pull_bits(3), Ok(0b111));
    // Five bits are left in this byte, and eight in the next one.
    assert_eq!(stream.pull_bits_u16(4), Err(DecodeError::InvalidBitCount));
    assert_eq!(stream.pull_bits_u16(14), Err(DecodeError::InvalidBitCount));
    assert_eq!(stream.pull_bits_u16(13), Ok(0x1FFF));
    assert_eq!(stream.pull_byte(), Ok(0xFF));
}

#[test]
fn more_bits_than_the_byte_has_left() {
    let data = [0b0110_0000u8, 0xFF];
    let mut stream = Stream::new(&data[..]);
    assert_eq!(stream.pull_bits(6), Ok(0b10_0000));
    assert_eq!(stream.pull_bits(3), Err(DecodeError::InsufficientBitsInByte));
    assert_eq!(stream.pull_bits(7), Err(DecodeError::InsufficientBitsInByte));
    assert_eq!(stream.pull_bits(2), Ok(0b01));
}

#[test]
fn nothing_behind_the_end() {
    let data: [u8; 0] = [];
    let mut stream = Stream::new(&data[..]);
    assert_eq!(stream.pull_bit(), Err(DecodeError::OutOfData));
    assert_eq!(stream.pull_byte(), Err(DecodeError::OutOfData));
    assert_eq!(stream.pull_bits(0), Err(DecodeError::OutOfData));
    assert_eq!(stream.pull_bits(3), Err(DecodeError::OutOfData));
    assert_eq!(stream.pull_bits(8), Err(DecodeError::OutOfData));
    assert_eq!(stream.pull_bits_u16(8), Err(DecodeError::OutOfData));
    assert_eq!(stream.pull_bits_u16(16), Err(DecodeError::OutOfData));
    assert_eq!(stream.pull_bytes(1).err(), Some(DecodeError::OutOfData));
    assert_eq!(stream.pull_bytes(0), Ok(&data[..]));
    assert_eq!(stream.pull_rest(), Ok(&data[..]));
}

#[test]
fn wide_read_behind_the_end() {
    let data = [0xC3u8];
    let mut stream = Stream::new(&data[..]);
    assert_eq!(stream.pull_bits_u16(9), Err(DecodeError::OutOfData));
    // The first half of the read was not kept.
    assert_eq!(stream.pull_byte(), Ok(0xC3));
}

#[test]
fn wide_read_of_thirteen_ones() {
    let data = [0xFFu8, 0xFF];
    let mut stream = Stream::new(&data[..]);
    assert_eq!(stream.pull_bits_u16(13), Ok(0b0001111111111111));
    assert_eq!(stream.pull_bits(3), Ok(0b111));
    assert_eq!(stream.pull_bit(), Err(DecodeError::OutOfData));
}

#[test]
fn wide_read_from_inside_a_byte() {
    let data = [0b1010_0110u8, 0b0101_1100];
    let mut stream = Stream::new(&data[..]);
    assert_eq!(stream.pull_bits(3), Ok(0b110));
    // Five bits of the first byte above four of the second.
    assert_eq!(stream.pull_bits_u16(9), Ok((0b10100 << 4) | 0b1100));
    assert_eq!(stream.pull_bits(4), Ok(0b0101));
    assert!(stream.aligned());
}

#[test]
fn wide_read_of_two_whole_bytes() {
    let data = [0x12u8, 0x34, 0x56];
    let mut stream = Stream::new(&data[..]);
    assert_eq!(stream.pull_bits_u16(16), Ok(0x1234));
    assert_eq!(stream.pull_byte(), Ok(0x56));
}

#[test]
fn no_bits_at_all() {
    let data = [0xFFu8, 0x0F];
    let mut stream = Stream::new(&data[..]);
    assert_eq!(stream.pull_bits(0), Ok(0));
    assert_eq!(stream.pull_bits_u16(8), Ok(0xFF));
    assert_eq!(stream.pull_byte(), Ok(0x0F));
}

#[test]
fn bytes_as_slices() {
    let data = [1u8, 2, 3, 4, 5, 6];
    let mut stream = Stream::new(&data[..]);
    assert_eq!(stream.pull_bytes(2), Ok(&data[0..2]));
    assert_eq!(stream.pull_bytes(5).err(), Some(DecodeError::OutOfData));
    let mut other = stream.fork();
    assert_eq!(other.pull_byte(), Ok(3));
    assert_eq!(stream.pull_rest(), Ok(&data[2..]));
    assert_eq!(stream.pull_byte(), Err(DecodeError::OutOfData));
    assert_eq!(other.pull_rest(), Ok(&data[3..]));
}

#[test]
fn errors_in_words() {
    assert_eq!(DecodeError::OutOfData.message(), "No data remaining");
    assert_eq!(
        DecodeError::NotByteAligned.message(),
        "Requested byte, but bits have already been pulled from the current byte"
    );
    assert_eq!(
        DecodeError::InsufficientBitsInByte.message(),
        "Requested more bits than what remains in the current byte"
    );
    assert_ne!(
        DecodeError::InvalidBitCount.message(),
        DecodeError::AdaptationFieldOverrun.message()
    );
}
