//! What holds of every read and of every decoding, proved from the
//! definitions in [`crate::stream`] and [`crate::ts`].

use vstd::prelude::*;
use crate::error::DecodeError;
use crate::stream::{bits_at, join_bits, Cursor};
use crate::ts::{
    adaptation_field_at, adaptation_field_of, body_at, extension_at, extension_of,
    extension_width, header_of, least_field_width, packet_of, width_if,
    AdaptationFieldExtension, AdaptationFieldView, PacketView,
};

verus! {

/// A cursor `bytes` whole bytes into `d`.
pub open spec fn at_byte(d: Seq<u8>, bytes: nat) -> Cursor {
    Cursor { data: d, position: bytes, bit_position: 0 }
}

/// `n` bits of a byte are a number below two to the power of `n`.
pub proof fn bits_at_is_bounded(byte: u8, from: u8, n: u8)
    requires
        n <= 8,
    ensures
        bits_at(byte, from, n) < (1u16 << n),
        n == 8 && from == 0 ==> bits_at(byte, from, n) == byte,
{
    assert(((byte >> from) & (((1u16 << n) - 1) as u8)) < (1u16 << n)) by (bit_vector)
        requires
            n <= 8,
    ;
    assert(from == 0 ==> ((byte >> from) & (((1u16 << 8u8) - 1) as u8)) == byte) by (bit_vector);
}

/// Two reads in a row that stay inside one byte return the two parts of what
/// one read of both widths returns, the second read being the high-order
/// part; and where the two take a whole byte, they return the parts of that
/// byte.
pub proof fn pull_bits_twice(c: Cursor, n: u8, m: u8)
    requires
        c.wf(),
        !c.exhausted(),
        1 <= n,
        1 <= m,
        c.bit_position + n + m <= 8,
    ensures
        c.pull_bits(n) is Ok,
        c.pull_bits(n).unwrap().1.pull_bits(m) is Ok,
        ({
            let (low, middle) = c.pull_bits(n).unwrap();
            let (high, end) = middle.pull_bits(m).unwrap();
            &&& c.pull_bits((n + m) as u8) == Ok::<(u8, Cursor), DecodeError>(
                ((high << n) | low, end),
            )
            &&& n + m == 8 ==> (high << n) | low == c.current()
        }),
{
    let byte = c.current();
    let from = c.bit_position as u8;
    let low = bits_at(byte, from, n);
    let high = bits_at(byte, (from + n) as u8, m);
    let both = bits_at(byte, from, (n + m) as u8);
    assert(both == (high << n) | low) by (bit_vector)
        requires
            1 <= n,
            1 <= m,
            from + n + m <= 8,
            low == (byte >> from) & (((1u16 << n) - 1) as u8),
            high == (byte >> ((from + n) as u8)) & (((1u16 << m) - 1) as u8),
            both == (byte >> from) & (((1u16 << ((n + m) as u8)) - 1) as u8),
    ;
    bits_at_is_bounded(byte, from, 8);
}

/// A whole byte cannot be pulled while part of the current byte is consumed,
/// whatever else holds.
pub proof fn pull_byte_needs_alignment(c: Cursor)
    requires
        c.bit_position != 0,
    ensures
        c.pull_byte() == Err::<(u8, Cursor), DecodeError>(DecodeError::NotByteAligned),
        c.pull_bits(8) == Err::<(u8, Cursor), DecodeError>(DecodeError::NotByteAligned),
        c.pull_bytes(0) == Err::<(Seq<u8>, Cursor), DecodeError>(DecodeError::NotByteAligned),
{
}

/// Pulling byte after byte from the start of `d` returns the bytes of `d` in
/// their order: the pull that follows `i` others returns `d[i]` and leaves the
/// cursor where the next pull starts.
pub proof fn pull_byte_in_sequence(d: Seq<u8>, i: nat)
    requires
        i < d.len(),
    ensures
        at_byte(d, 0) == Cursor::start(d),
        at_byte(d, i).pull_byte() == Ok::<(u8, Cursor), DecodeError>((d[i as int], at_byte(d, i + 1))),
{
}

/// The number of bits that lie before the cursor.
pub open spec fn bits_consumed(c: Cursor) -> nat {
    8 * c.position + c.bit_position
}

/// `after` is a well-formed cursor over the data of `before`, `bits` bits
/// further on.
pub open spec fn moved(before: Cursor, after: Cursor, bits: nat) -> bool {
    &&& after.wf()
    &&& after.data == before.data
    &&& bits_consumed(after) == bits_consumed(before) + bits
}

/// No read moves the cursor backwards or out of the data, and none changes
/// the data.
pub proof fn reads_keep_the_cursor_well_formed(c: Cursor, n: u8, k: nat)
    requires
        c.wf(),
    ensures
        c.pull_bit() is Ok ==> moved(c, c.pull_bit().unwrap().1, 1),
        c.pull_byte() is Ok ==> moved(c, c.pull_byte().unwrap().1, 8),
        c.pull_bits(n) is Ok ==> moved(c, c.pull_bits(n).unwrap().1, n as nat),
        c.pull_bits_u16(n) is Ok ==> moved(c, c.pull_bits_u16(n).unwrap().1, n as nat),
        c.pull_bytes(k) is Ok ==> moved(c, c.pull_bytes(k).unwrap().1, 8 * k),
{
}

/// Behind the end of the data every read fails for want of data, unless the
/// width asked for is itself refused.
pub proof fn reads_behind_the_end_fail(c: Cursor, n: u8, k: nat)
    requires
        c.wf(),
        c.exhausted(),
    ensures
        c.pull_bit() == Err::<(bool, Cursor), DecodeError>(DecodeError::OutOfData),
        c.pull_byte() == Err::<(u8, Cursor), DecodeError>(DecodeError::OutOfData),
        n <= 8 ==> c.pull_bits(n) == Err::<(u8, Cursor), DecodeError>(DecodeError::OutOfData),
        8 <= n <= 16 ==> c.pull_bits_u16(n) == Err::<(u16, Cursor), DecodeError>(
            DecodeError::OutOfData,
        ),
        k > 0 ==> c.pull_bytes(k) == Err::<(Seq<u8>, Cursor), DecodeError>(DecodeError::OutOfData),
{
}

/// What a read over a byte boundary comes to, case by case: the width has to
/// reach the end of the current byte and not to pass the end of the next one,
/// both bytes have to be there, and the value is the rest of the current byte
/// above the first bits of the next one.
pub proof fn pull_bits_u16_by_cases(c: Cursor, n: u8)
    requires
        c.wf(),
    ensures
        c.pull_bits_u16(n) == (if n < 8 - c.bit_position || n > 16 {
            Err::<(u16, Cursor), DecodeError>(DecodeError::InvalidBitCount)
        } else if c.exhausted() {
            Err(DecodeError::OutOfData)
        } else if n > 16 - c.bit_position {
            Err(DecodeError::InvalidBitCount)
        } else if c.position + 1 >= c.data.len() {
            Err(DecodeError::OutOfData)
        } else {
            let rest = (8 - c.bit_position) as u8;
            let more = (n - rest) as u8;
            Ok(
                (
                    join_bits(
                        bits_at(c.current(), c.bit_position as u8, rest),
                        bits_at(c.data[c.position as int + 1], 0, more),
                        more,
                    ),
                    c.advance(rest as nat).advance(more as nat),
                ),
            )
        }),
{
    if 8 - c.bit_position <= n <= 16 - c.bit_position && c.position + 1 < c.data.len() {
        let rest = (8 - c.bit_position) as u8;
        bits_at_is_bounded(c.current(), 0, 8);
        bits_at_is_bounded(c.data[c.position as int + 1], 0, 8);
    }
}

/// The numbers of a header stay inside the widths of their fields.
pub proof fn header_fields_are_bounded(d: Seq<u8>)
    requires
        d.len() >= 4,
    ensures
        header_of(d).pid <= 0x1FFF,
        header_of(d).scrambling_control <= 3,
        header_of(d).continuity_counter <= 15,
{
    let (a, b, c) = (d[1], d[2], d[3]);
    assert(((((a >> 3u8) & (((1u16 << 5u8) - 1) as u8)) as u16) << 8u8) | (b as u16) <= 0x1FFF)
        by (bit_vector);
    assert((c >> 0u8) & (((1u16 << 2u8) - 1) as u8) <= 3) by (bit_vector);
    assert((c >> 4u8) & (((1u16 << 4u8) - 1) as u8) <= 15) by (bit_vector);
}

/// A packet whose header announces no adaptation field has none, whatever
/// its bytes behind the header are: they are the payload, from the first one
/// on, where the header announces a payload.
pub proof fn no_adaptation_field_without_flag(d: Seq<u8>)
    requires
        d.len() >= 4,
        !header_of(d).adaptation_field_present,
    ensures
        packet_of(d) is Ok,
        packet_of(d).unwrap().header == header_of(d),
        packet_of(d).unwrap().adaptation_field is None,
        packet_of(d).unwrap().payload == (if header_of(d).payload_present {
            Some(d.subrange(4, d.len() as int))
        } else {
            None
        }),
{
    assert(d.subrange(0, 4)[0] == d[0]);
    assert(d.subrange(0, 4)[1] == d[1]);
    assert(d.subrange(0, 4)[2] == d[2]);
    assert(d.subrange(0, 4)[3] == d[3]);
}

/// A decoded packet has an adaptation field if and only if its header
/// announces one, and a payload if and only if its header announces one; and
/// its header is the header of its bytes.
pub proof fn optional_parts_follow_the_flags(d: Seq<u8>)
    requires
        packet_of(d) is Ok,
    ensures
        d.len() >= 4,
        packet_of(d).unwrap().header == header_of(d),
        packet_of(d).unwrap().adaptation_field is Some <==> header_of(d).adaptation_field_present,
        packet_of(d).unwrap().payload is Some <==> header_of(d).payload_present,
{
    assert(d.subrange(0, 4)[0] == d[0]);
    assert(d.subrange(0, 4)[1] == d[1]);
    assert(d.subrange(0, 4)[2] == d[2]);
    assert(d.subrange(0, 4)[3] == d[3]);
}

/// A packet of fewer than four bytes has no header to decode: it ends in the
/// header, and the decoding fails for want of data.
pub proof fn short_packet_is_out_of_data(d: Seq<u8>)
    requires
        d.len() < 4,
    ensures
        packet_of(d) == Err::<PacketView, DecodeError>(DecodeError::OutOfData),
{
}

/// A body that is shorter than its flags ask for is an overrun, and nothing
/// else makes the decoding of a body fail.
pub proof fn short_adaptation_field_overruns(b: Seq<u8>)
    ensures
        b.len() == 0 || b.len() < least_field_width(b[0]) ==> adaptation_field_of(b) == Err::<
            AdaptationFieldView,
            DecodeError,
        >(DecodeError::AdaptationFieldOverrun),
        adaptation_field_of(b) is Err ==> adaptation_field_of(b) == Err::<
            AdaptationFieldView,
            DecodeError,
        >(DecodeError::AdaptationFieldOverrun),
{
}

/// The body of an extension is decoded if and only if it holds the byte of
/// the flags and every part that the flags announce; if not, it is an overrun.
pub proof fn short_extension_overruns(b: Seq<u8>)
    ensures
        extension_of(b) is Ok <==> b.len() >= 1 && b.len() >= extension_width(b[0]),
        extension_of(b) is Err ==> extension_of(b) == Err::<AdaptationFieldExtension, DecodeError>(
            DecodeError::AdaptationFieldOverrun,
        ),
{
}

/// An adaptation field whose declared length lies inside the buffer, and is
/// smaller than its flags ask for, is an overrun.
pub proof fn short_field_length_overruns(c: Cursor)
    requires
        c.wf(),
        c.bit_position == 0,
        c.position + 1 + c.current() <= c.data.len(),
        c.current() == 0 || c.current() < least_field_width(c.data[c.position as int + 1]),
    ensures
        adaptation_field_at(c) == Err::<(AdaptationFieldView, Cursor), DecodeError>(
            DecodeError::AdaptationFieldOverrun,
        ),
{
    let body = body_at(c).unwrap().0;
    if body.len() > 0 {
        assert(body[0] == c.data[c.position as int + 1]);
    }
    short_adaptation_field_overruns(body);
}

/// A decoded adaptation field, and a decoded extension, end where their
/// declared lengths say: the cursor has passed the byte of the length and as
/// many bytes as it gives, and the length that is returned is that byte.
pub proof fn declared_length_is_passed(c: Cursor)
    requires
        c.wf(),
    ensures
        adaptation_field_at(c) is Ok ==> {
            &&& adaptation_field_at(c).unwrap().0.field_length == c.current()
            &&& adaptation_field_at(c).unwrap().1 == at_byte(
                c.data,
                c.position + 1 + c.current() as nat,
            )
        },
        extension_at(c) is Ok ==> {
            &&& extension_at(c).unwrap().0.adaptation_extension_length == c.current()
            &&& extension_at(c).unwrap().1 == at_byte(c.data, c.position + 1 + c.current() as nat)
        },
{
}

/// The payload of a packet with an adaptation field is what follows the
/// adaptation field: the bytes behind the header, the byte of the length and
/// as many bytes as it gives.
pub proof fn payload_follows_the_adaptation_field(d: Seq<u8>)
    requires
        packet_of(d) is Ok,
        header_of(d).adaptation_field_present,
        header_of(d).payload_present,
    ensures
        5 + d[4] <= d.len(),
        packet_of(d).unwrap().payload == Some(d.subrange(5 + d[4], d.len() as int)),
{
    optional_parts_follow_the_flags(d);
    declared_length_is_passed(at_byte(d, 4));
}

/// The number of bytes that an optional part with a length takes: the byte of
/// the length and as many bytes as the part is long.
pub open spec fn sized_width(part: Option<int>) -> int {
    match part {
        Some(length) => 1 + length,
        None => 0,
    }
}

/// Nothing of a decoded body is dropped in silence: its parts, the extension
/// by its declared length, and the stuffing add up to the declared length.
pub proof fn adaptation_field_takes_every_byte(b: Seq<u8>)
    requires
        adaptation_field_of(b) is Ok,
    ensures
        ({
            let field = adaptation_field_of(b).unwrap();
            b.len() == 1 + width_if(field.pcr is Some, 6) + width_if(field.opcr is Some, 6)
                + width_if(field.splice_countdown is Some, 1) + sized_width(
                match field.transport_private_data {
                    Some(bytes) => Some(bytes.len() as int),
                    None => None,
                },
            ) + sized_width(
                match field.adaptation_extension {
                    Some(extension) => Some(extension.adaptation_extension_length as int),
                    None => None,
                },
            ) + (match field.stuffing_bytes {
                Some(bytes) => bytes.len() as int,
                None => 0,
            })
        }),
        adaptation_field_of(b).unwrap().field_length == b.len() || b.len() > 255,
        match adaptation_field_of(b).unwrap().stuffing_bytes {
            Some(bytes) => bytes.len() > 0,
            None => true,
        },
{
}

} // verus!
