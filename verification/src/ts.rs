//! Transport Stream
//!
//! One packet is a header of four bytes, an adaptation field where the header
//! announces one, and a payload where it announces one. The adaptation field
//! and its extension each start with a byte that gives the length of what
//! follows it; their parts are looked for inside that many bytes and nowhere
//! else. A declared length that reaches behind the end of the buffer is a want
//! of data; a part that does not fit into the declared length is an overrun.

use vstd::prelude::*;
use crate::error::DecodeError;
use vstd::slice::slice_to_vec;
use crate::lemmas::{no_adaptation_field_without_flag, short_field_length_overruns};
use crate::stream::{bit_at, bits_at, join_bits, follows, Cursor, Stream};

verus! {

/// The fixed part at the start of every packet.
#[derive(Eq, PartialEq, Debug, Clone, Copy, Default)]
pub struct PacketHeader {
    pub sync_byte: u8,
    pub transport_error: bool,
    pub payload_unit_start: bool,
    pub transport_priority: bool,
    pub pid: u16,
    pub scrambling_control: u8,
    pub adaptation_field_present: bool,
    pub payload_present: bool,
    pub continuity_counter: u8,
}

/// The extension of an adaptation field.
#[derive(Eq, PartialEq, Debug, Clone, Copy, Default)]
pub struct AdaptationFieldExtension {
    pub adaptation_extension_length: u8,
    pub legal_time_window_flag: bool,
    pub piecewise_rate_flag: bool,
    pub seamless_rate_flag: bool,
    // Optional LTW Flag Set
    pub legal_time_window_valid_flag: Option<bool>,
    pub legal_time_window_offset: Option<u16>,
    // Optional Piecewise Flag Set
    pub piecewise_rate: Option<u32>,
    // Optional Seamless Splice Flag Set
    pub splice_type: Option<u8>,
    pub dts_next_access_unit: Option<u64>,
}

/// The adaptation field of a packet. Its stuffing bytes are borrowed from the
/// buffer that the packet was decoded from.
#[derive(Eq, PartialEq, Debug, Clone, Default)]
pub struct AdaptationField<'a> {
    pub field_length: u8,
    pub discontinuity: bool,
    pub random_access: bool,
    pub elementary_stream_priority: bool,
    // Optional
    pub pcr: Option<u64>,
    pub opcr: Option<u64>,
    pub splice_countdown: Option<u8>,
    pub transport_private_data: Option<Vec<u8>>,
    pub adaptation_extension: Option<Box<AdaptationFieldExtension>>,
    pub stuffing_bytes: Option<&'a [u8]>,
}

/// What an [`AdaptationField`] holds.
pub struct AdaptationFieldView {
    pub field_length: u8,
    pub discontinuity: bool,
    pub random_access: bool,
    pub elementary_stream_priority: bool,
    pub pcr: Option<u64>,
    pub opcr: Option<u64>,
    pub splice_countdown: Option<u8>,
    pub transport_private_data: Option<Seq<u8>>,
    pub adaptation_extension: Option<AdaptationFieldExtension>,
    pub stuffing_bytes: Option<Seq<u8>>,
}

impl<'a> View for AdaptationField<'a> {
    type V = AdaptationFieldView;

    open spec fn view(&self) -> AdaptationFieldView {
        AdaptationFieldView {
            field_length: self.field_length,
            discontinuity: self.discontinuity,
            random_access: self.random_access,
            elementary_stream_priority: self.elementary_stream_priority,
            pcr: self.pcr,
            opcr: self.opcr,
            splice_countdown: self.splice_countdown,
            transport_private_data: match self.transport_private_data {
                Some(bytes) => Some(bytes@),
                None => None,
            },
            adaptation_extension: match self.adaptation_extension {
                Some(extension) => Some(*extension),
                None => None,
            },
            stuffing_bytes: match self.stuffing_bytes {
                Some(bytes) => Some(bytes@),
                None => None,
            },
        }
    }
}

/// Partial Transport Stream Packet: the header, the adaptation field and the
/// payload, which is borrowed from the buffer that the packet was decoded from
/// and not looked into.
#[derive(Eq, PartialEq, Debug, Clone, Default)]
pub struct PTSPacket<'a> {
    pub sync_byte: u8,
    pub transport_error: bool,
    pub payload_unit_start: bool,
    pub transport_priority: bool,
    pub pid: u16,
    pub scrambling_control: u8,
    pub adaptation_field_present: bool,
    pub payload_present: bool,
    pub continuity_counter: u8,
    // Optional
    pub adaptation_field: Option<Box<AdaptationField<'a>>>,
    pub payload: Option<&'a [u8]>,
}

/// What a [`PTSPacket`] holds.
pub struct PacketView {
    pub header: PacketHeader,
    pub adaptation_field: Option<AdaptationFieldView>,
    pub payload: Option<Seq<u8>>,
}

impl<'a> View for PTSPacket<'a> {
    type V = PacketView;

    open spec fn view(&self) -> PacketView {
        PacketView {
            header: PacketHeader {
                sync_byte: self.sync_byte,
                transport_error: self.transport_error,
                payload_unit_start: self.payload_unit_start,
                transport_priority: self.transport_priority,
                pid: self.pid,
                scrambling_control: self.scrambling_control,
                adaptation_field_present: self.adaptation_field_present,
                payload_present: self.payload_present,
                continuity_counter: self.continuity_counter,
            },
            adaptation_field: match self.adaptation_field {
                Some(field) => Some(field@),
                None => None,
            },
            payload: match self.payload {
                Some(bytes) => Some(bytes@),
                None => None,
            },
        }
    }
}

/// A result with what its value holds in place of the value.
pub open spec fn decoded<T: View>(r: Result<T, DecodeError>) -> Result<T::V, DecodeError> {
    match r {
        Ok(v) => Ok(v@),
        Err(e) => Err(e),
    }
}

/// The header that starts `d`, a packet of at least four bytes.
pub open spec fn header_of(d: Seq<u8>) -> PacketHeader
    recommends
        d.len() >= 4,
{
    PacketHeader {
        sync_byte: d[0],
        transport_error: bit_at(d[1], 0),
        payload_unit_start: bit_at(d[1], 1),
        transport_priority: bit_at(d[1], 2),
        pid: join_bits(bits_at(d[1], 3, 5), d[2], 8),
        scrambling_control: bits_at(d[3], 0, 2),
        adaptation_field_present: bit_at(d[3], 2),
        payload_present: bit_at(d[3], 3),
        continuity_counter: bits_at(d[3], 4, 4),
    }
}

/// The outcome of decoding a header at `c`.
pub open spec fn header_at(c: Cursor) -> Result<(PacketHeader, Cursor), DecodeError> {
    if c.bit_position != 0 {
        Err(DecodeError::NotByteAligned)
    } else if c.position + 4 > c.data.len() {
        Err(DecodeError::OutOfData)
    } else {
        Ok(
            (
                header_of(c.data.subrange(c.position as int, (c.position + 4) as int)),
                Cursor { data: c.data, position: c.position + 4, bit_position: 0 },
            ),
        )
    }
}

/// The number of bytes that a part of `width` bytes takes: none where its
/// flag is clear.
pub open spec fn width_if(flag: bool, width: int) -> int {
    if flag {
        width
    } else {
        0
    }
}

/// The outcome of decoding, at `c`, a part of `width` whole bytes whose value
/// is `value`.
pub open spec fn part_at<T>(c: Cursor, width: nat, value: T) -> Result<(T, Cursor), DecodeError> {
    if c.bit_position != 0 {
        Err(DecodeError::NotByteAligned)
    } else if c.position + width > c.data.len() {
        Err(DecodeError::OutOfData)
    } else {
        Ok((value, Cursor { data: c.data, position: c.position + width, bit_position: 0 }))
    }
}

/// The legal time window offset in the two bytes at `at`: fifteen bits behind
/// the bit that says whether it is valid.
pub open spec fn legal_time_window_offset_at(b: Seq<u8>, at: int) -> u16 {
    join_bits(bits_at(b[at], 1, 7), b[at + 1], 8)
}

/// The piecewise rate in the three bytes at `at`: twenty-two bits behind two
/// reserved ones.
pub open spec fn piecewise_rate_at(b: Seq<u8>, at: int) -> u32 {
    ((join_bits(bits_at(b[at], 2, 6), b[at + 1], 8) as u32) << 8) | (b[at + 2] as u32)
}

/// The time stamp in the five bytes at `at`: three bits behind the splice
/// type, then twice fifteen bits, a marker bit behind each of the three.
pub open spec fn dts_next_access_unit_at(b: Seq<u8>, at: int) -> u64 {
    ((bits_at(b[at], 4, 3) as u64) << 30) | ((join_bits(b[at + 1], bits_at(b[at + 2], 0, 7), 7) as u64)
        << 15) | (join_bits(b[at + 3], bits_at(b[at + 4], 0, 7), 7) as u64)
}

/// The number of bytes that the parts of an extension take whose flags are
/// `flags`, the byte of the flags included.
pub open spec fn extension_width(flags: u8) -> int {
    1 + width_if(bit_at(flags, 0), 2) + width_if(bit_at(flags, 1), 3) + width_if(
        bit_at(flags, 2),
        5,
    )
}

/// The extension whose body, the bytes behind its length, is `b`.
pub open spec fn extension_of(b: Seq<u8>) -> Result<AdaptationFieldExtension, DecodeError> {
    if b.len() < 1 || b.len() < extension_width(b[0]) {
        Err(DecodeError::AdaptationFieldOverrun)
    } else {
        let flags = b[0];
        let window = bit_at(flags, 0);
        let piecewise = bit_at(flags, 1);
        let seamless = bit_at(flags, 2);
        let window_at = 1int;
        let piecewise_at = window_at + width_if(window, 2);
        let seamless_at = piecewise_at + width_if(piecewise, 3);
        Ok(
            AdaptationFieldExtension {
                adaptation_extension_length: b.len() as u8,
                legal_time_window_flag: window,
                piecewise_rate_flag: piecewise,
                seamless_rate_flag: seamless,
                legal_time_window_valid_flag: if window {
                    Some(bit_at(b[window_at], 0))
                } else {
                    None
                },
                legal_time_window_offset: if window {
                    Some(legal_time_window_offset_at(b, window_at))
                } else {
                    None
                },
                piecewise_rate: if piecewise {
                    Some(piecewise_rate_at(b, piecewise_at))
                } else {
                    None
                },
                splice_type: if seamless {
                    Some(bits_at(b[seamless_at], 0, 4))
                } else {
                    None
                },
                dts_next_access_unit: if seamless {
                    Some(dts_next_access_unit_at(b, seamless_at))
                } else {
                    None
                },
            },
        )
    }
}

/// The bytes that a length at `c` announces: the outcome of pulling the byte
/// of the length and then as many bytes as it says.
pub open spec fn body_at(c: Cursor) -> Result<(Seq<u8>, Cursor), DecodeError> {
    if c.bit_position != 0 {
        Err(DecodeError::NotByteAligned)
    } else if c.position >= c.data.len() || c.position + 1 + c.data[c.position as int]
        > c.data.len() {
        Err(DecodeError::OutOfData)
    } else {
        let end = c.position + 1 + c.data[c.position as int];
        Ok(
            (
                c.data.subrange((c.position + 1) as int, end as int),
                Cursor { data: c.data, position: end as nat, bit_position: 0 },
            ),
        )
    }
}

/// The outcome of decoding an extension at `c`.
pub open spec fn extension_at(c: Cursor) -> Result<
    (AdaptationFieldExtension, Cursor),
    DecodeError,
> {
    match body_at(c) {
        Err(e) => Err(e),
        Ok((body, end)) => match extension_of(body) {
            Err(e) => Err(e),
            Ok(extension) => Ok((extension, end)),
        },
    }
}

/// The six bytes at `at` as one number, the first byte its high-order part.
pub open spec fn clock_reference_at(b: Seq<u8>, at: int) -> u64 {
    ((b[at] as u64) << 40) | ((b[at + 1] as u64) << 32) | ((b[at + 2] as u64) << 24) | ((b[at
        + 3] as u64) << 16) | ((b[at + 4] as u64) << 8) | (b[at + 5] as u64)
}

/// The private data at `c` where `flag` announces them: a length of one byte
/// and that many bytes.
pub open spec fn private_data_at(c: Cursor, flag: bool) -> Result<
    (Option<Seq<u8>>, Cursor),
    DecodeError,
> {
    if flag {
        match inside(body_at(c)) {
            Err(e) => Err(e),
            Ok((bytes, end)) => Ok((Some(bytes), end)),
        }
    } else {
        Ok((None, c))
    }
}

/// The extension at `c` where `flag` announces one.
pub open spec fn optional_extension_at(c: Cursor, flag: bool) -> Result<
    (Option<AdaptationFieldExtension>, Cursor),
    DecodeError,
> {
    if flag {
        match inside(extension_at(c)) {
            Err(e) => Err(e),
            Ok((extension, end)) => Ok((Some(extension), end)),
        }
    } else {
        Ok((None, c))
    }
}

/// The bytes of `b` from `at` on, where there are any.
pub open spec fn stuffing_at(b: Seq<u8>, at: int) -> Option<Seq<u8>> {
    if at < b.len() {
        Some(b.subrange(at, b.len() as int))
    } else {
        None
    }
}

/// The number of bytes that the flags `flags` of an adaptation field ask for
/// at the least: the byte of the flags, the clock references, the splice
/// countdown, and the bytes that give the lengths of the private data and of
/// the extension.
pub open spec fn least_field_width(flags: u8) -> int {
    1 + width_if(bit_at(flags, 3), 6) + width_if(bit_at(flags, 4), 6) + width_if(
        bit_at(flags, 5),
        1,
    ) + width_if(bit_at(flags, 6), 1) + width_if(bit_at(flags, 7), 1)
}

/// The adaptation field whose body, the bytes behind its length, is `b`: the
/// byte of the flags, the clock references and the splice countdown at fixed
/// places behind it, then the private data, the extension and the stuffing.
pub open spec fn adaptation_field_of(b: Seq<u8>) -> Result<AdaptationFieldView, DecodeError> {
    if b.len() < 1 {
        Err(DecodeError::AdaptationFieldOverrun)
    } else {
        let flags = b[0];
        let pcr_at = 1int;
        let opcr_at = pcr_at + width_if(bit_at(flags, 3), 6);
        let splice_at = opcr_at + width_if(bit_at(flags, 4), 6);
        let private_at = splice_at + width_if(bit_at(flags, 5), 1);
        if private_at > b.len() {
            Err(DecodeError::AdaptationFieldOverrun)
        } else {
            match private_data_at(
                Cursor { data: b, position: private_at as nat, bit_position: 0 },
                bit_at(flags, 6),
            ) {
                Err(e) => Err(e),
                Ok((private_data, extension_start)) => match optional_extension_at(
                    extension_start,
                    bit_at(flags, 7),
                ) {
                    Err(e) => Err(e),
                    Ok((extension, end)) => Ok(
                        AdaptationFieldView {
                            field_length: b.len() as u8,
                            discontinuity: bit_at(flags, 0),
                            random_access: bit_at(flags, 1),
                            elementary_stream_priority: bit_at(flags, 2),
                            pcr: if bit_at(flags, 3) {
                                Some(clock_reference_at(b, pcr_at))
                            } else {
                                None
                            },
                            opcr: if bit_at(flags, 4) {
                                Some(clock_reference_at(b, opcr_at))
                            } else {
                                None
                            },
                            splice_countdown: if bit_at(flags, 5) {
                                Some(b[splice_at])
                            } else {
                                None
                            },
                            transport_private_data: private_data,
                            adaptation_extension: extension,
                            stuffing_bytes: stuffing_at(b, end.position as int),
                        },
                    ),
                },
            }
        }
    }
}

/// The outcome of decoding an adaptation field at `c`.
pub open spec fn adaptation_field_at(c: Cursor) -> Result<
    (AdaptationFieldView, Cursor),
    DecodeError,
> {
    match body_at(c) {
        Err(e) => Err(e),
        Ok((body, end)) => match adaptation_field_of(body) {
            Err(e) => Err(e),
            Ok(field) => Ok((field, end)),
        },
    }
}

/// The adaptation field at `c` where `flag` announces one.
pub open spec fn optional_adaptation_field_at(c: Cursor, flag: bool) -> Result<
    (Option<AdaptationFieldView>, Cursor),
    DecodeError,
> {
    if flag {
        match adaptation_field_at(c) {
            Err(e) => Err(e),
            Ok((field, end)) => Ok((Some(field), end)),
        }
    } else {
        Ok((None, c))
    }
}

/// The packet that the bytes `d` are: the header, the adaptation field where
/// the header announces one, and as payload, where it announces one, all the
/// bytes that follow.
pub open spec fn packet_of(d: Seq<u8>) -> Result<PacketView, DecodeError> {
    match header_at(Cursor::start(d)) {
        Err(e) => Err(e),
        Ok((header, c)) => match optional_adaptation_field_at(c, header.adaptation_field_present) {
            Err(e) => Err(e),
            Ok((field, end)) => Ok(
                PacketView {
                    header,
                    adaptation_field: field,
                    payload: if header.payload_present {
                        Some(d.subrange(end.position as int, d.len() as int))
                    } else {
                        None
                    },
                },
            ),
        },
    }
}

/// What a read inside a body of declared length came to: that the body has
/// run out means that the length was too small.
pub open spec fn inside<T>(r: Result<T, DecodeError>) -> Result<T, DecodeError> {
    match r {
        Err(DecodeError::OutOfData) => Err(DecodeError::AdaptationFieldOverrun),
        _ => r,
    }
}

fn within<T>(r: Result<T, DecodeError>) -> (out: Result<T, DecodeError>)
    ensures
        out == inside(r),
{
    match r {
        Err(DecodeError::OutOfData) => Err(DecodeError::AdaptationFieldOverrun),
        Err(e) => Err(e),
        Ok(v) => Ok(v),
    }
}

/// Pulls the byte of a length and the bytes that it announces.
fn pull_body<'a>(s: &mut Stream<'a>) -> (r: Result<&'a [u8], DecodeError>)
    ensures
        follows(
            old(s)@,
            final(s)@,
            match r {
                Ok(bytes) => Ok(bytes@),
                Err(e) => Err(e),
            },
            body_at(old(s)@),
        ),
        r is Ok ==> r.unwrap()@.len() <= 255,
{
    let mut t = s.fork();
    let length: u8 = t.pull_byte()?;
    let body: &'a [u8] = t.pull_bytes(length as usize)?;
    *s = t;
    Ok(body)
}

impl PacketHeader {
    /// Decodes the header at the cursor, which stays where it is on failure.
    pub fn parse(s: &mut Stream) -> (r: Result<PacketHeader, DecodeError>)
        ensures
            follows(old(s)@, final(s)@, r, header_at(old(s)@)),
    {
        let mut t = s.fork();
        let sync_byte: u8 = t.pull_byte()?;
        let transport_error: bool = t.pull_bit()?;
        let payload_unit_start: bool = t.pull_bit()?;
        let transport_priority: bool = t.pull_bit()?;
        let pid: u16 = t.pull_bits_u16(13)?;
        let scrambling_control: u8 = t.pull_bits(2)?;
        let adaptation_field_present: bool = t.pull_bit()?;
        let payload_present: bool = t.pull_bit()?;
        let continuity_counter: u8 = t.pull_bits(4)?;
        *s = t;
        Ok(
            PacketHeader {
                sync_byte,
                transport_error,
                payload_unit_start,
                transport_priority,
                pid,
                scrambling_control,
                adaptation_field_present,
                payload_present,
                continuity_counter,
            },
        )
    }

    /// The two flags as one number of two bits: 2 for the adaptation field
    /// plus 1 for the payload.
    pub fn adaptation_field_control(&self) -> (v: u8)
        ensures
            v == (if self.adaptation_field_present {
                2int
            } else {
                0
            }) + (if self.payload_present {
                1int
            } else {
                0
            }),
    {
        let high: u8 = if self.adaptation_field_present { 2 } else { 0 };
        let low: u8 = if self.payload_present { 1 } else { 0 };
        high + low
    }
}

/// The three flags of an extension, in the order of the wire.
fn pull_extension_flags(s: &mut Stream) -> (r: Result<(bool, bool, bool), DecodeError>)
    ensures
        follows(
            old(s)@,
            final(s)@,
            r,
            part_at(
                old(s)@,
                1,
                (
                    bit_at(old(s)@.current(), 0),
                    bit_at(old(s)@.current(), 1),
                    bit_at(old(s)@.current(), 2),
                ),
            ),
        ),
{
    let mut t = s.fork();
    if !t.aligned() {
        return Err(DecodeError::NotByteAligned);
    }
    let window: bool = t.pull_bit()?;
    let piecewise: bool = t.pull_bit()?;
    let seamless: bool = t.pull_bit()?;
    let _reserved: u8 = t.pull_bits(5)?;
    *s = t;
    Ok((window, piecewise, seamless))
}

/// Whether the legal time window offset is valid, and the offset.
fn pull_legal_time_window(s: &mut Stream) -> (r: Result<(bool, u16), DecodeError>)
    ensures
        follows(
            old(s)@,
            final(s)@,
            r,
            part_at(
                old(s)@,
                2,
                (
                    bit_at(old(s)@.current(), 0),
                    legal_time_window_offset_at(old(s)@.data, old(s)@.position as int),
                ),
            ),
        ),
{
    let mut t = s.fork();
    if !t.aligned() {
        return Err(DecodeError::NotByteAligned);
    }
    let valid: bool = t.pull_bit()?;
    let offset: u16 = t.pull_bits_u16(15)?;
    *s = t;
    Ok((valid, offset))
}

/// The piecewise rate, behind its two reserved bits.
fn pull_piecewise_rate(s: &mut Stream) -> (r: Result<u32, DecodeError>)
    ensures
        follows(
            old(s)@,
            final(s)@,
            r,
            part_at(old(s)@, 3, piecewise_rate_at(old(s)@.data, old(s)@.position as int)),
        ),
{
    let mut t = s.fork();
    if !t.aligned() {
        return Err(DecodeError::NotByteAligned);
    }
    let _reserved: u8 = t.pull_bits(2)?;
    let high: u16 = t.pull_bits_u16(14)?;
    let low: u8 = t.pull_byte()?;
    *s = t;
    Ok(((high as u32) << 8) | (low as u32))
}

/// The splice type and the time stamp of the next access unit, whose marker
/// bits are pulled and dropped.
fn pull_seamless_splice(s: &mut Stream) -> (r: Result<(u8, u64), DecodeError>)
    ensures
        follows(
            old(s)@,
            final(s)@,
            r,
            part_at(
                old(s)@,
                5,
                (
                    bits_at(old(s)@.current(), 0, 4),
                    dts_next_access_unit_at(old(s)@.data, old(s)@.position as int),
                ),
            ),
        ),
{
    let mut t = s.fork();
    if !t.aligned() {
        return Err(DecodeError::NotByteAligned);
    }
    let splice_type: u8 = t.pull_bits(4)?;
    let high: u8 = t.pull_bits(3)?;
    let _marker: bool = t.pull_bit()?;
    let middle: u16 = t.pull_bits_u16(15)?;
    let _marker: bool = t.pull_bit()?;
    let low: u16 = t.pull_bits_u16(15)?;
    let _marker: bool = t.pull_bit()?;
    *s = t;
    Ok((splice_type, ((high as u64) << 30) | ((middle as u64) << 15) | (low as u64)))
}

impl AdaptationFieldExtension {
    /// Decodes the body of an extension: the bytes behind its length.
    fn parse_body(body: &[u8]) -> (r: Result<AdaptationFieldExtension, DecodeError>)
        requires
            body@.len() <= 255,
        ensures
            r == extension_of(body@),
    {
        let mut t = Stream::new(body);
        let (legal_time_window_flag, piecewise_rate_flag, seamless_rate_flag) = within(
            pull_extension_flags(&mut t),
        )?;
        let mut extension = AdaptationFieldExtension {
            adaptation_extension_length: body.len() as u8,
            legal_time_window_flag,
            piecewise_rate_flag,
            seamless_rate_flag,
            legal_time_window_valid_flag: None,
            legal_time_window_offset: None,
            piecewise_rate: None,
            splice_type: None,
            dts_next_access_unit: None,
        };
        if legal_time_window_flag {
            let (valid, offset) = within(pull_legal_time_window(&mut t))?;
            extension.legal_time_window_valid_flag = Some(valid);
            extension.legal_time_window_offset = Some(offset);
        }
        if piecewise_rate_flag {
            extension.piecewise_rate = Some(within(pull_piecewise_rate(&mut t))?);
        }
        if seamless_rate_flag {
            let (splice_type, dts) = within(pull_seamless_splice(&mut t))?;
            extension.splice_type = Some(splice_type);
            extension.dts_next_access_unit = Some(dts);
        }
        Ok(extension)
    }

    /// Decodes the extension at the cursor, which stays where it is on
    /// failure. The bytes of the body that no part takes are reserved: they
    /// are passed over.
    pub fn parse(s: &mut Stream) -> (r: Result<AdaptationFieldExtension, DecodeError>)
        ensures
            follows(old(s)@, final(s)@, r, extension_at(old(s)@)),
    {
        let mut t = s.fork();
        let body = pull_body(&mut t)?;
        let extension = AdaptationFieldExtension::parse_body(body)?;
        *s = t;
        Ok(extension)
    }
}

/// The eight bits of an adaptation field's byte of flags, in the order of the
/// wire: three indicators, then the flags of the five optional parts.
fn pull_field_flags(s: &mut Stream) -> (r: Result<
    ((bool, bool, bool), (bool, bool, bool, bool, bool)),
    DecodeError,
>)
    ensures
        follows(
            old(s)@,
            final(s)@,
            r,
            part_at(
                old(s)@,
                1,
                (
                    (
                        bit_at(old(s)@.current(), 0),
                        bit_at(old(s)@.current(), 1),
                        bit_at(old(s)@.current(), 2),
                    ),
                    (
                        bit_at(old(s)@.current(), 3),
                        bit_at(old(s)@.current(), 4),
                        bit_at(old(s)@.current(), 5),
                        bit_at(old(s)@.current(), 6),
                        bit_at(old(s)@.current(), 7),
                    ),
                ),
            ),
        ),
{
    let mut t = s.fork();
    if !t.aligned() {
        return Err(DecodeError::NotByteAligned);
    }
    let discontinuity: bool = t.pull_bit()?;
    let random_access: bool = t.pull_bit()?;
    let elementary_stream_priority: bool = t.pull_bit()?;
    let pcr_flag: bool = t.pull_bit()?;
    let opcr_flag: bool = t.pull_bit()?;
    let splicing_point_flag: bool = t.pull_bit()?;
    let transport_private_data_flag: bool = t.pull_bit()?;
    let adaptation_field_extension: bool = t.pull_bit()?;
    *s = t;
    Ok(
        (
            (discontinuity, random_access, elementary_stream_priority),
            (
                pcr_flag,
                opcr_flag,
                splicing_point_flag,
                transport_private_data_flag,
                adaptation_field_extension,
            ),
        ),
    )
}

/// Pulls six bytes as one number where `flag` is set.
fn pull_optional_clock_reference(s: &mut Stream, flag: bool) -> (r: Result<
    Option<u64>,
    DecodeError,
>)
    ensures
        follows(
            old(s)@,
            final(s)@,
            r,
            part_at(
                old(s)@,
                width_if(flag, 6) as nat,
                if flag {
                    Some(clock_reference_at(old(s)@.data, old(s)@.position as int))
                } else {
                    None
                },
            ),
        ),
{
    proof {
        use_type_invariant(&*s);
    }
    if !s.aligned() {
        return Err(DecodeError::NotByteAligned);
    }
    if flag {
        let b = s.pull_bytes(6)?;
        Ok(
            Some(
                ((b[0] as u64) << 40) | ((b[1] as u64) << 32) | ((b[2] as u64) << 24) | ((
                b[3] as u64) << 16) | ((b[4] as u64) << 8) | (b[5] as u64),
            ),
        )
    } else {
        Ok(None)
    }
}

/// Pulls one byte where `flag` is set.
fn pull_optional_byte(s: &mut Stream, flag: bool) -> (r: Result<Option<u8>, DecodeError>)
    ensures
        follows(
            old(s)@,
            final(s)@,
            r,
            part_at(
                old(s)@,
                width_if(flag, 1) as nat,
                if flag {
                    Some(old(s)@.current())
                } else {
                    None
                },
            ),
        ),
{
    proof {
        use_type_invariant(&*s);
    }
    if !s.aligned() {
        return Err(DecodeError::NotByteAligned);
    }
    if flag {
        Ok(Some(s.pull_byte()?))
    } else {
        Ok(None)
    }
}

/// Pulls a length and the bytes that it announces where `flag` is set, and
/// copies them.
fn pull_private_data(s: &mut Stream, flag: bool) -> (r: Result<Option<Vec<u8>>, DecodeError>)
    ensures
        follows(
            old(s)@,
            final(s)@,
            match r {
                Ok(Some(bytes)) => Ok(Some(bytes@)),
                Ok(None) => Ok(None),
                Err(e) => Err(e),
            },
            private_data_at(old(s)@, flag),
        ),
{
    if flag {
        let bytes = within(pull_body(s))?;
        Ok(Some(slice_to_vec(bytes)))
    } else {
        Ok(None)
    }
}

/// Decodes an extension where `flag` is set.
fn pull_optional_extension(s: &mut Stream, flag: bool) -> (r: Result<
    Option<AdaptationFieldExtension>,
    DecodeError,
>)
    ensures
        follows(old(s)@, final(s)@, r, optional_extension_at(old(s)@, flag)),
{
    if flag {
        Ok(Some(within(AdaptationFieldExtension::parse(s))?))
    } else {
        Ok(None)
    }
}

impl<'a> AdaptationField<'a> {
    /// Decodes the body of an adaptation field: the bytes behind its length.
    /// A part that does not fit into the body is an overrun.
    fn parse_body(body: &'a [u8]) -> (r: Result<AdaptationField<'a>, DecodeError>)
        requires
            body@.len() <= 255,
        ensures
            decoded(r) == adaptation_field_of(body@),
    {
        let mut t = Stream::new(body);
        let (indicators, flags) = within(pull_field_flags(&mut t))?;
        let pcr = within(pull_optional_clock_reference(&mut t, flags.0))?;
        let opcr = within(pull_optional_clock_reference(&mut t, flags.1))?;
        let splice_countdown = within(pull_optional_byte(&mut t, flags.2))?;
        let transport_private_data = pull_private_data(&mut t, flags.3)?;
        let extension = pull_optional_extension(&mut t, flags.4)?;
        let rest = t.pull_rest()?;
        Ok(
            AdaptationField {
                field_length: body.len() as u8,
                discontinuity: indicators.0,
                random_access: indicators.1,
                elementary_stream_priority: indicators.2,
                pcr,
                opcr,
                splice_countdown,
                transport_private_data,
                adaptation_extension: match extension {
                    Some(extension) => Some(Box::new(extension)),
                    None => None,
                },
                stuffing_bytes: if rest.len() > 0 {
                    Some(rest)
                } else {
                    None
                },
            },
        )
    }

    /// Decodes the adaptation field at the cursor, which stays where it is on
    /// failure.
    pub fn parse(s: &mut Stream<'a>) -> (r: Result<AdaptationField<'a>, DecodeError>)
        ensures
            follows(old(s)@, final(s)@, decoded(r), adaptation_field_at(old(s)@)),
            ({
                let c = old(s)@;
                &&& c.bit_position == 0
                &&& c.position + 1 + c.current() <= c.data.len()
                &&& (c.current() == 0 || c.current() < least_field_width(
                    c.data[c.position as int + 1],
                ))
            }) ==> r == Err::<AdaptationField<'a>, DecodeError>(
                DecodeError::AdaptationFieldOverrun,
            ),
    {
        proof {
            use_type_invariant(&*s);
            let c = s@;
            if c.bit_position == 0 && c.position + 1 + c.current() <= c.data.len() && (c.current()
                == 0 || c.current() < least_field_width(c.data[c.position as int + 1])) {
                short_field_length_overruns(c);
            }
        }
        let mut t = s.fork();
        let body = pull_body(&mut t)?;
        let field = AdaptationField::parse_body(body)?;
        *s = t;
        Ok(field)
    }
}

impl<'a> PTSPacket<'a> {
    /// Decodes the header that starts `data`, and nothing behind it.
    pub fn parse_header(data: &[u8]) -> (r: Result<PacketHeader, DecodeError>)
        ensures
            r == (if data@.len() < 4 {
                Err(DecodeError::OutOfData)
            } else {
                Ok(header_of(data@))
            }),
    {
        let mut s = Stream::new(data);
        PacketHeader::parse(&mut s)
    }

    /// Decodes one packet. No part of it is returned where any part fails.
    pub fn parse(data: &'a [u8]) -> (r: Result<PTSPacket<'a>, DecodeError>)
        ensures
            decoded(r) == packet_of(data@),
            data@.len() < 4 ==> r == Err::<PTSPacket<'a>, DecodeError>(DecodeError::OutOfData),
            data@.len() >= 4 && !header_of(data@).adaptation_field_present ==> {
                &&& r is Ok
                &&& r.unwrap().adaptation_field is None
                &&& header_of(data@).payload_present ==> decoded(r).unwrap().payload == Some(
                    data@.subrange(4, data@.len() as int),
                )
            },
    {
        proof {
            if data@.len() >= 4 && !header_of(data@).adaptation_field_present {
                no_adaptation_field_without_flag(data@);
            }
        }
        let mut s = Stream::new(data);
        let header = PacketHeader::parse(&mut s)?;
        let mut packet = PTSPacket {
            sync_byte: header.sync_byte,
            transport_error: header.transport_error,
            payload_unit_start: header.payload_unit_start,
            transport_priority: header.transport_priority,
            pid: header.pid,
            scrambling_control: header.scrambling_control,
            adaptation_field_present: header.adaptation_field_present,
            payload_present: header.payload_present,
            continuity_counter: header.continuity_counter,
            adaptation_field: None,
            payload: None,
        };
        if header.adaptation_field_present {
            let field = AdaptationField::parse(&mut s)?;
            packet.adaptation_field = Some(Box::new(field));
        }
        if header.payload_present {
            packet.payload = Some(s.pull_rest()?);
        }
        Ok(packet)
    }
}

} // verus!
