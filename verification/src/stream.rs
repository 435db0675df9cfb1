//! Bit level stream.
//!
//! Bits inside a byte are numbered from the least significant one: the first
//! bit pulled from a byte is its bit 0, the last one its bit 7. A read of up
//! to sixteen bits over a byte boundary is big endian: the bits taken from the
//! first byte are the high-order part of the result.

use vstd::prelude::*;
use vstd::slice::slice_subrange;
use crate::error::DecodeError;

verus! {

/// Bit `i` of `byte`, counted from the least significant bit.
pub open spec fn bit_at(byte: u8, i: u8) -> bool {
    (byte >> i) & 1u8 == 1u8
}

/// The `n` bits of `byte` that start at bit `from`, as a number: bit `from`
/// of `byte` is bit 0 of the result.
pub open spec fn bits_at(byte: u8, from: u8, n: u8) -> u8 {
    (byte >> from) & (((1u16 << n) - 1) as u8)
}

/// `high` followed by the `n` bits of `low`, `high` being the high-order part.
pub open spec fn join_bits(high: u8, low: u8, n: u8) -> u16 {
    ((high as u16) << n) | (low as u16)
}

/// What a [`Stream`] is: the bytes it reads from, the index of the byte that
/// the next read touches, and the number of bits of that byte already pulled.
pub struct Cursor {
    pub data: Seq<u8>,
    pub position: nat,
    pub bit_position: nat,
}

impl Cursor {
    /// The cursor lies inside the data, and has consumed bits only of a byte
    /// that exists.
    pub open spec fn wf(self) -> bool {
        &&& self.position <= self.data.len()
        &&& self.bit_position <= 7
        &&& (self.bit_position > 0 ==> self.position < self.data.len())
    }

    /// A cursor at the start of `data`.
    pub open spec fn start(data: Seq<u8>) -> Cursor {
        Cursor { data, position: 0, bit_position: 0 }
    }

    /// No byte is left to read from.
    pub open spec fn exhausted(self) -> bool {
        self.position >= self.data.len()
    }

    /// The byte that the next read touches.
    pub open spec fn current(self) -> u8
        recommends
            !self.exhausted(),
    {
        self.data[self.position as int]
    }

    /// The cursor `n` bits further on, for `n` bits that the current byte
    /// still has: the byte's last bit carries the cursor to the next byte.
    pub open spec fn advance(self, n: nat) -> Cursor
        recommends
            self.bit_position + n <= 8,
    {
        if self.bit_position + n >= 8 {
            Cursor { data: self.data, position: self.position + 1, bit_position: 0 }
        } else {
            Cursor { data: self.data, position: self.position, bit_position: self.bit_position + n }
        }
    }

    /// The outcome of pulling one bit.
    pub open spec fn pull_bit(self) -> Result<(bool, Cursor), DecodeError> {
        if self.exhausted() {
            Err(DecodeError::OutOfData)
        } else {
            Ok((bit_at(self.current(), self.bit_position as u8), self.advance(1)))
        }
    }

    /// The outcome of pulling one whole byte.
    pub open spec fn pull_byte(self) -> Result<(u8, Cursor), DecodeError> {
        if self.bit_position != 0 {
            Err(DecodeError::NotByteAligned)
        } else if self.exhausted() {
            Err(DecodeError::OutOfData)
        } else {
            Ok((self.current(), self.advance(8)))
        }
    }

    /// The outcome of pulling `n` bits of the current byte.
    pub open spec fn pull_bits(self, n: u8) -> Result<(u8, Cursor), DecodeError> {
        if n > 8 {
            Err(DecodeError::InvalidBitCount)
        } else if n == 8 {
            self.pull_byte()
        } else if self.bit_position + n > 8 {
            Err(DecodeError::InsufficientBitsInByte)
        } else if self.exhausted() {
            Err(DecodeError::OutOfData)
        } else {
            Ok((bits_at(self.current(), self.bit_position as u8, n), self.advance(n as nat)))
        }
    }

    /// The outcome of pulling `n` whole bytes at once.
    pub open spec fn pull_bytes(self, n: nat) -> Result<(Seq<u8>, Cursor), DecodeError> {
        if self.bit_position != 0 {
            Err(DecodeError::NotByteAligned)
        } else if self.position + n > self.data.len() {
            Err(DecodeError::OutOfData)
        } else {
            Ok(
                (
                    self.data.subrange(self.position as int, (self.position + n) as int),
                    Cursor { data: self.data, position: self.position + n, bit_position: 0 },
                ),
            )
        }
    }

    /// The outcome of pulling every byte that is left.
    pub open spec fn pull_rest(self) -> Result<(Seq<u8>, Cursor), DecodeError> {
        if self.bit_position != 0 {
            Err(DecodeError::NotByteAligned)
        } else {
            Ok(
                (
                    self.data.subrange(self.position as int, self.data.len() as int),
                    Cursor { data: self.data, position: self.data.len(), bit_position: 0 },
                ),
            )
        }
    }

    /// The outcome of pulling `n` bits that start in the current byte and end
    /// in the next one: the rest of the current byte, then what is missing, as
    /// two reads of which the second happens only after the first succeeded.
    pub open spec fn pull_bits_u16(self, n: u8) -> Result<(u16, Cursor), DecodeError> {
        if n > 16 || n < 8 - self.bit_position {
            Err(DecodeError::InvalidBitCount)
        } else {
            let n1 = (8 - self.bit_position) as u8;
            let n2 = (n - n1) as u8;
            match self.pull_bits(n1) {
                Err(e) => Err(e),
                Ok((high, middle)) => match middle.pull_bits(n2) {
                    Err(e) => Err(e),
                    Ok((low, end)) => Ok((join_bits(high, low, n2), end)),
                },
            }
        }
    }
}

/// A read that went from `before` to `after` and returned `r` did what
/// `outcome` says: on success it returned the value and moved the cursor, on
/// failure it returned the error and left the cursor where it was.
pub open spec fn follows<T>(
    before: Cursor,
    after: Cursor,
    r: Result<T, DecodeError>,
    outcome: Result<(T, Cursor), DecodeError>,
) -> bool {
    match outcome {
        Ok((v, c)) => r == Ok::<T, DecodeError>(v) && after == c,
        Err(e) => r == Err::<T, DecodeError>(e) && after == before,
    }
}

/// A forward-only cursor over a byte slice, which it borrows and never copies.
#[derive(Debug)]
pub struct Stream<'a> {
    data: &'a [u8],
    /// Current byte position in data
    position: usize,
    /// Current bit position in current byte
    bit_position: u8,
}

impl<'a> View for Stream<'a> {
    type V = Cursor;

    closed spec fn view(&self) -> Cursor {
        Cursor {
            data: self.data@,
            position: self.position as nat,
            bit_position: self.bit_position as nat,
        }
    }
}

impl<'a> Stream<'a> {
    /// Every stream is well formed, at any time.
    #[verifier::type_invariant]
    pub open spec fn inv(self) -> bool {
        self@.wf()
    }

    /// A stream at the start of `data`.
    pub fn new(data: &'a [u8]) -> (s: Stream<'a>)
        ensures
            s@ == Cursor::start(data@),
    {
        Stream { data: data, position: 0, bit_position: 0 }
    }

    /// A second cursor at the place of this one, over the same bytes. Reading
    /// from it does not move this one.
    pub fn fork(&self) -> (s: Stream<'a>)
        ensures
            s@ == self@,
    {
        proof {
            use_type_invariant(self);
        }
        Stream { data: self.data, position: self.position, bit_position: self.bit_position }
    }

    /// Whether no bit of the current byte has been pulled.
    pub fn aligned(&self) -> (b: bool)
        ensures
            b == (self@.bit_position == 0),
    {
        self.bit_position == 0
    }

    /// Pull a single byte from the stream (only allowed if bit position is aligned)
    pub fn pull_byte(&mut self) -> (r: Result<u8, DecodeError>)
        ensures
            follows(old(self)@, final(self)@, r, old(self)@.pull_byte()),
            old(self)@.bit_position != 0 ==> r == Err::<u8, DecodeError>(
                DecodeError::NotByteAligned,
            ),
            old(self)@.exhausted() ==> r == Err::<u8, DecodeError>(DecodeError::OutOfData),
    {
        proof {
            use_type_invariant(&*self);
        }
        if self.bit_position > 0 {
            Err(DecodeError::NotByteAligned)
        } else if self.position >= self.data.len() {
            Err(DecodeError::OutOfData)
        } else {
            let v: u8 = self.data[self.position];
            self.position += 1;
            Ok(v)
        }
    }

    /// Pull a single bit from the stream
    pub fn pull_bit(&mut self) -> (r: Result<bool, DecodeError>)
        ensures
            follows(old(self)@, final(self)@, r, old(self)@.pull_bit()),
            old(self)@.exhausted() ==> r == Err::<bool, DecodeError>(DecodeError::OutOfData),
    {
        proof {
            use_type_invariant(&*self);
        }
        if self.position >= self.data.len() {
            Err(DecodeError::OutOfData)
        } else {
            let byte: u8 = self.data[self.position];
            let at: u8 = self.bit_position;
            let v: bool = (byte & (1u8 << at)) > 0;
            assert(v == bit_at(byte, at)) by (bit_vector)
                requires
                    at < 8,
                    v == ((byte & (1u8 << at)) > 0),
            ;
            if self.bit_position == 7 {
                *self = Stream { data: self.data, position: self.position + 1, bit_position: 0 };
            } else {
                self.bit_position += 1;
            }
            Ok(v)
        }
    }

    /// Pull n bits from the stream (from current byte position only)
    /// Cannot pull more than 8 bits
    ///
    /// Eight bits are a whole byte, and are pulled as one. No bits at all are
    /// the number 0, and leave the cursor where it is; like every pull, this
    /// one needs a byte to read from.
    pub fn pull_bits(&mut self, n: u8) -> (r: Result<u8, DecodeError>)
        ensures
            follows(old(self)@, final(self)@, r, old(self)@.pull_bits(n)),
            n > 8 ==> r == Err::<u8, DecodeError>(DecodeError::InvalidBitCount),
            n <= 8 && old(self)@.exhausted() ==> r == Err::<u8, DecodeError>(
                DecodeError::OutOfData,
            ),
    {
        proof {
            use_type_invariant(&*self);
        }
        if n > 8 {
            Err(DecodeError::InvalidBitCount)
        } else if n == 8 {
            self.pull_byte()
        } else if self.bit_position + n > 8 {
            Err(DecodeError::InsufficientBitsInByte)
        } else if self.position >= self.data.len() {
            Err(DecodeError::OutOfData)
        } else {
            let byte: u8 = self.data[self.position];
            let at: u8 = self.bit_position;
            // The n bits wanted are those from `at` on, below bit `at + n`.
            let marker: u16 = 1u16 << n;
            assert(1 <= marker <= 128) by (bit_vector)
                requires
                    n < 8,
                    marker == 1u16 << n,
            ;
            let mask: u8 = (marker - 1) as u8;
            let v: u8 = (byte >> at) & mask;
            if self.bit_position + n == 8 {
                *self = Stream { data: self.data, position: self.position + 1, bit_position: 0 };
            } else {
                self.bit_position += n;
            }
            Ok(v)
        }
    }

    /// Pull n whole bytes from the stream, as a slice of the bytes it reads from
    /// (only allowed if bit position is aligned)
    pub fn pull_bytes(&mut self, n: usize) -> (r: Result<&'a [u8], DecodeError>)
        ensures
            follows(
                old(self)@,
                final(self)@,
                match r {
                    Ok(bytes) => Ok(bytes@),
                    Err(e) => Err(e),
                },
                old(self)@.pull_bytes(n as nat),
            ),
    {
        proof {
            use_type_invariant(&*self);
        }
        if self.bit_position > 0 {
            Err(DecodeError::NotByteAligned)
        } else if n > self.data.len() - self.position {
            Err(DecodeError::OutOfData)
        } else {
            let bytes: &'a [u8] = slice_subrange(self.data, self.position, self.position + n);
            self.position += n;
            Ok(bytes)
        }
    }

    /// Pull all the bytes that are left (only allowed if bit position is aligned)
    pub fn pull_rest(&mut self) -> (r: Result<&'a [u8], DecodeError>)
        ensures
            follows(
                old(self)@,
                final(self)@,
                match r {
                    Ok(bytes) => Ok(bytes@),
                    Err(e) => Err(e),
                },
                old(self)@.pull_rest(),
            ),
    {
        proof {
            use_type_invariant(&*self);
        }
        if self.bit_position > 0 {
            Err(DecodeError::NotByteAligned)
        } else {
            let bytes: &'a [u8] = slice_subrange(self.data, self.position, self.data.len());
            self.position = self.data.len();
            Ok(bytes)
        }
    }

    /// Pull n bits that end in the next byte: what is left of the current byte,
    /// then the rest from the next one. The first part is the high-order one.
    ///
    /// So n is at least what the current byte has left, and at most eight bits
    /// more. Where the second part fails, the first one is not kept.
    pub fn pull_bits_u16(&mut self, n: u8) -> (r: Result<u16, DecodeError>)
        ensures
            follows(old(self)@, final(self)@, r, old(self)@.pull_bits_u16(n)),
            n > 16 ==> r == Err::<u16, DecodeError>(DecodeError::InvalidBitCount),
            8 - old(self)@.bit_position <= n <= 16 - old(self)@.bit_position && old(self)@.position
                + 1 >= old(self)@.data.len() ==> r == Err::<u16, DecodeError>(
                DecodeError::OutOfData,
            ),
    {
        proof {
            use_type_invariant(&*self);
        }
        if n > 16 || n < 8 - self.bit_position {
            Err(DecodeError::InvalidBitCount)
        } else {
            let position: usize = self.position;
            let bit_position: u8 = self.bit_position;
            let n1: u8 = 8 - self.bit_position;
            let n2: u8 = n - n1;
            match self.pull_bits(n1) {
                Err(e) => Err(e),
                Ok(high) => match self.pull_bits(n2) {
                    Err(e) => {
                        *self = Stream { data: self.data, position, bit_position };
                        Err(e)
                    },
                    Ok(low) => Ok(((high as u16) << n2) | (low as u16)),
                },
            }
        }
    }
}

} // verus!
