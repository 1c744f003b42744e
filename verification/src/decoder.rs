use crate::reader::{generic_advance_postcondition, Cursor, DecodeError, Reader};
use vstd::prelude::*;

verus! {

/// The big-endian 16-bit integer stored at `bytes[pos]` and `bytes[pos + 1]`.
pub open spec fn be_u16(bytes: Seq<u8>, pos: int) -> u16 {
    (bytes[pos] as int * 256 + bytes[pos + 1] as int) as u16
}

/// `be_u16` reads back every 16-bit value from its two big-endian bytes, the
/// high byte first.
pub proof fn lemma_be_u16_round_trip(value: u16)
    ensures
        be_u16(seq![(value / 256) as u8, (value % 256) as u8], 0) == value,
{
}

/// `be_u16` depends on the two bytes at `pos` alone, and reads them as a base-256
/// number, most significant byte first.
pub proof fn lemma_be_u16_bytes(bytes: Seq<u8>, pos: int)
    requires
        0 <= pos,
        pos + 1 < bytes.len(),
    ensures
        be_u16(bytes, pos) == be_u16(seq![bytes[pos], bytes[pos + 1]], 0),
        be_u16(bytes, pos) as int == bytes[pos] as int * 256 + bytes[pos + 1] as int,
        be_u16(bytes, pos) / 256 == bytes[pos],
        be_u16(bytes, pos) % 256 == bytes[pos + 1],
{
}

/// Reads DNS wire-format values out of a message buffer, front to back.
pub struct Decoder<'buf> {
    reader: Reader<'buf>,
}

impl<'buf> View for Decoder<'buf> {
    type V = Cursor;

    closed spec fn view(&self) -> Cursor {
        self.reader@
    }
}

impl<'buf> Decoder<'buf> {
    /// The position is a `usize` index and the buffer a slice.
    pub proof fn lemma_bounds(&self)
        ensures
            0 <= self@.pos <= usize::MAX,
            self@.bytes.len() <= usize::MAX,
    {
        self.reader.lemma_bounds();
    }

    /// A decoder at the start of `buf`.
    pub fn new(buf: &'buf [u8]) -> (decoder: Self)
        ensures
            decoder@ == (Cursor { bytes: buf@, pos: 0 }),
    {
        Self { reader: Reader::new(buf) }
    }

    /// Index of the next byte to decode.
    pub fn get_current_pos(&self) -> (pos: usize)
        ensures
            pos == self@.pos,
    {
        self.reader.get_current_pos()
    }

    pub(crate) fn get_reader(&self) -> (reader: &Reader<'buf>)
        ensures
            reader@ == self@,
    {
        &self.reader
    }

    /// Reads the next `increment` bytes and moves past them.
    pub(crate) fn get_next_and_advance_var(&mut self, increment: usize) -> (result: Result<
        &'buf [u8],
        DecodeError,
    >)
        ensures
            final(self)@.bytes == old(self)@.bytes,
            generic_advance_postcondition(
                increment as int,
                old(self)@.bytes.len() as int,
                old(self)@.pos,
                final(self)@.pos,
                result,
            ),
            result matches Ok(slice) ==> slice@ == old(self)@.bytes.subrange(
                old(self)@.pos,
                old(self)@.pos + increment,
            ),
    {
        self.reader.get_next_and_advance_var(increment)
    }

    /// Reads the next `N` bytes as an array and moves past them.
    pub(crate) fn get_next_and_advance<const N: usize>(&mut self) -> (result: Result<
        &'buf [u8; N],
        DecodeError,
    >)
        ensures
            final(self)@.bytes == old(self)@.bytes,
            generic_advance_postcondition(
                N as int,
                old(self)@.bytes.len() as int,
                old(self)@.pos,
                final(self)@.pos,
                result,
            ),
            result matches Ok(arr) ==> arr@ == old(self)@.bytes.subrange(
                old(self)@.pos,
                old(self)@.pos + N,
            ),
    {
        self.reader.get_next_and_advance::<N>()
    }

    /// The position, by reference.
    pub(crate) fn get_pos(&self) -> (pos: &usize)
        ensures
            *pos == self@.pos,
    {
        self.reader.get_pos()
    }

    /// The whole message buffer.
    pub(crate) fn get_buf(&self) -> (buf: &'buf [u8])
        ensures
            buf@ == self@.bytes,
    {
        self.reader.get_buf()
    }

    pub open spec fn spec_is_safe(&self) -> bool {
        self@.in_bounds()
    }

    /// The position lies inside the buffer or just past its end.
    #[verifier::when_used_as_spec(spec_is_safe)]
    pub(crate) fn is_safe(&self) -> (safe: bool)
        ensures
            safe == self@.in_bounds(),
    {
        self.reader.is_safe()
    }
}

/// A value with a wire format that can be read from a DNS message.
pub trait Decode<'a>: Sized {
    /// Reads one value at the decoder's position. Decoding reads the buffer
    /// without changing it, never moves the position backwards, and leaves a
    /// position inside the buffer in bounds.
    fn decode(decoder: &mut Decoder<'a>) -> (result: Result<Self, DecodeError>)
        ensures
            final(decoder)@.bytes == old(decoder)@.bytes,
            old(decoder)@.pos <= final(decoder)@.pos,
            old(decoder)@.in_bounds() ==> final(decoder)@.in_bounds(),
    ;
}

/// What decoding a `u8` at `old_pos` must give: the byte there, one byte further on.
pub open spec fn decode_u8_postcondition(
    decoder: Cursor,
    old_pos: int,
    result: Result<u8, DecodeError>,
) -> bool {
    &&& generic_advance_postcondition(1, decoder.bytes.len() as int, old_pos, decoder.pos, result)
    &&& result matches Ok(byte) ==> byte == decoder.bytes[old_pos]
}

/// What decoding a `u16` at `old_pos` must give: the big-endian value of the two
/// bytes there, two bytes further on.
pub open spec fn decode_u16_postcondition(
    decoder: Cursor,
    old_pos: int,
    result: Result<u16, DecodeError>,
) -> bool {
    &&& generic_advance_postcondition(2, decoder.bytes.len() as int, old_pos, decoder.pos, result)
    &&& result matches Ok(value) ==> value == be_u16(decoder.bytes, old_pos)
}

/// A `u16` decoded at `old_pos` is the base-256 number written by the two bytes
/// there, the first byte most significant.
pub open spec fn big_endian_at(bytes: Seq<u8>, pos: int, value: u16) -> bool {
    value as int == bytes[pos] as int * 256 + bytes[pos + 1] as int
}

impl<'a> Decode<'a> for u8 {
    fn decode(decoder: &mut Decoder<'a>) -> (result: Result<Self, DecodeError>)
        ensures
            decode_u8_postcondition(final(decoder)@, old(decoder)@.pos, result),
    {
        proof {
            decoder.lemma_bounds();
        }
        match decoder.reader.get_next_and_advance::<1>() {
            Ok(arr) => Ok(arr[0]),
            Err(e) => Err(e),
        }
    }
}

impl<'a> Decode<'a> for u16 {
    fn decode(decoder: &mut Decoder<'a>) -> (result: Result<Self, DecodeError>)
        ensures
            decode_u16_postcondition(final(decoder)@, old(decoder)@.pos, result),
            result matches Ok(value) ==> big_endian_at(old(decoder)@.bytes, old(decoder)@.pos, value),
    {
        proof {
            decoder.lemma_bounds();
        }
        match decoder.reader.get_next_and_advance::<2>() {
            Ok(arr) => Ok((arr[0] as u16) * 256 + (arr[1] as u16)),
            Err(e) => Err(e),
        }
    }
}

} // verus!
