use crate::decoder::{be_u16, big_endian_at, lemma_be_u16_bytes, Decode, Decoder};
use crate::reader::{
    generic_advance_postcondition, lemma_read_chunks, read_chunks, DecodeError,
};
use crate::util::{bit_of, msb_bit};
use vstd::bits::lemma_u16_shr_is_div;
use vstd::prelude::*;

verus! {

/// The fixed twelve-byte header that opens every DNS message.
#[derive(PartialEq, Eq, Structural)]
pub struct Header {
    id: u16,
    flags: Flags,
    qdcount: u16,
    ancount: u16,
    nscount: u16,
    arcount: u16,
}

/// The contents of a header.
pub struct HeaderView {
    pub id: u16,
    pub flags: FlagsView,
    pub qdcount: u16,
    pub ancount: u16,
    pub nscount: u16,
    pub arcount: u16,
}

/// The second 16-bit word of a header.
#[derive(Clone, Copy, PartialEq, Eq, Structural)]
pub struct Flags {
    kind: MessageKind,
    opcode: Opcode,
    authoritative_answer: bool,
    truncated: bool,
    recursion_desired: bool,
    recursion_available: bool,
    z: bool,
    authentic_data: bool,
    checking_disabled: bool,
    rcode: RCode,
}

/// The contents of the flags word, with the opcode and the response code as
/// their 4-bit values.
pub struct FlagsView {
    pub kind: MessageKind,
    pub opcode: u8,
    pub authoritative_answer: bool,
    pub truncated: bool,
    pub recursion_desired: bool,
    pub recursion_available: bool,
    pub z: bool,
    pub authentic_data: bool,
    pub checking_disabled: bool,
    pub rcode: u8,
}

/// Whether a message asks or answers.
#[derive(Clone, Copy, PartialEq, Eq, Structural)]
pub enum MessageKind {
    Query,
    Reply,
}

/// A 4-bit operation code.
#[derive(Clone, Copy, PartialEq, Eq, Structural)]
pub struct Opcode(u8);

/// A 4-bit response code.
#[derive(Clone, Copy, PartialEq, Eq, Structural)]
pub struct RCode(u8);

impl View for Opcode {
    type V = u8;

    closed spec fn view(&self) -> u8 {
        self.0
    }
}

impl View for RCode {
    type V = u8;

    closed spec fn view(&self) -> u8 {
        self.0
    }
}

impl View for Flags {
    type V = FlagsView;

    closed spec fn view(&self) -> FlagsView {
        FlagsView {
            kind: self.kind,
            opcode: self.opcode@,
            authoritative_answer: self.authoritative_answer,
            truncated: self.truncated,
            recursion_desired: self.recursion_desired,
            recursion_available: self.recursion_available,
            z: self.z,
            authentic_data: self.authentic_data,
            checking_disabled: self.checking_disabled,
            rcode: self.rcode@,
        }
    }
}

impl View for Header {
    type V = HeaderView;

    closed spec fn view(&self) -> HeaderView {
        HeaderView {
            id: self.id,
            flags: self.flags@,
            qdcount: self.qdcount,
            ancount: self.ancount,
            nscount: self.nscount,
            arcount: self.arcount,
        }
    }
}

/// The flags that the 16-bit word `word` encodes. Counting bits from the most
/// significant one (bit 0): bit 0 tells a reply from a query, bits 1 to 4 hold
/// the opcode, bits 5 to 11 are the single-bit flags in the order AA, TC, RD,
/// RA, Z, AD, CD, and bits 12 to 15 hold the response code.
pub open spec fn flags_of(word: u16) -> FlagsView {
    FlagsView {
        kind: if msb_bit(word, 0) {
            MessageKind::Reply
        } else {
            MessageKind::Query
        },
        opcode: ((word as int / 2048) % 16) as u8,
        authoritative_answer: msb_bit(word, 5),
        truncated: msb_bit(word, 6),
        recursion_desired: msb_bit(word, 7),
        recursion_available: msb_bit(word, 8),
        z: msb_bit(word, 9),
        authentic_data: msb_bit(word, 10),
        checking_disabled: msb_bit(word, 11),
        rcode: (word as int % 16) as u8,
    }
}

/// The flags `flags` are those written in the two bytes `hi` and `lo` of a
/// flags word, bit by bit: QR is the top bit of `hi`, the opcode its next four
/// bits, then AA, TC and RD; RA, Z, AD and CD are the four top bits of `lo`,
/// and the response code its four low bits.
pub open spec fn flags_match_bytes(flags: FlagsView, hi: u8, lo: u8) -> bool {
    &&& (flags.kind == MessageKind::Reply) == ((hi >> 7u8) & 1u8 == 1u8)
    &&& flags.opcode == (hi >> 3u8) & 15u8
    &&& flags.authoritative_answer == ((hi >> 2u8) & 1u8 == 1u8)
    &&& flags.truncated == ((hi >> 1u8) & 1u8 == 1u8)
    &&& flags.recursion_desired == (hi & 1u8 == 1u8)
    &&& flags.recursion_available == ((lo >> 7u8) & 1u8 == 1u8)
    &&& flags.z == ((lo >> 6u8) & 1u8 == 1u8)
    &&& flags.authentic_data == ((lo >> 5u8) & 1u8 == 1u8)
    &&& flags.checking_disabled == ((lo >> 4u8) & 1u8 == 1u8)
    &&& flags.rcode == lo % 16
}

/// The flags of a word, read off its bits by shifting and masking: QR is bit
/// 15 (the most significant), the opcode bits 11 to 14, AA bit 10, TC bit 9,
/// RD bit 8, RA bit 7, Z bit 6, AD bit 5, CD bit 4, and the response code bits
/// 0 to 3.
pub proof fn lemma_flags_of_word_bits(word: u16)
    ensures
        (flags_of(word).kind == MessageKind::Reply) == ((word >> 15u16) & 1u16 == 1u16),
        flags_of(word).opcode == ((word >> 11u16) & 15u16) as u8,
        flags_of(word).authoritative_answer == ((word >> 10u16) & 1u16 == 1u16),
        flags_of(word).truncated == ((word >> 9u16) & 1u16 == 1u16),
        flags_of(word).recursion_desired == ((word >> 8u16) & 1u16 == 1u16),
        flags_of(word).recursion_available == ((word >> 7u16) & 1u16 == 1u16),
        flags_of(word).z == ((word >> 6u16) & 1u16 == 1u16),
        flags_of(word).authentic_data == ((word >> 5u16) & 1u16 == 1u16),
        flags_of(word).checking_disabled == ((word >> 4u16) & 1u16 == 1u16),
        flags_of(word).rcode == (word & 15u16) as u8,
{
    assert forall|shift: u16| 4 <= shift <= 15 implies (msb_bit(word, 15 - shift) == ((word
        >> shift) & 1u16 == 1u16)) by {
        lemma_u16_shr_is_div(word, shift);
        let shifted = word >> shift;
        assert((shifted & 1u16 == 1u16) == (shifted % 2 == 1)) by (bit_vector);
    }
    assert(msb_bit(word, 0) == ((word >> 15u16) & 1u16 == 1u16));
    assert(msb_bit(word, 5) == ((word >> 10u16) & 1u16 == 1u16));
    assert(msb_bit(word, 6) == ((word >> 9u16) & 1u16 == 1u16));
    assert(msb_bit(word, 7) == ((word >> 8u16) & 1u16 == 1u16));
    assert(msb_bit(word, 8) == ((word >> 7u16) & 1u16 == 1u16));
    assert(msb_bit(word, 9) == ((word >> 6u16) & 1u16 == 1u16));
    assert(msb_bit(word, 10) == ((word >> 5u16) & 1u16 == 1u16));
    assert(msb_bit(word, 11) == ((word >> 4u16) & 1u16 == 1u16));
    assert(((word >> 11u16) & 15u16) == (word / 2048u16) % 16u16) by (bit_vector);
    assert((word & 15u16) == word % 16u16) by (bit_vector);
}

/// The flags of the word stored at `bytes[pos]` are the bits of those two bytes.
pub proof fn lemma_flags_of_bytes(bytes: Seq<u8>, pos: int)
    requires
        0 <= pos,
        pos + 1 < bytes.len(),
    ensures
        flags_match_bytes(flags_of(be_u16(bytes, pos)), bytes[pos], bytes[pos + 1]),
{
    let word = be_u16(bytes, pos);
    let hi = bytes[pos];
    let lo = bytes[pos + 1];
    lemma_flags_of_word_bits(word);
    assert(word == (hi as u16) * 256u16 + (lo as u16));
    assert({
        &&& ((word >> 15u16) & 1u16 == 1u16) == ((hi >> 7u8) & 1u8 == 1u8)
        &&& ((word >> 11u16) & 15u16) as u8 == (hi >> 3u8) & 15u8
        &&& ((word >> 10u16) & 1u16 == 1u16) == ((hi >> 2u8) & 1u8 == 1u8)
        &&& ((word >> 9u16) & 1u16 == 1u16) == ((hi >> 1u8) & 1u8 == 1u8)
        &&& ((word >> 8u16) & 1u16 == 1u16) == (hi & 1u8 == 1u8)
        &&& ((word >> 7u16) & 1u16 == 1u16) == ((lo >> 7u8) & 1u8 == 1u8)
        &&& ((word >> 6u16) & 1u16 == 1u16) == ((lo >> 6u8) & 1u8 == 1u8)
        &&& ((word >> 5u16) & 1u16 == 1u16) == ((lo >> 5u8) & 1u8 == 1u8)
        &&& ((word >> 4u16) & 1u16 == 1u16) == ((lo >> 4u8) & 1u8 == 1u8)
        &&& (word & 15u16) as u8 == lo % 16u8
    }) by (bit_vector)
        requires
            word == (hi as u16) * 256u16 + (lo as u16),
    ;
}

/// The header stored in the twelve bytes from `bytes[pos]` on: six big-endian
/// words, namely the id, the flags and the four section counts.
pub open spec fn header_at(bytes: Seq<u8>, pos: int) -> HeaderView {
    HeaderView {
        id: be_u16(bytes, pos),
        flags: flags_of(be_u16(bytes, pos + 2)),
        qdcount: be_u16(bytes, pos + 4),
        ancount: be_u16(bytes, pos + 6),
        nscount: be_u16(bytes, pos + 8),
        arcount: be_u16(bytes, pos + 10),
    }
}

/// The header at `bytes[pos]` holds, in order, the id, the flags and the four
/// counts, each a word of two bytes with the most significant byte first.
pub proof fn lemma_header_at_bytes(bytes: Seq<u8>, pos: int)
    requires
        0 <= pos,
        pos + 12 <= bytes.len(),
    ensures
        header_fields_match_bytes(header_at(bytes, pos), bytes, pos),
{
    lemma_be_u16_bytes(bytes, pos);
    lemma_be_u16_bytes(bytes, pos + 4);
    lemma_be_u16_bytes(bytes, pos + 6);
    lemma_be_u16_bytes(bytes, pos + 8);
    lemma_be_u16_bytes(bytes, pos + 10);
    lemma_flags_of_bytes(bytes, pos + 2);
}

/// The header `header` is the one written in the twelve bytes from `bytes[pos]`
/// on: six big-endian words, the second of them the flags word.
pub open spec fn header_fields_match_bytes(header: HeaderView, bytes: Seq<u8>, pos: int) -> bool {
    &&& big_endian_at(bytes, pos, header.id)
    &&& flags_match_bytes(header.flags, bytes[pos + 2], bytes[pos + 3])
    &&& big_endian_at(bytes, pos + 4, header.qdcount)
    &&& big_endian_at(bytes, pos + 6, header.ancount)
    &&& big_endian_at(bytes, pos + 8, header.nscount)
    &&& big_endian_at(bytes, pos + 10, header.arcount)
}

impl Opcode {
    #[allow(non_snake_case)]
    pub fn QUERY() -> (code: Opcode)
        ensures
            code@ == 0,
    {
        Opcode(0)
    }

    #[allow(non_snake_case)]
    pub fn INVERSE_QUERY() -> (code: Opcode)
        ensures
            code@ == 1,
    {
        Opcode(1)
    }

    #[allow(non_snake_case)]
    pub fn STATUS() -> (code: Opcode)
        ensures
            code@ == 2,
    {
        Opcode(2)
    }

    /// The opcode with value `x`, if `x` fits in four bits.
    pub fn new(x: u8) -> (opcode: Option<Self>)
        ensures
            opcode is Some <==> x < 16,
            opcode matches Some(op) ==> op@ == x,
    {
        proof {
            assert((x == x & 15u8) == (x < 16u8)) by (bit_vector);
        }
        if x == x & 15 {
            Some(Opcode(x))
        } else {
            None
        }
    }
}

impl RCode {
    #[allow(non_snake_case)]
    pub fn NO_ERROR() -> (code: RCode)
        ensures
            code@ == 0,
    {
        RCode(0)
    }

    #[allow(non_snake_case)]
    pub fn FORM_ERROR() -> (code: RCode)
        ensures
            code@ == 1,
    {
        RCode(1)
    }

    #[allow(non_snake_case)]
    pub fn SERVER_FAILURE() -> (code: RCode)
        ensures
            code@ == 2,
    {
        RCode(2)
    }

    #[allow(non_snake_case)]
    pub fn NONEXISTENT_DOMAIN() -> (code: RCode)
        ensures
            code@ == 3,
    {
        RCode(3)
    }

    #[allow(non_snake_case)]
    pub fn NOT_IMPLEMENTED() -> (code: RCode)
        ensures
            code@ == 4,
    {
        RCode(4)
    }

    #[allow(non_snake_case)]
    pub fn QUERY_REFUSED() -> (code: RCode)
        ensures
            code@ == 5,
    {
        RCode(5)
    }

    #[allow(non_snake_case)]
    pub fn NAME_EXISTS_WHEN_IT_SHOULD_NOT() -> (code: RCode)
        ensures
            code@ == 6,
    {
        RCode(6)
    }

    /// The response code with value `x`, if `x` fits in four bits.
    pub fn new(x: u8) -> (rcode: Option<Self>)
        ensures
            rcode is Some <==> x < 16,
            rcode matches Some(rc) ==> rc@ == x,
    {
        proof {
            assert((x == x & 15u8) == (x < 16u8)) by (bit_vector);
        }
        if x == x & 15 {
            Some(RCode(x))
        } else {
            None
        }
    }
}

impl Header {
    pub fn id(&self) -> (id: u16)
        ensures
            id == self@.id,
    {
        self.id
    }

    pub fn flags(&self) -> (flags: Flags)
        ensures
            flags@ == self@.flags,
    {
        self.flags
    }

    pub fn qdcount(&self) -> (count: u16)
        ensures
            count == self@.qdcount,
    {
        self.qdcount
    }

    pub fn ancount(&self) -> (count: u16)
        ensures
            count == self@.ancount,
    {
        self.ancount
    }

    pub fn nscount(&self) -> (count: u16)
        ensures
            count == self@.nscount,
    {
        self.nscount
    }

    pub fn arcount(&self) -> (count: u16)
        ensures
            count == self@.arcount,
    {
        self.arcount
    }
}

impl Flags {
    pub fn kind(&self) -> (kind: MessageKind)
        ensures
            kind == self@.kind,
    {
        self.kind
    }

    pub fn opcode(&self) -> (opcode: Opcode)
        ensures
            opcode@ == self@.opcode,
    {
        self.opcode
    }

    pub fn authoritative_answer(&self) -> (set: bool)
        ensures
            set == self@.authoritative_answer,
    {
        self.authoritative_answer
    }

    pub fn truncated(&self) -> (set: bool)
        ensures
            set == self@.truncated,
    {
        self.truncated
    }

    pub fn recursion_desired(&self) -> (set: bool)
        ensures
            set == self@.recursion_desired,
    {
        self.recursion_desired
    }

    pub fn recursion_available(&self) -> (set: bool)
        ensures
            set == self@.recursion_available,
    {
        self.recursion_available
    }

    pub fn z(&self) -> (set: bool)
        ensures
            set == self@.z,
    {
        self.z
    }

    pub fn authentic_data(&self) -> (set: bool)
        ensures
            set == self@.authentic_data,
    {
        self.authentic_data
    }

    pub fn checking_disabled(&self) -> (set: bool)
        ensures
            set == self@.checking_disabled,
    {
        self.checking_disabled
    }

    pub fn rcode(&self) -> (rcode: RCode)
        ensures
            rcode@ == self@.rcode,
    {
        self.rcode
    }
}

impl<'a> Decode<'a> for Flags {
    /// Reads the flags word. It fails only where reading two bytes fails.
    fn decode(decoder: &mut Decoder<'a>) -> (result: Result<Self, DecodeError>)
        ensures
            generic_advance_postcondition(
                2,
                old(decoder)@.bytes.len() as int,
                old(decoder)@.pos,
                final(decoder)@.pos,
                result,
            ),
            result matches Ok(flags) ==> flags@ == flags_of(
                be_u16(old(decoder)@.bytes, old(decoder)@.pos),
            ),
            result matches Ok(flags) ==> flags_match_bytes(
                flags@,
                old(decoder)@.bytes[old(decoder)@.pos],
                old(decoder)@.bytes[old(decoder)@.pos + 1],
            ),
    {
        proof {
            decoder.lemma_bounds();
        }
        let ghost start = decoder@.pos;
        let bytes = u16::decode(decoder)?;
        proof {
            lemma_flags_of_bytes(decoder@.bytes, start);
        }
        let kind = if bit_of(bytes, 0) {
            MessageKind::Reply
        } else {
            MessageKind::Query
        };
        proof {
            assert(((bytes >> 11u16) & 15u16) == (bytes / 2048u16) % 16u16) by (bit_vector);
            assert((bytes & 15u16) == bytes % 16u16) by (bit_vector);
        }
        let opcode = Opcode::new(((bytes >> 11) & 15) as u8).ok_or(
            DecodeError::InconsistentState,
        )?;
        let rcode = RCode::new((bytes & 15) as u8).ok_or(DecodeError::InconsistentState)?;
        Ok(
            Flags {
                kind,
                opcode,
                authoritative_answer: bit_of(bytes, 5),
                truncated: bit_of(bytes, 6),
                recursion_desired: bit_of(bytes, 7),
                recursion_available: bit_of(bytes, 8),
                z: bit_of(bytes, 9),
                authentic_data: bit_of(bytes, 10),
                checking_disabled: bit_of(bytes, 11),
                rcode,
            },
        )
    }
}

impl<'a> Decode<'a> for Header {
    /// Reads the six words of a header one after the other; it stops at the
    /// first word that cannot be read, past the words already read.
    fn decode(decoder: &mut Decoder<'a>) -> (result: Result<Self, DecodeError>)
        ensures
            match read_chunks(old(decoder)@.bytes.len() as int, old(decoder)@.pos, 2, 6) {
                Ok(end) => {
                    &&& final(decoder)@.pos == end
                    &&& result matches Ok(header)
                    &&& header@ == header_at(old(decoder)@.bytes, old(decoder)@.pos)
                },
                Err((e, at)) => final(decoder)@.pos == at && result == Err::<Header, DecodeError>(
                    e,
                ),
            },
            result is Ok <==> old(decoder)@.pos + 12 <= old(decoder)@.bytes.len(),
            result is Ok ==> final(decoder)@.pos == old(decoder)@.pos + 12,
            old(decoder)@.pos + 12 <= usize::MAX ==> (result matches Err(e) ==> e
                == DecodeError::OutOfBounds),
            result matches Ok(header) ==> header_fields_match_bytes(
                header@,
                old(decoder)@.bytes,
                old(decoder)@.pos,
            ),
    {
        let ghost len = decoder@.bytes.len() as int;
        let ghost start = decoder@.pos;
        proof {
            decoder.lemma_bounds();
            lemma_read_chunks(len, start, 2, 6);
        }
        let id = u16::decode(decoder)?;
        assert(read_chunks(len, start, 2, 6) == read_chunks(len, start + 2, 2, 5));
        let flags = Flags::decode(decoder)?;
        assert(read_chunks(len, start + 2, 2, 5) == read_chunks(len, start + 4, 2, 4));
        let qdcount = u16::decode(decoder)?;
        assert(read_chunks(len, start + 4, 2, 4) == read_chunks(len, start + 6, 2, 3));
        let ancount = u16::decode(decoder)?;
        assert(read_chunks(len, start + 6, 2, 3) == read_chunks(len, start + 8, 2, 2));
        let nscount = u16::decode(decoder)?;
        assert(read_chunks(len, start + 8, 2, 2) == read_chunks(len, start + 10, 2, 1));
        let arcount = u16::decode(decoder)?;
        assert(read_chunks(len, start + 10, 2, 1) == read_chunks(len, start + 12, 2, 0));
        proof {
            lemma_header_at_bytes(decoder@.bytes, start);
        }
        Ok(Self { id, flags, qdcount, ancount, nscount, arcount })
    }
}

} // verus!
