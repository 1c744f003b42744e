use crate::decoder::{Decode, Decoder};
use crate::reader::{advance_outcome, weak_advance_postcondition, Cursor, DecodeError};
use vstd::prelude::*;

verus! {

/// How skipping over an encoded domain name that starts at `bytes[pos]` ends,
/// when the labels read may take up at most `capacity` bytes: the outcome, and
/// the index where reading stopped.
///
/// Each label starts with a byte whose two top bits give its type. Type 0 is
/// an ordinary label whose length is the six low bits; length 0 ends the name.
/// Type 3 is a compression pointer, two bytes long, which also ends the name.
/// Types 1 and 2 are not supported. A label of `n` bytes uses `n + 1` bytes of
/// capacity and must leave some over; a pointer needs two bytes of capacity.
pub open spec fn name_outcome(bytes: Seq<u8>, pos: int, capacity: nat) -> (
    Result<(), DecodeError>,
    int,
)
    decreases capacity,
{
    let len = bytes.len() as int;
    match advance_outcome(len, pos, 1) {
        Err(e) => (Err(e), pos),
        Ok(after_tag) => {
            let tag = bytes[pos];
            if tag / 64 == 0 {
                let label_len = (tag % 64) as int;
                if label_len == 0 {
                    (Ok(()), after_tag)
                } else if capacity <= label_len + 1 {
                    (Err(DecodeError::NameLengthLimitExceeded), after_tag)
                } else {
                    match advance_outcome(len, after_tag, label_len) {
                        Err(e) => (Err(e), after_tag),
                        Ok(after_label) => name_outcome(
                            bytes,
                            after_label,
                            (capacity - label_len - 1) as nat,
                        ),
                    }
                }
            } else if tag / 64 == 3 {
                if capacity < 2 {
                    (Err(DecodeError::NameLengthLimitExceeded), after_tag)
                } else {
                    match advance_outcome(len, after_tag, 1) {
                        Err(e) => (Err(e), after_tag),
                        Ok(end) => (Ok(()), end),
                    }
                }
            } else {
                (Err(DecodeError::UnsupportedLabelType), after_tag)
            }
        }
    }
}

/// Skipping a name never moves backwards and never leaves the buffer; when it
/// succeeds with a positive capacity, it has read at most `capacity` bytes.
pub proof fn lemma_name_outcome_bounds(bytes: Seq<u8>, pos: int, capacity: nat)
    requires
        0 <= pos,
        bytes.len() <= usize::MAX,
    ensures
        pos <= name_outcome(bytes, pos, capacity).1,
        pos <= bytes.len() ==> name_outcome(bytes, pos, capacity).1 <= bytes.len(),
        capacity > 0 ==> weak_advance_postcondition(
            capacity as int,
            pos,
            name_outcome(bytes, pos, capacity).1,
            name_outcome(bytes, pos, capacity).0,
        ),
    decreases capacity,
{
    let len = bytes.len() as int;
    if pos + 1 <= len {
        let tag = bytes[pos];
        let label_len = (tag % 64) as int;
        if tag / 64 == 0 && label_len != 0 && capacity > label_len + 1 && pos + 1 + label_len
            <= len {
            lemma_name_outcome_bounds(
                bytes,
                pos + 1 + label_len,
                (capacity - label_len - 1) as nat,
            );
        }
    }
}

/// `lens` are the lengths of ordinary labels written one after the other from
/// `bytes[pos]` on, each a length byte between 1 and 63 followed by that many
/// bytes, all inside the buffer.
pub open spec fn labels_at(bytes: Seq<u8>, pos: int, lens: Seq<int>) -> bool
    decreases lens.len(),
{
    if lens.len() == 0 {
        true
    } else {
        &&& 1 <= lens[0] <= 63
        &&& 0 <= pos
        &&& pos + 1 + lens[0] <= bytes.len()
        &&& bytes[pos] as int == lens[0]
        &&& labels_at(bytes, pos + 1 + lens[0], lens.drop_first())
    }
}

/// The bytes that labels of lengths `lens` take up: each its length plus one.
pub open spec fn labels_size(lens: Seq<int>) -> int
    decreases lens.len(),
{
    if lens.len() == 0 {
        0
    } else {
        lens[0] + 1 + labels_size(lens.drop_first())
    }
}

proof fn lemma_labels_size_nonneg(bytes: Seq<u8>, pos: int, lens: Seq<int>)
    requires
        labels_at(bytes, pos, lens),
    ensures
        labels_size(lens) >= 2 * lens.len(),
        lens.len() > 0 ==> labels_size(lens) >= lens[0] + 1,
    decreases lens.len(),
{
    if lens.len() > 0 {
        lemma_labels_size_nonneg(bytes, pos + 1 + lens[0], lens.drop_first());
    }
}

/// A name made of labels and ended by a zero byte is read whole when its
/// labels take up less than the capacity, each label costing its length plus
/// one, however many labels there are: reading ends just after the zero byte.
pub proof fn lemma_name_of_labels(bytes: Seq<u8>, pos: int, lens: Seq<int>, capacity: nat)
    requires
        bytes.len() <= usize::MAX,
        labels_at(bytes, pos, lens),
        0 <= pos,
        pos + labels_size(lens) < bytes.len(),
        bytes[pos + labels_size(lens)] == 0,
        labels_size(lens) < capacity,
    ensures
        name_outcome(bytes, pos, capacity) == (Ok::<(), DecodeError>(()), pos + labels_size(lens)
            + 1),
    decreases lens.len(),
{
    lemma_labels_size_nonneg(bytes, pos, lens);
    if lens.len() > 0 {
        let n = lens[0];
        let tag = bytes[pos];
        assert(tag / 64 == 0 && tag % 64 == n);
        lemma_name_of_labels(bytes, pos + 1 + n, lens.drop_first(), (capacity - n - 1) as nat);
    }
}

/// A label that does not fit in what the labels before it left of the
/// capacity makes the name too long, each label costing its length plus one,
/// however many labels came before: reading stops with
/// `NameLengthLimitExceeded` just after that label's length byte.
pub proof fn lemma_name_too_long(
    bytes: Seq<u8>,
    pos: int,
    lens: Seq<int>,
    next_len: int,
    capacity: nat,
)
    requires
        bytes.len() <= usize::MAX,
        labels_at(bytes, pos, lens),
        0 <= pos,
        pos + labels_size(lens) < bytes.len(),
        1 <= next_len <= 63,
        bytes[pos + labels_size(lens)] as int == next_len,
        labels_size(lens) < capacity <= labels_size(lens) + next_len + 1,
    ensures
        name_outcome(bytes, pos, capacity) == (Err::<(), DecodeError>(
            DecodeError::NameLengthLimitExceeded,
        ), pos + labels_size(lens) + 1),
    decreases lens.len(),
{
    lemma_labels_size_nonneg(bytes, pos, lens);
    let tag = bytes[pos];
    if lens.len() > 0 {
        let n = lens[0];
        assert(tag / 64 == 0 && tag % 64 == n);
        lemma_name_too_long(bytes, pos + 1 + n, lens.drop_first(), next_len, (capacity - n - 1) as nat);
    } else {
        assert(tag / 64 == 0 && tag % 64 == next_len);
    }
}

/// Reading a name after some labels goes on as reading a name where those
/// labels end, with the bytes they took up spent from the capacity.
pub proof fn lemma_name_after_labels(bytes: Seq<u8>, pos: int, lens: Seq<int>, capacity: nat)
    requires
        bytes.len() <= usize::MAX,
        labels_at(bytes, pos, lens),
        0 <= pos,
        labels_size(lens) < capacity,
    ensures
        name_outcome(bytes, pos, capacity) == name_outcome(
            bytes,
            pos + labels_size(lens),
            (capacity - labels_size(lens)) as nat,
        ),
    decreases lens.len(),
{
    lemma_labels_size_nonneg(bytes, pos, lens);
    if lens.len() > 0 {
        let n = lens[0];
        let tag = bytes[pos];
        assert(tag / 64 == 0 && tag % 64 == n);
        lemma_labels_size_nonneg(bytes, pos + 1 + n, lens.drop_first());
        lemma_name_after_labels(bytes, pos + 1 + n, lens.drop_first(), (capacity - n - 1) as nat);
    }
}

/// How reading a name ends on its first byte: past the end of the buffer it
/// fails with `OutOfBounds`; a zero byte ends the name; a byte whose two top
/// bits are 01 or 10 is an unsupported label type; a byte whose two top bits
/// are 11 starts a two-byte compression pointer, which ends the name when two
/// bytes of capacity are left and both bytes lie in the buffer; a label whose
/// bytes run past the end of the buffer fails with `OutOfBounds`. (Where an
/// index past the end would not fit in a `usize`, the failure is
/// `ArithmeticOverflow` instead.)
pub proof fn lemma_name_first_byte(bytes: Seq<u8>, pos: int, capacity: nat)
    requires
        bytes.len() <= usize::MAX,
        0 <= pos <= bytes.len(),
    ensures
        pos == bytes.len() < usize::MAX ==> name_outcome(bytes, pos, capacity) == (Err::<(), DecodeError>(
            DecodeError::OutOfBounds,
        ), pos),
        pos < bytes.len() && bytes[pos] == 0 ==> name_outcome(bytes, pos, capacity) == (Ok::<
            (),
            DecodeError,
        >(()), pos + 1),
        pos < bytes.len() && 64 <= bytes[pos] < 192 ==> name_outcome(bytes, pos, capacity) == (
        Err::<(), DecodeError>(DecodeError::UnsupportedLabelType), pos + 1),
        pos < bytes.len() && bytes[pos] >= 192 && capacity < 2 ==> name_outcome(
            bytes,
            pos,
            capacity,
        ) == (Err::<(), DecodeError>(DecodeError::NameLengthLimitExceeded), pos + 1),
        pos + 2 <= bytes.len() && bytes[pos] >= 192 && capacity >= 2 ==> name_outcome(
            bytes,
            pos,
            capacity,
        ) == (Ok::<(), DecodeError>(()), pos + 2),
        pos + 1 == bytes.len() < usize::MAX && bytes[pos] >= 192 && capacity >= 2 ==> name_outcome(
            bytes,
            pos,
            capacity,
        ) == (Err::<(), DecodeError>(DecodeError::OutOfBounds), pos + 1),
        pos < bytes.len() && 1 <= bytes[pos] < 64 && bytes[pos] + 1 < capacity && pos + 1
            + bytes[pos] > bytes.len() && pos + 1 + bytes[pos] <= usize::MAX ==> name_outcome(bytes, pos, capacity) == (Err::<
            (),
            DecodeError,
        >(DecodeError::OutOfBounds), pos + 1),
{
}

/// A domain name inside a message: the message and the index where the name starts.
pub struct Name<'buf> {
    buf: &'buf [u8],
    start_pos: usize,
}

impl<'buf> View for Name<'buf> {
    type V = Cursor;

    closed spec fn view(&self) -> Cursor {
        Cursor { bytes: self.buf@, pos: self.start_pos as int }
    }
}

impl<'buf> Name<'buf> {
    /// Skips over the name at the decoder's position, reading labels that take
    /// up at most `remaining_capacity` bytes.
    fn advance_through_name(decoder: &mut Decoder<'buf>, remaining_capacity: usize) -> (result:
        Result<(), DecodeError>)
        ensures
            final(decoder)@.bytes == old(decoder)@.bytes,
            (result, final(decoder)@.pos) == name_outcome(
                old(decoder)@.bytes,
                old(decoder)@.pos,
                remaining_capacity as nat,
            ),
    {
        let ghost bytes = decoder@.bytes;
        let ghost outcome = name_outcome(bytes, decoder@.pos, remaining_capacity as nat);
        let mut capacity = remaining_capacity;
        loop
            invariant
                decoder@.bytes == bytes,
                bytes == old(decoder)@.bytes,
                outcome == name_outcome(
                    old(decoder)@.bytes,
                    old(decoder)@.pos,
                    remaining_capacity as nat,
                ),
                name_outcome(bytes, decoder@.pos, capacity as nat) == outcome,
            decreases capacity,
        {
            proof {
                decoder.lemma_bounds();
            }
            let next_byte = u8::decode(decoder)?;
            proof {
                assert(next_byte >> 6u8 == next_byte / 64u8 && next_byte & 63u8 == next_byte % 64u8)
                    by (bit_vector);
            }
            match next_byte >> 6 {
                0 => {
                    let label_length = (next_byte & 63) as usize;
                    if label_length == 0 {
                        return Ok(());
                    } else if capacity <= label_length + 1 {
                        return Err(DecodeError::NameLengthLimitExceeded);
                    } else {
                        let _ = decoder.get_next_and_advance_var(label_length)?;
                        capacity = capacity - label_length - 1;
                    }
                },
                3 => {
                    return if capacity < 2 {
                        Err(DecodeError::NameLengthLimitExceeded)
                    } else {
                        let _ = decoder.get_next_and_advance::<1>()?;
                        Ok(())
                    };
                },
                _ => return Err(DecodeError::UnsupportedLabelType),
            }
        }
    }

    /// Index in the message of the name's first byte.
    pub fn start_pos(&self) -> (pos: usize)
        ensures
            pos == self@.pos,
    {
        self.start_pos
    }

    /// The most bytes a name may take up.
    pub const MAX_LENGTH: usize = 255;

    pub(crate) const MAX_LABELS: usize = 2;
}

impl<'buf> Decode<'buf> for Name<'buf> {
    /// Skips over the name at the decoder's position, within the length limit
    /// for names, and returns where it starts.
    fn decode(decoder: &mut Decoder<'buf>) -> (result: Result<Self, DecodeError>)
        ensures
            match name_outcome(old(decoder)@.bytes, old(decoder)@.pos, Name::MAX_LENGTH as nat) {
                (Ok(()), end) => {
                    &&& final(decoder)@.pos == end
                    &&& result matches Ok(name)
                    &&& name@ == old(decoder)@
                },
                (Err(e), at) => final(decoder)@.pos == at && result == Err::<Self, DecodeError>(
                    e,
                ),
            },
            weak_advance_postcondition(
                Name::MAX_LENGTH as int,
                old(decoder)@.pos,
                final(decoder)@.pos,
                result,
            ),
            forall|lens: Seq<int>|
                {
                    &&& #[trigger] labels_at(old(decoder)@.bytes, old(decoder)@.pos, lens)
                    &&& old(decoder)@.pos + labels_size(lens) < old(decoder)@.bytes.len()
                    &&& old(decoder)@.bytes[old(decoder)@.pos + labels_size(lens)] == 0
                    &&& labels_size(lens) < Name::MAX_LENGTH
                } ==> {
                    &&& result is Ok
                    &&& final(decoder)@.pos == old(decoder)@.pos + labels_size(lens) + 1
                },
            forall|lens: Seq<int>|
                {
                    &&& #[trigger] labels_at(old(decoder)@.bytes, old(decoder)@.pos, lens)
                    &&& old(decoder)@.pos + labels_size(lens) < old(decoder)@.bytes.len()
                    &&& 1 <= old(decoder)@.bytes[old(decoder)@.pos + labels_size(lens)] <= 63
                    &&& labels_size(lens) < Name::MAX_LENGTH <= labels_size(lens) + old(
                        decoder,
                    )@.bytes[old(decoder)@.pos + labels_size(lens)] + 1
                } ==> {
                    &&& result == Err::<Self, DecodeError>(DecodeError::NameLengthLimitExceeded)
                    &&& final(decoder)@.pos == old(decoder)@.pos + labels_size(lens) + 1
                },
    {
        proof {
            decoder.lemma_bounds();
            lemma_name_outcome_bounds(decoder@.bytes, decoder@.pos, Name::MAX_LENGTH as nat);
            let bytes = decoder@.bytes;
            let pos = decoder@.pos;
            assert forall|lens: Seq<int>|
                #[trigger] labels_at(bytes, pos, lens) && pos + labels_size(lens) < bytes.len()
                    && bytes[pos + labels_size(lens)] == 0 && labels_size(lens)
                    < Name::MAX_LENGTH implies name_outcome(bytes, pos, Name::MAX_LENGTH as nat)
                == (Ok::<(), DecodeError>(()), pos + labels_size(lens) + 1) by {
                lemma_name_of_labels(bytes, pos, lens, Name::MAX_LENGTH as nat);
            }
            assert forall|lens: Seq<int>|
                #[trigger] labels_at(bytes, pos, lens) && pos + labels_size(lens) < bytes.len()
                    && 1 <= bytes[pos + labels_size(lens)] <= 63 && labels_size(lens)
                    < Name::MAX_LENGTH <= labels_size(lens) + bytes[pos + labels_size(lens)]
                    + 1 implies name_outcome(bytes, pos, Name::MAX_LENGTH as nat) == (Err::<
                (),
                DecodeError,
            >(DecodeError::NameLengthLimitExceeded), pos + labels_size(lens) + 1) by {
                lemma_name_too_long(
                    bytes,
                    pos,
                    lens,
                    bytes[pos + labels_size(lens)] as int,
                    Name::MAX_LENGTH as nat,
                );
            }
        }
        let start_pos = decoder.get_current_pos();
        Name::advance_through_name(decoder, Name::MAX_LENGTH)?;
        Ok(Name { buf: decoder.get_reader().get_buf(), start_pos })
    }
}

} // verus!
