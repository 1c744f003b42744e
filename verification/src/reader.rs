use vstd::prelude::*;
use vstd::slice::slice_subrange;

verus! {

/// Why decoding stopped.
#[derive(PartialEq, Eq, Structural, Clone, Copy)]
pub enum DecodeError {
    OutOfBounds,
    ArithmeticOverflow,
    InconsistentState,
    ForwardCompressionPointer,
    UnsupportedLabelType,
    NameLengthLimitExceeded,
}

/// Abstract state of a cursor over a message: the bytes it reads and the
/// index of the next byte to read.
pub struct Cursor {
    pub bytes: Seq<u8>,
    pub pos: int,
}

impl Cursor {
    /// The cursor points inside its buffer or just past its end.
    pub open spec fn in_bounds(self) -> bool {
        0 <= self.pos <= self.bytes.len()
    }
}

/// Where a cursor at `pos` in a buffer of `len` bytes ends up after moving
/// `increment` bytes forward, or why it cannot: the new index does not fit in
/// a `usize`, or it lies past the end of the buffer.
pub open spec fn advance_outcome(len: int, pos: int, increment: int) -> Result<int, DecodeError> {
    if pos + increment > usize::MAX {
        Err(DecodeError::ArithmeticOverflow)
    } else if pos + increment > len {
        Err(DecodeError::OutOfBounds)
    } else {
        Ok(pos + increment)
    }
}

/// A read of exactly `increment` bytes behaved as it must: on success the cursor
/// moved by `increment`, on failure it reports why and stayed where it was.
pub open spec fn generic_advance_postcondition<T>(
    increment: int,
    len: int,
    old_pos: int,
    new_pos: int,
    result: Result<T, DecodeError>,
) -> bool {
    match advance_outcome(len, old_pos, increment) {
        Ok(p) => result is Ok && new_pos == p,
        Err(e) => result == Err::<T, DecodeError>(e) && new_pos == old_pos,
    }
}

/// A read of at most `max_increment` bytes: on success the cursor moved
/// forward by no more than `max_increment`.
pub open spec fn weak_advance_postcondition<T>(
    max_increment: int,
    old_pos: int,
    new_pos: int,
    result: Result<T, DecodeError>,
) -> bool {
    result is Ok ==> old_pos <= new_pos <= old_pos + max_increment
}

/// `count` reads of `chunk` bytes each, one after the other: the final index,
/// or the first failure together with the index at which it happened.
pub open spec fn read_chunks(len: int, pos: int, chunk: int, count: nat) -> Result<
    int,
    (DecodeError, int),
>
    decreases count,
{
    if count == 0 {
        Ok(pos)
    } else {
        match advance_outcome(len, pos, chunk) {
            Err(e) => Err((e, pos)),
            Ok(p) => read_chunks(len, p, chunk, (count - 1) as nat),
        }
    }
}

/// Consecutive reads of `count` chunks succeed exactly when all
/// `chunk * count` bytes lie in the buffer, and then end that far on; when the
/// end index fits in a `usize`, the only possible failure is running out of bytes.
pub proof fn lemma_read_chunks(len: int, pos: int, chunk: int, count: nat)
    requires
        0 <= pos,
        0 <= chunk,
        len <= usize::MAX,
    ensures
        count > 0 ==> (read_chunks(len, pos, chunk, count) is Ok <==> pos + chunk * count <= len),
        read_chunks(len, pos, chunk, count) matches Ok(p) ==> p == pos + chunk * count,
        read_chunks(len, pos, chunk, count) matches Err((e, p)) ==> pos <= p && (pos <= len ==> p <= len),
        pos + chunk * count <= usize::MAX ==> (read_chunks(len, pos, chunk, count) matches Err((
            e,
            _,
        )) ==> e == DecodeError::OutOfBounds),
    decreases count,
{
    if count > 0 {
        assert(chunk * count == chunk + chunk * (count - 1)) by (nonlinear_arith);
        assert(chunk * (count - 1) >= 0) by (nonlinear_arith)
            requires
                chunk >= 0,
                count >= 1,
        ;
        if pos + chunk <= len {
            lemma_read_chunks(len, pos + chunk, chunk, (count - 1) as nat);
        }
    }
}

/// A cursor over a borrowed message buffer.
#[derive(Copy, Clone)]
pub(crate) struct Reader<'buf> {
    buf: &'buf [u8],
    pos: usize,
}

impl<'buf> View for Reader<'buf> {
    type V = Cursor;

    closed spec fn view(&self) -> Cursor {
        Cursor { bytes: self.buf@, pos: self.pos as int }
    }
}

impl<'buf> Reader<'buf> {
    /// The position is a `usize` index and the buffer a slice.
    pub(crate) proof fn lemma_bounds(&self)
        ensures
            0 <= self@.pos <= usize::MAX,
            self@.bytes.len() <= usize::MAX,
    {
        assert(self.buf.len() == self.buf@.len());
    }

    pub(crate) fn new(buf: &'buf [u8]) -> (reader: Self)
        ensures
            reader@ == (Cursor { bytes: buf@, pos: 0 }),
            reader.is_safe(),
    {
        Self { buf, pos: 0 }
    }

    pub(crate) fn get_current_pos(&self) -> (pos: usize)
        ensures
            pos == self@.pos,
    {
        self.pos
    }

    pub(crate) fn get_buf(&self) -> (buf: &'buf [u8])
        ensures
            buf@ == self@.bytes,
    {
        self.buf
    }

    pub(crate) open spec fn spec_is_safe(&self) -> bool {
        self@.in_bounds()
    }

    #[verifier::when_used_as_spec(spec_is_safe)]
    pub(crate) fn is_safe(&self) -> (safe: bool)
        ensures
            safe == self@.in_bounds(),
    {
        self.pos <= self.buf.len()
    }

    /// Reads the next `N` bytes as an array and moves past them.
    pub(crate) fn get_next_and_advance<const N: usize>(&mut self) -> (result: Result<
        &'buf [u8; N],
        DecodeError,
    >)
        ensures
            final(self)@.bytes == old(self)@.bytes,
            generic_advance_postcondition(
                N as int,
                old(self)@.bytes.len() as int,
                old(self)@.pos,
                final(self)@.pos,
                result,
            ),
            result matches Ok(arr) ==> arr@ == old(self)@.bytes.subrange(
                old(self)@.pos,
                old(self)@.pos + N,
            ),
    {
        match self.get_next_and_advance_var(N) {
            Ok(slice) => Ok(as_array_ref::<N>(slice)),
            Err(e) => Err(e),
        }
    }

    /// Reads the next `increment` bytes and moves past them.
    pub(crate) fn get_next_and_advance_var(&mut self, increment: usize) -> (result: Result<
        &'buf [u8],
        DecodeError,
    >)
        ensures
            final(self)@.bytes == old(self)@.bytes,
            generic_advance_postcondition(
                increment as int,
                old(self)@.bytes.len() as int,
                old(self)@.pos,
                final(self)@.pos,
                result,
            ),
            result matches Ok(slice) ==> slice@ == old(self)@.bytes.subrange(
                old(self)@.pos,
                old(self)@.pos + increment,
            ),
    {
        let old_pos = self.pos;
        match self.advance_pos(increment) {
            Ok(()) => Ok(slice_subrange(self.buf, old_pos, self.pos)),
            Err(e) => Err(e),
        }
    }

    /// Moves the cursor `increment` bytes forward, if they lie in the buffer.
    fn advance_pos(&mut self, increment: usize) -> (result: Result<(), DecodeError>)
        ensures
            final(self)@.bytes == old(self)@.bytes,
            generic_advance_postcondition(
                increment as int,
                old(self)@.bytes.len() as int,
                old(self)@.pos,
                final(self)@.pos,
                result,
            ),
    {
        let next_pos = self.pos.checked_add(increment).ok_or(DecodeError::ArithmeticOverflow)?;
        if next_pos > self.buf.len() {
            Err(DecodeError::OutOfBounds)
        } else {
            self.pos = next_pos;
            Ok(())
        }
    }

    /// The position, by reference.
    pub(crate) fn get_pos(&self) -> (pos: &usize)
        ensures
            *pos == self@.pos,
    {
        &self.pos
    }
}

/// `<&[u8; N] as TryFrom<&[u8]>>::try_from`: std converts a slice of exactly `N`
/// bytes into a reference to an array holding the same bytes; the call is made
/// only on such slices, so the conversion succeeds.
#[verifier::external_body]
fn as_array_ref<'a, const N: usize>(slice: &'a [u8]) -> (arr: &'a [u8; N])
    requires
        slice@.len() == N,
    ensures
        arr@ == slice@,
{
    slice.try_into().unwrap()
}

} // verus!
