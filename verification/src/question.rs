use crate::decoder::{be_u16, big_endian_at, Decode, Decoder};
use crate::name::{lemma_name_outcome_bounds, name_outcome, Name};
use crate::reader::{
    lemma_read_chunks, read_chunks, weak_advance_postcondition, Cursor, DecodeError,
};
use vstd::prelude::*;

verus! {

/// An entry of the question section: a name, a type and a class.
pub struct Question<'buf> {
    name: Name<'buf>,
    qtype: u16,
    qclass: u16,
}

/// The contents of a question: where its name starts, its type and its class.
pub struct QuestionView {
    pub name: Cursor,
    pub qtype: u16,
    pub qclass: u16,
}

impl<'buf> View for Question<'buf> {
    type V = QuestionView;

    closed spec fn view(&self) -> QuestionView {
        QuestionView { name: self.name@, qtype: self.qtype, qclass: self.qclass }
    }
}

impl<'buf> Question<'buf> {
    pub fn name(&self) -> (name: &Name<'buf>)
        ensures
            name@ == self@.name,
    {
        &self.name
    }

    pub fn qtype(&self) -> (qtype: u16)
        ensures
            qtype == self@.qtype,
    {
        self.qtype
    }

    pub fn qclass(&self) -> (qclass: u16)
        ensures
            qclass == self@.qclass,
    {
        self.qclass
    }
}

impl<'buf> Decode<'buf> for Question<'buf> {
    /// Reads a name, then the type and the class as big-endian words; it stops
    /// at the first part that cannot be read.
    fn decode(decoder: &mut Decoder<'buf>) -> (result: Result<Self, DecodeError>)
        ensures
            match name_outcome(old(decoder)@.bytes, old(decoder)@.pos, Name::MAX_LENGTH as nat) {
                (Err(e), at) => final(decoder)@.pos == at && result == Err::<Self, DecodeError>(
                    e,
                ),
                (Ok(()), name_end) => match read_chunks(
                    old(decoder)@.bytes.len() as int,
                    name_end,
                    2,
                    2,
                ) {
                    Err((e, at)) => final(decoder)@.pos == at && result == Err::<
                        Self,
                        DecodeError,
                    >(e),
                    Ok(end) => {
                        &&& final(decoder)@.pos == end
                        &&& result matches Ok(question)
                        &&& question@ == (QuestionView {
                            name: old(decoder)@,
                            qtype: be_u16(old(decoder)@.bytes, name_end),
                            qclass: be_u16(old(decoder)@.bytes, name_end + 2),
                        })
                    },
                },
            },
            result matches Ok(question) ==> {
                &&& question@.name == old(decoder)@
                &&& big_endian_at(old(decoder)@.bytes, final(decoder)@.pos - 4, question@.qtype)
                &&& big_endian_at(old(decoder)@.bytes, final(decoder)@.pos - 2, question@.qclass)
            },
            weak_advance_postcondition(
                Name::MAX_LENGTH + 4,
                old(decoder)@.pos,
                final(decoder)@.pos,
                result,
            ),
    {
        let ghost len = decoder@.bytes.len() as int;
        proof {
            decoder.lemma_bounds();
            lemma_name_outcome_bounds(decoder@.bytes, decoder@.pos, Name::MAX_LENGTH as nat);
        }
        let name = Name::decode(decoder)?;
        let ghost name_end = decoder@.pos;
        proof {
            lemma_read_chunks(len, name_end, 2, 2);
        }
        let qtype = u16::decode(decoder)?;
        assert(read_chunks(len, name_end, 2, 2) == read_chunks(len, name_end + 2, 2, 1));
        let qclass = u16::decode(decoder)?;
        assert(read_chunks(len, name_end + 2, 2, 1) == read_chunks(len, name_end + 4, 2, 0));
        Ok(Question { name, qtype, qclass })
    }
}

} // verus!
