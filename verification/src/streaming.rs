//! The decisions of the incremental parser: what to do after each read.
//!
//! Reading from the transport is not this library's business. Its caller
//! reads more bytes into a buffer, hands the whole buffer to
//! [`StreamingParser::feed`], and does what the returned [`Step`] says.

use crate::errors::HandshakeError;
use vstd::prelude::*;

verus! {

/// What a decoding step makes of a buffer: a value and the number of bytes
/// it takes up, or the finding that the buffer does not hold a whole value yet.
#[derive(Debug, PartialEq, Eq)]
pub enum ParseResult<O> {
    Complete(O, usize),
    Partial,
}

/// What a decoder returns: a value with the number of bytes it takes up,
/// `None` while more bytes are needed, or the error that ends the attempt.
pub type Decoded<O> = Result<Option<(O, usize)>, HandshakeError>;

/// A decoding step: it looks at everything that has been read so far.
pub trait Decoder {
    /// The value that the decoder is after.
    type Item;

    /// What the decoder may return for a buffer, and what it may be like
    /// afterwards. A decoder that does not say is taken to return anything.
    open spec fn decodes(&self, buffer: Seq<u8>, r: Decoded<Self::Item>, after: &Self) -> bool {
        true
    }

    /// Looks at the buffer.
    fn decode(&mut self, buffer: &[u8]) -> (r: Decoded<Self::Item>)
        ensures
            old(self).decodes(buffer@, r, final(self)),
    ;
}

/// What the caller of the incremental parser does next.
#[derive(Debug, PartialEq, Eq)]
pub enum Step<O> {
    /// Read more bytes, then feed the buffer again.
    ReadMore,
    /// Drop the given number of bytes from the front of the buffer and
    /// return the value.
    Finish(O, usize),
    /// Give up with the error.
    Fail(HandshakeError),
}

/// The step that follows from what the decoder returned: to go on reading
/// exactly when the decoder needs more bytes, and else to end with the
/// decoder's value or with its error.
pub open spec fn step_for<O>(decoded: Decoded<O>) -> Step<O> {
    match decoded {
        Ok(Some((value, count))) => Step::Finish(value, count),
        Ok(None) => Step::ReadMore,
        Err(e) => Step::Fail(e),
    }
}

/// Decides what to do after a read, from what the decoder made of the buffer.
pub fn next_step<O>(decoded: Decoded<O>) -> (step: Step<O>)
    ensures
        step == step_for(decoded),
{
    match decoded {
        Ok(Some((value, count))) => Step::Finish(value, count),
        Ok(None) => Step::ReadMore,
        Err(e) => Step::Fail(e),
    }
}

/// What a run of reads comes to, given what the decoder makes of the buffer
/// after each read: the step of the first read that does not leave the
/// decoder wanting more, or `None` where every read does.
pub open spec fn run<O>(decoded: Seq<Decoded<O>>) -> Option<Step<O>>
    decreases decoded.len(),
{
    if decoded.len() == 0 {
        None
    } else if decoded[0] == Ok::<Option<(O, usize)>, HandshakeError>(None) {
        run(decoded.drop_first())
    } else {
        Some(step_for(decoded[0]))
    }
}

/// A run goes on reading while the decoder wants more, and ends with the
/// first read of which the decoder makes a value or an error: no earlier,
/// and with nothing else.
pub proof fn run_ends_at_first_decision<O>(decoded: Seq<Decoded<O>>, k: int)
    requires
        0 <= k < decoded.len(),
        forall|j: int| 0 <= j < k ==> decoded[j] == Ok::<Option<(O, usize)>, HandshakeError>(None),
        decoded[k] != Ok::<Option<(O, usize)>, HandshakeError>(None),
    ensures
        run(decoded) == Some(step_for(decoded[k])),
    decreases k,
{
    if k > 0 {
        let rest = decoded.drop_first();
        assert forall|j: int| 0 <= j < k - 1 implies rest[j] == Ok::<
            Option<(O, usize)>,
            HandshakeError,
        >(None) by {
            assert(rest[j] == decoded[j + 1]);
        }
        run_ends_at_first_decision(rest, k - 1);
    }
}

/// A run in which the decoder wants more after every read comes to nothing.
pub proof fn run_of_partial_reads<O>(decoded: Seq<Decoded<O>>)
    requires
        forall|j: int|
            0 <= j < decoded.len() ==> decoded[j] == Ok::<Option<(O, usize)>, HandshakeError>(
                None,
            ),
    ensures
        run(decoded) is None,
    decreases decoded.len(),
{
    if decoded.len() > 0 {
        let rest = decoded.drop_first();
        assert forall|j: int| 0 <= j < rest.len() implies rest[j] == Ok::<
            Option<(O, usize)>,
            HandshakeError,
        >(None) by {
            assert(rest[j] == decoded[j + 1]);
        }
        run_of_partial_reads(rest);
    }
}

/// The lengths of the buffer after each read, where an input of `len` bytes
/// arrives in chunks of one byte or more: the lengths grow from read to read
/// and end at `len`.
pub open spec fn is_chunking(cuts: Seq<int>, len: int) -> bool {
    &&& cuts.len() > 0
    &&& 0 < cuts[0]
    &&& cuts.last() == len
    &&& forall|i: int, j: int| 0 <= i < j < cuts.len() ==> cuts[i] < cuts[j]
}

/// The buffer after each read, where `input` arrives in the given chunks.
pub open spec fn chunked_reads(input: Seq<u8>, cuts: Seq<int>) -> Seq<Seq<u8>> {
    Seq::new(cuts.len(), |i: int| input.take(cuts[i]))
}

/// The chunking in which every byte arrives by itself.
pub open spec fn one_byte_cuts(len: int) -> Seq<int> {
    Seq::new(len as nat, |i: int| i + 1)
}

/// Bytes that arrive one at a time are a chunking.
pub proof fn one_byte_cuts_is_chunking(len: int)
    requires
        len > 0,
    ensures
        is_chunking(one_byte_cuts(len), len),
{
}

/// Feeding an input in chunks of any size, one byte at a time for one,
/// comes to the same as feeding it in one piece, for a decoder whose answer
/// depends on the buffer alone and which wants more of every input that is
/// cut short.
pub proof fn any_chunking_is_one_shot<O>(
    decode: spec_fn(Seq<u8>) -> Decoded<O>,
    input: Seq<u8>,
    cuts: Seq<int>,
)
    requires
        is_chunking(cuts, input.len() as int),
        forall|n: int|
            0 < n < input.len() ==> #[trigger] decode(input.take(n)) == Ok::<
                Option<(O, usize)>,
                HandshakeError,
            >(None),
    ensures
        run(chunked_reads(input, cuts).map_values(decode)) == run(seq![decode(input)]),
{
    let reads = chunked_reads(input, cuts).map_values(decode);
    let last = cuts.len() - 1;
    assert(input.take(cuts[last]) =~= input);
    assert(reads[last] == decode(input));
    assert forall|j: int| 0 <= j < last implies reads[j] == Ok::<
        Option<(O, usize)>,
        HandshakeError,
    >(None) by {
        assert(0 < cuts[j] < cuts[last]) by {
            if j > 0 {
                assert(cuts[0] < cuts[j]);
            }
        }
        assert(reads[j] == decode(input.take(cuts[j])));
    }
    if decode(input) == Ok::<Option<(O, usize)>, HandshakeError>(None) {
        run_of_partial_reads(reads);
        run_of_partial_reads(seq![decode(input)]);
    } else {
        run_ends_at_first_decision(reads, last);
        run_ends_at_first_decision(seq![decode(input)], 0);
    }
}

/// An incremental parser: a decoder that is fed a growing buffer until it
/// comes to a decision.
pub struct StreamingParser<P> {
    parser: P,
}

impl<P: Decoder> StreamingParser<P> {
    /// The decoder that this parser feeds.
    pub closed spec fn decoder(&self) -> P {
        self.parser
    }

    /// A parser that feeds the given decoder.
    pub fn new(parser: P) -> (r: StreamingParser<P>)
        ensures
            r.decoder() == parser,
    {
        StreamingParser { parser }
    }

    /// Hands the buffer, as it stands after a read, to the decoder and says
    /// what to do next.
    pub fn feed(&mut self, buffer: &[u8]) -> (step: Step<P::Item>)
        ensures
            exists|decoded: Decoded<P::Item>|
                old(self).decoder().decodes(buffer@, decoded, &final(self).decoder()) && step
                    == step_for(decoded),
    {
        let decoded = self.parser.decode(buffer);
        let ghost witness = decoded;
        let step = next_step(decoded);
        assert(old(self).decoder().decodes(buffer@, witness, &self.decoder()) && step == step_for(
            witness,
        ));
        step
    }
}

} // verus!
