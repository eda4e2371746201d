//! The stream layer: the accumulator that grows the answer text, the
//! per-request session that feeds it chunk by chunk, and the assembly of a
//! whole transcript.
//!
//! The text of a stream is the concatenation, in arrival order, of the
//! `response` fields of the chunks that decode to a progress message, up to
//! the first chunk that decodes to the closing summary; chunks that decode
//! to neither shape are skipped. A failed transport yields no text at all,
//! and a stream that closed without a single chunk is reported as empty.

use vstd::prelude::*;
use crate::message::{decode, spec_decode, Outcome, OutcomeV};

verus! {

/// How the transport ended the stream.
#[derive(Debug, Clone, Copy, PartialEq, Eq, Structural)]
pub enum StreamEnd {
    /// The server closed the response body normally.
    Closed,
    /// Reading the response body failed mid-stream.
    Interrupted,
}

/// Why a completion call returned no text.
#[derive(Debug, Clone, Copy, PartialEq, Eq, Structural)]
pub enum ClientError {
    /// The request could not be sent or opened.
    ConnectionFailed,
    /// The stream broke while being read; accumulated text is discarded.
    TransportError,
    /// The stream closed before a single chunk arrived.
    EmptyResponse,
}

/// The views of a transcript's chunks.
pub open spec fn chunks_view(chunks: Seq<Vec<u8>>) -> Seq<Seq<u8>> {
    chunks.map_values(|c: Vec<u8>| c@)
}

/// The assembled text of a stream of chunks.
pub open spec fn spec_texts(chunks: Seq<Seq<u8>>) -> Seq<u8>
    decreases chunks.len(),
{
    if chunks.len() == 0 {
        Seq::<u8>::empty()
    } else {
        match spec_decode(chunks[0]) {
            OutcomeV::Partial(m) => m.response + spec_texts(chunks.drop_first()),
            OutcomeV::Terminal(_) => Seq::<u8>::empty(),
            OutcomeV::Unrecognized => spec_texts(chunks.drop_first()),
        }
    }
}

/// Whether some chunk of the stream decodes to the closing summary.
pub open spec fn spec_stopped(chunks: Seq<Seq<u8>>) -> bool
    decreases chunks.len(),
{
    if chunks.len() == 0 {
        false
    } else {
        match spec_decode(chunks[0]) {
            OutcomeV::Terminal(_) => true,
            _ => spec_stopped(chunks.drop_first()),
        }
    }
}

/// The text one more chunk contributes: the `response` of a progress
/// message, nothing otherwise.
pub open spec fn spec_text_of(o: OutcomeV) -> Seq<u8> {
    match o {
        OutcomeV::Partial(m) => m.response,
        _ => Seq::<u8>::empty(),
    }
}

/// How one more chunk at the end of a stream changes its text: nothing
/// changes once the summary has been seen; before it, the chunk's own
/// contribution is appended.
pub proof fn lemma_texts_snoc(chunks: Seq<Seq<u8>>, c: Seq<u8>)
    ensures
        spec_stopped(chunks) ==> spec_texts(chunks.push(c)) == spec_texts(chunks) && spec_stopped(
            chunks.push(c),
        ),
        !spec_stopped(chunks) ==> spec_texts(chunks.push(c)) == spec_texts(chunks) + spec_text_of(
            spec_decode(c),
        ) && spec_stopped(chunks.push(c)) == (spec_decode(c) is Terminal),
    decreases chunks.len(),
{
    if chunks.len() == 0 {
        assert(chunks.push(c)[0] == c);
        assert(chunks.push(c).drop_first() =~= Seq::<Seq<u8>>::empty());
        assert(spec_texts(chunks.push(c).drop_first()) == Seq::<u8>::empty());
        assert(spec_stopped(chunks.push(c).drop_first()) == false);
        match spec_decode(c) {
            OutcomeV::Partial(m) => {
                assert(spec_texts(chunks.push(c)) == m.response + Seq::<u8>::empty());
                assert(m.response + Seq::<u8>::empty() =~= m.response);
                assert(spec_texts(chunks) + spec_text_of(spec_decode(c)) =~= m.response);
            },
            OutcomeV::Terminal(_) => {
            },
            OutcomeV::Unrecognized => {
                assert(spec_texts(chunks) + spec_text_of(spec_decode(c)) =~= Seq::<u8>::empty());
            },
        }
    } else {
        lemma_texts_snoc(chunks.drop_first(), c);
        assert(chunks.push(c)[0] == chunks[0]);
        assert(chunks.push(c).drop_first() =~= chunks.drop_first().push(c));
        match spec_decode(chunks[0]) {
            OutcomeV::Partial(m) => {
                if !spec_stopped(chunks) {
                    assert(m.response + (spec_texts(chunks.drop_first()) + spec_text_of(
                        spec_decode(c),
                    )) =~= (m.response + spec_texts(chunks.drop_first())) + spec_text_of(
                        spec_decode(c),
                    ));
                }
            },
            OutcomeV::Terminal(_) => {
            },
            OutcomeV::Unrecognized => {
            },
        }
    }
}

pub(crate) fn append_bytes(v: &mut Vec<u8>, s: &[u8])
    ensures
        final(v)@ == old(v)@ + s@,
{
    let mut i: usize = 0;
    while i < s.len()
        invariant
            i <= s@.len(),
            v@ == old(v)@ + s@.take(i as int),
        decreases s@.len() - i,
    {
        v.push(s[i]);
        proof {
            assert(old(v)@ + s@.take(i + 1 as int) =~= (old(v)@ + s@.take(i as int)).push(
                s@[i as int],
            ));
        }
        i = i + 1;
    }
    proof {
        assert(old(v)@ + s@.take(s@.len() as int) =~= old(v)@ + s@);
    }
}

/// How ingesting one outcome changes the accumulated text.
pub open spec fn spec_ingest_text(t: Seq<u8>, done: bool, o: OutcomeV) -> Seq<u8> {
    if done {
        t
    } else {
        t + spec_text_of(o)
    }
}

/// Whether the stream is logically finished after ingesting one outcome.
pub open spec fn spec_ingest_done(done: bool, o: OutcomeV) -> bool {
    done || o is Terminal
}

/// The growing answer of one completion call. Owned by a single call; the
/// text equals the ordered concatenation of every ingested progress
/// message's `response`, with nothing inserted, until the summary arrives.
pub struct Accumulator {
    buf: Vec<u8>,
    done: bool,
}

impl Accumulator {
    /// The text gathered so far.
    pub closed spec fn text(self) -> Seq<u8> {
        self.buf@
    }

    /// Whether the closing summary has been seen.
    pub closed spec fn is_done(self) -> bool {
        self.done
    }

    pub fn new() -> (r: Accumulator)
        ensures
            r.text() == Seq::<u8>::empty(),
            !r.is_done(),
    {
        Accumulator { buf: Vec::new(), done: false }
    }

    /// Consume one decoded outcome, in arrival order. Progress text is
    /// appended verbatim; the summary freezes the text; an unrecognized
    /// chunk changes nothing. Returns whether the stream is finished.
    pub fn ingest(&mut self, o: &Outcome) -> (done: bool)
        ensures
            final(self).text() == spec_ingest_text(old(self).text(), old(self).is_done(), o@),
            final(self).is_done() == spec_ingest_done(old(self).is_done(), o@),
            done == final(self).is_done(),
    {
        if self.done {
            return true;
        }
        match o {
            Outcome::Partial(m) => {
                append_bytes(&mut self.buf, m.response.as_slice());
                false
            },
            Outcome::Terminal(_) => {
                self.done = true;
                proof {
                    assert(self.buf@ + Seq::<u8>::empty() =~= self.buf@);
                }
                true
            },
            Outcome::Unrecognized => {
                proof {
                    assert(self.buf@ + Seq::<u8>::empty() =~= self.buf@);
                }
                false
            },
        }
    }

    /// The assembled text, once stream reading has ended.
    pub fn finish(self) -> (r: Vec<u8>)
        ensures
            r@ == self.text(),
    {
        self.buf
    }
}

/// One request's streaming exchange, fed chunk by chunk as the transport
/// delivers them. The ghost history records the chunks seen, so the final
/// answer is pinned to the whole transcript.
pub struct Session {
    acc: Accumulator,
    got_any: bool,
    history: Ghost<Seq<Seq<u8>>>,
}

impl Session {
    /// The chunks fed so far, in order.
    pub closed spec fn history(self) -> Seq<Seq<u8>> {
        self.history@
    }

    pub closed spec fn wf(self) -> bool {
        &&& self.acc.text() == spec_texts(self.history@)
        &&& self.acc.is_done() == spec_stopped(self.history@)
        &&& self.got_any == (self.history@.len() > 0)
    }

    pub fn new() -> (r: Session)
        ensures
            r.wf(),
            r.history() == Seq::<Seq<u8>>::empty(),
    {
        Session { acc: Accumulator::new(), got_any: false, history: Ghost(Seq::empty()) }
    }

    /// Feed the next transport chunk. Returns whether the closing summary
    /// has been seen, so a caller may stop processing text while still
    /// draining the stream.
    pub fn on_chunk(&mut self, chunk: &[u8]) -> (done: bool)
        requires
            old(self).wf(),
        ensures
            final(self).wf(),
            final(self).history() == old(self).history().push(chunk@),
            done == spec_stopped(final(self).history()),
    {
        let o = decode(chunk);
        proof {
            lemma_texts_snoc(self.history@, chunk@);
        }
        let done = self.acc.ingest(&o);
        self.got_any = true;
        proof {
            self.history@ = self.history@.push(chunk@);
        }
        done
    }

    /// Conclude the exchange once the transport reports its end. A broken
    /// stream yields `TransportError` and discards the text; a stream that
    /// closed without any chunk yields `EmptyResponse`; otherwise the
    /// assembled text of the whole transcript is returned.
    pub fn on_end(self, end: StreamEnd) -> (r: Result<Vec<u8>, ClientError>)
        requires
            self.wf(),
        ensures
            match r {
                Ok(text) => end == StreamEnd::Closed && self.history().len() > 0 && text@
                    == spec_texts(self.history()),
                Err(e) => (end == StreamEnd::Interrupted && e == ClientError::TransportError) || (
                end == StreamEnd::Closed && self.history().len() == 0 && e
                    == ClientError::EmptyResponse),
            },
    {
        match end {
            StreamEnd::Interrupted => Err(ClientError::TransportError),
            StreamEnd::Closed => {
                if self.got_any {
                    Ok(self.acc.finish())
                } else {
                    Err(ClientError::EmptyResponse)
                }
            },
        }
    }
}

/// Assemble a whole transcript at once: every chunk decoded and ingested in
/// arrival order, then concluded as the transport ended.
pub fn assemble(chunks: &Vec<Vec<u8>>, end: StreamEnd) -> (r: Result<Vec<u8>, ClientError>)
    ensures
        match r {
            Ok(text) => end == StreamEnd::Closed && chunks@.len() > 0 && text@ == spec_texts(
                chunks_view(chunks@),
            ),
            Err(e) => (end == StreamEnd::Interrupted && e == ClientError::TransportError) || (end
                == StreamEnd::Closed && chunks@.len() == 0 && e == ClientError::EmptyResponse),
        },
{
    let mut session = Session::new();
    let mut i: usize = 0;
    while i < chunks.len()
        invariant
            session.wf(),
            i <= chunks@.len(),
            session.history() == chunks_view(chunks@).take(i as int),
        decreases chunks@.len() - i,
    {
        let _ = session.on_chunk(chunks[i].as_slice());
        proof {
            assert(chunks_view(chunks@).take(i + 1 as int) =~= chunks_view(chunks@).take(
                i as int,
            ).push(chunks@[i as int]@));
        }
        i = i + 1;
    }
    proof {
        assert(chunks_view(chunks@).take(chunks@.len() as int) =~= chunks_view(chunks@));
    }
    session.on_end(end)
}

} // verus!
