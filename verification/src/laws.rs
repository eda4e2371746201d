//! Laws of the stream layer, stated over the same spec functions the
//! executable contracts use.

use vstd::prelude::*;
use crate::message::spec_decode;
use crate::stream::{spec_texts, spec_text_of};

verus! {

/// The concatenation of the text contributed by `chunks[k..n)`, in order.
pub open spec fn spec_responses(chunks: Seq<Seq<u8>>, k: int, n: int) -> Seq<u8>
    decreases n - k,
{
    if k < n {
        spec_text_of(spec_decode(chunks[k])) + spec_responses(chunks, k + 1, n)
    } else {
        Seq::<u8>::empty()
    }
}

proof fn lemma_responses_shift(chunks: Seq<Seq<u8>>, k: int, n: int)
    requires
        0 <= k,
        chunks.len() > 0,
        n + 1 <= chunks.len(),
    ensures
        spec_responses(chunks.drop_first(), k, n) == spec_responses(chunks, k + 1, n + 1),
    decreases n - k,
{
    if k < n {
        lemma_responses_shift(chunks, k + 1, n);
        assert(chunks.drop_first()[k] == chunks[k + 1]);
    }
}

/// A stream of progress messages followed by one closing summary assembles
/// to the concatenation of the `response` fields in arrival order, with no
/// extra bytes inserted.
pub proof fn lemma_partials_then_terminal(chunks: Seq<Seq<u8>>, n: int)
    requires
        0 <= n,
        chunks.len() == n + 1,
        forall|k: int| 0 <= k < n ==> spec_decode(chunks[k]) is Partial,
        spec_decode(chunks[n]) is Terminal,
    ensures
        spec_texts(chunks) == spec_responses(chunks, 0, n),
    decreases n,
{
    if n == 0 {
        assert(spec_texts(chunks) == Seq::<u8>::empty());
    } else {
        assert(spec_decode(chunks[0]) is Partial);
        let rest = chunks.drop_first();
        assert(rest.len() == n);
        assert(forall|k: int| 0 <= k < n - 1 ==> rest[k] == chunks[k + 1]);
        assert(rest[n - 1] == chunks[n]);
        lemma_partials_then_terminal(rest, n - 1);
        lemma_responses_shift(chunks, 0, n - 1);
        assert(spec_responses(chunks, 0, n) == spec_text_of(spec_decode(chunks[0]))
            + spec_responses(chunks, 1, n));
    }
}

/// Inserting a chunk that decodes to neither message shape, anywhere in a
/// stream, leaves the assembled text unchanged.
pub proof fn lemma_unrecognized_skipped(chunks: Seq<Seq<u8>>, i: int, c: Seq<u8>)
    requires
        0 <= i <= chunks.len(),
        spec_decode(c) is Unrecognized,
    ensures
        spec_texts(chunks.insert(i, c)) == spec_texts(chunks),
    decreases i,
{
    if i == 0 {
        assert(chunks.insert(0, c)[0] == c);
        assert(chunks.insert(0, c).drop_first() =~= chunks);
    } else {
        lemma_unrecognized_skipped(chunks.drop_first(), i - 1, c);
        assert(chunks.insert(i, c)[0] == chunks[0]);
        assert(chunks.insert(i, c).drop_first() =~= chunks.drop_first().insert(i - 1, c));
    }
}

/// A stream whose only chunk is the closing summary assembles to the empty
/// text; with the stream layer's contracts, such a closed stream is a
/// success, not an error.
pub proof fn lemma_terminal_only(c: Seq<u8>)
    requires
        spec_decode(c) is Terminal,
    ensures
        spec_texts(seq![c]) == Seq::<u8>::empty(),
{
    assert(seq![c][0] == c);
}

} // verus!
