//! The outbound request payload: one JSON object `{"model":...,"prompt":...}`
//! with the string contents escaped as JSON asks.

use vstd::prelude::*;
use vstd::string::StringSliceAdditionalSpecFns;
use crate::stream::append_bytes;

verus! {

/// The lower-case hexadecimal digit for `n` in `0..16`.
pub open spec fn spec_hex_digit(n: int) -> u8 {
    if n < 10 {
        (48 + n) as u8
    } else {
        (87 + n) as u8
    }
}

/// How one byte of string content is written inside a JSON string literal:
/// quote, backslash and the named control bytes as short escapes, any other
/// control byte as `\u00XX`, everything else as itself.
pub open spec fn spec_escape_byte(b: u8) -> Seq<u8> {
    if b == 34 {
        seq![92u8, 34u8]
    } else if b == 92 {
        seq![92u8, 92u8]
    } else if b == 10 {
        seq![92u8, 110u8]
    } else if b == 9 {
        seq![92u8, 116u8]
    } else if b == 13 {
        seq![92u8, 114u8]
    } else if b == 8 {
        seq![92u8, 98u8]
    } else if b == 12 {
        seq![92u8, 102u8]
    } else if b < 32 {
        seq![92u8, 117u8, 48u8, 48u8, spec_hex_digit(b as int / 16), spec_hex_digit(b as int % 16)]
    } else {
        seq![b]
    }
}

/// The JSON escaping of a whole byte string.
pub open spec fn spec_escape(s: Seq<u8>) -> Seq<u8>
    decreases s.len(),
{
    if s.len() == 0 {
        Seq::<u8>::empty()
    } else {
        spec_escape_byte(s[0]) + spec_escape(s.drop_first())
    }
}

pub proof fn lemma_escape_snoc(s: Seq<u8>, b: u8)
    ensures
        spec_escape(s.push(b)) == spec_escape(s) + spec_escape_byte(b),
    decreases s.len(),
{
    if s.len() == 0 {
        assert(s.push(b)[0] == b);
        assert(s.push(b).drop_first() =~= Seq::<u8>::empty());
        assert(spec_escape(s.push(b).drop_first()) == Seq::<u8>::empty());
        assert(spec_escape_byte(b) + Seq::<u8>::empty() =~= spec_escape_byte(b));
        assert(Seq::<u8>::empty() + spec_escape_byte(b) =~= spec_escape_byte(b));
    } else {
        lemma_escape_snoc(s.drop_first(), b);
        assert(s.push(b)[0] == s[0]);
        assert(s.push(b).drop_first() =~= s.drop_first().push(b));
        assert(spec_escape_byte(s[0]) + (spec_escape(s.drop_first()) + spec_escape_byte(b)) =~= (
        spec_escape_byte(s[0]) + spec_escape(s.drop_first())) + spec_escape_byte(b));
    }
}

/// The whole request body for a model identifier and a prompt.
pub open spec fn spec_request_body(model: Seq<u8>, prompt: Seq<u8>) -> Seq<u8> {
    "{\"model\":\"".spec_bytes() + spec_escape(model) + "\",\"prompt\":\"".spec_bytes()
        + spec_escape(prompt) + "\"}".spec_bytes()
}

fn hex_digit(n: u8) -> (r: u8)
    requires
        n < 16,
    ensures
        r == spec_hex_digit(n as int),
{
    if n < 10 {
        48 + n
    } else {
        87 + n
    }
}

fn escape_into(out: &mut Vec<u8>, s: &[u8])
    ensures
        final(out)@ == old(out)@ + spec_escape(s@),
{
    let mut i: usize = 0;
    proof {
        assert(old(out)@ + spec_escape(s@.take(0)) =~= old(out)@);
    }
    while i < s.len()
        invariant
            i <= s@.len(),
            out@ == old(out)@ + spec_escape(s@.take(i as int)),
        decreases s@.len() - i,
    {
        let b = s[i];
        if b == 34 {
            out.push(92);
            out.push(34);
        } else if b == 92 {
            out.push(92);
            out.push(92);
        } else if b == 10 {
            out.push(92);
            out.push(110);
        } else if b == 9 {
            out.push(92);
            out.push(116);
        } else if b == 13 {
            out.push(92);
            out.push(114);
        } else if b == 8 {
            out.push(92);
            out.push(98);
        } else if b == 12 {
            out.push(92);
            out.push(102);
        } else if b < 32 {
            out.push(92);
            out.push(117);
            out.push(48);
            out.push(48);
            out.push(hex_digit(b / 16));
            out.push(hex_digit(b % 16));
        } else {
            out.push(b);
        }
        proof {
            lemma_escape_snoc(s@.take(i as int), s@[i as int]);
            assert(s@.take(i + 1 as int) =~= s@.take(i as int).push(s@[i as int]));
            assert(out@ =~= (old(out)@ + spec_escape(s@.take(i as int))) + spec_escape_byte(
                s@[i as int],
            ));
            assert((old(out)@ + spec_escape(s@.take(i as int))) + spec_escape_byte(s@[i as int])
                =~= old(out)@ + (spec_escape(s@.take(i as int)) + spec_escape_byte(s@[i as int])));
        }
        i = i + 1;
    }
    proof {
        assert(s@.take(s@.len() as int) =~= s@);
    }
}

/// One generation request: the model to ask and the prompt to complete.
/// Built fresh per call and immutable once encoded.
pub struct GenerationRequest {
    pub model: Vec<u8>,
    pub prompt: Vec<u8>,
}

impl GenerationRequest {
    /// A model identifier must be non-empty; the prompt may be empty.
    pub fn new(model: Vec<u8>, prompt: Vec<u8>) -> (r: GenerationRequest)
        requires
            model@.len() > 0,
        ensures
            r.model@ == model@,
            r.prompt@ == prompt@,
    {
        GenerationRequest { model, prompt }
    }

    /// The JSON body sent to the generation endpoint.
    pub fn encode(&self) -> (r: Vec<u8>)
        ensures
            r@ == spec_request_body(self.model@, self.prompt@),
    {
        let mut out: Vec<u8> = Vec::new();
        append_bytes(&mut out, "{\"model\":\"".as_bytes());
        proof {
            assert(Seq::<u8>::empty() + "{\"model\":\"".spec_bytes() =~= "{\"model\":\""
                .spec_bytes());
        }
        escape_into(&mut out, self.model.as_slice());
        append_bytes(&mut out, "\",\"prompt\":\"".as_bytes());
        escape_into(&mut out, self.prompt.as_slice());
        append_bytes(&mut out, "\"}".as_bytes());
        proof {
            assert((((("{\"model\":\"".spec_bytes() + spec_escape(self.model@))
                + "\",\"prompt\":\"".spec_bytes()) + spec_escape(self.prompt@)) + "\"}"
                .spec_bytes()) =~= spec_request_body(self.model@, self.prompt@));
        }
        out
    }
}

} // verus!
