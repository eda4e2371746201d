//! The two message shapes the generation server streams, and the chunk
//! decoder that tells them apart.
//!
//! A chunk is decoded to [`Outcome::Partial`] when it is one JSON object
//! carrying the fields of a progress message, to [`Outcome::Terminal`] when
//! it carries the fields of the closing summary, and to
//! [`Outcome::Unrecognized`] otherwise. An unrecognized chunk is not an
//! error: the stream layer skips it.

use vstd::prelude::*;
use vstd::string::StringSliceAdditionalSpecFns;
use crate::json::{
    fields_view, spec_chunk_fields, chunk_fields, JsonValue, JsonValueV,
};

verus! {

/// One incremental progress message: a fragment of the generated text.
#[derive(Debug, Clone, PartialEq, Eq)]
pub struct PartialMessage {
    pub model: Vec<u8>,
    pub created_at: Vec<u8>,
    pub response: Vec<u8>,
    pub done: bool,
}

pub struct PartialMessageV {
    pub model: Seq<u8>,
    pub created_at: Seq<u8>,
    pub response: Seq<u8>,
    pub done: bool,
}

impl View for PartialMessage {
    type V = PartialMessageV;

    open spec fn view(&self) -> PartialMessageV {
        PartialMessageV {
            model: self.model@,
            created_at: self.created_at@,
            response: self.response@,
            done: self.done,
        }
    }
}

/// The closing summary message: token context and timing counters. The
/// stream layer discards these metrics; they are carried for callers that
/// want them.
#[derive(Debug, Clone, PartialEq, Eq)]
pub struct TerminalMessage {
    pub model: Vec<u8>,
    pub created_at: Vec<u8>,
    pub done: bool,
    pub context: Vec<i64>,
    pub total_duration: i64,
    pub load_duration: i64,
    pub sample_count: i64,
    pub sample_duration: i64,
    pub prompt_eval_count: i64,
    pub prompt_eval_duration: i64,
    pub eval_count: i64,
    pub eval_duration: i64,
}

pub struct TerminalMessageV {
    pub model: Seq<u8>,
    pub created_at: Seq<u8>,
    pub done: bool,
    pub context: Seq<int>,
    pub total_duration: int,
    pub load_duration: int,
    pub sample_count: int,
    pub sample_duration: int,
    pub prompt_eval_count: int,
    pub prompt_eval_duration: int,
    pub eval_count: int,
    pub eval_duration: int,
}

impl View for TerminalMessage {
    type V = TerminalMessageV;

    open spec fn view(&self) -> TerminalMessageV {
        TerminalMessageV {
            model: self.model@,
            created_at: self.created_at@,
            done: self.done,
            context: self.context@.map_values(|x: i64| x as int),
            total_duration: self.total_duration as int,
            load_duration: self.load_duration as int,
            sample_count: self.sample_count as int,
            sample_duration: self.sample_duration as int,
            prompt_eval_count: self.prompt_eval_count as int,
            prompt_eval_duration: self.prompt_eval_duration as int,
            eval_count: self.eval_count as int,
            eval_duration: self.eval_duration as int,
        }
    }
}

/// What one chunk decodes to.
#[derive(Debug, Clone, PartialEq, Eq)]
pub enum Outcome {
    Partial(PartialMessage),
    Terminal(TerminalMessage),
    Unrecognized,
}

pub enum OutcomeV {
    Partial(PartialMessageV),
    Terminal(TerminalMessageV),
    Unrecognized,
}

impl View for Outcome {
    type V = OutcomeV;

    open spec fn view(&self) -> OutcomeV {
        match self {
            Outcome::Partial(m) => OutcomeV::Partial(m@),
            Outcome::Terminal(m) => OutcomeV::Terminal(m@),
            Outcome::Unrecognized => OutcomeV::Unrecognized,
        }
    }
}

/// No two fields of the list share a name. [`decode`] refuses an object
/// with repeated keys, so a lookup is unambiguous.
pub open spec fn spec_dup_free(fs: Seq<(Seq<u8>, JsonValueV)>) -> bool {
    forall|a: int, b: int| 0 <= a < b < fs.len() ==> fs[a].0 != fs[b].0
}

/// The value of the field named `key`, or `None` where no field has that
/// name.
pub open spec fn spec_lookup(fs: Seq<(Seq<u8>, JsonValueV)>, key: Seq<u8>) -> Option<JsonValueV>
    decreases fs.len(),
{
    if fs.len() == 0 {
        None
    } else if fs[0].0 == key {
        Some(fs[0].1)
    } else {
        spec_lookup(fs.drop_first(), key)
    }
}

pub open spec fn spec_str_field(fs: Seq<(Seq<u8>, JsonValueV)>, key: Seq<u8>) -> Option<Seq<u8>> {
    match spec_lookup(fs, key) {
        Some(JsonValueV::Str(s)) => Some(s),
        _ => None,
    }
}

pub open spec fn spec_bool_field(fs: Seq<(Seq<u8>, JsonValueV)>, key: Seq<u8>) -> Option<bool> {
    match spec_lookup(fs, key) {
        Some(JsonValueV::Bool(b)) => Some(b),
        _ => None,
    }
}

pub open spec fn spec_int_field(fs: Seq<(Seq<u8>, JsonValueV)>, key: Seq<u8>) -> Option<int> {
    match spec_lookup(fs, key) {
        Some(JsonValueV::Int(n)) => Some(n),
        _ => None,
    }
}

pub open spec fn spec_ints_field(fs: Seq<(Seq<u8>, JsonValueV)>, key: Seq<u8>) -> Option<
    Seq<int>,
> {
    match spec_lookup(fs, key) {
        Some(JsonValueV::Ints(v)) => Some(v),
        _ => None,
    }
}

/// A field list carries a progress message when `model`, `created_at` and
/// `response` are strings and `done` is a boolean.
pub open spec fn spec_is_partial(fs: Seq<(Seq<u8>, JsonValueV)>) -> bool {
    &&& spec_str_field(fs, "model".spec_bytes()) is Some
    &&& spec_str_field(fs, "created_at".spec_bytes()) is Some
    &&& spec_str_field(fs, "response".spec_bytes()) is Some
    &&& spec_bool_field(fs, "done".spec_bytes()) is Some
}

pub open spec fn spec_partial_of(fs: Seq<(Seq<u8>, JsonValueV)>) -> PartialMessageV {
    PartialMessageV {
        model: spec_str_field(fs, "model".spec_bytes()).unwrap(),
        created_at: spec_str_field(fs, "created_at".spec_bytes()).unwrap(),
        response: spec_str_field(fs, "response".spec_bytes()).unwrap(),
        done: spec_bool_field(fs, "done".spec_bytes()).unwrap(),
    }
}

/// A field list carries the closing summary when `model` and `created_at`
/// are strings, `done` is a boolean, `context` is an integer array, and the
/// eight counters are integers.
pub open spec fn spec_is_terminal(fs: Seq<(Seq<u8>, JsonValueV)>) -> bool {
    &&& spec_str_field(fs, "model".spec_bytes()) is Some
    &&& spec_str_field(fs, "created_at".spec_bytes()) is Some
    &&& spec_bool_field(fs, "done".spec_bytes()) is Some
    &&& spec_ints_field(fs, "context".spec_bytes()) is Some
    &&& spec_int_field(fs, "total_duration".spec_bytes()) is Some
    &&& spec_int_field(fs, "load_duration".spec_bytes()) is Some
    &&& spec_int_field(fs, "sample_count".spec_bytes()) is Some
    &&& spec_int_field(fs, "sample_duration".spec_bytes()) is Some
    &&& spec_int_field(fs, "prompt_eval_count".spec_bytes()) is Some
    &&& spec_int_field(fs, "prompt_eval_duration".spec_bytes()) is Some
    &&& spec_int_field(fs, "eval_count".spec_bytes()) is Some
    &&& spec_int_field(fs, "eval_duration".spec_bytes()) is Some
}

pub open spec fn spec_terminal_of(fs: Seq<(Seq<u8>, JsonValueV)>) -> TerminalMessageV {
    TerminalMessageV {
        model: spec_str_field(fs, "model".spec_bytes()).unwrap(),
        created_at: spec_str_field(fs, "created_at".spec_bytes()).unwrap(),
        done: spec_bool_field(fs, "done".spec_bytes()).unwrap(),
        context: spec_ints_field(fs, "context".spec_bytes()).unwrap(),
        total_duration: spec_int_field(fs, "total_duration".spec_bytes()).unwrap(),
        load_duration: spec_int_field(fs, "load_duration".spec_bytes()).unwrap(),
        sample_count: spec_int_field(fs, "sample_count".spec_bytes()).unwrap(),
        sample_duration: spec_int_field(fs, "sample_duration".spec_bytes()).unwrap(),
        prompt_eval_count: spec_int_field(fs, "prompt_eval_count".spec_bytes()).unwrap(),
        prompt_eval_duration: spec_int_field(fs, "prompt_eval_duration".spec_bytes()).unwrap(),
        eval_count: spec_int_field(fs, "eval_count".spec_bytes()).unwrap(),
        eval_duration: spec_int_field(fs, "eval_duration".spec_bytes()).unwrap(),
    }
}

/// What [`decode`] returns for a given chunk: the progress shape wins where
/// both shapes would fit; an object with repeated keys, and anything else,
/// is unrecognized.
pub open spec fn spec_decode(s: Seq<u8>) -> OutcomeV {
    match spec_chunk_fields(s) {
        Some(fs) => if !spec_dup_free(fs) {
            OutcomeV::Unrecognized
        } else if spec_is_partial(fs) {
            OutcomeV::Partial(spec_partial_of(fs))
        } else if spec_is_terminal(fs) {
            OutcomeV::Terminal(spec_terminal_of(fs))
        } else {
            OutcomeV::Unrecognized
        },
        None => OutcomeV::Unrecognized,
    }
}

fn bytes_eq(a: &[u8], b: &[u8]) -> (r: bool)
    ensures
        r <==> a@ == b@,
{
    if a.len() != b.len() {
        proof {
            assert(a@.len() != b@.len());
        }
        return false;
    }
    let mut i: usize = 0;
    while i < a.len()
        invariant
            i <= a@.len(),
            a@.len() == b@.len(),
            forall|k: int| 0 <= k < i ==> a@[k] == b@[k],
        decreases a@.len() - i,
    {
        if a[i] != b[i] {
            return false;
        }
        i = i + 1;
    }
    proof {
        assert(a@ =~= b@);
    }
    true
}

fn copy_bytes(a: &[u8]) -> (r: Vec<u8>)
    ensures
        r@ == a@,
{
    let mut r: Vec<u8> = Vec::new();
    let mut i: usize = 0;
    while i < a.len()
        invariant
            i <= a@.len(),
            r@ == a@.take(i as int),
        decreases a@.len() - i,
    {
        r.push(a[i]);
        proof {
            assert(a@.take(i + 1 as int) =~= a@.take(i as int).push(a@[i as int]));
        }
        i = i + 1;
    }
    proof {
        assert(a@.take(a@.len() as int) =~= a@);
    }
    r
}

fn copy_ints(a: &[i64]) -> (r: Vec<i64>)
    ensures
        r@ == a@,
{
    let mut r: Vec<i64> = Vec::new();
    let mut i: usize = 0;
    while i < a.len()
        invariant
            i <= a@.len(),
            r@ == a@.take(i as int),
        decreases a@.len() - i,
    {
        r.push(a[i]);
        proof {
            assert(a@.take(i + 1 as int) =~= a@.take(i as int).push(a@[i as int]));
        }
        i = i + 1;
    }
    proof {
        assert(a@.take(a@.len() as int) =~= a@);
    }
    r
}

fn dup_free(fs: &Vec<(Vec<u8>, JsonValue)>) -> (r: bool)
    ensures
        r == spec_dup_free(fields_view(fs@)),
{
    let mut a: usize = 0;
    while a < fs.len()
        invariant
            a <= fs@.len(),
            forall|x: int, y: int|
                0 <= x < a && x < y < fs@.len() ==> fields_view(fs@)[x].0 != fields_view(
                    fs@,
                )[y].0,
        decreases fs@.len() - a,
    {
        let mut b: usize = a + 1;
        while b < fs.len()
            invariant
                a < b || b == a + 1,
                a < fs@.len(),
                a + 1 <= b <= fs@.len(),
                forall|y: int| a < y < b ==> fields_view(fs@)[a as int].0 != fields_view(fs@)[y].0,
                forall|x: int, y: int|
                    0 <= x < a && x < y < fs@.len() ==> fields_view(fs@)[x].0 != fields_view(
                        fs@,
                    )[y].0,
            decreases fs@.len() - b,
        {
            if bytes_eq(fs[a].0.as_slice(), fs[b].0.as_slice()) {
                proof {
                    assert(fields_view(fs@)[a as int].0 == fields_view(fs@)[b as int].0);
                }
                return false;
            }
            b = b + 1;
        }
        a = a + 1;
    }
    true
}

fn find_field(fs: &Vec<(Vec<u8>, JsonValue)>, i: usize, key: &[u8]) -> (r: Option<usize>)
    requires
        i <= fs@.len(),
    ensures
        match spec_lookup(fields_view(fs@).skip(i as int), key@) {
            Some(v) => (r matches Some(ix) && i <= ix < fs@.len() && fs@[ix as int].0@ == key@
                && fs@[ix as int].1@ == v),
            None => r is None,
        },
    decreases fs@.len() - i,
{
    if i < fs.len() {
        proof {
            assert(fields_view(fs@).skip(i as int)[0] == (fs@[i as int].0@, fs@[i as int].1@));
            assert(fields_view(fs@).skip(i as int).drop_first() =~= fields_view(fs@).skip(
                i as int + 1,
            ));
        }
        if bytes_eq(fs[i].0.as_slice(), key) {
            Some(i)
        } else {
            find_field(fs, i + 1, key)
        }
    } else {
        proof {
            assert(fields_view(fs@).skip(i as int) =~= Seq::<(Seq<u8>, JsonValueV)>::empty());
        }
        None
    }
}

fn get_str(fs: &Vec<(Vec<u8>, JsonValue)>, key: &[u8]) -> (r: Option<Vec<u8>>)
    ensures
        match spec_str_field(fields_view(fs@), key@) {
            Some(v) => (r matches Some(rv) && rv@ == v),
            None => r is None,
        },
{
    proof {
        assert(fields_view(fs@).skip(0) =~= fields_view(fs@));
    }
    match find_field(fs, 0, key) {
        Some(ix) => match &fs[ix].1 {
            JsonValue::Str(v) => Some(copy_bytes(v.as_slice())),
            _ => None,
        },
        None => None,
    }
}

fn get_bool(fs: &Vec<(Vec<u8>, JsonValue)>, key: &[u8]) -> (r: Option<bool>)
    ensures
        match spec_bool_field(fields_view(fs@), key@) {
            Some(v) => r == Some(v),
            None => r is None,
        },
{
    proof {
        assert(fields_view(fs@).skip(0) =~= fields_view(fs@));
    }
    match find_field(fs, 0, key) {
        Some(ix) => match &fs[ix].1 {
            JsonValue::Bool(b) => Some(*b),
            _ => None,
        },
        None => None,
    }
}

fn get_int(fs: &Vec<(Vec<u8>, JsonValue)>, key: &[u8]) -> (r: Option<i64>)
    ensures
        match spec_int_field(fields_view(fs@), key@) {
            Some(v) => (r matches Some(rv) && rv as int == v),
            None => r is None,
        },
{
    proof {
        assert(fields_view(fs@).skip(0) =~= fields_view(fs@));
    }
    match find_field(fs, 0, key) {
        Some(ix) => match &fs[ix].1 {
            JsonValue::Int(n) => Some(*n),
            _ => None,
        },
        None => None,
    }
}

fn get_ints(fs: &Vec<(Vec<u8>, JsonValue)>, key: &[u8]) -> (r: Option<Vec<i64>>)
    ensures
        match spec_ints_field(fields_view(fs@), key@) {
            Some(v) => (r matches Some(rv) && rv@.map_values(|x: i64| x as int) == v),
            None => r is None,
        },
{
    proof {
        assert(fields_view(fs@).skip(0) =~= fields_view(fs@));
    }
    match find_field(fs, 0, key) {
        Some(ix) => match &fs[ix].1 {
            JsonValue::Ints(v) => Some(copy_ints(v.as_slice())),
            _ => None,
        },
        None => None,
    }
}

fn classify(fs: &Vec<(Vec<u8>, JsonValue)>) -> (r: Outcome)
    ensures
        r@ == (if spec_is_partial(fields_view(fs@)) {
            OutcomeV::Partial(spec_partial_of(fields_view(fs@)))
        } else if spec_is_terminal(fields_view(fs@)) {
            OutcomeV::Terminal(spec_terminal_of(fields_view(fs@)))
        } else {
            OutcomeV::Unrecognized
        }),
{
    let model = get_str(fs, "model".as_bytes());
    let created_at = get_str(fs, "created_at".as_bytes());
    let done = get_bool(fs, "done".as_bytes());
    match (model, created_at, done) {
        (Some(model), Some(created_at), Some(done)) => {
            match get_str(fs, "response".as_bytes()) {
                Some(response) => Outcome::Partial(
                    PartialMessage { model, created_at, response, done },
                ),
                None => {
                    let context = get_ints(fs, "context".as_bytes());
                    let total_duration = get_int(fs, "total_duration".as_bytes());
                    let load_duration = get_int(fs, "load_duration".as_bytes());
                    let sample_count = get_int(fs, "sample_count".as_bytes());
                    let sample_duration = get_int(fs, "sample_duration".as_bytes());
                    let prompt_eval_count = get_int(fs, "prompt_eval_count".as_bytes());
                    let prompt_eval_duration = get_int(fs, "prompt_eval_duration".as_bytes());
                    let eval_count = get_int(fs, "eval_count".as_bytes());
                    let eval_duration = get_int(fs, "eval_duration".as_bytes());
                    match (context, total_duration, load_duration, sample_count, sample_duration) {
                        (
                            Some(context),
                            Some(total_duration),
                            Some(load_duration),
                            Some(sample_count),
                            Some(sample_duration),
                        ) => match (
                            prompt_eval_count,
                            prompt_eval_duration,
                            eval_count,
                            eval_duration,
                        ) {
                            (
                                Some(prompt_eval_count),
                                Some(prompt_eval_duration),
                                Some(eval_count),
                                Some(eval_duration),
                            ) => Outcome::Terminal(
                                TerminalMessage {
                                    model,
                                    created_at,
                                    done,
                                    context,
                                    total_duration,
                                    load_duration,
                                    sample_count,
                                    sample_duration,
                                    prompt_eval_count,
                                    prompt_eval_duration,
                                    eval_count,
                                    eval_duration,
                                },
                            ),
                            _ => Outcome::Unrecognized,
                        },
                        _ => Outcome::Unrecognized,
                    }
                },
            }
        },
        _ => Outcome::Unrecognized,
    }
}

/// Decode one transport chunk. The result is a pure function of the chunk's
/// bytes: two calls on equal bytes yield equal outcomes.
pub fn decode(chunk: &[u8]) -> (r: Outcome)
    ensures
        r@ == spec_decode(chunk@),
{
    match chunk_fields(chunk) {
        Some(fs) => {
            if dup_free(&fs) {
                classify(&fs)
            } else {
                Outcome::Unrecognized
            }
        },
        None => Outcome::Unrecognized,
    }
}

} // verus!
