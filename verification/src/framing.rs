//! Reassembly of messages across transport reads. The server's stream is a
//! byte stream of back-to-back JSON objects, and a read boundary need not
//! fall on an object boundary: one message may span several reads, and one
//! read may carry several messages.
//!
//! A [`FramedSession`] keeps the bytes that do not yet form a whole object
//! in a rolling buffer. After every read it cuts, from the front of the
//! buffer, each complete top-level object (found by brace depth, with
//! string literals and escapes respected) and feeds it to the per-request
//! [`Session`]; bytes before an object's opening brace that can never open
//! one are dropped. What remains pending is at most one incomplete object.

use vstd::prelude::*;
use crate::stream::{append_bytes, spec_stopped, spec_texts, ClientError, Session, StreamEnd};

verus! {

/// The position just past the object whose opening brace is read first
/// from `i`, tracking brace depth and string state; `None` where the bytes
/// run out before the object closes.
pub open spec fn spec_obj_end(s: Seq<u8>, i: int, depth: int, in_str: bool, esc: bool) -> Option<
    int,
>
    decreases s.len() - i,
{
    if 0 <= i && i < s.len() {
        let b = s[i];
        if in_str {
            if esc {
                spec_obj_end(s, i + 1, depth, true, false)
            } else if b == 92 {
                spec_obj_end(s, i + 1, depth, true, true)
            } else if b == 34 {
                spec_obj_end(s, i + 1, depth, false, false)
            } else {
                spec_obj_end(s, i + 1, depth, true, false)
            }
        } else {
            if b == 34 {
                spec_obj_end(s, i + 1, depth, true, false)
            } else if b == 123 {
                spec_obj_end(s, i + 1, depth + 1, false, false)
            } else if b == 125 {
                if depth <= 1 {
                    Some(i + 1)
                } else {
                    spec_obj_end(s, i + 1, depth - 1, false, false)
                }
            } else {
                spec_obj_end(s, i + 1, depth, false, false)
            }
        }
    } else {
        None
    }
}

fn obj_end(s: &[u8], i: usize, depth: usize, in_str: bool, esc: bool) -> (r: Option<usize>)
    requires
        i <= s@.len(),
        depth <= i,
    ensures
        match spec_obj_end(s@, i as int, depth as int, in_str, esc) {
            Some(e) => (r matches Some(re) && re as int == e && i < re <= s@.len()),
            None => r is None,
        },
    decreases s@.len() - i,
{
    if i < s.len() {
        let b = s[i];
        if in_str {
            if esc {
                obj_end(s, i + 1, depth, true, false)
            } else if b == 92 {
                obj_end(s, i + 1, depth, true, true)
            } else if b == 34 {
                obj_end(s, i + 1, depth, false, false)
            } else {
                obj_end(s, i + 1, depth, true, false)
            }
        } else {
            if b == 34 {
                obj_end(s, i + 1, depth, true, false)
            } else if b == 123 {
                obj_end(s, i + 1, depth + 1, false, false)
            } else if b == 125 {
                if depth <= 1 {
                    Some(i + 1)
                } else {
                    obj_end(s, i + 1, depth - 1, false, false)
                }
            } else {
                obj_end(s, i + 1, depth, false, false)
            }
        }
    } else {
        None
    }
}

/// The first position at or after `i` holding an opening brace, or the end.
pub open spec fn spec_next_brace(s: Seq<u8>, i: int) -> int
    decreases s.len() - i,
{
    if 0 <= i && i < s.len() && s[i] != 123 {
        spec_next_brace(s, i + 1)
    } else {
        i
    }
}

proof fn lemma_next_brace_bounds(s: Seq<u8>, i: int)
    requires
        0 <= i <= s.len(),
    ensures
        i <= spec_next_brace(s, i) <= s.len(),
    decreases s.len() - i,
{
    if i < s.len() && s[i] != 123 {
        lemma_next_brace_bounds(s, i + 1);
    }
}

fn next_brace(s: &[u8], i: usize) -> (r: usize)
    requires
        i <= s@.len(),
    ensures
        r == spec_next_brace(s@, i as int),
        i <= r <= s@.len(),
    decreases s@.len() - i,
{
    if i < s.len() && s[i] != 123 {
        next_brace(s, i + 1)
    } else {
        i
    }
}

/// What one pass over a pending buffer yields: the complete objects cut
/// from its front, in order, and the bytes left pending. Whitespace before
/// an object is ignored; bytes that cannot open an object are dropped up
/// to the next opening brace; an object whose closing brace has not
/// arrived stays pending whole.
pub open spec fn spec_extract(b: Seq<u8>) -> (Seq<Seq<u8>>, Seq<u8>)
    decreases b.len(),
{
    let st = crate::json::spec_skip_ws(b, 0);
    if 0 <= st && st < b.len() {
        if b[st] == 123 {
            match spec_obj_end(b, st, 0, false, false) {
                Some(e) => if st < e && e <= b.len() {
                    let rec = spec_extract(b.subrange(e, b.len() as int));
                    (seq![b.subrange(st, e)] + rec.0, rec.1)
                } else {
                    (Seq::<Seq<u8>>::empty(), b)
                },
                None => (Seq::<Seq<u8>>::empty(), b),
            }
        } else {
            let nb = spec_next_brace(b, st);
            if 0 < nb && nb <= b.len() {
                spec_extract(b.subrange(nb, b.len() as int))
            } else {
                (Seq::<Seq<u8>>::empty(), b)
            }
        }
    } else {
        (Seq::<Seq<u8>>::empty(), Seq::<u8>::empty())
    }
}

fn copy_range(s: &[u8], a: usize, b: usize) -> (r: Vec<u8>)
    requires
        a <= b <= s@.len(),
    ensures
        r@ == s@.subrange(a as int, b as int),
{
    let mut r: Vec<u8> = Vec::new();
    let mut k: usize = a;
    while k < b
        invariant
            a <= k <= b <= s@.len(),
            r@ == s@.subrange(a as int, k as int),
        decreases b - k,
    {
        r.push(s[k]);
        proof {
            assert(s@.subrange(a as int, k + 1 as int) =~= s@.subrange(a as int, k as int).push(
                s@[k as int],
            ));
        }
        k = k + 1;
    }
    r
}

/// One request's exchange read as a raw byte stream: a rolling buffer cuts
/// whole messages out of the arriving bytes, wherever the read boundaries
/// fall, and a [`Session`] assembles their text.
pub struct FramedSession {
    session: Session,
    buf: Vec<u8>,
    done: bool,
}

impl FramedSession {
    /// The whole messages cut from the byte stream so far, in order.
    pub closed spec fn frames(self) -> Seq<Seq<u8>> {
        self.session.history()
    }

    /// The bytes that do not yet form a whole message.
    pub closed spec fn pending(self) -> Seq<u8> {
        self.buf@
    }

    pub closed spec fn wf(self) -> bool {
        &&& self.session.wf()
        &&& self.done == spec_stopped(self.session.history())
    }

    pub fn new() -> (r: FramedSession)
        ensures
            r.wf(),
            r.frames() == Seq::<Seq<u8>>::empty(),
            r.pending() == Seq::<u8>::empty(),
    {
        FramedSession { session: Session::new(), buf: Vec::new(), done: false }
    }

    /// Feed the bytes of one transport read. Every object completed by
    /// them, as [`spec_extract`] cuts it from the pending bytes, is fed to
    /// the session in order. Returns whether the closing summary has been
    /// seen.
    pub fn on_bytes(&mut self, bytes: &[u8]) -> (done: bool)
        requires
            old(self).wf(),
        ensures
            final(self).wf(),
            final(self).frames() == old(self).frames() + spec_extract(
                old(self).pending() + bytes@,
            ).0,
            final(self).pending() == spec_extract(old(self).pending() + bytes@).1,
            done == spec_stopped(final(self).frames()),
    {
        append_bytes(&mut self.buf, bytes);
        let ghost full = self.buf@;
        let ghost h0 = self.session.history();
        let ghost mut emitted: Seq<Seq<u8>> = Seq::empty();
        proof {
            assert(emitted + spec_extract(self.buf@).0 =~= spec_extract(full).0);
        }
        loop
            invariant
                full == old(self).pending() + bytes@,
                h0 == old(self).frames(),
                self.session.wf(),
                self.done == spec_stopped(self.session.history()),
                self.session.history() == h0 + emitted,
                spec_extract(full).0 == emitted + spec_extract(self.buf@).0,
                spec_extract(full).1 == spec_extract(self.buf@).1,
            decreases self.buf@.len(),
        {
            let st = crate::json::skip_ws(self.buf.as_slice(), 0);
            if st == self.buf.len() {
                proof {
                    assert(spec_extract(self.buf@).0 == Seq::<Seq<u8>>::empty());
                    assert(spec_extract(self.buf@).1 == Seq::<u8>::empty());
                    assert(emitted + Seq::<Seq<u8>>::empty() =~= emitted);
                    assert(h0 + emitted =~= h0 + spec_extract(full).0);
                }
                self.buf = Vec::new();
                return self.done;
            }
            if self.buf[st] == 123 {
                match obj_end(self.buf.as_slice(), st, 0, false, false) {
                    Some(e) => {
                        let frame = copy_range(self.buf.as_slice(), st, e);
                        let rest = copy_range(self.buf.as_slice(), e, self.buf.len());
                        let d = self.session.on_chunk(frame.as_slice());
                        self.done = d;
                        proof {
                            let cur = self.buf@;
                            let tail = spec_extract(cur.subrange(e as int, cur.len() as int));
                            assert(spec_extract(cur).0 == seq![cur.subrange(st as int, e as int)]
                                + tail.0);
                            assert(spec_extract(cur).1 == tail.1);
                            assert(emitted + spec_extract(cur).0 =~= emitted.push(frame@)
                                + tail.0);
                            assert(h0 + emitted.push(frame@) =~= (h0 + emitted).push(frame@));
                            emitted = emitted.push(frame@);
                        }
                        self.buf = rest;
                    },
                    None => {
                        proof {
                            assert(spec_extract(self.buf@).0 == Seq::<Seq<u8>>::empty());
                            assert(spec_extract(self.buf@).1 == self.buf@);
                            assert(emitted + Seq::<Seq<u8>>::empty() =~= emitted);
                            assert(h0 + emitted =~= h0 + spec_extract(full).0);
                        }
                        return self.done;
                    },
                }
            } else {
                let nb = next_brace(self.buf.as_slice(), st);
                proof {
                    assert(spec_next_brace(self.buf@, st as int) == spec_next_brace(
                        self.buf@,
                        st as int + 1,
                    ));
                    lemma_next_brace_bounds(self.buf@, st as int + 1);
                    assert(nb > st);
                    assert(spec_extract(self.buf@).0 == spec_extract(
                        self.buf@.subrange(nb as int, self.buf@.len() as int),
                    ).0);
                    assert(spec_extract(self.buf@).1 == spec_extract(
                        self.buf@.subrange(nb as int, self.buf@.len() as int),
                    ).1);
                }
                let rest = copy_range(self.buf.as_slice(), nb, self.buf.len());
                self.buf = rest;
            }
        }
    }

    /// Conclude the exchange once the transport reports its end, as the
    /// session does. An incomplete trailing fragment still pending is
    /// discarded, and a stream that closed before one whole message is an
    /// empty response.
    pub fn on_end(self, end: StreamEnd) -> (r: Result<Vec<u8>, ClientError>)
        requires
            self.wf(),
        ensures
            match r {
                Ok(text) => end == StreamEnd::Closed && self.frames().len() > 0 && text@
                    == spec_texts(self.frames()),
                Err(e) => (end == StreamEnd::Interrupted && e == ClientError::TransportError) || (
                end == StreamEnd::Closed && self.frames().len() == 0 && e
                    == ClientError::EmptyResponse),
            },
    {
        self.session.on_end(end)
    }
}

} // verus!
