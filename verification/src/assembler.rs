//! Frame assembler: consumes raw socket bytes, finds the zero-byte
//! delimiter boundaries, and accumulates one stuffed frame body into a
//! fixed-capacity buffer.
//!
//! The assembler tolerates a frame boundary split anywhere across `feed`
//! calls: its state persists between calls, so feeding a stream in any
//! chunking produces the same events at the same input positions.

use vstd::prelude::*;

verus! {

/// What a `feed` call observed, if anything: a complete stuffed body is
/// in the buffer, or the body outgrew the buffer and was discarded.
#[derive(Clone, Copy, Debug, PartialEq, Eq, Structural)]
pub enum SerialFrameEvent {
    Ready,
    Overflow,
}

/// Accumulates the stuffed body between two zero delimiters.
///
/// `buf` is allocated once and never grows; `len` is how much of it holds
/// the body collected so far; `collecting` is false until a delimiter has
/// been seen.
pub struct SerialFrameAssembler {
    buf: Vec<u8>,
    len: usize,
    collecting: bool,
}

/// One byte's transition of the assembler state: from a collected body,
/// the collecting flag and the capacity, to the new body, the new flag
/// and the event emitted, if any.
pub open spec fn asm_step(body: Seq<u8>, collecting: bool, cap: nat, byte: u8) -> (
    Seq<u8>,
    bool,
    Option<SerialFrameEvent>,
) {
    if !collecting {
        if byte == 0 {
            (Seq::empty(), true, None)
        } else {
            (body, false, None)
        }
    } else if byte == 0 {
        if body.len() == 0 {
            (body, true, None)
        } else {
            (body, true, Some(SerialFrameEvent::Ready))
        }
    } else if body.len() >= cap {
        (Seq::empty(), false, Some(SerialFrameEvent::Overflow))
    } else {
        (body.push(byte), true, None)
    }
}

/// Feeding a whole chunk: bytes are consumed in order until an event
/// fires or the chunk ends. Returns the new body, the new collecting
/// flag, how many bytes were consumed, and the event, if any.
pub open spec fn asm_feed(body: Seq<u8>, collecting: bool, cap: nat, input: Seq<u8>) -> (
    Seq<u8>,
    bool,
    int,
    Option<SerialFrameEvent>,
)
    decreases input.len(),
{
    if input.len() == 0 {
        (body, collecting, 0, None)
    } else {
        let (b2, c2, ev) = asm_step(body, collecting, cap, input[0]);
        if ev is Some {
            (b2, c2, 1, ev)
        } else {
            let (b3, c3, n, ev3) = asm_feed(b2, c2, cap, input.drop_first());
            (b3, c3, n + 1, ev3)
        }
    }
}

impl SerialFrameAssembler {
    /// The stuffed body collected so far.
    pub closed spec fn body(self) -> Seq<u8> {
        self.buf@.subrange(0, self.len as int)
    }

    /// Whether a delimiter has been seen and bytes are being collected.
    pub closed spec fn is_collecting(self) -> bool {
        self.collecting
    }

    /// The fixed buffer capacity.
    pub closed spec fn cap(self) -> nat {
        self.buf@.len()
    }

    /// The assembler's internal consistency: the body fits the buffer.
    pub closed spec fn wf(self) -> bool {
        self.len <= self.buf@.len()
    }

    /// A fresh assembler owning `buf` as its frame buffer; the buffer's
    /// length is the capacity.
    pub fn new(buf: Vec<u8>) -> (a: SerialFrameAssembler)
        ensures
            a.wf(),
            a.body() == Seq::<u8>::empty(),
            !a.is_collecting(),
            a.cap() == buf@.len(),
    {
        let a = SerialFrameAssembler { buf, len: 0, collecting: false };
        proof {
            assert(a.body() =~= Seq::<u8>::empty());
        }
        a
    }

    /// Consumes bytes from `input` until a frame event fires or the input
    /// ends, exactly as `asm_feed` describes; returns how many bytes were
    /// consumed and the event, if any.
    pub fn feed(&mut self, input: &[u8]) -> (r: (usize, Option<SerialFrameEvent>))
        requires
            old(self).wf(),
        ensures
            final(self).wf(),
            final(self).cap() == old(self).cap(),
            ({
                let (b, c, n, ev) = asm_feed(
                    old(self).body(),
                    old(self).is_collecting(),
                    old(self).cap(),
                    input@,
                );
                final(self).body() == b && final(self).is_collecting() == c && r.0 as int == n
                    && r.1 == ev
            }),
    {
        let ghost body0 = self.body();
        let ghost coll0 = self.collecting;
        let ghost cap = self.cap();
        let mut idx: usize = 0;

        proof {
            assert(input@.subrange(0, input@.len() as int) =~= input@);
        }
        while idx < input.len()
            invariant
                self.wf(),
                self.cap() == cap,
                cap == old(self).cap(),
                body0 == old(self).body(),
                coll0 == old(self).is_collecting(),
                idx <= input@.len(),
                asm_feed(body0, coll0, cap, input@) == ({
                    let (b, c, n, ev) = asm_feed(
                        self.body(),
                        self.is_collecting(),
                        cap,
                        input@.subrange(idx as int, input@.len() as int),
                    );
                    (b, c, n + idx, ev)
                }),
            decreases input@.len() - idx,
        {
            let ghost pre_body = self.body();
            let ghost rest = input@.subrange(idx as int, input@.len() as int);
            let byte = input[idx];
            assert(byte == rest[0]);
            proof {
                assert(rest.drop_first() =~= input@.subrange(idx + 1, input@.len() as int));
            }
            idx = idx + 1;

            if !self.collecting {
                if byte == 0 {
                    self.collecting = true;
                    self.len = 0;
                    proof {
                        assert(self.body() =~= Seq::<u8>::empty());
                    }
                }
                continue ;
            }

            if byte == 0 {
                if self.len == 0 {
                    continue ;
                }
                return (idx, Some(SerialFrameEvent::Ready));
            }

            if self.len >= self.buf.len() {
                self.reset();
                return (idx, Some(SerialFrameEvent::Overflow));
            }

            self.buf.set(self.len, byte);
            self.len = self.len + 1;
            proof {
                assert(self.body() =~= pre_body.push(byte));
            }
        }
        (input.len(), None)
    }

    /// A copy of the collected stuffed body.
    pub fn frame_to_vec(&self) -> (v: Vec<u8>)
        requires
            self.wf(),
        ensures
            v@ == self.body(),
    {
        let mut v: Vec<u8> = Vec::new();
        let mut i: usize = 0;
        while i < self.len
            invariant
                self.wf(),
                i <= self.len,
                v@ =~= self.buf@.subrange(0, i as int),
            decreases self.len - i,
        {
            let b = self.buf[i];
            v.push(b);
            proof {
                assert(v@ =~= self.buf@.subrange(0, i + 1));
            }
            i = i + 1;
        }
        proof {
            assert(v@ =~= self.body());
        }
        v
    }

    /// Discards any collected body and re-arms the delimiter search.
    pub fn reset(&mut self)
        ensures
            final(self).wf(),
            final(self).cap() == old(self).cap(),
            final(self).body() == Seq::<u8>::empty(),
            !final(self).is_collecting(),
    {
        self.len = 0;
        self.collecting = false;
        proof {
            assert(self.body() =~= Seq::<u8>::empty());
        }
    }
}

/// A feed that raised no event consumed its whole chunk: nothing is
/// left behind for the caller to re-offer.
pub proof fn lemma_feed_without_event_consumes_all(
    body: Seq<u8>,
    collecting: bool,
    cap: nat,
    input: Seq<u8>,
)
    ensures
        ({
            let (b, c, n, ev) = asm_feed(body, collecting, cap, input);
            ev is None ==> n == input.len()
        }),
    decreases input.len(),
{
    if input.len() > 0 {
        let (b2, c2, ev) = asm_step(body, collecting, cap, input[0]);
        if ev is None {
            lemma_feed_without_event_consumes_all(b2, c2, cap, input.drop_first());
        }
    }
}

/// Law (chunk-boundary invariance): feeding `a + b` in one call behaves
/// exactly as feeding `a` and then, if `a` raised no event, feeding `b`
/// from the state `a` left behind — same state, same event, and the same
/// count of consumed input bytes. Splitting a stream at any boundary
/// therefore changes nothing observable.
pub proof fn lemma_feed_chunked(body: Seq<u8>, collecting: bool, cap: nat, a: Seq<u8>, b: Seq<u8>)
    ensures
        ({
            let (b1, c1, n1, e1) = asm_feed(body, collecting, cap, a);
            let (bw, cw, nw, ew) = asm_feed(body, collecting, cap, a + b);
            if e1 is Some {
                bw == b1 && cw == c1 && nw == n1 && ew == e1
            } else {
                let (b2, c2, n2, e2) = asm_feed(b1, c1, cap, b);
                bw == b2 && cw == c2 && nw == a.len() + n2 && ew == e2
            }
        }),
    decreases a.len(),
{
    if a.len() == 0 {
        assert(a + b =~= b);
        let (b1, c1, n1, e1) = asm_feed(body, collecting, cap, a);
        assert(b1 == body && c1 == collecting && n1 == 0 && e1 is None);
    } else {
        let s = a + b;
        assert(s.len() > 0);
        assert(s[0] == a[0]);
        let (b2, c2, ev) = asm_step(body, collecting, cap, a[0]);
        if ev is Some {
        } else {
            assert(s.drop_first() =~= a.drop_first() + b);
            lemma_feed_chunked(b2, c2, cap, a.drop_first(), b);
        }
    }
}

/// Law (overflow re-arms the assembler): whenever a feed raises
/// `Overflow`, the assembler comes out empty and not collecting, so the
/// next zero delimiter starts a fresh frame.
pub proof fn lemma_overflow_rearms(body: Seq<u8>, collecting: bool, cap: nat, input: Seq<u8>)
    ensures
        ({
            let (b, c, n, ev) = asm_feed(body, collecting, cap, input);
            ev == Some(SerialFrameEvent::Overflow) ==> b.len() == 0 && !c
        }),
    decreases input.len(),
{
    if input.len() > 0 {
        let (b2, c2, ev) = asm_step(body, collecting, cap, input[0]);
        if ev is None {
            lemma_overflow_rearms(b2, c2, cap, input.drop_first());
        }
    }
}

} // verus!
