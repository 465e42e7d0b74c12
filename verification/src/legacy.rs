//! Legacy accumulator: the simpler, newline-delimited framing strategy,
//! the build-time alternative to the byte-stuffed pipeline.
//!
//! Raw bytes accumulate into a fixed buffer until a newline byte is
//! seen; the accumulated bytes (newline included) are then forwarded
//! verbatim. There is no resynchronization: running out of buffer before
//! a delimiter is fatal to the connection.

use vstd::prelude::*;

verus! {

/// What a legacy `feed` call observed: a complete newline-terminated
/// message, or buffer exhaustion — which the caller must treat as fatal.
#[derive(Clone, Copy, Debug, PartialEq, Eq, Structural)]
pub enum LegacyEvent {
    MessageReady,
    BufferExhausted,
}

/// Accumulates raw bytes up to and including a newline delimiter.
pub struct LegacyAccumulator {
    buf: Vec<u8>,
    index: usize,
}

/// Feeding a chunk into the accumulator: bytes are stored in order until
/// a newline completes a message, the buffer runs out, or the chunk
/// ends. Returns the new accumulated bytes, how many input bytes were
/// consumed, and the event, if any.
pub open spec fn legacy_feed(acc: Seq<u8>, cap: nat, input: Seq<u8>) -> (
    Seq<u8>,
    int,
    Option<LegacyEvent>,
)
    decreases input.len(),
{
    if input.len() == 0 {
        (acc, 0, None)
    } else if acc.len() >= cap {
        (acc, 0, Some(LegacyEvent::BufferExhausted))
    } else {
        let acc2 = acc.push(input[0]);
        if input[0] == 10 {
            (acc2, 1, Some(LegacyEvent::MessageReady))
        } else {
            let (a3, n, ev) = legacy_feed(acc2, cap, input.drop_first());
            (a3, n + 1, ev)
        }
    }
}

impl LegacyAccumulator {
    /// The bytes accumulated so far.
    pub closed spec fn accumulated(self) -> Seq<u8> {
        self.buf@.subrange(0, self.index as int)
    }

    /// The fixed buffer capacity.
    pub closed spec fn cap(self) -> nat {
        self.buf@.len()
    }

    /// The accumulator's internal consistency.
    pub closed spec fn wf(self) -> bool {
        self.index <= self.buf@.len()
    }

    /// A fresh accumulator owning `buf`; the buffer's length is the
    /// capacity.
    pub fn new(buf: Vec<u8>) -> (a: LegacyAccumulator)
        ensures
            a.wf(),
            a.accumulated() == Seq::<u8>::empty(),
            a.cap() == buf@.len(),
    {
        let a = LegacyAccumulator { buf, index: 0 };
        proof {
            assert(a.accumulated() =~= Seq::<u8>::empty());
        }
        a
    }

    /// Consumes bytes from `input` exactly as `legacy_feed` describes;
    /// returns how many were consumed and the event, if any. On
    /// `BufferExhausted` the caller must abandon the connection: the
    /// accumulator does not resynchronize.
    pub fn feed(&mut self, input: &[u8]) -> (r: (usize, Option<LegacyEvent>))
        requires
            old(self).wf(),
        ensures
            final(self).wf(),
            final(self).cap() == old(self).cap(),
            ({
                let (a, n, ev) = legacy_feed(old(self).accumulated(), old(self).cap(), input@);
                final(self).accumulated() == a && r.0 as int == n && r.1 == ev
            }),
    {
        let ghost acc0 = self.accumulated();
        let ghost cap = self.cap();
        let mut idx: usize = 0;

        proof {
            assert(input@.subrange(0, input@.len() as int) =~= input@);
        }
        while idx < input.len()
            invariant
                self.wf(),
                self.cap() == cap,
                cap == old(self).cap(),
                acc0 == old(self).accumulated(),
                idx <= input@.len(),
                legacy_feed(acc0, cap, input@) == ({
                    let (a, n, ev) = legacy_feed(
                        self.accumulated(),
                        cap,
                        input@.subrange(idx as int, input@.len() as int),
                    );
                    (a, n + idx, ev)
                }),
            decreases input@.len() - idx,
        {
            let ghost pre_acc = self.accumulated();
            let ghost rest = input@.subrange(idx as int, input@.len() as int);
            let byte = input[idx];
            assert(byte == rest[0]);
            proof {
                assert(rest.drop_first() =~= input@.subrange(idx + 1, input@.len() as int));
            }

            if self.index >= self.buf.len() {
                return (idx, Some(LegacyEvent::BufferExhausted));
            }

            self.buf.set(self.index, byte);
            self.index = self.index + 1;
            proof {
                assert(self.accumulated() =~= pre_acc.push(byte));
            }
            idx = idx + 1;

            if byte == 10 {
                return (idx, Some(LegacyEvent::MessageReady));
            }
        }
        (input.len(), None)
    }

    /// Takes the accumulated message and clears the accumulator for the
    /// next one.
    pub fn take_message(&mut self) -> (m: Vec<u8>)
        requires
            old(self).wf(),
        ensures
            final(self).wf(),
            final(self).cap() == old(self).cap(),
            m@ == old(self).accumulated(),
            final(self).accumulated() == Seq::<u8>::empty(),
    {
        let mut m: Vec<u8> = Vec::new();
        let mut i: usize = 0;
        while i < self.index
            invariant
                self.wf(),
                self == old(self),
                i <= self.index,
                m@ =~= self.buf@.subrange(0, i as int),
            decreases self.index - i,
        {
            let b = self.buf[i];
            m.push(b);
            proof {
                assert(m@ =~= self.buf@.subrange(0, i + 1));
            }
            i = i + 1;
        }
        self.index = 0;
        proof {
            assert(m@ =~= old(self).accumulated());
            assert(self.accumulated() =~= Seq::<u8>::empty());
        }
        m
    }
}

} // verus!
