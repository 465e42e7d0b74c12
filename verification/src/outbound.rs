//! Outbound queue: the bounded, connection-independent queue of raw
//! packets waiting to be written to the serial-bridge socket.
//!
//! Producers enqueue; the connection loop dequeues and writes. A full
//! queue refuses the packet, and the producer suspends and retries —
//! packets are never dropped on the producer side.

use vstd::prelude::*;

use crate::TCP_PACKET_LEN;

verus! {

/// How many outbound packets may wait at once.
pub const OUTBOUND_QUEUE_CAP: usize = 2;

/// The bounded outbound packet queue, oldest packet first.
pub struct OutboundQueue {
    items: Vec<Vec<u8>>,
}

impl OutboundQueue {
    /// The queued packets, oldest first.
    pub closed spec fn pending(self) -> Seq<Seq<u8>> {
        self.items@.map_values(|v: Vec<u8>| v@)
    }

    /// The queue's invariant: never more than the capacity, and only
    /// packets under the size bound.
    pub closed spec fn wf(self) -> bool {
        &&& self.items@.len() <= OUTBOUND_QUEUE_CAP
        &&& forall|i: int|
            0 <= i < self.items@.len() ==> (#[trigger] self.items@[i])@.len() < TCP_PACKET_LEN
    }

    /// An empty queue.
    pub fn new() -> (q: OutboundQueue)
        ensures
            q.wf(),
            q.pending() == Seq::<Seq<u8>>::empty(),
    {
        let q = OutboundQueue { items: Vec::new() };
        proof {
            assert(q.pending() =~= Seq::<Seq<u8>>::empty());
        }
        q
    }

    /// How many packets wait.
    pub fn len(&self) -> (n: usize)
        ensures
            n == self.pending().len(),
    {
        self.items.len()
    }

    /// Appends a copy of `buf` if the queue has room; a full queue
    /// refuses it unchanged, and the caller retries later. Packets at or
    /// above `TCP_PACKET_LEN` bytes are ruled out by contract.
    pub fn enqueue(&mut self, buf: &[u8]) -> (accepted: bool)
        requires
            old(self).wf(),
            buf@.len() < TCP_PACKET_LEN,
        ensures
            final(self).wf(),
            accepted <==> old(self).pending().len() < OUTBOUND_QUEUE_CAP,
            accepted ==> final(self).pending() == old(self).pending().push(buf@),
            !accepted ==> final(self).pending() == old(self).pending(),
    {
        if self.items.len() >= OUTBOUND_QUEUE_CAP {
            return false;
        }
        let packet = vstd::slice::slice_to_vec(buf);
        self.items.push(packet);
        proof {
            assert(self.pending() =~= old(self).pending().push(buf@));
        }
        true
    }

    /// Removes and returns the oldest packet, if any.
    pub fn dequeue(&mut self) -> (r: Option<Vec<u8>>)
        requires
            old(self).wf(),
        ensures
            final(self).wf(),
            match r {
                Some(p) => {
                    &&& old(self).pending().len() > 0
                    &&& p@ == old(self).pending()[0]
                    &&& final(self).pending() == old(self).pending().drop_first()
                },
                None => {
                    &&& old(self).pending().len() == 0
                    &&& final(self).pending() == old(self).pending()
                },
            },
    {
        if self.items.len() == 0 {
            return None;
        }
        let p = self.items.remove(0);
        proof {
            assert(self.pending() =~= old(self).pending().drop_first());
        }
        Some(p)
    }
}

} // verus!
