//! Firmware-update ingress: the bounded queue of update chunks waiting
//! for the flashing task. A full queue drops the chunk (the caller logs
//! it); the flashing itself is hardware work outside the library.

use vstd::prelude::*;

verus! {

/// How many update chunks may wait at once.
pub const OTA_WRITE_QUEUE_CAP: usize = 4;

/// The bounded queue of firmware chunks, oldest first.
pub struct OtaWriteQueue {
    items: Vec<Vec<u8>>,
}

impl OtaWriteQueue {
    /// The queued chunks, oldest first.
    pub closed spec fn pending(self) -> Seq<Seq<u8>> {
        self.items@.map_values(|v: Vec<u8>| v@)
    }

    /// The queue's invariant: never more than the capacity.
    pub closed spec fn wf(self) -> bool {
        self.items@.len() <= OTA_WRITE_QUEUE_CAP
    }

    /// An empty queue.
    pub fn new() -> (q: OtaWriteQueue)
        ensures
            q.wf(),
            q.pending() == Seq::<Seq<u8>>::empty(),
    {
        let q = OtaWriteQueue { items: Vec::new() };
        proof {
            assert(q.pending() =~= Seq::<Seq<u8>>::empty());
        }
        q
    }

    /// Removes and returns the oldest chunk, if any.
    pub fn next_chunk(&mut self) -> (r: Option<Vec<u8>>)
        requires
            old(self).wf(),
        ensures
            final(self).wf(),
            match r {
                Some(p) => {
                    &&& old(self).pending().len() > 0
                    &&& p@ == old(self).pending()[0]
                    &&& final(self).pending() == old(self).pending().drop_first()
                },
                None => {
                    &&& old(self).pending().len() == 0
                    &&& final(self).pending() == old(self).pending()
                },
            },
    {
        if self.items.len() == 0 {
            return None;
        }
        let p = self.items.remove(0);
        proof {
            assert(self.pending() =~= old(self).pending().drop_first());
        }
        Some(p)
    }
}

/// Hands a firmware chunk to the flashing task's queue. A full queue
/// refuses the chunk, and the caller reports the drop.
pub fn ota_write(queue: &mut OtaWriteQueue, payload: Vec<u8>) -> (accepted: bool)
    requires
        old(queue).wf(),
    ensures
        final(queue).wf(),
        accepted <==> old(queue).pending().len() < OTA_WRITE_QUEUE_CAP,
        accepted ==> final(queue).pending() == old(queue).pending().push(payload@),
        !accepted ==> final(queue).pending() == old(queue).pending(),
{
    if queue.items.len() >= OTA_WRITE_QUEUE_CAP {
        return false;
    }
    let ghost p = payload@;
    queue.items.push(payload);
    proof {
        assert(queue.pending() =~= old(queue).pending().push(p));
    }
    true
}

} // verus!
