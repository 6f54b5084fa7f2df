use vstd::prelude::*;

use crate::peer::{Index, Peer};

verus! {

/// What the durable store must do for one identity: insert a fresh row,
/// update an existing one, or delete the row. Insert versus update records
/// whether the store held the identity when the change was made, so the
/// durable writer can issue the matching statement.
#[derive(Clone, Copy, Debug)]
pub enum FlushAction {
    Insert(Peer),
    Update(Peer),
    Delete,
}

/// One recorded change, together with the credited byte deltas earned by
/// the announce that caused it. The credited deltas — not the raw client
/// totals — are what the durable store persists toward user standing.
#[derive(Clone, Copy, Debug)]
pub struct FlushEntry {
    pub identity: Index,
    pub action: FlushAction,
    pub credited_uploaded: u64,
    pub credited_downloaded: u64,
}

/// The changes accumulated since the last successful flush, in the order
/// they happened. The flush scheduler drains the whole journal each cycle
/// into one batched durable write; a failed batch is requeued in front so
/// it is retried, at least once, before anything recorded after it.
pub struct FlushLedger {
    pending: Vec<FlushEntry>,
}

impl View for FlushLedger {
    type V = Seq<FlushEntry>;

    closed spec fn view(&self) -> Seq<FlushEntry> {
        self.pending@
    }
}

impl FlushLedger {
    /// An empty journal: nothing to flush.
    pub fn new() -> (l: FlushLedger)
        ensures
            l@ == Seq::<FlushEntry>::empty(),
    {
        FlushLedger { pending: Vec::new() }
    }

    /// The number of changes waiting to be flushed.
    pub fn len(&self) -> (n: usize)
        ensures
            n == self@.len(),
    {
        self.pending.len()
    }

    /// Appends one change to the journal.
    pub fn record(&mut self, entry: FlushEntry)
        ensures
            final(self)@ == old(self)@.push(entry),
    {
        self.pending.push(entry);
    }

    /// Hands the whole journal over as one batch, leaving it empty. The
    /// caller owns the batch; if the durable write fails it gives the
    /// batch back through `requeue`.
    pub fn take_batch(&mut self) -> (batch: Vec<FlushEntry>)
        ensures
            batch@ == old(self)@,
            final(self)@.len() == 0,
    {
        let mut batch: Vec<FlushEntry> = Vec::new();
        core::mem::swap(&mut batch, &mut self.pending);
        batch
    }

    /// Puts a failed batch back in front of whatever has been recorded
    /// since it was taken, so the next cycle retries it first and no
    /// accounting data is dropped.
    pub fn requeue(&mut self, batch: &Vec<FlushEntry>)
        ensures
            final(self)@ == batch@ + old(self)@,
    {
        let mut tail: Vec<FlushEntry> = Vec::new();
        core::mem::swap(&mut tail, &mut self.pending);
        let mut i: usize = 0;
        while i < batch.len()
            invariant
                0 <= i <= batch@.len(),
                self@ == batch@.take(i as int),
            decreases batch@.len() - i,
        {
            self.pending.push(batch[i]);
            proof {
                assert(batch@.take(i + 1 as int) =~= batch@.take(i as int).push(batch@[i as int]));
            }
            i += 1;
        }
        proof {
            assert(batch@.take(batch@.len() as int) =~= batch@);
        }
        let mut j: usize = 0;
        while j < tail.len()
            invariant
                0 <= j <= tail@.len(),
                self@ == batch@ + tail@.take(j as int),
            decreases tail@.len() - j,
        {
            self.pending.push(tail[j]);
            proof {
                assert(tail@.take(j + 1 as int) =~= tail@.take(j as int).push(tail@[j as int]));
            }
            j += 1;
        }
        proof {
            assert(tail@.take(tail@.len() as int) =~= tail@);
        }
    }
}

} // verus!
