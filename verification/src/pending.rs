//! The pending-connect queue: a bounded first-in, first-out queue of
//! connection numbers, kept in a `flume` channel of which the queue owns both
//! ends.
//!
//! Nothing here is proved of `flume`: the contracts of the functions marked
//! `external_body` say what its source shows, and the rest of the crate is
//! proved against them.

use vstd::prelude::*;

verus! {

#[verifier::external_type_specification]
#[verifier::external_body]
#[verifier::reject_recursive_types(T)]
pub struct ExSender<T>(flume::Sender<T>);

#[verifier::external_type_specification]
#[verifier::external_body]
#[verifier::reject_recursive_types(T)]
pub struct ExReceiver<T>(flume::Receiver<T>);

/// The numbers that wait in the channel, oldest first.
pub uninterp spec fn queued(ends: (flume::Sender<u64>, flume::Receiver<u64>)) -> Seq<u64>;

/// The capacity that the channel was made with.
pub uninterp spec fn limit(ends: (flume::Sender<u64>, flume::Receiver<u64>)) -> nat;

/// The two ends belong to one channel, and no other end of it exists.
pub uninterp spec fn paired(ends: (flume::Sender<u64>, flume::Receiver<u64>)) -> bool;

/// `flume::bounded`: a new channel of the given capacity. It is empty, and
/// the two ends returned are its only ends.
#[verifier::external_body]
fn channel(capacity: usize) -> (ends: (flume::Sender<u64>, flume::Receiver<u64>))
    ensures
        paired(ends),
        queued(ends) == Seq::<u64>::empty(),
        limit(ends) == capacity,
{
    flume::bounded(capacity)
}

/// `flume::Sender::try_send`: appends `item` where the channel holds fewer
/// items than its capacity, and leaves the channel as it is otherwise. With
/// both ends alive the channel is never disconnected, and with no receiver
/// blocked on it an accepted item goes to the back of the queue.
#[verifier::external_body]
fn offer(ends: &mut (flume::Sender<u64>, flume::Receiver<u64>), item: u64) -> (accepted: bool)
    requires
        paired(*old(ends)),
    ensures
        paired(*final(ends)),
        limit(*final(ends)) == limit(*old(ends)),
        accepted == (queued(*old(ends)).len() < limit(*old(ends))),
        queued(*final(ends)) == if accepted {
            queued(*old(ends)).push(item)
        } else {
            queued(*old(ends))
        },
{
    ends.0.try_send(item).is_ok()
}

/// `flume::Receiver::try_recv`: takes the oldest item out of the channel, or
/// returns nothing where the channel is empty. On its way it adds one to the
/// capacity, so the capacity must leave room for that.
#[verifier::external_body]
fn take(ends: &mut (flume::Sender<u64>, flume::Receiver<u64>)) -> (item: Option<u64>)
    requires
        paired(*old(ends)),
        limit(*old(ends)) < usize::MAX,
    ensures
        paired(*final(ends)),
        limit(*final(ends)) == limit(*old(ends)),
        match item {
            Some(first) => queued(*old(ends)).len() > 0 && first == queued(*old(ends))[0]
                && queued(*final(ends)) == queued(*old(ends)).drop_first(),
            None => queued(*old(ends)).len() == 0 && queued(*final(ends)) == queued(*old(ends)),
        },
{
    ends.1.try_recv().ok()
}

/// A bounded first-in, first-out queue of connection numbers.
pub(crate) struct PendingQueue {
    ends: (flume::Sender<u64>, flume::Receiver<u64>),
}

impl View for PendingQueue {
    type V = Seq<u64>;

    /// The numbers in the queue, oldest first.
    closed spec fn view(&self) -> Seq<u64> {
        queued(self.ends)
    }
}

impl PendingQueue {
    /// The most numbers that the queue holds at a time.
    pub(crate) closed spec fn capacity(&self) -> nat {
        limit(self.ends)
    }

    /// The queue owns both ends of its channel and is within its capacity,
    /// which is less than the largest number of the machine.
    pub(crate) closed spec fn wf(&self) -> bool {
        paired(self.ends) && queued(self.ends).len() <= limit(self.ends) && limit(self.ends)
            < usize::MAX
    }

    /// An empty queue of the given capacity.
    pub(crate) fn new(capacity: usize) -> (q: PendingQueue)
        requires
            capacity < usize::MAX,
        ensures
            q.wf(),
            q@ == Seq::<u64>::empty(),
            q.capacity() == capacity,
    {
        PendingQueue { ends: channel(capacity) }
    }

    /// Appends `id` unless the queue is full; says whether it did.
    pub(crate) fn push(&mut self, id: u64) -> (accepted: bool)
        requires
            old(self).wf(),
        ensures
            final(self).wf(),
            final(self).capacity() == old(self).capacity(),
            accepted == (old(self)@.len() < old(self).capacity()),
            final(self)@ == if accepted {
                old(self)@.push(id)
            } else {
                old(self)@
            },
    {
        offer(&mut self.ends, id)
    }

    /// Takes the oldest number out of the queue, if there is one.
    pub(crate) fn pop(&mut self) -> (id: Option<u64>)
        requires
            old(self).wf(),
        ensures
            final(self).wf(),
            final(self).capacity() == old(self).capacity(),
            match id {
                Some(first) => old(self)@.len() > 0 && first == old(self)@[0] && final(self)@
                    == old(self)@.drop_first(),
                None => old(self)@.len() == 0 && final(self)@ == old(self)@,
            },
    {
        take(&mut self.ends)
    }
}

} // verus!
