//! The queue of preallocated objects.

use vstd::prelude::*;

use crossbeam_queue::{ArrayQueue, PushError};

use crate::key::ObjRawKey;

verus! {

/// `crossbeam_queue::ArrayQueue`, a bounded queue.
#[verifier::external_type_specification]
#[verifier::external_body]
#[verifier::reject_recursive_types(T)]
pub struct ExArrayQueue<T>(ArrayQueue<T>);

/// The addresses of the keys that a queue holds, the one that leaves first in
/// front.
pub uninterp spec fn queued(queue: ArrayQueue<ObjRawKey>) -> Seq<u64>;

/// The number of keys for which a queue has room.
pub uninterp spec fn queue_capacity(queue: ArrayQueue<ObjRawKey>) -> nat;

/// Whether a queue with room for `capacity` keys can be made: it is not zero,
/// and the slots of the queue, at most 16 bytes each, fit into one allocation.
pub open spec fn is_queue_capacity(capacity: usize) -> bool {
    0 < capacity && capacity * 16 <= isize::MAX
}

/// An empty queue: a call of `ArrayQueue::new`. The queue holds nothing, and has
/// room for `capacity` keys. The outside function panics if `capacity` is zero,
/// or if the buffer for the keys is larger than an allocation can be.
#[verifier::external_body]
pub(crate) fn new_queue(capacity: usize) -> (queue: ArrayQueue<ObjRawKey>)
    requires
        is_queue_capacity(capacity),
    ensures
        queued(queue) == Seq::<u64>::empty(),
        queue_capacity(queue) == capacity,
{
    ArrayQueue::new(capacity)
}

/// A push: a call of `ArrayQueue::push` by the only holder of the queue. While
/// the queue has room the key goes to its end. Otherwise the queue stays as it is,
/// and the key comes back.
#[verifier::external_body]
pub(crate) fn push(queue: &mut ArrayQueue<ObjRawKey>, key: ObjRawKey) -> (result: Result<
    (),
    ObjRawKey,
>)
    ensures
        queue_capacity(*final(queue)) == queue_capacity(*old(queue)),
        queued(*old(queue)).len() < queue_capacity(*old(queue)) ==> {
            &&& result is Ok
            &&& queued(*final(queue)) == queued(*old(queue)).push(key.addr)
        },
        queued(*old(queue)).len() >= queue_capacity(*old(queue)) ==> {
            &&& result == Err::<(), ObjRawKey>(key)
            &&& queued(*final(queue)) == queued(*old(queue))
        },
{
    match queue.push(key) {
        Ok(()) => Ok(()),
        Err(PushError(key)) => Err(key),
    }
}

} // verus!
