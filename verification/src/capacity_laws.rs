//! Laws of the allocation of objects in advance.

use vstd::prelude::*;

use crossbeam_queue::ArrayQueue;

use crate::call::{finishes, lemma_finishes_step, Call, Exchange, Operation, Progress};
use crate::capacity::{
    at_once, is_fresh, pushed, starts_capacity, starts_filling, CapacityOp, FillOp,
    PreallocateOp, Preallocated,
};
use crate::error::{Error, ErrorKind};
use crate::heap::{
    is_aligned, served, served_among, step_served, step_served_among, Heap,
};
use crate::iter::ObjPoolIter;
use crate::key::ObjRawKey;
use crate::laws::{is_key_of, law_iter, law_open, served_on, walks};
use crate::oid::PMEMoid;
use crate::pool::{spec_pool_size, starts_opening, ObjPool, OpenOp};
use crate::queue::{queue_capacity, queued};

verus! {

/// Whether the `k`th two calls of `trace` allocate an object and ask for its
/// address, both with success.
pub open spec fn allocates<'a>(
    pool: u64,
    size: usize,
    data_type: u64,
    trace: Seq<Exchange<'a>>,
    k: int,
) -> bool {
    &&& trace[2 * k].0 == (Call::Alloc { pool, size, type_num: data_type })
    &&& trace[2 * k].1->Allocated_status == 0
    &&& trace[2 * k + 1].0 == (Call::Direct { oid: trace[2 * k].1->oid })
}

/// Whether `trace` is the allocation of `n` objects, whose addresses are those of
/// `addrs`.
pub open spec fn allocates_all<'a>(
    pool: u64,
    size: usize,
    data_type: u64,
    trace: Seq<Exchange<'a>>,
    addrs: Seq<u64>,
) -> bool {
    &&& trace.len() == 2 * addrs.len()
    &&& forall|k: int|
        0 <= k < addrs.len() ==> #[trigger] allocates(pool, size, data_type, trace, k) && trace[2
            * k + 1].1->Address_0 == addrs[k]
}

/// Whether `trace` allocates some objects, fewer than `n`, fails with the next one,
/// and then closes the pool.
pub open spec fn fails_and_closes<'a>(
    pool: ObjPool,
    size: usize,
    data_type: u64,
    n: int,
    trace: Seq<Exchange<'a>>,
    k: int,
) -> bool {
    &&& 0 <= k < n
    &&& trace.len() > 2 * k
    &&& forall|j: int| 0 <= j < k ==> #[trigger] allocates(pool.inner, size, data_type, trace, j)
    &&& trace[2 * k].0 == (Call::Alloc { pool: pool.inner, size, type_num: data_type })
    &&& trace[2 * k].1->Allocated_status != 0
    &&& finishes(pool.spec_drop(), trace.skip(2 * k + 1), ())
}

/// The allocation of objects in advance either succeeds, and then the queue has
/// room for all of them and holds exactly the keys of those that were allocated at
/// once, in the order of their allocation, while the others are left for later; or
/// one allocation fails, and then the pool is closed and the error says so.
pub proof fn law_preallocate<'a>(
    pool: ObjPool,
    obj_size: usize,
    data_type: u64,
    capacity: usize,
    initial: usize,
    start: Progress<'a, PreallocateOp, Result<Preallocated, Error>>,
    trace: Seq<Exchange<'a>>,
    result: Result<Preallocated, Error>,
)
    requires
        starts_filling(pool, obj_size, data_type, capacity, initial, start),
        finishes(start, trace, result),
    ensures
        result matches Ok(done) ==> {
            &&& done.pool == pool
            &&& queue_capacity(done.queue) == capacity
            &&& queued(done.queue).len() == at_once(capacity, initial)
            &&& queued(done.queue).len() + done.deferred == capacity
            &&& allocates_all(pool.inner, obj_size, data_type, trace, queued(done.queue))
        },
        result matches Err(error) ==> {
            &&& error == (Error { kind: ErrorKind::ObjError })
            &&& exists|k: int|
                fails_and_closes(
                    pool,
                    obj_size,
                    data_type,
                    at_once(capacity, initial) as int,
                    trace,
                    k,
                )
        },
{
    let queue = choose|queue: ArrayQueue<ObjRawKey>| #[trigger]
        is_fresh(queue, capacity) && start == PreallocateOp::goes_on(
            pool,
            queue,
            obj_size,
            data_type,
            at_once(capacity, initial),
            (capacity - at_once(capacity, initial)) as usize,
        );
    let left = at_once(capacity, initial);
    let deferred = (capacity - left) as usize;
    lemma_fill(pool, queue, obj_size, data_type, left, deferred, trace, result);
    if let Ok(done) = result {
        assert(queued(queue) + queued(done.queue).skip(0) =~= queued(done.queue));
    }
}

/// The allocation of the next `left` objects: the queue grows by their keys.
proof fn lemma_fill<'a>(
    pool: ObjPool,
    queue: ArrayQueue<ObjRawKey>,
    size: usize,
    data_type: u64,
    left: usize,
    deferred: usize,
    trace: Seq<Exchange<'a>>,
    result: Result<Preallocated, Error>,
)
    requires
        finishes(
            PreallocateOp::goes_on(pool, queue, size, data_type, left, deferred),
            trace,
            result,
        ),
    ensures
        result matches Ok(done) ==> {
            let n = queued(queue).len() as int;
            &&& done.pool == pool
            &&& done.deferred == deferred
            &&& queue_capacity(done.queue) == queue_capacity(queue)
            &&& queued(done.queue).len() == n + left
            &&& queued(queue) == queued(done.queue).take(n)
            &&& allocates_all(pool.inner, size, data_type, trace, queued(done.queue).skip(n))
        },
        result matches Err(error) ==> {
            &&& error == (Error { kind: ErrorKind::ObjError })
            &&& exists|k: int|
                fails_and_closes(pool, size, data_type, left as int, trace, k)
        },
    decreases left,
{
    let start = PreallocateOp::goes_on::<'a>(pool, queue, size, data_type, left, deferred);
    if left == 0 {
        if let Ok(done) = result {
            assert(queued(done.queue).take(queued(queue).len() as int) =~= queued(queue));
        }
    } else {
        let op = start->Call_1;
        let next = choose|next: Progress<'a, PreallocateOp, Result<Preallocated, Error>>| #[trigger]
            op.leads_to(trace[0].1, next) && finishes(next, trace.drop_first(), result);
        if trace[0].1->Allocated_status == 0 {
            let op = next->Call_1;
            let rest = trace.drop_first();
            let after = choose|
                after: Progress<'a, PreallocateOp, Result<Preallocated, Error>>,
            | #[trigger]
                op.leads_to(rest[0].1, after) && finishes(after, rest.drop_first(), result);
            let key = ObjRawKey { addr: rest[0].1->Address_0 };
            let longer = choose|longer: ArrayQueue<ObjRawKey>| #[trigger]
                pushed(queue, longer, key) && after == PreallocateOp::goes_on(
                    pool,
                    longer,
                    size,
                    data_type,
                    (left - 1) as usize,
                    deferred,
                );
            let tail = rest.drop_first();
            assert(tail =~= trace.skip(2));
            let fewer = (left - 1) as usize;
            lemma_fill(pool, longer, size, data_type, fewer, deferred, tail, result);
            if let Ok(done) = result {
                let n = queued(queue).len() as int;
                let keys = queued(done.queue);
                assert(queued(longer)[n] == key.addr);
                assert(keys[n] == keys.take(n + 1)[n]);
                assert(queued(queue) =~= keys.take(n)) by {
                    assert forall|i: int| 0 <= i < n implies queued(queue)[i] == keys.take(
                        n,
                    )[i] by {
                        assert(queued(longer)[i] == keys.take(n + 1)[i]);
                    }
                }
                let addrs = keys.skip(n);
                let later = keys.skip(n + 1);
                assert forall|k: int| 0 <= k < addrs.len() implies #[trigger] allocates(
                    pool.inner,
                    size,
                    data_type,
                    trace,
                    k,
                ) && trace[2 * k + 1].1->Address_0 == addrs[k] by {
                    if k > 0 {
                        assert(addrs[k] == later[k - 1]);
                        assert(allocates(pool.inner, size, data_type, tail, k - 1));
                        assert(tail[2 * (k - 1)] == trace[2 * k]);
                        assert(tail[2 * (k - 1) + 1] == trace[2 * k + 1]);
                    }
                }
            } else {
                let k = choose|k: int|
                    fails_and_closes(pool, size, data_type, fewer as int, tail, k);
                assert(tail.skip(2 * k + 1) =~= trace.skip(2 * (k + 1) + 1));
                assert(tail[2 * k] == trace[2 * (k + 1)]);
                assert forall|j: int| 0 <= j < k + 1 implies #[trigger] allocates(
                    pool.inner,
                    size,
                    data_type,
                    trace,
                    j,
                ) by {
                    if j > 0 {
                        assert(allocates(pool.inner, size, data_type, tail, j - 1));
                        assert(tail[2 * (j - 1)] == trace[2 * j]);
                        assert(tail[2 * (j - 1) + 1] == trace[2 * j + 1]);
                    }
                }
                assert(fails_and_closes(pool, size, data_type, left as int, trace, k + 1));
            }
        } else {
            lemma_close(
                pool.spec_drop(),
                Error { kind: ErrorKind::ObjError },
                trace.drop_first(),
                result,
            );
            assert(trace.drop_first() =~= trace.skip(1));
            assert(fails_and_closes(pool, size, data_type, left as int, trace, 0));
        }
    }
}

/// The closing of a pool after a failure makes the calls of any other closing, and
/// ends with the error.
proof fn lemma_close<'a>(
    close: Progress<'a, crate::pool::CloseOp, ()>,
    error: Error,
    trace: Seq<Exchange<'a>>,
    result: Result<Preallocated, Error>,
)
    requires
        finishes(PreallocateOp::fails(close, error), trace, result),
    ensures
        finishes(close, trace, ()),
        result == Err::<Preallocated, Error>(error),
    decreases trace.len(),
{
    if let Progress::Call(call, op) = close {
        let closing = PreallocateOp::Closing { op, error };
        let next = choose|next: Progress<'a, PreallocateOp, Result<Preallocated, Error>>| #[trigger]
            closing.leads_to(trace[0].1, next) && finishes(next, trace.drop_first(), result);
        let after = op.after::<'a>(trace[0].1);
        lemma_close(after, error, trace.drop_first(), result);
        assert(op.leads_to(trace[0].1, after));
    }
}

/// Whether `addr` is, on the heap `now`, the address of an object of the pool of
/// identity `uuid_lo` that was not there on the heap `before`, can hold `size`
/// bytes, carries the type number `data_type`, and is aligned.
pub open spec fn is_new_key(
    before: Heap,
    now: Heap,
    uuid_lo: u64,
    size: usize,
    data_type: u64,
    addr: u64,
) -> bool {
    exists|oid: PMEMoid| #[trigger]
        is_key_of(now, oid, ObjRawKey { addr }) && {
            &&& !before.objects.contains_key(oid)
            &&& oid.pool_uuid_lo == uuid_lo
            &&& now.objects[oid].size >= size
            &&& now.objects[oid].type_num == data_type
            &&& is_aligned(addr)
        }
}

/// Whether `keys` are the addresses of as many different such objects.
pub open spec fn are_new_keys(
    before: Heap,
    now: Heap,
    uuid_lo: u64,
    size: usize,
    data_type: u64,
    keys: Seq<u64>,
) -> bool {
    &&& keys.no_duplicates()
    &&& forall|k: int|
        0 <= k < keys.len() ==> is_new_key(
            before,
            now,
            uuid_lo,
            size,
            data_type,
            #[trigger] keys[k],
        )
}

/// Whether the key of an object has one of the addresses `keys`.
pub open spec fn has_key_in(heap: Heap, oid: PMEMoid, keys: Seq<u64>) -> bool {
    exists|k: int|
        0 <= k < keys.len() && is_key_of(heap, oid, ObjRawKey { addr: #[trigger] keys[k] })
}

/// The keys that are in the queue after objects were allocated in advance are all
/// different, and each is the key of a new object of the pool that can hold
/// `obj_size` bytes, carries the type number, and is aligned. The objects that were
/// there before are unchanged, and no other object was added.
pub proof fn law_preallocated_objects<'a>(
    pool: ObjPool,
    obj_size: usize,
    data_type: u64,
    capacity: usize,
    initial: usize,
    start: Progress<'a, PreallocateOp, Result<Preallocated, Error>>,
    heaps: Seq<Heap>,
    trace: Seq<Exchange<'a>>,
    done: Preallocated,
)
    requires
        heaps[0].valid(),
        starts_filling(pool, obj_size, data_type, capacity, initial, start),
        finishes(start, trace, Ok(done)),
        served(heaps, trace),
    ensures
        heaps.last().valid(),
        heaps[0].kept_in(heaps.last()),
        are_new_keys(
            heaps[0],
            heaps.last(),
            heaps[0].pools[pool.inner],
            obj_size,
            data_type,
            queued(done.queue),
        ),
        forall|oid: PMEMoid| #[trigger]
            heaps.last().objects.contains_key(oid) ==> heaps[0].objects.contains_key(oid)
                || has_key_in(heaps.last(), oid, queued(done.queue)),
{
    law_preallocate(pool, obj_size, data_type, capacity, initial, start, trace, Ok(done));
    let keys = queued(done.queue);
    lemma_new_keys(pool.inner, obj_size, data_type, heaps, trace, keys, keys.len() as int);
    assert(keys.take(keys.len() as int) =~= keys);
}

/// A walk over a pool that had no objects before some were allocated in advance gives
/// exactly the keys that are in the queue, each once, as long as no other object was
/// added or removed since.
pub proof fn law_preallocated_walk<'a>(
    pool: ObjPool,
    obj_size: usize,
    data_type: u64,
    capacity: usize,
    initial: usize,
    start: Progress<'a, PreallocateOp, Result<Preallocated, Error>>,
    heaps: Seq<Heap>,
    trace: Seq<Exchange<'a>>,
    done: Preallocated,
    heap: Heap,
    iter_trace: Seq<Exchange<'a>>,
    iter: ObjPoolIter,
    traces: Seq<Seq<Exchange<'a>>>,
    keys: Seq<u64>,
)
    requires
        heaps[0].valid(),
        heaps[0].has_open(pool),
        heaps[0].is_empty(pool.inner),
        starts_filling(pool, obj_size, data_type, capacity, initial, start),
        finishes(start, trace, Ok(done)),
        served(heaps, trace),
        heap.valid(),
        heap.has_open(pool),
        heap.objects == heaps.last().objects,
        finishes(done.pool.spec_iter(), iter_trace, iter),
        served_on(heap, iter_trace),
        walks(iter, heap, traces, keys),
    ensures
        keys.no_duplicates(),
        forall|addr: u64| #[trigger]
            keys.contains(addr) <==> queued(done.queue).contains(addr),
        keys.len() == at_once(capacity, initial),
{
    let in_queue = queued(done.queue);
    law_preallocate(pool, obj_size, data_type, capacity, initial, start, trace, Ok(done));
    law_preallocated_objects(
        pool,
        obj_size,
        data_type,
        capacity,
        initial,
        start,
        heaps,
        trace,
        done,
    );
    law_iter(pool, heap, iter_trace, iter, traces, keys);
    let first = heaps[0];
    let last = heaps.last();
    assert forall|addr: u64| #[trigger] keys.contains(addr) implies in_queue.contains(addr) by {
        let oid = choose|oid: PMEMoid|
            oid.pool_uuid_lo == pool.uuid_lo && #[trigger] is_key_of(
                heap,
                oid,
                ObjRawKey { addr },
            );
        assert(first.walks_over(first.pools[pool.inner]));
        assert(!first.orders[pool.uuid_lo].contains(oid));
        assert(last.objects.contains_key(oid));
        assert(has_key_in(last, oid, in_queue));
    }
    assert forall|addr: u64| in_queue.contains(addr) implies #[trigger] keys.contains(addr) by {
        let k = choose|k: int| 0 <= k < in_queue.len() && in_queue[k] == addr;
        let oid = lemma_object_of(first, last, pool.uuid_lo, obj_size, data_type, in_queue[k]);
        assert(is_key_of(heap, oid, ObjRawKey { addr }));
    }
    keys.unique_seq_to_set();
    in_queue.unique_seq_to_set();
    assert forall|addr: u64| #[trigger]
        in_queue.to_set().contains(addr) <==> keys.to_set().contains(addr) by {
        assert(keys.contains(addr) <==> in_queue.contains(addr));
    }
    assert(keys.to_set() =~= in_queue.to_set());
}

/// The first `n` objects that are allocated are new, and differ from each other.
proof fn lemma_new_keys<'a>(
    pool: u64,
    size: usize,
    data_type: u64,
    heaps: Seq<Heap>,
    trace: Seq<Exchange<'a>>,
    keys: Seq<u64>,
    n: int,
)
    requires
        heaps[0].valid(),
        served(heaps, trace),
        allocates_all(pool, size, data_type, trace, keys),
        0 <= n <= keys.len(),
    ensures
        heaps[2 * n].valid(),
        heaps[2 * n].pools == heaps[0].pools,
        heaps[0].kept_in(heaps[2 * n]),
        forall|i: int, j: int| 0 <= i < j < n ==> keys[i] != keys[j],
        forall|k: int|
            0 <= k < n ==> is_new_key(
                heaps[0],
                heaps[2 * n],
                heaps[0].pools[pool],
                size,
                data_type,
                #[trigger] keys[k],
            ),
        forall|oid: PMEMoid| #[trigger]
            heaps[2 * n].objects.contains_key(oid) ==> heaps[0].objects.contains_key(oid)
                || has_key_in(heaps[2 * n], oid, keys.take(n)),
    decreases n,
{
    if n > 0 {
        let m = n - 1;
        lemma_new_keys(pool, size, data_type, heaps, trace, keys, m);
        assert(allocates(pool, size, data_type, trace, m));
        assert(step_served(heaps, trace, 2 * m));
        assert(step_served(heaps, trace, 2 * m + 1));
        let before = heaps[2 * m];
        let now = heaps[2 * n];
        let oid = trace[2 * m].1->oid;
        assert(before.gains(oid, now));
        assert(is_key_of(now, oid, ObjRawKey { addr: keys[m] }));
        assert forall|other: PMEMoid| #[trigger]
            heaps[0].objects.contains_key(other) implies now.objects.contains_key(other)
            && now.objects[other] == heaps[0].objects[other] && now.content(other)
            == heaps[0].content(other) by {
            assert(before.objects.contains_key(other));
        }
        assert forall|k: int| 0 <= k < n implies is_new_key(
            heaps[0],
            now,
            heaps[0].pools[pool],
            size,
            data_type,
            #[trigger] keys[k],
        ) && (k < m ==> keys[k] != keys[m]) by {
            if k < m {
                let uuid_lo = heaps[0].pools[pool];
                let old_oid = lemma_object_of(
                    heaps[0],
                    before,
                    uuid_lo,
                    size,
                    data_type,
                    keys[k],
                );
                assert(is_key_of(now, old_oid, ObjRawKey { addr: keys[k] }));
                if keys[k] == keys[m] {
                    assert(now.covers(oid, keys[k] as int));
                    assert(now.covers(old_oid, keys[k] as int));
                }
            }
        }
        assert forall|other: PMEMoid| #[trigger]
            now.objects.contains_key(other) implies heaps[0].objects.contains_key(other)
            || has_key_in(now, other, keys.take(n)) by {
            if other == oid {
                assert(keys.take(n)[m] == keys[m]);
            } else if !heaps[0].objects.contains_key(other) {
                assert(before.objects.contains_key(other));
                let k = choose|k: int|
                    0 <= k < m && is_key_of(
                        before,
                        other,
                        ObjRawKey { addr: #[trigger] keys.take(m)[k] },
                    );
                assert(keys.take(n)[k] == keys.take(m)[k]);
            }
        }
    }
}

/// Whether the `k`th four calls of `trace` are one round of an allocation of
/// several objects: the queue is not abandoned, an object is allocated, its address
/// is asked for, and the key with this address is pushed into the queue.
pub open spec fn is_round<'a>(
    pool: u64,
    size: usize,
    data_type: u64,
    trace: Seq<Exchange<'a>>,
    k: int,
) -> bool {
    &&& is_unpushed_round(pool, size, data_type, trace, k)
    &&& trace[4 * k + 3].1->Answer_0
}

/// A round, whether or not the queue had room for the key.
pub open spec fn is_unpushed_round<'a>(
    pool: u64,
    size: usize,
    data_type: u64,
    trace: Seq<Exchange<'a>>,
    k: int,
) -> bool {
    &&& trace[4 * k].0 == Call::QueueAbandoned
    &&& !trace[4 * k].1->Answer_0
    &&& trace[4 * k + 1].0 == (Call::Alloc { pool, size, type_num: data_type })
    &&& trace[4 * k + 1].1->Allocated_status == 0
    &&& trace[4 * k + 2].0 == (Call::Direct { oid: trace[4 * k + 1].1->oid })
    &&& trace[4 * k + 3].0 == (Call::Push {
        key: ObjRawKey { addr: trace[4 * k + 2].1->Address_0 },
    })
}

/// Whether an allocation of `n` objects that makes the calls of `trace` and ends
/// with `result` has `k` rounds, and then ends as it has to.
pub open spec fn ends_after<'a>(
    pool: u64,
    size: usize,
    data_type: u64,
    n: int,
    trace: Seq<Exchange<'a>>,
    result: Result<(), Error>,
    k: int,
) -> bool {
    &&& 0 <= k <= n
    &&& trace.len() >= 4 * k
    &&& forall|j: int| 0 <= j < k ==> #[trigger] is_round(pool, size, data_type, trace, j)
    &&& {
        // all objects are allocated
        ||| {
            &&& k == n
            &&& trace.len() == 4 * k
            &&& result == Ok::<(), Error>(())
        }
        // nobody else holds the queue
        ||| {
            &&& k < n
            &&& trace.len() == 4 * k + 1
            &&& trace[4 * k].0 == Call::QueueAbandoned
            &&& trace[4 * k].1->Answer_0
            &&& result == Ok::<(), Error>(())
        }
        // an object is not allocated
        ||| {
            &&& k < n
            &&& trace.len() == 4 * k + 2
            &&& trace[4 * k].0 == Call::QueueAbandoned
            &&& !trace[4 * k].1->Answer_0
            &&& trace[4 * k + 1].0 == (Call::Alloc { pool, size, type_num: data_type })
            &&& trace[4 * k + 1].1->Allocated_status != 0
            &&& result == Err::<(), Error>(Error { kind: ErrorKind::ObjError })
        }
        // the queue has no room
        ||| {
            &&& k < n
            &&& trace.len() == 4 * k + 4
            &&& is_unpushed_round(pool, size, data_type, trace, k)
            &&& !trace[4 * k + 3].1->Answer_0
            &&& result == Err::<(), Error>(Error { kind: ErrorKind::PmdkNoSpaceInQueueError })
        }
    }
}

/// An allocation of several objects goes in rounds, each of which allocates one
/// object and pushes its key into the queue. It ends well after as many rounds as
/// objects were asked for, or as soon as nobody else holds the queue; it fails as
/// soon as an object is not allocated or the queue has no room, and nothing is
/// called after that.
pub proof fn law_alloc_multi_calls<'a>(
    pool: ObjPool,
    size: usize,
    data_type: u64,
    nobjects: usize,
    trace: Seq<Exchange<'a>>,
    result: Result<(), Error>,
)
    requires
        finishes(FillOp::starts(pool.inner, size, data_type, nobjects), trace, result),
    ensures
        exists|k: int|
            ends_after(pool.inner, size, data_type, nobjects as int, trace, result, k),
{
    lemma_rounds(pool.inner, size, data_type, nobjects, trace, result);
}

proof fn lemma_rounds<'a>(
    pool: u64,
    size: usize,
    data_type: u64,
    n: usize,
    trace: Seq<Exchange<'a>>,
    result: Result<(), Error>,
)
    requires
        finishes(FillOp::starts(pool, size, data_type, n), trace, result),
    ensures
        exists|k: int| ends_after(pool, size, data_type, n as int, trace, result, k),
    decreases n,
{
    reveal_with_fuel(finishes, 5);
    if n > 0 && !trace[0].1->Answer_0 && trace[1].1->Allocated_status == 0
        && trace[3].1->Answer_0 {
        let tail = trace.drop_first().drop_first().drop_first().drop_first();
        assert(tail =~= trace.skip(4));
        let fewer = (n - 1) as usize;
        lemma_rounds(pool, size, data_type, fewer, tail, result);
        let k = choose|k: int| ends_after(pool, size, data_type, fewer as int, tail, result, k);
        assert forall|j: int| 0 <= j < k + 1 implies #[trigger] is_round(
            pool,
            size,
            data_type,
            trace,
            j,
        ) by {
            if j > 0 {
                assert(is_round(pool, size, data_type, tail, j - 1));
                assert(tail[4 * (j - 1)] == trace[4 * j]);
                assert(tail[4 * (j - 1) + 1] == trace[4 * j + 1]);
                assert(tail[4 * (j - 1) + 2] == trace[4 * j + 2]);
                assert(tail[4 * (j - 1) + 3] == trace[4 * j + 3]);
            }
        }
        assert(ends_after(pool, size, data_type, n as int, trace, result, k + 1));
    } else {
        assert(ends_after(pool, size, data_type, n as int, trace, result, 0));
    }
}

/// The addresses of the keys that the calls of `trace` push into the queue, one after the
/// other.
pub open spec fn pushed_keys<'a>(trace: Seq<Exchange<'a>>) -> Seq<u64>
    decreases trace.len(),
{
    if trace.len() == 0 {
        Seq::empty()
    } else {
        let before = pushed_keys(trace.drop_last());
        if trace.last().0 is Push && trace.last().1->Answer_0 {
            before.push(trace.last().0->key.addr)
        } else {
            before
        }
    }
}

/// Whether nothing stops an allocation of several objects at its `i`th call: the queue is
/// not abandoned, the object is allocated, and the queue does not refuse the key while
/// fewer than `room` keys have been pushed.
pub open spec fn goes_well<'a>(trace: Seq<Exchange<'a>>, room: int, i: int) -> bool {
    match trace[i].0 {
        Call::QueueAbandoned => !trace[i].1->Answer_0,
        Call::Alloc { .. } => trace[i].1->Allocated_status == 0,
        Call::Push { .. } => pushed_keys(trace.take(i)).len() < room ==> trace[i].1->Answer_0,
        _ => true,
    }
}

/// Whether nothing stops an allocation of several objects.
pub open spec fn all_goes_well<'a>(trace: Seq<Exchange<'a>>, room: int) -> bool {
    forall|i: int| 0 <= i < trace.len() ==> #[trigger] goes_well(trace, room, i)
}

/// An allocation of several objects never pushes more keys than it was asked for, and
/// pushes exactly so many and ends well if nothing stops it.
pub proof fn law_alloc_multi_pushes<'a>(
    pool: ObjPool,
    size: usize,
    data_type: u64,
    nobjects: usize,
    trace: Seq<Exchange<'a>>,
    result: Result<(), Error>,
)
    requires
        finishes(FillOp::starts(pool.inner, size, data_type, nobjects), trace, result),
    ensures
        pushed_keys(trace).len() <= nobjects,
        all_goes_well(trace, nobjects as int) ==> {
            &&& pushed_keys(trace).len() == nobjects
            &&& result == Ok::<(), Error>(())
        },
{
    law_alloc_multi_calls(pool, size, data_type, nobjects, trace, result);
    let n = nobjects as int;
    let k = choose|k: int| ends_after(pool.inner, size, data_type, n, trace, result, k);
    lemma_pushed(pool.inner, size, data_type, n, trace, result, k);
    if trace.len() == 4 * k + 1 {
        assert(all_goes_well(trace, n) ==> goes_well(trace, n, 4 * k));
    } else if trace.len() == 4 * k + 2 {
        assert(all_goes_well(trace, n) ==> goes_well(trace, n, 4 * k + 1));
    } else if trace.len() == 4 * k + 4 {
        assert(trace.drop_last() =~= trace.take(4 * k + 3));
        assert(all_goes_well(trace, n) ==> goes_well(trace, n, 4 * k + 3));
    }
}

/// An allocation of several objects that has `k` rounds pushes the `k` addresses that were
/// asked for in them.
proof fn lemma_pushed<'a>(
    pool: u64,
    size: usize,
    data_type: u64,
    n: int,
    trace: Seq<Exchange<'a>>,
    result: Result<(), Error>,
    k: int,
)
    requires
        ends_after(pool, size, data_type, n, trace, result, k),
    ensures
        pushed_keys(trace).len() == k,
        forall|j: int|
            0 <= j < k ==> #[trigger] pushed_keys(trace)[j] == trace[4 * j + 2].1->Address_0,
{
    lemma_pushes(pool, size, data_type, trace, k);
    reveal_with_fuel(pushed_keys, 5);
    let before = trace.take(4 * k);
    if trace.len() == 4 * k {
        assert(trace =~= before);
    } else if trace.len() == 4 * k + 1 {
        assert(trace.drop_last() =~= before);
    } else if trace.len() == 4 * k + 2 {
        assert(trace.drop_last().drop_last() =~= before);
    } else {
        assert(trace.drop_last().drop_last().drop_last().drop_last() =~= before);
    }
}

/// Each round pushes one key.
proof fn lemma_pushes<'a>(
    pool: u64,
    size: usize,
    data_type: u64,
    trace: Seq<Exchange<'a>>,
    k: int,
)
    requires
        0 <= 4 * k <= trace.len(),
        forall|j: int| 0 <= j < k ==> #[trigger] is_round(pool, size, data_type, trace, j),
    ensures
        pushed_keys(trace.take(4 * k)).len() == k,
        forall|j: int|
            0 <= j < k ==> #[trigger] pushed_keys(trace.take(4 * k))[j] == trace[4 * j
                + 2].1->Address_0,
    decreases k,
{
    if k > 0 {
        let m = k - 1;
        lemma_pushes(pool, size, data_type, trace, m);
        reveal_with_fuel(pushed_keys, 5);
        assert(is_round(pool, size, data_type, trace, m));
        let round = trace.take(4 * k);
        assert(round.drop_last() =~= trace.take(4 * m + 3));
        assert(trace.take(4 * m + 3).drop_last() =~= trace.take(4 * m + 2));
        assert(trace.take(4 * m + 2).drop_last() =~= trace.take(4 * m + 1));
        assert(trace.take(4 * m + 1).drop_last() =~= trace.take(4 * m));
    }
}

/// Whether `call` is one that an allocation of several objects makes.
spec fn is_fill_call(call: Call) -> bool {
    call is QueueAbandoned || call is Alloc || call is Direct || call is Push
}

/// An allocation of several objects makes no other calls.
proof fn lemma_fill_calls<'a>(
    pool: u64,
    size: usize,
    data_type: u64,
    n: int,
    trace: Seq<Exchange<'a>>,
    result: Result<(), Error>,
    k: int,
)
    requires
        ends_after(pool, size, data_type, n, trace, result, k),
    ensures
        forall|i: int| 0 <= i < trace.len() ==> is_fill_call((#[trigger] trace[i]).0),
{
    assert forall|i: int| 0 <= i < trace.len() implies is_fill_call((#[trigger] trace[i]).0) by {
        let j = i / 4;
        if j < k {
            assert(is_round(pool, size, data_type, trace, j));
        }
        assert(i == 4 * j || i == 4 * j + 1 || i == 4 * j + 2 || i == 4 * j + 3);
    }
}

/// Such calls take no object away and close no pool, and neither do the others that use
/// the heap between them.
proof fn lemma_present<'a>(heaps: Seq<Heap>, trace: Seq<Exchange<'a>>, i: int, j: int)
    requires
        served_among(heaps, trace),
        forall|i: int| 0 <= i < trace.len() ==> is_fill_call((#[trigger] trace[i]).0),
        0 <= i <= j <= trace.len(),
        heaps[i].valid(),
    ensures
        heaps[i].present_in(heaps[j]),
        heaps[i].stays_open_in(heaps[j]),
        heaps[j].valid(),
    decreases j - i,
{
    if i < j {
        let m = j - 1;
        lemma_present(heaps, trace, i, m);
        assert(step_served_among(heaps, trace, m));
        assert(is_fill_call(trace[m].0));
        let after = choose|after: Heap| #[trigger]
            heaps[m].answers(trace[m].0, trace[m].1, after) && after.shared_into(heaps[m + 1]);
        assert forall|oid: PMEMoid| #[trigger]
            heaps[i].objects.contains_key(oid) implies heaps[j].objects.contains_key(oid)
            && heaps[j].objects[oid] == heaps[i].objects[oid] by {
            assert(heaps[m].objects.contains_key(oid));
            assert(after.objects.contains_key(oid));
        }
        assert forall|pool: u64| #[trigger]
            heaps[i].pools.contains_key(pool) implies heaps[j].pools.contains_key(pool)
            && heaps[j].pools[pool] == heaps[i].pools[pool] by {
            assert(heaps[m].pools.contains_key(pool));
            assert(after.pools.contains_key(pool));
        }
    }
}

/// The object of a round is new, and stays.
proof fn lemma_round<'a>(
    pool: ObjPool,
    size: usize,
    data_type: u64,
    heaps: Seq<Heap>,
    trace: Seq<Exchange<'a>>,
    k: int,
) -> (oid: PMEMoid)
    requires
        heaps[0].valid(),
        heaps[0].has_open(pool),
        served_among(heaps, trace),
        forall|i: int| 0 <= i < trace.len() ==> is_fill_call((#[trigger] trace[i]).0),
        0 <= k,
        4 * k + 3 < trace.len(),
        is_unpushed_round(pool.inner, size, data_type, trace, k),
    ensures
        oid == trace[4 * k + 1].1->oid,
        !heaps[4 * k + 1].objects.contains_key(oid),
        heaps[4 * k + 2].objects.contains_key(oid),
        !heaps[0].objects.contains_key(oid),
        is_key_of(heaps.last(), oid, ObjRawKey { addr: trace[4 * k + 2].1->Address_0 }),
        oid.pool_uuid_lo == pool.uuid_lo,
        heaps.last().objects[oid].size >= size,
        heaps.last().objects[oid].type_num == data_type,
        is_aligned(trace[4 * k + 2].1->Address_0),
{
    let a = 4 * k + 1;
    let oid = trace[a].1->oid;
    lemma_present(heaps, trace, 0, a);
    assert(step_served_among(heaps, trace, a));
    let after = choose|after: Heap| #[trigger]
        heaps[a].answers(trace[a].0, trace[a].1, after) && after.shared_into(heaps[a + 1]);
    assert(after.objects.contains_key(oid));
    assert(heaps[a + 1].objects.contains_key(oid));
    assert(step_served_among(heaps, trace, a + 1));
    lemma_present(heaps, trace, 0, a + 1);
    lemma_present(heaps, trace, a + 1, trace.len() as int);
    if heaps[0].objects.contains_key(oid) {
        assert(heaps[a].objects.contains_key(oid));
    }
    oid
}

/// While others use the pools too, but remove no object and close no pool, the keys that
/// an allocation of several objects pushes are all different, and each is the key of a new
/// object of the pool that can hold `size` bytes, carries the type number, and is aligned.
/// The objects that were there before are still there.
pub proof fn law_alloc_multi_objects_among<'a>(
    pool: ObjPool,
    size: usize,
    data_type: u64,
    nobjects: usize,
    heaps: Seq<Heap>,
    trace: Seq<Exchange<'a>>,
    result: Result<(), Error>,
)
    requires
        heaps[0].valid(),
        heaps[0].has_open(pool),
        finishes(FillOp::starts(pool.inner, size, data_type, nobjects), trace, result),
        served_among(heaps, trace),
    ensures
        heaps.last().valid(),
        heaps[0].present_in(heaps.last()),
        are_new_keys(
            heaps[0],
            heaps.last(),
            pool.uuid_lo,
            size,
            data_type,
            pushed_keys(trace),
        ),
{
    law_alloc_multi_calls(pool, size, data_type, nobjects, trace, result);
    let n = nobjects as int;
    let k = choose|k: int| ends_after(pool.inner, size, data_type, n, trace, result, k);
    lemma_pushed(pool.inner, size, data_type, n, trace, result, k);
    lemma_fill_calls(pool.inner, size, data_type, n, trace, result, k);
    lemma_present(heaps, trace, 0, trace.len() as int);
    let keys = pushed_keys(trace);
    let last = heaps.last();
    assert forall|j: int| 0 <= j < k implies is_new_key(
        heaps[0],
        last,
        pool.uuid_lo,
        size,
        data_type,
        #[trigger] keys[j],
    ) by {
        assert(is_round(pool.inner, size, data_type, trace, j));
        let oid = lemma_round(pool, size, data_type, heaps, trace, j);
        assert(is_key_of(last, oid, ObjRawKey { addr: keys[j] }));
    }
    assert forall|i: int, j: int| 0 <= i < j < k implies keys[i] != keys[j] by {
        assert(is_round(pool.inner, size, data_type, trace, i));
        assert(is_round(pool.inner, size, data_type, trace, j));
        let first = lemma_round(pool, size, data_type, heaps, trace, i);
        let second = lemma_round(pool, size, data_type, heaps, trace, j);
        lemma_present(heaps, trace, 0, 4 * i + 2);
        lemma_present(heaps, trace, 4 * i + 2, 4 * j + 1);
        assert(heaps[4 * j + 1].objects.contains_key(first));
        if keys[i] == keys[j] {
            assert(last.covers(first, keys[i] as int));
            assert(last.covers(second, keys[i] as int));
        }
    }
}

/// The keys that an allocation of several objects pushes are all different, and each is
/// the key of a new object of the pool that can hold `size` bytes, carries the type
/// number, and is aligned. The objects that were there before are unchanged, and no other
/// object was added but the one whose key the queue refused, if it refused one.
pub proof fn law_alloc_multi_objects<'a>(
    pool: ObjPool,
    size: usize,
    data_type: u64,
    nobjects: usize,
    heaps: Seq<Heap>,
    trace: Seq<Exchange<'a>>,
    result: Result<(), Error>,
)
    requires
        heaps[0].valid(),
        heaps[0].has_open(pool),
        finishes(FillOp::starts(pool.inner, size, data_type, nobjects), trace, result),
        served(heaps, trace),
    ensures
        heaps.last().valid(),
        heaps[0].kept_in(heaps.last()),
        are_new_keys(
            heaps[0],
            heaps.last(),
            pool.uuid_lo,
            size,
            data_type,
            pushed_keys(trace),
        ),
        forall|oid: PMEMoid| #[trigger]
            heaps.last().objects.contains_key(oid) ==> {
                ||| heaps[0].objects.contains_key(oid)
                ||| has_key_in(heaps.last(), oid, pushed_keys(trace))
                ||| {
                    &&& result == Err::<(), Error>(
                        Error { kind: ErrorKind::PmdkNoSpaceInQueueError },
                    )
                    &&& is_key_of(heaps.last(), oid, trace.last().0->key)
                }
            },
{
    law_alloc_multi_calls(pool, size, data_type, nobjects, trace, result);
    let n = nobjects as int;
    let k = choose|k: int| ends_after(pool.inner, size, data_type, n, trace, result, k);
    lemma_pushed(pool.inner, size, data_type, n, trace, result, k);
    lemma_fill_calls(pool.inner, size, data_type, n, trace, result, k);
    lemma_kept(heaps, trace, trace.len() as int);
    assert forall|i: int| 0 <= i < trace.len() implies #[trigger] step_served_among(
        heaps,
        trace,
        i,
    ) by {
        lemma_kept(heaps, trace, i + 1);
        assert(step_served(heaps, trace, i));
        assert(heaps[i].answers(trace[i].0, trace[i].1, heaps[i + 1]));
        assert(heaps[i + 1].shared_into(heaps[i + 1]));
    }
    law_alloc_multi_objects_among(pool, size, data_type, nobjects, heaps, trace, result);
    let keys = pushed_keys(trace);
    let last = heaps.last();
    assert forall|oid: PMEMoid| #[trigger] last.objects.contains_key(oid) implies {
        ||| heaps[0].objects.contains_key(oid)
        ||| has_key_in(last, oid, keys)
        ||| {
            &&& result == Err::<(), Error>(Error { kind: ErrorKind::PmdkNoSpaceInQueueError })
            &&& is_key_of(last, oid, trace.last().0->key)
        }
    } by {
        if !heaps[0].objects.contains_key(oid) {
            let i = lemma_added(heaps, trace, oid, trace.len() as int);
            let j = i / 4;
            assert(i == 4 * j || i == 4 * j + 1 || i == 4 * j + 2 || i == 4 * j + 3);
            if j < k {
                assert(is_round(pool.inner, size, data_type, trace, j));
            }
            let same = lemma_round(pool, size, data_type, heaps, trace, j);
            if j < k {
                assert(is_key_of(last, oid, ObjRawKey { addr: keys[j] }));
            }
        }
    }
}

/// The objects that were there at first are unchanged after the first `i` calls, if nobody
/// else uses the heap.
proof fn lemma_kept<'a>(heaps: Seq<Heap>, trace: Seq<Exchange<'a>>, i: int)
    requires
        heaps[0].valid(),
        served(heaps, trace),
        forall|i: int| 0 <= i < trace.len() ==> is_fill_call((#[trigger] trace[i]).0),
        0 <= i <= trace.len(),
    ensures
        heaps[i].valid(),
        heaps[0].kept_in(heaps[i]),
    decreases i,
{
    if i > 0 {
        let m = i - 1;
        lemma_kept(heaps, trace, m);
        assert(step_served(heaps, trace, m));
        assert(is_fill_call(trace[m].0));
        assert forall|oid: PMEMoid| #[trigger] heaps[0].objects.contains_key(oid) implies {
            &&& heaps[i].objects.contains_key(oid)
            &&& heaps[i].objects[oid] == heaps[0].objects[oid]
            &&& heaps[i].content(oid) == heaps[0].content(oid)
        } by {
            assert(heaps[m].objects.contains_key(oid));
        }
    }
}

/// An object that was not there at first was allocated by one of the first `n` calls.
proof fn lemma_added<'a>(
    heaps: Seq<Heap>,
    trace: Seq<Exchange<'a>>,
    oid: PMEMoid,
    n: int,
) -> (i: int)
    requires
        served(heaps, trace),
        forall|i: int| 0 <= i < trace.len() ==> is_fill_call((#[trigger] trace[i]).0),
        0 <= n <= trace.len(),
        !heaps[0].objects.contains_key(oid),
        heaps[n].objects.contains_key(oid),
    ensures
        0 <= i < n,
        trace[i].0 is Alloc,
        trace[i].1->Allocated_status == 0,
        trace[i].1->oid == oid,
    decreases n,
{
    let m = n - 1;
    assert(step_served(heaps, trace, m));
    assert(is_fill_call(trace[m].0));
    if heaps[m].objects.contains_key(oid) {
        lemma_added(heaps, trace, oid, m)
    } else {
        m
    }
}

/// The keys that are in the queue after the first objects were allocated, and those that
/// the allocation of the others pushes later, are never more than the queue has room for,
/// and exactly so many if nothing stops the later allocation.
pub proof fn law_deferred_total<'a>(
    pool: ObjPool,
    obj_size: usize,
    data_type: u64,
    capacity: usize,
    initial: usize,
    start: Progress<'a, PreallocateOp, Result<Preallocated, Error>>,
    trace: Seq<Exchange<'a>>,
    done: Preallocated,
    later_trace: Seq<Exchange<'a>>,
    later: Result<(), Error>,
)
    requires
        starts_filling(pool, obj_size, data_type, capacity, initial, start),
        finishes(start, trace, Ok(done)),
        finishes(
            FillOp::starts(done.pool.inner, obj_size, data_type, done.deferred),
            later_trace,
            later,
        ),
    ensures
        queue_capacity(done.queue) == capacity,
        pushed_keys(later_trace).len() <= done.deferred,
        queued(done.queue).len() + pushed_keys(later_trace).len() <= capacity,
        all_goes_well(later_trace, capacity - queued(done.queue).len()) ==> {
            &&& later == Ok::<(), Error>(())
            &&& queued(done.queue).len() + pushed_keys(later_trace).len() == capacity
        },
{
    law_preallocate(pool, obj_size, data_type, capacity, initial, start, trace, Ok(done));
    law_alloc_multi_pushes(done.pool, obj_size, data_type, done.deferred, later_trace, later);
}

/// The keys that are in the queue after the first objects were allocated, and those that
/// the allocation of the others pushes later, are all different, and each is the key of a
/// new object of the pool that can hold `obj_size` bytes, carries the type number, and is
/// aligned. This holds while others use the pools too, as long as they remove no object
/// and close no pool.
pub proof fn law_deferred_keys<'a>(
    pool: ObjPool,
    obj_size: usize,
    data_type: u64,
    capacity: usize,
    initial: usize,
    start: Progress<'a, PreallocateOp, Result<Preallocated, Error>>,
    heaps: Seq<Heap>,
    trace: Seq<Exchange<'a>>,
    done: Preallocated,
    later_heaps: Seq<Heap>,
    later_trace: Seq<Exchange<'a>>,
    later: Result<(), Error>,
)
    requires
        heaps[0].valid(),
        heaps[0].has_open(pool),
        starts_filling(pool, obj_size, data_type, capacity, initial, start),
        finishes(start, trace, Ok(done)),
        served(heaps, trace),
        heaps.last().shared_into(later_heaps[0]),
        finishes(
            FillOp::starts(done.pool.inner, obj_size, data_type, done.deferred),
            later_trace,
            later,
        ),
        served_among(later_heaps, later_trace),
    ensures
        are_new_keys(
            heaps[0],
            later_heaps.last(),
            pool.uuid_lo,
            obj_size,
            data_type,
            queued(done.queue) + pushed_keys(later_trace),
        ),
        heaps[0].present_in(later_heaps.last()),
{
    law_preallocate(pool, obj_size, data_type, capacity, initial, start, trace, Ok(done));
    law_preallocated_objects(
        pool,
        obj_size,
        data_type,
        capacity,
        initial,
        start,
        heaps,
        trace,
        done,
    );
    let keys = queued(done.queue);
    lemma_new_keys(pool.inner, obj_size, data_type, heaps, trace, keys, keys.len() as int);
    assert(heaps.last().pools.contains_key(pool.inner));
    lemma_joined_keys(
        pool,
        obj_size,
        data_type,
        heaps[0],
        heaps.last(),
        keys,
        done.deferred,
        later_heaps,
        later_trace,
        later,
    );
}

/// Keys of new objects, and those that a later allocation of several objects pushes, are
/// all keys of new objects.
proof fn lemma_joined_keys<'a>(
    pool: ObjPool,
    size: usize,
    data_type: u64,
    before: Heap,
    now: Heap,
    keys: Seq<u64>,
    nobjects: usize,
    heaps: Seq<Heap>,
    trace: Seq<Exchange<'a>>,
    result: Result<(), Error>,
)
    requires
        before.present_in(now),
        now.has_open(pool),
        are_new_keys(before, now, pool.uuid_lo, size, data_type, keys),
        now.shared_into(heaps[0]),
        finishes(FillOp::starts(pool.inner, size, data_type, nobjects), trace, result),
        served_among(heaps, trace),
    ensures
        are_new_keys(
            before,
            heaps.last(),
            pool.uuid_lo,
            size,
            data_type,
            keys + pushed_keys(trace),
        ),
        before.present_in(heaps.last()),
{
    law_alloc_multi_objects_among(pool, size, data_type, nobjects, heaps, trace, result);
    let last = heaps.last();
    let pushed = pushed_keys(trace);
    let all = keys + pushed;
    assert forall|oid: PMEMoid| #[trigger] before.objects.contains_key(oid) implies {
        &&& heaps[0].objects.contains_key(oid)
        &&& last.objects.contains_key(oid)
        &&& last.objects[oid] == before.objects[oid]
    } by {
        assert(now.objects.contains_key(oid));
        assert(heaps[0].objects.contains_key(oid));
    }
    assert forall|k: int| 0 <= k < all.len() implies is_new_key(
        before,
        last,
        pool.uuid_lo,
        size,
        data_type,
        #[trigger] all[k],
    ) by {
        if k < keys.len() {
            let oid = lemma_object_of(before, now, pool.uuid_lo, size, data_type, keys[k]);
            assert(now.objects.contains_key(oid));
            assert(heaps[0].objects.contains_key(oid));
            assert(is_key_of(last, oid, ObjRawKey { addr: all[k] }));
        } else {
            let addr = pushed[k - keys.len()];
            let oid = lemma_object_of(heaps[0], last, pool.uuid_lo, size, data_type, addr);
            assert(is_key_of(last, oid, ObjRawKey { addr: all[k] }));
        }
    }
    assert forall|i: int, j: int| 0 <= i < keys.len() && 0 <= j < pushed.len() implies keys[i]
        != pushed[j] by {
        let first = lemma_object_of(before, now, pool.uuid_lo, size, data_type, keys[i]);
        let second = lemma_object_of(heaps[0], last, pool.uuid_lo, size, data_type, pushed[j]);
        assert(now.objects.contains_key(first));
        assert(heaps[0].objects.contains_key(first));
        if keys[i] == pushed[j] {
            assert(last.covers(first, keys[i] as int));
            assert(last.covers(second, keys[i] as int));
        }
    }
}

/// The object of the address of a new key.
proof fn lemma_object_of(
    before: Heap,
    now: Heap,
    uuid_lo: u64,
    size: usize,
    data_type: u64,
    addr: u64,
) -> (oid: PMEMoid)
    requires
        is_new_key(before, now, uuid_lo, size, data_type, addr),
    ensures
        is_key_of(now, oid, ObjRawKey { addr }),
        !before.objects.contains_key(oid),
        oid.pool_uuid_lo == uuid_lo,
        now.objects[oid].size >= size,
        now.objects[oid].type_num == data_type,
        is_aligned(addr),
{
    choose|oid: PMEMoid| #[trigger]
        is_key_of(now, oid, ObjRawKey { addr }) && {
            &&& !before.objects.contains_key(oid)
            &&& oid.pool_uuid_lo == uuid_lo
            &&& now.objects[oid].size >= size
            &&& now.objects[oid].type_num == data_type
            &&& is_aligned(addr)
        }
}

/// Whether the first `n` calls of `trace` make `pool`, the making of which starts
/// at `open`, and the others allocate its first objects, which starts at `fill` and
/// ends with `result`.
pub open spec fn makes_and_fills<'a>(
    open: Progress<'a, OpenOp, Result<ObjPool, Error>>,
    obj_size: usize,
    data_type: u64,
    capacity: usize,
    initial: usize,
    trace: Seq<Exchange<'a>>,
    result: Result<Preallocated, Error>,
    n: int,
    pool: ObjPool,
    fill: Progress<'a, PreallocateOp, Result<Preallocated, Error>>,
) -> bool {
    &&& 0 <= n <= trace.len()
    &&& finishes(open, trace.take(n), Ok(pool))
    &&& starts_filling(pool, obj_size, data_type, capacity, initial, fill)
    &&& finishes(fill, trace.skip(n), result)
}

/// Whether `trace` makes a pool, which starts at `open`, and allocates its first
/// objects; or whether the making fails, the result is its error, and nothing else is
/// called.
pub open spec fn makes_filled<'a>(
    open: Progress<'a, OpenOp, Result<ObjPool, Error>>,
    obj_size: usize,
    data_type: u64,
    capacity: usize,
    initial: usize,
    trace: Seq<Exchange<'a>>,
    result: Result<Preallocated, Error>,
) -> bool {
    ||| (result is Err && finishes(open, trace, Err(result->Err_0)))
    ||| exists|
        n: int,
        pool: ObjPool,
        fill: Progress<'a, PreallocateOp, Result<Preallocated, Error>>,
    |
        makes_and_fills(
            open,
            obj_size,
            data_type,
            capacity,
            initial,
            trace,
            result,
            n,
            pool,
            fill,
        )
}

/// A pool that is made with objects in it is first made, as any other pool of that
/// size, and then filled. If the making fails, the result is its error and nothing
/// else is called.
pub proof fn law_with_initial_capacity<'a>(
    path: Option<Seq<char>>,
    layout: Option<Seq<char>>,
    obj_size: usize,
    data_type: u64,
    capacity: usize,
    initial: usize,
    start: Progress<'a, CapacityOp, Result<Preallocated, Error>>,
    trace: Seq<Exchange<'a>>,
    result: Result<Preallocated, Error>,
)
    requires
        starts_capacity(path, layout, obj_size, data_type, capacity, initial, start),
        finishes(start, trace, result),
    ensures
        exists|open: Progress<'a, OpenOp, Result<ObjPool, Error>>|
            starts_opening(
                path,
                layout,
                spec_pool_size(capacity as int, obj_size as int) as usize,
                open,
            ) && #[trigger] makes_filled(
                open,
                obj_size,
                data_type,
                capacity,
                initial,
                trace,
                result,
            ),
{
    let size = spec_pool_size(capacity as int, obj_size as int) as usize;
    let open = choose|open: Progress<'a, OpenOp, Result<ObjPool, Error>>| #[trigger]
        starts_opening(path, layout, size, open) && match open {
            Progress::Call(call, op) => start == Progress::<
                'a,
                CapacityOp,
                Result<Preallocated, Error>,
            >::Call(call, CapacityOp::Opening { op, obj_size, data_type, capacity, initial }),
            Progress::Done(Err(error)) => start == Progress::<
                'a,
                CapacityOp,
                Result<Preallocated, Error>,
            >::Done(Err(error)),
            Progress::Done(Ok(_)) => false,
        };
    if let Progress::Call(call, op) = open {
        lemma_opening(call, op, obj_size, data_type, capacity, initial, trace, result);
    }
    assert(makes_filled(open, obj_size, data_type, capacity, initial, trace, result));
}

/// A pool that was made with the first of its objects has a queue with the key of each of
/// them and with room for all, and the others are left to be allocated in the background.
/// The two parts never have more keys than there is room for, and together as many if
/// nothing stops the second.
pub proof fn law_with_initial_capacity_keys<'a>(
    path: Option<Seq<char>>,
    layout: Option<Seq<char>>,
    obj_size: usize,
    data_type: u64,
    capacity: usize,
    initial: usize,
    start: Progress<'a, CapacityOp, Result<Preallocated, Error>>,
    trace: Seq<Exchange<'a>>,
    done: Preallocated,
    later_trace: Seq<Exchange<'a>>,
    later: Result<(), Error>,
)
    requires
        starts_capacity(path, layout, obj_size, data_type, capacity, initial, start),
        finishes(start, trace, Ok(done)),
    ensures
        queue_capacity(done.queue) == capacity,
        queued(done.queue).len() == at_once(capacity, initial),
        queued(done.queue).len() + done.deferred == capacity,
        finishes(
            FillOp::starts(done.pool.inner, obj_size, data_type, done.deferred),
            later_trace,
            later,
        ) ==> {
            &&& queued(done.queue).len() + pushed_keys(later_trace).len() <= capacity
            &&& all_goes_well(later_trace, capacity - queued(done.queue).len()) ==> {
                &&& later == Ok::<(), Error>(())
                &&& queued(done.queue).len() + pushed_keys(later_trace).len() == capacity
            }
        },
{
    let (open, n, pool, fill) = lemma_made(
        path,
        layout,
        obj_size,
        data_type,
        capacity,
        initial,
        start,
        trace,
        done,
    );
    let rest = trace.skip(n);
    law_preallocate(pool, obj_size, data_type, capacity, initial, fill, rest, Ok(done));
    if finishes(
        FillOp::starts(done.pool.inner, obj_size, data_type, done.deferred),
        later_trace,
        later,
    ) {
        law_deferred_total(
            pool,
            obj_size,
            data_type,
            capacity,
            initial,
            fill,
            rest,
            done,
            later_trace,
            later,
        );
    }
}

/// The two parts of the making of a pool with objects in it.
proof fn lemma_made<'a>(
    path: Option<Seq<char>>,
    layout: Option<Seq<char>>,
    obj_size: usize,
    data_type: u64,
    capacity: usize,
    initial: usize,
    start: Progress<'a, CapacityOp, Result<Preallocated, Error>>,
    trace: Seq<Exchange<'a>>,
    done: Preallocated,
) -> (parts: (
    Progress<'a, OpenOp, Result<ObjPool, Error>>,
    int,
    ObjPool,
    Progress<'a, PreallocateOp, Result<Preallocated, Error>>,
))
    requires
        starts_capacity(path, layout, obj_size, data_type, capacity, initial, start),
        finishes(start, trace, Ok(done)),
    ensures
        starts_opening(
            path,
            layout,
            spec_pool_size(capacity as int, obj_size as int) as usize,
            parts.0,
        ),
        makes_and_fills(
            parts.0,
            obj_size,
            data_type,
            capacity,
            initial,
            trace,
            Ok(done),
            parts.1,
            parts.2,
            parts.3,
        ),
{
    law_with_initial_capacity(
        path,
        layout,
        obj_size,
        data_type,
        capacity,
        initial,
        start,
        trace,
        Ok(done),
    );
    let open = choose|open: Progress<'a, OpenOp, Result<ObjPool, Error>>|
        starts_opening(
            path,
            layout,
            spec_pool_size(capacity as int, obj_size as int) as usize,
            open,
        ) && #[trigger] makes_filled(
            open,
            obj_size,
            data_type,
            capacity,
            initial,
            trace,
            Ok(done),
        );
    let (n, pool, fill) = choose|
        n: int,
        pool: ObjPool,
        fill: Progress<'a, PreallocateOp, Result<Preallocated, Error>>,
    |
        makes_and_fills(
            open,
            obj_size,
            data_type,
            capacity,
            initial,
            trace,
            Ok(done),
            n,
            pool,
            fill,
        );
    (open, n, pool, fill)
}

/// What serves a run serves its first `n` calls and the others.
proof fn lemma_served_parts<'a>(heaps: Seq<Heap>, trace: Seq<Exchange<'a>>, n: int)
    requires
        served(heaps, trace),
        0 <= n <= trace.len(),
    ensures
        served(heaps.take(n + 1), trace.take(n)),
        served(heaps.skip(n), trace.skip(n)),
{
    let making = heaps.take(n + 1);
    let filling = heaps.skip(n);
    let made = trace.take(n);
    let filled = trace.skip(n);
    assert forall|i: int| 0 <= i < made.len() implies #[trigger] step_served(making, made, i) by {
        assert(step_served(heaps, trace, i));
    }
    assert forall|i: int| 0 <= i < filled.len() implies #[trigger] step_served(
        filling,
        filled,
        i,
    ) by {
        assert(step_served(heaps, trace, n + i));
    }
}

/// The keys that are in the queue of a pool that was made with objects in it are all
/// different, and each is the key of a new object of the pool that can hold `obj_size`
/// bytes, carries the type number, and is aligned. The pool is open, the objects that were
/// there before are unchanged, and no other object was added.
pub proof fn law_with_initial_capacity_objects<'a>(
    path: Option<Seq<char>>,
    layout: Option<Seq<char>>,
    obj_size: usize,
    data_type: u64,
    capacity: usize,
    initial: usize,
    start: Progress<'a, CapacityOp, Result<Preallocated, Error>>,
    heaps: Seq<Heap>,
    trace: Seq<Exchange<'a>>,
    done: Preallocated,
)
    requires
        heaps[0].valid(),
        starts_capacity(path, layout, obj_size, data_type, capacity, initial, start),
        finishes(start, trace, Ok(done)),
        served(heaps, trace),
    ensures
        heaps.last().valid(),
        heaps.last().has_open(done.pool),
        heaps[0].kept_in(heaps.last()),
        are_new_keys(
            heaps[0],
            heaps.last(),
            done.pool.uuid_lo,
            obj_size,
            data_type,
            queued(done.queue),
        ),
        forall|oid: PMEMoid| #[trigger]
            heaps.last().objects.contains_key(oid) ==> heaps[0].objects.contains_key(oid)
                || has_key_in(heaps.last(), oid, queued(done.queue)),
{
    let (open, n, pool, fill) = lemma_made(
        path,
        layout,
        obj_size,
        data_type,
        capacity,
        initial,
        start,
        trace,
        done,
    );
    let size = spec_pool_size(capacity as int, obj_size as int) as usize;
    let making = heaps.take(n + 1);
    let filling = heaps.skip(n);
    let made = trace.take(n);
    let filled = trace.skip(n);
    lemma_served_parts(heaps, trace, n);
    law_open(path, layout, size, open, making, made, pool);
    law_preallocate(pool, obj_size, data_type, capacity, initial, fill, filled, Ok(done));
    law_preallocated_objects(
        pool,
        obj_size,
        data_type,
        capacity,
        initial,
        fill,
        filling,
        filled,
        done,
    );
    let keys = queued(done.queue);
    let first = heaps[0];
    let last = heaps.last();
    lemma_new_keys(pool.inner, obj_size, data_type, filling, filled, keys, keys.len() as int);
    assert(filling.last() == last);
    assert(filling[0] == making.last());
    assert forall|oid: PMEMoid| #[trigger] first.objects.contains_key(oid) implies {
        &&& last.objects.contains_key(oid)
        &&& last.objects[oid] == first.objects[oid]
        &&& last.content(oid) == first.content(oid)
    } by {
        assert(filling[0].objects.contains_key(oid));
    }
    assert forall|k: int| 0 <= k < keys.len() implies is_new_key(
        first,
        last,
        pool.uuid_lo,
        obj_size,
        data_type,
        #[trigger] keys[k],
    ) by {
        let oid = lemma_object_of(
            filling[0],
            last,
            pool.uuid_lo,
            obj_size,
            data_type,
            keys[k],
        );
        assert(is_key_of(last, oid, ObjRawKey { addr: keys[k] }));
    }
}

/// The keys that are in the queue of a pool that was made with the first of its objects,
/// and those that the allocation of the others pushes later, are all different, and each
/// is the key of a new object of the pool that can hold `obj_size` bytes, carries the type
/// number, and is aligned. This holds while others use the pools too, as long as they
/// remove no object and close no pool.
pub proof fn law_with_initial_capacity_deferred<'a>(
    path: Option<Seq<char>>,
    layout: Option<Seq<char>>,
    obj_size: usize,
    data_type: u64,
    capacity: usize,
    initial: usize,
    start: Progress<'a, CapacityOp, Result<Preallocated, Error>>,
    heaps: Seq<Heap>,
    trace: Seq<Exchange<'a>>,
    done: Preallocated,
    later_heaps: Seq<Heap>,
    later_trace: Seq<Exchange<'a>>,
    later: Result<(), Error>,
)
    requires
        heaps[0].valid(),
        starts_capacity(path, layout, obj_size, data_type, capacity, initial, start),
        finishes(start, trace, Ok(done)),
        served(heaps, trace),
        heaps.last().shared_into(later_heaps[0]),
        finishes(
            FillOp::starts(done.pool.inner, obj_size, data_type, done.deferred),
            later_trace,
            later,
        ),
        served_among(later_heaps, later_trace),
    ensures
        are_new_keys(
            heaps[0],
            later_heaps.last(),
            done.pool.uuid_lo,
            obj_size,
            data_type,
            queued(done.queue) + pushed_keys(later_trace),
        ),
        heaps[0].present_in(later_heaps.last()),
{
    law_with_initial_capacity_objects(
        path,
        layout,
        obj_size,
        data_type,
        capacity,
        initial,
        start,
        heaps,
        trace,
        done,
    );
    lemma_joined_keys(
        done.pool,
        obj_size,
        data_type,
        heaps[0],
        heaps.last(),
        queued(done.queue),
        done.deferred,
        later_heaps,
        later_trace,
        later,
    );
}

/// A walk over a pool that was made with objects in it gives exactly the keys that are in
/// the queue, each once, as long as no other object was added or removed since.
pub proof fn law_with_initial_capacity_walk<'a>(
    path: Option<Seq<char>>,
    layout: Option<Seq<char>>,
    obj_size: usize,
    data_type: u64,
    capacity: usize,
    initial: usize,
    start: Progress<'a, CapacityOp, Result<Preallocated, Error>>,
    heaps: Seq<Heap>,
    trace: Seq<Exchange<'a>>,
    done: Preallocated,
    heap: Heap,
    iter_trace: Seq<Exchange<'a>>,
    iter: ObjPoolIter,
    traces: Seq<Seq<Exchange<'a>>>,
    keys: Seq<u64>,
)
    requires
        heaps[0].valid(),
        starts_capacity(path, layout, obj_size, data_type, capacity, initial, start),
        finishes(start, trace, Ok(done)),
        served(heaps, trace),
        heap.valid(),
        heap.has_open(done.pool),
        heap.objects == heaps.last().objects,
        finishes(done.pool.spec_iter(), iter_trace, iter),
        served_on(heap, iter_trace),
        walks(iter, heap, traces, keys),
    ensures
        keys.no_duplicates(),
        forall|addr: u64| #[trigger]
            keys.contains(addr) <==> queued(done.queue).contains(addr),
        keys.len() == at_once(capacity, initial),
{
    let (open, n, pool, fill) = lemma_made(
        path,
        layout,
        obj_size,
        data_type,
        capacity,
        initial,
        start,
        trace,
        done,
    );
    let size = spec_pool_size(capacity as int, obj_size as int) as usize;
    let making = heaps.take(n + 1);
    let filling = heaps.skip(n);
    let made = trace.take(n);
    let filled = trace.skip(n);
    lemma_served_parts(heaps, trace, n);
    law_open(path, layout, size, open, making, made, pool);
    law_preallocate(pool, obj_size, data_type, capacity, initial, fill, filled, Ok(done));
    law_preallocated_walk(
        pool,
        obj_size,
        data_type,
        capacity,
        initial,
        fill,
        filling,
        filled,
        done,
        heap,
        iter_trace,
        iter,
        traces,
        keys,
    );
}

/// A pool that was made with all its objects has a full queue, with the key of each of
/// them, and nothing is left to be allocated in the background.
pub proof fn law_with_capacity<'a>(
    path: Option<Seq<char>>,
    layout: Option<Seq<char>>,
    obj_size: usize,
    data_type: u64,
    capacity: usize,
    start: Progress<'a, CapacityOp, Result<Preallocated, Error>>,
    trace: Seq<Exchange<'a>>,
    done: Preallocated,
)
    requires
        starts_capacity(path, layout, obj_size, data_type, capacity, capacity, start),
        finishes(start, trace, Ok(done)),
    ensures
        queue_capacity(done.queue) == capacity,
        queued(done.queue).len() == capacity,
        done.deferred == 0,
{
    law_with_initial_capacity_keys(
        path,
        layout,
        obj_size,
        data_type,
        capacity,
        capacity,
        start,
        trace,
        done,
        Seq::empty(),
        Ok(()),
    );
}

/// The law above, for a making of a pool that waits for the reply to a call.
proof fn lemma_opening<'a>(
    call: Call<'a>,
    op: OpenOp,
    obj_size: usize,
    data_type: u64,
    capacity: usize,
    initial: usize,
    trace: Seq<Exchange<'a>>,
    result: Result<Preallocated, Error>,
)
    requires
        finishes(
            Progress::Call(
                call,
                CapacityOp::Opening { op, obj_size, data_type, capacity, initial },
            ),
            trace,
            result,
        ),
    ensures
        makes_filled(
            Progress::Call(call, op),
            obj_size,
            data_type,
            capacity,
            initial,
            trace,
            result,
        ),
    decreases trace.len(),
{
    let open = Progress::<'a, OpenOp, Result<ObjPool, Error>>::Call(call, op);
    let opening = CapacityOp::Opening { op, obj_size, data_type, capacity, initial };
    let reply = trace[0].1;
    let rest = trace.drop_first();
    let next = choose|next: Progress<'a, CapacityOp, Result<Preallocated, Error>>| #[trigger]
        opening.leads_to(reply, next) && finishes(next, rest, result);
    let after = op.after::<'a>(reply);
    assert(op.leads_to(reply, after));
    match after {
        Progress::Call(next_call, next_op) => {
            lemma_opening(
                next_call,
                next_op,
                obj_size,
                data_type,
                capacity,
                initial,
                rest,
                result,
            );
            if result is Err && finishes(after, rest, Err(result->Err_0)) {
                lemma_finishes_step(open, after, trace, Err(result->Err_0));
            } else {
                let (n, pool, fill) = choose|
                    n: int,
                    pool: ObjPool,
                    fill: Progress<'a, PreallocateOp, Result<Preallocated, Error>>,
                |
                    makes_and_fills(
                        after,
                        obj_size,
                        data_type,
                        capacity,
                        initial,
                        rest,
                        result,
                        n,
                        pool,
                        fill,
                    );
                assert(trace.take(n + 1).drop_first() =~= rest.take(n));
                assert(rest.skip(n) =~= trace.skip(n + 1));
                lemma_finishes_step(open, after, trace.take(n + 1), Ok(pool));
                assert(makes_and_fills(
                    open,
                    obj_size,
                    data_type,
                    capacity,
                    initial,
                    trace,
                    result,
                    n + 1,
                    pool,
                    fill,
                ));
            }
        },
        Progress::Done(Ok(pool)) => {
            let fill = choose|fill: Progress<'a, PreallocateOp, Result<Preallocated, Error>>|
                #[trigger]
                starts_filling(pool, obj_size, data_type, capacity, initial, fill) && next
                    == CapacityOp::filling(fill);
            lemma_filling(fill, rest, result);
            assert(trace.take(1).drop_first() =~= Seq::<Exchange<'a>>::empty());
            assert(finishes(after, trace.take(1).drop_first(), Ok(pool)));
            lemma_finishes_step(open, after, trace.take(1), Ok(pool));
            assert(rest =~= trace.skip(1));
            assert(makes_and_fills(
                open,
                obj_size,
                data_type,
                capacity,
                initial,
                trace,
                result,
                1,
                pool,
                fill,
            ));
        },
        Progress::Done(Err(error)) => {
            lemma_finishes_step(open, after, trace, Err(error));
        },
    }
}

/// As the second part of the making of a pool with objects in it, the allocation of
/// the objects makes the same calls and has the same result.
proof fn lemma_filling<'a>(
    fill: Progress<'a, PreallocateOp, Result<Preallocated, Error>>,
    trace: Seq<Exchange<'a>>,
    result: Result<Preallocated, Error>,
)
    requires
        finishes(CapacityOp::filling(fill), trace, result),
    ensures
        finishes(fill, trace, result),
    decreases trace.len(),
{
    if let Progress::Call(call, op) = fill {
        let filling = CapacityOp::Filling { op };
        let next = choose|next: Progress<'a, CapacityOp, Result<Preallocated, Error>>| #[trigger]
            filling.leads_to(trace[0].1, next) && finishes(next, trace.drop_first(), result);
        let after = choose|after: Progress<'a, PreallocateOp, Result<Preallocated, Error>>|
            #[trigger]
            op.leads_to(trace[0].1, after) && next == CapacityOp::filling(after);
        lemma_filling(after, trace.drop_first(), result);
    }
}

} // verus!
