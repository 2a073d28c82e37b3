//! What the allocation of objects in advance does, from its first call to its result.

use vstd::prelude::*;

use crossbeam_queue::ArrayQueue;

use crate::call::{
    finishes, lemma_finishes_step, reaches, Call, Exchange, Operation, Progress,
};
use crate::capacity::{
    at_once, is_fresh, pushed, starts_capacity, starts_filling, CapacityOp, FillOp,
    PreallocateOp, Preallocated,
};
use crate::capacity_laws::{
    allocates, fails_and_closes, law_preallocate, law_with_initial_capacity, makes_and_fills,
    makes_filled,
};
use crate::error::{Error, ErrorKind};
use crate::key::ObjRawKey;
use crate::laws::{law_drop_calls, law_open_calls};
use crate::pool::{chars, spec_pool_size, starts_opening, ObjPool, OpenOp};
use crate::queue::{queue_capacity, queued};

verus! {

/// Whether `trace` and `result` are those of an allocation of `n` objects in advance, of
/// `capacity`: the objects are allocated one after the other, and their addresses are what
/// the queue then holds, in this order, while the rest is left for later. It succeeds if
/// and only if every allocation does. After one that does not, the pool is closed, its file
/// is removed if that was asked for, and nothing else is called.
pub open spec fn preallocates<'a>(
    pool: ObjPool,
    obj_size: usize,
    data_type: u64,
    capacity: usize,
    n: int,
    trace: Seq<Exchange<'a>>,
    result: Result<Preallocated, Error>,
) -> bool {
    &&& result is Ok <==> forall|i: int|
        0 <= i < trace.len() && (#[trigger] trace[i]).0 is Alloc
            ==> trace[i].1->Allocated_status == 0
    &&& result matches Ok(done) ==> {
        &&& done.pool == pool
        &&& queue_capacity(done.queue) == capacity
        &&& queued(done.queue).len() == n
        &&& done.deferred == capacity - n
        &&& trace.len() == 2 * n
        &&& forall|i: int|
            0 <= i < trace.len() && i % 2 == 0 ==> (#[trigger] trace[i]).0 == (Call::Alloc {
                pool: pool.inner,
                size: obj_size,
                type_num: data_type,
            })
        &&& forall|i: int, j: int|
            0 <= i < trace.len() && i % 2 == 0 && j == i + 1 ==> {
                &&& (#[trigger] trace[j]).0 == (Call::Direct {
                    oid: (#[trigger] trace[i]).1->oid,
                })
                &&& trace[j].1->Address_0 == queued(done.queue)[i / 2]
            }
    }
    &&& result matches Err(error) ==> {
        &&& error.kind == ErrorKind::ObjError
        &&& exists|m: int|
            0 <= m < 2 * n && m % 2 == 0 && (#[trigger] trace[m]).1->Allocated_status != 0
                && trace.len() == m + if pool.rm_on_drop {
                3int
            } else {
                2
            } && trace[m + 1].0 == (Call::Close { pool: pool.inner }) && (pool.rm_on_drop
                ==> trace[m + 2].0 == (Call::Remove { path: pool.inner_path, flags: 0 })) && (
            forall|i: int|
                0 <= i <= m && i % 2 == 0 ==> (#[trigger] trace[i]).0 == (Call::Alloc {
                    pool: pool.inner,
                    size: obj_size,
                    type_num: data_type,
                })) && (forall|i: int, j: int|
                0 <= i < m && i % 2 == 0 && j == i + 1 ==> (#[trigger] trace[j]).0
                    == (Call::Direct { oid: (#[trigger] trace[i]).1->oid }))
    }
}

/// The allocation of objects in advance allocates as many as are asked for at once, or as
/// many as the capacity if that is smaller.
pub proof fn law_run_preallocate<'a>(
    pool: ObjPool,
    obj_size: usize,
    data_type: u64,
    capacity: usize,
    initial: usize,
    start: Progress<'a, PreallocateOp, Result<Preallocated, Error>>,
    trace: Seq<Exchange<'a>>,
    result: Result<Preallocated, Error>,
)
    requires
        call_ensures(
            ObjPool::set_initial_capacity,
            (pool, obj_size, data_type, capacity, initial),
            start,
        ),
        finishes(start, trace, result),
    ensures
        initial <= capacity ==> preallocates(
            pool,
            obj_size,
            data_type,
            capacity,
            initial as int,
            trace,
            result,
        ),
        initial >= capacity ==> preallocates(
            pool,
            obj_size,
            data_type,
            capacity,
            capacity as int,
            trace,
            result,
        ),
        result matches Ok(done) ==> {
            &&& initial <= capacity ==> queued(done.queue).len() == initial
            &&& initial >= capacity ==> queued(done.queue).len() == capacity
            &&& done.deferred == capacity - queued(done.queue).len()
        },
{
    let n = if initial <= capacity {
        initial
    } else {
        capacity
    };
    lemma_preallocates(pool, obj_size, data_type, capacity, initial, n, start, trace, result);
}

/// The allocation of all objects in advance leaves none for later.
pub proof fn law_run_set_capacity<'a>(
    pool: ObjPool,
    obj_size: usize,
    data_type: u64,
    capacity: usize,
    start: Progress<'a, PreallocateOp, Result<Preallocated, Error>>,
    trace: Seq<Exchange<'a>>,
    result: Result<Preallocated, Error>,
)
    requires
        call_ensures(ObjPool::set_capacity, (pool, obj_size, data_type, capacity), start),
        finishes(start, trace, result),
    ensures
        preallocates(pool, obj_size, data_type, capacity, capacity as int, trace, result),
        result matches Ok(done) ==> queued(done.queue).len() == capacity && done.deferred == 0,
{
    lemma_preallocates(
        pool,
        obj_size,
        data_type,
        capacity,
        capacity,
        capacity,
        start,
        trace,
        result,
    );
}

proof fn lemma_preallocates<'a>(
    pool: ObjPool,
    obj_size: usize,
    data_type: u64,
    capacity: usize,
    initial: usize,
    n: usize,
    start: Progress<'a, PreallocateOp, Result<Preallocated, Error>>,
    trace: Seq<Exchange<'a>>,
    result: Result<Preallocated, Error>,
)
    requires
        starts_filling(pool, obj_size, data_type, capacity, initial, start),
        initial <= capacity ==> n == initial,
        initial > capacity ==> n == capacity,
        finishes(start, trace, result),
    ensures
        preallocates(pool, obj_size, data_type, capacity, n as int, trace, result),
{
    match result {
        Ok(done) => {
            lemma_preallocated(
                pool,
                obj_size,
                data_type,
                capacity,
                initial,
                n,
                start,
                trace,
                done,
            );
        },
        Err(error) => {
            lemma_not_preallocated(
                pool,
                obj_size,
                data_type,
                capacity,
                initial,
                n,
                start,
                trace,
                error,
            );
        },
    }
}

proof fn lemma_preallocated<'a>(
    pool: ObjPool,
    obj_size: usize,
    data_type: u64,
    capacity: usize,
    initial: usize,
    n: usize,
    start: Progress<'a, PreallocateOp, Result<Preallocated, Error>>,
    trace: Seq<Exchange<'a>>,
    done: Preallocated,
)
    requires
        starts_filling(pool, obj_size, data_type, capacity, initial, start),
        initial <= capacity ==> n == initial,
        initial > capacity ==> n == capacity,
        finishes(start, trace, Ok(done)),
    ensures
        preallocates(pool, obj_size, data_type, capacity, n as int, trace, Ok(done)),
{
    law_preallocate(pool, obj_size, data_type, capacity, initial, start, trace, Ok(done));
    assert forall|i: int| 0 <= i < trace.len() && i % 2 == 0 implies (#[trigger] trace[i]).0
        == (Call::Alloc { pool: pool.inner, size: obj_size, type_num: data_type })
        && trace[i].1->Allocated_status == 0 by {
        assert(allocates(pool.inner, obj_size, data_type, trace, i / 2));
    }
    assert forall|i: int, j: int|
        0 <= i < trace.len() && i % 2 == 0 && j == i + 1 implies (#[trigger] trace[j]).0
        == (Call::Direct { oid: (#[trigger] trace[i]).1->oid }) && trace[j].1->Address_0
        == queued(done.queue)[i / 2] by {
        assert(allocates(pool.inner, obj_size, data_type, trace, i / 2));
    }
    assert forall|i: int| 0 <= i < trace.len() && (#[trigger] trace[i]).0 is Alloc implies {
        trace[i].1->Allocated_status == 0
    } by {
        if i % 2 == 1 {
            let before = trace[i - 1];
            assert(trace[i].0 is Direct);
        }
    }
}

proof fn lemma_not_preallocated<'a>(
    pool: ObjPool,
    obj_size: usize,
    data_type: u64,
    capacity: usize,
    initial: usize,
    n: usize,
    start: Progress<'a, PreallocateOp, Result<Preallocated, Error>>,
    trace: Seq<Exchange<'a>>,
    error: Error,
)
    requires
        starts_filling(pool, obj_size, data_type, capacity, initial, start),
        initial <= capacity ==> n == initial,
        initial > capacity ==> n == capacity,
        finishes(start, trace, Err(error)),
    ensures
        preallocates(pool, obj_size, data_type, capacity, n as int, trace, Err(error)),
{
    law_preallocate(pool, obj_size, data_type, capacity, initial, start, trace, Err(error));
    let k = choose|k: int|
        fails_and_closes(pool, obj_size, data_type, n as int, trace, k);
    let m = 2 * k;
    law_drop_calls(pool, trace.skip(m + 1));
    assert forall|i: int| 0 <= i <= m && i % 2 == 0 implies (#[trigger] trace[i]).0
        == (Call::Alloc { pool: pool.inner, size: obj_size, type_num: data_type }) by {
        if i < m {
            assert(allocates(pool.inner, obj_size, data_type, trace, i / 2));
        }
    }
    assert forall|i: int, j: int|
        0 <= i < m && i % 2 == 0 && j == i + 1 implies (#[trigger] trace[j]).0
        == (Call::Direct { oid: (#[trigger] trace[i]).1->oid }) by {
        assert(allocates(pool.inner, obj_size, data_type, trace, i / 2));
    }
    assert(trace[m].0 is Alloc);
    assert(trace[m].1->Allocated_status != 0);
    assert(trace.skip(m + 1)[0] == trace[m + 1]);
    if pool.rm_on_drop {
        assert(trace.skip(m + 1)[1] == trace[m + 2]);
    }
}

/// The allocation of objects in advance ends: whatever the replies are, it makes at most
/// two calls for each object that is allocated at once, and two more.
pub proof fn law_preallocate_ends<'a>(
    pool: ObjPool,
    obj_size: usize,
    data_type: u64,
    capacity: usize,
    initial: usize,
    start: Progress<'a, PreallocateOp, Result<Preallocated, Error>>,
    trace: Seq<Exchange<'a>>,
    end: Progress<'a, PreallocateOp, Result<Preallocated, Error>>,
)
    requires
        call_ensures(
            ObjPool::set_initial_capacity,
            (pool, obj_size, data_type, capacity, initial),
            start,
        ) || (initial == capacity && call_ensures(
            ObjPool::set_capacity,
            (pool, obj_size, data_type, capacity),
            start,
        )),
        reaches(start, trace, end),
    ensures
        trace.len() <= 2 * initial + 2,
        trace.len() <= 2 * capacity + 2,
{
    lemma_filling_ends(pool, obj_size, data_type, capacity, initial, start, trace, end);
}

proof fn lemma_filling_ends<'a>(
    pool: ObjPool,
    obj_size: usize,
    data_type: u64,
    capacity: usize,
    initial: usize,
    start: Progress<'a, PreallocateOp, Result<Preallocated, Error>>,
    trace: Seq<Exchange<'a>>,
    end: Progress<'a, PreallocateOp, Result<Preallocated, Error>>,
)
    requires
        starts_filling(pool, obj_size, data_type, capacity, initial, start),
        reaches(start, trace, end),
    ensures
        trace.len() <= 2 * initial + 2,
        trace.len() <= 2 * capacity + 2,
{
    let left = at_once(capacity, initial);
    let deferred = (capacity - left) as usize;
    let queue = choose|queue: ArrayQueue<ObjRawKey>| #[trigger]
        is_fresh(queue, capacity) && start == PreallocateOp::goes_on(
            pool,
            queue,
            obj_size,
            data_type,
            left,
            deferred,
        );
    lemma_goes_on_ends(pool, queue, obj_size, data_type, left, deferred, trace, end);
}

/// Each object takes at most two calls, and the closing of the pool two.
proof fn lemma_goes_on_ends<'a>(
    pool: ObjPool,
    queue: ArrayQueue<ObjRawKey>,
    size: usize,
    data_type: u64,
    left: usize,
    deferred: usize,
    trace: Seq<Exchange<'a>>,
    end: Progress<'a, PreallocateOp, Result<Preallocated, Error>>,
)
    requires
        reaches(
            PreallocateOp::goes_on(pool, queue, size, data_type, left, deferred),
            trace,
            end,
        ),
    ensures
        trace.len() <= 2 * left + 2,
    decreases left,
{
    let start = PreallocateOp::goes_on::<'a>(pool, queue, size, data_type, left, deferred);
    if left > 0 && trace.len() > 2 {
        let op = start->Call_1;
        let rest = trace.drop_first();
        let next = choose|next: Progress<'a, PreallocateOp, Result<Preallocated, Error>>| #[trigger]
            op.leads_to(trace[0].1, next) && reaches(next, rest, end);
        if trace[0].1->Allocated_status == 0 {
            let op = next->Call_1;
            let tail = rest.drop_first();
            let after = choose|
                after: Progress<'a, PreallocateOp, Result<Preallocated, Error>>,
            | #[trigger]
                op.leads_to(rest[0].1, after) && reaches(after, tail, end);
            let key = ObjRawKey { addr: rest[0].1->Address_0 };
            let fewer = (left - 1) as usize;
            let longer = choose|longer: ArrayQueue<ObjRawKey>| #[trigger]
                pushed(queue, longer, key) && after == PreallocateOp::goes_on(
                    pool,
                    longer,
                    size,
                    data_type,
                    fewer,
                    deferred,
                );
            lemma_goes_on_ends(pool, longer, size, data_type, fewer, deferred, tail, end);
        } else {
            reveal_with_fuel(reaches, 4);
        }
    }
}

/// Whether `trace` and `result` are those of an allocation of `n` objects for a queue that
/// others hold too. It goes in rounds: whether the queue is abandoned is asked, an object is
/// allocated, its address is asked for, and the key of this address is pushed. After `n`
/// rounds, or at an abandoned queue, it ends well. At an object that is not allocated, or a
/// key that is not taken, it fails, each with its own error. Nothing is called after that.
pub open spec fn fills<'a>(
    pool: u64,
    size: usize,
    data_type: u64,
    n: int,
    trace: Seq<Exchange<'a>>,
    result: Result<(), Error>,
) -> bool {
    &&& trace.len() <= 4 * n
    &&& forall|i: int|
        0 <= i < trace.len() ==> (#[trigger] trace[i]).0.answered_by(trace[i].1) && {
            &&& i % 4 == 0 ==> trace[i].0 == Call::QueueAbandoned
            &&& i % 4 == 1 ==> trace[i].0 == (Call::Alloc { pool, size, type_num: data_type })
            &&& i < trace.len() - 1 ==> {
                &&& i % 4 == 0 ==> !trace[i].1->Answer_0
                &&& i % 4 == 1 ==> trace[i].1->Allocated_status == 0
                &&& i % 4 == 3 ==> trace[i].1->Answer_0
            }
        }
    &&& forall|i: int, j: int|
        0 <= i && j == i + 1 && j < trace.len() ==> {
            &&& i % 4 == 1 ==> (#[trigger] trace[j]).0 == (Call::Direct {
                oid: (#[trigger] trace[i]).1->oid,
            })
            &&& i % 4 == 2 ==> trace[j].0 == (Call::Push {
                key: ObjRawKey { addr: trace[i].1->Address_0 },
            })
        }
    &&& if trace.len() == 0 {
        n == 0 && result == Ok::<(), Error>(())
    } else if trace.len() % 4 == 1 {
        trace.last().1->Answer_0 && result == Ok::<(), Error>(())
    } else if trace.len() % 4 == 2 {
        &&& trace.last().1->Allocated_status != 0
        &&& result == Err::<(), Error>(Error { kind: ErrorKind::ObjError })
    } else if trace.len() % 4 == 0 && trace.last().1->Answer_0 {
        trace.len() == 4 * n && result == Ok::<(), Error>(())
    } else {
        &&& trace.len() % 4 == 0
        &&& result == Err::<(), Error>(Error { kind: ErrorKind::PmdkNoSpaceInQueueError })
    }
}

/// The allocation of several objects goes in rounds, one for each object, and in no other
/// way. Every reply of the right kind leads on.
pub proof fn law_run_alloc_multi<'a>(
    pool: ObjPool,
    size: usize,
    data_type: u64,
    nobjects: usize,
    start: Progress<'a, FillOp, Result<(), Error>>,
    trace: Seq<Exchange<'a>>,
    result: Result<(), Error>,
)
    requires
        call_ensures(ObjPool::alloc_multi, (&pool, size, data_type, nobjects), start),
    ensures
        finishes(start, trace, result) <==> fills(
            pool.inner,
            size,
            data_type,
            nobjects as int,
            trace,
            result,
        ),
{
    if finishes(start, trace, result) {
        lemma_fills(pool.inner, size, data_type, nobjects, trace, result);
    }
    if fills(pool.inner, size, data_type, nobjects as int, trace, result) {
        lemma_fills_finishes(pool.inner, size, data_type, nobjects, trace, result);
    }
}

proof fn lemma_fills<'a>(
    pool: u64,
    size: usize,
    data_type: u64,
    n: usize,
    trace: Seq<Exchange<'a>>,
    result: Result<(), Error>,
)
    requires
        finishes(FillOp::starts(pool, size, data_type, n), trace, result),
    ensures
        fills(pool, size, data_type, n as int, trace, result),
    decreases n,
{
    reveal_with_fuel(finishes, 5);
    if n > 0 && !trace[0].1->Answer_0 && trace[1].1->Allocated_status == 0
        && trace[3].1->Answer_0 {
        let tail = trace.drop_first().drop_first().drop_first().drop_first();
        assert(tail =~= trace.skip(4));
        let fewer = (n - 1) as usize;
        lemma_fills(pool, size, data_type, fewer, tail, result);
        lemma_one_round_more(pool, size, data_type, fewer, trace, result);
    }
}

/// A round before a run is a longer run.
proof fn lemma_one_round_more<'a>(
    pool: u64,
    size: usize,
    data_type: u64,
    fewer: usize,
    trace: Seq<Exchange<'a>>,
    result: Result<(), Error>,
)
    requires
        trace.len() >= 4,
        fills(pool, size, data_type, fewer as int, trace.skip(4), result),
        forall|i: int| 0 <= i < 4 ==> (#[trigger] trace[i]).0.answered_by(trace[i].1),
        trace[0].0 == Call::QueueAbandoned,
        !trace[0].1->Answer_0,
        trace[1].0 == (Call::Alloc { pool, size, type_num: data_type }),
        trace[1].1->Allocated_status == 0,
        trace[2].0 == (Call::Direct { oid: trace[1].1->oid }),
        trace[3].0 == (Call::Push { key: ObjRawKey { addr: trace[2].1->Address_0 } }),
        trace[3].1->Answer_0,
    ensures
        fills(pool, size, data_type, fewer + 1, trace, result),
{
    let tail = trace.skip(4);
    assert forall|i: int| 0 <= i < trace.len() implies (#[trigger] trace[i]).0.answered_by(
        trace[i].1,
    ) && {
        &&& i % 4 == 0 ==> trace[i].0 == Call::QueueAbandoned
        &&& i % 4 == 1 ==> trace[i].0 == (Call::Alloc { pool, size, type_num: data_type })
        &&& i < trace.len() - 1 ==> {
            &&& i % 4 == 0 ==> !trace[i].1->Answer_0
            &&& i % 4 == 1 ==> trace[i].1->Allocated_status == 0
            &&& i % 4 == 3 ==> trace[i].1->Answer_0
        }
    } by {
        if i >= 4 {
            assert(tail[i - 4] == trace[i]);
        }
    }
    assert forall|i: int, j: int| 0 <= i && j == i + 1 && j < trace.len() implies {
        &&& i % 4 == 1 ==> (#[trigger] trace[j]).0 == (Call::Direct {
            oid: (#[trigger] trace[i]).1->oid,
        })
        &&& i % 4 == 2 ==> trace[j].0 == (Call::Push {
            key: ObjRawKey { addr: trace[i].1->Address_0 },
        })
    } by {
        if i >= 4 {
            assert(tail[i - 4] == trace[i]);
            assert(tail[j - 4] == trace[j]);
        }
    }
    if tail.len() > 0 {
        assert(tail.last() == trace.last());
    }
}

proof fn lemma_fills_finishes<'a>(
    pool: u64,
    size: usize,
    data_type: u64,
    n: usize,
    trace: Seq<Exchange<'a>>,
    result: Result<(), Error>,
)
    requires
        fills(pool, size, data_type, n as int, trace, result),
    ensures
        finishes(FillOp::starts(pool, size, data_type, n), trace, result),
    decreases n,
{
    let start = FillOp::starts::<'a>(pool, size, data_type, n);
    if n > 0 {
        reveal_with_fuel(finishes, 2);
        let r1 = trace.drop_first();
        let r2 = r1.drop_first();
        let r3 = r2.drop_first();
        let tail = r3.drop_first();
        let op0 = start->Call_1;
        let p1 = op0.after::<'a>(trace[0].1);
        assert(op0.leads_to(trace[0].1, p1));
        assert(trace[0].0.answered_by(trace[0].1));
        if !trace[0].1->Answer_0 {
            assert(trace[1].0.answered_by(trace[1].1));
            let op1 = p1->Call_1;
            let p2 = op1.after::<'a>(trace[1].1);
            assert(op1.leads_to(trace[1].1, p2));
            if trace[1].1->Allocated_status == 0 {
                assert(trace[2].0.answered_by(trace[2].1));
                assert(trace[3].0.answered_by(trace[3].1));
                assert(trace[2].0 == (Call::Direct { oid: trace[1].1->oid }));
                let op2 = p2->Call_1;
                let p3 = op2.after::<'a>(trace[2].1);
                assert(op2.leads_to(trace[2].1, p3));
                let op3 = p3->Call_1;
                let p4 = op3.after::<'a>(trace[3].1);
                assert(op3.leads_to(trace[3].1, p4));
                if trace[3].1->Answer_0 {
                    let fewer = (n - 1) as usize;
                    assert(tail =~= trace.skip(4));
                    lemma_tail_fills(pool, size, data_type, n, trace, result);
                    lemma_fills_finishes(pool, size, data_type, fewer, tail, result);
                } else {
                    assert(trace.len() == 4);
                    assert(finishes(p4, tail, result));
                }
                lemma_finishes_step(p3, p4, r3, result);
                lemma_finishes_step(p2, p3, r2, result);
            } else {
                assert(trace.len() == 2);
                assert(finishes(p2, r2, result));
            }
            lemma_finishes_step(p1, p2, r1, result);
        } else {
            assert(trace.len() == 1);
            assert(finishes(p1, r1, result));
        }
        lemma_finishes_step(start, p1, trace, result);
    }
}

/// What follows the first round of a run is a run.
proof fn lemma_tail_fills<'a>(
    pool: u64,
    size: usize,
    data_type: u64,
    n: usize,
    trace: Seq<Exchange<'a>>,
    result: Result<(), Error>,
)
    requires
        fills(pool, size, data_type, n as int, trace, result),
        trace.len() >= 4,
        trace[3].1->Answer_0,
    ensures
        fills(pool, size, data_type, n - 1, trace.skip(4), result),
{
    let tail = trace.skip(4);
    assert forall|i: int| 0 <= i < tail.len() implies (#[trigger] tail[i]).0.answered_by(
        tail[i].1,
    ) && {
        &&& i % 4 == 0 ==> tail[i].0 == Call::QueueAbandoned
        &&& i % 4 == 1 ==> tail[i].0 == (Call::Alloc { pool, size, type_num: data_type })
        &&& i < tail.len() - 1 ==> {
            &&& i % 4 == 0 ==> !tail[i].1->Answer_0
            &&& i % 4 == 1 ==> tail[i].1->Allocated_status == 0
            &&& i % 4 == 3 ==> tail[i].1->Answer_0
        }
    } by {
        assert(tail[i] == trace[i + 4]);
    }
    assert forall|i: int, j: int| 0 <= i && j == i + 1 && j < tail.len() implies {
        &&& i % 4 == 1 ==> (#[trigger] tail[j]).0 == (Call::Direct {
            oid: (#[trigger] tail[i]).1->oid,
        })
        &&& i % 4 == 2 ==> tail[j].0 == (Call::Push {
            key: ObjRawKey { addr: tail[i].1->Address_0 },
        })
    } by {
        assert(tail[i] == trace[i + 4]);
        assert(tail[j] == trace[j + 4]);
    }
    if tail.len() > 0 {
        assert(tail.last() == trace.last());
    }
}

/// The making of a pool with objects in it. A path that is missing or holds a NUL character
/// is refused at once, and otherwise so is a layout name that holds one. Every other path
/// and layout name are handed on as they are, with three times the bytes that the objects
/// and sixty-four bytes for each of them take.
///
/// When the pool is made, as many objects as are asked for at once are allocated, or as
/// many as the capacity if that is smaller. The pool keeps its file. If the making fails
/// nothing is allocated.
pub proof fn law_run_with_initial_capacity<'a>(
    path: Option<String>,
    layout: Option<String>,
    obj_size: usize,
    data_type: u64,
    capacity: usize,
    initial: usize,
    n: usize,
    start: Progress<'a, CapacityOp, Result<Preallocated, Error>>,
    trace: Seq<Exchange<'a>>,
    result: Result<Preallocated, Error>,
)
    requires
        call_ensures(
            ObjPool::with_initial_capacity,
            (path, layout, obj_size, data_type, capacity, initial),
            start,
        ) || (initial == capacity && call_ensures(
            ObjPool::with_capacity,
            (path, layout, obj_size, data_type, capacity),
            start,
        )),
        3 * capacity * (obj_size + 64) <= usize::MAX,
        initial <= capacity ==> n == initial,
        initial > capacity ==> n == capacity,
    ensures
        path is None ==> start == Progress::<'a, CapacityOp, Result<Preallocated, Error>>::Done(
            Err(Error { kind: ErrorKind::PathError }),
        ),
        path matches Some(text) ==> (exists|i: int|
            0 <= i < text@.len() && #[trigger] text@[i] == '\0') ==> start == Progress::<
            'a,
            CapacityOp,
            Result<Preallocated, Error>,
        >::Done(Err(Error { kind: ErrorKind::PathError })),
        path matches Some(text) ==> (forall|i: int|
            0 <= i < text@.len() ==> #[trigger] text@[i] != '\0') ==> match layout {
            Some(name) => if forall|i: int|
                0 <= i < name@.len() ==> #[trigger] name@[i] != '\0' {
                &&& start matches Progress::Call(
                    Call::Create { path: p, layout: Some(l), size, mode },
                    _,
                )
                &&& p@ == text@
                &&& l@ == name@
                &&& size == 3 * capacity * (obj_size + 64)
                &&& mode == 0o666
            } else {
                start == Progress::<'a, CapacityOp, Result<Preallocated, Error>>::Done(
                    Err(Error { kind: ErrorKind::LayoutError }),
                )
            },
            None => {
                &&& start matches Progress::Call(
                    Call::Create { path: p, layout: None, size, mode },
                    _,
                )
                &&& p@ == text@
                &&& size == 3 * capacity * (obj_size + 64)
                &&& mode == 0o666
            },
        },
        start is Call && finishes(start, trace, result) ==> {
            &&& trace.len() > 0
            &&& trace[0].0 == start->Call_0
            &&& if trace[0].1->Pool_0 == 0 {
                &&& trace.len() == 1
                &&& result matches Err(error)
                &&& error.kind == ErrorKind::ObjError
            } else {
                &&& trace.len() > 1
                &&& trace[1].0 == (Call::Alloc {
                    pool: trace[0].1->Pool_0,
                    size: 1,
                    type_num: 10_000,
                })
                &&& if trace[1].1->Allocated_status != 0 {
                    &&& trace.len() == 2
                    &&& result matches Err(error)
                    &&& error.kind == ErrorKind::ObjError
                } else {
                    &&& trace.len() > 2
                    &&& trace[2].0 == (Call::Free { oid: trace[1].1->oid })
                    &&& exists|pool: ObjPool|
                        pool.inner == trace[0].1->Pool_0 && pool.uuid_lo
                            == trace[1].1->oid.pool_uuid_lo && pool.inner_path@ == path->0@
                            && !pool.rm_on_drop && #[trigger] preallocates(
                            pool,
                            obj_size,
                            data_type,
                            capacity,
                            n as int,
                            trace.skip(3),
                            result,
                        )
                }
            }
        },
        start is Call && finishes(start, trace, result) ==> (result matches Ok(done) ==> {
            &&& queue_capacity(done.queue) == capacity
            &&& initial <= capacity ==> queued(done.queue).len() == initial
            &&& initial >= capacity ==> queued(done.queue).len() == capacity
            &&& done.deferred == capacity - queued(done.queue).len()
        }),
{
    let text = chars(path);
    let name = chars(layout);
    let size = spec_pool_size(capacity as int, obj_size as int) as usize;
    assert(3 * capacity * (obj_size + 64) == capacity * (obj_size + 64) * 3)
        by (nonlinear_arith);
    assert(0 <= 3 * capacity * (obj_size + 64)) by (nonlinear_arith);
    assert(starts_capacity(text, name, obj_size, data_type, capacity, initial, start));
    if start is Call && finishes(start, trace, result) {
        law_with_initial_capacity(
            text,
            name,
            obj_size,
            data_type,
            capacity,
            initial,
            start,
            trace,
            result,
        );
        let open = choose|open: Progress<'a, OpenOp, Result<ObjPool, Error>>|
            starts_opening(text, name, size, open) && #[trigger] makes_filled(
                open,
                obj_size,
                data_type,
                capacity,
                initial,
                trace,
                result,
            );
        if result is Err && finishes(open, trace, Err(result->Err_0)) {
            law_open_calls(text, name, size, open, trace, Err(result->Err_0));
            reveal_with_fuel(finishes, 2);
        } else {
            let (m, pool, fill) = choose|
                m: int,
                pool: ObjPool,
                fill: Progress<'a, PreallocateOp, Result<Preallocated, Error>>,
            |
                makes_and_fills(
                    open,
                    obj_size,
                    data_type,
                    capacity,
                    initial,
                    trace,
                    result,
                    m,
                    pool,
                    fill,
                );
            law_open_calls(text, name, size, open, trace.take(m), Ok(pool));
            reveal_with_fuel(finishes, 2);
            lemma_preallocates(
                pool,
                obj_size,
                data_type,
                capacity,
                initial,
                n,
                fill,
                trace.skip(3),
                result,
            );
        }
    }
}

/// The making of a pool with objects in it ends: whatever the replies are, it makes at most
/// three calls for the pool, two for each object that is allocated at once, and two more.
pub proof fn law_with_initial_capacity_ends<'a>(
    path: Option<String>,
    layout: Option<String>,
    obj_size: usize,
    data_type: u64,
    capacity: usize,
    initial: usize,
    start: Progress<'a, CapacityOp, Result<Preallocated, Error>>,
    trace: Seq<Exchange<'a>>,
    end: Progress<'a, CapacityOp, Result<Preallocated, Error>>,
)
    requires
        call_ensures(
            ObjPool::with_initial_capacity,
            (path, layout, obj_size, data_type, capacity, initial),
            start,
        ) || (initial == capacity && call_ensures(
            ObjPool::with_capacity,
            (path, layout, obj_size, data_type, capacity),
            start,
        )),
        reaches(start, trace, end),
    ensures
        trace.len() <= 2 * initial + 5,
        trace.len() <= 2 * capacity + 5,
{
    assert(starts_capacity(
        chars(path),
        chars(layout),
        obj_size,
        data_type,
        capacity,
        initial,
        start,
    ));
    if let Progress::Call(call, op) = start {
        lemma_opening_ends(
            call,
            op->Opening_op,
            obj_size,
            data_type,
            capacity,
            initial,
            trace,
            end,
        );
    }
}

proof fn lemma_opening_ends<'a>(
    call: Call<'a>,
    op: OpenOp,
    obj_size: usize,
    data_type: u64,
    capacity: usize,
    initial: usize,
    trace: Seq<Exchange<'a>>,
    end: Progress<'a, CapacityOp, Result<Preallocated, Error>>,
)
    requires
        reaches(
            Progress::Call(
                call,
                CapacityOp::Opening { op, obj_size, data_type, capacity, initial },
            ),
            trace,
            end,
        ),
    ensures
        trace.len() <= 2 * initial + 5,
        trace.len() <= 2 * capacity + 5,
        op is Probing ==> trace.len() <= 2 * initial + 4 && trace.len() <= 2 * capacity + 4,
        op is Releasing ==> trace.len() <= 2 * initial + 3 && trace.len() <= 2 * capacity + 3,
    decreases trace.len(),
{
    if trace.len() > 0 {
        let opening = CapacityOp::Opening { op, obj_size, data_type, capacity, initial };
        let reply = trace[0].1;
        let rest = trace.drop_first();
        let next = choose|next: Progress<'a, CapacityOp, Result<Preallocated, Error>>| #[trigger]
            opening.leads_to(reply, next) && reaches(next, rest, end);
        match op.after::<'a>(reply) {
            Progress::Call(next_call, next_op) => {
                lemma_opening_ends(
                    next_call,
                    next_op,
                    obj_size,
                    data_type,
                    capacity,
                    initial,
                    rest,
                    end,
                );
            },
            Progress::Done(Ok(pool)) => {
                let fill = choose|fill: Progress<'a, PreallocateOp, Result<Preallocated, Error>>|
                    #[trigger]
                    starts_filling(pool, obj_size, data_type, capacity, initial, fill) && next
                        == CapacityOp::filling(fill);
                let fill_end = lemma_filling_reaches(fill, rest, end);
                lemma_filling_ends(
                    pool,
                    obj_size,
                    data_type,
                    capacity,
                    initial,
                    fill,
                    rest,
                    fill_end,
                );
            },
            Progress::Done(Err(_)) => {},
        }
    }
}

/// As the second part of the making of a pool with objects in it, the allocation of the
/// objects makes the same calls.
proof fn lemma_filling_reaches<'a>(
    fill: Progress<'a, PreallocateOp, Result<Preallocated, Error>>,
    trace: Seq<Exchange<'a>>,
    end: Progress<'a, CapacityOp, Result<Preallocated, Error>>,
) -> (fill_end: Progress<'a, PreallocateOp, Result<Preallocated, Error>>)
    requires
        reaches(CapacityOp::filling(fill), trace, end),
    ensures
        reaches(fill, trace, fill_end),
    decreases trace.len(),
{
    if trace.len() == 0 {
        fill
    } else {
        let op = fill->Call_1;
        let filling = CapacityOp::Filling { op };
        let rest = trace.drop_first();
        let next = choose|next: Progress<'a, CapacityOp, Result<Preallocated, Error>>| #[trigger]
            filling.leads_to(trace[0].1, next) && reaches(next, rest, end);
        let after = choose|after: Progress<'a, PreallocateOp, Result<Preallocated, Error>>|
            #[trigger]
            op.leads_to(trace[0].1, after) && next == CapacityOp::filling(after);
        lemma_filling_reaches(after, rest, end)
    }
}

} // verus!
