//! Laws of the statistics of a pool.

use vstd::prelude::*;

use crate::call::{finishes, CtlValue, Exchange, Query};
use crate::error::Error;
use crate::heap::{served, step_served, total_size, Heap, Object};
use crate::key::ObjRawKey;
use crate::laws::{is_new_object, law_put};
use crate::oid::PMEMoid;
use crate::pool::ObjPool;

verus! {

/// Statistics that are first switched on while the pool has no objects are full
/// statistics. Nothing else changes.
pub proof fn law_statistics_on<'a>(
    pool: ObjPool,
    query: Query,
    heaps: Seq<Heap>,
    trace: Seq<Exchange<'a>>,
    value: CtlValue,
)
    requires
        query.spec_name() == "stats.enabled"@,
        heaps[0].is_empty(pool.inner),
        !heaps[0].statistics.contains_key(pool.inner),
        finishes(pool.spec_ctl_set(query, CtlValue::Switch(1)), trace, (Ok(()), value)),
        served(heaps, trace),
    ensures
        heaps.last().counted(pool.inner),
        heaps.last() == (Heap {
            statistics: heaps[0].statistics.insert(pool.inner, true),
            ..heaps[0]
        }),
{
    reveal_with_fuel(finishes, 2);
    reveal_strlit("stats.enabled");
    reveal_strlit("heap.thread.arena_id");
    assert("stats.enabled"@.len() != "heap.thread.arena_id"@.len());
    assert(step_served(heaps, trace, 0));
}

/// With full statistics, no bytes are allocated in a pool without objects.
pub proof fn law_allocated_size_at_first<'a>(
    pool: ObjPool,
    heaps: Seq<Heap>,
    trace: Seq<Exchange<'a>>,
    result: Result<u64, Error>,
)
    requires
        heaps[0].has_open(pool),
        heaps[0].counted(pool.inner),
        heaps[0].is_empty(pool.inner),
        finishes(pool.asks_size(Query::HeapCurrAllocated), trace, result),
        served(heaps, trace),
    ensures
        result == Ok::<u64, Error>(0),
        heaps.last() == heaps[0],
{
    reveal_with_fuel(finishes, 2);
    assert(step_served(heaps, trace, 0));
}

/// The lengths of `datas`, added up.
pub open spec fn total_len<'a>(datas: Seq<&'a [u8]>) -> nat
    decreases datas.len(),
{
    if datas.len() == 0 {
        0
    } else {
        total_len(datas.drop_last()) + datas.last()@.len()
    }
}

/// Whether the `i`th of several puts into the pool succeeds: it makes the calls of
/// `traces[i]` while the heap goes through the states of `heaps[i]`, and gives `keys[i]`.
pub open spec fn puts<'a>(
    pool: ObjPool,
    datas: Seq<&'a [u8]>,
    types: Seq<u64>,
    heaps: Seq<Seq<Heap>>,
    traces: Seq<Seq<Exchange<'a>>>,
    keys: Seq<ObjRawKey>,
    i: int,
) -> bool {
    &&& heaps[i][0].valid()
    &&& heaps[i][0].has_open(pool)
    &&& datas[i]@.len() <= usize::MAX
    &&& finishes(pool.spec_put(datas[i], types[i]), traces[i], Ok(keys[i]))
    &&& served(heaps[i], traces[i])
}

/// Whether no object that was there after the `i`th put is gone before the next.
pub open spec fn keeps_objects(heaps: Seq<Seq<Heap>>, i: int) -> bool {
    heaps[i].last().present_in(heaps[i + 1][0])
}

/// Whether several puts into the pool succeed, one after the other, and no object is
/// removed between them. Anything else may go on between them.
pub open spec fn puts_all<'a>(
    pool: ObjPool,
    datas: Seq<&'a [u8]>,
    types: Seq<u64>,
    heaps: Seq<Seq<Heap>>,
    traces: Seq<Seq<Exchange<'a>>>,
    keys: Seq<ObjRawKey>,
) -> bool {
    &&& datas.len() == types.len() == heaps.len() == traces.len() == keys.len()
    &&& forall|i: int|
        0 <= i < datas.len() ==> #[trigger] puts(pool, datas, types, heaps, traces, keys, i)
    &&& forall|i: int| 0 <= i < datas.len() - 1 ==> #[trigger] keeps_objects(heaps, i)
}

/// With full statistics, the bytes that are allocated in a pool are at least all the
/// data that was put into it and not removed since.
pub proof fn law_allocated_size_covers_puts<'a>(
    pool: ObjPool,
    datas: Seq<&'a [u8]>,
    types: Seq<u64>,
    put_heaps: Seq<Seq<Heap>>,
    put_traces: Seq<Seq<Exchange<'a>>>,
    keys: Seq<ObjRawKey>,
    heaps: Seq<Heap>,
    trace: Seq<Exchange<'a>>,
    result: Result<u64, Error>,
)
    requires
        datas.len() > 0,
        puts_all(pool, datas, types, put_heaps, put_traces, keys),
        put_heaps.last().last().present_in(heaps[0]),
        heaps[0].valid(),
        heaps[0].has_open(pool),
        heaps[0].counted(pool.inner),
        finishes(pool.asks_size(Query::HeapCurrAllocated), trace, result),
        served(heaps, trace),
    ensures
        result matches Ok(size) && size >= total_len(datas),
        heaps.last() == heaps[0],
{
    reveal_with_fuel(finishes, 2);
    assert(step_served(heaps, trace, 0));
    let n = datas.len() as int;
    let oids = lemma_put_objects(pool, datas, types, put_heaps, put_traces, keys, n);
    let last = put_heaps.last().last();
    let heap = heaps[0];
    assert(heap.walks_over(heap.pools[pool.inner]));
    let order = heap.orders[pool.uuid_lo];
    assert forall|i: int| 0 <= i < oids.len() implies order.contains(#[trigger] oids[i])
        && heap.objects[oids[i]].size >= datas[i]@.len() by {
        assert(last.objects.contains_key(oids[i]));
    }
    lemma_total_covers(heap.objects, order, oids, datas);
}

/// The objects of the first `n` puts: they differ from each other, and all are there
/// after the last of these puts.
proof fn lemma_put_objects<'a>(
    pool: ObjPool,
    datas: Seq<&'a [u8]>,
    types: Seq<u64>,
    heaps: Seq<Seq<Heap>>,
    traces: Seq<Seq<Exchange<'a>>>,
    keys: Seq<ObjRawKey>,
    n: int,
) -> (oids: Seq<PMEMoid>)
    requires
        puts_all(pool, datas, types, heaps, traces, keys),
        0 < n <= datas.len(),
    ensures
        oids.len() == n,
        oids.no_duplicates(),
        forall|i: int|
            0 <= i < n ==> {
                let last = heaps[n - 1].last();
                &&& last.objects.contains_key(#[trigger] oids[i])
                &&& oids[i].pool_uuid_lo == pool.uuid_lo
                &&& last.objects[oids[i]].size >= datas[i]@.len()
            },
    decreases n,
{
    let m = n - 1;
    let first = heaps[m][0];
    let last = heaps[m].last();
    assert(puts(pool, datas, types, heaps, traces, keys, m));
    law_put(pool, datas[m], types[m], heaps[m], traces[m], Ok(keys[m]));
    let oid = choose|oid: PMEMoid| #[trigger]
        first.gains(oid, last) && is_new_object(
            pool,
            first,
            last,
            oid,
            keys[m],
            datas[m]@.len(),
            types[m],
        ) && last.content(oid).take(datas[m]@.len() as int) == datas[m]@;
    let before = if m > 0 {
        lemma_put_objects(pool, datas, types, heaps, traces, keys, m)
    } else {
        Seq::<PMEMoid>::empty()
    };
    let oids = before.push(oid);
    assert forall|i: int| 0 <= i < m implies first.objects.contains_key(#[trigger] before[i])
        && last.objects.contains_key(before[i]) && last.objects[before[i]].size
        >= datas[i]@.len() by {
        assert(keeps_objects(heaps, m - 1));
        assert(heaps[m - 1].last().objects.contains_key(before[i]));
    }
    assert forall|i: int| 0 <= i < n implies {
        &&& last.objects.contains_key(#[trigger] oids[i])
        &&& oids[i].pool_uuid_lo == pool.uuid_lo
        &&& last.objects[oids[i]].size >= datas[i]@.len()
    } by {
        if i < m {
            assert(oids[i] == before[i]);
        }
    }
    assert forall|i: int, j: int| 0 <= i < n && 0 <= j < n && i != j implies oids[i] != oids[j] by {
        if i < m {
            assert(oids[i] == before[i]);
        }
        if j < m {
            assert(oids[j] == before[j]);
        }
    }
    oids
}

/// The sizes of some objects, without one of them.
proof fn lemma_total_remove(objects: Map<PMEMoid, Object>, oids: Seq<PMEMoid>, at: int)
    requires
        0 <= at < oids.len(),
    ensures
        total_size(objects, oids) == total_size(objects, oids.remove(at)) + objects[oids[at]].size,
    decreases oids.len(),
{
    if at == oids.len() - 1 {
        assert(oids.remove(at) =~= oids.drop_last());
    } else {
        lemma_total_remove(objects, oids.drop_last(), at);
        assert(oids.remove(at).drop_last() =~= oids.drop_last().remove(at));
        assert(oids.remove(at).last() == oids.last());
    }
}

/// The objects of a walk are at least as large as some of them together, each of which
/// is as large as one of `datas`.
proof fn lemma_total_covers<'a>(
    objects: Map<PMEMoid, Object>,
    order: Seq<PMEMoid>,
    oids: Seq<PMEMoid>,
    datas: Seq<&'a [u8]>,
)
    requires
        oids.len() == datas.len(),
        oids.no_duplicates(),
        forall|i: int|
            0 <= i < oids.len() ==> order.contains(#[trigger] oids[i]) && objects[oids[i]].size
                >= datas[i]@.len(),
    ensures
        total_size(objects, order) >= total_len(datas),
    decreases oids.len(),
{
    if oids.len() > 0 {
        let oid = oids.last();
        let at = choose|at: int| 0 <= at < order.len() && order[at] == oid;
        assert(order.contains(oids[oids.len() - 1]));
        lemma_total_remove(objects, order, at);
        let rest = oids.drop_last();
        let others = order.remove(at);
        assert forall|i: int| 0 <= i < rest.len() implies others.contains(#[trigger] rest[i])
            && objects[rest[i]].size >= datas.drop_last()[i]@.len() by {
            assert(rest[i] == oids[i]);
            let j = choose|j: int| 0 <= j < order.len() && order[j] == oids[i];
            assert(order.contains(oids[i]));
            assert(j != at);
            if j < at {
                assert(others[j] == rest[i]);
            } else {
                assert(others[j - 1] == rest[i]);
            }
        }
        lemma_total_covers(objects, others, rest, datas.drop_last());
    }
}

/// Whether an arena is, after some steps, as it was before them: there, and with or
/// without a first object.
pub open spec fn keeps_arena(before: Heap, after: Heap, pool: ObjPool, id: u32) -> bool {
    &&& after.arenas.contains_key((pool.inner, id))
    &&& after.arenas[(pool.inner, id)] == before.arenas[(pool.inner, id)]
}

/// With full statistics, an arena that was just made for a thread takes no bytes.
pub proof fn law_arena_size_at_first<'a>(
    pool: ObjPool,
    init_heaps: Seq<Heap>,
    init_trace: Seq<Exchange<'a>>,
    id: u32,
    heaps: Seq<Heap>,
    trace: Seq<Exchange<'a>>,
    result: Result<u64, Error>,
)
    requires
        finishes(pool.spec_thread_arena_init(), init_trace, Ok(id)),
        served(init_heaps, init_trace),
        keeps_arena(init_heaps.last(), heaps[0], pool, id),
        heaps[0].counted(pool.inner),
        finishes(pool.asks_size(Query::ArenaSize(id)), trace, result),
        served(heaps, trace),
    ensures
        result == Ok::<u64, Error>(0),
        heaps.last() == heaps[0],
{
    reveal_with_fuel(finishes, 3);
    assert(step_served(init_heaps, init_trace, 0));
    assert(step_served(init_heaps, init_trace, 1));
    assert(step_served(heaps, trace, 0));
}

/// With full statistics, the arena of a thread takes some bytes after the thread has put
/// an object that was not removed since.
pub proof fn law_arena_size_after_put<'a>(
    pool: ObjPool,
    id: u32,
    data: &'a [u8],
    data_type: u64,
    put_heaps: Seq<Heap>,
    put_trace: Seq<Exchange<'a>>,
    key: ObjRawKey,
    heaps: Seq<Heap>,
    trace: Seq<Exchange<'a>>,
    result: Result<u64, Error>,
)
    requires
        put_heaps[0].valid(),
        put_heaps[0].has_open(pool),
        put_heaps[0].thread_arenas.contains_key(pool.inner),
        put_heaps[0].thread_arenas[pool.inner] == id,
        data@.len() <= usize::MAX,
        finishes(pool.spec_put(data, data_type), put_trace, Ok(key)),
        served(put_heaps, put_trace),
        put_heaps.last().present_in(heaps[0]),
        heaps[0].has_open(pool),
        heaps[0].arenas.contains_key((pool.inner, id)),
        heaps[0].counted(pool.inner),
        finishes(pool.asks_size(Query::ArenaSize(id)), trace, result),
        served(heaps, trace),
    ensures
        result matches Ok(size) && size > 0,
        heaps.last() == heaps[0],
{
    crate::laws::law_put_calls(pool, data, data_type, put_trace, Ok(key));
    reveal_with_fuel(finishes, 2);
    assert(step_served(put_heaps, put_trace, 0));
    assert(step_served(put_heaps, put_trace, 1));
    assert(step_served(put_heaps, put_trace, 2));
    assert(step_served(heaps, trace, 0));
    let oid = put_trace[0].1->oid;
    assert(put_heaps.last().objects.contains_key(oid));
    assert(heaps[0].objects.contains_key(oid));
    assert(heaps[0].in_use(pool.inner, id));
}

} // verus!
