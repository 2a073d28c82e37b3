//! Laws of the operations on a pool.

use vstd::prelude::*;
use vstd::std_specs::convert::FromSpec;

use crate::call::{finishes, Call, CtlValue, Exchange, Progress, Query};
use crate::error::{Error, ErrorKind};
use crate::heap::{is_aligned, served, step_served, Heap};
use crate::iter::ObjPoolIter;
use crate::key::ObjRawKey;
use crate::object::update_offset;
use crate::oid::PMEMoid;
use crate::pool::{
    creates, is_layout, is_pool_path, spec_pool_size, starts_opening, ObjPool, OpenOp,
    OBJ_ALLOC_FACTOR, OBJ_HEADER_SIZE, PROBE_SIZE, PROBE_TYPE,
};

verus! {

/// The allocation of an object makes one call, and a second one if that succeeds:
/// the first allocates the object, and the second asks for the address that
/// becomes its key.
pub proof fn law_allocate_calls<'a>(
    pool: ObjPool,
    size: usize,
    data_type: u64,
    trace: Seq<Exchange<'a>>,
    result: Result<ObjRawKey, Error>,
)
    requires
        finishes(pool.spec_allocate(size, data_type), trace, result),
    ensures
        trace.len() > 0,
        trace[0].0 == (Call::Alloc { pool: pool.inner, size, type_num: data_type }),
        trace[0].1->Allocated_status == 0 ==> {
            &&& trace.len() == 2
            &&& trace[1].0 == (Call::Direct { oid: trace[0].1->oid })
            &&& result == Ok::<ObjRawKey, Error>(ObjRawKey { addr: trace[1].1->Address_0 })
        },
        trace[0].1->Allocated_status != 0 ==> {
            &&& trace.len() == 1
            &&& result == Err::<ObjRawKey, Error>(Error { kind: ErrorKind::ObjError })
        },
{
    reveal_with_fuel(finishes, 3);
}

/// An allocation that succeeds adds one object to the pool, of at least the size
/// and of the type number that were asked for, and gives its key. All other
/// objects stay as they were. One that fails changes nothing.
pub proof fn law_allocate<'a>(
    pool: ObjPool,
    size: usize,
    data_type: u64,
    heaps: Seq<Heap>,
    trace: Seq<Exchange<'a>>,
    result: Result<ObjRawKey, Error>,
)
    requires
        heaps[0].valid(),
        finishes(pool.spec_allocate(size, data_type), trace, result),
        served(heaps, trace),
    ensures
        result matches Ok(key) ==> exists|oid: PMEMoid| #[trigger]
            heaps[0].gains(oid, heaps.last()) && is_new_object(
                pool,
                heaps[0],
                heaps.last(),
                oid,
                key,
                size as nat,
                data_type,
            ),
        result is Err ==> heaps.last() == heaps[0],
{
    law_allocate_calls(pool, size, data_type, trace, result);
    assert(step_served(heaps, trace, 0));
    if result is Ok {
        assert(step_served(heaps, trace, 1));
        assert(heaps[0].gains(trace[0].1->oid, heaps.last()));
    }
}

/// Whether `oid` is, on the heap `after`, an object of `pool` of the key `key`
/// that can hold `size` bytes, carries the type number `type_num`, and is aligned.
pub open spec fn is_new_object(
    pool: ObjPool,
    before: Heap,
    after: Heap,
    oid: PMEMoid,
    key: ObjRawKey,
    size: nat,
    type_num: u64,
) -> bool {
    &&& oid.pool_uuid_lo == before.pools[pool.inner]
    &&& after.objects[oid].addr == key.addr
    &&& after.objects[oid].size >= size
    &&& after.objects[oid].type_num == type_num
    &&& is_aligned(key.addr)
}

/// A put makes at most three calls: it allocates an object of the size of the
/// data, asks for its address, and copies the data to that address.
pub proof fn law_put_calls<'a>(
    pool: ObjPool,
    data: &'a [u8],
    data_type: u64,
    trace: Seq<Exchange<'a>>,
    result: Result<ObjRawKey, Error>,
)
    requires
        finishes(pool.spec_put(data, data_type), trace, result),
    ensures
        trace.len() > 0,
        trace[0].0 == (Call::Alloc {
            pool: pool.inner,
            size: data@.len() as usize,
            type_num: data_type,
        }),
        trace[0].1->Allocated_status == 0 ==> {
            &&& trace.len() == 3
            &&& trace[1].0 == (Call::Direct { oid: trace[0].1->oid })
            &&& trace[2].0 == (Call::Copy {
                pool: pool.inner,
                dest: trace[1].1->Address_0,
                data,
            })
            &&& result == Ok::<ObjRawKey, Error>(ObjRawKey { addr: trace[1].1->Address_0 })
        },
        trace[0].1->Allocated_status != 0 ==> {
            &&& trace.len() == 1
            &&& result == Err::<ObjRawKey, Error>(Error { kind: ErrorKind::ObjError })
        },
{
    reveal_with_fuel(finishes, 4);
}

/// A put that succeeds adds one object to the pool, which starts with the data and
/// carries the type number, and gives its key. All other objects stay as they
/// were. One that fails changes nothing.
pub proof fn law_put<'a>(
    pool: ObjPool,
    data: &'a [u8],
    data_type: u64,
    heaps: Seq<Heap>,
    trace: Seq<Exchange<'a>>,
    result: Result<ObjRawKey, Error>,
)
    requires
        heaps[0].valid(),
        data@.len() <= usize::MAX,
        finishes(pool.spec_put(data, data_type), trace, result),
        served(heaps, trace),
    ensures
        result matches Ok(key) ==> exists|oid: PMEMoid| #[trigger]
            heaps[0].gains(oid, heaps.last()) && is_new_object(
                pool,
                heaps[0],
                heaps.last(),
                oid,
                key,
                data@.len(),
                data_type,
            ) && heaps.last().content(oid).take(data@.len() as int) == data@,
        result is Err ==> heaps.last() == heaps[0],
{
    law_put_calls(pool, data, data_type, trace, result);
    assert(step_served(heaps, trace, 0));
    if result is Ok {
        assert(step_served(heaps, trace, 1));
        assert(step_served(heaps, trace, 2));
        let oid = trace[0].1->oid;
        lemma_copy(heaps[2], heaps[3], oid, 0, data@);
        assert(heaps[3].objects =~= heaps[0].objects.insert(oid, heaps[3].objects[oid]));
        assert forall|other: PMEMoid| #[trigger]
            heaps[0].objects.contains_key(other) implies heaps[3].content(other)
            == heaps[0].content(other) by {
            assert(heaps[2].objects.contains_key(other));
        }
        assert(heaps[0].gains(oid, heaps.last()));
    }
}

/// A copy into an object changes the bytes that are copied to, and nothing else.
proof fn lemma_copy(before: Heap, after: Heap, oid: PMEMoid, offset: int, data: Seq<u8>)
    requires
        before.valid(),
        before.objects.contains_key(oid),
        0 <= offset,
        offset + data.len() <= before.objects[oid].size,
        after == (Heap {
            memory: before.copied(before.objects[oid].addr + offset, data),
            ..before
        }),
    ensures
        after.valid(),
        after.content(oid) == before.content(oid).take(offset) + data + before.content(oid).skip(
            offset + data.len(),
        ),
        forall|other: PMEMoid| #[trigger]
            before.objects.contains_key(other) && other != oid ==> after.content(other)
                == before.content(other),
{
    let addr = before.objects[oid].addr;
    assert forall|a: PMEMoid, b: int|
        after.objects.contains_key(a) && #[trigger] after.covers(
            a,
            b,
        ) implies after.memory.contains_key(b) by {
        assert(before.covers(a, b));
    }
    assert forall|a: PMEMoid, b: PMEMoid, at: int|
        after.objects.contains_key(a) && after.objects.contains_key(b) && #[trigger] after.covers(
            a,
            at,
        ) && #[trigger] after.covers(b, at) implies a == b by {
        assert(before.covers(a, at));
        assert(before.covers(b, at));
    }
    assert forall|pool: u64| #[trigger] after.pools.contains_key(pool) implies after.walks_over(
        after.pools[pool],
    ) by {
        assert(before.walks_over(before.pools[pool]));
    }
    assert forall|i: int| 0 <= i < before.objects[oid].size implies before.memory.contains_key(
        #[trigger] (addr + i),
    ) by {
        assert(before.covers(oid, addr + i));
    }
    assert(after.content(oid) =~= before.content(oid).take(offset) + data + before.content(
        oid,
    ).skip(offset + data.len()));
    assert forall|other: PMEMoid| #[trigger]
        before.objects.contains_key(other) && other != oid implies after.content(other)
        == before.content(other) by {
        assert forall|i: int| 0 <= i < before.objects[other].size implies #[trigger] after.content(
            other,
        )[i] == before.content(other)[i] by {
            let at = before.objects[other].addr + i;
            assert(before.covers(other, at));
            if addr + offset <= at < addr + offset + data.len() {
                assert(before.covers(oid, at));
            }
        }
        assert(after.content(other) =~= before.content(other));
    }
}

/// The object of a key.
pub open spec fn is_key_of(heap: Heap, oid: PMEMoid, key: ObjRawKey) -> bool {
    heap.objects.contains_key(oid) && heap.objects[oid].addr == key.addr
}

/// A read of no more bytes than an object has gives the first bytes of the object,
/// and its key back. It changes nothing.
pub proof fn law_get_by_rawkey<'a>(
    pool: ObjPool,
    oid: PMEMoid,
    key: ObjRawKey,
    len: usize,
    heaps: Seq<Heap>,
    trace: Seq<Exchange<'a>>,
    result: (ObjRawKey, Vec<u8>),
)
    requires
        is_key_of(heaps[0], oid, key),
        len <= heaps[0].objects[oid].size,
        finishes(pool.spec_get_by_rawkey(key, len), trace, result),
        served(heaps, trace),
    ensures
        result.0 == key,
        result.1@ == heaps[0].content(oid).take(len as int),
        heaps.last() == heaps[0],
{
    reveal_with_fuel(finishes, 2);
    assert(step_served(heaps, trace, 0));
    assert(result.1@ =~= heaps[0].content(oid).take(len as int));
}

/// The type number of a key is that of its object. The question changes nothing.
pub proof fn law_get_type<'a>(
    oid: PMEMoid,
    key: ObjRawKey,
    heaps: Seq<Heap>,
    trace: Seq<Exchange<'a>>,
    result: u64,
)
    requires
        is_key_of(heaps[0], oid, key),
        finishes(key.spec_get_type(), trace, result),
        served(heaps, trace),
    ensures
        result == heaps[0].objects[oid].type_num,
        heaps.last() == heaps[0],
{
    reveal_with_fuel(finishes, 3);
    assert(step_served(heaps, trace, 0));
    assert(step_served(heaps, trace, 1));
}

/// The persistent identifier of a key is that of its object. The question changes
/// nothing.
pub proof fn law_as_persistent<'a>(
    oid: PMEMoid,
    key: ObjRawKey,
    heaps: Seq<Heap>,
    trace: Seq<Exchange<'a>>,
    result: PMEMoid,
)
    requires
        is_key_of(heaps[0], oid, key),
        finishes(key.spec_as_persistent(), trace, result),
        served(heaps, trace),
    ensures
        result == oid,
        heaps.last() == heaps[0],
{
    reveal_with_fuel(finishes, 2);
    assert(step_served(heaps, trace, 0));
}

/// What is put is what is read: after a put that succeeded, a read of as many
/// bytes with the key that it gave returns the data, and the key has the type
/// number, whatever else went on since, as long as the objects that were there after
/// the put are kept.
pub proof fn law_put_then_get<'a>(
    pool: ObjPool,
    data: &'a [u8],
    data_type: u64,
    put_heaps: Seq<Heap>,
    put_trace: Seq<Exchange<'a>>,
    key: ObjRawKey,
    get_heaps: Seq<Heap>,
    get_trace: Seq<Exchange<'a>>,
    got: (ObjRawKey, Vec<u8>),
    type_heaps: Seq<Heap>,
    type_trace: Seq<Exchange<'a>>,
    type_num: u64,
)
    requires
        put_heaps[0].valid(),
        data@.len() <= usize::MAX,
        finishes(pool.spec_put(data, data_type), put_trace, Ok(key)),
        served(put_heaps, put_trace),
        put_heaps.last().kept_in(get_heaps[0]),
        finishes(pool.spec_get_by_rawkey(key, data@.len() as usize), get_trace, got),
        served(get_heaps, get_trace),
        put_heaps.last().present_in(type_heaps[0]),
        finishes(key.spec_get_type(), type_trace, type_num),
        served(type_heaps, type_trace),
    ensures
        got.0 == key,
        got.1@ == data@,
        type_num == data_type,
{
    law_put(pool, data, data_type, put_heaps, put_trace, Ok(key));
    let oid = choose|oid: PMEMoid| #[trigger]
        put_heaps[0].gains(oid, put_heaps.last()) && is_new_object(
            pool,
            put_heaps[0],
            put_heaps.last(),
            oid,
            key,
            data@.len(),
            data_type,
        ) && put_heaps.last().content(oid).take(data@.len() as int) == data@;
    assert(put_heaps.last().objects.contains_key(oid));
    law_get_by_rawkey(pool, oid, key, data@.len() as usize, get_heaps, get_trace, got);
    law_get_type(oid, key, type_heaps, type_trace, type_num);
}

/// What is put has room: after a put that succeeded, the size of the object is at least
/// that of the data, and the key that comes with the size is the one that the put gave,
/// whatever else went on since, as long as no object was removed.
pub proof fn law_put_then_size<'a>(
    pool: ObjPool,
    data: &'a [u8],
    data_type: u64,
    put_heaps: Seq<Heap>,
    put_trace: Seq<Exchange<'a>>,
    key: ObjRawKey,
    size_heaps: Seq<Heap>,
    size_trace: Seq<Exchange<'a>>,
    result: Result<(usize, ObjRawKey), Error>,
)
    requires
        put_heaps[0].valid(),
        put_heaps[0].pools[pool.inner] == pool.uuid_lo,
        data@.len() <= usize::MAX,
        finishes(pool.spec_put(data, data_type), put_trace, Ok(key)),
        served(put_heaps, put_trace),
        put_heaps.last().present_in(size_heaps[0]),
        finishes(pool.spec_obj_size_get(key), size_trace, result),
        served(size_heaps, size_trace),
    ensures
        result matches Ok((size, same)) && size >= data@.len() && same == key,
{
    law_put(pool, data, data_type, put_heaps, put_trace, Ok(key));
    let oid = choose|oid: PMEMoid| #[trigger]
        put_heaps[0].gains(oid, put_heaps.last()) && is_new_object(
            pool,
            put_heaps[0],
            put_heaps.last(),
            oid,
            key,
            data@.len(),
            data_type,
        ) && put_heaps.last().content(oid).take(data@.len() as int) == data@;
    assert(put_heaps.last().objects.contains_key(oid));
    law_obj_size_get(pool, oid, key, size_heaps, size_trace, result);
}

/// An update inside an object replaces the bytes from the offset on by the data,
/// and leaves the other bytes of the object and all other objects as they were. It
/// always succeeds, and gives the key back.
pub proof fn law_update_by_rawkey<'a>(
    pool: ObjPool,
    oid: PMEMoid,
    key: ObjRawKey,
    data: &'a [u8],
    offset: Option<usize>,
    heaps: Seq<Heap>,
    trace: Seq<Exchange<'a>>,
    result: Result<ObjRawKey, Error>,
)
    requires
        heaps[0].valid(),
        is_key_of(heaps[0], oid, key),
        update_offset(offset) <= isize::MAX,
        update_offset(offset) + data@.len() <= heaps[0].objects[oid].size,
        finishes(pool.spec_update_by_rawkey(key, data, offset), trace, result),
        served(heaps, trace),
    ensures
        result == Ok::<ObjRawKey, Error>(key),
        heaps.last().valid(),
        heaps.last().objects == heaps[0].objects,
        heaps.last().content(oid) == heaps[0].content(oid).take(update_offset(offset) as int)
            + data@ + heaps[0].content(oid).skip(update_offset(offset) + data@.len()),
        forall|other: PMEMoid| #[trigger]
            heaps[0].objects.contains_key(other) && other != oid ==> heaps.last().content(other)
                == heaps[0].content(other),
{
    reveal_with_fuel(finishes, 2);
    assert(step_served(heaps, trace, 0));
    assert(heaps[0].objects.contains_key(oid));
    lemma_copy(heaps[0], heaps[1], oid, update_offset(offset) as int, data@);
}

/// An offset that no pointer can have is refused before anything is called.
pub proof fn law_update_refused<'a>(
    pool: ObjPool,
    key: ObjRawKey,
    data: &'a [u8],
    offset: Option<usize>,
    trace: Seq<Exchange<'a>>,
    result: Result<ObjRawKey, Error>,
)
    requires
        update_offset(offset) > isize::MAX,
        finishes(pool.spec_update_by_rawkey(key, data, offset), trace, result),
    ensures
        trace.len() == 0,
        result == Err::<ObjRawKey, Error>(Error { kind: ErrorKind::GenericError }),
{
}

/// The removal of an object of the pool succeeds, takes the object away, and
/// leaves all others as they were.
pub proof fn law_remove<'a>(
    pool: ObjPool,
    oid: PMEMoid,
    key: ObjRawKey,
    heaps: Seq<Heap>,
    trace: Seq<Exchange<'a>>,
    result: Result<(), Error>,
)
    requires
        is_key_of(heaps[0], oid, key),
        oid.pool_uuid_lo == pool.uuid_lo,
        finishes(pool.spec_remove(key), trace, result),
        served(heaps, trace),
    ensures
        result == Ok::<(), Error>(()),
        heaps[0].loses(oid, heaps.last()),
{
    reveal_with_fuel(finishes, 3);
    assert(step_served(heaps, trace, 0));
    assert(step_served(heaps, trace, 1));
}

/// The key of an object of another pool is refused by a removal, by a question for
/// the size and by the translation to an identifier, with the one error for it;
/// nothing is freed or changed.
pub proof fn law_foreign_key_refused<'a>(
    pool: ObjPool,
    oid: PMEMoid,
    key: ObjRawKey,
    heaps: Seq<Heap>,
    trace: Seq<Exchange<'a>>,
    removed: Result<(), Error>,
    size: Result<(usize, ObjRawKey), Error>,
    translated: Result<PMEMoid, Error>,
)
    requires
        is_key_of(heaps[0], oid, key),
        oid.pool_uuid_lo != pool.uuid_lo,
        served(heaps, trace),
    ensures
        finishes(pool.spec_remove(key), trace, removed) ==> {
            &&& removed == Err::<(), Error>(Error { kind: ErrorKind::PmdkKeyNotBelongToPool })
            &&& heaps.last() == heaps[0]
        },
        finishes(pool.spec_obj_size_get(key), trace, size) ==> {
            &&& size == Err::<(usize, ObjRawKey), Error>(
                Error { kind: ErrorKind::PmdkKeyNotBelongToPool },
            )
            &&& heaps.last() == heaps[0]
        },
        finishes(pool.spec_key_to_oid(key), trace, translated) ==> {
            &&& translated == Err::<PMEMoid, Error>(
                Error { kind: ErrorKind::PmdkKeyNotBelongToPool },
            )
            &&& heaps.last() == heaps[0]
        },
{
    reveal_with_fuel(finishes, 3);
    if trace.len() > 0 {
        assert(step_served(heaps, trace, 0));
    }
}

/// The size of an object of the pool is the number of bytes that it can hold, and
/// the key that comes with it is the one that was asked with. The question changes
/// nothing.
pub proof fn law_obj_size_get<'a>(
    pool: ObjPool,
    oid: PMEMoid,
    key: ObjRawKey,
    heaps: Seq<Heap>,
    trace: Seq<Exchange<'a>>,
    result: Result<(usize, ObjRawKey), Error>,
)
    requires
        is_key_of(heaps[0], oid, key),
        oid.pool_uuid_lo == pool.uuid_lo,
        finishes(pool.spec_obj_size_get(key), trace, result),
        served(heaps, trace),
    ensures
        result matches Ok((size, same)) && size == heaps[0].objects[oid].size && same == key,
        heaps.last() == heaps[0],
{
    reveal_with_fuel(finishes, 4);
    assert(step_served(heaps, trace, 0));
    assert(step_served(heaps, trace, 1));
    assert(step_served(heaps, trace, 2));
}

/// Whether the calls of `trace` can come back with the replies of `trace` on a heap
/// that stays as it is.
pub open spec fn served_on<'a>(heap: Heap, trace: Seq<Exchange<'a>>) -> bool {
    forall|i: int|
        0 <= i < trace.len() ==> heap.answers((#[trigger] trace[i]).0, trace[i].1, heap)
}

/// Whether a walk that stands at `iter` gives the keys of the addresses `keys`, one
/// after the other, and then ends, while the heap stays as it is. Each step makes
/// the calls of one of `traces`.
pub open spec fn walks<'a>(
    iter: ObjPoolIter,
    heap: Heap,
    traces: Seq<Seq<Exchange<'a>>>,
    keys: Seq<u64>,
) -> bool
    decreases keys.len(),
{
    &&& traces.len() == keys.len() + 1
    &&& served_on(heap, traces[0])
    &&& if keys.len() == 0 {
        exists|rest: ObjPoolIter| finishes(iter.spec_next(), traces[0], (None, rest))
    } else {
        exists|rest: ObjPoolIter|
            #[trigger] finishes(
                iter.spec_next(),
                traces[0],
                (Some(ObjRawKey { addr: keys[0] }), rest),
            ) && walks(rest, heap, traces.drop_first(), keys.drop_first())
    }
}

/// A walk over a pool gives the key of each of its objects once, and no other key.
pub proof fn law_iter<'a>(
    pool: ObjPool,
    heap: Heap,
    trace: Seq<Exchange<'a>>,
    iter: ObjPoolIter,
    traces: Seq<Seq<Exchange<'a>>>,
    keys: Seq<u64>,
)
    requires
        heap.valid(),
        heap.has_open(pool),
        finishes(pool.spec_iter(), trace, iter),
        served_on(heap, trace),
        walks(iter, heap, traces, keys),
    ensures
        keys.no_duplicates(),
        forall|addr: u64| #[trigger]
            keys.contains(addr) <==> exists|oid: PMEMoid|
                oid.pool_uuid_lo == pool.uuid_lo && #[trigger] is_key_of(
                    heap,
                    oid,
                    ObjRawKey { addr },
                ),
{
    reveal_with_fuel(finishes, 2);
    assert(heap.answers(trace[0].0, trace[0].1, heap));
    let order = heap.orders[pool.uuid_lo];
    assert(heap.walks_over(heap.pools[pool.inner]));
    lemma_walk(heap, pool.uuid_lo, 0, iter, traces, keys);
    assert forall|i: int| 0 <= i < order.len() implies heap.objects.contains_key(
        #[trigger] order[i],
    ) && order[i].pool_uuid_lo == pool.uuid_lo by {
        assert(order.contains(order[i]));
    }
    assert forall|i: int, j: int| 0 <= i < j < keys.len() implies keys[i] != keys[j] by {
        if keys[i] == keys[j] {
            assert(heap.covers(order[i], keys[i] as int));
            assert(heap.covers(order[j], keys[i] as int));
        }
    }
    assert forall|addr: u64| #[trigger] keys.contains(addr) implies exists|oid: PMEMoid|
        oid.pool_uuid_lo == pool.uuid_lo && #[trigger] is_key_of(heap, oid, ObjRawKey { addr }) by {
        let i = choose|i: int| 0 <= i < keys.len() && keys[i] == addr;
        assert(is_key_of(heap, order[i], ObjRawKey { addr }));
    }
    assert forall|addr: u64|
        (exists|oid: PMEMoid|
            oid.pool_uuid_lo == pool.uuid_lo && #[trigger] is_key_of(
                heap,
                oid,
                ObjRawKey { addr },
            )) implies #[trigger] keys.contains(addr) by {
        let oid = choose|oid: PMEMoid|
            oid.pool_uuid_lo == pool.uuid_lo && #[trigger] is_key_of(
                heap,
                oid,
                ObjRawKey { addr },
            );
        assert(order.contains(oid));
        let i = choose|i: int| 0 <= i < order.len() && order[i] == oid;
        assert(keys[i] == addr);
    }
}

/// A walk that stands at the `i`th object of a pool gives the keys of that object
/// and of those after it.
proof fn lemma_walk<'a>(
    heap: Heap,
    uuid_lo: u64,
    i: int,
    iter: ObjPoolIter,
    traces: Seq<Seq<Exchange<'a>>>,
    keys: Seq<u64>,
)
    requires
        heap.valid(),
        heap.walks_over(uuid_lo),
        0 <= i <= heap.orders[uuid_lo].len(),
        iter.oid == heap.walk_at(uuid_lo, i),
        walks(iter, heap, traces, keys),
    ensures
        keys.len() == heap.orders[uuid_lo].len() - i,
        forall|k: int|
            0 <= k < keys.len() ==> #[trigger] keys[k]
                == heap.objects[heap.orders[uuid_lo][i + k]].addr,
    decreases keys.len(),
{
    reveal_with_fuel(finishes, 3);
    let order = heap.orders[uuid_lo];
    let trace = traces[0];
    if i < order.len() {
        assert(order.contains(order[i]));
        assert(heap.objects.contains_key(order[i]));
        assert(!iter.oid.is_null_oid());
        assert(heap.answers(trace[0].0, trace[0].1, heap));
        assert(heap.answers(trace[1].0, trace[1].1, heap));
        assert(heap.meets(iter.oid, i));
        assert(keys.len() > 0);
        let rest = choose|rest: ObjPoolIter| #[trigger]
            finishes(
                iter.spec_next(),
                traces[0],
                (Some(ObjRawKey { addr: keys[0] }), rest),
            ) && walks(rest, heap, traces.drop_first(), keys.drop_first());
        lemma_walk(heap, uuid_lo, i + 1, rest, traces.drop_first(), keys.drop_first());
        assert forall|k: int| 0 <= k < keys.len() implies #[trigger] keys[k]
            == heap.objects[order[i + k]].addr by {
            if k > 0 {
                assert(keys[k] == keys.drop_first()[k - 1]);
            }
        }
    }
}

/// The number of the arena that was made for a thread is the one that the thread
/// then allocates from, as long as no other arena was set for it.
pub proof fn law_arena_init_then_get<'a>(
    pool: ObjPool,
    init_heaps: Seq<Heap>,
    init_trace: Seq<Exchange<'a>>,
    made: u32,
    get_heaps: Seq<Heap>,
    get_trace: Seq<Exchange<'a>>,
    got: Result<u32, Error>,
)
    requires
        finishes(pool.spec_thread_arena_init(), init_trace, Ok(made)),
        served(init_heaps, init_trace),
        get_heaps[0].thread_arenas.contains_key(pool.inner),
        get_heaps[0].thread_arenas[pool.inner] == init_heaps.last().thread_arenas[pool.inner],
        finishes(pool.spec_thread_arena_get(), get_trace, got),
        served(get_heaps, get_trace),
    ensures
        got matches Ok(id) ==> id == made,
        got is Err ==> got == Err::<u32, Error>(Error { kind: ErrorKind::ObjError }),
{
    reveal_with_fuel(finishes, 3);
    assert(step_served(init_heaps, init_trace, 0));
    assert(step_served(init_heaps, init_trace, 1));
    assert(step_served(get_heaps, get_trace, 0));
}

/// The making of an arena fails as soon as one of its two calls does: no arena is
/// set that was not made, the one that is set is the one that was made, and the number
/// that is returned is the one that the setting left behind.
pub proof fn law_arena_init_calls<'a>(
    pool: ObjPool,
    trace: Seq<Exchange<'a>>,
    result: Result<u32, Error>,
)
    requires
        finishes(pool.spec_thread_arena_init(), trace, result),
    ensures
        trace.len() > 0,
        trace[0].0 == (Call::CtlExec {
            pool: pool.inner,
            query: Query::ArenaCreate,
            value: CtlValue::Arena(0),
        }),
        trace[0].1->Ctl_status != 0 ==> trace.len() == 1,
        trace[0].1->Ctl_status == 0 ==> {
            &&& trace.len() == 2
            &&& trace[1].0 == (Call::CtlSet {
                pool: pool.inner,
                query: Query::ThreadArenaId,
                value: trace[0].1->value,
            })
        },
        result is Ok <==> trace.len() == 2 && trace[1].1->Ctl_status == 0,
        result matches Ok(id) ==> trace[1].1->value == CtlValue::Arena(id),
        result is Err ==> result == Err::<u32, Error>(Error { kind: ErrorKind::ObjError }),
{
    reveal_with_fuel(finishes, 3);
}

/// The end of a pool closes it, and then removes its file if and only if that was
/// asked for.
pub proof fn law_drop_calls<'a>(pool: ObjPool, trace: Seq<Exchange<'a>>)
    requires
        finishes(pool.spec_drop(), trace, ()),
    ensures
        trace.len() == if pool.rm_on_drop {
            2int
        } else {
            1
        },
        trace[0].0 == (Call::Close { pool: pool.inner }),
        pool.rm_on_drop ==> trace[1].0 == (Call::Remove { path: pool.inner_path, flags: 0 }),
{
    reveal_with_fuel(finishes, 3);
}

/// A path or a layout name that C cannot take is refused before anything is
/// called; a bad path is reported even if the layout name is bad too.
pub proof fn law_open_refused<'a>(
    path: Option<Seq<char>>,
    layout: Option<Seq<char>>,
    size: usize,
    start: Progress<'a, OpenOp, Result<ObjPool, Error>>,
    trace: Seq<Exchange<'a>>,
    result: Result<ObjPool, Error>,
)
    requires
        !is_pool_path(path) || !is_layout(layout),
        starts_opening(path, layout, size, start),
        finishes(start, trace, result),
    ensures
        trace.len() == 0,
        result == Err::<ObjPool, Error>(
            Error {
                kind: if is_pool_path(path) {
                    ErrorKind::LayoutError
                } else {
                    ErrorKind::PathError
                },
            },
        ),
{
}

/// The making of a pool creates its file, allocates one small object, and frees that
/// object again; it fails as soon as the file is not created or the object not
/// allocated, and nothing is called after that.
pub proof fn law_open_calls<'a>(
    path: Option<Seq<char>>,
    layout: Option<Seq<char>>,
    size: usize,
    start: Progress<'a, OpenOp, Result<ObjPool, Error>>,
    trace: Seq<Exchange<'a>>,
    result: Result<ObjPool, Error>,
)
    requires
        is_pool_path(path),
        is_layout(layout),
        starts_opening(path, layout, size, start),
        finishes(start, trace, result),
    ensures
        trace.len() > 0,
        creates(trace[0].0, path->0, layout, size),
        trace[0].1->Pool_0 == 0 ==> trace.len() == 1,
        trace[0].1->Pool_0 != 0 ==> {
            &&& trace.len() > 1
            &&& trace[1].0 == (Call::Alloc {
                pool: trace[0].1->Pool_0,
                size: PROBE_SIZE,
                type_num: PROBE_TYPE,
            })
            &&& trace[1].1->Allocated_status != 0 ==> trace.len() == 2
            &&& trace[1].1->Allocated_status == 0 ==> {
                &&& trace.len() == 3
                &&& trace[2].0 == (Call::Free { oid: trace[1].1->oid })
            }
        },
        result is Ok <==> trace.len() == 3,
        result matches Ok(pool) ==> {
            &&& pool.inner == trace[0].1->Pool_0
            &&& pool.uuid_lo == trace[1].1->oid.pool_uuid_lo
            &&& pool.inner_path@ == path->0
            &&& !pool.rm_on_drop
        },
        result is Err ==> result == Err::<ObjPool, Error>(Error { kind: ErrorKind::ObjError }),
{
    reveal_with_fuel(finishes, 4);
}

/// A pool that was made is open, knows its own identity and its path, keeps its file
/// when it goes, has no objects, and its statistics were not switched yet. The objects
/// that were there before are unchanged, and no object is left over from the making.
pub proof fn law_open<'a>(
    path: Option<Seq<char>>,
    layout: Option<Seq<char>>,
    size: usize,
    start: Progress<'a, OpenOp, Result<ObjPool, Error>>,
    heaps: Seq<Heap>,
    trace: Seq<Exchange<'a>>,
    pool: ObjPool,
)
    requires
        heaps[0].valid(),
        starts_opening(path, layout, size, start),
        finishes(start, trace, Ok(pool)),
        served(heaps, trace),
    ensures
        creates(trace[0].0, path->0, layout, size),
        pool.inner != 0,
        pool.inner_path@ == path->0,
        !pool.rm_on_drop,
        heaps.last().valid(),
        heaps.last().has_open(pool),
        heaps.last().is_empty(pool.inner),
        !heaps.last().statistics.contains_key(pool.inner),
        heaps.last().objects == heaps[0].objects,
        heaps[0].kept_in(heaps.last()),
{
    reveal_with_fuel(finishes, 4);
    assert(step_served(heaps, trace, 0));
    assert(step_served(heaps, trace, 1));
    assert(step_served(heaps, trace, 2));
    assert(heaps[3].objects =~= heaps[0].objects);
    assert forall|other: PMEMoid| #[trigger]
        heaps[0].objects.contains_key(other) implies heaps[3].content(other) == heaps[0].content(
        other,
    ) by {
        assert(heaps[1].objects.contains_key(other));
        assert(heaps[2].content(other) == heaps[1].content(other));
        assert(heaps[1].content(other) =~= heaps[0].content(other));
        assert(heaps[3].content(other) =~= heaps[2].content(other));
    }
    let last = heaps[3];
    assert(last.walks_over(last.pools[pool.inner]));
    let order = last.orders[pool.uuid_lo];
    if order.len() > 0 {
        assert(order.contains(order[0]));
        assert(heaps[0].objects.contains_key(order[0]));
    }
}

/// The size of a pool is enough for all its objects and their headers, several times
/// over, and does not shrink when the objects become larger or more.
pub proof fn law_pool_size(capacity: nat, obj_size: nat, more: nat, larger: nat)
    requires
        capacity <= more,
        obj_size <= larger,
    ensures
        spec_pool_size(capacity as int, obj_size as int) >= OBJ_ALLOC_FACTOR * (capacity
            * obj_size),
        spec_pool_size(capacity as int, obj_size as int) >= capacity * (obj_size
            + OBJ_HEADER_SIZE),
        spec_pool_size(capacity as int, obj_size as int) <= spec_pool_size(
            more as int,
            larger as int,
        ),
{
    let one = obj_size + OBJ_HEADER_SIZE;
    let other = larger + OBJ_HEADER_SIZE;
    assert(capacity * obj_size <= capacity * one) by (nonlinear_arith)
        requires
            obj_size <= one,
            0 <= capacity,
    ;
    assert(0 <= capacity * one <= more * other) by (nonlinear_arith)
        requires
            0 <= capacity <= more,
            0 <= one <= other,
    ;
}

/// A key is the number that it is made from, and the other way round.
pub proof fn law_key_is_its_number(addr: u64, key: ObjRawKey)
    ensures
        <u64 as FromSpec<ObjRawKey>>::from_spec(<ObjRawKey as FromSpec<u64>>::from_spec(addr))
            == addr,
        <ObjRawKey as FromSpec<u64>>::from_spec(<u64 as FromSpec<ObjRawKey>>::from_spec(key))
            == key,
{
}

} // verus!
