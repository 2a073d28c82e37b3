//! What each operation does, from its first call to its result.
//!
//! Where a law says of a start that it finishes if and only if something holds of the
//! calls, the replies and the result, every reply of the right kind leads on, and to
//! nothing else.

use vstd::prelude::*;

use crate::call::{
    finishes, Call, CtlValue, Exchange, Operation, Progress, Query,
};
use crate::control::{AllocatedSizeOp, ArenaOp, CtlOp};
use crate::error::{Error, ErrorKind};
use crate::heap::{served, Heap};
use crate::iter::{IterOp, NextOp, ObjPoolIter};
use crate::key::ObjRawKey;
use crate::laws::law_update_by_rawkey;
use crate::object::{
    AllocateOp, KeyToOidOp, ObjSizeOp, PersistentOp, PutOp, ReadOp, RemoveOp, TypeOp, UpdateOp,
};
use crate::oid::PMEMoid;
use crate::pool::{CloseOp, ObjPool, OpenOp};

verus! {

/// An allocation asks for an object of the size and the type number in the pool. If it
/// gets one it asks for its address, which is the key; if not it fails.
pub proof fn law_run_allocate<'a>(
    pool: ObjPool,
    size: usize,
    data_type: u64,
    start: Progress<'a, AllocateOp, Result<ObjRawKey, Error>>,
    trace: Seq<Exchange<'a>>,
    result: Result<ObjRawKey, Error>,
)
    requires
        call_ensures(ObjPool::allocate, (&pool, size, data_type), start),
    ensures
        finishes(start, trace, result) <==> {
            &&& trace.len() > 0
            &&& trace[0].0 == (Call::Alloc { pool: pool.inner, size, type_num: data_type })
            &&& trace[0].1 is Allocated
            &&& if trace[0].1->Allocated_status == 0 {
                &&& trace.len() == 2
                &&& trace[1].0 == (Call::Direct { oid: trace[0].1->oid })
                &&& trace[1].1 is Address
                &&& result == Ok::<ObjRawKey, Error>(ObjRawKey { addr: trace[1].1->Address_0 })
            } else {
                &&& trace.len() == 1
                &&& result == Err::<ObjRawKey, Error>(Error { kind: ErrorKind::ObjError })
            }
        },
{
    reveal_with_fuel(finishes, 3);
    if start is Call {
        let op = start->Call_1;
        let reply = trace[0].1;
        let next0 = op.after::<'a>(reply);
        assert(op.leads_to(reply, next0));
        if next0 is Call {
            let op = next0->Call_1;
            let reply = trace.drop_first()[0].1;
            let next1 = op.after::<'a>(reply);
            assert(op.leads_to(reply, next1));
        }
    }
}

/// An update copies the data to the address that lies `at` bytes after that of the key,
/// where `at` is the offset, or zero without one, and gives the key back. An offset that no
/// pointer can have is refused before anything is called.
pub proof fn law_run_update<'a>(
    pool: ObjPool,
    key: ObjRawKey,
    data: &'a [u8],
    offset: Option<usize>,
    at: usize,
    start: Progress<'a, UpdateOp, Result<ObjRawKey, Error>>,
    trace: Seq<Exchange<'a>>,
    result: Result<ObjRawKey, Error>,
)
    requires
        call_ensures(ObjPool::update_by_rawkey, (&pool, key, data, offset), start),
        offset == Some(at) || (offset is None && at == 0),
        at <= isize::MAX ==> key.addr + at <= u64::MAX,
    ensures
        finishes(start, trace, result) <==> {
            if at > isize::MAX {
                &&& trace.len() == 0
                &&& result == Err::<ObjRawKey, Error>(Error { kind: ErrorKind::GenericError })
            } else {
                &&& trace.len() == 1
                &&& trace[0].0 matches Call::Copy { pool: into, dest, data: copied }
                &&& into == pool.inner
                &&& dest == key.addr + at
                &&& copied == data
                &&& trace[0].1 is Returned
                &&& result == Ok::<ObjRawKey, Error>(key)
            }
        },
{
    reveal_with_fuel(finishes, 2);
    if start is Call {
        let op = start->Call_1;
        let reply = trace[0].1;
        let next = op.after::<'a>(reply);
        assert(op.leads_to(reply, next));
    }
}

/// A put allocates an object of the length of the data, asks for its address, copies the
/// data to that address, and gives the address as the key. Without an object it copies
/// nothing and fails.
pub proof fn law_run_put<'a>(
    pool: ObjPool,
    data: &'a [u8],
    data_type: u64,
    start: Progress<'a, PutOp<'a>, Result<ObjRawKey, Error>>,
    trace: Seq<Exchange<'a>>,
    result: Result<ObjRawKey, Error>,
)
    requires
        call_ensures(ObjPool::put, (&pool, data, data_type), start),
        data@.len() <= usize::MAX,
    ensures
        finishes(start, trace, result) <==> {
            &&& trace.len() > 0
            &&& trace[0].0 matches Call::Alloc { pool: into, size, type_num }
            &&& into == pool.inner
            &&& size == data@.len()
            &&& type_num == data_type
            &&& trace[0].1 is Allocated
            &&& if trace[0].1->Allocated_status == 0 {
                &&& trace.len() == 3
                &&& trace[1].0 == (Call::Direct { oid: trace[0].1->oid })
                &&& trace[1].1 is Address
                &&& trace[2].0 == (Call::Copy {
                    pool: pool.inner,
                    dest: trace[1].1->Address_0,
                    data,
                })
                &&& trace[2].1 is Returned
                &&& result == Ok::<ObjRawKey, Error>(ObjRawKey { addr: trace[1].1->Address_0 })
            } else {
                &&& trace.len() == 1
                &&& result == Err::<ObjRawKey, Error>(Error { kind: ErrorKind::ObjError })
            }
        },
{
    reveal_with_fuel(finishes, 4);
    if start is Call {
        let op = start->Call_1;
        let reply = trace[0].1;
        let next0 = op.after(reply);
        assert(op.leads_to(reply, next0));
        if next0 is Call {
            let op = next0->Call_1;
            let reply = trace.drop_first()[0].1;
            let next1 = op.after(reply);
            assert(op.leads_to(reply, next1));
            if next1 is Call {
                let op = next1->Call_1;
                let reply = trace.drop_first().drop_first()[0].1;
                let next2 = op.after(reply);
                assert(op.leads_to(reply, next2));
            }
        }
    }
}

/// The translation of a key asks which object lies at its address, and gives the
/// identifier if it carries the identity of the pool. Any other identifier is refused.
pub proof fn law_run_key_to_oid<'a>(
    pool: ObjPool,
    key: ObjRawKey,
    start: Progress<'a, KeyToOidOp, Result<PMEMoid, Error>>,
    trace: Seq<Exchange<'a>>,
    result: Result<PMEMoid, Error>,
)
    requires
        call_ensures(ObjPool::key_to_oid, (&pool, key), start),
    ensures
        finishes(start, trace, result) <==> {
            &&& trace.len() == 1
            &&& trace[0].0 == (Call::Oid { addr: key.addr })
            &&& trace[0].1 is Oid
            &&& result == if trace[0].1->Oid_0.pool_uuid_lo == pool.uuid_lo {
                Ok::<PMEMoid, Error>(trace[0].1->Oid_0)
            } else {
                Err(Error { kind: ErrorKind::PmdkKeyNotBelongToPool })
            }
        },
{
    reveal_with_fuel(finishes, 2);
    if start is Call {
        let op = start->Call_1;
        let reply = trace[0].1;
        let next = op.after::<'a>(reply);
        assert(op.leads_to(reply, next));
    }
}

/// A question for the size asks which object lies at the address of the key, and then, if
/// it is one of the pool, for its size and for its address, and gives both.
pub proof fn law_run_obj_size_get<'a>(
    pool: ObjPool,
    key: ObjRawKey,
    start: Progress<'a, ObjSizeOp, Result<(usize, ObjRawKey), Error>>,
    trace: Seq<Exchange<'a>>,
    result: Result<(usize, ObjRawKey), Error>,
)
    requires
        call_ensures(ObjPool::obj_size_get, (&pool, key), start),
    ensures
        finishes(start, trace, result) <==> {
            &&& trace.len() > 0
            &&& trace[0].0 == (Call::Oid { addr: key.addr })
            &&& trace[0].1 is Oid
            &&& if trace[0].1->Oid_0.pool_uuid_lo == pool.uuid_lo {
                &&& trace.len() == 3
                &&& trace[1].0 == (Call::UsableSize { oid: trace[0].1->Oid_0 })
                &&& trace[1].1 is Size
                &&& trace[2].0 == (Call::Direct { oid: trace[0].1->Oid_0 })
                &&& trace[2].1 is Address
                &&& result == Ok::<(usize, ObjRawKey), Error>(
                    (trace[1].1->Size_0, ObjRawKey { addr: trace[2].1->Address_0 }),
                )
            } else {
                &&& trace.len() == 1
                &&& result == Err::<(usize, ObjRawKey), Error>(
                    Error { kind: ErrorKind::PmdkKeyNotBelongToPool },
                )
            }
        },
{
    reveal_with_fuel(finishes, 4);
    if start is Call {
        let op = start->Call_1;
        let reply = trace[0].1;
        let next0 = op.after::<'a>(reply);
        assert(op.leads_to(reply, next0));
        if next0 is Call {
            let op = next0->Call_1;
            let reply = trace.drop_first()[0].1;
            let next1 = op.after::<'a>(reply);
            assert(op.leads_to(reply, next1));
            if next1 is Call {
                let op = next1->Call_1;
                let reply = trace.drop_first().drop_first()[0].1;
                let next2 = op.after::<'a>(reply);
                assert(op.leads_to(reply, next2));
            }
        }
    }
}

/// A removal asks which object lies at the address of the key, and frees it if it is one of
/// the pool. Any other is refused, and nothing is freed.
pub proof fn law_run_remove<'a>(
    pool: ObjPool,
    key: ObjRawKey,
    start: Progress<'a, RemoveOp, Result<(), Error>>,
    trace: Seq<Exchange<'a>>,
    result: Result<(), Error>,
)
    requires
        call_ensures(ObjPool::remove, (&pool, key), start),
    ensures
        finishes(start, trace, result) <==> {
            &&& trace.len() > 0
            &&& trace[0].0 == (Call::Oid { addr: key.addr })
            &&& trace[0].1 is Oid
            &&& if trace[0].1->Oid_0.pool_uuid_lo == pool.uuid_lo {
                &&& trace.len() == 2
                &&& trace[1].0 == (Call::Free { oid: trace[0].1->Oid_0 })
                &&& trace[1].1 is Returned
                &&& result == Ok::<(), Error>(())
            } else {
                &&& trace.len() == 1
                &&& result == Err::<(), Error>(Error { kind: ErrorKind::PmdkKeyNotBelongToPool })
            }
        },
{
    reveal_with_fuel(finishes, 3);
    if start is Call {
        let op = start->Call_1;
        let reply = trace[0].1;
        let next0 = op.after::<'a>(reply);
        assert(op.leads_to(reply, next0));
        if next0 is Call {
            let op = next0->Call_1;
            let reply = trace.drop_first()[0].1;
            let next1 = op.after::<'a>(reply);
            assert(op.leads_to(reply, next1));
        }
    }
}

/// A read gives the bytes that lie at the address of the key, as many as were asked for,
/// and the key back.
pub proof fn law_run_get_by_rawkey<'a>(
    pool: ObjPool,
    key: ObjRawKey,
    len: usize,
    start: Progress<'a, ReadOp, (ObjRawKey, Vec<u8>)>,
    trace: Seq<Exchange<'a>>,
    result: (ObjRawKey, Vec<u8>),
)
    requires
        call_ensures(ObjPool::get_by_rawkey, (&pool, key, len), start),
    ensures
        finishes(start, trace, result) <==> {
            &&& trace.len() == 1
            &&& trace[0].0 == (Call::Read { addr: key.addr, len })
            &&& trace[0].1 is Bytes
            &&& trace[0].1->Bytes_0@.len() == len
            &&& result == (key, trace[0].1->Bytes_0)
        },
{
    reveal_with_fuel(finishes, 2);
    if start is Call {
        let op = start->Call_1;
        let reply = trace[0].1;
        let next = op.after::<'a>(reply);
        assert(op.leads_to(reply, next));
    }
}

/// The persistent identifier of a key is that of the object at its address.
pub proof fn law_run_as_persistent<'a>(
    key: ObjRawKey,
    start: Progress<'a, PersistentOp, PMEMoid>,
    trace: Seq<Exchange<'a>>,
    result: PMEMoid,
)
    requires
        call_ensures(ObjRawKey::as_persistent, (&key,), start),
    ensures
        finishes(start, trace, result) <==> {
            &&& trace.len() == 1
            &&& trace[0].0 == (Call::Oid { addr: key.addr })
            &&& trace[0].1 is Oid
            &&& result == trace[0].1->Oid_0
        },
{
    reveal_with_fuel(finishes, 2);
    if start is Call {
        let op = start->Call_1;
        let reply = trace[0].1;
        let next = op.after::<'a>(reply);
        assert(op.leads_to(reply, next));
    }
}

/// The type number of a key is that of the object at its address.
pub proof fn law_run_get_type<'a>(
    key: ObjRawKey,
    start: Progress<'a, TypeOp, u64>,
    trace: Seq<Exchange<'a>>,
    result: u64,
)
    requires
        call_ensures(ObjRawKey::get_type, (&key,), start),
    ensures
        finishes(start, trace, result) <==> {
            &&& trace.len() == 2
            &&& trace[0].0 == (Call::Oid { addr: key.addr })
            &&& trace[0].1 is Oid
            &&& trace[1].0 == (Call::TypeNum { oid: trace[0].1->Oid_0 })
            &&& trace[1].1 is TypeNum
            &&& result == trace[1].1->TypeNum_0
        },
{
    reveal_with_fuel(finishes, 3);
    if start is Call {
        let op = start->Call_1;
        let reply = trace[0].1;
        let next0 = op.after::<'a>(reply);
        assert(op.leads_to(reply, next0));
        if next0 is Call {
            let op = next0->Call_1;
            let reply = trace.drop_first()[0].1;
            let next1 = op.after::<'a>(reply);
            assert(op.leads_to(reply, next1));
        }
    }
}

/// A walk stands first at the first object of the pool.
pub proof fn law_run_iter<'a>(
    pool: ObjPool,
    start: Progress<'a, IterOp, ObjPoolIter>,
    trace: Seq<Exchange<'a>>,
    result: ObjPoolIter,
)
    requires
        call_ensures(ObjPool::iter, (&pool,), start),
    ensures
        finishes(start, trace, result) <==> {
            &&& trace.len() == 1
            &&& trace[0].0 == (Call::First { pool: pool.inner })
            &&& trace[0].1 is Oid
            &&& result == (ObjPoolIter { oid: trace[0].1->Oid_0 })
        },
{
    reveal_with_fuel(finishes, 2);
    if start is Call {
        let op = start->Call_1;
        let reply = trace[0].1;
        let next = op.after::<'a>(reply);
        assert(op.leads_to(reply, next));
    }
}

/// A step of a walk gives the address of the object where the walk stands, and goes on to
/// the object after it. Where both parts of the identifier are zero the walk has ended: nothing
/// is called, there is no key, and it stays there.
pub proof fn law_run_next<'a>(
    iter: ObjPoolIter,
    start: Progress<'a, NextOp, (Option<ObjRawKey>, ObjPoolIter)>,
    trace: Seq<Exchange<'a>>,
    result: (Option<ObjRawKey>, ObjPoolIter),
)
    requires
        call_ensures(ObjPoolIter::next, (iter,), start),
    ensures
        finishes(start, trace, result) <==> {
            if iter.oid.pool_uuid_lo == 0 && iter.oid.off == 0 {
                &&& trace.len() == 0
                &&& result == (None::<ObjRawKey>, iter)
            } else {
                &&& trace.len() == 2
                &&& trace[0].0 == (Call::Next { oid: iter.oid })
                &&& trace[0].1 is Oid
                &&& trace[1].0 == (Call::Direct { oid: iter.oid })
                &&& trace[1].1 is Address
                &&& result.0 == Some(ObjRawKey { addr: trace[1].1->Address_0 })
                &&& result.1.oid == trace[0].1->Oid_0
            }
        },
{
    reveal_with_fuel(finishes, 3);
    if start is Call {
        let op = start->Call_1;
        let reply = trace[0].1;
        let next0 = op.after::<'a>(reply);
        assert(op.leads_to(reply, next0));
        if next0 is Call {
            let op = next0->Call_1;
            let reply = trace.drop_first()[0].1;
            let next1 = op.after::<'a>(reply);
            assert(op.leads_to(reply, next1));
        }
    }
}

/// A query that is carried out makes one call with the query and the value. The result is whether
/// the status was zero, and the value that came back.
pub proof fn law_run_ctl_exec<'a>(
    pool: ObjPool,
    query: Query,
    value: CtlValue,
    start: Progress<'a, CtlOp, (Result<(), Error>, CtlValue)>,
    trace: Seq<Exchange<'a>>,
    result: (Result<(), Error>, CtlValue),
)
    requires
        call_ensures(ObjPool::ctl_exec, (&pool, query, value), start),
    ensures
        finishes(start, trace, result) <==> {
            &&& trace.len() == 1
            &&& trace[0].0 == (Call::CtlExec { pool: pool.inner, query, value })
            &&& trace[0].1 is Ctl
            &&& value is Arena <==> trace[0].1->value is Arena
            &&& value is Bytes <==> trace[0].1->value is Bytes
            &&& value is Switch <==> trace[0].1->value is Switch
            &&& result.1 == trace[0].1->value
            &&& result.0 == if trace[0].1->Ctl_status == 0 {
                Ok::<(), Error>(())
            } else {
                Err(Error { kind: ErrorKind::ObjError })
            }
        },
{
    reveal_with_fuel(finishes, 2);
    if start is Call {
        let op = start->Call_1;
        let reply = trace[0].1;
        let next = op.after::<'a>(reply);
        assert(op.leads_to(reply, next));
    }
}

/// A query that is set makes one call with the query and the value. The result is whether
/// the status was zero, and the value that came back.
pub proof fn law_run_ctl_set<'a>(
    pool: ObjPool,
    query: Query,
    value: CtlValue,
    start: Progress<'a, CtlOp, (Result<(), Error>, CtlValue)>,
    trace: Seq<Exchange<'a>>,
    result: (Result<(), Error>, CtlValue),
)
    requires
        call_ensures(ObjPool::ctl_set, (&pool, query, value), start),
    ensures
        finishes(start, trace, result) <==> {
            &&& trace.len() == 1
            &&& trace[0].0 == (Call::CtlSet { pool: pool.inner, query, value })
            &&& trace[0].1 is Ctl
            &&& value is Arena <==> trace[0].1->value is Arena
            &&& value is Bytes <==> trace[0].1->value is Bytes
            &&& value is Switch <==> trace[0].1->value is Switch
            &&& result.1 == trace[0].1->value
            &&& result.0 == if trace[0].1->Ctl_status == 0 {
                Ok::<(), Error>(())
            } else {
                Err(Error { kind: ErrorKind::ObjError })
            }
        },
{
    reveal_with_fuel(finishes, 2);
    if start is Call {
        let op = start->Call_1;
        let reply = trace[0].1;
        let next = op.after::<'a>(reply);
        assert(op.leads_to(reply, next));
    }
}

/// A query that is read makes one call with the query and the value. The result is whether
/// the status was zero, and the value that came back.
pub proof fn law_run_ctl_get<'a>(
    pool: ObjPool,
    query: Query,
    value: CtlValue,
    start: Progress<'a, CtlOp, (Result<(), Error>, CtlValue)>,
    trace: Seq<Exchange<'a>>,
    result: (Result<(), Error>, CtlValue),
)
    requires
        call_ensures(ObjPool::ctl_get, (&pool, query, value), start),
    ensures
        finishes(start, trace, result) <==> {
            &&& trace.len() == 1
            &&& trace[0].0 == (Call::CtlGet { pool: pool.inner, query, value })
            &&& trace[0].1 is Ctl
            &&& value is Arena <==> trace[0].1->value is Arena
            &&& value is Bytes <==> trace[0].1->value is Bytes
            &&& value is Switch <==> trace[0].1->value is Switch
            &&& result.1 == trace[0].1->value
            &&& result.0 == if trace[0].1->Ctl_status == 0 {
                Ok::<(), Error>(())
            } else {
                Err(Error { kind: ErrorKind::ObjError })
            }
        },
{
    reveal_with_fuel(finishes, 2);
    if start is Call {
        let op = start->Call_1;
        let reply = trace[0].1;
        let next = op.after::<'a>(reply);
        assert(op.leads_to(reply, next));
    }
}

/// The making of an arena for a thread has an arena made, and sets the thread to the arena
/// that came back. The result is the number that the setting left behind, and the first status
/// that is not zero fails it.
pub proof fn law_run_thread_arena_init<'a>(
    pool: ObjPool,
    start: Progress<'a, ArenaOp, Result<u32, Error>>,
    trace: Seq<Exchange<'a>>,
    result: Result<u32, Error>,
)
    requires
        call_ensures(ObjPool::thread_arena_init, (&pool,), start),
    ensures
        finishes(start, trace, result) <==> {
            &&& trace.len() > 0
            &&& trace[0].0 == (Call::CtlExec {
                pool: pool.inner,
                query: Query::ArenaCreate,
                value: CtlValue::Arena(0),
            })
            &&& trace[0].1 is Ctl
            &&& trace[0].1->value is Arena
            &&& if trace[0].1->Ctl_status == 0 {
                &&& trace.len() == 2
                &&& trace[1].0 == (Call::CtlSet {
                    pool: pool.inner,
                    query: Query::ThreadArenaId,
                    value: trace[0].1->value,
                })
                &&& trace[1].1 is Ctl
                &&& trace[1].1->value is Arena
                &&& result == if trace[1].1->Ctl_status == 0 {
                    Ok::<u32, Error>(trace[1].1->value->Arena_0)
                } else {
                    Err(Error { kind: ErrorKind::ObjError })
                }
            } else {
                &&& trace.len() == 1
                &&& result == Err::<u32, Error>(Error { kind: ErrorKind::ObjError })
            }
        },
{
    reveal_with_fuel(finishes, 3);
    if start is Call {
        let op = start->Call_1;
        let reply = trace[0].1;
        let next0 = op.after::<'a>(reply);
        assert(op.leads_to(reply, next0));
        if next0 is Call {
            let op = next0->Call_1;
            let reply = trace.drop_first()[0].1;
            let next1 = op.after::<'a>(reply);
            assert(op.leads_to(reply, next1));
        }
    }
}

/// The arena of a thread is the number that libpmemobj answers with, if the status is zero.
pub proof fn law_run_thread_arena_get<'a>(
    pool: ObjPool,
    start: Progress<'a, ArenaOp, Result<u32, Error>>,
    trace: Seq<Exchange<'a>>,
    result: Result<u32, Error>,
)
    requires
        call_ensures(ObjPool::thread_arena_get, (&pool,), start),
    ensures
        finishes(start, trace, result) <==> {
            &&& trace.len() == 1
            &&& trace[0].0 == (Call::CtlGet {
                pool: pool.inner,
                query: Query::ThreadArenaId,
                value: CtlValue::Arena(0),
            })
            &&& trace[0].1 is Ctl
            &&& trace[0].1->value is Arena
            &&& match result {
                Ok(n) => trace[0].1->Ctl_status == 0 && trace[0].1->value == CtlValue::Arena(n),
                Err(error) => trace[0].1->Ctl_status != 0 && error.kind == ErrorKind::ObjError,
            }
        },
{
    reveal_with_fuel(finishes, 2);
    if start is Call {
        let op = start->Call_1;
        let reply = trace[0].1;
        let next = op.after::<'a>(reply);
        assert(op.leads_to(reply, next));
    }
}

/// The bytes that are allocated in a pool are the number that libpmemobj answers with, if
/// the status is zero.
pub proof fn law_run_allocated_size_get<'a>(
    pool: ObjPool,
    start: Progress<'a, AllocatedSizeOp, Result<u64, Error>>,
    trace: Seq<Exchange<'a>>,
    result: Result<u64, Error>,
)
    requires
        call_ensures(ObjPool::allocated_size_get, (&pool,), start),
    ensures
        finishes(start, trace, result) <==> {
            &&& trace.len() == 1
            &&& trace[0].0 == (Call::CtlGet {
                pool: pool.inner,
                query: Query::HeapCurrAllocated,
                value: CtlValue::Bytes(0),
            })
            &&& trace[0].1 is Ctl
            &&& trace[0].1->value is Bytes
            &&& match result {
                Ok(n) => trace[0].1->Ctl_status == 0 && trace[0].1->value == CtlValue::Bytes(n),
                Err(error) => trace[0].1->Ctl_status != 0 && error.kind == ErrorKind::ObjError,
            }
        },
{
    reveal_with_fuel(finishes, 2);
    if start is Call {
        let op = start->Call_1;
        let reply = trace[0].1;
        let next = op.after::<'a>(reply);
        assert(op.leads_to(reply, next));
    }
}

/// The bytes that an arena takes are the number that libpmemobj answers with for this
/// arena, if the status is zero.
pub proof fn law_run_thread_allocated_size_get<'a>(
    pool: ObjPool,
    arena_id: u32,
    start: Progress<'a, AllocatedSizeOp, Result<u64, Error>>,
    trace: Seq<Exchange<'a>>,
    result: Result<u64, Error>,
)
    requires
        call_ensures(ObjPool::thread_allocated_size_get, (&pool, arena_id), start),
    ensures
        finishes(start, trace, result) <==> {
            &&& trace.len() == 1
            &&& trace[0].0 == (Call::CtlGet {
                pool: pool.inner,
                query: Query::ArenaSize(arena_id),
                value: CtlValue::Bytes(0),
            })
            &&& trace[0].1 is Ctl
            &&& trace[0].1->value is Bytes
            &&& match result {
                Ok(n) => trace[0].1->Ctl_status == 0 && trace[0].1->value == CtlValue::Bytes(n),
                Err(error) => trace[0].1->Ctl_status != 0 && error.kind == ErrorKind::ObjError,
            }
        },
{
    reveal_with_fuel(finishes, 2);
    if start is Call {
        let op = start->Call_1;
        let reply = trace[0].1;
        let next = op.after::<'a>(reply);
        assert(op.leads_to(reply, next));
    }
}

/// The end of a pool closes it, and then removes the file at its path if and only if that
/// was asked for.
pub proof fn law_run_drop<'a>(
    pool: ObjPool,
    start: Progress<'a, CloseOp, ()>,
    trace: Seq<Exchange<'a>>,
    result: (),
)
    requires
        call_ensures(ObjPool::drop, (pool,), start),
    ensures
        finishes(start, trace, result) <==> {
            &&& trace.len() == if pool.rm_on_drop {
                2int
            } else {
                1
            }
            &&& trace[0].0 == (Call::Close { pool: pool.inner })
            &&& trace[0].1 is Returned
            &&& pool.rm_on_drop ==> {
                &&& trace[1].0 == (Call::Remove { path: pool.inner_path, flags: 0 })
                &&& trace[1].1 is Returned
            }
        },
{
    reveal_with_fuel(finishes, 3);
    if start is Call {
        let op = start->Call_1;
        let reply = trace[0].1;
        let next0 = op.after::<'a>(reply);
        assert(op.leads_to(reply, next0));
        if next0 is Call {
            let op = next0->Call_1;
            let reply = trace.drop_first()[0].1;
            let next1 = op.after::<'a>(reply);
            assert(op.leads_to(reply, next1));
        }
    }
}

/// An update of an object from an offset on leaves the object with the bytes before the
/// offset as they were, then the data, then the bytes after it as they were. Without an
/// offset it is the same from the start of the object on. All other objects stay as they
/// were.
pub proof fn law_update_content<'a>(
    pool: ObjPool,
    oid: PMEMoid,
    key: ObjRawKey,
    data: &'a [u8],
    offset: Option<usize>,
    at: usize,
    start: Progress<'a, UpdateOp, Result<ObjRawKey, Error>>,
    heaps: Seq<Heap>,
    trace: Seq<Exchange<'a>>,
    result: Result<ObjRawKey, Error>,
)
    requires
        call_ensures(ObjPool::update_by_rawkey, (&pool, key, data, offset), start),
        offset == Some(at) || (offset is None && at == 0),
        at <= isize::MAX,
        heaps[0].valid(),
        heaps[0].objects.contains_key(oid),
        heaps[0].objects[oid].addr == key.addr,
        at + data@.len() <= heaps[0].objects[oid].size,
        finishes(start, trace, result),
        served(heaps, trace),
    ensures
        result == Ok::<ObjRawKey, Error>(key),
        heaps.last().objects == heaps[0].objects,
        heaps.last().content(oid) == heaps[0].content(oid).take(at as int) + data@
            + heaps[0].content(oid).skip(at + data@.len()),
        forall|i: int|
            0 <= i < heaps[0].objects[oid].size ==> #[trigger] heaps.last().content(oid)[i]
                == if at <= i < at + data@.len() {
                data@[i - at]
            } else {
                heaps[0].content(oid)[i]
            },
        forall|other: PMEMoid| #[trigger]
            heaps[0].objects.contains_key(other) && other != oid ==> heaps.last().content(other)
                == heaps[0].content(other),
{
    law_update_by_rawkey(pool, oid, key, data, offset, heaps, trace, result);
}

/// The making of a pool, of a size that is given or of one that follows from its objects.
/// A path that is missing or holds a NUL character is refused at once, and otherwise so is
/// a layout name that holds one. Every other path and layout name are handed on as they
/// are, with the size and the rights to read and write for everybody.
///
/// Then an object of one byte is allocated and freed again. The pool that comes of it is
/// the one that was created, has the identity that this object carried, and keeps its file.
/// Without a pool or without the object the making fails, and nothing is called after that.
/// Every reply of the right kind leads to a result.
pub proof fn law_run_open<'a>(
    path: Option<String>,
    layout: Option<String>,
    size: usize,
    obj_size: usize,
    capacity: usize,
    start: Progress<'a, OpenOp, Result<ObjPool, Error>>,
    trace: Seq<Exchange<'a>>,
    result: Result<ObjPool, Error>,
)
    requires
        call_ensures(ObjPool::with_size, (path, layout, size), start) || {
            &&& call_ensures(ObjPool::new, (path, layout, obj_size, capacity), start)
            &&& size == 3 * capacity * (obj_size + 64)
        },
    ensures
        path is None ==> start == Progress::<'a, OpenOp, Result<ObjPool, Error>>::Done(
            Err(Error { kind: ErrorKind::PathError }),
        ),
        path matches Some(text) ==> (exists|i: int|
            0 <= i < text@.len() && #[trigger] text@[i] == '\0') ==> start == Progress::<
            'a,
            OpenOp,
            Result<ObjPool, Error>,
        >::Done(Err(Error { kind: ErrorKind::PathError })),
        path matches Some(text) ==> (forall|i: int|
            0 <= i < text@.len() ==> #[trigger] text@[i] != '\0') ==> match layout {
            Some(name) => if forall|i: int|
                0 <= i < name@.len() ==> #[trigger] name@[i] != '\0' {
                &&& start matches Progress::Call(
                    Call::Create { path: p, layout: Some(l), size: s, mode },
                    _,
                )
                &&& p@ == text@
                &&& l@ == name@
                &&& s == size
                &&& mode == 0o666
            } else {
                start == Progress::<'a, OpenOp, Result<ObjPool, Error>>::Done(
                    Err(Error { kind: ErrorKind::LayoutError }),
                )
            },
            None => {
                &&& start matches Progress::Call(
                    Call::Create { path: p, layout: None, size: s, mode },
                    _,
                )
                &&& p@ == text@
                &&& s == size
                &&& mode == 0o666
            },
        },
        start is Call && finishes(start, trace, result) ==> {
            &&& trace.len() > 0
            &&& trace[0].0 == start->Call_0
            &&& if trace[0].1->Pool_0 == 0 {
                trace.len() == 1 && result is Err
            } else {
                &&& trace.len() > 1
                &&& trace[1].0 == (Call::Alloc {
                    pool: trace[0].1->Pool_0,
                    size: 1,
                    type_num: 10_000,
                })
                &&& if trace[1].1->Allocated_status == 0 {
                    &&& trace.len() == 3
                    &&& trace[2].0 == (Call::Free { oid: trace[1].1->oid })
                    &&& result matches Ok(pool)
                    &&& pool.inner == trace[0].1->Pool_0
                    &&& pool.uuid_lo == trace[1].1->oid.pool_uuid_lo
                    &&& pool.inner_path@ == path->0@
                    &&& !pool.rm_on_drop
                } else {
                    trace.len() == 2 && result is Err
                }
            }
            &&& result matches Err(error) ==> error.kind == ErrorKind::ObjError
        },
        start is Call && trace.len() > 0 && trace[0].0 == start->Call_0 && trace[0].1 is Pool && {
            if trace[0].1->Pool_0 == 0 {
                trace.len() == 1
            } else {
                &&& trace.len() > 1
                &&& trace[1].0 == (Call::Alloc {
                    pool: trace[0].1->Pool_0,
                    size: 1,
                    type_num: 10_000,
                })
                &&& trace[1].1 is Allocated
                &&& if trace[1].1->Allocated_status == 0 {
                    &&& trace.len() == 3
                    &&& trace[2].0 == (Call::Free { oid: trace[1].1->oid })
                    &&& trace[2].1 is Returned
                } else {
                    trace.len() == 2
                }
            }
        } ==> exists|end: Result<ObjPool, Error>| finishes(start, trace, end),
{
    reveal_with_fuel(finishes, 4);
    assert(3 * capacity * (obj_size + 64) == capacity * (obj_size + 64) * 3)
        by (nonlinear_arith);
    if start is Call {
        let first = start->Call_1;
        let rest = trace.drop_first();
        let next = first.after::<'a>(trace[0].1);
        assert(first.leads_to(trace[0].1, next));
        if next is Call {
            let second = next->Call_1;
            let last = rest.drop_first();
            let after = second.after::<'a>(rest[0].1);
            assert(second.leads_to(rest[0].1, after));
            if after is Call {
                let third = after->Call_1;
                let end = third.after::<'a>(last[0].1);
                assert(third.leads_to(last[0].1, end));
                if end is Done {
                    assert(finishes(end, last.drop_first(), end->Done_0) == (last.drop_first().len()
                        == 0));
                    assert(trace.len() == 3 && trace[0].1 is Pool && trace[1].1 is Allocated
                        && trace[0].0 == start->Call_0 && trace[1].0 == next->Call_0
                        && trace[2].0 == after->Call_0 && trace[2].1 is Returned ==> finishes(
                        start,
                        trace,
                        end->Done_0,
                    ));
                }
            } else {
                assert(trace.len() == 2 && trace[0].1 is Pool && trace[1].1 is Allocated
                    && trace[0].0 == start->Call_0 && trace[1].0 == next->Call_0 ==> finishes(
                    start,
                    trace,
                    after->Done_0,
                ));
            }
        } else {
            assert(trace.len() == 1 && trace[0].1 is Pool && trace[0].0 == start->Call_0
                ==> finishes(start, trace, next->Done_0));
        }
    }
}

} // verus!
