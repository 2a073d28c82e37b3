//! Queries to the allocator of a pool.

use vstd::prelude::*;

use crate::call::{ready, Call, CtlValue, Operation, Progress, Query, Reply};
use crate::error::Error;
use crate::pool::ObjPool;

verus! {

/// The meaning of a status: zero is success.
pub open spec fn spec_status_as_result(status: i32) -> Result<(), Error> {
    if status == 0 {
        Ok(())
    } else {
        Err(Error::spec_obj_error())
    }
}

/// The meaning of a status: zero is success.
pub fn status_as_result(status: i32) -> (result: Result<(), Error>)
    ensures
        result == spec_status_as_result(status),
{
    match status {
        0 => Ok(()),
        _ => Err(Error::obj_error()),
    }
}

/// A query.
pub enum CtlOp {
    /// The query is being answered; it was asked with this value.
    Asking { value: CtlValue },
}

impl CtlOp {
    /// What `reply` leads to.
    pub open spec fn after<'a>(self, reply: Reply) -> Progress<
        'a,
        CtlOp,
        (Result<(), Error>, CtlValue),
    > {
        Progress::Done((spec_status_as_result(reply->Ctl_status), reply->value))
    }
}

impl<'a> Operation<'a> for CtlOp {
    type Output = (Result<(), Error>, CtlValue);

    open spec fn awaits(self, reply: Reply) -> bool {
        match self {
            CtlOp::Asking { value } => reply is Ctl && value.same_type(reply->value),
        }
    }

    open spec fn leads_to(self, reply: Reply, next: Progress<'a, Self, Self::Output>) -> bool {
        next == self.after(reply)
    }

    fn resume(self, reply: Reply) -> (next: Progress<'a, Self, Self::Output>) {
        let (status, value): (i32, CtlValue) = reply.ctl();
        Progress::Done((status_as_result(status), value))
    }
}

/// A query whose value is the number of an arena.
pub enum ArenaOp {
    /// An arena is being made in this pool, for the calling thread.
    Creating { op: CtlOp, pool: u64 },
    /// The number of the arena of the calling thread is being read or set.
    Asking { op: CtlOp },
}

impl ArenaOp {
    /// What `reply` leads to.
    pub open spec fn after<'a>(self, reply: Reply) -> Progress<'a, ArenaOp, Result<u32, Error>> {
        match self {
            ArenaOp::Creating { pool, .. } => if reply->Ctl_status == 0 {
                Progress::Call(
                    Call::CtlSet { pool, query: Query::ThreadArenaId, value: reply->value },
                    ArenaOp::Asking { op: CtlOp::Asking { value: reply->value } },
                )
            } else {
                Progress::Done(Err(Error::spec_obj_error()))
            },
            ArenaOp::Asking { .. } => if reply->Ctl_status == 0 {
                Progress::Done(Ok(reply->value->Arena_0))
            } else {
                Progress::Done(Err(Error::spec_obj_error()))
            },
        }
    }
}

impl<'a> Operation<'a> for ArenaOp {
    type Output = Result<u32, Error>;

    open spec fn awaits(self, reply: Reply) -> bool {
        match self {
            ArenaOp::Creating { op, .. } => op.awaits(reply) && reply->value is Arena,
            ArenaOp::Asking { op } => op.awaits(reply) && reply->value is Arena,
        }
    }

    open spec fn leads_to(self, reply: Reply, next: Progress<'a, Self, Self::Output>) -> bool {
        next == self.after(reply)
    }

    fn resume(self, reply: Reply) -> (next: Progress<'a, Self, Self::Output>) {
        match self {
            ArenaOp::Creating { op, pool } => match op.resume(reply) {
                Progress::Done((Ok(()), value)) => {
                    match start_ctl_set(pool, Query::ThreadArenaId, value) {
                        Progress::Call(call, op) => Progress::Call(call, ArenaOp::Asking { op }),
                        Progress::Done(_) => vstd::pervasive::unreached(),
                    }
                },
                Progress::Done((Err(error), _)) => Progress::Done(Err(error)),
                Progress::Call(_, _) => vstd::pervasive::unreached(),
            },
            ArenaOp::Asking { op } => match op.resume(reply) {
                Progress::Done((Ok(()), CtlValue::Arena(id))) => Progress::Done(Ok(id)),
                Progress::Done((Err(error), _)) => Progress::Done(Err(error)),
                _ => vstd::pervasive::unreached(),
            },
        }
    }
}

/// A query whose value is a number of bytes.
pub enum AllocatedSizeOp {
    /// The number is being asked for.
    Asking { op: CtlOp },
}

impl AllocatedSizeOp {
    /// What `reply` leads to.
    pub open spec fn after<'a>(self, reply: Reply) -> Progress<
        'a,
        AllocatedSizeOp,
        Result<u64, Error>,
    > {
        if reply->Ctl_status == 0 {
            Progress::Done(Ok(reply->value->Bytes_0))
        } else {
            Progress::Done(Err(Error::spec_obj_error()))
        }
    }
}

impl<'a> Operation<'a> for AllocatedSizeOp {
    type Output = Result<u64, Error>;

    open spec fn awaits(self, reply: Reply) -> bool {
        match self {
            AllocatedSizeOp::Asking { op } => op.awaits(reply) && reply->value is Bytes,
        }
    }

    open spec fn leads_to(self, reply: Reply, next: Progress<'a, Self, Self::Output>) -> bool {
        next == self.after(reply)
    }

    fn resume(self, reply: Reply) -> (next: Progress<'a, Self, Self::Output>) {
        match self {
            AllocatedSizeOp::Asking { op } => match op.resume(reply) {
                Progress::Done((Ok(()), CtlValue::Bytes(size))) => Progress::Done(Ok(size)),
                Progress::Done((Err(error), _)) => Progress::Done(Err(error)),
                _ => vstd::pervasive::unreached(),
            },
        }
    }
}

fn start_ctl_set<'a>(pool: u64, query: Query, value: CtlValue) -> (start: Progress<
    'a,
    CtlOp,
    (Result<(), Error>, CtlValue),
>)
    ensures
        start == Progress::<'a, CtlOp, (Result<(), Error>, CtlValue)>::Call(
            Call::CtlSet { pool, query, value },
            CtlOp::Asking { value },
        ),
{
    Progress::Call(Call::CtlSet { pool, query, value }, CtlOp::Asking { value })
}

impl ObjPool {
    /// Where the carrying out of a query starts.
    pub open spec fn spec_ctl_exec<'a>(self, query: Query, value: CtlValue) -> Progress<
        'a,
        CtlOp,
        (Result<(), Error>, CtlValue),
    > {
        Progress::Call(
            Call::CtlExec { pool: self.inner, query, value },
            CtlOp::Asking { value },
        )
    }

    /// Has libpmemobj carry out `query`, which reads and writes `value`.
    pub fn ctl_exec<'a>(&self, query: Query, value: CtlValue) -> (start: Progress<
        'a,
        CtlOp,
        (Result<(), Error>, CtlValue),
    >)
        ensures
            start == self.spec_ctl_exec(query, value),
            ready(start),
    {
        Progress::Call(
            Call::CtlExec { pool: self.inner, query, value },
            CtlOp::Asking { value },
        )
    }

    /// Where the setting of what a query names starts.
    pub open spec fn spec_ctl_set<'a>(self, query: Query, value: CtlValue) -> Progress<
        'a,
        CtlOp,
        (Result<(), Error>, CtlValue),
    > {
        Progress::Call(
            Call::CtlSet { pool: self.inner, query, value },
            CtlOp::Asking { value },
        )
    }

    /// Sets what `query` names to `value`.
    pub fn ctl_set<'a>(&self, query: Query, value: CtlValue) -> (start: Progress<
        'a,
        CtlOp,
        (Result<(), Error>, CtlValue),
    >)
        ensures
            start == self.spec_ctl_set(query, value),
            ready(start),
    {
        start_ctl_set(self.inner, query, value)
    }

    /// Where the reading of what a query names starts.
    pub open spec fn spec_ctl_get<'a>(self, query: Query, value: CtlValue) -> Progress<
        'a,
        CtlOp,
        (Result<(), Error>, CtlValue),
    > {
        Progress::Call(
            Call::CtlGet { pool: self.inner, query, value },
            CtlOp::Asking { value },
        )
    }

    /// Reads what `query` names; `value` gives the type.
    pub fn ctl_get<'a>(&self, query: Query, value: CtlValue) -> (start: Progress<
        'a,
        CtlOp,
        (Result<(), Error>, CtlValue),
    >)
        ensures
            start == self.spec_ctl_get(query, value),
            ready(start),
    {
        Progress::Call(
            Call::CtlGet { pool: self.inner, query, value },
            CtlOp::Asking { value },
        )
    }

    /// Where the making of an arena for the calling thread starts.
    pub open spec fn spec_thread_arena_init<'a>(self) -> Progress<'a, ArenaOp, Result<u32, Error>> {
        Progress::Call(
            Call::CtlExec {
                pool: self.inner,
                query: Query::ArenaCreate,
                value: CtlValue::Arena(0),
            },
            ArenaOp::Creating {
                op: CtlOp::Asking { value: CtlValue::Arena(0) },
                pool: self.inner,
            },
        )
    }

    /// Makes an arena, and has the calling thread allocate from it.
    pub fn thread_arena_init<'a>(&self) -> (start: Progress<'a, ArenaOp, Result<u32, Error>>)
        ensures
            start == self.spec_thread_arena_init(),
            ready(start),
    {
        let pool: u64 = self.inner;
        match self.ctl_exec(Query::ArenaCreate, CtlValue::Arena(0)) {
            Progress::Call(call, op) => Progress::Call(call, ArenaOp::Creating { op, pool }),
            Progress::Done(_) => vstd::pervasive::unreached(),
        }
    }

    /// Where the question for the arena of the calling thread starts.
    pub open spec fn spec_thread_arena_get<'a>(self) -> Progress<'a, ArenaOp, Result<u32, Error>> {
        Progress::Call(
            Call::CtlGet {
                pool: self.inner,
                query: Query::ThreadArenaId,
                value: CtlValue::Arena(0),
            },
            ArenaOp::Asking { op: CtlOp::Asking { value: CtlValue::Arena(0) } },
        )
    }

    /// Asks for the arena that the calling thread allocates from.
    pub fn thread_arena_get<'a>(&self) -> (start: Progress<'a, ArenaOp, Result<u32, Error>>)
        ensures
            start == self.spec_thread_arena_get(),
            ready(start),
    {
        match self.ctl_get(Query::ThreadArenaId, CtlValue::Arena(0)) {
            Progress::Call(call, op) => Progress::Call(call, ArenaOp::Asking { op }),
            Progress::Done(_) => vstd::pervasive::unreached(),
        }
    }

    /// Where a question for a number of bytes starts.
    pub open spec fn asks_size<'a>(self, query: Query) -> Progress<
        'a,
        AllocatedSizeOp,
        Result<u64, Error>,
    > {
        Progress::Call(
            Call::CtlGet { pool: self.inner, query, value: CtlValue::Bytes(0) },
            AllocatedSizeOp::Asking { op: CtlOp::Asking { value: CtlValue::Bytes(0) } },
        )
    }

    fn ask_size<'a>(&self, query: Query) -> (start: Progress<
        'a,
        AllocatedSizeOp,
        Result<u64, Error>,
    >)
        ensures
            start == self.asks_size(query),
            ready(start),
    {
        match self.ctl_get(query, CtlValue::Bytes(0)) {
            Progress::Call(call, op) => Progress::Call(call, AllocatedSizeOp::Asking { op }),
            Progress::Done(_) => vstd::pervasive::unreached(),
        }
    }

    /// Asks for the number of bytes that are allocated in the pool. libpmemobj
    /// counts them only while its statistics are switched on.
    pub fn allocated_size_get<'a>(&self) -> (start: Progress<
        'a,
        AllocatedSizeOp,
        Result<u64, Error>,
    >)
        ensures
            start == self.asks_size(Query::HeapCurrAllocated),
            ready(start),
    {
        self.ask_size(Query::HeapCurrAllocated)
    }

    /// Asks for the number of bytes that an arena takes.
    pub fn thread_allocated_size_get<'a>(&self, arena_id: u32) -> (start: Progress<
        'a,
        AllocatedSizeOp,
        Result<u64, Error>,
    >)
        ensures
            start == self.asks_size(Query::ArenaSize(arena_id)),
            ready(start),
    {
        self.ask_size(Query::ArenaSize(arena_id))
    }
}

} // verus!
