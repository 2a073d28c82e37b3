//! Calls into libpmemobj, and the operations that make them.
//!
//! An operation on a pool makes its calls one at a time. It hands out a [`Call`]
//! and waits; whoever runs it performs the call and hands the [`Reply`] back,
//! which leads to the next call or to the result.

use vstd::prelude::*;

use crate::key::ObjRawKey;
use crate::numeral::{append_numeral, lemma_numeral_is_c_text, numeral};
use crate::oid::PMEMoid;
use crate::text::{lemma_c_text_concat, CText};

verus! {

/// A name in the control interface of libpmemobj.
pub enum Query {
    /// Makes an arena, and gives its number.
    ArenaCreate,
    /// The number of the arena that the calling thread allocates from.
    ThreadArenaId,
    /// The bytes that are allocated in the whole pool.
    HeapCurrAllocated,
    /// The bytes that the arena of this number takes.
    ArenaSize(u32),
    /// Any other name.
    Named(CText),
}

impl Query {
    /// The name by which libpmemobj knows the query.
    pub open spec fn spec_name(self) -> Seq<char> {
        match self {
            Query::ArenaCreate => "heap.arena.create"@,
            Query::ThreadArenaId => "heap.thread.arena_id"@,
            Query::HeapCurrAllocated => "stats.heap.curr_allocated"@,
            Query::ArenaSize(id) => "heap.arena."@ + numeral(id as nat, 10) + ".size"@,
            Query::Named(name) => name@,
        }
    }

    /// The name by which libpmemobj knows the query.
    pub fn name(&self) -> (name: CText)
        ensures
            name@ == self.spec_name(),
    {
        proof {
            reveal_strlit("heap.arena.create");
            reveal_strlit("heap.thread.arena_id");
            reveal_strlit("stats.heap.curr_allocated");
            reveal_strlit("heap.arena.");
            reveal_strlit(".size");
        }
        match self {
            Query::ArenaCreate => CText::from_clean("heap.arena.create".to_owned()),
            Query::ThreadArenaId => CText::from_clean("heap.thread.arena_id".to_owned()),
            Query::HeapCurrAllocated => CText::from_clean("stats.heap.curr_allocated".to_owned()),
            Query::ArenaSize(id) => {
                let mut name = "heap.arena.".to_owned();
                append_numeral(&mut name, *id as u64, 10);
                name.append(".size");
                proof {
                    lemma_numeral_is_c_text(*id as nat, 10);
                    lemma_c_text_concat("heap.arena."@, numeral(*id as nat, 10));
                    lemma_c_text_concat("heap.arena."@ + numeral(*id as nat, 10), ".size"@);
                }
                CText::from_clean(name)
            },
            Query::Named(name) => name.clone(),
        }
    }
}

/// A value that a query reads or writes.
#[derive(Clone, Copy, Debug, PartialEq, Eq, Structural)]
pub enum CtlValue {
    /// The number of an arena.
    Arena(u32),
    /// A number of bytes.
    Bytes(u64),
    /// A switch.
    Switch(i32),
}

impl CtlValue {
    /// Whether both values have the same type.
    pub open spec fn same_type(self, other: CtlValue) -> bool {
        match self {
            CtlValue::Arena(_) => other is Arena,
            CtlValue::Bytes(_) => other is Bytes,
            CtlValue::Switch(_) => other is Switch,
        }
    }
}

/// A call that an operation waits for. A pool is named by the address of the
/// structure that libpmemobj keeps for it.
pub enum Call<'a> {
    /// `pmemobj_create`
    Create { path: CText, layout: Option<CText>, size: usize, mode: u32 },
    /// `pmemobj_close`
    Close { pool: u64 },
    /// `pmempool_rm`
    Remove { path: CText, flags: i32 },
    /// `pmemobj_alloc`, without a constructor
    Alloc { pool: u64, size: usize, type_num: u64 },
    /// `pmemobj_free`
    Free { oid: PMEMoid },
    /// `pmemobj_direct`
    Direct { oid: PMEMoid },
    /// `pmemobj_oid`
    Oid { addr: u64 },
    /// `pmemobj_type_num`
    TypeNum { oid: PMEMoid },
    /// `pmemobj_alloc_usable_size`
    UsableSize { oid: PMEMoid },
    /// `pmemobj_memcpy_persist`
    Copy { pool: u64, dest: u64, data: &'a [u8] },
    /// A read of `len` bytes of mapped memory.
    Read { addr: u64, len: usize },
    /// `pmemobj_first`
    First { pool: u64 },
    /// `pmemobj_next`
    Next { oid: PMEMoid },
    /// `pmemobj_ctl_exec`
    CtlExec { pool: u64, query: Query, value: CtlValue },
    /// `pmemobj_ctl_set`
    CtlSet { pool: u64, query: Query, value: CtlValue },
    /// `pmemobj_ctl_get`
    CtlGet { pool: u64, query: Query, value: CtlValue },
    /// Whether nobody else holds the queue of preallocated objects any more.
    QueueAbandoned,
    /// A push into the queue of preallocated objects.
    Push { key: ObjRawKey },
}

/// What a call came back with.
pub enum Reply {
    /// The pool that was created; zero if none was.
    Pool(u64),
    /// The status of an allocation, and the object; it is meaningful if the
    /// status is zero.
    Allocated { status: i32, oid: PMEMoid },
    /// A persistent identifier, which may be null.
    Oid(PMEMoid),
    /// An address in mapped memory.
    Address(u64),
    /// A type number.
    TypeNum(u64),
    /// A number of bytes.
    Size(usize),
    /// The bytes that were read.
    Bytes(Vec<u8>),
    /// The status of a query, and its value after the call.
    Ctl { status: i32, value: CtlValue },
    /// Whether the queue is abandoned, or whether it had room for a key.
    Answer(bool),
    /// The call has returned.
    Returned,
}

impl<'a> Call<'a> {
    /// Whether `reply` is of the kind with which this call comes back.
    pub open spec fn answered_by(self, reply: Reply) -> bool {
        match self {
            Call::Create { .. } => reply is Pool,
            Call::Alloc { .. } => reply is Allocated,
            Call::Direct { .. } => reply is Address,
            Call::Oid { .. } | Call::First { .. } | Call::Next { .. } => reply is Oid,
            Call::TypeNum { .. } => reply is TypeNum,
            Call::UsableSize { .. } => reply is Size,
            Call::Read { len, .. } => reply is Bytes && reply->Bytes_0@.len() == len,
            Call::CtlExec { value, .. } | Call::CtlSet { value, .. } | Call::CtlGet { value, .. }
                => reply is Ctl && value.same_type(reply->value),
            Call::QueueAbandoned | Call::Push { .. } => reply is Answer,
            Call::Close { .. } | Call::Remove { .. } | Call::Free { .. } | Call::Copy { .. }
                => reply is Returned,
        }
    }
}

/// How far an operation has come: it waits for the reply to a call, or it is
/// done.
pub enum Progress<'a, O, T> {
    Call(Call<'a>, O),
    Done(T),
}

/// An operation that waits for the reply to a call.
pub trait Operation<'a>: Sized {
    /// What the operation ends with.
    type Output;

    /// Whether the operation can go on with `reply`.
    spec fn awaits(self, reply: Reply) -> bool;

    /// Whether `next` is what `reply` leads to.
    spec fn leads_to(self, reply: Reply, next: Progress<'a, Self, Self::Output>) -> bool;

    /// Goes on with the reply to the call that the operation waits for. Where
    /// that leads to another call, the operation can go on with every reply to it.
    fn resume(self, reply: Reply) -> (next: Progress<'a, Self, Self::Output>)
        requires
            self.awaits(reply),
        ensures
            self.leads_to(reply, next),
            next matches Progress::Call(call, op) ==> forall|r: Reply|
                #[trigger] call.answered_by(r) ==> op.awaits(r),
    ;
}

/// Whether the operation can go on with every reply to the call that it waits
/// for.
pub open spec fn ready<'a, O: Operation<'a>>(progress: Progress<'a, O, O::Output>) -> bool {
    progress matches Progress::Call(call, op) ==> forall|r: Reply|
        #[trigger] call.answered_by(r) ==> op.awaits(r)
}

/// A call, and the reply that it got.
pub type Exchange<'a> = (Call<'a>, Reply);

/// Whether an operation that stands at `start` makes exactly the calls of
/// `trace`, one after the other, when it gets the replies of `trace`, and then
/// ends with `result`.
pub open spec fn finishes<'a, O: Operation<'a>>(
    start: Progress<'a, O, O::Output>,
    trace: Seq<Exchange<'a>>,
    result: O::Output,
) -> bool
    decreases trace.len(),
{
    match start {
        Progress::Done(output) => trace.len() == 0 && output == result,
        Progress::Call(call, op) => {
            &&& trace.len() > 0
            &&& trace[0].0 == call
            &&& call.answered_by(trace[0].1)
            &&& exists|next: Progress<'a, O, O::Output>| #[trigger]
                op.leads_to(trace[0].1, next) && finishes(next, trace.drop_first(), result)
        },
    }
}

/// Whether an operation that stands at `start` makes the calls of `trace`, one after the
/// other, when it gets the replies of `trace`, and then stands at `end`.
pub open spec fn reaches<'a, O: Operation<'a>>(
    start: Progress<'a, O, O::Output>,
    trace: Seq<Exchange<'a>>,
    end: Progress<'a, O, O::Output>,
) -> bool
    decreases trace.len(),
{
    if trace.len() == 0 {
        start == end
    } else {
        match start {
            Progress::Done(_) => false,
            Progress::Call(call, op) => {
                &&& trace[0].0 == call
                &&& call.answered_by(trace[0].1)
                &&& exists|next: Progress<'a, O, O::Output>| #[trigger]
                    op.leads_to(trace[0].1, next) && reaches(next, trace.drop_first(), end)
            },
        }
    }
}

/// A run is a first exchange followed by a run from where that leads to.
pub proof fn lemma_finishes_step<'a, O: Operation<'a>>(
    start: Progress<'a, O, O::Output>,
    next: Progress<'a, O, O::Output>,
    trace: Seq<Exchange<'a>>,
    result: O::Output,
)
    requires
        start is Call,
        trace.len() > 0,
        trace[0].0 == start->Call_0,
        trace[0].0.answered_by(trace[0].1),
        start->Call_1.leads_to(trace[0].1, next),
        finishes(next, trace.drop_first(), result),
    ensures
        finishes(start, trace, result),
{
}

impl Reply {
    pub(crate) fn pool(self) -> (pool: u64)
        requires
            self is Pool,
        ensures
            pool == self->Pool_0,
    {
        match self {
            Reply::Pool(pool) => pool,
            _ => vstd::pervasive::unreached(),
        }
    }

    pub(crate) fn allocated(self) -> (allocated: (i32, PMEMoid))
        requires
            self is Allocated,
        ensures
            allocated == (self->Allocated_status, self->oid),
    {
        match self {
            Reply::Allocated { status, oid } => (status, oid),
            _ => vstd::pervasive::unreached(),
        }
    }

    pub(crate) fn oid(self) -> (oid: PMEMoid)
        requires
            self is Oid,
        ensures
            oid == self->Oid_0,
    {
        match self {
            Reply::Oid(oid) => oid,
            _ => vstd::pervasive::unreached(),
        }
    }

    pub(crate) fn address(self) -> (addr: u64)
        requires
            self is Address,
        ensures
            addr == self->Address_0,
    {
        match self {
            Reply::Address(addr) => addr,
            _ => vstd::pervasive::unreached(),
        }
    }

    pub(crate) fn type_num(self) -> (type_num: u64)
        requires
            self is TypeNum,
        ensures
            type_num == self->TypeNum_0,
    {
        match self {
            Reply::TypeNum(type_num) => type_num,
            _ => vstd::pervasive::unreached(),
        }
    }

    pub(crate) fn size(self) -> (size: usize)
        requires
            self is Size,
        ensures
            size == self->Size_0,
    {
        match self {
            Reply::Size(size) => size,
            _ => vstd::pervasive::unreached(),
        }
    }

    pub(crate) fn bytes(self) -> (bytes: Vec<u8>)
        requires
            self is Bytes,
        ensures
            bytes == self->Bytes_0,
    {
        match self {
            Reply::Bytes(bytes) => bytes,
            _ => vstd::pervasive::unreached(),
        }
    }

    pub(crate) fn ctl(self) -> (ctl: (i32, CtlValue))
        requires
            self is Ctl,
        ensures
            ctl == (self->Ctl_status, self->value),
    {
        match self {
            Reply::Ctl { status, value } => (status, value),
            _ => vstd::pervasive::unreached(),
        }
    }

    pub(crate) fn answer(self) -> (answer: bool)
        requires
            self is Answer,
        ensures
            answer == self->Answer_0,
    {
        match self {
            Reply::Answer(answer) => answer,
            _ => vstd::pervasive::unreached(),
        }
    }
}

} // verus!
