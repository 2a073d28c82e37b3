//! Pools whose objects are allocated in advance.

use vstd::prelude::*;

use crossbeam_queue::ArrayQueue;

use crate::call::{ready, Call, Operation, Progress, Reply};
use crate::error::{Error, ErrorKind};
use crate::key::ObjRawKey;
use crate::object::AllocateOp;
use crate::pool::{
    chars, spec_pool_size, starts_opening, CloseOp, ObjPool, OpenOp, OBJ_HEADER_SIZE,
};
use crate::queue::{is_queue_capacity, new_queue, push, queue_capacity, queued};

verus! {

/// The allocation of several objects, whose keys go into a queue.
pub struct FillOp {
    /// The pool in which the objects are allocated.
    pub pool: u64,
    /// The size of each object.
    pub size: usize,
    /// The type number of each object.
    pub data_type: u64,
    /// How many keys have not gone into the queue yet.
    pub left: usize,
    /// What is going on with the next of them.
    pub stage: FillStage,
}

/// What is going on with one object.
pub enum FillStage {
    /// Whether the queue is abandoned is being asked.
    Polling,
    /// The object is being allocated.
    Allocating { op: AllocateOp },
    /// The key is being pushed into the queue.
    Pushing,
}

impl FillOp {
    /// Where the allocation of `left` objects starts.
    pub open spec fn starts<'a>(pool: u64, size: usize, data_type: u64, left: usize) -> Progress<
        'a,
        FillOp,
        Result<(), Error>,
    > {
        if left == 0 {
            Progress::Done(Ok(()))
        } else {
            Progress::Call(
                Call::QueueAbandoned,
                FillOp { pool, size, data_type, left, stage: FillStage::Polling },
            )
        }
    }

    /// What `reply` leads to: an abandoned queue ends the operation, an object
    /// that is not allocated or that the queue has no room for fails it.
    pub open spec fn after<'a>(self, reply: Reply) -> Progress<'a, FillOp, Result<(), Error>> {
        match self.stage {
            FillStage::Polling => if reply->Answer_0 {
                Progress::Done(Ok(()))
            } else {
                Progress::Call(
                    Call::Alloc { pool: self.pool, size: self.size, type_num: self.data_type },
                    FillOp {
                        stage: FillStage::Allocating { op: AllocateOp::Allocating },
                        ..self
                    },
                )
            },
            FillStage::Allocating { op } => match op.after(reply) {
                Progress::Call(call, op) => Progress::Call(
                    call,
                    FillOp { stage: FillStage::Allocating { op }, ..self },
                ),
                Progress::Done(Ok(key)) => Progress::Call(
                    Call::Push { key },
                    FillOp { stage: FillStage::Pushing, ..self },
                ),
                Progress::Done(Err(error)) => Progress::Done(Err(error)),
            },
            FillStage::Pushing => if reply->Answer_0 {
                FillOp::starts(self.pool, self.size, self.data_type, (self.left - 1) as usize)
            } else {
                Progress::Done(Err(Error { kind: ErrorKind::PmdkNoSpaceInQueueError }))
            },
        }
    }

    fn start<'a>(pool: u64, size: usize, data_type: u64, left: usize) -> (start: Progress<
        'a,
        FillOp,
        Result<(), Error>,
    >)
        ensures
            start == FillOp::starts(pool, size, data_type, left),
    {
        if left == 0 {
            Progress::Done(Ok(()))
        } else {
            Progress::Call(
                Call::QueueAbandoned,
                FillOp { pool, size, data_type, left, stage: FillStage::Polling },
            )
        }
    }
}

impl<'a> Operation<'a> for FillOp {
    type Output = Result<(), Error>;

    open spec fn awaits(self, reply: Reply) -> bool {
        &&& self.left > 0
        &&& match self.stage {
            FillStage::Polling => reply is Answer,
            FillStage::Allocating { op } => op.awaits(reply),
            FillStage::Pushing => reply is Answer,
        }
    }

    open spec fn leads_to(self, reply: Reply, next: Progress<'a, Self, Self::Output>) -> bool {
        next == self.after(reply)
    }

    fn resume(self, reply: Reply) -> (next: Progress<'a, Self, Self::Output>) {
        let FillOp { pool, size, data_type, left, stage } = self;
        match stage {
            FillStage::Polling => {
                // nobody else holds the queue: nobody will take what is pushed
                if reply.answer() {
                    return Progress::Done(Ok(()));
                }
                let stage: FillStage = FillStage::Allocating { op: AllocateOp::Allocating };
                Progress::Call(
                    Call::Alloc { pool, size, type_num: data_type },
                    FillOp { pool, size, data_type, left, stage },
                )
            },
            FillStage::Allocating { op } => match op.resume(reply) {
                Progress::Call(call, op) => {
                    let stage: FillStage = FillStage::Allocating { op };
                    Progress::Call(call, FillOp { pool, size, data_type, left, stage })
                },
                Progress::Done(Ok(key)) => {
                    let stage: FillStage = FillStage::Pushing;
                    let op: FillOp = FillOp { pool, size, data_type, left, stage };
                    Progress::Call(Call::Push { key }, op)
                },
                Progress::Done(Err(error)) => Progress::Done(Err(error)),
            },
            FillStage::Pushing => if reply.answer() {
                FillOp::start(pool, size, data_type, left - 1)
            } else {
                Progress::Done(Err(Error { kind: ErrorKind::PmdkNoSpaceInQueueError }))
            },
        }
    }
}

impl ObjPool {
    /// Allocates `nobjects` objects of `size` bytes that carry the type number
    /// `data_type`, and pushes their keys into a queue. It stops early when
    /// nobody else holds the queue any more.
    pub fn alloc_multi<'a>(&self, size: usize, data_type: u64, nobjects: usize) -> (start: Progress<
        'a,
        FillOp,
        Result<(), Error>,
    >)
        ensures
            start == FillOp::starts(self.inner, size, data_type, nobjects),
            ready(start),
    {
        FillOp::start(self.inner, size, data_type, nobjects)
    }
}

/// A pool with objects that were allocated in advance.
pub struct Preallocated {
    pub pool: ObjPool,
    /// The keys of the objects.
    pub queue: ArrayQueue<ObjRawKey>,
    /// How many objects are still to be allocated in the background.
    pub deferred: usize,
}

/// The allocation of the first objects of a pool.
pub enum PreallocateOp {
    /// The objects are being allocated; `deferred` others are for later.
    Filling { pool: ObjPool, queue: ArrayQueue<ObjRawKey>, fill: FillOp, deferred: usize },
    /// An allocation failed, and the pool is being closed.
    Closing { op: CloseOp, error: Error },
}

/// Whether `after` is the queue `before` with `key` at its end.
pub open spec fn pushed(
    before: ArrayQueue<ObjRawKey>,
    after: ArrayQueue<ObjRawKey>,
    key: ObjRawKey,
) -> bool {
    &&& queued(after) == queued(before).push(key.addr)
    &&& queue_capacity(after) == queue_capacity(before)
}

impl PreallocateOp {
    /// Where the allocation of the next of `left` objects starts; if there is
    /// none left the pool is complete.
    pub open spec fn goes_on<'a>(
        pool: ObjPool,
        queue: ArrayQueue<ObjRawKey>,
        size: usize,
        data_type: u64,
        left: usize,
        deferred: usize,
    ) -> Progress<'a, PreallocateOp, Result<Preallocated, Error>> {
        if left == 0 {
            Progress::Done(Ok(Preallocated { pool, queue, deferred }))
        } else {
            let stage = FillStage::Allocating { op: AllocateOp::Allocating };
            Progress::Call(
                Call::Alloc { pool: pool.inner, size, type_num: data_type },
                PreallocateOp::Filling {
                    pool,
                    queue,
                    fill: FillOp { pool: pool.inner, size, data_type, left, stage },
                    deferred,
                },
            )
        }
    }

    /// The closing of a pool, after which the operation fails with `error`.
    pub open spec fn fails<'a>(close: Progress<'a, CloseOp, ()>, error: Error) -> Progress<
        'a,
        PreallocateOp,
        Result<Preallocated, Error>,
    > {
        match close {
            Progress::Call(call, op) => Progress::Call(call, PreallocateOp::Closing { op, error }),
            Progress::Done(()) => Progress::Done(Err(error)),
        }
    }

    fn go_on<'a>(
        pool: ObjPool,
        queue: ArrayQueue<ObjRawKey>,
        fill: Progress<'a, FillOp, Result<(), Error>>,
        Ghost(size): Ghost<usize>,
        Ghost(data_type): Ghost<u64>,
        Ghost(left): Ghost<usize>,
        deferred: usize,
    ) -> (next: Progress<'a, PreallocateOp, Result<Preallocated, Error>>)
        requires
            fill == FillOp::starts(pool.inner, size, data_type, left),
        ensures
            next == PreallocateOp::goes_on(pool, queue, size, data_type, left, deferred),
    {
        let fill: Progress<'a, FillOp, Result<(), Error>> = match fill {
            // the queue is for the caller, who waits for it
            Progress::Call(Call::QueueAbandoned, op) => op.resume(Reply::Answer(false)),
            other => other,
        };
        match fill {
            Progress::Call(call, fill) => Progress::Call(
                call,
                PreallocateOp::Filling { pool, queue, fill, deferred },
            ),
            Progress::Done(_) => Progress::Done(Ok(Preallocated { pool, queue, deferred })),
        }
    }
}

impl<'a> Operation<'a> for PreallocateOp {
    type Output = Result<Preallocated, Error>;

    open spec fn awaits(self, reply: Reply) -> bool {
        match self {
            PreallocateOp::Filling { pool, queue, fill, .. } => {
                &&& fill.awaits(reply)
                &&& fill.stage is Allocating
                &&& fill.pool == pool.inner
                &&& queued(queue).len() + fill.left <= queue_capacity(queue)
            },
            PreallocateOp::Closing { op, .. } => op.awaits(reply),
        }
    }

    open spec fn leads_to(self, reply: Reply, next: Progress<'a, Self, Self::Output>) -> bool {
        match self {
            PreallocateOp::Filling { pool, queue, fill, deferred } => match fill.stage->op.after(
                reply,
            ) {
                Progress::Call(call, op) => next == Progress::<'a, Self, Self::Output>::Call(
                    call,
                    PreallocateOp::Filling {
                        pool,
                        queue,
                        fill: FillOp { stage: FillStage::Allocating { op }, ..fill },
                        deferred,
                    },
                ),
                Progress::Done(Ok(key)) => exists|longer: ArrayQueue<ObjRawKey>| #[trigger]
                    pushed(queue, longer, key) && next == PreallocateOp::goes_on(
                        pool,
                        longer,
                        fill.size,
                        fill.data_type,
                        (fill.left - 1) as usize,
                        deferred,
                    ),
                Progress::Done(Err(error)) => next == PreallocateOp::fails(pool.spec_drop(), error),
            },
            PreallocateOp::Closing { op, error } => next == PreallocateOp::fails(
                op.after(reply),
                error,
            ),
        }
    }

    fn resume(self, reply: Reply) -> (next: Progress<'a, Self, Self::Output>) {
        match self {
            PreallocateOp::Filling { pool, mut queue, fill, deferred } => {
                let ghost FillOp { size, data_type, left, .. } = fill;
                match fill.resume(reply) {
                    Progress::Call(Call::Push { key }, fill) => {
                        let ghost before = queue;
                        let ghost pushed_key = key;
                        let room: bool = push(&mut queue, key).is_ok();
                        assert(pushed(before, queue, pushed_key));
                        let fill: Progress<'a, FillOp, Result<(), Error>> = fill.resume(
                            Reply::Answer(room),
                        );
                        PreallocateOp::go_on(
                            pool,
                            queue,
                            fill,
                            Ghost(size),
                            Ghost(data_type),
                            Ghost((left - 1) as usize),
                            deferred,
                        )
                    },
                    Progress::Call(call, fill) => Progress::Call(
                        call,
                        PreallocateOp::Filling { pool, queue, fill, deferred },
                    ),
                    Progress::Done(Err(error)) => match pool.drop() {
                        Progress::Call(call, op) => Progress::Call(
                            call,
                            PreallocateOp::Closing { op, error },
                        ),
                        Progress::Done(()) => Progress::Done(Err(error)),
                    },
                    Progress::Done(Ok(())) => vstd::pervasive::unreached(),
                }
            },
            PreallocateOp::Closing { op, error } => match op.resume(reply) {
                Progress::Call(call, op) => Progress::Call(
                    call,
                    PreallocateOp::Closing { op, error },
                ),
                Progress::Done(()) => Progress::Done(Err(error)),
            },
        }
    }
}

/// Whether `queue` is an empty queue with room for `capacity` keys.
pub open spec fn is_fresh(queue: ArrayQueue<ObjRawKey>, capacity: usize) -> bool {
    &&& queued(queue) == Seq::<u64>::empty()
    &&& queue_capacity(queue) == capacity
}

/// How many of `capacity` objects are allocated at once if `initial` are asked
/// for.
pub open spec fn at_once(capacity: usize, initial: usize) -> usize {
    if capacity < initial {
        capacity
    } else {
        initial
    }
}

/// Whether `start` is where the allocation of the first objects of `pool` starts:
/// with an empty queue that has room for `capacity` keys, `initial` objects to
/// allocate now, but no more than `capacity`, and the rest for later.
pub open spec fn starts_filling<'a>(
    pool: ObjPool,
    obj_size: usize,
    data_type: u64,
    capacity: usize,
    initial: usize,
    start: Progress<'a, PreallocateOp, Result<Preallocated, Error>>,
) -> bool {
    exists|queue: ArrayQueue<ObjRawKey>| #[trigger]
        is_fresh(queue, capacity) && start == PreallocateOp::goes_on(
            pool,
            queue,
            obj_size,
            data_type,
            at_once(capacity, initial),
            (capacity - at_once(capacity, initial)) as usize,
        )
}

fn start_filling<'a>(
    pool: ObjPool,
    obj_size: usize,
    data_type: u64,
    capacity: usize,
    initial: usize,
) -> (start: Progress<'a, PreallocateOp, Result<Preallocated, Error>>)
    requires
        is_queue_capacity(capacity),
    ensures
        starts_filling(pool, obj_size, data_type, capacity, initial, start),
        start matches Progress::Call(call, op) ==> forall|r: Reply|
            #[trigger] call.answered_by(r) ==> op.awaits(r),
{
    let initial: usize = if capacity < initial {
        capacity
    } else {
        initial
    };
    let queue: ArrayQueue<ObjRawKey> = new_queue(capacity);
    let fill: Progress<'a, FillOp, Result<(), Error>> = pool.alloc_multi(
        obj_size,
        data_type,
        initial,
    );
    assert(is_fresh(queue, capacity));
    PreallocateOp::go_on(
        pool,
        queue,
        fill,
        Ghost(obj_size),
        Ghost(data_type),
        Ghost(initial),
        capacity - initial,
    )
}

/// The making of a pool together with the allocation of its first objects.
#[allow(inconsistent_fields)]
pub enum CapacityOp {
    /// The pool is being made.
    Opening { op: OpenOp, obj_size: usize, data_type: u64, capacity: usize, initial: usize },
    /// The objects are being allocated.
    Filling { op: PreallocateOp },
}

impl CapacityOp {
    /// The allocation of objects, as the second part of this operation.
    pub open spec fn filling<'a>(
        fill: Progress<'a, PreallocateOp, Result<Preallocated, Error>>,
    ) -> Progress<'a, CapacityOp, Result<Preallocated, Error>> {
        match fill {
            Progress::Call(call, op) => Progress::Call(call, CapacityOp::Filling { op }),
            Progress::Done(result) => Progress::Done(result),
        }
    }

    fn fill<'a>(fill: Progress<'a, PreallocateOp, Result<Preallocated, Error>>) -> (next: Progress<
        'a,
        CapacityOp,
        Result<Preallocated, Error>,
    >)
        ensures
            next == CapacityOp::filling(fill),
    {
        match fill {
            Progress::Call(call, op) => Progress::Call(call, CapacityOp::Filling { op }),
            Progress::Done(result) => Progress::Done(result),
        }
    }
}

impl<'a> Operation<'a> for CapacityOp {
    type Output = Result<Preallocated, Error>;

    open spec fn awaits(self, reply: Reply) -> bool {
        match self {
            CapacityOp::Opening { op, capacity, .. } => op.awaits(reply) && is_queue_capacity(
                capacity,
            ),
            CapacityOp::Filling { op } => op.awaits(reply),
        }
    }

    open spec fn leads_to(self, reply: Reply, next: Progress<'a, Self, Self::Output>) -> bool {
        match self {
            CapacityOp::Opening { op, obj_size, data_type, capacity, initial } => match op.after(
                reply,
            ) {
                Progress::Call(call, op) => next == Progress::<'a, Self, Self::Output>::Call(
                    call,
                    CapacityOp::Opening { op, obj_size, data_type, capacity, initial },
                ),
                Progress::Done(Ok(pool)) => exists|
                    fill: Progress<'a, PreallocateOp, Result<Preallocated, Error>>,
                | #[trigger]
                    starts_filling(pool, obj_size, data_type, capacity, initial, fill) && next
                        == CapacityOp::filling(fill),
                Progress::Done(Err(error)) => next == Progress::<'a, Self, Self::Output>::Done(
                    Err(error),
                ),
            },
            CapacityOp::Filling { op } => exists|
                fill: Progress<'a, PreallocateOp, Result<Preallocated, Error>>,
            | #[trigger]
                op.leads_to(reply, fill) && next == CapacityOp::filling(fill),
        }
    }

    fn resume(self, reply: Reply) -> (next: Progress<'a, Self, Self::Output>) {
        match self {
            CapacityOp::Opening { op, obj_size, data_type, capacity, initial } => match op.resume(
                reply,
            ) {
                Progress::Call(call, op) => Progress::Call(
                    call,
                    CapacityOp::Opening { op, obj_size, data_type, capacity, initial },
                ),
                Progress::Done(Ok(pool)) => CapacityOp::fill(
                    start_filling(pool, obj_size, data_type, capacity, initial),
                ),
                Progress::Done(Err(error)) => Progress::Done(Err(error)),
            },
            CapacityOp::Filling { op } => CapacityOp::fill(op.resume(reply)),
        }
    }
}

/// A pool that is large enough for `capacity` objects is one whose queue can be
/// made.
proof fn lemma_pool_capacity_is_queue_capacity(capacity: usize, obj_size: usize)
    requires
        0 < capacity,
        spec_pool_size(capacity as int, obj_size as int) <= usize::MAX,
    ensures
        is_queue_capacity(capacity),
{
    assert(capacity * 64 <= capacity * (obj_size + OBJ_HEADER_SIZE)) by (nonlinear_arith)
        requires
            0 <= capacity,
            0 <= obj_size,
            OBJ_HEADER_SIZE == 64,
    ;
}

/// Whether `start` is where the making of a pool for `capacity` objects starts,
/// of which `initial` are to be allocated at once.
pub open spec fn starts_capacity<'a>(
    path: Option<Seq<char>>,
    layout: Option<Seq<char>>,
    obj_size: usize,
    data_type: u64,
    capacity: usize,
    initial: usize,
    start: Progress<'a, CapacityOp, Result<Preallocated, Error>>,
) -> bool {
    exists|open: Progress<'a, OpenOp, Result<ObjPool, Error>>| #[trigger]
        starts_opening(
            path,
            layout,
            spec_pool_size(capacity as int, obj_size as int) as usize,
            open,
        ) && match open {
            Progress::Call(call, op) => start == Progress::<
                'a,
                CapacityOp,
                Result<Preallocated, Error>,
            >::Call(call, CapacityOp::Opening { op, obj_size, data_type, capacity, initial }),
            Progress::Done(Err(error)) => start == Progress::<
                'a,
                CapacityOp,
                Result<Preallocated, Error>,
            >::Done(Err(error)),
            Progress::Done(Ok(_)) => false,
        }
}

impl ObjPool {
    /// Allocates `capacity` objects of `obj_size` bytes that carry the type number
    /// `data_type`, for the keys of which the result has a queue. The pool is
    /// closed if an allocation fails.
    pub fn set_capacity<'a>(self, obj_size: usize, data_type: u64, capacity: usize) -> (start:
        Progress<'a, PreallocateOp, Result<Preallocated, Error>>)
        requires
            is_queue_capacity(capacity),
        ensures
            starts_filling(self, obj_size, data_type, capacity, capacity, start),
            ready(start),
    {
        start_filling(self, obj_size, data_type, capacity, capacity)
    }

    /// Allocates the first `initial_capacity` of `capacity` objects; the result
    /// says how many are to be allocated in the background.
    pub fn set_initial_capacity<'a>(
        self,
        obj_size: usize,
        data_type: u64,
        capacity: usize,
        initial_capacity: usize,
    ) -> (start: Progress<'a, PreallocateOp, Result<Preallocated, Error>>)
        requires
            is_queue_capacity(capacity),
        ensures
            starts_filling(self, obj_size, data_type, capacity, initial_capacity, start),
            ready(start),
    {
        start_filling(self, obj_size, data_type, capacity, initial_capacity)
    }

    /// Makes a pool for `capacity` objects, and allocates them.
    pub fn with_capacity<'a>(
        path: Option<String>,
        layout: Option<String>,
        obj_size: usize,
        data_type: u64,
        capacity: usize,
    ) -> (start: Progress<'a, CapacityOp, Result<Preallocated, Error>>)
        requires
            0 < capacity,
            obj_size + OBJ_HEADER_SIZE <= usize::MAX,
            spec_pool_size(capacity as int, obj_size as int) <= usize::MAX,
        ensures
            starts_capacity(
                chars(path),
                chars(layout),
                obj_size,
                data_type,
                capacity,
                capacity,
                start,
            ),
            ready(start),
    {
        ObjPool::with_initial_capacity(path, layout, obj_size, data_type, capacity, capacity)
    }

    /// Makes a pool for `capacity` objects, and allocates the first
    /// `initial_capacity` of them; the result says how many are to be allocated in
    /// the background.
    pub fn with_initial_capacity<'a>(
        path: Option<String>,
        layout: Option<String>,
        obj_size: usize,
        data_type: u64,
        capacity: usize,
        initial_capacity: usize,
    ) -> (start: Progress<'a, CapacityOp, Result<Preallocated, Error>>)
        requires
            0 < capacity,
            obj_size + OBJ_HEADER_SIZE <= usize::MAX,
            spec_pool_size(capacity as int, obj_size as int) <= usize::MAX,
        ensures
            starts_capacity(
                chars(path),
                chars(layout),
                obj_size,
                data_type,
                capacity,
                initial_capacity,
                start,
            ),
            ready(start),
    {
        let initial: usize = initial_capacity;
        proof {
            lemma_pool_capacity_is_queue_capacity(capacity, obj_size);
        }
        match ObjPool::new(path, layout, obj_size, capacity) {
            Progress::Call(call, op) => Progress::Call(
                call,
                CapacityOp::Opening { op, obj_size, data_type, capacity, initial },
            ),
            Progress::Done(Err(error)) => Progress::Done(Err(error)),
            Progress::Done(Ok(_)) => vstd::pervasive::unreached(),
        }
    }
}

} // verus!
