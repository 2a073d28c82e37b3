//! What the objects of open pools are, what calls into libpmemobj do to them, and
//! what the replies say of them. Nothing in the crate rests on this: the laws suppose
//! it of the replies that they speak of.

use vstd::prelude::*;

use crate::call::{Call, CtlValue, Exchange, Query, Reply};
use crate::oid::PMEMoid;
use crate::pool::ObjPool;

verus! {

/// An object.
pub struct Object {
    /// The address at which the object is mapped.
    pub addr: u64,
    /// The number of bytes that it can hold.
    pub size: nat,
    /// The type number that it carries.
    pub type_num: u64,
    /// The arena from which it was allocated.
    pub arena: u32,
}

/// The sizes of `oids`, added up.
pub open spec fn total_size(objects: Map<PMEMoid, Object>, oids: Seq<PMEMoid>) -> nat
    decreases oids.len(),
{
    if oids.len() == 0 {
        0
    } else {
        total_size(objects, oids.drop_last()) + objects[oids.last()].size
    }
}

/// Whether an address is one at which an object can lie.
pub open spec fn is_aligned(addr: u64) -> bool {
    addr % 16 == 0
}

/// The objects of the open pools, and the memory in which they lie.
pub struct Heap {
    /// The open pools, each with the part of its identity that the identifiers of
    /// its objects carry.
    pub pools: Map<u64, u64>,
    /// The allocated objects.
    pub objects: Map<PMEMoid, Object>,
    /// For each such part of an identity, the objects in the order in which a walk
    /// meets them.
    pub orders: Map<u64, Seq<PMEMoid>>,
    /// The bytes of the mapped memory.
    pub memory: Map<int, u8>,
    /// The arenas of each pool that were made, by their numbers, each with whether an
    /// object has ever been allocated from it.
    pub arenas: Map<(u64, u32), bool>,
    /// For each pool, the arena that the calling thread allocates from, where it was set.
    pub thread_arenas: Map<u64, u32>,
    /// The pools whose statistics were ever switched, each with whether they have been on
    /// since before the first of its objects.
    pub statistics: Map<u64, bool>,
}

impl Heap {
    /// Whether `addr` is the address of a byte of the object.
    pub open spec fn covers(self, oid: PMEMoid, addr: int) -> bool {
        self.objects[oid].addr <= addr < self.objects[oid].addr + self.objects[oid].size
    }

    /// No object is empty or has the null identifier, every object lies in mapped
    /// memory, no two objects share a byte, and a walk over a pool meets each of its
    /// objects once.
    pub open spec fn valid(self) -> bool {
        &&& forall|oid: PMEMoid| #[trigger]
            self.objects.contains_key(oid) ==> {
                &&& !oid.is_null_oid()
                &&& self.objects[oid].size > 0
                &&& self.objects[oid].addr + self.objects[oid].size <= u64::MAX
            }
        &&& forall|oid: PMEMoid, addr: int|
            self.objects.contains_key(oid) && #[trigger] self.covers(oid, addr)
                ==> self.memory.contains_key(addr)
        &&& forall|a: PMEMoid, b: PMEMoid, addr: int|
            self.objects.contains_key(a) && self.objects.contains_key(b) && #[trigger] self.covers(
                a,
                addr,
            ) && #[trigger] self.covers(b, addr) ==> a == b
        &&& forall|pool: u64| #[trigger]
            self.pools.contains_key(pool) ==> self.walks_over(self.pools[pool])
    }

    /// Whether a walk over the pool of this identity meets each of its objects once.
    pub open spec fn walks_over(self, uuid_lo: u64) -> bool {
        &&& self.orders.contains_key(uuid_lo)
        &&& self.orders[uuid_lo].no_duplicates()
        &&& forall|oid: PMEMoid| #[trigger]
            self.orders[uuid_lo].contains(oid) <==> self.objects.contains_key(oid)
                && oid.pool_uuid_lo == uuid_lo
    }

    /// The bytes of an object.
    pub open spec fn content(self, oid: PMEMoid) -> Seq<u8> {
        Seq::new(self.objects[oid].size, |i: int| self.memory[self.objects[oid].addr + i])
    }

    /// Whether `after` still has every object of this heap, as it was.
    pub open spec fn kept_in(self, after: Heap) -> bool {
        forall|oid: PMEMoid| #[trigger]
            self.objects.contains_key(oid) ==> {
                &&& after.objects.contains_key(oid)
                &&& after.objects[oid] == self.objects[oid]
                &&& after.content(oid) == self.content(oid)
            }
    }

    /// Whether `after` still has every object of this heap, whatever its bytes are.
    pub open spec fn present_in(self, after: Heap) -> bool {
        forall|oid: PMEMoid| #[trigger]
            self.objects.contains_key(oid) ==> {
                &&& after.objects.contains_key(oid)
                &&& after.objects[oid] == self.objects[oid]
            }
    }

    /// Whether every open pool is still open on the heap `after`.
    pub open spec fn stays_open_in(self, after: Heap) -> bool {
        forall|pool: u64| #[trigger]
            self.pools.contains_key(pool) ==> {
                &&& after.pools.contains_key(pool)
                &&& after.pools[pool] == self.pools[pool]
            }
    }

    /// Whether others that use the open pools can turn this heap into `after`: they may
    /// allocate objects and write into them, but remove no object and close no pool.
    pub open spec fn shared_into(self, after: Heap) -> bool {
        &&& self.present_in(after)
        &&& self.stays_open_in(after)
        &&& after.valid()
    }

    /// Whether the pool is open, and knows its own identity.
    pub open spec fn has_open(self, pool: ObjPool) -> bool {
        self.pools.contains_key(pool.inner) && self.pools[pool.inner] == pool.uuid_lo
    }

    /// Whether no object carries this part of an identity.
    pub open spec fn is_fresh_identity(self, uuid_lo: u64) -> bool {
        forall|oid: PMEMoid| #[trigger]
            self.objects.contains_key(oid) ==> oid.pool_uuid_lo != uuid_lo
    }

    /// Whether no object lies in the pool.
    pub open spec fn is_empty(self, pool: u64) -> bool {
        self.orders[self.pools[pool]].len() == 0
    }

    /// Whether an object of the pool was allocated from this arena.
    pub open spec fn in_use(self, pool: u64, arena: u32) -> bool {
        exists|oid: PMEMoid| #[trigger]
            self.objects.contains_key(oid) && oid.pool_uuid_lo == self.pools[pool]
                && self.objects[oid].arena == arena
    }

    /// The arenas after the allocation of an object of the pool.
    pub open spec fn arenas_after(self, pool: u64) -> Map<(u64, u32), bool> {
        if self.thread_arenas.contains_key(pool) {
            self.arenas.insert((pool, self.thread_arenas[pool]), true)
        } else {
            self.arenas
        }
    }

    /// Whether the statistics of the pool have been on since before the first of its
    /// objects.
    pub open spec fn counted(self, pool: u64) -> bool {
        self.statistics.contains_key(pool) && self.statistics[pool]
    }

    /// The statistics after those of `pool` were switched.
    pub open spec fn statistics_after(self, pool: u64, on: bool) -> Map<u64, bool> {
        let from_the_first = if self.statistics.contains_key(pool) {
            self.statistics[pool]
        } else {
            self.is_empty(pool)
        };
        self.statistics.insert(pool, on && from_the_first)
    }

    /// Whether the bytes that are allocated in the pool can be said to be `bytes`: with
    /// full statistics they cover all its objects, and there are none without objects.
    pub open spec fn counts(self, pool: u64, status: i32, bytes: u64) -> bool {
        self.pools.contains_key(pool) && self.counted(pool) ==> {
            &&& status == 0
            &&& bytes >= total_size(self.objects, self.orders[self.pools[pool]])
            &&& self.is_empty(pool) ==> bytes == 0
        }
    }

    /// Whether the bytes that an arena of the pool takes can be said to be `bytes`: with
    /// full statistics there are some while an object lies in it, and none before the
    /// first.
    pub open spec fn counts_arena(self, pool: u64, arena: u32, status: i32, bytes: u64) -> bool {
        self.counted(pool) && self.arenas.contains_key((pool, arena)) ==> {
            &&& status == 0
            &&& !self.arenas[(pool, arena)] ==> bytes == 0
            &&& self.in_use(pool, arena) ==> bytes > 0
        }
    }

    /// Whether `after` is this heap with one more object, of the identifier `oid`.
    pub open spec fn gains(self, oid: PMEMoid, after: Heap) -> bool {
        &&& !self.objects.contains_key(oid)
        &&& after.objects.contains_key(oid)
        &&& after.objects == self.objects.insert(oid, after.objects[oid])
        &&& after.pools == self.pools
        &&& after.thread_arenas == self.thread_arenas
        &&& after.statistics == self.statistics
        &&& self.kept_in(after)
        &&& after.valid()
    }

    /// Whether `after` is this heap without the object of the identifier `oid`.
    pub open spec fn loses(self, oid: PMEMoid, after: Heap) -> bool {
        &&& after.objects == self.objects.remove(oid)
        &&& after.pools == self.pools
        &&& after.arenas == self.arenas
        &&& after.thread_arenas == self.thread_arenas
        &&& after.statistics == self.statistics
        &&& after.memory == self.memory
        &&& after.valid()
    }

    /// The memory with `data` copied to `dest`.
    pub open spec fn copied(self, dest: int, data: Seq<u8>) -> Map<int, u8> {
        Map::new(
            |addr: int| self.memory.contains_key(addr),
            |addr: int|
                if dest <= addr < dest + data.len() {
                    data[addr - dest]
                } else {
                    self.memory[addr]
                },
        )
    }

    /// Whether `oid` is the `i`th object that a walk over its pool meets.
    pub open spec fn meets(self, oid: PMEMoid, i: int) -> bool {
        &&& 0 <= i < self.orders[oid.pool_uuid_lo].len()
        &&& self.orders[oid.pool_uuid_lo][i] == oid
    }

    /// The object that a walk meets after the `i`th one of a pool, or the null
    /// identifier at the end.
    pub open spec fn walk_at(self, uuid_lo: u64, i: int) -> PMEMoid {
        if i < self.orders[uuid_lo].len() {
            self.orders[uuid_lo][i]
        } else {
            PMEMoid { pool_uuid_lo: 0, off: 0 }
        }
    }

    /// Whether a walk over the pool of `oid` meets `next` after it, or ends there and
    /// `next` is null.
    pub open spec fn follows(self, oid: PMEMoid, next: PMEMoid) -> bool {
        forall|i: int| #[trigger]
            self.meets(oid, i) ==> next == self.walk_at(oid.pool_uuid_lo, i + 1)
    }

    /// Whether `call` can come back with `reply` on this heap, and leave the heap
    /// `after` behind.
    pub open spec fn answers(self, call: Call, reply: Reply, after: Heap) -> bool {
        &&& call.answered_by(reply)
        &&& match call {
            Call::Create { .. } => if reply->Pool_0 == 0 {
                after == self
            } else {
                &&& !self.pools.contains_key(reply->Pool_0)
                &&& !self.statistics.contains_key(reply->Pool_0)
                &&& self.is_fresh_identity(after.pools[reply->Pool_0])
                &&& after.pools == self.pools.insert(
                    reply->Pool_0,
                    after.pools[reply->Pool_0],
                )
                &&& after.objects == self.objects
                &&& after.memory == self.memory
                &&& after.arenas == self.arenas
                &&& after.thread_arenas == self.thread_arenas
                &&& after.statistics == self.statistics
                &&& after.valid()
            },
            Call::Alloc { pool, size, type_num } => if reply->Allocated_status == 0 {
                &&& self.pools.contains_key(pool)
                &&& reply->oid.pool_uuid_lo == self.pools[pool]
                &&& self.gains(reply->oid, after)
                &&& after.objects[reply->oid].size >= size
                &&& after.objects[reply->oid].type_num == type_num
                &&& is_aligned(after.objects[reply->oid].addr)
                &&& self.thread_arenas.contains_key(pool) ==> after.objects[reply->oid].arena
                    == self.thread_arenas[pool]
                &&& after.arenas == self.arenas_after(pool)
            } else {
                after == self
            },
            Call::Free { oid } => self.loses(oid, after),
            Call::Direct { oid } => {
                &&& self.objects.contains_key(oid) ==> reply->Address_0 == self.objects[oid].addr
                &&& after == self
            },
            Call::Oid { addr } => {
                &&& forall|oid: PMEMoid| #[trigger]
                    self.objects.contains_key(oid) && self.objects[oid].addr == addr
                        ==> reply->Oid_0 == oid
                &&& after == self
            },
            Call::TypeNum { oid } => {
                &&& self.objects.contains_key(oid) ==> reply->TypeNum_0
                    == self.objects[oid].type_num
                &&& after == self
            },
            Call::UsableSize { oid } => {
                &&& self.objects.contains_key(oid) ==> reply->Size_0 == self.objects[oid].size
                &&& after == self
            },
            Call::Copy { dest, data, .. } => after == (Heap {
                memory: self.copied(dest as int, data@),
                ..self
            }),
            Call::Read { addr, len } => {
                &&& forall|i: int|
                    0 <= i < len ==> #[trigger] reply->Bytes_0@[i] == self.memory[addr + i]
                &&& after == self
            },
            Call::First { pool } => {
                &&& self.pools.contains_key(pool) ==> reply->Oid_0 == self.walk_at(
                    self.pools[pool],
                    0,
                )
                &&& after == self
            },
            Call::Next { oid } => {
                &&& self.follows(oid, reply->Oid_0)
                &&& after == self
            },
            Call::CtlExec { pool, query, .. } => if query is ArenaCreate && reply->Ctl_status
                == 0 {
                let made = (pool, reply->value->Arena_0);
                &&& !self.arenas.contains_key(made)
                &&& after == (Heap { arenas: self.arenas.insert(made, false), ..self })
            } else {
                after == self
            },
            Call::CtlSet { pool, query, value } => if reply->Ctl_status != 0 {
                after == self
            } else if query is ThreadArenaId {
                &&& reply->value == value
                &&& after == (Heap {
                    thread_arenas: self.thread_arenas.insert(pool, value->Arena_0),
                    ..self
                })
            } else if query.spec_name() == "stats.enabled"@ {
                &&& reply->value == value
                &&& after == (Heap {
                    statistics: self.statistics_after(pool, value->Switch_0 != 0),
                    ..self
                })
            } else {
                after == self
            },
            Call::CtlGet { pool, query, .. } => {
                &&& after == self
                &&& match query {
                    Query::ThreadArenaId => reply->Ctl_status == 0
                        && self.thread_arenas.contains_key(pool) ==> reply->value
                        == CtlValue::Arena(self.thread_arenas[pool]),
                    Query::HeapCurrAllocated => self.counts(
                        pool,
                        reply->Ctl_status,
                        reply->value->Bytes_0,
                    ),
                    Query::ArenaSize(id) => self.counts_arena(
                        pool,
                        id,
                        reply->Ctl_status,
                        reply->value->Bytes_0,
                    ),
                    _ => true,
                }
            },
            Call::QueueAbandoned | Call::Push { .. } => after == self,
            Call::Close { .. } | Call::Remove { .. } => true,
        }
    }
}

/// Whether the `i`th call of `trace` can come back with its reply while the heap
/// goes from the `i`th state of `heaps` to the next.
pub open spec fn step_served<'a>(heaps: Seq<Heap>, trace: Seq<Exchange<'a>>, i: int) -> bool {
    heaps[i].answers(trace[i].0, trace[i].1, heaps[i + 1])
}

/// Whether the calls of `trace` can come back with the replies of `trace` while
/// the heap goes through the states of `heaps`.
pub open spec fn served<'a>(heaps: Seq<Heap>, trace: Seq<Exchange<'a>>) -> bool {
    &&& heaps.len() == trace.len() + 1
    &&& forall|i: int| 0 <= i < trace.len() ==> #[trigger] step_served(heaps, trace, i)
}

/// As [`step_served`], but others may use the heap between the call and the next state.
pub open spec fn step_served_among<'a>(
    heaps: Seq<Heap>,
    trace: Seq<Exchange<'a>>,
    i: int,
) -> bool {
    exists|after: Heap| #[trigger]
        heaps[i].answers(trace[i].0, trace[i].1, after) && after.shared_into(heaps[i + 1])
}

/// As [`served`], but others may use the heap between the calls.
pub open spec fn served_among<'a>(heaps: Seq<Heap>, trace: Seq<Exchange<'a>>) -> bool {
    &&& heaps.len() == trace.len() + 1
    &&& forall|i: int| 0 <= i < trace.len() ==> #[trigger] step_served_among(heaps, trace, i)
}

} // verus!
