//! Whole operations, run against a stand-in for libpmemobj that keeps everything in
//! ordinary memory.

use std::collections::{BTreeMap, HashMap, HashSet};
use std::sync::Arc;

use crossbeam_queue::ArrayQueue;

use pmdk::call::{Call, CtlValue, Operation, Progress, Query, Reply};
use pmdk::capacity::Preallocated;
use pmdk::pool::pool_size;
use pmdk::{pmemoid, CText, Error, ErrorKind, ObjPool, ObjRawKey, PMEMoid};

const DIRECT_PTR_MASK: u64 = !0u64 >> (8 * 8 - 4);

const TEST_TYPE_NUM: u64 = 0xf;

struct SimObject {
    oid: PMEMoid,
    size: usize,
    type_num: u64,
    arena: u32,
    bytes: Vec<u8>,
}

struct SimPool {
    uuid_lo: u64,
    room: usize,
    used: usize,
}

/// The stand-in for libpmemobj.
struct Sim {
    pools: HashMap<u64, SimPool>,
    files: HashSet<String>,
    objects: BTreeMap<u64, SimObject>,
    next_pool: u64,
    next_addr: u64,
    /// Whether objects keep their bytes, or only their sizes.
    keep_bytes: bool,
    stats: bool,
    arenas: u32,
    thread: usize,
    thread_arenas: HashMap<usize, u32>,
    /// How many allocations succeed before one fails.
    allocations_left: usize,
    /// The names of the calls so far.
    log: Vec<&'static str>,
}

impl Sim {
    fn new() -> Self {
        Sim {
            pools: HashMap::new(),
            files: HashSet::new(),
            objects: BTreeMap::new(),
            next_pool: 0x7000,
            next_addr: 0x10_0000,
            keep_bytes: true,
            stats: false,
            arenas: 1,
            thread: 0,
            thread_arenas: HashMap::new(),
            allocations_left: usize::MAX,
            log: Vec::new(),
        }
    }

    fn addr_of(&self, oid: PMEMoid) -> Option<u64> {
        self.objects.get(&oid.off()).filter(|o| o.oid == oid).map(|_| oid.off())
    }

    fn arena(&self) -> u32 {
        *self.thread_arenas.get(&self.thread).unwrap_or(&0)
    }

    fn allocate(&mut self, pool: u64, size: usize, type_num: u64) -> Reply {
        let arena = self.arena();
        let failed = Reply::Allocated { status: -1, oid: pmemoid::default() };
        let sim_pool = self.pools.get_mut(&pool).expect("an open pool");
        if size == 0 || self.allocations_left == 0 || sim_pool.used + size + 64 > sim_pool.room {
            return failed;
        }
        self.allocations_left -= 1;
        sim_pool.used += size + 64;
        let addr = self.next_addr;
        self.next_addr += ((size as u64 + 63) / 64 + 1) * 64;
        let oid = pmemoid::new(sim_pool.uuid_lo, addr);
        let bytes = if self.keep_bytes { vec![0u8; size] } else { Vec::new() };
        self.objects.insert(addr, SimObject { oid, size, type_num, arena, bytes });
        Reply::Allocated { status: 0, oid }
    }

    fn ctl(&mut self, query: &Query, value: CtlValue, writes: bool) -> Reply {
        let name = query.name().as_str().to_string();
        let arena_size = |id: &u32, sim: &Sim| {
            sim.objects.values().filter(|o| o.arena == *id).map(|o| o.size as u64).sum::<u64>()
        };
        let (status, value) = match (name.as_str(), value, writes) {
            ("heap.arena.create", CtlValue::Arena(_), true) => {
                self.arenas += 1;
                (0, CtlValue::Arena(self.arenas))
            }
            ("heap.thread.arena_id", CtlValue::Arena(id), true) => {
                if id <= self.arenas {
                    self.thread_arenas.insert(self.thread, id);
                    (0, value)
                } else {
                    (-1, value)
                }
            }
            ("heap.thread.arena_id", CtlValue::Arena(_), false) => {
                (0, CtlValue::Arena(self.arena()))
            }
            ("stats.enabled", CtlValue::Switch(on), true) => {
                self.stats = on != 0;
                (0, value)
            }
            ("stats.heap.curr_allocated", CtlValue::Bytes(_), false) if self.stats => {
                (0, CtlValue::Bytes(self.objects.values().map(|o| o.size as u64).sum()))
            }
            _ => match query {
                Query::ArenaSize(id) if name == format!("heap.arena.{}.size", id) => {
                    (0, CtlValue::Bytes(arena_size(id, self)))
                }
                _ => (-1, value),
            },
        };
        Reply::Ctl { status, value }
    }

    fn perform(&mut self, call: &Call<'_>) -> Reply {
        match call {
            Call::Create { path, layout: _, size, mode } => {
                self.log.push("create");
                assert_eq!(*mode, 0o666);
                if !self.files.insert(path.as_str().to_string()) {
                    return Reply::Pool(0);
                }
                let inner = self.next_pool;
                self.next_pool += 0x1000;
                let pool = SimPool { uuid_lo: inner * 31 + 7, room: *size, used: 0 };
                self.pools.insert(inner, pool);
                Reply::Pool(inner)
            }
            Call::Close { pool } => {
                self.log.push("close");
                let closed = self.pools.remove(pool).expect("an open pool");
                self.objects.retain(|_, o| o.oid.pool_uuid_lo() != closed.uuid_lo);
                Reply::Returned
            }
            Call::Remove { path, flags } => {
                self.log.push("rm");
                assert_eq!(*flags, 0);
                assert!(self.files.remove(path.as_str()));
                Reply::Returned
            }
            Call::Alloc { pool, size, type_num } => {
                self.log.push("alloc");
                self.allocate(*pool, *size, *type_num)
            }
            Call::Free { oid } => {
                self.log.push("free");
                let addr = self.addr_of(*oid).expect("an object");
                let object = self.objects.remove(&addr).expect("an object");
                for pool in self.pools.values_mut() {
                    if pool.uuid_lo == object.oid.pool_uuid_lo() {
                        pool.used -= object.size + 64;
                    }
                }
                Reply::Returned
            }
            Call::Direct { oid } => {
                self.log.push("direct");
                Reply::Address(self.addr_of(*oid).unwrap_or(0))
            }
            Call::Oid { addr } => {
                self.log.push("oid");
                Reply::Oid(self.objects.get(addr).map_or(pmemoid::default(), |o| o.oid))
            }
            Call::TypeNum { oid } => {
                self.log.push("type_num");
                Reply::TypeNum(self.addr_of(*oid).map_or(0, |addr| self.objects[&addr].type_num))
            }
            Call::UsableSize { oid } => {
                self.log.push("usable_size");
                Reply::Size(self.addr_of(*oid).map_or(0, |addr| self.objects[&addr].size))
            }
            Call::Copy { pool, dest, data } => {
                self.log.push("copy");
                assert!(self.pools.contains_key(pool));
                let below = self.objects.range_mut(..=*dest).next_back();
                let (addr, object) = below.expect("an object");
                let at = (*dest - *addr) as usize;
                assert!(at + data.len() <= object.size);
                if self.keep_bytes {
                    object.bytes[at..at + data.len()].copy_from_slice(data);
                }
                Reply::Returned
            }
            Call::Read { addr, len } => {
                self.log.push("read");
                Reply::Bytes(self.objects[addr].bytes[..*len].to_vec())
            }
            Call::First { pool } => {
                self.log.push("first");
                let uuid_lo = self.pools[pool].uuid_lo;
                Reply::Oid(
                    self.objects
                        .values()
                        .map(|o| o.oid)
                        .find(|oid| oid.pool_uuid_lo() == uuid_lo)
                        .unwrap_or_default(),
                )
            }
            Call::Next { oid } => {
                self.log.push("next");
                Reply::Oid(
                    self.objects
                        .range(oid.off() + 1..)
                        .map(|(_, o)| o.oid)
                        .find(|next| next.pool_uuid_lo() == oid.pool_uuid_lo())
                        .unwrap_or_default(),
                )
            }
            Call::CtlExec { query, value, .. } => {
                self.log.push("ctl_exec");
                self.ctl(query, *value, true)
            }
            Call::CtlSet { query, value, .. } => {
                self.log.push("ctl_set");
                self.ctl(query, *value, true)
            }
            Call::CtlGet { query, value, .. } => {
                self.log.push("ctl_get");
                self.ctl(query, *value, false)
            }
            Call::QueueAbandoned | Call::Push { .. } => panic!("no queue here"),
        }
    }

    /// Runs an operation to its end.
    fn run<'a, O: Operation<'a>>(&mut self, start: Progress<'a, O, O::Output>) -> O::Output {
        let mut progress = start;
        loop {
            match progress {
                Progress::Done(output) => return output,
                Progress::Call(call, op) => {
                    let reply = self.perform(&call);
                    progress = op.resume(reply);
                }
            }
        }
    }

    /// Runs an allocation for a shared queue, for at most `steps` calls. Returns its
    /// result, or where it stands.
    fn fill<'a, O: Operation<'a>>(
        &mut self,
        start: Progress<'a, O, O::Output>,
        queue: &mut Arc<ArrayQueue<ObjRawKey>>,
        steps: usize,
    ) -> Progress<'a, O, O::Output> {
        let mut progress = start;
        for _ in 0..steps {
            progress = match progress {
                Progress::Done(output) => return Progress::Done(output),
                Progress::Call(Call::QueueAbandoned, op) => {
                    op.resume(Reply::Answer(Arc::get_mut(queue).is_some()))
                }
                Progress::Call(Call::Push { key }, op) => {
                    op.resume(Reply::Answer(queue.push(key).is_ok()))
                }
                Progress::Call(call, op) => {
                    let reply = self.perform(&call);
                    op.resume(reply)
                }
            };
        }
        progress
    }

    fn with_size(&mut self, path: &str, size: usize) -> Result<ObjPool, Error> {
        self.run(ObjPool::with_size(Some(path.to_string()), None, size))
    }

    fn pool(&mut self, path: &str, obj_size: usize, capacity: usize) -> Result<ObjPool, Error> {
        self.run(ObjPool::new(Some(path.to_string()), None, obj_size, capacity))
    }

    fn with_capacity(
        &mut self,
        path: &str,
        obj_size: usize,
        capacity: usize,
    ) -> Result<Preallocated, Error> {
        self.run(ObjPool::with_capacity(
            Some(path.to_string()),
            None,
            obj_size,
            TEST_TYPE_NUM,
            capacity,
        ))
    }
}

type KeyVal = (ObjRawKey, Vec<u8>, u64);

fn verify_objs(
    sim: &mut Sim,
    pool: &ObjPool,
    keys_vals: Vec<KeyVal>,
) -> Result<Vec<KeyVal>, Error> {
    keys_vals
        .into_iter()
        .map(|(rkey, val, val_type_num)| {
            let (key, buf) = sim.run(pool.get_by_rawkey(rkey, val.len()));
            if buf == val && sim.run(key.get_type()) == val_type_num {
                Ok((key, val, val_type_num))
            } else {
                Err(ErrorKind::GenericError.into())
            }
        })
        .collect()
}

fn all_keys(sim: &mut Sim, pool: &ObjPool) -> Vec<ObjRawKey> {
    let mut keys = Vec::new();
    let mut iter = sim.run(pool.iter());
    loop {
        let (key, rest) = sim.run(iter.next());
        iter = rest;
        match key {
            Some(key) => keys.push(key),
            None => return keys,
        }
    }
}

fn iter_verify_objs(
    sim: &mut Sim,
    pool: &ObjPool,
    keys_vals: Vec<KeyVal>,
) -> Result<Vec<KeyVal>, Error> {
    let mut hash_map = HashMap::new();
    for (key, val, val_type_num) in keys_vals {
        hash_map.insert(key, (val, val_type_num));
    }
    all_keys(sim, pool)
        .into_iter()
        .map(|key| {
            hash_map
                .remove(&key)
                .map(|(val, val_type_num)| (key, val, val_type_num))
                .ok_or_else(|| ErrorKind::GenericError.into())
        })
        .collect()
}

fn update_buf_head(buf: &mut [u8], key: &ObjRawKey) {
    let key_bytes = key.as_byte_vec();
    buf[..key_bytes.len()].copy_from_slice(key_bytes.as_slice());
}

fn generate_objs(
    sim: &mut Sim,
    pool: &ObjPool,
    queue: &ArrayQueue<ObjRawKey>,
    nobj: usize,
) -> Result<Vec<KeyVal>, Error> {
    (0..nobj)
        .map(|_| {
            let mut buf = vec![0xafu8; 0x1000]; // 4k
            let key = queue.pop().map_err(|_| ErrorKind::GenericError)?;
            update_buf_head(&mut buf, &key);
            let key = sim.run(pool.update_by_rawkey(key, &buf, None))?;
            Ok((key, buf, TEST_TYPE_NUM))
        })
        .collect()
}

fn update_objs(
    sim: &mut Sim,
    pool: &ObjPool,
    queue: &ArrayQueue<ObjRawKey>,
    nobj: usize,
) -> Result<(), Error> {
    let keys_vals = generate_objs(sim, pool, queue, nobj)?;
    let keys_vals = verify_objs(sim, pool, keys_vals)?;
    let keys_vals = keys_vals
        .into_iter()
        .map(|(key, _, type_num)| {
            let mut buf1 = vec![0xafu8; 0x800]; // 2k
            update_buf_head(&mut buf1, &key);
            let mut buf2 = vec![0xbcu8; 0x800]; // 2k
            let key = sim.run(pool.update_by_rawkey(key, &buf2, Some(buf1.len())))?;
            buf1.append(&mut buf2);
            Ok((key, buf1, type_num))
        })
        .collect::<Result<Vec<KeyVal>, Error>>()?;
    verify_objs(sim, pool, keys_vals)?;
    Ok(())
}

#[test]
fn create() -> Result<(), Error> {
    let obj_size = 0x1000; // 4k
    let size = 0x100_0000; // 16 Mb
    let mut sim = Sim::new();
    let obj_pool = sim.pool("__pmdk_basic__create_test.obj", obj_size, size / obj_size)?;
    println!("create:: MEM pool create: done!");

    let keys_vals = (0..100)
        .map(|i| {
            let buf = vec![0xafu8; 0x10]; // 16 byte
            sim.run(obj_pool.put(&buf, i)).map(u64::from).map(|key| {
                if key & DIRECT_PTR_MASK != 0u64 {
                    println!(
                        "create:: verification error key 0x{:x} bx{:b} mask 0x{:b} result 0x{:b}",
                        key,
                        key,
                        DIRECT_PTR_MASK,
                        key & DIRECT_PTR_MASK
                    );
                }
                (key.into(), buf, i)
            })
        })
        .collect::<Result<Vec<KeyVal>, Error>>()?;
    println!("create:: MEM put: done!");

    verify_objs(&mut sim, &obj_pool, keys_vals).map(|keys_vals| assert_eq!(keys_vals.len(), 100))
}

#[test]
fn preallocate() -> Result<(), Error> {
    let mut sim = Sim::new();
    let made = sim.with_capacity("__pmdk_basic__preallocate_test.obj", 0x1000, 0x800)?;
    println!("preallocate:: allocated {} objects", made.queue.len());
    assert_eq!(made.queue.len(), 0x800);
    assert_eq!(made.queue.capacity(), 0x800);
    assert_eq!(made.deferred, 0);

    update_objs(&mut sim, &made.pool, &made.queue, 10)
}

#[test]
fn verify_iter() -> Result<(), Error> {
    let capacity = 0x800;
    let mut sim = Sim::new();
    let made = sim.with_capacity("__pmdk_basic__verifyiter_test.obj", 0x1000, capacity)?;
    println!("verify_iter:: allocated {} objects", made.queue.len());

    let keys_vals = generate_objs(&mut sim, &made.pool, &made.queue, capacity)?;
    let keys_vals = iter_verify_objs(&mut sim, &made.pool, keys_vals)?;
    if keys_vals.len() == capacity {
        verify_objs(&mut sim, &made.pool, keys_vals).map(|_| ())
    } else {
        Err(ErrorKind::GenericError.into())
    }
}

#[test]
fn preallocate_differed() -> Result<(), Error> {
    let mut capacity = 0x800;
    let mut sim = Sim::new();
    let made = sim.run(ObjPool::with_initial_capacity(
        Some("__pmdk_basic__preallocate_differed_test.obj".to_string()),
        None,
        0x1000,
        TEST_TYPE_NUM,
        capacity,
        0x100,
    ))?;
    println!("preallocate differed:: allocated {} objects", made.queue.len());
    assert_eq!(made.queue.len(), 0x100);
    assert_eq!(made.deferred, 0x700);

    // the allocation in the background, which goes on between the other steps
    let pool = made.pool;
    let queue = Arc::new(made.queue);
    let mut shared = Arc::clone(&queue);
    let background = pool.alloc_multi(0x1000, TEST_TYPE_NUM, made.deferred);

    update_objs(&mut sim, &pool, &queue, 10)?;
    capacity -= 10;
    let background = sim.fill(background, &mut shared, 777);

    update_objs(&mut sim, &pool, &queue, 100)?;
    capacity -= 100;
    match sim.fill(background, &mut shared, usize::MAX) {
        Progress::Done(result) => result?,
        Progress::Call(..) => panic!("the allocation ends"),
    }

    assert_eq!(queue.len(), capacity);
    Ok(())
}

#[test]
fn alloc_alignment() -> Result<(), Error> {
    let obj_size = 16; // two u64
    let mut sim = Sim::new();
    let made = sim.with_capacity("__pmdk_basic__alignment_test.obj", obj_size, 0x90000 / obj_size)?;
    println!("alloc_alignment:: allocated {} objects of {}", made.queue.len(), obj_size);
    assert_eq!(made.queue.len(), 0x90000 / obj_size);

    while let Ok(rkey) = made.queue.pop() {
        let key: u64 = rkey.into();
        assert_eq!(key & DIRECT_PTR_MASK, 0u64);
    }
    println!("alloc_alignment:: check done!");
    Ok(())
}

#[test]
fn allocator() -> Result<(), Error> {
    let obj_size = 0x1000;
    let mut capacity = 0x800;
    let mut sim = Sim::new();
    let obj_pool = sim.pool("__pmdk_basic_allocator_test.obj", obj_size, capacity)?;
    let queue = ArrayQueue::new(capacity);
    let allocate = |sim: &mut Sim, n: usize| -> Result<(), Error> {
        for _ in 0..n {
            let key = sim.run(obj_pool.allocate(obj_size, TEST_TYPE_NUM))?;
            queue.push(key).map_err(|_| ErrorKind::PmdkNoSpaceInQueueError)?;
        }
        Ok(())
    };

    allocate(&mut sim, 10)?;
    update_objs(&mut sim, &obj_pool, &queue, 10)?;
    allocate(&mut sim, capacity - 10)?;
    capacity -= 10;
    assert_eq!(queue.len(), capacity);
    update_objs(&mut sim, &obj_pool, &queue, 100)
}

#[test]
fn test_rm_on_drop() -> Result<(), Error> {
    let obj_size = 0x1000; // 4k
    let size = 0x100_0000; // 16 Mb
    let name = "__pmdk_basic__rm_on_drop.obj";
    let mut sim = Sim::new();

    let obj_pool = sim.pool(name, obj_size, size / obj_size)?;
    assert_eq!(obj_pool.inner_path.as_str(), name);
    sim.run(obj_pool.drop());
    assert!(sim.files.contains(name));
    assert!(sim.files.remove(name));
    assert!(!sim.files.contains(name));

    let mut obj_pool = sim.pool(name, obj_size, size / obj_size)?;
    obj_pool.set_rm_on_drop(true);
    sim.run(obj_pool.drop());
    assert!(!sim.files.contains(name));
    Ok(())
}

const RANDOM_DATA_SIZE: usize = 1024 * 1024;
const IO_SIZES: [usize; 5] = [1024 * 1024, 128 * 1024, 64 * 1024, 32 * 1024, 16 * 1024];

fn var_alloc_task_ex(
    sim: &mut Sim,
    pool: &ObjPool,
    io_sizes: &[usize],
    nobj: usize,
) -> Result<Vec<ObjRawKey>, Error> {
    let arena_id = sim.run(pool.thread_arena_get())?;
    let mut seed = 0x2545_f491u32;
    let random_data = (0..RANDOM_DATA_SIZE)
        .map(|_| {
            seed = seed.wrapping_mul(1_664_525).wrapping_add(1_013_904_223);
            (seed >> 24) as u8
        })
        .collect::<Vec<u8>>();
    (0..nobj)
        .map(|i| {
            let size = io_sizes[(i + arena_id as usize) % io_sizes.len()];
            sim.run(pool.put(&random_data[0..size], i as u64))
        })
        .collect()
}

#[test]
fn var_alloc_basic() -> Result<(), Error> {
    let size = 3 * 1024 * 1024 * 1024;
    let nthreads = 10;
    let nobj = 1000;
    let mut sim = Sim::new();
    let pool = sim.with_size("__pmdk_var_alloc_basic_test.obj", size)?;
    for thread in 0..nthreads {
        sim.thread = thread;
        let made = sim.run(pool.thread_arena_init())?;
        assert_eq!(sim.run(pool.thread_arena_get())?, made);
        let keys = var_alloc_task_ex(&mut sim, &pool, &IO_SIZES[1..], nobj)?;
        assert_eq!(keys.len(), nobj);
        for key in keys {
            sim.run(pool.remove(key))?;
        }
    }
    assert!(sim.objects.is_empty());
    Ok(())
}

#[test]
fn alloc_size() -> Result<(), Error> {
    let size = 3 * 1024 * 1024 * 1024;
    let nobj = 1000;
    let mut sim = Sim::new();
    sim.keep_bytes = false;
    let pool = sim.with_size("__pmdk_var_alloc_basic_test.obj", size)?;
    sim.run(pool.thread_arena_init())?;

    let query = Query::Named(CText::new("stats.enabled".to_string()).expect("no NUL"));
    let (enabled, value) = sim.run(pool.ctl_set(query, CtlValue::Switch(1)));
    enabled?;
    assert_eq!(value, CtlValue::Switch(1));

    let arena_id = sim.run(pool.thread_arena_get())?;
    assert_eq!(sim.run(pool.thread_allocated_size_get(arena_id))?, 0);
    assert_eq!(sim.run(pool.allocated_size_get())?, 0);

    let all_obj_size = nobj * 1024 * 1024;
    let _ = var_alloc_task_ex(&mut sim, &pool, &IO_SIZES[..1], nobj)?;
    let obj_size_sum: usize = var_alloc_task_ex(&mut sim, &pool, &IO_SIZES[..1], nobj)?
        .into_iter()
        .map(|key| sim.run(pool.obj_size_get(key)).map(|(obj_size, _)| obj_size))
        .collect::<Result<Vec<usize>, Error>>()?
        .into_iter()
        .sum();
    assert!(obj_size_sum >= all_obj_size);
    assert!(sim.run(pool.thread_allocated_size_get(arena_id))? > 0);
    assert!(sim.run(pool.allocated_size_get())? as usize >= all_obj_size);
    Ok(())
}

#[test]
fn making_a_pool_leaves_no_object_behind() {
    let mut sim = Sim::new();
    let pool = sim.with_size("pool", 0x1000).expect("a pool");
    assert_eq!(sim.log, ["create", "alloc", "free"]);
    assert!(sim.objects.is_empty());
    assert_eq!(pool.uuid_lo, sim.pools[&pool.inner].uuid_lo);
    assert!(!pool.rm_on_drop);
}

#[test]
fn making_a_pool_fails_with_its_calls() {
    let mut sim = Sim::new();
    sim.files.insert("pool".to_string());
    let error = sim.with_size("pool", 0x1000).expect_err("the file is there");
    assert_eq!(error.kind(), ErrorKind::ObjError);
    assert_eq!(sim.log, ["create"]);

    let error = sim.with_size("other", 0x10).expect_err("there is no room");
    assert_eq!(error.kind(), ErrorKind::ObjError);
    assert_eq!(sim.log, ["create", "create", "alloc"]);
}

#[test]
fn a_foreign_key_is_refused() {
    let mut sim = Sim::new();
    let ours = sim.with_size("ours", 0x1000).expect("a pool");
    let theirs = sim.with_size("theirs", 0x1000).expect("a pool");
    let key = u64::from(sim.run(theirs.put(b"theirs", 1)).expect("a key"));

    let error = sim.run(ours.remove(key.into())).expect_err("a foreign key");
    assert_eq!(error.kind(), ErrorKind::PmdkKeyNotBelongToPool);
    let error = sim.run(ours.obj_size_get(key.into())).expect_err("a foreign key");
    assert_eq!(error.kind(), ErrorKind::PmdkKeyNotBelongToPool);
    let error = sim.run(ours.key_to_oid(key.into())).err().expect("a foreign key");
    assert_eq!(error.kind(), ErrorKind::PmdkKeyNotBelongToPool);
    assert_eq!(sim.objects.len(), 1);

    let oid = sim.run(theirs.key_to_oid(key.into())).expect("its own key");
    assert!(sim.run(ObjRawKey::from(key).as_persistent()) == oid);
    assert_eq!(sim.run(theirs.obj_size_get(key.into())), Ok((6, ObjRawKey::from(key))));
    assert_eq!(sim.run(theirs.remove(key.into())), Ok(()));
    assert!(sim.objects.is_empty());
}

#[test]
fn an_update_keeps_the_other_bytes() {
    let mut sim = Sim::new();
    let pool = sim.with_size("pool", 0x1000).expect("a pool");
    let other = sim.run(pool.put(b"neighbour", 1)).expect("a key");
    let key = sim.run(pool.put(b"persistent", 2)).expect("a key");
    let key = sim.run(pool.update_by_rawkey(key, b"EVER", Some(3))).expect("the key");
    let (key, bytes) = sim.run(pool.get_by_rawkey(key, 10));
    assert_eq!(bytes, b"perEVERent");
    assert_eq!(sim.run(key.get_type()), 2);
    assert_eq!(sim.run(pool.get_by_rawkey(other, 9)).1, b"neighbour");
}

#[test]
fn a_put_without_room_copies_nothing() {
    let mut sim = Sim::new();
    let pool = sim.with_size("pool", 0x100).expect("a pool");
    sim.log.clear();
    let error = sim.run(pool.put(&[7u8; 0x200], 1)).expect_err("there is no room");
    assert_eq!(error.kind(), ErrorKind::ObjError);
    assert_eq!(sim.log, ["alloc"]);
}

#[test]
fn an_empty_pool_has_no_keys() {
    let mut sim = Sim::new();
    let pool = sim.with_size("pool", 0x1000).expect("a pool");
    assert!(all_keys(&mut sim, &pool).is_empty());
    let first = u64::from(sim.run(pool.put(b"a", 1)).expect("a key"));
    let second = u64::from(sim.run(pool.put(b"b", 1)).expect("a key"));
    let keys: Vec<u64> = all_keys(&mut sim, &pool).into_iter().map(u64::from).collect();
    assert_eq!(keys, [first, second]);
}

#[test]
fn preallocated_keys_come_in_order() {
    let mut sim = Sim::new();
    let pool = sim.with_size("pool", 0x10000).expect("a pool");
    let inner = pool.inner;
    let made = sim.run(pool.set_capacity(32, 5, 4)).expect("the objects");
    assert_eq!(made.pool.inner, inner);
    assert_eq!(made.deferred, 0);
    assert!(made.queue.is_full());
    let in_pool: Vec<u64> = all_keys(&mut sim, &made.pool).into_iter().map(u64::from).collect();
    let mut in_queue = Vec::new();
    while let Ok(key) = made.queue.pop() {
        assert_eq!(sim.run(key.get_type()), 5);
        in_queue.push(u64::from(key));
    }
    assert_eq!(in_queue, in_pool);
    assert_eq!(in_queue.len(), 4);
}

#[test]
fn more_than_everything_is_everything() {
    let mut sim = Sim::new();
    let pool = sim.with_size("pool", 0x10000).expect("a pool");
    let made = sim.run(pool.set_initial_capacity(32, 5, 4, 9)).expect("the objects");
    assert_eq!((made.queue.len(), made.deferred), (4, 0));

    let pool = sim.with_size("other", 0x10000).expect("a pool");
    let made = sim.run(pool.set_initial_capacity(32, 5, 4, 0)).expect("the objects");
    assert_eq!((made.queue.len(), made.queue.capacity(), made.deferred), (0, 4, 4));
}

#[test]
fn a_failed_preallocation_closes_the_pool() {
    let mut sim = Sim::new();
    let mut pool = sim.with_size("pool", 0x10000).expect("a pool");
    pool.set_rm_on_drop(true);
    sim.allocations_left = 2;
    sim.log.clear();
    let error = sim.run(pool.set_capacity(32, 5, 4)).err().expect("a failure");
    assert_eq!(error.kind(), ErrorKind::ObjError);
    assert_eq!(sim.log, ["alloc", "direct", "alloc", "direct", "alloc", "close", "rm"]);
    assert!(sim.pools.is_empty());
    assert!(sim.files.is_empty());

    sim.allocations_left = 1;
    sim.log.clear();
    assert!(sim.with_capacity("pool", 32, 4).is_err());
    assert_eq!(sim.log, ["create", "alloc", "free", "alloc", "close"]);
    assert!(sim.files.contains("pool"));
}

#[test]
fn a_failed_making_allocates_nothing() {
    let mut sim = Sim::new();
    sim.files.insert("pool".to_string());
    let error = sim.with_capacity("pool", 32, 4).err().expect("a failure");
    assert_eq!(error.kind(), ErrorKind::ObjError);
    assert_eq!(sim.log, ["create"]);
}

#[test]
fn background_allocation_stops_with_the_queue() {
    let mut sim = Sim::new();
    let pool = sim.with_size("pool", 0x10000).expect("a pool");
    let queue = Arc::new(ArrayQueue::new(8));
    let mut shared = Arc::clone(&queue);
    let background = sim.fill(pool.alloc_multi(32, 5, 8), &mut shared, 3 * 4);
    assert_eq!(queue.len(), 3);
    drop(queue);
    match sim.fill(background, &mut shared, usize::MAX) {
        Progress::Done(result) => assert_eq!(result, Ok(())),
        Progress::Call(..) => panic!("the allocation ends"),
    }
    assert_eq!(shared.len(), 3);
}

#[test]
fn background_allocation_fails_on_a_full_queue() {
    let mut sim = Sim::new();
    let pool = sim.with_size("pool", 0x10000).expect("a pool");
    let queue = Arc::new(ArrayQueue::new(2));
    let mut shared = Arc::clone(&queue);
    match sim.fill(pool.alloc_multi(32, 5, 8), &mut shared, usize::MAX) {
        Progress::Done(result) => {
            assert_eq!(result, Err(Error::from(ErrorKind::PmdkNoSpaceInQueueError)))
        }
        Progress::Call(..) => panic!("the allocation ends"),
    }
    assert_eq!(queue.len(), 2);
    // the object of the key that was refused is left
    assert_eq!(all_keys(&mut sim, &pool).len(), 3);

    sim.allocations_left = 0;
    match sim.fill(pool.alloc_multi(32, 5, 8), &mut shared, usize::MAX) {
        Progress::Done(result) => assert_eq!(result, Err(Error::obj_error())),
        Progress::Call(..) => panic!("the allocation ends"),
    }
    match sim.fill(pool.alloc_multi(32, 5, 0), &mut shared, usize::MAX) {
        Progress::Done(result) => assert_eq!(result, Ok(())),
        Progress::Call(..) => panic!("nothing is to be done"),
    }
}

#[test]
fn the_first_and_the_later_keys_fill_the_queue() {
    let mut sim = Sim::new();
    let pool = sim.with_size("pool", 0x10000).expect("a pool");
    let made = sim.run(pool.set_initial_capacity(32, 5, 7, 3)).expect("the objects");
    assert_eq!((made.queue.len(), made.queue.capacity(), made.deferred), (3, 7, 4));
    let queue = Arc::new(made.queue);
    let mut shared = Arc::clone(&queue);
    let background = made.pool.alloc_multi(32, 5, made.deferred);
    match sim.fill(background, &mut shared, usize::MAX) {
        Progress::Done(result) => assert_eq!(result, Ok(())),
        Progress::Call(..) => panic!("the allocation ends"),
    }
    assert!(queue.is_full());
    let in_pool: Vec<u64> = all_keys(&mut sim, &made.pool).into_iter().map(u64::from).collect();
    let mut in_queue = Vec::new();
    while let Ok(key) = queue.pop() {
        in_queue.push(u64::from(key));
    }
    assert_eq!(in_queue.len(), 7);
    assert_eq!(in_queue, in_pool);
}

#[test]
fn statistics_count_what_is_there() {
    let mut sim = Sim::new();
    let pool = sim.with_size("pool", 0x1000).expect("a pool");
    let query = Query::Named(CText::new("stats.enabled".to_string()).expect("no NUL"));
    let (result, _) = sim.run(pool.ctl_set(query, CtlValue::Switch(1)));
    assert_eq!(result, Ok(()));
    let arena = sim.run(pool.thread_arena_init()).expect("an arena");
    assert_eq!(sim.run(pool.allocated_size_get()), Ok(0));
    assert_eq!(sim.run(pool.thread_allocated_size_get(arena)), Ok(0));

    let first = sim.run(pool.put(b"abc", 1)).expect("a key");
    sim.run(pool.put(b"defgh", 1)).expect("a key");
    assert_eq!(sim.run(pool.allocated_size_get()), Ok(8));
    assert_eq!(sim.run(pool.thread_allocated_size_get(arena)), Ok(8));
    assert_eq!(sim.run(pool.remove(first)), Ok(()));
    assert_eq!(sim.run(pool.allocated_size_get()), Ok(5));
}

#[test]
fn statistics_are_refused_while_they_are_off() {
    let mut sim = Sim::new();
    let pool = sim.with_size("pool", 0x1000).expect("a pool");
    assert_eq!(sim.run(pool.allocated_size_get()), Err(Error::obj_error()));
    let query = Query::Named(CText::new("no.such.thing".to_string()).expect("no NUL"));
    let (result, _) = sim.run(pool.ctl_get(query, CtlValue::Bytes(0)));
    assert_eq!(result, Err(Error::obj_error()));
    let query = Query::Named(CText::new("no.such.thing".to_string()).expect("no NUL"));
    let (result, _) = sim.run(pool.ctl_exec(query, CtlValue::Arena(3)));
    assert_eq!(result, Err(Error::obj_error()));
}

#[test]
fn the_pool_is_as_large_as_was_asked_for() {
    let mut sim = Sim::new();
    let pool = sim.pool("pool", 0x1000, 0x10).expect("a pool");
    assert_eq!(sim.pools[&pool.inner].room, pool_size(0x10, 0x1000));
}
