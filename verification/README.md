# pmdk

Object pools in persistent memory, on top of libpmemobj.

A pool is a file that is mapped into memory. Objects are allocated in it, written, read,
measured, walked over and freed by keys, and a number of them can be allocated in advance
and handed out through a bounded queue.

## How it is built

Every operation on a pool is a value that makes its calls one at a time. `ObjPool::put`
and the others return a `Progress`: either the operation is done, or it waits for the
reply to one `Call`. Whoever runs it performs the call and hands the `Reply` to `resume`.
The operations decide everything and call nothing, so all of it is verified.

- `src/call.rs`: calls, replies, `Progress`, the trait `Operation`, and what a whole run is
- `src/pool.rs`: how a pool is made and how it goes
- `src/object.rs`: objects: allocate, update, put, read, measure, remove, translate
- `src/iter.rs`: the walk over the objects of a pool
- `src/control.rs`: queries to the allocator
- `src/capacity.rs`, `src/queue.rs`: objects that are allocated in advance, and their queue
- `src/key.rs`, `src/oid.rs`, `src/text.rs`, `src/numeral.rs`, `src/error.rs`: the values
- `src/heap.rs`: what calls into libpmemobj do to the objects of open pools, and what the
  replies say of them
- `src/laws.rs`, `src/capacity_laws.rs`, `src/statistics_laws.rs`: what holds of whole runs,
  such as that a read gives back what a put has written
- `app/`: the functions of libpmemobj, and the loop that performs the calls
- `tests/`: runs against a stand-in for libpmemobj that keeps everything in ordinary memory

## What is taken on trust

Two functions of `crossbeam_queue::ArrayQueue`, `new` and `push`, and `u64::to_ne_bytes`.
The contracts are stated where the calls are wrapped. The laws that speak of a heap
suppose that the replies are those that `src/heap.rs` describes; nothing else does.
