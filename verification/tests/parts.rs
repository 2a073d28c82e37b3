//! The parts of which operations are made.

use pmdk::call::{Call, CtlValue, Operation, Progress, Query, Reply};
use pmdk::control::status_as_result;
use pmdk::key::byte_vec;
use pmdk::pool::pool_size;
use pmdk::{pmemoid, CText, Error, ErrorKind, ObjPool, ObjPoolIter, ObjRawKey, PMEMoid};

fn a_pool() -> ObjPool {
    ObjPool {
        inner: 0x7000,
        uuid_lo: 11,
        inner_path: CText::new("/mnt/pmem/pool".to_string()).expect("no NUL"),
        rm_on_drop: false,
    }
}

#[test]
fn identifiers() {
    let oid: PMEMoid = pmemoid::new(7, 0x20);
    assert_eq!(oid.pool_uuid_lo(), 7);
    assert_eq!(oid.off(), 0x20);
    assert!(!oid.is_null());
    assert!(pmemoid::default().is_null());
    assert!(!pmemoid::new(0, 1).is_null());
    assert!(!pmemoid::new(1, 0).is_null());
}

#[test]
fn identifiers_for_a_reader() {
    assert_eq!(pmemoid::new(1907, 0xbeef0).debug_string(), "pmemoid pool: 1907, off: beef0");
    assert_eq!(pmemoid::default().debug_string(), "pmemoid pool: 0, off: 0");
    let largest = pmemoid::new(u64::MAX, u64::MAX);
    let text = format!("pmemoid pool: {}, off: {:x}", u64::MAX, u64::MAX);
    assert_eq!(largest.debug_string(), text);
}

#[test]
fn query_names() {
    assert_eq!(Query::ArenaCreate.name().as_str(), "heap.arena.create");
    assert_eq!(Query::ThreadArenaId.name().as_str(), "heap.thread.arena_id");
    assert_eq!(Query::HeapCurrAllocated.name().as_str(), "stats.heap.curr_allocated");
    assert_eq!(Query::ArenaSize(0).name().as_str(), "heap.arena.0.size");
    assert_eq!(Query::ArenaSize(1209).name().as_str(), "heap.arena.1209.size");
    let named = CText::new("stats.enabled".to_string()).expect("no NUL");
    assert_eq!(Query::Named(named).name().as_str(), "stats.enabled");
}

#[test]
fn text_for_c() {
    assert!(CText::new("a\0b".to_string()).is_none());
    assert!(CText::new("\0".to_string()).is_none());
    assert_eq!(CText::new(String::new()).expect("no NUL").as_str(), "");
    let accents = "d\u{e9}p\u{f4}t";
    assert_eq!(CText::new(accents.to_string()).expect("no NUL").as_str(), accents);
}

#[test]
fn keys_are_numbers() {
    let key = ObjRawKey::from(0x1122_3344_5566_7788u64);
    assert_eq!(key.as_byte_vec(), 0x1122_3344_5566_7788u64.to_ne_bytes().to_vec());
    assert_eq!(byte_vec([1, 2, 3, 4, 5, 6, 7, 8]), [1, 2, 3, 4, 5, 6, 7, 8]);
    assert_eq!(u64::from(key), 0x1122_3344_5566_7788);
}

#[test]
fn pool_sizes() {
    assert_eq!(pool_size(0x1000, 0x1000), 51_118_080);
    assert_eq!(pool_size(1, 0), 192);
    assert_eq!(pool_size(0, 0x1000), 0);
}

#[test]
fn statuses() {
    assert_eq!(status_as_result(0), Ok(()));
    assert_eq!(status_as_result(-1), Err(Error::obj_error()));
    assert_eq!(status_as_result(1), Err(ErrorKind::ObjError.into()));
}

#[test]
fn bad_paths_and_layouts() {
    let kind = |path: Option<&str>, layout: Option<&str>| {
        match ObjPool::with_size(path.map(String::from), layout.map(String::from), 1) {
            Progress::Done(Err(error)) => error.kind(),
            _ => panic!("a refusal"),
        }
    };
    assert_eq!(kind(None, None), ErrorKind::PathError);
    assert_eq!(kind(Some("a\0b"), None), ErrorKind::PathError);
    assert_eq!(kind(Some("a\0b"), Some("c\0d")), ErrorKind::PathError);
    assert_eq!(kind(Some("ab"), Some("c\0d")), ErrorKind::LayoutError);

    match ObjPool::with_capacity(None, None, 16, 1, 1) {
        Progress::Done(Err(error)) => assert_eq!(error.kind(), ErrorKind::PathError),
        _ => panic!("a refusal"),
    }
}

#[test]
fn the_call_that_creates_a_pool() {
    let start = ObjPool::new(Some("pool".to_string()), Some("layout".to_string()), 16, 10);
    match start {
        Progress::Call(Call::Create { path, layout, size, mode }, _) => {
            assert_eq!(path.as_str(), "pool");
            assert_eq!(layout.expect("a layout").as_str(), "layout");
            assert_eq!(size, 2400);
            assert_eq!(mode, 0o666);
        }
        _ => panic!("a call"),
    }
    match ObjPool::with_size(Some("pool".to_string()), None, 77) {
        Progress::Call(Call::Create { layout, size, .. }, _) => {
            assert!(layout.is_none());
            assert_eq!(size, 77);
        }
        _ => panic!("a call"),
    }
}

#[test]
fn an_offset_that_no_pointer_has() {
    let too_far = isize::MAX as usize + 1;
    match a_pool().update_by_rawkey(ObjRawKey::from(64), b"data", Some(too_far)) {
        Progress::Done(result) => assert_eq!(result, Err(ErrorKind::GenericError.into())),
        _ => panic!("a refusal"),
    }
    match a_pool().update_by_rawkey(ObjRawKey::from(64), b"data", Some(isize::MAX as usize)) {
        Progress::Call(Call::Copy { pool, dest, data }, _) => {
            assert_eq!(pool, 0x7000);
            assert_eq!(dest, 64 + isize::MAX as u64);
            assert_eq!(data, b"data");
        }
        _ => panic!("a call"),
    }
}

#[test]
fn an_arena_that_cannot_be_set() {
    let op = match a_pool().thread_arena_init() {
        Progress::Call(Call::CtlExec { query: Query::ArenaCreate, value, .. }, op) => {
            assert_eq!(value, CtlValue::Arena(0));
            op
        }
        _ => panic!("a call"),
    };
    let op = match op.resume(Reply::Ctl { status: 0, value: CtlValue::Arena(9) }) {
        Progress::Call(Call::CtlSet { query: Query::ThreadArenaId, value, .. }, op) => {
            assert_eq!(value, CtlValue::Arena(9));
            op
        }
        _ => panic!("a call"),
    };
    match op.resume(Reply::Ctl { status: 22, value: CtlValue::Arena(9) }) {
        Progress::Done(result) => assert_eq!(result, Err(Error::obj_error())),
        _ => panic!("the end"),
    }

    let op = match a_pool().thread_arena_init() {
        Progress::Call(_, op) => op,
        _ => panic!("a call"),
    };
    match op.resume(Reply::Ctl { status: 22, value: CtlValue::Arena(0) }) {
        Progress::Done(result) => assert_eq!(result, Err(Error::obj_error())),
        _ => panic!("the end"),
    }
}

#[test]
fn a_walk_ends_at_the_null_identifier() {
    match ObjPoolIter::from(pmemoid::default()).next() {
        Progress::Done((key, rest)) => {
            assert_eq!(key, None);
            assert!(rest.oid.is_null());
        }
        _ => panic!("the end"),
    }
    match ObjPoolIter::from(pmemoid::new(3, 64)).next() {
        Progress::Call(Call::Next { oid }, _) => assert!(oid == pmemoid::new(3, 64)),
        _ => panic!("a call"),
    }
}
