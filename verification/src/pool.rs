//! Pools: how one is made, and how it goes.

use vstd::prelude::*;

use crate::call::{ready, Call, Operation, Progress, Reply};
use crate::error::{Error, ErrorKind};
use crate::oid::PMEMoid;
use crate::text::{is_c_text, CText};

verus! {

/// What libpmemobj keeps beside each object.
pub const OBJ_HEADER_SIZE: usize = 64;

/// How many times the objects and their headers have to fit into a pool.
pub const OBJ_ALLOC_FACTOR: usize = 3;

/// The access rights of a new pool file: everybody may read and write it.
pub const POOL_MODE: u32 = 0o666;

/// The size of the object that a new pool is probed with.
pub const PROBE_SIZE: usize = 1;

/// The type number of the object that a new pool is probed with.
pub const PROBE_TYPE: u64 = 10_000;

/// The size of a pool for `capacity` objects of `obj_size` bytes.
pub open spec fn spec_pool_size(capacity: int, obj_size: int) -> int {
    capacity * (obj_size + OBJ_HEADER_SIZE) * OBJ_ALLOC_FACTOR
}

/// The size of a pool for `capacity` objects of `obj_size` bytes.
pub fn pool_size(capacity: usize, obj_size: usize) -> (size: usize)
    requires
        obj_size + OBJ_HEADER_SIZE <= usize::MAX,
        spec_pool_size(capacity as int, obj_size as int) <= usize::MAX,
    ensures
        size == spec_pool_size(capacity as int, obj_size as int),
{
    assert(0 <= capacity * (obj_size + OBJ_HEADER_SIZE)) by (nonlinear_arith);
    (capacity * (obj_size + OBJ_HEADER_SIZE)) * OBJ_ALLOC_FACTOR
}

/// An open pool.
#[derive(Debug)]
pub struct ObjPool {
    /// The address of the structure that libpmemobj keeps for the pool.
    pub inner: u64,
    /// The part of the pool's identity that the identifiers of its objects carry.
    pub uuid_lo: u64,
    /// The path of the pool file.
    pub inner_path: CText,
    /// Whether the pool file goes when the pool is dropped.
    pub rm_on_drop: bool,
}

/// Whether `path` can name a pool file: it is text, and holds no NUL character.
pub open spec fn is_pool_path(path: Option<Seq<char>>) -> bool {
    path matches Some(text) && is_c_text(text)
}

/// Whether `layout` can be the layout name of a pool: if there is one, it holds
/// no NUL character.
pub open spec fn is_layout(layout: Option<Seq<char>>) -> bool {
    layout matches Some(text) ==> is_c_text(text)
}

/// The characters of a text that may be missing.
pub open spec fn chars(text: Option<String>) -> Option<Seq<char>> {
    match text {
        Some(text) => Some(text@),
        None => None,
    }
}

/// Whether `call` creates a pool file of `size` bytes at `path`, with the layout
/// name `layout`.
pub open spec fn creates(
    call: Call,
    path: Seq<char>,
    layout: Option<Seq<char>>,
    size: usize,
) -> bool {
    &&& call matches Call::Create { path: p, layout: l, size: s, mode }
    &&& p@ == path
    &&& s == size
    &&& mode == POOL_MODE
    &&& match l {
        Some(l) => layout == Some(l@),
        None => layout is None,
    }
}

/// Whether `start` is where the making of a pool starts: a path or a layout name
/// that C cannot take ends it at once, and otherwise the pool file is created.
pub open spec fn starts_opening<'a>(
    path: Option<Seq<char>>,
    layout: Option<Seq<char>>,
    size: usize,
    start: Progress<'a, OpenOp, Result<ObjPool, Error>>,
) -> bool {
    if !is_pool_path(path) {
        start == Progress::<OpenOp, Result<ObjPool, Error>>::Done(
            Err(Error { kind: ErrorKind::PathError }),
        )
    } else if !is_layout(layout) {
        start == Progress::<OpenOp, Result<ObjPool, Error>>::Done(
            Err(Error { kind: ErrorKind::LayoutError }),
        )
    } else {
        &&& start matches Progress::Call(call, OpenOp::Creating { path: kept })
        &&& kept@ == path->0
        &&& creates(call, path->0, layout, size)
    }
}

/// The making of a pool.
pub enum OpenOp {
    /// The pool file is being created.
    Creating { path: CText },
    /// An object is being allocated, for the pool's identity that it carries.
    Probing { path: CText, inner: u64 },
    /// That object is being freed.
    Releasing { path: CText, inner: u64, uuid_lo: u64 },
}

impl OpenOp {
    /// What `reply` leads to.
    pub open spec fn after<'a>(self, reply: Reply) -> Progress<
        'a,
        OpenOp,
        Result<ObjPool, Error>,
    > {
        match self {
            OpenOp::Creating { path } => if reply->Pool_0 == 0 {
                Progress::Done(Err(Error::spec_obj_error()))
            } else {
                Progress::Call(
                    Call::Alloc { pool: reply->Pool_0, size: PROBE_SIZE, type_num: PROBE_TYPE },
                    OpenOp::Probing { path, inner: reply->Pool_0 },
                )
            },
            OpenOp::Probing { path, inner } => if reply->Allocated_status == 0 {
                Progress::Call(
                    Call::Free { oid: reply->oid },
                    OpenOp::Releasing { path, inner, uuid_lo: reply->oid.pool_uuid_lo },
                )
            } else {
                Progress::Done(Err(Error::spec_obj_error()))
            },
            OpenOp::Releasing { path, inner, uuid_lo } => Progress::Done(
                Ok(ObjPool { inner, uuid_lo, inner_path: path, rm_on_drop: false }),
            ),
        }
    }
}

impl<'a> Operation<'a> for OpenOp {
    type Output = Result<ObjPool, Error>;

    open spec fn awaits(self, reply: Reply) -> bool {
        match self {
            OpenOp::Creating { .. } => reply is Pool,
            OpenOp::Probing { .. } => reply is Allocated,
            OpenOp::Releasing { .. } => reply is Returned,
        }
    }

    open spec fn leads_to(self, reply: Reply, next: Progress<'a, Self, Self::Output>) -> bool {
        next == self.after(reply)
    }

    fn resume(self, reply: Reply) -> (next: Progress<'a, Self, Self::Output>) {
        match self {
            OpenOp::Creating { path } => {
                let inner: u64 = reply.pool();
                if inner == 0 {
                    Progress::Done(Err(Error::obj_error()))
                } else {
                    Progress::Call(
                        Call::Alloc { pool: inner, size: PROBE_SIZE, type_num: PROBE_TYPE },
                        OpenOp::Probing { path, inner },
                    )
                }
            },
            OpenOp::Probing { path, inner } => {
                let (status, oid): (i32, PMEMoid) = reply.allocated();
                if status == 0 {
                    let uuid_lo: u64 = oid.pool_uuid_lo();
                    Progress::Call(Call::Free { oid }, OpenOp::Releasing { path, inner, uuid_lo })
                } else {
                    Progress::Done(Err(Error::obj_error()))
                }
            },
            OpenOp::Releasing { path, inner, uuid_lo } => Progress::Done(
                Ok(ObjPool { inner, uuid_lo, inner_path: path, rm_on_drop: false }),
            ),
        }
    }
}

/// The end of a pool.
pub enum CloseOp {
    /// The pool is being closed; if there is a path, the pool file goes then.
    Closing { rm: Option<CText> },
    /// The pool file is being removed.
    Removing,
}

impl CloseOp {
    /// What `reply` leads to.
    pub open spec fn after<'a>(self, reply: Reply) -> Progress<'a, CloseOp, ()> {
        match self {
            CloseOp::Closing { rm: Some(path) } => Progress::Call(
                Call::Remove { path, flags: 0 },
                CloseOp::Removing,
            ),
            CloseOp::Closing { rm: None } => Progress::Done(()),
            CloseOp::Removing => Progress::Done(()),
        }
    }
}

impl<'a> Operation<'a> for CloseOp {
    type Output = ();

    open spec fn awaits(self, reply: Reply) -> bool {
        reply is Returned
    }

    open spec fn leads_to(self, reply: Reply, next: Progress<'a, Self, Self::Output>) -> bool {
        next == self.after(reply)
    }

    fn resume(self, reply: Reply) -> (next: Progress<'a, Self, Self::Output>) {
        match self {
            CloseOp::Closing { rm: Some(path) } => Progress::Call(
                Call::Remove { path, flags: 0 },
                CloseOp::Removing,
            ),
            CloseOp::Closing { rm: None } => Progress::Done(()),
            CloseOp::Removing => Progress::Done(()),
        }
    }
}

impl ObjPool {
    /// The call that creates a pool file of `size` bytes at `path`.
    fn with_layout<'a>(path: CText, layout: Option<String>, size: usize) -> (result: Result<
        Call<'a>,
        Error,
    >)
        ensures
            match result {
                Ok(call) => is_layout(chars(layout)) && creates(call, path@, chars(layout), size),
                Err(error) => !is_layout(chars(layout)) && error == (Error {
                    kind: ErrorKind::LayoutError,
                }),
            },
    {
        let layout: Option<CText> = match layout {
            Some(text) => match CText::new(text) {
                Some(text) => Some(text),
                None => return Err(Error { kind: ErrorKind::LayoutError }),
            },
            None => None,
        };
        Ok(Call::Create { path, layout, size, mode: POOL_MODE })
    }

    /// Makes a pool of `size` bytes in a new file at `path`; a path that is no
    /// text is `None`.
    pub fn with_size<'a>(path: Option<String>, layout: Option<String>, size: usize) -> (start:
        Progress<'a, OpenOp, Result<ObjPool, Error>>)
        ensures
            starts_opening(chars(path), chars(layout), size, start),
            ready(start),
    {
        let path: CText = match path {
            Some(text) => match CText::new(text) {
                Some(text) => text,
                None => return Progress::Done(Err(Error { kind: ErrorKind::PathError })),
            },
            None => return Progress::Done(Err(Error { kind: ErrorKind::PathError })),
        };
        let inner_path: CText = path.clone();
        match ObjPool::with_layout(path, layout, size) {
            Ok(call) => Progress::Call(call, OpenOp::Creating { path: inner_path }),
            Err(error) => Progress::Done(Err(error)),
        }
    }

    /// Makes a pool in a new file at `path` that is large enough for `capacity`
    /// objects of `obj_size` bytes.
    pub fn new<'a>(
        path: Option<String>,
        layout: Option<String>,
        obj_size: usize,
        capacity: usize,
    ) -> (start: Progress<'a, OpenOp, Result<ObjPool, Error>>)
        requires
            obj_size + OBJ_HEADER_SIZE <= usize::MAX,
            spec_pool_size(capacity as int, obj_size as int) <= usize::MAX,
        ensures
            starts_opening(
                chars(path),
                chars(layout),
                spec_pool_size(capacity as int, obj_size as int) as usize,
                start,
            ),
            ready(start),
    {
        let size: usize = pool_size(capacity, obj_size);
        ObjPool::with_size(path, layout, size)
    }

    /// Says whether the pool file goes when the pool is dropped.
    pub fn set_rm_on_drop(&mut self, rm_pool: bool)
        ensures
            *final(self) == (ObjPool { rm_on_drop: rm_pool, ..*old(self) }),
    {
        self.rm_on_drop = rm_pool;
    }

    /// Where the end of the pool starts.
    pub open spec fn spec_drop<'a>(self) -> Progress<'a, CloseOp, ()> {
        Progress::Call(
            Call::Close { pool: self.inner },
            CloseOp::Closing {
                rm: if self.rm_on_drop {
                    Some(self.inner_path)
                } else {
                    None
                },
            },
        )
    }

    /// Closes the pool, and then removes its file if that was asked for.
    pub fn drop<'a>(self) -> (start: Progress<'a, CloseOp, ()>)
        ensures
            start == self.spec_drop(),
            ready(start),
    {
        let rm: Option<CText> = if self.rm_on_drop {
            Some(self.inner_path)
        } else {
            None
        };
        Progress::Call(Call::Close { pool: self.inner }, CloseOp::Closing { rm })
    }
}

} // verus!
