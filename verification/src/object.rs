//! Operations on the objects of a pool.

use vstd::prelude::*;

use crate::call::{ready, Call, Operation, Progress, Reply};
use crate::error::{Error, ErrorKind};
use crate::key::ObjRawKey;
use crate::oid::PMEMoid;
use crate::pool::ObjPool;

verus! {

/// The allocation of an object.
pub enum AllocateOp {
    /// The object is being allocated.
    Allocating,
    /// The address of the new object is being asked for.
    Locating,
}

impl AllocateOp {
    /// What `reply` leads to.
    pub open spec fn after<'a>(self, reply: Reply) -> Progress<
        'a,
        AllocateOp,
        Result<ObjRawKey, Error>,
    > {
        match self {
            AllocateOp::Allocating => if reply->Allocated_status == 0 {
                Progress::Call(Call::Direct { oid: reply->oid }, AllocateOp::Locating)
            } else {
                Progress::Done(Err(Error::spec_obj_error()))
            },
            AllocateOp::Locating => Progress::Done(Ok(ObjRawKey { addr: reply->Address_0 })),
        }
    }
}

impl<'a> Operation<'a> for AllocateOp {
    type Output = Result<ObjRawKey, Error>;

    open spec fn awaits(self, reply: Reply) -> bool {
        match self {
            AllocateOp::Allocating => reply is Allocated,
            AllocateOp::Locating => reply is Address,
        }
    }

    open spec fn leads_to(self, reply: Reply, next: Progress<'a, Self, Self::Output>) -> bool {
        next == self.after(reply)
    }

    fn resume(self, reply: Reply) -> (next: Progress<'a, Self, Self::Output>) {
        match self {
            AllocateOp::Allocating => {
                let (status, oid): (i32, PMEMoid) = reply.allocated();
                if status == 0 {
                    Progress::Call(Call::Direct { oid }, AllocateOp::Locating)
                } else {
                    Progress::Done(Err(Error::obj_error()))
                }
            },
            AllocateOp::Locating => Progress::Done(Ok(ObjRawKey { addr: reply.address() })),
        }
    }
}

/// The update of an object.
pub enum UpdateOp {
    /// The data is being copied into the object of this key.
    Copying { key: ObjRawKey },
}

impl UpdateOp {
    /// What `reply` leads to.
    pub open spec fn after<'a>(self, reply: Reply) -> Progress<
        'a,
        UpdateOp,
        Result<ObjRawKey, Error>,
    > {
        match self {
            UpdateOp::Copying { key } => Progress::Done(Ok(key)),
        }
    }
}

impl<'a> Operation<'a> for UpdateOp {
    type Output = Result<ObjRawKey, Error>;

    open spec fn awaits(self, reply: Reply) -> bool {
        reply is Returned
    }

    open spec fn leads_to(self, reply: Reply, next: Progress<'a, Self, Self::Output>) -> bool {
        next == self.after(reply)
    }

    fn resume(self, reply: Reply) -> (next: Progress<'a, Self, Self::Output>) {
        match self {
            UpdateOp::Copying { key } => Progress::Done(Ok(key)),
        }
    }
}

/// The allocation of an object together with its first update.
#[allow(inconsistent_fields)]
pub enum PutOp<'a> {
    /// The object is being allocated in `pool`.
    Allocating { op: AllocateOp, pool: u64, data: &'a [u8] },
    /// The data is being copied into the new object.
    Updating { op: UpdateOp },
}

impl<'a> PutOp<'a> {
    /// An update, as the second part of this operation.
    pub open spec fn updating(
        update: Progress<'a, UpdateOp, Result<ObjRawKey, Error>>,
    ) -> Progress<'a, PutOp<'a>, Result<ObjRawKey, Error>> {
        match update {
            Progress::Call(call, op) => Progress::Call(call, PutOp::Updating { op }),
            Progress::Done(result) => Progress::Done(result),
        }
    }

    /// What `reply` leads to.
    pub open spec fn after(self, reply: Reply) -> Progress<
        'a,
        PutOp<'a>,
        Result<ObjRawKey, Error>,
    > {
        match self {
            PutOp::Allocating { op, pool, data } => match op.after(reply) {
                Progress::Call(call, op) => Progress::Call(
                    call,
                    PutOp::Allocating { op, pool, data },
                ),
                Progress::Done(Ok(key)) => PutOp::updating(starts_update(pool, key, data, None)),
                Progress::Done(Err(error)) => Progress::Done(Err(error)),
            },
            PutOp::Updating { op } => PutOp::updating(op.after(reply)),
        }
    }
}

impl<'a> Operation<'a> for PutOp<'a> {
    type Output = Result<ObjRawKey, Error>;

    open spec fn awaits(self, reply: Reply) -> bool {
        match self {
            PutOp::Allocating { op, .. } => op.awaits(reply),
            PutOp::Updating { op } => op.awaits(reply),
        }
    }

    open spec fn leads_to(self, reply: Reply, next: Progress<'a, Self, Self::Output>) -> bool {
        next == self.after(reply)
    }

    fn resume(self, reply: Reply) -> (next: Progress<'a, Self, Self::Output>) {
        match self {
            PutOp::Allocating { op, pool, data } => match op.resume(reply) {
                Progress::Call(call, op) => Progress::Call(
                    call,
                    PutOp::Allocating { op, pool, data },
                ),
                Progress::Done(Ok(key)) => match start_update(pool, key, data, None) {
                    Progress::Call(call, op) => Progress::Call(call, PutOp::Updating { op }),
                    Progress::Done(result) => Progress::Done(result),
                },
                Progress::Done(Err(error)) => Progress::Done(Err(error)),
            },
            PutOp::Updating { op } => match op.resume(reply) {
                Progress::Call(call, op) => Progress::Call(call, PutOp::Updating { op }),
                Progress::Done(result) => Progress::Done(result),
            },
        }
    }
}

/// The offset of an update; a missing one is zero.
pub open spec fn update_offset(offset: Option<usize>) -> usize {
    match offset {
        Some(offset) => offset,
        None => 0,
    }
}

/// Where the update of an object starts: an offset that is too large for a
/// pointer is refused, and otherwise the data is copied.
pub open spec fn starts_update<'a>(
    pool: u64,
    key: ObjRawKey,
    data: &'a [u8],
    offset: Option<usize>,
) -> Progress<'a, UpdateOp, Result<ObjRawKey, Error>> {
    if update_offset(offset) > isize::MAX {
        Progress::Done(Err(Error { kind: ErrorKind::GenericError }))
    } else {
        Progress::Call(
            Call::Copy { pool, dest: (key.addr + update_offset(offset)) as u64, data },
            UpdateOp::Copying { key },
        )
    }
}

fn start_update<'a>(pool: u64, key: ObjRawKey, data: &'a [u8], offset: Option<usize>) -> (start:
    Progress<'a, UpdateOp, Result<ObjRawKey, Error>>)
    requires
        update_offset(offset) <= isize::MAX ==> key.addr + update_offset(offset) <= u64::MAX,
    ensures
        start == starts_update(pool, key, data, offset),
        ready(start),
{
    let offset: usize = offset.unwrap_or(0);
    if offset > isize::MAX as usize {
        Progress::Done(Err(Error { kind: ErrorKind::GenericError }))
    } else {
        let dest: u64 = key.addr + offset as u64;
        Progress::Call(Call::Copy { pool, dest, data }, UpdateOp::Copying { key })
    }
}

/// The way from a key to the identifier of its object.
pub enum KeyToOidOp {
    /// The identifier is being asked for; it has to carry `uuid_lo`.
    Translating { uuid_lo: u64 },
}

impl KeyToOidOp {
    /// What `reply` leads to.
    pub open spec fn after<'a>(self, reply: Reply) -> Progress<
        'a,
        KeyToOidOp,
        Result<PMEMoid, Error>,
    > {
        match self {
            KeyToOidOp::Translating { uuid_lo } => if reply->Oid_0.pool_uuid_lo == uuid_lo {
                Progress::Done(Ok(reply->Oid_0))
            } else {
                Progress::Done(Err(Error { kind: ErrorKind::PmdkKeyNotBelongToPool }))
            },
        }
    }
}

impl<'a> Operation<'a> for KeyToOidOp {
    type Output = Result<PMEMoid, Error>;

    open spec fn awaits(self, reply: Reply) -> bool {
        reply is Oid
    }

    open spec fn leads_to(self, reply: Reply, next: Progress<'a, Self, Self::Output>) -> bool {
        next == self.after(reply)
    }

    fn resume(self, reply: Reply) -> (next: Progress<'a, Self, Self::Output>) {
        match self {
            KeyToOidOp::Translating { uuid_lo } => {
                let oid: PMEMoid = reply.oid();
                if uuid_lo == oid.pool_uuid_lo() {
                    Progress::Done(Ok(oid))
                } else {
                    Progress::Done(Err(Error { kind: ErrorKind::PmdkKeyNotBelongToPool }))
                }
            },
        }
    }
}

/// The measuring of an object.
pub enum ObjSizeOp {
    /// The identifier of the object is being asked for.
    Translating { op: KeyToOidOp },
    /// The size of the object is being asked for.
    Measuring { oid: PMEMoid },
    /// The address of the object is being asked for.
    Locating { size: usize },
}

impl ObjSizeOp {
    /// What `reply` leads to.
    pub open spec fn after<'a>(self, reply: Reply) -> Progress<
        'a,
        ObjSizeOp,
        Result<(usize, ObjRawKey), Error>,
    > {
        match self {
            ObjSizeOp::Translating { op } => match op.after(reply) {
                Progress::Call(call, op) => Progress::Call(call, ObjSizeOp::Translating { op }),
                Progress::Done(Ok(oid)) => Progress::Call(
                    Call::UsableSize { oid },
                    ObjSizeOp::Measuring { oid },
                ),
                Progress::Done(Err(error)) => Progress::Done(Err(error)),
            },
            ObjSizeOp::Measuring { oid } => Progress::Call(
                Call::Direct { oid },
                ObjSizeOp::Locating { size: reply->Size_0 },
            ),
            ObjSizeOp::Locating { size } => Progress::Done(
                Ok((size, ObjRawKey { addr: reply->Address_0 })),
            ),
        }
    }
}

impl<'a> Operation<'a> for ObjSizeOp {
    type Output = Result<(usize, ObjRawKey), Error>;

    open spec fn awaits(self, reply: Reply) -> bool {
        match self {
            ObjSizeOp::Translating { op } => op.awaits(reply),
            ObjSizeOp::Measuring { .. } => reply is Size,
            ObjSizeOp::Locating { .. } => reply is Address,
        }
    }

    open spec fn leads_to(self, reply: Reply, next: Progress<'a, Self, Self::Output>) -> bool {
        next == self.after(reply)
    }

    fn resume(self, reply: Reply) -> (next: Progress<'a, Self, Self::Output>) {
        match self {
            ObjSizeOp::Translating { op } => match op.resume(reply) {
                Progress::Call(call, op) => Progress::Call(call, ObjSizeOp::Translating { op }),
                Progress::Done(Ok(oid)) => Progress::Call(
                    Call::UsableSize { oid },
                    ObjSizeOp::Measuring { oid },
                ),
                Progress::Done(Err(error)) => Progress::Done(Err(error)),
            },
            ObjSizeOp::Measuring { oid } => {
                let size: usize = reply.size();
                Progress::Call(Call::Direct { oid }, ObjSizeOp::Locating { size })
            },
            ObjSizeOp::Locating { size } => Progress::Done(
                Ok((size, ObjRawKey { addr: reply.address() })),
            ),
        }
    }
}

/// The removal of an object.
pub enum RemoveOp {
    /// The identifier of the object is being asked for.
    Translating { op: KeyToOidOp },
    /// The object is being freed.
    Freeing,
}

impl RemoveOp {
    /// What `reply` leads to.
    pub open spec fn after<'a>(self, reply: Reply) -> Progress<'a, RemoveOp, Result<(), Error>> {
        match self {
            RemoveOp::Translating { op } => match op.after(reply) {
                Progress::Call(call, op) => Progress::Call(call, RemoveOp::Translating { op }),
                Progress::Done(Ok(oid)) => Progress::Call(Call::Free { oid }, RemoveOp::Freeing),
                Progress::Done(Err(error)) => Progress::Done(Err(error)),
            },
            RemoveOp::Freeing => Progress::Done(Ok(())),
        }
    }
}

impl<'a> Operation<'a> for RemoveOp {
    type Output = Result<(), Error>;

    open spec fn awaits(self, reply: Reply) -> bool {
        match self {
            RemoveOp::Translating { op } => op.awaits(reply),
            RemoveOp::Freeing => reply is Returned,
        }
    }

    open spec fn leads_to(self, reply: Reply, next: Progress<'a, Self, Self::Output>) -> bool {
        next == self.after(reply)
    }

    fn resume(self, reply: Reply) -> (next: Progress<'a, Self, Self::Output>) {
        match self {
            RemoveOp::Translating { op } => match op.resume(reply) {
                Progress::Call(call, op) => Progress::Call(call, RemoveOp::Translating { op }),
                Progress::Done(Ok(oid)) => Progress::Call(Call::Free { oid }, RemoveOp::Freeing),
                Progress::Done(Err(error)) => Progress::Done(Err(error)),
            },
            RemoveOp::Freeing => Progress::Done(Ok(())),
        }
    }
}

/// The reading of an object.
pub enum ReadOp {
    /// The bytes of the object of this key are being read.
    Reading { key: ObjRawKey },
}

impl ReadOp {
    /// What `reply` leads to.
    pub open spec fn after<'a>(self, reply: Reply) -> Progress<'a, ReadOp, (ObjRawKey, Vec<u8>)> {
        match self {
            ReadOp::Reading { key } => Progress::Done((key, reply->Bytes_0)),
        }
    }
}

impl<'a> Operation<'a> for ReadOp {
    type Output = (ObjRawKey, Vec<u8>);

    open spec fn awaits(self, reply: Reply) -> bool {
        reply is Bytes
    }

    open spec fn leads_to(self, reply: Reply, next: Progress<'a, Self, Self::Output>) -> bool {
        next == self.after(reply)
    }

    fn resume(self, reply: Reply) -> (next: Progress<'a, Self, Self::Output>) {
        match self {
            ReadOp::Reading { key } => Progress::Done((key, reply.bytes())),
        }
    }
}

/// The way from a key to the persistent identifier of its object.
pub enum PersistentOp {
    /// The identifier is being asked for.
    Translating,
}

impl PersistentOp {
    /// What `reply` leads to.
    pub open spec fn after<'a>(self, reply: Reply) -> Progress<'a, PersistentOp, PMEMoid> {
        Progress::Done(reply->Oid_0)
    }
}

impl<'a> Operation<'a> for PersistentOp {
    type Output = PMEMoid;

    open spec fn awaits(self, reply: Reply) -> bool {
        reply is Oid
    }

    open spec fn leads_to(self, reply: Reply, next: Progress<'a, Self, Self::Output>) -> bool {
        next == self.after(reply)
    }

    fn resume(self, reply: Reply) -> (next: Progress<'a, Self, Self::Output>) {
        Progress::Done(reply.oid())
    }
}

/// The way from a key to the type number of its object.
pub enum TypeOp {
    /// The identifier of the object is being asked for.
    Translating { op: PersistentOp },
    /// The type number of the object is being asked for.
    Typing,
}

impl TypeOp {
    /// What `reply` leads to.
    pub open spec fn after<'a>(self, reply: Reply) -> Progress<'a, TypeOp, u64> {
        match self {
            TypeOp::Translating { op } => match op.after(reply) {
                Progress::Call(call, op) => Progress::Call(call, TypeOp::Translating { op }),
                Progress::Done(oid) => Progress::Call(Call::TypeNum { oid }, TypeOp::Typing),
            },
            TypeOp::Typing => Progress::Done(reply->TypeNum_0),
        }
    }
}

impl<'a> Operation<'a> for TypeOp {
    type Output = u64;

    open spec fn awaits(self, reply: Reply) -> bool {
        match self {
            TypeOp::Translating { op } => op.awaits(reply),
            TypeOp::Typing => reply is TypeNum,
        }
    }

    open spec fn leads_to(self, reply: Reply, next: Progress<'a, Self, Self::Output>) -> bool {
        next == self.after(reply)
    }

    fn resume(self, reply: Reply) -> (next: Progress<'a, Self, Self::Output>) {
        match self {
            TypeOp::Translating { op } => match op.resume(reply) {
                Progress::Call(call, op) => Progress::Call(call, TypeOp::Translating { op }),
                Progress::Done(oid) => Progress::Call(Call::TypeNum { oid }, TypeOp::Typing),
            },
            TypeOp::Typing => Progress::Done(reply.type_num()),
        }
    }
}

impl ObjRawKey {
    /// Where the way to the persistent identifier starts.
    pub open spec fn spec_as_persistent<'a>(self) -> Progress<'a, PersistentOp, PMEMoid> {
        Progress::Call(Call::Oid { addr: self.addr }, PersistentOp::Translating)
    }

    /// Asks for the persistent identifier of the object.
    pub fn as_persistent<'a>(&self) -> (start: Progress<'a, PersistentOp, PMEMoid>)
        ensures
            start == self.spec_as_persistent(),
            ready(start),
    {
        Progress::Call(Call::Oid { addr: self.addr }, PersistentOp::Translating)
    }

    /// Where the way to the type number starts.
    pub open spec fn spec_get_type<'a>(self) -> Progress<'a, TypeOp, u64> {
        Progress::Call(
            Call::Oid { addr: self.addr },
            TypeOp::Translating { op: PersistentOp::Translating },
        )
    }

    /// Asks for the type number that the object carries.
    pub fn get_type<'a>(&self) -> (start: Progress<'a, TypeOp, u64>)
        ensures
            start == self.spec_get_type(),
            ready(start),
    {
        match self.as_persistent() {
            Progress::Call(call, op) => Progress::Call(call, TypeOp::Translating { op }),
            Progress::Done(oid) => Progress::Call(Call::TypeNum { oid }, TypeOp::Typing),
        }
    }
}

impl ObjPool {
    /// Where the allocation of an object starts.
    pub open spec fn spec_allocate<'a>(self, size: usize, data_type: u64) -> Progress<
        'a,
        AllocateOp,
        Result<ObjRawKey, Error>,
    > {
        Progress::Call(
            Call::Alloc { pool: self.inner, size, type_num: data_type },
            AllocateOp::Allocating,
        )
    }

    /// Allocates an object of `size` bytes that carries the type number
    /// `data_type`.
    pub fn allocate<'a>(&self, size: usize, data_type: u64) -> (start: Progress<
        'a,
        AllocateOp,
        Result<ObjRawKey, Error>,
    >)
        ensures
            start == self.spec_allocate(size, data_type),
            ready(start),
    {
        Progress::Call(
            Call::Alloc { pool: self.inner, size, type_num: data_type },
            AllocateOp::Allocating,
        )
    }

    /// Where the update of an object starts.
    pub open spec fn spec_update_by_rawkey<'a>(
        self,
        rkey: ObjRawKey,
        data: &'a [u8],
        offset: Option<usize>,
    ) -> Progress<'a, UpdateOp, Result<ObjRawKey, Error>> {
        starts_update(self.inner, rkey, data, offset)
    }

    /// Copies `data` into the object of `rkey`, from `offset` bytes after its
    /// start on, or from its start if there is no offset.
    pub fn update_by_rawkey<'a>(
        &self,
        rkey: ObjRawKey,
        data: &'a [u8],
        offset: Option<usize>,
    ) -> (start: Progress<'a, UpdateOp, Result<ObjRawKey, Error>>)
        requires
            update_offset(offset) <= isize::MAX ==> rkey.addr + update_offset(offset) <= u64::MAX,
        ensures
            start == self.spec_update_by_rawkey(rkey, data, offset),
            ready(start),
    {
        start_update(self.inner, rkey, data, offset)
    }

    /// Where the allocation of an object for `data` starts.
    pub open spec fn spec_put<'a>(self, data: &'a [u8], data_type: u64) -> Progress<
        'a,
        PutOp<'a>,
        Result<ObjRawKey, Error>,
    > {
        Progress::Call(
            Call::Alloc { pool: self.inner, size: data@.len() as usize, type_num: data_type },
            PutOp::Allocating { op: AllocateOp::Allocating, pool: self.inner, data },
        )
    }

    /// Allocates an object for `data` that carries the type number `data_type`,
    /// and copies `data` into it.
    pub fn put<'a>(&self, data: &'a [u8], data_type: u64) -> (start: Progress<
        'a,
        PutOp<'a>,
        Result<ObjRawKey, Error>,
    >)
        ensures
            start == self.spec_put(data, data_type),
            ready(start),
    {
        let pool: u64 = self.inner;
        match self.allocate(data.len(), data_type) {
            Progress::Call(call, op) => Progress::Call(call, PutOp::Allocating { op, pool, data }),
            Progress::Done(result) => Progress::Done(result),
        }
    }

    /// Where the way from a key to the identifier of its object starts.
    pub open spec fn spec_key_to_oid<'a>(self, key: ObjRawKey) -> Progress<
        'a,
        KeyToOidOp,
        Result<PMEMoid, Error>,
    > {
        Progress::Call(
            Call::Oid { addr: key.addr },
            KeyToOidOp::Translating { uuid_lo: self.uuid_lo },
        )
    }

    /// Asks for the identifier of the object of `key`, which has to lie in this
    /// pool.
    pub fn key_to_oid<'a>(&self, key: ObjRawKey) -> (start: Progress<
        'a,
        KeyToOidOp,
        Result<PMEMoid, Error>,
    >)
        ensures
            start == self.spec_key_to_oid(key),
            ready(start),
    {
        Progress::Call(
            Call::Oid { addr: key.addr },
            KeyToOidOp::Translating { uuid_lo: self.uuid_lo },
        )
    }

    /// Where the measuring of an object starts.
    pub open spec fn spec_obj_size_get<'a>(self, key: ObjRawKey) -> Progress<
        'a,
        ObjSizeOp,
        Result<(usize, ObjRawKey), Error>,
    > {
        Progress::Call(
            Call::Oid { addr: key.addr },
            ObjSizeOp::Translating { op: KeyToOidOp::Translating { uuid_lo: self.uuid_lo } },
        )
    }

    /// Asks for the number of bytes that the object of `key` can hold, and for
    /// its key.
    pub fn obj_size_get<'a>(&self, key: ObjRawKey) -> (start: Progress<
        'a,
        ObjSizeOp,
        Result<(usize, ObjRawKey), Error>,
    >)
        ensures
            start == self.spec_obj_size_get(key),
            ready(start),
    {
        match self.key_to_oid(key) {
            Progress::Call(call, op) => Progress::Call(call, ObjSizeOp::Translating { op }),
            Progress::Done(Ok(oid)) => Progress::Call(
                Call::UsableSize { oid },
                ObjSizeOp::Measuring { oid },
            ),
            Progress::Done(Err(error)) => Progress::Done(Err(error)),
        }
    }

    /// Where the removal of an object starts.
    pub open spec fn spec_remove<'a>(self, key: ObjRawKey) -> Progress<
        'a,
        RemoveOp,
        Result<(), Error>,
    > {
        Progress::Call(
            Call::Oid { addr: key.addr },
            RemoveOp::Translating { op: KeyToOidOp::Translating { uuid_lo: self.uuid_lo } },
        )
    }

    /// Frees the object of `key`, which has to lie in this pool.
    pub fn remove<'a>(&self, key: ObjRawKey) -> (start: Progress<'a, RemoveOp, Result<(), Error>>)
        ensures
            start == self.spec_remove(key),
            ready(start),
    {
        match self.key_to_oid(key) {
            Progress::Call(call, op) => Progress::Call(call, RemoveOp::Translating { op }),
            Progress::Done(Ok(oid)) => Progress::Call(Call::Free { oid }, RemoveOp::Freeing),
            Progress::Done(Err(error)) => Progress::Done(Err(error)),
        }
    }

    /// Where the reading of an object starts.
    pub open spec fn spec_get_by_rawkey<'a>(self, rkey: ObjRawKey, len: usize) -> Progress<
        'a,
        ReadOp,
        (ObjRawKey, Vec<u8>),
    > {
        Progress::Call(Call::Read { addr: rkey.addr, len }, ReadOp::Reading { key: rkey })
    }

    /// Reads the first `len` bytes of the object of `rkey`.
    pub fn get_by_rawkey<'a>(&self, rkey: ObjRawKey, len: usize) -> (start: Progress<
        'a,
        ReadOp,
        (ObjRawKey, Vec<u8>),
    >)
        ensures
            start == self.spec_get_by_rawkey(rkey, len),
            ready(start),
    {
        Progress::Call(Call::Read { addr: rkey.addr, len }, ReadOp::Reading { key: rkey })
    }
}

} // verus!
