//! The objects of a pool, one after the other.

use vstd::prelude::*;

use crate::call::{ready, Call, Operation, Progress, Reply};
use crate::key::ObjRawKey;
use crate::oid::PMEMoid;
use crate::pool::ObjPool;

verus! {

/// Walks over the objects of a pool. It holds the identifier of the next object,
/// or the null identifier at the end.
pub struct ObjPoolIter {
    pub oid: PMEMoid,
}

impl vstd::std_specs::convert::FromSpecImpl<PMEMoid> for ObjPoolIter {
    open spec fn obeys_from_spec() -> bool {
        true
    }

    open spec fn from_spec(oid: PMEMoid) -> ObjPoolIter {
        ObjPoolIter { oid }
    }
}

impl From<PMEMoid> for ObjPoolIter {
    fn from(oid: PMEMoid) -> (iter: Self) {
        ObjPoolIter { oid }
    }
}

/// The start of a walk.
pub enum IterOp {
    /// The first object is being asked for.
    Starting,
}

impl IterOp {
    /// What `reply` leads to.
    pub open spec fn after<'a>(self, reply: Reply) -> Progress<'a, IterOp, ObjPoolIter> {
        Progress::Done(ObjPoolIter { oid: reply->Oid_0 })
    }
}

impl<'a> Operation<'a> for IterOp {
    type Output = ObjPoolIter;

    open spec fn awaits(self, reply: Reply) -> bool {
        reply is Oid
    }

    open spec fn leads_to(self, reply: Reply, next: Progress<'a, Self, Self::Output>) -> bool {
        next == self.after(reply)
    }

    fn resume(self, reply: Reply) -> (next: Progress<'a, Self, Self::Output>) {
        Progress::Done(ObjPoolIter { oid: reply.oid() })
    }
}

/// One step of a walk.
pub enum NextOp {
    /// The object after this one is being asked for.
    Advancing { current: PMEMoid },
    /// The address of the object is being asked for; the walk goes on from here.
    Locating { rest: ObjPoolIter },
}

impl NextOp {
    /// What `reply` leads to.
    pub open spec fn after<'a>(self, reply: Reply) -> Progress<
        'a,
        NextOp,
        (Option<ObjRawKey>, ObjPoolIter),
    > {
        match self {
            NextOp::Advancing { current } => Progress::Call(
                Call::Direct { oid: current },
                NextOp::Locating { rest: ObjPoolIter { oid: reply->Oid_0 } },
            ),
            NextOp::Locating { rest } => Progress::Done(
                (Some(ObjRawKey { addr: reply->Address_0 }), rest),
            ),
        }
    }
}

impl<'a> Operation<'a> for NextOp {
    type Output = (Option<ObjRawKey>, ObjPoolIter);

    open spec fn awaits(self, reply: Reply) -> bool {
        match self {
            NextOp::Advancing { .. } => reply is Oid,
            NextOp::Locating { .. } => reply is Address,
        }
    }

    open spec fn leads_to(self, reply: Reply, next: Progress<'a, Self, Self::Output>) -> bool {
        next == self.after(reply)
    }

    fn resume(self, reply: Reply) -> (next: Progress<'a, Self, Self::Output>) {
        match self {
            NextOp::Advancing { current } => {
                let rest: ObjPoolIter = ObjPoolIter { oid: reply.oid() };
                Progress::Call(Call::Direct { oid: current }, NextOp::Locating { rest })
            },
            NextOp::Locating { rest } => Progress::Done(
                (Some(ObjRawKey { addr: reply.address() }), rest),
            ),
        }
    }
}

impl ObjPoolIter {
    /// Where the next step of the walk starts.
    pub open spec fn spec_next<'a>(self) -> Progress<
        'a,
        NextOp,
        (Option<ObjRawKey>, ObjPoolIter),
    > {
        if self.oid.is_null_oid() {
            Progress::Done((None, self))
        } else {
            Progress::Call(Call::Next { oid: self.oid }, NextOp::Advancing { current: self.oid })
        }
    }

    /// Asks for the key of the next object, and for the walk over those after it;
    /// there is no key at the end.
    pub fn next<'a>(self) -> (start: Progress<'a, NextOp, (Option<ObjRawKey>, ObjPoolIter)>)
        ensures
            start == self.spec_next(),
            ready(start),
    {
        if !self.oid.is_null() {
            let current: PMEMoid = self.oid;
            Progress::Call(Call::Next { oid: current }, NextOp::Advancing { current })
        } else {
            Progress::Done((None, self))
        }
    }
}

impl ObjPool {
    /// Where a walk over the objects starts.
    pub open spec fn spec_iter<'a>(self) -> Progress<'a, IterOp, ObjPoolIter> {
        Progress::Call(Call::First { pool: self.inner }, IterOp::Starting)
    }

    /// Starts a walk over the objects of the pool.
    pub fn iter<'a>(&self) -> (start: Progress<'a, IterOp, ObjPoolIter>)
        ensures
            start == self.spec_iter(),
            ready(start),
    {
        Progress::Call(Call::First { pool: self.inner }, IterOp::Starting)
    }
}

} // verus!
