//! The errors that the operations of a pool end with.

use vstd::prelude::*;

verus! {

/// What went wrong.
#[derive(Clone, Copy, Debug, PartialEq, Eq, Structural)]
pub enum ErrorKind {
    /// libpmemobj refused a request; it keeps the text of its own message.
    ObjError,
    /// The path of a pool is no text, or holds a NUL character.
    PathError,
    /// The layout name of a pool holds a NUL character.
    LayoutError,
    /// The queue for preallocated objects is full.
    PmdkNoSpaceInQueueError,
    /// A key belongs to an object of another pool.
    PmdkKeyNotBelongToPool,
    /// Anything else.
    GenericError,
}

/// The error of a pool operation.
#[derive(Clone, Copy, Debug, PartialEq, Eq, Structural)]
pub struct Error {
    pub kind: ErrorKind,
}

impl Error {
    /// The error for a request that libpmemobj refused.
    pub open spec fn spec_obj_error() -> Error {
        Error { kind: ErrorKind::ObjError }
    }

    /// The error for a request that libpmemobj refused.
    pub fn obj_error() -> (error: Self)
        ensures
            error == Error::spec_obj_error(),
    {
        Error { kind: ErrorKind::ObjError }
    }

    /// What went wrong.
    pub fn kind(&self) -> (kind: ErrorKind)
        ensures
            kind == self.kind,
    {
        self.kind
    }
}

impl vstd::std_specs::convert::FromSpecImpl<ErrorKind> for Error {
    open spec fn obeys_from_spec() -> bool {
        true
    }

    open spec fn from_spec(kind: ErrorKind) -> Error {
        Error { kind }
    }
}

impl From<ErrorKind> for Error {
    fn from(kind: ErrorKind) -> (error: Self) {
        Error { kind }
    }
}

} // verus!
