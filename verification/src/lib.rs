//! Object pools in persistent memory, on top of libpmemobj.
//!
//! Operations on a pool hand out the calls that they need and take the replies; see
//! [`call`]. Nothing in this crate calls libpmemobj itself.

pub mod call;
pub mod capacity;
pub mod capacity_laws;
pub mod capacity_run_laws;
pub mod control;
pub mod error;
pub mod heap;
pub mod iter;
pub mod key;
pub mod laws;
pub mod numeral;
pub mod object;
pub mod oid;
pub mod pool;
pub mod queue;
pub mod run_laws;
pub mod statistics_laws;
pub mod text;
pub mod value_laws;

pub use call::{Call, CtlValue, Operation, Progress, Query, Reply};
pub use error::{Error, ErrorKind};
pub use iter::ObjPoolIter;
pub use key::ObjRawKey;
pub use oid::{pmemoid, PMEMoid};
pub use pool::ObjPool;
pub use text::CText;
