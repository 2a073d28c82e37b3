//! Persistent identifiers of objects.

use vstd::prelude::*;

use crate::numeral::{append_numeral, numeral};

verus! {

/// The persistent identifier of an object: the pool that it lies in, and its
/// offset from the start of that pool.
#[allow(non_camel_case_types)]
#[derive(Clone, Copy, PartialEq, Eq, Structural)]
pub struct pmemoid {
    pub pool_uuid_lo: u64,
    pub off: u64,
}

/// The name that libpmemobj has for a persistent identifier.
pub type PMEMoid = pmemoid;

impl Default for pmemoid {
    fn default() -> (oid: Self)
        ensures
            oid.is_null_oid(),
    {
        pmemoid { pool_uuid_lo: 0, off: 0 }
    }
}

impl pmemoid {
    /// The identifier of no object: both parts are zero.
    pub open spec fn is_null_oid(self) -> bool {
        self == (pmemoid { pool_uuid_lo: 0, off: 0 })
    }

    pub fn new(pool_uuid_lo: u64, off: u64) -> (oid: Self)
        ensures
            oid == (pmemoid { pool_uuid_lo, off }),
    {
        pmemoid { pool_uuid_lo, off }
    }

    pub fn off(&self) -> (off: u64)
        ensures
            off == self.off,
    {
        self.off
    }

    pub fn pool_uuid_lo(&self) -> (pool_uuid_lo: u64)
        ensures
            pool_uuid_lo == self.pool_uuid_lo,
    {
        self.pool_uuid_lo
    }

    pub fn is_null(&self) -> (null: bool)
        ensures
            null == self.is_null_oid(),
    {
        self.off == 0 && self.pool_uuid_lo == 0
    }

    /// The identifier written out for a reader.
    pub open spec fn debug_text(self) -> Seq<char> {
        "pmemoid pool: "@ + numeral(self.pool_uuid_lo as nat, 10) + ", off: "@ + numeral(
            self.off as nat,
            16,
        )
    }

    /// Writes the identifier out for a reader: the pool in decimal, the offset in
    /// hexadecimal digits.
    pub fn debug_string(&self) -> (text: String)
        ensures
            text@ == self.debug_text(),
    {
        let mut text = "pmemoid pool: ".to_owned();
        append_numeral(&mut text, self.pool_uuid_lo, 10);
        text.append(", off: ");
        append_numeral(&mut text, self.off, 16);
        text
    }
}

} // verus!
