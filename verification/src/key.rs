//! Keys of objects.

use vstd::prelude::*;

verus! {

/// The key of an object: the address at which it is mapped while its pool is
/// open.
#[derive(Debug, PartialEq, Eq, Hash, Structural)]
pub struct ObjRawKey {
    pub addr: u64,
}

impl vstd::std_specs::convert::FromSpecImpl<u64> for ObjRawKey {
    open spec fn obeys_from_spec() -> bool {
        true
    }

    open spec fn from_spec(addr: u64) -> ObjRawKey {
        ObjRawKey { addr }
    }
}

impl From<u64> for ObjRawKey {
    fn from(addr: u64) -> (key: Self) {
        ObjRawKey { addr }
    }
}

impl vstd::std_specs::convert::FromSpecImpl<ObjRawKey> for u64 {
    open spec fn obeys_from_spec() -> bool {
        true
    }

    open spec fn from_spec(key: ObjRawKey) -> u64 {
        key.addr
    }
}

impl From<ObjRawKey> for u64 {
    fn from(key: ObjRawKey) -> (addr: u64) {
        key.addr
    }
}

/// The eight bytes of `n`, the least significant first.
pub open spec fn little_endian(n: u64) -> Seq<u8> {
    seq![
        (n % 0x100) as u8,
        (n / 0x100 % 0x100) as u8,
        (n / 0x1_0000 % 0x100) as u8,
        (n / 0x100_0000 % 0x100) as u8,
        (n / 0x1_0000_0000 % 0x100) as u8,
        (n / 0x100_0000_0000 % 0x100) as u8,
        (n / 0x1_0000_0000_0000 % 0x100) as u8,
        (n / 0x100_0000_0000_0000 % 0x100) as u8,
    ]
}

/// The memory representation of `n`: a call of `u64::to_ne_bytes`, which gives
/// the eight bytes in the byte order of the machine, the least significant byte
/// first or last.
#[verifier::external_body]
fn native_bytes(n: u64) -> (bytes: [u8; 8])
    ensures
        bytes@ == little_endian(n) || bytes@ == little_endian(n).reverse(),
{
    n.to_ne_bytes()
}

/// Whether `bytes` can be what the call of `u64::to_ne_bytes` on `n` gave.
pub closed spec fn is_native(n: u64, bytes: Seq<u8>) -> bool {
    exists|array: [u8; 8]| #[trigger]
        call_ensures(native_bytes, (n,), array) && array@ == bytes
}

/// The bytes in a vector, in the same order.
pub fn byte_vec(bytes: [u8; 8]) -> (vec: Vec<u8>)
    ensures
        vec@ == bytes@,
{
    let mut vec: Vec<u8> = Vec::new();
    let mut i: usize = 0;
    while i < 8
        invariant
            i <= 8,
            vec@ == bytes@.take(i as int),
        decreases 8 - i,
    {
        vec.push(bytes[i]);
        i = i + 1;
    }
    vec
}

impl ObjRawKey {
    /// The key as the bytes that it has in memory, in the byte order of the machine.
    pub fn as_byte_vec(&self) -> (bytes: Vec<u8>)
        ensures
            is_native(self.addr, bytes@),
            bytes@ == little_endian(self.addr) || bytes@ == little_endian(self.addr).reverse(),
    {
        byte_vec(native_bytes(self.addr))
    }
}

} // verus!
