//! Laws of the values that operations take and give.

use vstd::prelude::*;
use vstd::std_specs::convert::FromSpec;

use crate::call::Query;
use crate::control::status_as_result;
use crate::error::{Error, ErrorKind};
use crate::iter::ObjPoolIter;
use crate::key::{byte_vec, little_endian, ObjRawKey};
use crate::numeral::{append_numeral, numeral};
use crate::oid::{pmemoid, PMEMoid};
use crate::pool::{pool_size, ObjPool};
use crate::text::CText;

verus! {

/// A text is taken for C if and only if each of its characters is something else than NUL,
/// and it is taken as it is.
pub proof fn law_c_text(text: String, result: Option<CText>)
    requires
        call_ensures(CText::new, (text,), result),
    ensures
        (forall|i: int| 0 <= i < text@.len() ==> #[trigger] text@[i] != '\0') ==> result is Some,
        (exists|i: int| 0 <= i < text@.len() && #[trigger] text@[i] == '\0') ==> result is None,
        result matches Some(c_text) ==> c_text@ == text@,
{
}

/// A text for C gives back what it was made from, and so does a copy of it.
pub proof fn law_c_text_kept(text: String, c_text: CText, copy: CText, out: &str)
    requires
        call_ensures(CText::new, (text,), Some(c_text)),
        call_ensures(<CText as Clone>::clone, (&c_text,), copy),
        call_ensures(CText::as_str, (&copy,), out),
    ensures
        out@ == text@,
        copy@ == c_text@,
{
}

/// The size of a pool is three times the number of objects times what one of them takes,
/// which is its size and sixty-four bytes.
pub proof fn law_pool_size_formula(capacity: usize, obj_size: usize, size: usize)
    requires
        call_ensures(pool_size, (capacity, obj_size), size),
    ensures
        size == 3 * capacity * (obj_size + 64),
{
    assert(capacity * (obj_size + 64) * 3 == 3 * capacity * (obj_size + 64)) by (nonlinear_arith);
}

/// Each further object adds the same to the size of a pool, and each further byte of an
/// object adds three bytes for each object.
pub proof fn law_pool_size_grows(
    capacity: usize,
    more: usize,
    obj_size: usize,
    larger: usize,
    size: usize,
    size_with_more: usize,
    size_with_larger: usize,
)
    requires
        call_ensures(pool_size, (capacity, obj_size), size),
        call_ensures(pool_size, (more, obj_size), size_with_more),
        call_ensures(pool_size, (capacity, larger), size_with_larger),
    ensures
        size_with_more - size == 3 * (more - capacity) * (obj_size + 64),
        size_with_larger - size == 3 * capacity * (larger - obj_size),
{
    assert(more * (obj_size + 64) * 3 - capacity * (obj_size + 64) * 3 == 3 * (more - capacity) * (
    obj_size + 64)) by (nonlinear_arith);
    assert(capacity * (larger + 64) * 3 - capacity * (obj_size + 64) * 3 == 3 * capacity * (larger
        - obj_size)) by (nonlinear_arith);
}

/// The size of a pool can be asked for, and the pool can be made, wherever the size is one
/// that the machine can have.
pub proof fn law_pool_size_accepted(
    path: Option<String>,
    layout: Option<String>,
    obj_size: usize,
    data_type: u64,
    capacity: usize,
    initial: usize,
)
    requires
        obj_size + 64 <= usize::MAX,
        3 * capacity * (obj_size + 64) <= usize::MAX,
    ensures
        call_requires(pool_size, (capacity, obj_size)),
        call_requires(ObjPool::new, (path, layout, obj_size, capacity)),
        capacity > 0 ==> call_requires(
            ObjPool::with_capacity,
            (path, layout, obj_size, data_type, capacity),
        ),
        capacity > 0 ==> call_requires(
            ObjPool::with_initial_capacity,
            (path, layout, obj_size, data_type, capacity, initial),
        ),
{
    assert(capacity * (obj_size + 64) * 3 == 3 * capacity * (obj_size + 64)) by (nonlinear_arith);
}

/// Objects can be allocated in advance wherever there can be a queue for their keys, and an
/// object can be updated at every offset that a pointer can have and that leads to an
/// address.
pub proof fn law_pool_accepted(
    pool: ObjPool,
    obj_size: usize,
    data_type: u64,
    capacity: usize,
    initial: usize,
    key: ObjRawKey,
    data: &[u8],
    offset: Option<usize>,
)
    ensures
        0 < capacity && capacity * 16 <= isize::MAX ==> {
            &&& call_requires(ObjPool::set_capacity, (pool, obj_size, data_type, capacity))
            &&& call_requires(
                ObjPool::set_initial_capacity,
                (pool, obj_size, data_type, capacity, initial),
            )
        },
        (offset matches Some(at) ==> at > isize::MAX || key.addr + at <= u64::MAX)
            ==> call_requires(ObjPool::update_by_rawkey, (&pool, key, data, offset)),
{
}

/// The numeral of a digit is that digit, and the numeral of a number that is followed by a
/// digit is the numeral of the number followed by that digit. The digits from ten on are
/// the letters from `a` on.
pub proof fn law_numeral(n: nat, base: nat, d: nat, digit: char)
    requires
        2 <= base <= 16,
        d < base,
        d < 10 ==> digit as int == '0' as int + d,
        d >= 10 ==> digit as int == 'a' as int + (d - 10),
    ensures
        numeral(d, base) == seq![digit],
        n > 0 ==> numeral(n * base + d, base) == numeral(n, base).push(digit),
{
    assert(numeral(d, base) =~= seq![digit]);
    if n > 0 {
        let all = n * base + d;
        vstd::arithmetic::div_mod::lemma_fundamental_div_mod_converse(
            all as int,
            base as int,
            n as int,
            d as int,
        );
        assert(all >= base) by (nonlinear_arith)
            requires
                all == n * base + d,
                n > 0,
        ;
        assert(numeral(all, base) =~= numeral(n, base).push(digit));
    }
}

/// A number is appended as its numeral, behind what was there.
pub proof fn law_append_numeral(out: &mut String, n: u64, base: u64)
    requires
        call_ensures(append_numeral, (out, n, base), ()),
    ensures
        final(out)@ == old(out)@ + numeral(n as nat, base as nat),
{
}

/// The names that queries have for libpmemobj.
pub proof fn law_query_name(query: Query, name: CText)
    requires
        call_ensures(Query::name, (&query,), name),
    ensures
        query is ArenaCreate ==> name@ == "heap.arena.create"@,
        query is ThreadArenaId ==> name@ == "heap.thread.arena_id"@,
        query is HeapCurrAllocated ==> name@ == "stats.heap.curr_allocated"@,
        query matches Query::ArenaSize(id) ==> name@ == "heap.arena."@ + numeral(id as nat, 10)
            + ".size"@,
        query matches Query::Named(other) ==> name@ == other@,
{
}

/// Whether the file of a pool goes with it is what was said last, and nothing else of the
/// pool changes.
pub proof fn law_rm_on_drop(pool: &mut ObjPool, rm_pool: bool)
    requires
        call_ensures(ObjPool::set_rm_on_drop, (pool, rm_pool), ()),
    ensures
        final(pool).rm_on_drop == rm_pool,
        final(pool).inner == old(pool).inner,
        final(pool).uuid_lo == old(pool).uuid_lo,
        final(pool).inner_path == old(pool).inner_path,
{
}

/// An identifier has the two parts that it was made from, and is null if and only if both
/// are zero, as those of the default one are.
pub proof fn law_oid(
    pool_uuid_lo: u64,
    off: u64,
    oid: PMEMoid,
    same_uuid_lo: u64,
    same_off: u64,
    null: bool,
    none: PMEMoid,
)
    requires
        call_ensures(pmemoid::new, (pool_uuid_lo, off), oid),
        call_ensures(pmemoid::pool_uuid_lo, (&oid,), same_uuid_lo),
        call_ensures(pmemoid::off, (&oid,), same_off),
        call_ensures(pmemoid::is_null, (&oid,), null),
        call_ensures(<pmemoid as Default>::default, (), none),
    ensures
        oid.pool_uuid_lo == pool_uuid_lo,
        oid.off == off,
        same_uuid_lo == pool_uuid_lo,
        same_off == off,
        null <==> pool_uuid_lo == 0 && off == 0,
        none.pool_uuid_lo == 0,
        none.off == 0,
{
}

/// An identifier that is written out names the pool in decimal and the offset in
/// hexadecimal digits.
pub proof fn law_oid_text(oid: PMEMoid, text: String)
    requires
        call_ensures(pmemoid::debug_string, (&oid,), text),
    ensures
        text@ == "pmemoid pool: "@ + numeral(oid.pool_uuid_lo as nat, 10) + ", off: "@ + numeral(
            oid.off as nat,
            16,
        ),
{
}

/// A key is the number that it is made from, and gives that number back; a walk stands at
/// the identifier that it is made from, and an error is of the kind that it is made from.
pub proof fn law_conversions(addr: u64, key: ObjRawKey, oid: PMEMoid, kind: ErrorKind)
    ensures
        <ObjRawKey as FromSpec<u64>>::from_spec(addr).addr == addr,
        <u64 as FromSpec<ObjRawKey>>::from_spec(key) == key.addr,
        <ObjPoolIter as FromSpec<PMEMoid>>::from_spec(oid).oid == oid,
        <Error as FromSpec<ErrorKind>>::from_spec(kind).kind == kind,
        <ObjRawKey as FromSpec<u64>>::obeys_from_spec(),
        <u64 as FromSpec<ObjRawKey>>::obeys_from_spec(),
        <ObjPoolIter as FromSpec<PMEMoid>>::obeys_from_spec(),
        <Error as FromSpec<ErrorKind>>::obeys_from_spec(),
{
}

/// The bytes of a key are eight, and their weights, from the first on or from the last on,
/// make up the number of the key.
pub proof fn law_key_bytes(key: ObjRawKey, bytes: Vec<u8>)
    requires
        call_ensures(ObjRawKey::as_byte_vec, (&key,), bytes),
    ensures
        bytes@.len() == 8,
        key.addr == bytes@[0] + 0x100 * bytes@[1] + 0x1_0000 * bytes@[2] + 0x100_0000 * bytes@[3]
            + 0x1_0000_0000 * bytes@[4] + 0x100_0000_0000 * bytes@[5] + 0x1_0000_0000_0000
            * bytes@[6] + 0x100_0000_0000_0000 * bytes@[7] || key.addr == bytes@[7] + 0x100
            * bytes@[6] + 0x1_0000 * bytes@[5] + 0x100_0000 * bytes@[4] + 0x1_0000_0000
            * bytes@[3] + 0x100_0000_0000 * bytes@[2] + 0x1_0000_0000_0000 * bytes@[1]
            + 0x100_0000_0000_0000 * bytes@[0],
{
    lemma_little_endian(key.addr);
}

/// The least significant of the eight bytes comes first, and so on.
proof fn lemma_little_endian(n: u64)
    ensures
        little_endian(n).len() == 8,
        n == little_endian(n)[0] + 0x100 * little_endian(n)[1] + 0x1_0000 * little_endian(n)[2]
            + 0x100_0000 * little_endian(n)[3] + 0x1_0000_0000 * little_endian(n)[4]
            + 0x100_0000_0000 * little_endian(n)[5] + 0x1_0000_0000_0000 * little_endian(n)[6]
            + 0x100_0000_0000_0000 * little_endian(n)[7],
{
    let n1 = n / 0x100;
    let n2 = n1 / 0x100;
    let n3 = n2 / 0x100;
    let n4 = n3 / 0x100;
    let n5 = n4 / 0x100;
    let n6 = n5 / 0x100;
    let n7 = n6 / 0x100;
    assert(n / 0x1_0000 == n2);
    assert(n / 0x100_0000 == n3);
    assert(n / 0x1_0000_0000 == n4);
    assert(n / 0x100_0000_0000 == n5);
    assert(n / 0x1_0000_0000_0000 == n6);
    assert(n / 0x100_0000_0000_0000 == n7);
    assert(n7 < 0x100);
}

/// Bytes in a vector are those that it was made from, one by one.
pub proof fn law_byte_vec(bytes: [u8; 8], vec: Vec<u8>)
    requires
        call_ensures(byte_vec, (bytes,), vec),
    ensures
        vec@.len() == 8,
        forall|i: int| 0 <= i < 8 ==> #[trigger] vec@[i] == bytes@[i],
{
}

/// A status means success if and only if it is zero, and any other is a failure of
/// libpmemobj.
pub proof fn law_status(status: i32, result: Result<(), Error>)
    requires
        call_ensures(status_as_result, (status,), result),
    ensures
        status == 0 ==> result is Ok,
        status != 0 ==> result is Err,
        result matches Err(error) ==> error.kind == ErrorKind::ObjError,
{
}

/// An error tells its own kind, and the one for a failure of libpmemobj is of that kind.
pub proof fn law_error_kind(error: Error, kind: ErrorKind, failure: Error)
    requires
        call_ensures(Error::kind, (&error,), kind),
        call_ensures(Error::obj_error, (), failure),
    ensures
        kind == error.kind,
        failure.kind == ErrorKind::ObjError,
{
}

} // verus!
