use vstd::prelude::*;
use vstd::string::StringExecFns;
use vstd::utf8::encode_utf8;

use crate::bindings::sha256;
use crate::bindings::uuid_parse;

verus! {

/// The high 64 bits of every education player's UUID.
pub const EDUCATION_UUID_MSB: u64 = 0x0000_0001_0000_0001u64;

/// The 128-bit value of the UUID whose high and low halves are `high` and `low`.
pub open spec fn uuid_from_pair(high: u64, low: u64) -> u128 {
    (high as int * 0x1_0000_0000_0000_0000 + low as int) as u128
}

/// The UUID made of two halves, as `Uuid::from_u64_pair` makes it.
pub fn uuid_from_u64_pair(high: u64, low: u64) -> (u: u128)
    ensures
        u == uuid_from_pair(high, low),
{
    let u: u128 = ((high as u128) << 64u128) | (low as u128);
    assert(((high as u128) << 64u128) | (low as u128) == (high as u128) * 0x1_0000_0000_0000_0000u128 + (low as u128)) by (bit_vector);
    u
}

/// The UUID of an education player whose Entra object id has the 128-bit value `value`:
/// the education high half, and a low half made of the object id's high half with its
/// bits 12 to 15 removed, followed by bits 58 to 61 of its low half.
pub open spec fn modern_uuid_spec(value: u128) -> u128 {
    let msb = value as int / 0x1_0000_0000_0000_0000;
    let lsb = value as int % 0x1_0000_0000_0000_0000;
    let upper = (msb / 0x1_0000) * 0x1000 + msb % 0x1000;
    let lower = (lsb / 0x0400_0000_0000_0000) % 16;
    uuid_from_pair(EDUCATION_UUID_MSB, (upper * 16 + lower) as u64)
}

/// The education UUID for the object id whose 128-bit value is `value`.
pub fn modern_education_uuid_from(value: u128) -> (u: u128)
    ensures
        u == modern_uuid_spec(value),
{
    let msb: u64 = (value >> 64u128) as u64;
    let lsb: u64 = value as u64;
    assert(msb == value / 0x1_0000_0000_0000_0000u128) by (bit_vector)
        requires
            msb == (value >> 64u128) as u64,
    ;
    assert(lsb == value % 0x1_0000_0000_0000_0000u128) by (bit_vector)
        requires
            lsb == value as u64,
    ;
    let upper: u64 = ((msb >> 16u64) << 12u64) | (msb & 0xFFFu64);
    assert(upper == (msb / 0x1_0000u64) * 0x1000u64 + msb % 0x1000u64 && upper < 0x1000_0000_0000_0000u64) by (bit_vector)
        requires
            upper == ((msb >> 16u64) << 12u64) | (msb & 0xFFFu64),
    ;
    let lower: u64 = (lsb << 2u64) >> 60u64;
    assert(lower == (lsb / 0x0400_0000_0000_0000u64) % 16u64) by (bit_vector)
        requires
            lower == (lsb << 2u64) >> 60u64,
    ;
    let low: u64 = (upper << 4u64) | lower;
    assert(low == upper * 16u64 + lower) by (bit_vector)
        requires
            low == (upper << 4u64) | lower,
            upper < 0x1000_0000_0000_0000u64,
            lower < 16u64,
    ;
    uuid_from_u64_pair(EDUCATION_UUID_MSB, low)
}

/// The UUID of an education player from the Entra object id `oid`, or the error when
/// `oid` is not a UUID.
pub fn modern_education_uuid(oid: &str) -> (r: Result<u128, String>)
    ensures
        match uuid_parse(oid@) {
            Some(v) => r == Ok::<u128, String>(modern_uuid_spec(v)),
            None => r matches Err(e) && e@ == "EduFloodgate xuid is not a valid Entra OID"@,
        },
{
    match crate::bindings::parse_uuid(oid) {
        Some(v) => Ok(modern_education_uuid_from(v)),
        None => Err(String::from_str("EduFloodgate xuid is not a valid Entra OID")),
    }
}

/// The number that the bytes `b` denote, most significant first.
pub open spec fn big_endian(b: Seq<u8>) -> int
    decreases b.len(),
{
    if b.len() == 0 {
        0
    } else {
        big_endian(b.drop_last()) * 256 + b.last() as int
    }
}

/// The bytes hashed for a legacy education UUID: the tenant, a colon, the username.
pub open spec fn legacy_hash_input(tenant_id: Seq<char>, username: Seq<char>) -> Seq<u8> {
    encode_utf8(tenant_id) + seq![58u8] + encode_utf8(username)
}

/// The legacy UUID of an education player: the education high half, and as low half the
/// first 8 bytes of the SHA-256 digest of `tenant:username`, read big-endian.
pub open spec fn legacy_uuid_spec(tenant_id: Seq<char>, username: Seq<char>) -> u128 {
    uuid_from_pair(
        EDUCATION_UUID_MSB,
        big_endian(sha256(legacy_hash_input(tenant_id, username)).take(8)) as u64,
    )
}

/// The legacy education UUID whose low half comes from the digest `digest`.
pub fn legacy_education_uuid_from_digest(digest: &[u8]) -> (u: u128)
    requires
        digest@.len() >= 8,
    ensures
        u == uuid_from_pair(EDUCATION_UUID_MSB, big_endian(digest@.take(8)) as u64),
{
    let mut lsb: u64 = 0;
    for i in 0..8usize
        invariant
            digest@.len() >= 8,
            lsb as int == big_endian(digest@.take(i as int)),
            lsb < pow256(i as nat),
    {
        let byte = digest[i];
        assert(digest@.take(i + 1).drop_last() =~= digest@.take(i as int));
        proof {
            lemma_pow256_step(i as nat);
        }
        let next: u64 = (lsb << 8u64) | (byte as u64);
        assert(next == lsb * 256 + byte && next < lsb * 256 + 256) by (bit_vector)
            requires
                next == (lsb << 8u64) | (byte as u64),
                lsb < 0x0100_0000_0000_0000u64,
        ;
        lsb = next;
    }
    assert(digest@.take(8) =~= digest@.take(8usize as int));
    uuid_from_u64_pair(EDUCATION_UUID_MSB, lsb)
}

/// 256 to the power `n`.
pub open spec fn pow256(n: nat) -> int
    decreases n,
{
    if n == 0 {
        1
    } else {
        256 * pow256((n - 1) as nat)
    }
}

proof fn lemma_pow256_step(n: nat)
    requires
        n < 8,
    ensures
        pow256(n) <= 0x0100_0000_0000_0000,
        pow256(n + 1) == pow256(n) * 256,
{
    reveal_with_fuel(pow256, 9);
}

/// The bytes of `a` followed by those of `b`.
pub fn concat_bytes(a: &[u8], b: &[u8]) -> (r: Vec<u8>)
    ensures
        r@ == a@ + b@,
{
    let mut r = vstd::slice::slice_to_vec(a);
    for i in 0..b.len()
        invariant
            r@ == a@ + b@.take(i as int),
    {
        r.push(b[i]);
        assert(b@.take(i + 1) =~= b@.take(i as int).push(b@[i as int]));
        assert(r@ =~= a@ + b@.take(i + 1));
    }
    assert(b@.take(b@.len() as int) =~= b@);
    r
}

/// The legacy UUID of an education player in the tenant `tenant_id`.
pub fn legacy_education_uuid(tenant_id: &str, username: &str) -> (u: u128)
    ensures
        u == legacy_uuid_spec(tenant_id@, username@),
{
    let colon: Vec<u8> = vec![58u8];
    let first = concat_bytes(tenant_id.as_bytes(), colon.as_slice());
    let input = concat_bytes(first.as_slice(), username.as_bytes());
    assert(colon@ =~= seq![58u8]);
    assert(input@ == legacy_hash_input(tenant_id@, username@));
    let digest = crate::bindings::sha256_digest(input.as_slice());
    legacy_education_uuid_from_digest(digest.as_slice())
}

/// The legacy UUID of an education player: high half the education constant, low half
/// the first 8 bytes of SHA-256 of `tenant:username` in big-endian order.
pub proof fn law_legacy_uuid_bytes(tenant_id: Seq<char>, username: Seq<char>)
    requires
        sha256(encode_utf8(tenant_id) + seq![58u8] + encode_utf8(username)).len() >= 8,
    ensures
        ({
            let h = sha256(encode_utf8(tenant_id) + seq![58u8] + encode_utf8(username));
            let u = legacy_uuid_spec(tenant_id, username) as int;
            &&& u / 0x1_0000_0000_0000_0000 == EDUCATION_UUID_MSB as int
            &&& u % 0x1_0000_0000_0000_0000 == h[0] as int * 0x0100_0000_0000_0000 + h[1] as int * 0x0001_0000_0000_0000
                + h[2] as int * 0x0000_0100_0000_0000 + h[3] as int * 0x0000_0001_0000_0000 + h[4] as int * 0x0100_0000
                + h[5] as int * 0x0001_0000 + h[6] as int * 0x0100 + h[7] as int
        }),
{
    let h = sha256(encode_utf8(tenant_id) + seq![58u8] + encode_utf8(username));
    let b = h.take(8);
    reveal_with_fuel(big_endian, 9);
    assert(b.take(7) =~= b.drop_last());
    assert(b.drop_last().drop_last() =~= b.take(6));
    assert(b.take(6).drop_last() =~= b.take(5));
    assert(b.take(5).drop_last() =~= b.take(4));
    assert(b.take(4).drop_last() =~= b.take(3));
    assert(b.take(3).drop_last() =~= b.take(2));
    assert(b.take(2).drop_last() =~= b.take(1));
    assert(b.take(1).drop_last() =~= Seq::<u8>::empty());
    let v = big_endian(b);
    assert(v == h[0] as int * 0x0100_0000_0000_0000 + h[1] as int * 0x0001_0000_0000_0000
        + h[2] as int * 0x0000_0100_0000_0000 + h[3] as int * 0x0000_0001_0000_0000 + h[4] as int * 0x0100_0000
        + h[5] as int * 0x0001_0000 + h[6] as int * 0x0100 + h[7] as int);
    assert(legacy_hash_input(tenant_id, username) == encode_utf8(tenant_id) + seq![58u8] + encode_utf8(username));
    assert(0 <= v < 0x1_0000_0000_0000_0000);
}

} // verus!
