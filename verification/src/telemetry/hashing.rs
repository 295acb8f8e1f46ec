//! Hashes of ids: HMAC-SHA256 under the salt of this installation, cut to eight
//! bytes, in lower-case hex. The salt never leaves the machine, so a hash is
//! stable within one installation and says nothing across two.
use hmac::{Hmac, KeyInit, Mac};
use sha2::Sha256;
use vstd::bytes::{lemma_auto_spec_u64_to_from_le_bytes, spec_u64_to_le_bytes, u64_to_le_bytes};
use vstd::prelude::*;

verus! {

/// The HMAC-SHA256 of `message` under `key`.
pub uninterp spec fn hmac_sha256(key: Seq<u8>, message: Seq<u8>) -> Seq<u8>;

/// `hmac::Hmac<sha2::Sha256>`: a new instance with `key`, fed `message` and
/// finalized. It accepts keys of any size, and its output has 32 bytes.
#[verifier::external_body]
fn mac(key: &[u8; 32], message: &Vec<u8>) -> (r: Vec<u8>)
    ensures
        r@ == hmac_sha256(key@, message@),
        r@.len() == 32,
{
    let mut mac = Hmac::<Sha256>::new_from_slice(key).expect("HMAC accepts a key of any size");
    mac.update(message);
    mac.finalize().into_bytes().to_vec()
}

/// An id as eight bytes in two's complement, the lowest first.
pub open spec fn id_bytes(id: i64) -> Seq<u8> {
    spec_u64_to_le_bytes(id as u64)
}

/// A digit in lower-case hex.
pub open spec fn hex_digit(n: int) -> char {
    if n < 10 {
        (0x30 + n) as char
    } else {
        (0x57 + n) as char
    }
}

/// Two digits for each byte.
pub open spec fn hex(bytes: Seq<u8>) -> Seq<char>
    decreases bytes.len(),
{
    if bytes.len() == 0 {
        Seq::empty()
    } else {
        hex(bytes.drop_last()).push(hex_digit(bytes.last() as int / 16)).push(
            hex_digit(bytes.last() as int % 16),
        )
    }
}

/// The hash of an id, given the HMAC of its bytes.
pub open spec fn digest_text(digest: Seq<u8>) -> Seq<char> {
    hex(digest.take(8))
}

pub open spec fn id_hash(salt: Seq<u8>, id: i64) -> Seq<char> {
    digest_text(hmac_sha256(salt, id_bytes(id)))
}

fn digit(n: u8) -> (c: char)
    requires
        n < 16,
    ensures
        c == hex_digit(n as int),
{
    if n < 10 {
        (0x30 + n) as char
    } else {
        (0x57 + n) as char
    }
}

/// The first eight bytes of a digest in hex.
pub fn hex_prefix(digest: &Vec<u8>) -> (r: String)
    requires
        digest@.len() >= 8,
    ensures
        r@ == digest_text(digest@),
{
    let mut r = String::new();
    let mut i: usize = 0;
    assert(r@ =~= hex(digest@.take(0)));
    while i < 8
        invariant
            i <= 8,
            digest@.len() >= 8,
            r@ == hex(digest@.take(i as int)),
        decreases 8 - i,
    {
        let b: u8 = digest[i];
        assert(digest@.take(i + 1).drop_last() =~= digest@.take(i as int));
        r.push(digit(b / 16));
        r.push(digit(b % 16));
        i = i + 1;
    }
    r
}

/// The hash of an id under a salt.
pub fn hash_id(salt: &[u8; 32], id: i64) -> (r: String)
    ensures
        r@ == id_hash(salt@, id),
        r@.len() == 16,
        forall|i: int| 0 <= i < 16 ==> is_hex_digit(#[trigger] r@[i]),
{
    let message = u64_to_le_bytes(id as u64);
    let digest = mac(salt, &message);
    proof {
        hex_is_lower_case(digest@.take(8));
    }
    hex_prefix(&digest)
}

// --- laws ---------------------------------------------------------------------------------

pub open spec fn is_hex_digit(c: char) -> bool {
    '0' <= c <= '9' || 'a' <= c <= 'f'
}

/// Hex is two lower-case digits for each byte.
pub proof fn hex_is_lower_case(bytes: Seq<u8>)
    ensures
        hex(bytes).len() == 2 * bytes.len(),
        forall|i: int| 0 <= i < hex(bytes).len() ==> is_hex_digit(#[trigger] hex(bytes)[i]),
    decreases bytes.len(),
{
    if bytes.len() > 0 {
        hex_is_lower_case(bytes.drop_last());
    }
}

/// Different bytes have different hex.
pub proof fn hex_is_faithful(a: Seq<u8>, b: Seq<u8>)
    requires
        hex(a) == hex(b),
    ensures
        a == b,
    decreases a.len(),
{
    hex_is_lower_case(a);
    hex_is_lower_case(b);
    if a.len() > 0 {
        let x = hex(a);
        let y = hex(b);
        assert(x.drop_last().drop_last() =~= hex(a.drop_last()));
        assert(y.drop_last().drop_last() =~= hex(b.drop_last()));
        hex_is_faithful(a.drop_last(), b.drop_last());
        let m = a.last() as int;
        let n = b.last() as int;
        assert(x[x.len() - 2] == hex_digit(m / 16) && x.last() == hex_digit(m % 16));
        assert(y[y.len() - 2] == hex_digit(n / 16) && y.last() == hex_digit(n % 16));
        assert(m / 16 == n / 16 && m % 16 == n % 16);
        assert(a =~= a.drop_last().push(a.last()));
        assert(b =~= b.drop_last().push(b.last()));
    } else {
        assert(a =~= b);
    }
}

/// Different ids are hashed from different bytes.
pub proof fn id_bytes_are_faithful(a: i64, b: i64)
    requires
        id_bytes(a) == id_bytes(b),
    ensures
        a == b,
{
    lemma_auto_spec_u64_to_from_le_bytes();
    assert(a as u64 == b as u64);
    assert(a as u64 == b as u64 ==> a == b) by (bit_vector);
}

} // verus!
