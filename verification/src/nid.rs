use vstd::prelude::*;
use vstd::bytes::{spec_u64_from_le_bytes, u64_from_le_bytes};
use vstd::slice::slice_subrange;
use sha1::Digest;

verus! {

/// The SHA-1 digest of a byte sequence. Its value is given only by the
/// trusted wrapper below; the library states nothing else about it.
pub uninterp spec fn sha1_of(data: Seq<u8>) -> Seq<u8>;

/// Relies on `sha1::Sha1` (RustCrypto) through the `Digest` trait: the
/// digest is a pure function of the input bytes, twenty bytes long.
#[verifier::external_body]
fn sha1_digest(data: &Vec<u8>) -> (r: Vec<u8>)
    ensures
        r@ == sha1_of(data@),
        r@.len() == 20,
{
    sha1::Sha1::digest(data.as_slice()).to_vec()
}

/// The alphabet used by the vendor's symbol hashing: `A-Z`, `a-z`, `0-9`,
/// `+`, `-`, as the byte for index `i`.
pub open spec fn spec_nid_char(i: int) -> u8 {
    if 0 <= i < 26 {
        (65 + i) as u8  // 'A'..='Z'
    } else if 26 <= i < 52 {
        (97 + (i - 26)) as u8  // 'a'..='z'
    } else if 52 <= i < 62 {
        (48 + (i - 52)) as u8  // '0'..='9'
    } else if i == 62 {
        43u8  // '+'
    } else {
        45u8  // '-'
    }
}

fn nid_char(i: u8) -> (c: u8)
    requires
        i < 64,
    ensures
        c == spec_nid_char(i as int),
{
    if i < 26 {
        65 + i
    } else if i < 52 {
        97 + (i - 26)
    } else if i < 62 {
        48 + (i - 52)
    } else if i == 62 {
        43
    } else {
        45
    }
}

/// The fixed sixteen-byte salt appended to a name before hashing.
pub open spec fn spec_nid_salt() -> Seq<u8> {
    seq![
        0x51u8, 0x8du8, 0x64u8, 0xa6u8, 0x35u8, 0xdeu8, 0xd8u8, 0xc1u8,
        0xe6u8, 0xb0u8, 0x39u8, 0xb1u8, 0xc3u8, 0xe5u8, 0x52u8, 0x30u8,
    ]
}

fn nid_salt() -> (r: Vec<u8>)
    ensures
        r@ == spec_nid_salt(),
{
    let mut r: Vec<u8> = Vec::new();
    r.push(0x51); r.push(0x8d); r.push(0x64); r.push(0xa6);
    r.push(0x35); r.push(0xde); r.push(0xd8); r.push(0xc1);
    r.push(0xe6); r.push(0xb0); r.push(0x39); r.push(0xb1);
    r.push(0xc3); r.push(0xe5); r.push(0x52); r.push(0x30);
    proof {
        assert(r@ =~= spec_nid_salt());
    }
    r
}

/// The eleven-character encoding of a 64-bit hash: ten 6-bit windows from
/// the top, then the lowest four bits scaled by four into the alphabet.
pub open spec fn spec_nid_encode(h: u64) -> Seq<u8> {
    seq![
        spec_nid_char((h >> 58) as int),
        spec_nid_char(((h >> 52) & 0x3f) as int),
        spec_nid_char(((h >> 46) & 0x3f) as int),
        spec_nid_char(((h >> 40) & 0x3f) as int),
        spec_nid_char(((h >> 34) & 0x3f) as int),
        spec_nid_char(((h >> 28) & 0x3f) as int),
        spec_nid_char(((h >> 22) & 0x3f) as int),
        spec_nid_char(((h >> 16) & 0x3f) as int),
        spec_nid_char(((h >> 10) & 0x3f) as int),
        spec_nid_char(((h >> 4) & 0x3f) as int),
        spec_nid_char(((h & 0xf) * 4) as int),
    ]
}

/// The vendor's hashed symbol name for `name`: the low 64 bits of
/// SHA-1(name ‖ salt), encoded into eleven alphabet bytes.
pub open spec fn spec_nid(name: Seq<u8>) -> Seq<u8> {
    spec_nid_encode(spec_u64_from_le_bytes(sha1_of(name + spec_nid_salt()).take(8)))
}

/// Computes the hashed symbol name for `name`.
pub fn get_nid(name: &Vec<u8>) -> (r: Vec<u8>)
    ensures
        r@ == spec_nid(name@),
{
    // Hash name followed by the fixed salt.
    let mut input: Vec<u8> = Vec::new();
    let mut i: usize = 0;
    while i < name.len()
        invariant
            0 <= i <= name@.len(),
            input@ == name@.subrange(0, i as int),
        decreases name@.len() - i,
    {
        input.push(name[i]);
        proof {
            assert(input@ =~= name@.subrange(0, i + 1));
        }
        i = i + 1;
    }
    let salt = nid_salt();
    let mut j: usize = 0;
    while j < salt.len()
        invariant
            0 <= j <= salt@.len(),
            salt@ == spec_nid_salt(),
            input@ == name@ + salt@.subrange(0, j as int),
        decreases salt@.len() - j,
    {
        input.push(salt[j]);
        proof {
            assert(input@ =~= name@ + salt@.subrange(0, j + 1));
        }
        j = j + 1;
    }
    proof {
        assert(input@ =~= name@ + spec_nid_salt());
    }
    let digest = sha1_digest(&input);

    // The low 64 bits of the digest.
    let h = u64_from_le_bytes(slice_subrange(digest.as_slice(), 0, 8));
    proof {
        assert(digest@.subrange(0, 8) =~= sha1_of(name@ + spec_nid_salt()).take(8));
    }

    // Encode into the alphabet.
    proof {
        assert((h >> 58) < 64 && ((h >> 52) & 0x3f) < 64 && ((h >> 46) & 0x3f) < 64
            && ((h >> 40) & 0x3f) < 64 && ((h >> 34) & 0x3f) < 64 && ((h >> 28) & 0x3f) < 64
            && ((h >> 22) & 0x3f) < 64 && ((h >> 16) & 0x3f) < 64 && ((h >> 10) & 0x3f) < 64
            && ((h >> 4) & 0x3f) < 64 && (h & 0xf) * 4 < 64) by (bit_vector);
    }
    let mut r: Vec<u8> = Vec::new();
    r.push(nid_char((h >> 58) as u8));
    r.push(nid_char(((h >> 52) & 0x3f) as u8));
    r.push(nid_char(((h >> 46) & 0x3f) as u8));
    r.push(nid_char(((h >> 40) & 0x3f) as u8));
    r.push(nid_char(((h >> 34) & 0x3f) as u8));
    r.push(nid_char(((h >> 28) & 0x3f) as u8));
    r.push(nid_char(((h >> 22) & 0x3f) as u8));
    r.push(nid_char(((h >> 16) & 0x3f) as u8));
    r.push(nid_char(((h >> 10) & 0x3f) as u8));
    r.push(nid_char(((h >> 4) & 0x3f) as u8));
    r.push(nid_char(((h & 0xf) * 4) as u8));
    proof {
        assert(r@ =~= spec_nid(name@));
    }
    r
}

} // verus!
