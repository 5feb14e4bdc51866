use vstd::prelude::*;
use vstd::bytes::{spec_u64_to_le_bytes, spec_u64_from_le_bytes, u64_to_le_bytes, u64_from_le_bytes};
use vstd::slice::slice_subrange;

verus! {

/// Byte-wise equality of two byte vectors.
pub fn bytes_eq(a: &Vec<u8>, b: &Vec<u8>) -> (r: bool)
    ensures
        r == (a@ == b@),
{
    if a.len() != b.len() {
        assert(a@ != b@) by {
            assert(a@.len() != b@.len());
        }
        return false;
    }
    let n = a.len();
    let mut i: usize = 0;
    while i < n
        invariant
            n == a@.len() == b@.len(),
            0 <= i <= n,
            forall|j: int| 0 <= j < i ==> a@[j] == b@[j],
        decreases n - i,
    {
        if a[i] != b[i] {
            return false;
        }
        i = i + 1;
    }
    proof {
        assert(a@ =~= b@);
    }
    true
}

/// Whether a list of names contains the given name.
pub fn names_contain(names: &Vec<Vec<u8>>, name: &Vec<u8>) -> (r: bool)
    ensures
        r == names@.map_values(|n: Vec<u8>| n@).contains(name@),
{
    let ghost views = names@.map_values(|n: Vec<u8>| n@);
    let mut i: usize = 0;
    while i < names.len()
        invariant
            0 <= i <= names@.len(),
            views == names@.map_values(|n: Vec<u8>| n@),
            forall|j: int| 0 <= j < i ==> views[j] != name@,
        decreases names@.len() - i,
    {
        if bytes_eq(&names[i], name) {
            assert(views[i as int] == name@);
            return true;
        }
        i = i + 1;
    }
    assert(!views.contains(name@));
    false
}

/// The smallest multiple of `align` that is at least `x`.
pub open spec fn spec_align_up(x: int, align: int) -> int {
    ((x + align - 1) / align) * align
}

/// Rounds `x` up to the next multiple of `align`.
pub fn align_up(x: usize, align: usize) -> (r: usize)
    requires
        align >= 1,
        x + align <= usize::MAX,
    ensures
        r == spec_align_up(x as int, align as int),
{
    let rem = x % align;
    if rem == 0 {
        proof {
            lemma_align_up_exact(x as int, align as int);
        }
        x
    } else {
        proof {
            lemma_align_up_inexact(x as int, align as int);
            assert(rem <= x) by {
                vstd::arithmetic::div_mod::lemma_mod_decreases(x as nat, align as nat);
            }
        }
        x - rem + align
    }
}

/// Alignment never moves a value down, and by less than one alignment up.
pub proof fn lemma_align_up_ge(x: int, align: int)
    requires
        align >= 1,
        x >= 0,
    ensures
        x <= spec_align_up(x, align) < x + align,
{
    let q = (x + align - 1) / align;
    let r = (x + align - 1) % align;
    assert(x + align - 1 == q * align + r && 0 <= r < align) by {
        vstd::arithmetic::div_mod::lemma_fundamental_div_mod(x + align - 1, align);
    }
}

/// Alignment is monotone.
pub proof fn lemma_align_up_mono(x: int, y: int, align: int)
    requires
        align >= 1,
        0 <= x <= y,
    ensures
        spec_align_up(x, align) <= spec_align_up(y, align),
{
    assert((x + align - 1) / align <= (y + align - 1) / align) by {
        vstd::arithmetic::div_mod::lemma_div_is_ordered(x + align - 1, y + align - 1, align);
    }
    assert(((x + align - 1) / align) * align <= ((y + align - 1) / align) * align) by {
        vstd::arithmetic::mul::lemma_mul_inequality(
            (x + align - 1) / align, (y + align - 1) / align, align);
    }
}

/// A multiple of the alignment is already aligned.
pub proof fn lemma_align_up_exact(x: int, align: int)
    requires
        align >= 1,
        x >= 0,
        x % align == 0,
    ensures
        spec_align_up(x, align) == x,
{
    let q = x / align;
    assert(x == q * align + x % align) by {
        vstd::arithmetic::div_mod::lemma_fundamental_div_mod(x, align);
    }
    assert((q * align + align - 1) / align == q) by {
        vstd::arithmetic::div_mod::lemma_fundamental_div_mod_converse(
            q * align + align - 1, align, q, align - 1);
    }
}

pub proof fn lemma_align_up_inexact(x: int, align: int)
    requires
        align >= 1,
        x >= 0,
        x % align != 0,
    ensures
        spec_align_up(x, align) == x - x % align + align,
{
    let q = x / align;
    let r = x % align;
    assert(x == q * align + r && 0 <= r < align) by {
        vstd::arithmetic::div_mod::lemma_fundamental_div_mod(x, align);
    }
    assert(x + align - 1 == (q + 1) * align + (r - 1)) by (nonlinear_arith)
        requires x == q * align + r;
    assert((x + align - 1) / align == q + 1) by {
        vstd::arithmetic::div_mod::lemma_fundamental_div_mod_converse(
            x + align - 1, align, q + 1, r - 1);
    }
    assert((q + 1) * align == q * align + align) by (nonlinear_arith);
}

/// `mem` with the eight bytes starting at `off` replaced by the
/// little-endian encoding of `v`.
pub open spec fn spec_write_word(mem: Seq<u8>, off: int, v: u64) -> Seq<u8> {
    mem.subrange(0, off) + spec_u64_to_le_bytes(v) + mem.subrange(off + 8, mem.len() as int)
}

/// Writes `v` at `off` as a native-width little-endian value.
pub fn write_word(mem: &mut Vec<u8>, off: usize, v: u64)
    requires
        off + 8 <= old(mem)@.len(),
    ensures
        final(mem)@ == spec_write_word(old(mem)@, off as int, v),
        final(mem)@.len() == old(mem)@.len(),
{
    let bytes = u64_to_le_bytes(v);
    proof {
        vstd::bytes::lemma_auto_spec_u64_to_from_le_bytes();
    }
    let n = mem.len();
    let mut k: usize = 0;
    while k < 8
        invariant
            0 <= k <= 8,
            off + 8 <= n,
            n == mem@.len(),
            mem@.len() == old(mem)@.len(),
            bytes@ == spec_u64_to_le_bytes(v),
            bytes@.len() == 8,
            forall|j: int| 0 <= j < k ==> mem@[off + j] == bytes@[j],
            forall|j: int| 0 <= j < mem@.len() && !(off <= j < off + k) ==> mem@[j] == old(mem)@[j],
        decreases 8 - k,
    {
        mem.set(off + k, bytes[k]);
        k = k + 1;
    }
    proof {
        assert(mem@ =~= spec_write_word(old(mem)@, off as int, v));
    }
}

/// Reads the native-width little-endian value stored at `off`.
pub fn read_word(mem: &Vec<u8>, off: usize) -> (v: u64)
    requires
        off + 8 <= mem@.len(),
    ensures
        v == spec_u64_from_le_bytes(mem@.subrange(off as int, off + 8)),
{
    let n = mem.len();
    assert(off + 8 <= n);
    let s = slice_subrange(mem.as_slice(), off, off + 8);
    u64_from_le_bytes(s)
}

/// `mem` with the bytes starting at `off` replaced by `b`.
pub open spec fn spec_splice(mem: Seq<u8>, off: int, b: Seq<u8>) -> Seq<u8> {
    mem.subrange(0, off) + b + mem.subrange(off + b.len(), mem.len() as int)
}

/// Copies `src` into `mem` starting at `off`.
pub fn splice_copy(mem: &mut Vec<u8>, off: usize, src: &Vec<u8>)
    requires
        off + src@.len() <= old(mem)@.len(),
    ensures
        final(mem)@ == spec_splice(old(mem)@, off as int, src@),
        final(mem)@.len() == old(mem)@.len(),
{
    let n = mem.len();
    let count = src.len();
    let mut k: usize = 0;
    while k < count
        invariant
            0 <= k <= count,
            count == src@.len(),
            off + count <= n,
            n == mem@.len(),
            mem@.len() == old(mem)@.len(),
            forall|j: int| 0 <= j < k ==> mem@[off + j] == src@[j],
            forall|j: int| 0 <= j < mem@.len() && !(off <= j < off + k) ==> mem@[j] == old(mem)@[j],
        decreases count - k,
    {
        mem.set(off + k, src[k]);
        k = k + 1;
    }
    proof {
        assert(mem@ =~= spec_splice(old(mem)@, off as int, src@));
    }
}

/// A fresh copy of a byte vector.
pub fn clone_bytes(v: &Vec<u8>) -> (r: Vec<u8>)
    ensures
        r@ == v@,
{
    let mut r: Vec<u8> = Vec::new();
    let mut i: usize = 0;
    while i < v.len()
        invariant
            0 <= i <= v@.len(),
            r@ == v@.subrange(0, i as int),
        decreases v@.len() - i,
    {
        r.push(v[i]);
        proof {
            assert(r@ =~= v@.subrange(0, i + 1));
        }
        i = i + 1;
    }
    proof {
        assert(r@ =~= v@);
    }
    r
}

/// The bytes of a character sequence, one byte per character.
pub open spec fn spec_ascii(s: Seq<char>) -> Seq<u8> {
    Seq::new(s.len(), |i: int| s[i] as u8)
}

/// The bytes of a string constant, for comparing names against the
/// well-known library names the loader treats specially.
pub fn ascii_bytes(s: &str) -> (r: Vec<u8>)
    ensures
        r@ == spec_ascii(s@),
{
    let n = s.unicode_len();
    let mut r: Vec<u8> = Vec::new();
    let mut i: usize = 0;
    while i < n
        invariant
            0 <= i <= n,
            n == s@.len(),
            r@ == spec_ascii(s@).subrange(0, i as int),
        decreases n - i,
    {
        let c = s.get_char(i);
        r.push(#[verifier::truncate] (c as u8));
        proof {
            assert(r@ =~= spec_ascii(s@).subrange(0, i + 1));
        }
        i = i + 1;
    }
    proof {
        assert(r@ =~= spec_ascii(s@));
    }
    r
}

/// The file name of a path: the suffix after the last `/` byte.
pub open spec fn spec_file_name(s: Seq<u8>) -> Seq<u8>
    decreases s.len(),
{
    if s.len() == 0 {
        Seq::empty()
    } else if s[s.len() - 1] == 47u8 {
        Seq::empty()
    } else {
        spec_file_name(s.drop_last()).push(s.last())
    }
}

proof fn lemma_file_name_suffix(s: Seq<u8>, k: int)
    requires
        0 <= k <= s.len(),
        forall|j: int| k <= j < s.len() ==> s[j] != 47u8,
        k == 0 || s[k - 1] == 47u8,
    ensures
        spec_file_name(s) == s.subrange(k, s.len() as int),
    decreases s.len() - k,
{
    if k == s.len() {
        if s.len() == 0 {
            assert(spec_file_name(s) =~= s.subrange(k, s.len() as int));
        } else {
            assert(s[s.len() - 1] == 47u8);
            assert(spec_file_name(s) =~= s.subrange(k, s.len() as int));
        }
    } else {
        let t = s.drop_last();
        if k == s.len() - 1 {
            // the last byte is the whole file name
            if s.len() == 1 {
                assert(spec_file_name(t) =~= Seq::<u8>::empty()) by {
                    assert(t.len() == 0);
                }
            } else {
                assert(t[t.len() - 1] == 47u8);
                assert(spec_file_name(t) =~= Seq::<u8>::empty());
            }
            assert(spec_file_name(s) =~= s.subrange(k, s.len() as int));
        } else {
            lemma_file_name_suffix(t, k);
            assert(spec_file_name(s) =~= s.subrange(k, s.len() as int));
        }
    }
}

/// Extracts the file name of `path`: the bytes after the last `/`.
pub fn file_name(path: &Vec<u8>) -> (r: Vec<u8>)
    ensures
        r@ == spec_file_name(path@),
{
    let n = path.len();
    let mut k: usize = n;
    while k > 0 && path[k - 1] != 47u8
        invariant
            0 <= k <= n,
            n == path@.len(),
            forall|j: int| k <= j < n ==> path@[j] != 47u8,
        decreases k,
    {
        k = k - 1;
    }
    proof {
        lemma_file_name_suffix(path@, k as int);
    }
    let mut r: Vec<u8> = Vec::new();
    let mut i: usize = k;
    while i < n
        invariant
            k <= i <= n,
            n == path@.len(),
            r@ == path@.subrange(k as int, i as int),
        decreases n - i,
    {
        r.push(path[i]);
        proof {
            assert(r@ =~= path@.subrange(k as int, i + 1));
        }
        i = i + 1;
    }
    proof {
        assert(r@ =~= path@.subrange(k as int, n as int));
    }
    r
}

} // verus!
