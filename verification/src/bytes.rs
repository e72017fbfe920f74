//! Fixed-width integers in byte sequences, and edits of byte vectors.

use vstd::prelude::*;

verus! {

/// The two bytes of `v`, least significant first.
#[verifier::opaque]
pub open spec fn le16(v: u16) -> Seq<u8> {
    seq![(v % 256) as u8, (v / 256) as u8]
}

/// The four bytes of `v`, least significant first.
#[verifier::opaque]
pub open spec fn le32(v: u32) -> Seq<u8> {
    seq![
        (v % 256) as u8,
        (v / 256 % 256) as u8,
        (v / 65536 % 256) as u8,
        (v / 16777216) as u8,
    ]
}

/// The eight bytes of `v`, least significant first.
#[verifier::opaque]
pub open spec fn le64(v: u64) -> Seq<u8> {
    le32((v % 0x1_0000_0000) as u32) + le32((v / 0x1_0000_0000) as u32)
}

/// The four bytes of `v`, most significant first.
#[verifier::opaque]
pub open spec fn be32(v: u32) -> Seq<u8> {
    seq![
        (v / 16777216) as u8,
        (v / 65536 % 256) as u8,
        (v / 256 % 256) as u8,
        (v % 256) as u8,
    ]
}

/// The little-endian 16-bit value at index `i` of `s`.
#[verifier::opaque]
pub open spec fn u16_at(s: Seq<u8>, i: int) -> u16 {
    (s[i] + 256 * s[i + 1]) as u16
}

/// The little-endian 32-bit value at index `i` of `s`.
#[verifier::opaque]
pub open spec fn u32_at(s: Seq<u8>, i: int) -> u32 {
    (s[i] + 256 * s[i + 1] + 65536 * s[i + 2] + 16777216 * s[i + 3]) as u32
}

/// The little-endian 64-bit value at index `i` of `s`.
#[verifier::opaque]
pub open spec fn u64_at(s: Seq<u8>, i: int) -> u64 {
    (u32_at(s, i) + 0x1_0000_0000 * u32_at(s, i + 4)) as u64
}

/// `n` zero bytes.
pub open spec fn zeros(n: nat) -> Seq<u8> {
    Seq::new(n, |i: int| 0u8)
}

/// `s` with `b` written over it from index `at` on.
pub open spec fn overwrite(s: Seq<u8>, at: int, b: Seq<u8>) -> Seq<u8> {
    Seq::new(s.len(), |i: int| if at <= i < at + b.len() { b[i - at] } else { s[i] })
}

/// Whether the bytes of `s` from index `at` on are `b`.
pub open spec fn has_at(s: Seq<u8>, at: int, b: Seq<u8>) -> bool {
    &&& 0 <= at
    &&& at + b.len() <= s.len()
    &&& s.subrange(at, at + b.len()) == b
}

/// Reading a 16-bit value back from where its bytes stand gives the value.
pub proof fn law_u16_roundtrip(s: Seq<u8>, at: int, v: u16)
    requires
        has_at(s, at, le16(v)),
    ensures
        u16_at(s, at) == v,
{
    reveal(le16);
    reveal(u16_at);
    let sub = s.subrange(at, at + 2);
    assert(le16(v).len() == 2);
    assert(sub[0] == s[at] && sub[1] == s[at + 1]);
}

/// A 32-bit value is the sum of its bytes, each in its place.
proof fn lemma_u32_parts(v: u32)
    ensures
        v % 256 + 256 * (v / 256 % 256) + 65536 * (v / 65536 % 256) + 16777216 * (v / 16777216)
            == v,
        v / 16777216 < 256,
{
    let a = v / 256;
    let b = v / 65536;
    assert(b == a / 256);
    assert(v / 16777216 == b / 256);
    assert(v == 256 * a + v % 256);
    assert(a == 256 * b + a % 256);
    assert(b == 256 * (b / 256) + b % 256);
}

/// Reading a 32-bit value back from where its bytes stand gives the value.
pub proof fn law_u32_roundtrip(s: Seq<u8>, at: int, v: u32)
    requires
        has_at(s, at, le32(v)),
    ensures
        u32_at(s, at) == v,
{
    reveal(le32);
    reveal(u32_at);
    lemma_u32_parts(v);
    let b = le32(v);
    let sub = s.subrange(at, at + 4);
    assert(sub == b);
    assert(s[at] == sub[0]);
    assert(s[at + 1] == sub[1]);
    assert(s[at + 2] == sub[2]);
    assert(s[at + 3] == sub[3]);
}

/// Reading a 64-bit value back from where its bytes stand gives the value.
pub proof fn law_u64_roundtrip(s: Seq<u8>, at: int, v: u64)
    requires
        has_at(s, at, le64(v)),
    ensures
        u64_at(s, at) == v,
{
    reveal(le64);
    reveal(u64_at);
    reveal(le32);
    let low = (v % 0x1_0000_0000) as u32;
    let high = (v / 0x1_0000_0000) as u32;
    assert(le32(low).len() == 4 && le32(high).len() == 4);
    assert(s.subrange(at, at + 4) =~= s.subrange(at, at + 8).subrange(0, 4));
    assert(s.subrange(at, at + 8).subrange(0, 4) =~= le32(low));
    assert(s.subrange(at + 4, at + 8) =~= s.subrange(at, at + 8).subrange(4, 8));
    assert(s.subrange(at, at + 8).subrange(4, 8) =~= le32(high));
    law_u32_roundtrip(s, at, low);
    law_u32_roundtrip(s, at + 4, high);
}

/// Where `b` was written over `s`, `b` stands.
pub proof fn lemma_overwrite_has(s: Seq<u8>, at: int, b: Seq<u8>)
    requires
        0 <= at,
        at + b.len() <= s.len(),
    ensures
        has_at(overwrite(s, at, b), at, b),
{
    assert(overwrite(s, at, b).subrange(at, at + b.len()) =~= b);
}

/// Values that do not touch the bytes written over keep their values.
pub proof fn lemma_overwrite_elsewhere(s: Seq<u8>, at: int, b: Seq<u8>, i: int)
    requires
        0 <= at,
        at + b.len() <= s.len(),
        0 <= i,
    ensures
        i + 2 <= s.len() && (i + 2 <= at || at + b.len() <= i) ==> u16_at(overwrite(s, at, b), i)
            == u16_at(s, i),
        i + 4 <= s.len() && (i + 4 <= at || at + b.len() <= i) ==> u32_at(overwrite(s, at, b), i)
            == u32_at(s, i),
{
    reveal(u16_at);
    reveal(u32_at);
}

/// A 16-bit value of a concatenation is one of its first or of its second part.
pub broadcast proof fn lemma_u16_concat(a: Seq<u8>, b: Seq<u8>, i: int)
    requires
        0 <= i,
        i + 2 <= a.len() || (a.len() <= i && i + 2 <= a.len() + b.len()),
    ensures
        #[trigger] u16_at(a + b, i) == if i + 2 <= a.len() {
            u16_at(a, i)
        } else {
            u16_at(b, i - a.len())
        },
{
    reveal(u16_at);
}

/// A 32-bit value of a concatenation is one of its first or of its second part.
pub broadcast proof fn lemma_u32_concat(a: Seq<u8>, b: Seq<u8>, i: int)
    requires
        0 <= i,
        i + 4 <= a.len() || (a.len() <= i && i + 4 <= a.len() + b.len()),
    ensures
        #[trigger] u32_at(a + b, i) == if i + 4 <= a.len() {
            u32_at(a, i)
        } else {
            u32_at(b, i - a.len())
        },
{
    reveal(u32_at);
}

/// A 64-bit value of a concatenation is one of its first or of its second part.
pub broadcast proof fn lemma_u64_concat(a: Seq<u8>, b: Seq<u8>, i: int)
    requires
        0 <= i,
        i + 8 <= a.len() || (a.len() <= i && i + 8 <= a.len() + b.len()),
    ensures
        #[trigger] u64_at(a + b, i) == if i + 8 <= a.len() {
            u64_at(a, i)
        } else {
            u64_at(b, i - a.len())
        },
{
    reveal(u64_at);
    reveal(u32_at);
}

/// A run of a concatenation is one of its first or of its second part.
pub broadcast proof fn lemma_subrange_concat(a: Seq<u8>, b: Seq<u8>, i: int, j: int)
    requires
        0 <= i <= j <= a.len() + b.len(),
        j <= a.len() || a.len() <= i,
    ensures
        #[trigger] (a + b).subrange(i, j) == if j <= a.len() {
            a.subrange(i, j)
        } else {
            b.subrange(i - a.len(), j - a.len())
        },
{
    if j <= a.len() {
        assert((a + b).subrange(i, j) =~= a.subrange(i, j));
    } else {
        assert((a + b).subrange(i, j) =~= b.subrange(i - a.len(), j - a.len()));
    }
}

/// The bytes of a 16-bit value hold the value.
pub broadcast proof fn lemma_u16_bytes(v: u16, i: int)
    requires
        i == 0,
    ensures
        #[trigger] u16_at(le16(v), i) == v,
{
    reveal(le16);
    reveal(u16_at);
}

/// The bytes of a 32-bit value hold the value.
pub broadcast proof fn lemma_u32_bytes(v: u32, i: int)
    requires
        i == 0,
    ensures
        #[trigger] u32_at(le32(v), i) == v,
{
    lemma_u32_parts(v);
    reveal(le32);
    reveal(u32_at);
}

/// The bytes of a 64-bit value hold the value.
pub broadcast proof fn lemma_u64_bytes(v: u64, i: int)
    requires
        i == 0,
    ensures
        #[trigger] u64_at(le64(v), i) == v,
{
    reveal(le64);
    reveal(le32);
    assert(le64(v).subrange(0, 8) =~= le64(v));
    law_u64_roundtrip(le64(v), 0, v);
}

/// The lengths of the bytes of integers.
pub broadcast proof fn lemma_le16_len(v: u16)
    ensures
        #[trigger] le16(v).len() == 2,
{
    reveal(le16);
}

pub broadcast proof fn lemma_le32_len(v: u32)
    ensures
        #[trigger] le32(v).len() == 4,
{
    reveal(le32);
}

pub broadcast proof fn lemma_le64_len(v: u64)
    ensures
        #[trigger] le64(v).len() == 8,
{
    reveal(le64);
    reveal(le32);
}

pub broadcast group group_int_len {
    lemma_le16_len,
    lemma_le32_len,
    lemma_le64_len,
}

pub broadcast group group_byte_layout {
    lemma_u16_concat,
    lemma_u32_concat,
    lemma_u64_concat,
    lemma_subrange_concat,
    lemma_u16_bytes,
    lemma_u32_bytes,
    lemma_u64_bytes,
    lemma_le16_len,
    lemma_le32_len,
    lemma_le64_len,
}

/// Reads the 16-bit value at index `i`.
pub fn get_u16(s: &[u8], i: usize) -> (r: u16)
    requires
        i + 2 <= s@.len(),
    ensures
        r == u16_at(s@, i as int),
{
    proof {
        reveal(u16_at);
    }
    s[i] as u16 + 256 * (s[i + 1] as u16)
}

/// Reads the 32-bit value at index `i`.
pub fn get_u32(s: &[u8], i: usize) -> (r: u32)
    requires
        i + 4 <= s@.len(),
    ensures
        r == u32_at(s@, i as int),
{
    proof {
        reveal(u32_at);
    }
    s[i] as u32 + 256 * (s[i + 1] as u32) + 65536 * (s[i + 2] as u32) + 16777216 * (s[i + 3] as u32)
}

/// Reads the 64-bit value at index `i`.
pub fn get_u64(s: &[u8], i: usize) -> (r: u64)
    requires
        i + 8 <= s@.len(),
    ensures
        r == u64_at(s@, i as int),
{
    proof {
        reveal(u64_at);
    }
    assert(s.len() == s@.len());
    get_u32(s, i) as u64 + 0x1_0000_0000 * (get_u32(s, i + 4) as u64)
}

/// Appends the bytes of a 16-bit value.
pub fn put_u16(out: &mut Vec<u8>, v: u16)
    ensures
        final(out)@ == old(out)@ + le16(v),
{
    proof {
        reveal(le16);
    }
    out.push((v % 256) as u8);
    out.push((v / 256) as u8);
    assert(out@ =~= old(out)@ + le16(v));
}

/// Appends the bytes of a 32-bit value.
pub fn put_u32(out: &mut Vec<u8>, v: u32)
    ensures
        final(out)@ == old(out)@ + le32(v),
{
    proof {
        reveal(le32);
    }
    out.push((v % 256) as u8);
    out.push((v / 256 % 256) as u8);
    out.push((v / 65536 % 256) as u8);
    out.push((v / 16777216) as u8);
    assert(out@ =~= old(out)@ + le32(v));
}

/// Appends the bytes of a 64-bit value.
pub fn put_u64(out: &mut Vec<u8>, v: u64)
    ensures
        final(out)@ == old(out)@ + le64(v),
{
    proof {
        reveal(le64);
    }
    put_u32(out, (v % 0x1_0000_0000) as u32);
    put_u32(out, (v / 0x1_0000_0000) as u32);
    assert(out@ =~= old(out)@ + le64(v));
}

/// Appends the bytes of a 32-bit value, most significant first.
pub fn put_u32_be(out: &mut Vec<u8>, v: u32)
    ensures
        final(out)@ == old(out)@ + be32(v),
{
    proof {
        reveal(be32);
    }
    out.push((v / 16777216) as u8);
    out.push((v / 65536 % 256) as u8);
    out.push((v / 256 % 256) as u8);
    out.push((v % 256) as u8);
    assert(out@ =~= old(out)@ + be32(v));
}

/// Appends one byte.
pub fn put_u8(out: &mut Vec<u8>, v: u8)
    ensures
        final(out)@ == old(out)@ + seq![v],
{
    out.push(v);
    assert(out@ =~= old(out)@ + seq![v]);
}

/// Appends a byte string.
pub fn put_bytes(out: &mut Vec<u8>, b: &[u8])
    ensures
        final(out)@ == old(out)@ + b@,
{
    out.extend_from_slice(b);
}

/// Appends `n` zero bytes.
pub fn put_zeros(out: &mut Vec<u8>, n: usize)
    ensures
        final(out)@ == old(out)@ + zeros(n as nat),
{
    let ghost before = out@;
    let mut i: usize = 0;
    while i < n
        invariant
            i <= n,
            out@ == before + zeros(i as nat),
        decreases n - i,
    {
        out.push(0u8);
        i = i + 1;
        assert(out@ =~= before + zeros(i as nat));
    }
}

/// Writes `b` over `out` from index `at` on.
pub fn write_at(out: &mut Vec<u8>, at: usize, b: &[u8])
    requires
        at + b@.len() <= old(out)@.len(),
    ensures
        final(out)@ == overwrite(old(out)@, at as int, b@),
{
    let ghost before = out@;
    assert(out.len() == before.len());
    let mut i: usize = 0;
    while i < b.len()
        invariant
            i <= b@.len(),
            at + b@.len() <= before.len() <= usize::MAX,
            out@.len() == before.len(),
            out@ == overwrite(before, at as int, b@.take(i as int)),
        decreases b@.len() - i,
    {
        out.set(at + i, b[i]);
        i = i + 1;
        assert(out@ =~= overwrite(before, at as int, b@.take(i as int)));
    }
    assert(b@.take(b@.len() as int) =~= b@);
    assert(out@ =~= overwrite(before, at as int, b@));
}

/// Copies sixteen bytes from index `at` on.
pub fn copy_16(s: &[u8], at: usize) -> (r: [u8; 16])
    requires
        at + 16 <= s@.len(),
    ensures
        r@ == s@.subrange(at as int, at + 16),
{
    assert(s.len() == s@.len());
    let mut out: [u8; 16] = [0u8; 16];
    let mut i: usize = 0;
    while i < 16
        invariant
            i <= 16,
            out@.len() == 16,
            at + 16 <= s@.len() <= usize::MAX,
            forall|j: int| 0 <= j < i ==> out@[j] == s@[at + j],
        decreases 16 - i,
    {
        out[i] = s[at + i];
        i = i + 1;
    }
    assert(out@ =~= s@.subrange(at as int, at + 16));
    out
}

/// Copies eight bytes from index `at` on.
pub fn copy_8(s: &[u8], at: usize) -> (r: [u8; 8])
    requires
        at + 8 <= s@.len(),
    ensures
        r@ == s@.subrange(at as int, at + 8),
{
    assert(s.len() == s@.len());
    let mut out: [u8; 8] = [0u8; 8];
    let mut i: usize = 0;
    while i < 8
        invariant
            i <= 8,
            out@.len() == 8,
            at + 8 <= s@.len() <= usize::MAX,
            forall|j: int| 0 <= j < i ==> out@[j] == s@[at + j],
        decreases 8 - i,
    {
        out[i] = s[at + i];
        i = i + 1;
    }
    assert(out@ =~= s@.subrange(at as int, at + 8));
    out
}

/// Copies a byte string.
pub fn copy_bytes(s: &[u8]) -> (r: Vec<u8>)
    ensures
        r@ == s@,
{
    let mut out: Vec<u8> = Vec::new();
    out.extend_from_slice(s);
    assert(out@ =~= s@);
    out
}

/// Whether two byte strings are equal.
pub fn same_bytes(a: &[u8], b: &[u8]) -> (r: bool)
    ensures
        r == (a@ == b@),
{
    if a.len() != b.len() {
        return false;
    }
    let mut i: usize = 0;
    while i < a.len()
        invariant
            i <= a@.len(),
            a@.len() == b@.len(),
            forall|j: int| 0 <= j < i ==> a@[j] == b@[j],
        decreases a@.len() - i,
    {
        if a[i] != b[i] {
            return false;
        }
        i = i + 1;
    }
    assert(a@ =~= b@);
    true
}

/// Whether `s` begins with `prefix`.
pub open spec fn begins_with(s: Seq<u8>, prefix: Seq<u8>) -> bool {
    prefix.len() <= s.len() && s.take(prefix.len() as int) == prefix
}

/// Whether a byte string begins with another.
pub fn has_prefix(s: &[u8], prefix: &[u8]) -> (r: bool)
    ensures
        r == begins_with(s@, prefix@),
{
    if s.len() < prefix.len() {
        return false;
    }
    assert(s@.take(prefix@.len() as int) =~= s@.subrange(0, prefix@.len() as int));
    same_bytes(&s[0..prefix.len()], prefix)
}

} // verus!
