//! Little-endian integers in byte sequences.
//!
//! The specifications are written with plain arithmetic on the bytes, so that
//! a contract over them can be checked on concrete values.
use vstd::prelude::*;

verus! {

/// The 16-bit value that the two bytes at `at` hold.
pub open spec fn le_u16(s: Seq<u8>, at: int) -> u16 {
    (s[at] as int + 0x100 * (s[at + 1] as int)) as u16
}

/// The 32-bit value that the four bytes at `at` hold.
pub open spec fn le_u32(s: Seq<u8>, at: int) -> u32 {
    (s[at] as int + 0x100 * (s[at + 1] as int) + 0x1_0000 * (s[at + 2] as int) + 0x100_0000 * (
    s[at + 3] as int)) as u32
}

/// The two bytes that hold `x`.
pub open spec fn u16_le(x: u16) -> Seq<u8> {
    seq![(x % 0x100) as u8, (x / 0x100) as u8]
}

/// The four bytes that hold `x`.
pub open spec fn u32_le(x: u32) -> Seq<u8> {
    seq![
        (x % 0x100) as u8,
        (x / 0x100 % 0x100) as u8,
        (x / 0x1_0000 % 0x100) as u8,
        (x / 0x100_0000) as u8,
    ]
}

/// `s` with the bytes from `at` on replaced by `patch`.
pub open spec fn overwrite(s: Seq<u8>, at: int, patch: Seq<u8>) -> Seq<u8> {
    Seq::new(s.len(), |i: int| if at <= i < at + patch.len() { patch[i - at] } else { s[i] })
}

pub fn read_u16(src: &[u8], at: usize) -> (x: u16)
    requires
        at + 2 <= src@.len(),
    ensures
        x == le_u16(src@, at as int),
{
    let b0: u16 = src[at] as u16;
    let b1: u16 = src[at + 1] as u16;
    b0 + 0x100 * b1
}

pub fn read_u32(src: &[u8], at: usize) -> (x: u32)
    requires
        at + 4 <= src@.len(),
    ensures
        x == le_u32(src@, at as int),
{
    let b0: u32 = src[at] as u32;
    let b1: u32 = src[at + 1] as u32;
    let b2: u32 = src[at + 2] as u32;
    let b3: u32 = src[at + 3] as u32;
    b0 + 0x100 * b1 + 0x1_0000 * b2 + 0x100_0000 * b3
}

/// Appends the two bytes of `x` to `out`.
pub fn put_u16(out: &mut Vec<u8>, x: u16)
    ensures
        final(out)@ == old(out)@ + u16_le(x),
{
    out.push((x % 0x100) as u8);
    out.push((x / 0x100) as u8);
    assert(out@ =~= old(out)@ + u16_le(x));
}

/// Appends the four bytes of `x` to `out`.
pub fn put_u32(out: &mut Vec<u8>, x: u32)
    ensures
        final(out)@ == old(out)@ + u32_le(x),
{
    out.push((x % 0x100) as u8);
    out.push((x / 0x100 % 0x100) as u8);
    out.push((x / 0x1_0000 % 0x100) as u8);
    out.push((x / 0x100_0000) as u8);
    assert(out@ =~= old(out)@ + u32_le(x));
}

/// Appends `src` to `out`.
pub fn put_bytes(out: &mut Vec<u8>, src: &[u8])
    ensures
        final(out)@ == old(out)@ + src@,
{
    let mut i: usize = 0;
    while i < src.len()
        invariant
            i <= src@.len(),
            out@ == old(out)@ + src@.subrange(0, i as int),
        decreases src@.len() - i,
    {
        out.push(src[i]);
        i += 1;
        assert(out@ =~= old(out)@ + src@.subrange(0, i as int));
    }
    assert(src@.subrange(0, i as int) =~= src@);
}

/// Reading back what `u16_le` wrote gives the value.
pub proof fn lemma_u16_round_trip(x: u16)
    ensures
        u16_le(x).len() == 2,
        le_u16(u16_le(x), 0) == x,
{
}

/// Reading back what `u32_le` wrote gives the value.
pub proof fn lemma_u32_round_trip(x: u32)
    ensures
        u32_le(x).len() == 4,
        le_u32(u32_le(x), 0) == x,
{
}

/// The digits of a number written in base 256 are its bytes.
proof fn lemma_base_256_digits(b0: int, b1: int, b2: int, b3: int)
    requires
        0 <= b0 < 0x100,
        0 <= b1 < 0x100,
        0 <= b2 < 0x100,
        0 <= b3 < 0x100,
    ensures
        ({
            let x = b0 + 0x100 * b1 + 0x1_0000 * b2 + 0x100_0000 * b3;
            &&& 0 <= x <= 0xFFFF_FFFF
            &&& x % 0x100 == b0
            &&& x / 0x100 % 0x100 == b1
            &&& x / 0x1_0000 % 0x100 == b2
            &&& x / 0x100_0000 == b3
        }),
{
    let x = b0 + 0x100 * b1 + 0x1_0000 * b2 + 0x100_0000 * b3;
    let h1 = b1 + 0x100 * b2 + 0x1_0000 * b3;
    let h2 = b2 + 0x100 * b3;
    assert(x == 0x100 * h1 + b0);
    assert(x / 0x100 == h1 && x % 0x100 == b0);
    assert(h1 == 0x100 * h2 + b1);
    assert(h1 / 0x100 == h2 && h1 % 0x100 == b1);
    assert(x == 0x1_0000 * h2 + (b0 + 0x100 * b1));
    assert(x / 0x1_0000 == h2);
    assert(h2 % 0x100 == b2);
    assert(x == 0x100_0000 * b3 + (b0 + 0x100 * b1 + 0x1_0000 * b2));
    assert(x / 0x100_0000 == b3);
}

/// Writing what was read gives the four bytes back.
pub proof fn lemma_u32_bytes_round_trip(s: Seq<u8>, at: int)
    requires
        0 <= at,
        at + 4 <= s.len(),
    ensures
        u32_le(le_u32(s, at)) == s.subrange(at, at + 4),
{
    lemma_base_256_digits(s[at] as int, s[at + 1] as int, s[at + 2] as int, s[at + 3] as int);
    assert(u32_le(le_u32(s, at)) =~= s.subrange(at, at + 4));
}

/// Writing what was read gives the two bytes back.
pub proof fn lemma_u16_bytes_round_trip(s: Seq<u8>, at: int)
    requires
        0 <= at,
        at + 2 <= s.len(),
    ensures
        u16_le(le_u16(s, at)) == s.subrange(at, at + 2),
{
    assert(u16_le(le_u16(s, at)) =~= s.subrange(at, at + 2));
}

/// The 64-bit value that the eight bytes at `at` hold.
pub open spec fn le_u64(s: Seq<u8>, at: int) -> u64 {
    (le_u32(s, at) as int + 0x1_0000_0000 * (le_u32(s, at + 4) as int)) as u64
}

/// The eight bytes that hold `x`.
pub open spec fn u64_le(x: u64) -> Seq<u8> {
    u32_le((x % 0x1_0000_0000) as u32) + u32_le((x / 0x1_0000_0000) as u32)
}

/// The number of bytes of a machine word: 4 or 8.
pub open spec fn word_size() -> nat {
    vstd::layout::size_of::<usize>()
}

/// The machine word that the `word_size()` bytes at `at` hold.
pub open spec fn le_word(s: Seq<u8>, at: int) -> usize {
    if word_size() == 4 {
        le_u32(s, at) as usize
    } else {
        le_u64(s, at) as usize
    }
}

/// The `word_size()` bytes that hold `x`.
pub open spec fn word_le(x: usize) -> Seq<u8> {
    if word_size() == 4 {
        u32_le(x as u32)
    } else {
        u64_le(x as u64)
    }
}

/// A machine word has 4 bytes or 8, and holds what they can hold.
pub proof fn lemma_word_size()
    ensures
        word_size() == 4 || word_size() == 8,
        word_size() == 4 ==> usize::MAX == 0xFFFF_FFFF,
        word_size() == 8 ==> usize::MAX == 0xFFFF_FFFF_FFFF_FFFF,
{
    broadcast use vstd::layout::layout_of_primitives;

    assert(usize::BITS == 32 || usize::BITS == 64);
    assert(usize::BITS == 32 ==> usize::MAX == 0xFFFF_FFFF);
    assert(usize::BITS == 64 ==> usize::MAX == 0xFFFF_FFFF_FFFF_FFFF);
}

pub fn read_u64(src: &[u8], at: usize) -> (x: u64)
    requires
        at + 8 <= src@.len(),
    ensures
        x == le_u64(src@, at as int),
{
    assert(at + 8 <= src.len());
    let lo: u64 = read_u32(src, at) as u64;
    let hi: u64 = read_u32(src, at + 4) as u64;
    lo + 0x1_0000_0000 * hi
}

/// The size of a machine word in bytes.
pub fn word_bytes() -> (n: usize)
    ensures
        n == word_size(),
        n == 4 || n == 8,
{
    proof {
        lemma_word_size();
    }
    core::mem::size_of::<usize>()
}

pub fn read_word(src: &[u8], at: usize) -> (x: usize)
    requires
        at + word_size() <= src@.len(),
    ensures
        x == le_word(src@, at as int),
{
    proof {
        lemma_word_size();
    }
    if word_bytes() == 4 {
        read_u32(src, at) as usize
    } else {
        read_u64(src, at) as usize
    }
}

/// Appends the eight bytes of `x` to `out`.
pub fn put_u64(out: &mut Vec<u8>, x: u64)
    ensures
        final(out)@ == old(out)@ + u64_le(x),
{
    put_u32(out, (x % 0x1_0000_0000) as u32);
    put_u32(out, (x / 0x1_0000_0000) as u32);
    assert(out@ =~= old(out)@ + u64_le(x));
}

/// Appends the bytes of the machine word `x` to `out`.
pub fn put_word(out: &mut Vec<u8>, x: usize)
    ensures
        final(out)@ == old(out)@ + word_le(x),
{
    proof {
        lemma_word_size();
    }
    if word_bytes() == 4 {
        put_u32(out, x as u32);
    } else {
        put_u64(out, x as u64);
    }
}

/// The low 32 bits of a length.
pub open spec fn low_u32(n: nat) -> u32 {
    (n % 0x1_0000_0000) as u32
}

/// The low 32 bits of `n`.
pub fn truncate_u32(n: usize) -> (x: u32)
    ensures
        x == low_u32(n as nat),
{
    ((n as u64) % 0x1_0000_0000) as u32
}

/// The low 16 bits of `n`.
pub fn truncate_u16(n: u32) -> (x: u16)
    ensures
        x == (n % 0x1_0000) as u16,
{
    (n % 0x1_0000) as u16
}

/// Four bytes that are those of `x` are read as `x`.
pub proof fn lemma_le_u32_at(s: Seq<u8>, at: int, x: u32)
    requires
        0 <= at,
        at + 4 <= s.len(),
        s.subrange(at, at + 4) == u32_le(x),
    ensures
        le_u32(s, at) == x,
{
    let t = s.subrange(at, at + 4);
    assert(s[at] == t[0] && s[at + 1] == t[1] && s[at + 2] == t[2] && s[at + 3] == t[3]);
    lemma_u32_round_trip(x);
}

/// Two bytes that are those of `x` are read as `x`.
pub proof fn lemma_le_u16_at(s: Seq<u8>, at: int, x: u16)
    requires
        0 <= at,
        at + 2 <= s.len(),
        s.subrange(at, at + 2) == u16_le(x),
    ensures
        le_u16(s, at) == x,
{
    let t = s.subrange(at, at + 2);
    assert(s[at] == t[0] && s[at + 1] == t[1]);
    lemma_u16_round_trip(x);
}

/// Reading back what `u64_le` wrote gives the value.
pub proof fn lemma_u64_round_trip(x: u64)
    ensures
        u64_le(x).len() == 8,
        le_u64(u64_le(x), 0) == x,
{
    let lo = (x % 0x1_0000_0000) as u32;
    let hi = (x / 0x1_0000_0000) as u32;
    let s = u64_le(x);
    assert(s.subrange(0, 4) =~= u32_le(lo));
    assert(s.subrange(4, 8) =~= u32_le(hi));
    lemma_le_u32_at(s, 0, lo);
    lemma_le_u32_at(s, 4, hi);
}

/// Writing what was read gives the eight bytes back.
pub proof fn lemma_u64_bytes_round_trip(s: Seq<u8>, at: int)
    requires
        0 <= at,
        at + 8 <= s.len(),
    ensures
        u64_le(le_u64(s, at)) == s.subrange(at, at + 8),
{
    let lo = le_u32(s, at);
    let hi = le_u32(s, at + 4);
    let x = le_u64(s, at);
    assert(x == lo + 0x1_0000_0000 * hi);
    assert(x % 0x1_0000_0000 == lo && x / 0x1_0000_0000 == hi);
    lemma_u32_bytes_round_trip(s, at);
    lemma_u32_bytes_round_trip(s, at + 4);
    assert(u64_le(x) =~= s.subrange(at, at + 8));
}

/// Reading back what `word_le` wrote gives the word.
pub proof fn lemma_word_round_trip(x: usize)
    ensures
        word_le(x).len() == word_size(),
        le_word(word_le(x), 0) == x,
{
    lemma_word_size();
    if word_size() == 4 {
        lemma_u32_round_trip(x as u32);
    } else {
        lemma_u64_round_trip(x as u64);
    }
}

/// Writing the word that was read gives its bytes back.
pub proof fn lemma_word_bytes_round_trip(s: Seq<u8>, at: int)
    requires
        0 <= at,
        at + word_size() <= s.len(),
    ensures
        word_le(le_word(s, at)) == s.subrange(at, at + word_size()),
{
    lemma_word_size();
    if word_size() == 4 {
        lemma_u32_bytes_round_trip(s, at);
    } else {
        lemma_u64_bytes_round_trip(s, at);
    }
}

/// Bytes that are those of the word `x` are read as `x`.
pub proof fn lemma_le_word_at(s: Seq<u8>, at: int, x: usize)
    requires
        0 <= at,
        at + word_size() <= s.len(),
        s.subrange(at, at + word_size()) == word_le(x),
    ensures
        le_word(s, at) == x,
{
    lemma_word_size();
    lemma_word_round_trip(x);
    let t = s.subrange(at, at + word_size());
    assert(forall|i: int| 0 <= i < word_size() ==> s[at + i] == t[i]);
    assert(s[at] == t[0] && s[at + 1] == t[1] && s[at + 2] == t[2] && s[at + 3] == t[3]);
    if word_size() == 8 {
        assert(s[at + 4] == t[4] && s[at + 5] == t[5] && s[at + 6] == t[6] && s[at + 7] == t[7]);
    }
}

/// Overwriting a range with itself, patched somewhere, is patching the
/// whole at that place of the range.
pub proof fn lemma_overwrite_within(s: Seq<u8>, at: int, n: int, inner: int, patch: Seq<u8>)
    requires
        0 <= at,
        0 <= inner,
        inner + patch.len() <= n,
        at + n <= s.len(),
    ensures
        overwrite(s, at, overwrite(s.subrange(at, at + n), inner, patch)) == overwrite(
            s,
            at + inner,
            patch,
        ),
{
    assert(overwrite(s, at, overwrite(s.subrange(at, at + n), inner, patch)) =~= overwrite(
        s,
        at + inner,
        patch,
    ));
}

/// The array that holds the `N` bytes of `s`.
pub open spec fn array_of<const N: usize>(s: Seq<u8>) -> [u8; N] {
    choose|a: [u8; N]| a@ == s
}

/// An array with the first `k` bytes of `s` in its first `k` places.
spec fn array_prefix<const N: usize>(s: Seq<u8>, k: nat) -> [u8; N]
    decreases k,
{
    if k == 0 {
        vstd::array::spec_array_fill_for_copy_type::<u8, N>(0u8)
    } else {
        vstd::array::spec_array_update(array_prefix::<N>(s, (k - 1) as nat), k - 1, s[k - 1])
    }
}

proof fn lemma_array_prefix<const N: usize>(s: Seq<u8>, k: nat)
    requires
        k <= N,
        s.len() == N,
    ensures
        forall|i: int| 0 <= i < k ==> array_prefix::<N>(s, k)@[i] == s[i],
    decreases k,
{
    broadcast use vstd::array::group_array_axioms;

    if k > 0 {
        lemma_array_prefix::<N>(s, (k - 1) as nat);
    }
}

/// Any `N` bytes are held by an array, and by one only.
pub proof fn lemma_array_of<const N: usize>(s: Seq<u8>)
    requires
        s.len() == N,
    ensures
        array_of::<N>(s)@ == s,
        forall|a: [u8; N]| a@ == s ==> a == array_of::<N>(s),
{
    broadcast use vstd::array::group_array_axioms;

    lemma_array_prefix::<N>(s, N as nat);
    assert(array_prefix::<N>(s, N as nat)@ =~= s);
    assert forall|a: [u8; N]| a@ == s implies a == array_of::<N>(s) by {
        assert(a =~= array_of::<N>(s));
    }
}

/// Fills `a` with the `N` bytes of `src` from `at` on.
pub fn read_array<const N: usize>(a: [u8; N], src: &[u8], at: usize) -> (filled: [u8; N])
    requires
        at + N <= src@.len(),
    ensures
        filled@ == src@.subrange(at as int, at + N),
        filled == array_of::<N>(src@.subrange(at as int, at + N)),
{
    let mut filled = a;
    let mut i: usize = 0;
    while i < N
        invariant
            i <= N,
            at + N <= src.len(),
            forall|j: int| 0 <= j < i ==> filled@[j] == src@[at + j],
        decreases N - i,
    {
        filled[i] = src[at + i];
        i += 1;
    }
    proof {
        broadcast use vstd::array::group_array_axioms;

        assert(filled@ =~= src@.subrange(at as int, at + N));
        lemma_array_of::<N>(src@.subrange(at as int, at + N));
    }
    filled
}

/// Overwriting leaves what lies before the patch and what lies after it as
/// it was.
pub proof fn lemma_overwrite_outside(s: Seq<u8>, at: int, patch: Seq<u8>, lo: int, hi: int)
    requires
        0 <= lo <= hi <= s.len(),
        hi <= at || at + patch.len() <= lo,
    ensures
        overwrite(s, at, patch).subrange(lo, hi) == s.subrange(lo, hi),
{
    assert(overwrite(s, at, patch).subrange(lo, hi) =~= s.subrange(lo, hi));
}

} // verus!
