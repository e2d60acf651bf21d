//! Little-endian field readers and writers over byte buffers.

use vstd::prelude::*;
use vstd::bytes::*;

verus! {

/// `n` zero bytes.
pub open spec fn zeros(n: nat) -> Seq<u8> {
    Seq::new(n, |i: int| 0u8)
}

/// Whether some byte of `s` is zero.
pub open spec fn has_zero(s: Seq<u8>) -> bool {
    exists|i: int| 0 <= i < s.len() && s[i] == 0
}

/// Whether `i` is the index of the first zero byte of `s`.
pub open spec fn is_first_zero(s: Seq<u8>, i: int) -> bool {
    &&& 0 <= i < s.len()
    &&& s[i] == 0
    &&& forall|j: int| 0 <= j < i ==> s[j] != 0
}

/// The index of the first zero byte of `s`.
pub open spec fn first_zero(s: Seq<u8>) -> int {
    choose|i: int| is_first_zero(s, i)
}

/// The first zero byte of a sequence is where it is found.
pub proof fn lemma_first_zero(s: Seq<u8>, i: int)
    requires
        is_first_zero(s, i),
    ensures
        has_zero(s),
        first_zero(s) == i,
{
    let k = first_zero(s);
    assert(is_first_zero(s, k));
    if k < i {
        assert(s[k] != 0);
    }
    if i < k {
        assert(s[i] != 0);
    }
}

/// Finds the first zero byte of `data` between `start` and `end`.
pub fn find_zero(data: &[u8], start: usize, end: usize) -> (r: Option<usize>)
    requires
        start <= end <= data@.len(),
    ensures
        r is None ==> !has_zero(data@.subrange(start as int, end as int)),
        r matches Some(i) ==> start <= i < end && is_first_zero(
            data@.subrange(start as int, end as int),
            i - start,
        ),
{
    let mut i: usize = start;
    while i < end
        invariant
            start <= i <= end <= data@.len(),
            forall|j: int| start <= j < i ==> data@[j] != 0,
        decreases end - i,
    {
        if data[i] == 0 {
            return Some(i);
        }
        i = i + 1;
    }
    proof {
        let w = data@.subrange(start as int, end as int);
        assert forall|j: int| 0 <= j < w.len() implies w[j] != 0 by {
            assert(w[j] == data@[start + j]);
        }
    }
    None
}

/// Whether every byte of `data` is zero.
pub fn all_zero(data: &[u8]) -> (r: bool)
    ensures
        r == (data@ == zeros(data@.len())),
{
    let mut i: usize = 0;
    while i < data.len()
        invariant
            i <= data.len(),
            data.len() == data@.len(),
            forall|j: int| 0 <= j < i ==> data@[j] == 0,
        decreases data.len() - i,
    {
        if data[i] != 0 {
            assert(zeros(data@.len())[i as int] == 0);
            return false;
        }
        i = i + 1;
    }
    assert(data@ =~= zeros(data@.len()));
    true
}

/// Appends `src` to `out`.
pub fn put_bytes(out: &mut Vec<u8>, src: &[u8])
    ensures
        final(out)@ == old(out)@ + src@,
{
    out.extend_from_slice(src);
    assert(out@ =~= old(out)@ + src@);
}

/// Appends `n` zero bytes to `out`.
pub fn put_zeros(out: &mut Vec<u8>, n: usize)
    ensures
        final(out)@ == old(out)@ + zeros(n as nat),
{
    let mut i: usize = 0;
    while i < n
        invariant
            i <= n,
            out@ == old(out)@ + zeros(i as nat),
        decreases n - i,
    {
        out.push(0u8);
        i = i + 1;
        assert(out@ =~= old(out)@ + zeros(i as nat));
    }
}

/// Appends one byte to `out`.
pub fn put_u8(out: &mut Vec<u8>, x: u8)
    ensures
        final(out)@ == old(out)@ + seq![x],
{
    out.push(x);
    assert(out@ =~= old(out)@ + seq![x]);
}

/// Appends the two little-endian bytes of `x` to `out`.
pub fn put_u16(out: &mut Vec<u8>, x: u16)
    ensures
        final(out)@ == old(out)@ + spec_u16_to_le_bytes(x),
{
    let b = u16_to_le_bytes(x);
    put_bytes(out, b.as_slice());
}

/// Appends the four little-endian bytes of `x` to `out`.
pub fn put_u32(out: &mut Vec<u8>, x: u32)
    ensures
        final(out)@ == old(out)@ + spec_u32_to_le_bytes(x),
{
    let b = u32_to_le_bytes(x);
    put_bytes(out, b.as_slice());
}

/// Appends the eight little-endian bytes of `x` to `out`.
pub fn put_u64(out: &mut Vec<u8>, x: u64)
    ensures
        final(out)@ == old(out)@ + spec_u64_to_le_bytes(x),
{
    let b = u64_to_le_bytes(x);
    put_bytes(out, b.as_slice());
}

/// Reads the byte at `off`.
pub fn get_u8(data: &[u8], off: usize) -> (x: u8)
    requires
        off + 1 <= data@.len(),
    ensures
        seq![x] == data@.subrange(off as int, off + 1),
{
    let x = data[off];
    assert(seq![x] =~= data@.subrange(off as int, off + 1));
    x
}

/// Reads the little-endian `u16` at `off`.
pub fn get_u16(data: &[u8], off: usize) -> (x: u16)
    requires
        off + 2 <= data@.len(),
    ensures
        spec_u16_to_le_bytes(x) == data@.subrange(off as int, off + 2),
{
    proof {
        lemma_auto_spec_u16_to_from_le_bytes();
        assert(data.len() == data@.len());
    }
    u16_from_le_bytes(vstd::slice::slice_subrange(data, off, off + 2))
}

/// Reads the little-endian `u32` at `off`.
pub fn get_u32(data: &[u8], off: usize) -> (x: u32)
    requires
        off + 4 <= data@.len(),
    ensures
        spec_u32_to_le_bytes(x) == data@.subrange(off as int, off + 4),
{
    proof {
        lemma_auto_spec_u32_to_from_le_bytes();
        assert(data.len() == data@.len());
    }
    u32_from_le_bytes(vstd::slice::slice_subrange(data, off, off + 4))
}

/// Reads the little-endian `u64` at `off`.
pub fn get_u64(data: &[u8], off: usize) -> (x: u64)
    requires
        off + 8 <= data@.len(),
    ensures
        spec_u64_to_le_bytes(x) == data@.subrange(off as int, off + 8),
{
    proof {
        lemma_auto_spec_u64_to_from_le_bytes();
        assert(data.len() == data@.len());
    }
    u64_from_le_bytes(vstd::slice::slice_subrange(data, off, off + 8))
}

/// Reads the `N` bytes at `off`.
pub fn get_array<const N: usize>(data: &[u8], off: usize) -> (a: [u8; N])
    requires
        off + N <= data@.len(),
    ensures
        a@ == data@.subrange(off as int, off + N),
{
    proof {
        assert(data.len() == data@.len());
    }
    let mut a: [u8; N] = [0u8; N];
    let mut i: usize = 0;
    while i < N
        invariant
            i <= N,
            off + N <= data@.len() <= usize::MAX,
            forall|j: int| 0 <= j < i ==> a@[j] == data@[off + j],
        decreases N - i,
    {
        a[i] = data[off + i];
        i = i + 1;
    }
    assert(a@ =~= data@.subrange(off as int, off + N));
    a
}

/// Two integers with the same little-endian bytes are equal.
pub proof fn lemma_le_injective()
    ensures
        forall|x: u16, y: u16| #[trigger]
            spec_u16_to_le_bytes(x) == #[trigger] spec_u16_to_le_bytes(y) ==> x == y,
        forall|x: u32, y: u32| #[trigger]
            spec_u32_to_le_bytes(x) == #[trigger] spec_u32_to_le_bytes(y) ==> x == y,
        forall|x: u64, y: u64| #[trigger]
            spec_u64_to_le_bytes(x) == #[trigger] spec_u64_to_le_bytes(y) ==> x == y,
        forall|x: u16| #[trigger] spec_u16_to_le_bytes(x).len() == 2,
        forall|x: u32| #[trigger] spec_u32_to_le_bytes(x).len() == 4,
        forall|x: u64| #[trigger] spec_u64_to_le_bytes(x).len() == 8,
{
    lemma_auto_spec_u16_to_from_le_bytes();
    lemma_auto_spec_u32_to_from_le_bytes();
    lemma_auto_spec_u64_to_from_le_bytes();
    assert forall|x: u16, y: u16| #[trigger]
        spec_u16_to_le_bytes(x) == #[trigger] spec_u16_to_le_bytes(y) implies x == y by {
        assert(spec_u16_to_le_bytes(x).len() == 2 && spec_u16_to_le_bytes(y).len() == 2);
    }
    assert forall|x: u32, y: u32| #[trigger]
        spec_u32_to_le_bytes(x) == #[trigger] spec_u32_to_le_bytes(y) implies x == y by {
        assert(spec_u32_to_le_bytes(x).len() == 4 && spec_u32_to_le_bytes(y).len() == 4);
    }
    assert forall|x: u64, y: u64| #[trigger]
        spec_u64_to_le_bytes(x) == #[trigger] spec_u64_to_le_bytes(y) implies x == y by {
        assert(spec_u64_to_le_bytes(x).len() == 8 && spec_u64_to_le_bytes(y).len() == 8);
    }
}

/// Two adjacent ranges of a sequence make up the range that spans both.
pub proof fn lemma_join<T>(s: Seq<T>, a: int, b: int, c: int)
    requires
        0 <= a <= b <= c <= s.len(),
    ensures
        s.subrange(a, b) + s.subrange(b, c) == s.subrange(a, c),
{
    assert(s.subrange(a, b) + s.subrange(b, c) =~= s.subrange(a, c));
}

/// Equal concatenations whose second parts have one length have equal parts.
pub proof fn lemma_split<T>(front: Seq<T>, back: Seq<T>, other_front: Seq<T>, other_back: Seq<T>)
    requires
        front + back == other_front + other_back,
        back.len() == other_back.len(),
    ensures
        front == other_front,
        back == other_back,
{
    let whole = front + back;
    let other = other_front + other_back;
    assert(whole.len() == front.len() + back.len());
    assert(other.len() == other_front.len() + other_back.len());
    assert(front =~= whole.subrange(0, front.len() as int));
    assert(other_front =~= other.subrange(0, other_front.len() as int));
    assert(back =~= whole.subrange(front.len() as int, whole.len() as int));
    assert(other_back =~= other.subrange(other_front.len() as int, other.len() as int));
}

/// The array whose first `k` elements are those of `s`.
pub open spec fn array_prefix<T: Copy, const N: usize>(s: Seq<T>, k: nat) -> [T; N]
    decreases k,
{
    if k == 0 {
        vstd::array::spec_array_fill_for_copy_type::<T, N>(s[0])
    } else {
        vstd::array::spec_array_update(array_prefix::<T, N>(s, (k - 1) as nat), k - 1, s[k - 1])
    }
}

/// The array whose elements are those of `s`.
pub open spec fn array_of<T: Copy, const N: usize>(s: Seq<T>) -> [T; N] {
    array_prefix::<T, N>(s, N as nat)
}

/// The first `k` elements of `array_prefix(s, k)` are those of `s`.
pub proof fn lemma_array_prefix<T: Copy, const N: usize>(s: Seq<T>, k: nat)
    requires
        k <= N,
    ensures
        forall|j: int| 0 <= j < k ==> array_prefix::<T, N>(s, k)@[j] == s[j],
    decreases k,
{
    if k > 0 {
        lemma_array_prefix::<T, N>(s, (k - 1) as nat);
    }
}

/// A sequence of `N` elements is the view of the array made of it.
pub proof fn lemma_array_of<T: Copy, const N: usize>(s: Seq<T>)
    requires
        s.len() == N,
    ensures
        array_of::<T, N>(s)@ == s,
{
    lemma_array_prefix::<T, N>(s, N as nat);
    assert(array_of::<T, N>(s)@ =~= s);
}

/// Every byte string of the right length is the little-endian form of an integer.
pub proof fn lemma_le_total()
    ensures
        forall|s: Seq<u8>|
            s.len() == 2 ==> #[trigger] spec_u16_to_le_bytes(spec_u16_from_le_bytes(s)) == s,
        forall|s: Seq<u8>|
            s.len() == 4 ==> #[trigger] spec_u32_to_le_bytes(spec_u32_from_le_bytes(s)) == s,
        forall|s: Seq<u8>|
            s.len() == 8 ==> #[trigger] spec_u64_to_le_bytes(spec_u64_from_le_bytes(s)) == s,
{
    lemma_auto_spec_u16_to_from_le_bytes();
    lemma_auto_spec_u32_to_from_le_bytes();
    lemma_auto_spec_u64_to_from_le_bytes();
}

} // verus!
