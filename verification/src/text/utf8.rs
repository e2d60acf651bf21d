//! Strings and their UTF-8 bytes.

use vstd::prelude::*;
use vstd::string::StringSliceAdditionalSpecFns;
use vstd::utf8::{encode_utf8, valid_utf8};
use crate::bytes::has_zero;

verus! {

/// `core::str::from_utf8`: a string comes back exactly where `bytes` are
/// well-formed UTF-8, and it has those bytes.
#[verifier::external_body]
pub(crate) fn str_from_utf8<'a>(bytes: &'a [u8]) -> (r: Option<&'a str>)
    ensures
        r is Some == valid_utf8(bytes@),
        r matches Some(s) ==> s.spec_bytes() == bytes@,
{
    core::str::from_utf8(bytes).ok()
}

/// Strings with the same characters have the same bytes, and the other way round.
pub proof fn lemma_utf8_injective(a: Seq<char>, b: Seq<char>)
    ensures
        (encode_utf8(a) == encode_utf8(b)) == (a == b),
{
    vstd::utf8::encode_utf8_decode_utf8(a);
    vstd::utf8::encode_utf8_decode_utf8(b);
}

/// Whether two byte strings are equal.
pub fn bytes_eq(a: &[u8], b: &[u8]) -> (r: bool)
    ensures
        r == (a@ == b@),
{
    if a.len() != b.len() {
        return false;
    }
    let mut i: usize = 0;
    while i < a.len()
        invariant
            i <= a.len(),
            a.len() == b.len(),
            a@.len() == a.len(),
            b@.len() == b.len(),
            forall|j: int| 0 <= j < i ==> a@[j] == b@[j],
        decreases a.len() - i,
    {
        if a[i] != b[i] {
            return false;
        }
        i = i + 1;
    }
    assert(a@ =~= b@);
    true
}

/// Whether two strings are equal.
pub fn str_eq(a: &str, b: &str) -> (r: bool)
    ensures
        r == (a@ == b@),
{
    proof {
        lemma_utf8_injective(a@, b@);
    }
    bytes_eq(a.as_bytes(), b.as_bytes())
}

/// Whether the string holds the character NUL.
pub open spec fn has_nul(s: Seq<char>) -> bool {
    exists|i: int| 0 <= i < s.len() && s[i] == '\0'
}

/// The encoding of a scalar value holds a zero byte exactly if the value is zero.
proof fn lemma_scalar_zero(v: u32)
    requires
        vstd::utf8::is_scalar(v),
    ensures
        has_zero(vstd::utf8::encode_scalar(v)) == (v == 0),
{
    let e = vstd::utf8::encode_scalar(v);
    assert(v <= 0x7F ==> (((v & 0x7F) as u8 == 0) == (v == 0))) by (bit_vector);
    assert(0xC0u8 | ((v >> 6) & 0x1F) as u8 != 0) by (bit_vector);
    assert(0xE0u8 | ((v >> 12) & 0x0F) as u8 != 0) by (bit_vector);
    assert(0xF0u8 | ((v >> 18) & 0x7) as u8 != 0) by (bit_vector);
    assert(0x80u8 | (v & 0x3F) as u8 != 0) by (bit_vector);
    assert(0x80u8 | ((v >> 6) & 0x3F) as u8 != 0) by (bit_vector);
    assert(0x80u8 | ((v >> 12) & 0x3F) as u8 != 0) by (bit_vector);
    if v == 0 {
        assert(e[0] == 0);
    }
}

/// The UTF-8 bytes of a string hold a zero byte exactly if the string holds NUL.
pub proof fn lemma_nul_bytes(s: Seq<char>)
    ensures
        has_zero(encode_utf8(s)) == has_nul(s),
    decreases s.len(),
{
    if s.len() > 0 {
        let head = vstd::utf8::encode_scalar(s[0] as u32);
        let rest = encode_utf8(s.drop_first());
        vstd::utf8::char_is_scalar(s[0]);
        lemma_scalar_zero(s[0] as u32);
        lemma_nul_bytes(s.drop_first());
        vstd::utf8::char_u32_cast(s[0], s[0] as u32);
        vstd::utf8::char_u32_cast('\0', 0u32);
        assert((s[0] as u32 == 0) == (s[0] == '\0'));
        if has_zero(head) {
            let i = choose|i: int| 0 <= i < head.len() && head[i] == 0;
            assert((head + rest)[i] == 0);
            assert(s[0] == '\0');
        }
        if has_zero(rest) {
            let i = choose|i: int| 0 <= i < rest.len() && rest[i] == 0;
            assert((head + rest)[head.len() + i] == 0);
            let j = choose|j: int| 0 <= j < s.drop_first().len() && s.drop_first()[j] == '\0';
            assert(s[j + 1] == '\0');
        }
        if has_zero(head + rest) {
            let i = choose|i: int| 0 <= i < (head + rest).len() && (head + rest)[i] == 0;
            if i < head.len() {
                assert(head[i] == 0);
            } else {
                assert(rest[i - head.len()] == 0);
            }
        }
        if has_nul(s) {
            let j = choose|j: int| 0 <= j < s.len() && s[j] == '\0';
            if j > 0 {
                assert(s.drop_first()[j - 1] == '\0');
            }
        }
    }
}

/// The characters of a string, one by one.
pub fn chars_of(s: &str) -> (v: Vec<char>)
    ensures
        v@ == s@,
{
    let mut v: Vec<char> = Vec::new();
    for c in it: s.chars()
        invariant
            it.seq() == s@,
            v@ == it.seq().take(it.index() as int),
    {
        v.push(c);
        assert(v@ =~= it.seq().take(it.index() + 1));
    }
    assert(v@ =~= s@);
    v
}

/// The characters of each string of a list.
pub open spec fn views(parts: Seq<&str>) -> Seq<Seq<char>> {
    Seq::new(parts.len(), |i: int| parts[i]@)
}

/// An optional value is the expected one.
pub open spec fn opt_agrees<T: View>(r: Option<T>, expected: Option<T::V>) -> bool {
    match (r, expected) {
        (Some(a), Some(b)) => a@ == b,
        (None, None) => true,
        _ => false,
    }
}

/// The texts of a list of strings.
pub open spec fn string_views(v: Seq<String>) -> Seq<Seq<char>> {
    Seq::new(v.len(), |i: int| v[i]@)
}

} // verus!
