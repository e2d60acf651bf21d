//! The order of strings.

use vstd::prelude::*;
use vstd::utf8::encode_utf8;
use crate::text::utf8::lemma_utf8_injective;

verus! {

/// How two values stand to each other.
#[derive(Debug, Clone, Copy, PartialEq, Eq, Structural)]
pub enum Order {
    Less,
    Equal,
    Greater,
}

/// Whether `a` comes before `b` where byte strings are ordered by their
/// first difference, and a prefix comes before what it is a prefix of.
pub open spec fn bytes_less(a: Seq<u8>, b: Seq<u8>) -> bool
    decreases a.len(),
{
    if b.len() == 0 {
        false
    } else if a.len() == 0 {
        true
    } else if a[0] != b[0] {
        a[0] < b[0]
    } else {
        bytes_less(a.drop_first(), b.drop_first())
    }
}

/// How two byte strings stand to each other in that order.
pub open spec fn bytes_order(a: Seq<u8>, b: Seq<u8>) -> Order {
    if a == b {
        Order::Equal
    } else if bytes_less(a, b) {
        Order::Less
    } else {
        Order::Greater
    }
}

/// How two strings stand to each other: by their UTF-8 bytes, as `str` is ordered.
pub open spec fn text_order(a: Seq<char>, b: Seq<char>) -> Order {
    bytes_order(encode_utf8(a), encode_utf8(b))
}

/// The order of byte strings is strict and total: of two byte strings,
/// either they are equal, or exactly one comes before the other.
pub proof fn lemma_bytes_order_total(a: Seq<u8>, b: Seq<u8>)
    ensures
        a == b ==> !bytes_less(a, b) && !bytes_less(b, a),
        a != b ==> bytes_less(a, b) != bytes_less(b, a),
    decreases a.len(),
{
    if a.len() > 0 && b.len() > 0 && a[0] == b[0] {
        lemma_bytes_order_total(a.drop_first(), b.drop_first());
        if a.drop_first() == b.drop_first() {
            assert(a =~= seq![a[0]] + a.drop_first());
            assert(b =~= seq![b[0]] + b.drop_first());
        }
    } else if a.len() == 0 && b.len() == 0 {
        assert(a =~= b);
    }
}

/// The order of byte strings is transitive.
pub proof fn lemma_bytes_less_transitive(a: Seq<u8>, b: Seq<u8>, c: Seq<u8>)
    requires
        bytes_less(a, b),
        bytes_less(b, c),
    ensures
        bytes_less(a, c),
    decreases a.len(),
{
    if a.len() > 0 && a[0] == b[0] && b[0] == c[0] {
        lemma_bytes_less_transitive(a.drop_first(), b.drop_first(), c.drop_first());
    }
}

/// The order of strings is strict, total and transitive, as a sort needs it.
pub proof fn lemma_text_order(a: Seq<char>, b: Seq<char>, c: Seq<char>)
    ensures
        (text_order(a, b) == Order::Equal) == (a == b),
        (text_order(a, b) == Order::Less) == (text_order(b, a) == Order::Greater),
        text_order(a, b) == Order::Less && text_order(b, c) == Order::Less ==> text_order(a, c)
            == Order::Less,
{
    lemma_utf8_injective(a, b);
    lemma_utf8_injective(b, a);
    lemma_utf8_injective(a, c);
    lemma_bytes_order_total(encode_utf8(a), encode_utf8(b));
    lemma_bytes_order_total(encode_utf8(b), encode_utf8(a));
    lemma_bytes_order_total(encode_utf8(a), encode_utf8(c));
    if bytes_less(encode_utf8(a), encode_utf8(b)) && bytes_less(encode_utf8(b), encode_utf8(c)) {
        lemma_bytes_less_transitive(encode_utf8(a), encode_utf8(b), encode_utf8(c));
    }
}

/// Whether `a` does not come after `b`.
pub open spec fn not_after(a: Seq<char>, b: Seq<char>) -> bool {
    text_order(a, b) != Order::Greater
}

/// What does not come after a string does not come after what that string
/// does not come after; and of two strings, one does not come after the other.
pub proof fn lemma_not_after(a: Seq<char>, b: Seq<char>, c: Seq<char>)
    ensures
        not_after(a, b) && not_after(b, c) ==> not_after(a, c),
        not_after(a, b) || not_after(b, a),
        !not_after(a, b) ==> text_order(b, a) == Order::Less,
{
    lemma_text_order(a, b, c);
    lemma_text_order(b, a, c);
    lemma_text_order(a, c, b);
    lemma_text_order(c, a, b);
    lemma_text_order(b, c, a);
    lemma_text_order(c, b, a);
}

/// Byte strings that agree on their first `k` bytes are ordered as what
/// follows those bytes.
pub proof fn lemma_bytes_less_skip(a: Seq<u8>, b: Seq<u8>, k: int)
    requires
        0 <= k <= a.len(),
        k <= b.len(),
        forall|j: int| 0 <= j < k ==> a[j] == b[j],
    ensures
        bytes_less(a, b) == bytes_less(a.skip(k), b.skip(k)),
    decreases k,
{
    if k > 0 {
        lemma_bytes_less_skip(a.drop_first(), b.drop_first(), k - 1);
        assert(a.drop_first().skip(k - 1) =~= a.skip(k));
        assert(b.drop_first().skip(k - 1) =~= b.skip(k));
    } else {
        assert(a.skip(0) =~= a);
        assert(b.skip(0) =~= b);
    }
}

/// How two byte strings stand to each other.
pub fn order_bytes(a: &[u8], b: &[u8]) -> (r: Order)
    ensures
        r == bytes_order(a@, b@),
{
    let mut i: usize = 0;
    while i < a.len() && i < b.len()
        invariant
            i <= a.len(),
            i <= b.len(),
            a.len() == a@.len(),
            b.len() == b@.len(),
            forall|j: int| 0 <= j < i ==> a@[j] == b@[j],
        decreases a.len() - i,
    {
        if a[i] != b[i] {
            proof {
                lemma_bytes_less_skip(a@, b@, i as int);
            }
            if a[i] < b[i] {
                return Order::Less;
            } else {
                return Order::Greater;
            }
        }
        i = i + 1;
    }
    proof {
        lemma_bytes_less_skip(a@, b@, i as int);
    }
    if a.len() == b.len() {
        assert(a@ =~= b@);
        Order::Equal
    } else if a.len() < b.len() {
        Order::Less
    } else {
        Order::Greater
    }
}

/// How two strings stand to each other.
pub fn order_text(a: &str, b: &str) -> (r: Order)
    ensures
        r == text_order(a@, b@),
{
    order_bytes(a.as_bytes(), b.as_bytes())
}

} // verus!
