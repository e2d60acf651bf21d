//! Cutting a string at a character.

use vstd::prelude::*;
use vstd::string::StrSliceExecFns;
use crate::text::utf8::{chars_of, views};

verus! {

/// The index of the first `c` in `s`, or the length of `s` if there is none.
pub open spec fn first_index(s: Seq<char>, c: char) -> int
    decreases s.len(),
{
    if s.len() == 0 || s[0] == c {
        0
    } else {
        1 + first_index(s.drop_first(), c)
    }
}

/// The parts of `s` between the occurrences of `c`. A string without `c`
/// is one part; two occurrences in a row have an empty part between them.
pub open spec fn split(s: Seq<char>, c: char) -> Seq<Seq<char>>
    decreases s.len(),
{
    let i = first_index(s, c);
    if 0 <= i < s.len() {
        seq![s.take(i)] + split(s.skip(i + 1), c)
    } else {
        seq![s]
    }
}

/// The parts of `s` between the occurrences of `c`, at most `n` of them:
/// the last part holds the rest of `s`, whatever it holds.
pub open spec fn splitn(s: Seq<char>, n: nat, c: char) -> Seq<Seq<char>>
    decreases n,
{
    if n == 0 {
        Seq::empty()
    } else if n > 1 && 0 <= first_index(s, c) < s.len() {
        seq![s.take(first_index(s, c))] + splitn(s.skip(first_index(s, c) + 1), (n - 1) as nat, c)
    } else {
        seq![s]
    }
}

/// The parts of `s` between the occurrences of `c`: at most `n` of them
/// where a limit `n` is given.
pub open spec fn split_limited(s: Seq<char>, limit: Option<usize>, c: char) -> Seq<Seq<char>> {
    match limit {
        Some(n) => splitn(s, n as nat, c),
        None => split(s, c),
    }
}

/// The rest of a split: what the parts after the first `done` are, where
/// `rest` is what follows them in the string.
pub open spec fn split_rest(rest: Seq<char>, limit: Option<usize>, done: nat, c: char) -> Seq<
    Seq<char>,
> {
    match limit {
        Some(n) => splitn(rest, (n - done) as nat, c),
        None => split(rest, c),
    }
}

/// No `c` stands among the first `k` characters of `s`, and the next
/// character, if any, is `c`: then the first `c` of `s` is at `k`.
pub proof fn lemma_first_index(s: Seq<char>, c: char, k: int)
    requires
        0 <= k <= s.len(),
        forall|j: int| 0 <= j < k ==> s[j] != c,
        k < s.len() ==> s[k] == c,
    ensures
        first_index(s, c) == k,
    decreases k,
{
    if k > 0 {
        lemma_first_index(s.drop_first(), c, k - 1);
    }
}

/// Whether a split that has `count` parts may cut off one more before the
/// last.
fn may_split(limit: Option<usize>, count: usize) -> (r: bool)
    ensures
        r == (limit matches Some(n) ==> count + 1 < n),
{
    match limit {
        Some(n) => n >= 2 && count < n - 1,
        None => true,
    }
}

/// The parts of `s` between the occurrences of `c`, up to a limit if one is given.
fn split_with_limit<'a>(s: &'a str, limit: Option<usize>, c: char) -> (parts: Vec<&'a str>)
    ensures
        views(parts@) == split_limited(s@, limit, c),
{
    let mut parts: Vec<&'a str> = Vec::new();
    if let Some(n) = limit {
        if n == 0 {
            assert(views(parts@) =~= splitn(s@, 0, c));
            return parts;
        }
    }
    let cs = chars_of(s);
    let len = cs.len();
    let mut start: usize = 0;
    let mut i: usize = 0;
    assert(s@.skip(0) =~= s@);
    assert(views(parts@) =~= Seq::<Seq<char>>::empty());
    assert(views(parts@) + split_rest(s@, limit, 0, c) =~= split_limited(s@, limit, c));
    while i < len && may_split(limit, parts.len())
        invariant
            start <= i <= len,
            len == cs@.len(),
            cs@ == s@,
            limit matches Some(n) ==> parts.len() < n,
            forall|j: int| start <= j < i ==> cs@[j] != c,
            split_limited(s@, limit, c) == views(parts@) + split_rest(
                s@.skip(start as int),
                limit,
                parts.len() as nat,
                c,
            ),
        decreases len - i,
    {
        if cs[i] == c {
            let part = s.substring_char(start, i);
            proof {
                let rest = s@.skip(start as int);
                assert forall|j: int| 0 <= j < i - start implies rest[j] != c by {
                    assert(rest[j] == cs@[start + j]);
                }
                lemma_first_index(rest, c, i - start);
                assert(rest.take(i - start) =~= s@.subrange(start as int, i as int));
                assert(rest.skip(i - start + 1) =~= s@.skip(i + 1));
                assert(views(parts@.push(part)) =~= views(parts@) + seq![part@]);
            }
            parts.push(part);
            start = i + 1;
        }
        i = i + 1;
    }
    let last = s.substring_char(start, len);
    proof {
        let rest = s@.skip(start as int);
        assert(last@ =~= rest);
        if i == len {
            assert forall|j: int| 0 <= j < rest.len() implies rest[j] != c by {
                assert(rest[j] == cs@[start + j]);
            }
            lemma_first_index(rest, c, rest.len() as int);
        }
        assert(views(parts@.push(last)) =~= views(parts@) + seq![last@]);
    }
    parts.push(last);
    parts
}

/// The parts of `s` between the occurrences of `c`, at most `n` of them.
pub fn splitn_chars<'a>(s: &'a str, n: usize, c: char) -> (parts: Vec<&'a str>)
    ensures
        views(parts@) == splitn(s@, n as nat, c),
{
    split_with_limit(s, Some(n), c)
}

/// The parts of `s` between the occurrences of `c`.
pub fn split_chars<'a>(s: &'a str, c: char) -> (parts: Vec<&'a str>)
    ensures
        views(parts@) == split(s@, c),
{
    split_with_limit(s, None, c)
}

/// The index after the last `c` in `s`, or 0 if there is none.
pub open spec fn after_last(s: Seq<char>, c: char) -> int
    decreases s.len(),
{
    if s.len() == 0 {
        0
    } else if s.last() == c {
        s.len() as int
    } else {
        after_last(s.drop_last(), c)
    }
}

/// No `c` stands in `s` from `k` on, and the character before `k`, if
/// any, is `c`: then `k` is the index after the last `c`.
pub proof fn lemma_after_last(s: Seq<char>, c: char, k: int)
    requires
        0 <= k <= s.len(),
        forall|j: int| k <= j < s.len() ==> s[j] != c,
        k > 0 ==> s[k - 1] == c,
    ensures
        after_last(s, c) == k,
    decreases s.len() - k,
{
    if k < s.len() {
        lemma_after_last(s.drop_last(), c, k);
    }
}

} // verus!
