//! Sorting by insertion, for the short lists of a command line: pages of
//! an archive, archives of a directory, image files of a book.

use vstd::prelude::*;

verus! {

/// Values of which one may come after another.
pub trait Ranked: Sized {
    /// Whether `self` comes after `other`.
    spec fn after(&self, other: &Self) -> bool;

    /// Whether `self` comes after `other`.
    fn is_after(&self, other: &Self) -> (r: bool)
        ensures
            r == self.after(other),
    ;
}

/// Whether `a` may stand directly before `b`: it does not come after `b`,
/// or `b` comes after it. Where coming after is a strict order, the second
/// case is part of the first.
pub open spec fn may_precede<T: Ranked>(a: T, b: T) -> bool {
    !a.after(&b) || b.after(&a)
}

/// Whether every value of the list may stand before the next one.
pub open spec fn in_order<T: Ranked>(items: Seq<T>) -> bool {
    forall|i: int| 0 <= i && i + 1 < items.len() ==> may_precede(#[trigger] items[i], items[i + 1])
}

/// A sequence into which a value was put holds that value once more.
pub proof fn lemma_insert_to_multiset<T>(s: Seq<T>, i: int, x: T)
    requires
        0 <= i <= s.len(),
    ensures
        s.insert(i, x).to_multiset() == s.to_multiset().insert(x),
{
    let t = s.insert(i, x);
    vstd::seq_lib::to_multiset_remove(t, i);
    assert(t.remove(i) =~= s);
    t.to_multiset_ensures();
    assert(t.contains(x)) by {
        assert(t[i] == x);
    }
    assert(t.to_multiset() =~= s.to_multiset().insert(x));
}

/// Sorts a list: every value is taken out in turn and put back before the
/// values that come after it, as far back as the first one that does not.
/// The list holds the same values afterwards, and each may stand before the
/// next.
pub fn insertion_sort<T: Ranked>(items: &mut Vec<T>)
    ensures
        final(items)@.to_multiset() == old(items)@.to_multiset(),
        final(items)@.len() == old(items)@.len(),
        in_order(final(items)@),
{
    let mut i: usize = 0;
    while i < items.len()
        invariant
            i <= items.len(),
            items@.len() == old(items)@.len(),
            items@.to_multiset() == old(items)@.to_multiset(),
            in_order(items@.take(i as int)),
        decreases items.len() - i,
    {
        let ghost before = items@;
        let item = items.remove(i);
        let ghost rest = items@;
        let mut p: usize = i;
        while p > 0 && items[p - 1].is_after(&item)
            invariant
                p <= i,
                i <= items.len(),
                items@ == rest,
                p < i ==> rest[p as int].after(&item),
            decreases p,
        {
            p = p - 1;
        }
        items.insert(p, item);
        proof {
            let after = items@;
            vstd::seq_lib::to_multiset_remove(before, i as int);
            lemma_insert_to_multiset(rest, p as int, item);
            before.to_multiset_ensures();
            assert(before.contains(item)) by {
                assert(before[i as int] == item);
            }
            assert(after.to_multiset() =~= before.to_multiset());
            assert forall|k: int| 0 <= k && k + 1 < i + 1 implies may_precede(
                #[trigger] after.take(i + 1)[k],
                after.take(i + 1)[k + 1],
            ) by {
                assert(forall|j: int| 0 <= j < i ==> rest[j] == before.take(i as int)[j]);
                if k + 1 < p {
                    assert(after.take(i + 1)[k] == rest[k]);
                    assert(after.take(i + 1)[k + 1] == rest[k + 1]);
                    assert(may_precede(before.take(i as int)[k], before.take(i as int)[k + 1]));
                } else if k + 1 == p {
                    assert(after.take(i + 1)[k] == rest[p - 1]);
                    assert(after.take(i + 1)[k + 1] == item);
                } else if k == p {
                    assert(after.take(i + 1)[k] == item);
                    assert(after.take(i + 1)[k + 1] == rest[p as int]);
                } else {
                    assert(after.take(i + 1)[k] == rest[k - 1]);
                    assert(after.take(i + 1)[k + 1] == rest[k]);
                    assert(may_precede(before.take(i as int)[k - 1], before.take(i as int)[k]));
                }
            }
        }
        i = i + 1;
    }
    assert(items@.take(items@.len() as int) =~= items@);
}

} // verus!
