//! Putting lists in the order of a text key: the order of `String`'s own comparison, character
//! by character, a shorter text before any longer one that it starts.

use crate::text::chars_of;
use vstd::prelude::*;

verus! {

broadcast use {
    vstd::seq_lib::to_multiset_remove,
    vstd::seq_lib::to_multiset_insert,
    vstd::seq_lib::to_multiset_contains,
    vstd::multiset::group_multiset_axioms,
};

/// Whether text `a` comes strictly before text `b`: at the first character where they differ, `a`'s
/// has the smaller code point, or `a` is a proper beginning of `b`. This is the order of `String`'s
/// own comparison, since UTF-8 keeps the order of code points.
pub open spec fn text_before(a: Seq<char>, b: Seq<char>) -> bool
    decreases a.len(),
{
    if b.len() == 0 {
        false
    } else if a.len() == 0 {
        true
    } else if (a[0] as u32) != (b[0] as u32) {
        (a[0] as u32) < (b[0] as u32)
    } else {
        text_before(a.drop_first(), b.drop_first())
    }
}

/// No text comes before itself, and of two texts at most one comes before the other.
pub proof fn lemma_text_before_asymmetric(a: Seq<char>, b: Seq<char>)
    ensures
        text_before(a, b) ==> !text_before(b, a),
    decreases a.len(),
{
    if a.len() > 0 && b.len() > 0 && (a[0] as u32) == (b[0] as u32) {
        lemma_text_before_asymmetric(a.drop_first(), b.drop_first());
    }
}

/// "Not after" is transitive: where `a` is not after `b` and `b` is not after `c`, `a` is not
/// after `c`.
pub proof fn lemma_not_after_transitive(a: Seq<char>, b: Seq<char>, c: Seq<char>)
    requires
        !text_before(b, a),
        !text_before(c, b),
    ensures
        !text_before(c, a),
    decreases a.len(),
{
    if a.len() > 0 && b.len() > 0 && c.len() > 0 {
        if (a[0] as u32) == (b[0] as u32) && (b[0] as u32) == (c[0] as u32) {
            lemma_not_after_transitive(a.drop_first(), b.drop_first(), c.drop_first());
        }
    }
}

/// Whether `a` comes strictly before `b`.
pub fn text_less(a: &String, b: &String) -> (r: bool)
    ensures
        r == text_before(a@, b@),
{
    let x = chars_of(a.as_str());
    let y = chars_of(b.as_str());
    let mut i: usize = 0;
    proof {
        assert(x@.skip(0) =~= x@);
        assert(y@.skip(0) =~= y@);
    }
    while i < x.len() && i < y.len() && (x[i] as u32) == (y[i] as u32)
        invariant
            i <= x@.len(),
            i <= y@.len(),
            x@ == a@,
            y@ == b@,
            text_before(a@, b@) == text_before(x@.skip(i as int), y@.skip(i as int)),
        decreases x@.len() - i,
    {
        proof {
            let s = x@.skip(i as int);
            let t = y@.skip(i as int);
            assert(s.drop_first() =~= x@.skip(i + 1));
            assert(t.drop_first() =~= y@.skip(i + 1));
        }
        i = i + 1;
    }
    if i == y.len() {
        false
    } else if i == x.len() {
        true
    } else {
        (x[i] as u32) < (y[i] as u32)
    }
}

/// Something that a list is put in order by: its text key.
pub trait SortKey {
    /// The key.
    spec fn sort_key(&self) -> Seq<char>;

    /// The key, as text.
    fn key_text(&self) -> (k: String)
        ensures
            k@ == self.sort_key(),
    ;
}

/// Whether the items of `s` come in the order of their keys.
pub open spec fn in_key_order<T: SortKey>(s: Seq<T>) -> bool {
    forall|i: int, j: int|
        0 <= i < j < s.len() ==> !text_before(#[trigger] s[j].sort_key(), #[trigger] s[i].sort_key())
}

/// Whether `after` is `before` rearranged by `perm` (the item at `k` was at `perm[k]`), items with
/// equal keys keeping their order.
pub open spec fn rearranged_stably<T: SortKey>(before: Seq<T>, after: Seq<T>, perm: Seq<int>) -> bool {
    &&& perm.len() == before.len() == after.len()
    &&& forall|k: int| 0 <= k < after.len() ==> 0 <= #[trigger] perm[k] < before.len()
    &&& forall|k: int| 0 <= k < after.len() ==> #[trigger] after[k] == before[perm[k]]
    &&& forall|a: int, b: int| 0 <= a < b < after.len() ==> #[trigger] perm[a] != #[trigger] perm[b]
    &&& forall|a: int, b: int|
        0 <= a < b < after.len() && #[trigger] after[a].sort_key() == #[trigger] after[b].sort_key()
            ==> perm[a] < perm[b]
}

/// Puts `items` in the order of their keys: the same items, rearranged, those with equal keys in
/// the order they came in.
pub fn sort_by_key<T: SortKey>(items: &mut Vec<T>)
    ensures
        final(items)@.to_multiset() == old(items)@.to_multiset(),
        in_key_order(final(items)@),
        exists|perm: Seq<int>| rearranged_stably(old(items)@, final(items)@, perm),
{
    let n = items.len();
    let mut i: usize = 1;
    let ghost orig = items@;
    let ghost mut perm: Seq<int> = Seq::new(n as nat, |k: int| k);
    if n == 0 {
        proof {
            assert(rearranged_stably(orig, items@, perm));
        }
        return;
    }
    while i < n
        invariant
            1 <= i <= n,
            n == items@.len(),
            orig == old(items)@,
            items@.to_multiset() == old(items)@.to_multiset(),
            in_key_order(items@.take(i as int)),
            perm.len() == n,
            forall|k: int| 0 <= k < n ==> 0 <= #[trigger] perm[k] < n,
            forall|k: int| 0 <= k < n ==> #[trigger] items@[k] == orig[perm[k]],
            forall|a: int, b: int| 0 <= a < b < n ==> #[trigger] perm[a] != #[trigger] perm[b],
            forall|k: int| i <= k < n ==> #[trigger] perm[k] == k,
            forall|k: int| 0 <= k < i ==> #[trigger] perm[k] < i,
            forall|a: int, b: int|
                0 <= a < b < i && #[trigger] items@[a].sort_key() == #[trigger] items@[b].sort_key()
                    ==> perm[a] < perm[b],
        decreases n - i,
    {
        proof {
            let s = items@;
            assert forall|p: int, q: int| 0 <= p < q < i implies !text_before(
                #[trigger] s[q].sort_key(),
                #[trigger] s[p].sort_key(),
            ) by {
                assert(s.take(i as int)[q] == s[q] && s.take(i as int)[p] == s[p]);
            }
        }
        let mut j: usize = i;
        while j > 0 && text_less(&items[j].key_text(), &items[j - 1].key_text())
            invariant
                0 <= j <= i < n,
                n == items@.len(),
                items@.to_multiset() == old(items)@.to_multiset(),
                forall|p: int, q: int|
                    0 <= p < q <= i && p != j && q != j ==> !text_before(
                        #[trigger] items@[q].sort_key(),
                        #[trigger] items@[p].sort_key(),
                    ),
                forall|q: int|
                    j < q <= i ==> text_before(
                        items@[j as int].sort_key(),
                        #[trigger] items@[q].sort_key(),
                    ),
                orig == old(items)@,
                perm.len() == n,
                forall|k: int| 0 <= k < n ==> 0 <= #[trigger] perm[k] < n,
                forall|k: int| 0 <= k < n ==> #[trigger] items@[k] == orig[perm[k]],
                forall|a: int, b: int| 0 <= a < b < n ==> #[trigger] perm[a] != #[trigger] perm[b],
                forall|k: int| i < k < n ==> #[trigger] perm[k] == k,
                perm[j as int] == i,
                forall|k: int| 0 <= k <= i && k != j ==> #[trigger] perm[k] < i,
                forall|a: int, b: int|
                    0 <= a < b <= i && a != j && b != j && #[trigger] items@[a].sort_key()
                        == #[trigger] items@[b].sort_key() ==> perm[a] < perm[b],
            decreases j,
        {
            let ghost before = items@;
            let ghost pb = perm;
            let x = items.remove(j);
            items.insert(j - 1, x);
            proof {
                perm = pb.update(j - 1, pb[j as int]).update(j as int, pb[j - 1]);
                assert forall|a: int, b: int|
                    0 <= a < b <= i && a != j - 1 && b != j - 1 && #[trigger] items@[a].sort_key()
                        == #[trigger] items@[b].sort_key() implies perm[a] < perm[b] by {
                    let a0 = if a == j {
                        j - 1
                    } else {
                        a
                    };
                    let b0 = if b == j {
                        j - 1
                    } else {
                        b
                    };
                    assert(items@[a] == before[a0] && items@[b] == before[b0]);
                    assert(perm[a] == pb[a0] && perm[b] == pb[b0]);
                }
                assert forall|a: int, b: int| 0 <= a < b < n implies #[trigger] perm[a]
                    != #[trigger] perm[b] by {
                    let a0 = if a == j {
                        j - 1
                    } else if a == j - 1 {
                        j as int
                    } else {
                        a
                    };
                    let b0 = if b == j {
                        j - 1
                    } else if b == j - 1 {
                        j as int
                    } else {
                        b
                    };
                    assert(perm[a] == pb[a0] && perm[b] == pb[b0]);
                    assert(a0 != b0);
                    if a0 < b0 {
                        assert(pb[a0] != pb[b0]);
                    } else {
                        assert(pb[b0] != pb[a0]);
                    }
                }
                assert(items@ =~= before.update(j - 1, before[j as int]).update(
                    j as int,
                    before[j - 1],
                ));
                assert(items@.to_multiset() == before.to_multiset());
                lemma_text_before_asymmetric(before[j as int].sort_key(), before[j - 1].sort_key());
            }
            j = j - 1;
        }
        proof {
            let s = items@;
            assert forall|p: int, q: int| 0 <= p < q < i + 1 implies !text_before(
                #[trigger] s.take(i + 1)[q].sort_key(),
                #[trigger] s.take(i + 1)[p].sort_key(),
            ) by {
                if q == j {
                    if p < j - 1 {
                        lemma_not_after_transitive(s[p].sort_key(), s[j - 1].sort_key(), s[q].sort_key());
                    }
                } else if p == j {
                    lemma_text_before_asymmetric(s[p].sort_key(), s[q].sort_key());
                }
            }
            assert forall|a: int, b: int|
                0 <= a < b < i + 1 && #[trigger] s[a].sort_key() == #[trigger] s[b].sort_key()
                    implies perm[a] < perm[b] by {
                if a == j {
                    lemma_text_before_asymmetric(s[a].sort_key(), s[b].sort_key());
                }
            }
        }
        i = i + 1;
    }
    proof {
        assert(items@.take(n as int) =~= items@);
        assert(rearranged_stably(orig, items@, perm));
    }
}

} // verus!
