//! Ordering of the lists handed to consumers: a total preorder on list
//! items, and a sort that rearranges a list into that order.

use vstd::prelude::*;
use vstd::seq_lib::group_to_multiset_ensures;

verus! {

/// A total preorder on list items. Implementations decide the order; the
/// sort only relies on it being total and transitive.
pub trait SortOrder: Sized {
    /// `self` may stand before `other` in an ordered list.
    spec fn precedes(self, other: Self) -> bool;

    /// Any two items are comparable (taking `b == a` shows the order is
    /// also reflexive).
    proof fn lemma_total(a: Self, b: Self)
        ensures
            a.precedes(b) || b.precedes(a),
    ;

    /// The order carries over chains.
    proof fn lemma_trans(a: Self, b: Self, c: Self)
        requires
            a.precedes(b),
            b.precedes(c),
        ensures
            a.precedes(c),
    ;

    /// Executable comparison agreeing with `precedes`.
    fn comes_before(&self, other: &Self) -> (r: bool)
        ensures
            r == self.precedes(*other),
    ;
}

/// The sequence stands in order: every item precedes every later one.
pub open spec fn ordered<T: SortOrder>(s: Seq<T>) -> bool {
    forall|i: int, j: int| 0 <= i < j < s.len() ==> #[trigger] s[i].precedes(s[j])
}

/// Two sequences holding the same items map to sequences holding the same
/// items.
pub proof fn lemma_map_values_multiset<A, B>(s1: Seq<A>, s2: Seq<A>, f: spec_fn(A) -> B)
    requires
        s1.to_multiset() == s2.to_multiset(),
    ensures
        s1.map_values(f).to_multiset() == s2.map_values(f).to_multiset(),
    decreases s1.len(),
{
    broadcast use group_to_multiset_ensures;
    broadcast use vstd::multiset::group_multiset_axioms;

    if s1.len() == 0 {
        assert(s1.to_multiset().len() == s1.len());
        assert(s2.to_multiset().len() == s2.len());
        assert(s2.len() == 0);
        assert(s1.map_values(f) =~= Seq::<B>::empty());
        assert(s2.map_values(f) =~= Seq::<B>::empty());
    } else {
        let x = s1.last();
        assert(s1.contains(x)) by {
            assert(s1[s1.len() - 1] == x);
        }
        assert(s1.to_multiset().count(x) > 0);
        assert(s2.to_multiset().count(x) > 0);
        assert(s2.contains(x));
        let i = choose|i: int| 0 <= i < s2.len() && s2[i] == x;
        let s1p = s1.drop_last();
        let s2p = s2.remove(i);
        assert(s1.remove(s1.len() - 1).to_multiset() == s1.to_multiset().remove(
            s1[s1.len() - 1],
        ));
        assert(s1.remove(s1.len() - 1) =~= s1p);
        assert(s2p.to_multiset() == s2.to_multiset().remove(x));
        assert(s1p.to_multiset() =~= s2p.to_multiset());
        lemma_map_values_multiset(s1p, s2p, f);
        assert(s1.map_values(f) =~= s1p.map_values(f).push(f(x)));
        assert(s2p.map_values(f) =~= s2.map_values(f).remove(i));
        assert(s1p.map_values(f).push(f(x)).to_multiset() == s1p.map_values(
            f,
        ).to_multiset().insert(f(x)));
        assert(s2.map_values(f).remove(i).to_multiset() == s2.map_values(
            f,
        ).to_multiset().remove(s2.map_values(f)[i]));
        assert(s2.map_values(f)[i] == f(x));
        assert(s2.map_values(f).contains(f(x))) by {
            assert(s2.map_values(f)[i] == f(x));
        }
        assert(s1.map_values(f).to_multiset() =~= s2.map_values(f).to_multiset());
    }
}

/// Rearrange the items into order: the result is ordered and holds exactly
/// the given items.
pub fn sort_items<T: SortOrder>(items: Vec<T>) -> (r: Vec<T>)
    ensures
        ordered::<T>(r@),
        r@.to_multiset() == items@.to_multiset(),
{
    broadcast use group_to_multiset_ensures;
    broadcast use vstd::multiset::group_multiset_axioms;

    let ghost orig = items@;
    let mut input = items;
    let mut out: Vec<T> = Vec::new();
    proof {
        assert(out@.to_multiset().add(input@.to_multiset()) =~= orig.to_multiset());
    }
    while input.len() > 0
        invariant
            ordered::<T>(out@),
            forall|a: int, b: int|
                0 <= a < out@.len() && 0 <= b < input@.len() ==> #[trigger] out@[a].precedes(
                    input@[b],
                ),
            out@.to_multiset().add(input@.to_multiset()) == orig.to_multiset(),
        decreases input@.len(),
    {
        let mut m: usize = 0;
        let mut k: usize = 1;
        proof {
            T::lemma_total(input@[0], input@[0]);
        }
        while k < input.len()
            invariant
                input@.len() > 0,
                m < input@.len(),
                1 <= k <= input@.len(),
                forall|j: int| 0 <= j < k ==> #[trigger] input@[m as int].precedes(input@[j]),
            decreases input@.len() - k,
        {
            if input[k].comes_before(&input[m]) {
                proof {
                    assert forall|j: int| 0 <= j < k + 1 implies #[trigger] input@[
                        k as int
                    ].precedes(input@[j]) by {
                        if j < k {
                            T::lemma_trans(input@[k as int], input@[m as int], input@[j]);
                        } else {
                            T::lemma_total(input@[k as int], input@[k as int]);
                        }
                    }
                }
                m = k;
            } else {
                proof {
                    T::lemma_total(input@[k as int], input@[m as int]);
                }
            }
            k += 1;
        }
        let ghost pre_in = input@;
        let ghost pre_out = out@;
        let x = input.remove(m);
        proof {
            broadcast use group_to_multiset_ensures;
            broadcast use vstd::multiset::group_multiset_axioms;

            assert(pre_in.contains(x)) by {
                assert(pre_in[m as int] == x);
            }
        }
        out.push(x);
        proof {
            assert forall|i: int, j: int| 0 <= i < j < out@.len() implies #[trigger] out@[
                i
            ].precedes(out@[j]) by {
                if j == out@.len() - 1 {
                    assert(pre_out[i].precedes(pre_in[m as int]));
                } else {
                    assert(pre_out[i].precedes(pre_out[j]));
                }
            }
            assert forall|a: int, b: int|
                0 <= a < out@.len() && 0 <= b < input@.len() implies #[trigger] out@[
                a
            ].precedes(input@[b]) by {
                let src: int = if b < m { b } else { b + 1 };
                assert(input@[b] == pre_in[src]);
                if a < out@.len() - 1 {
                    assert(pre_out[a].precedes(pre_in[src]));
                } else {
                    assert(pre_in[m as int].precedes(pre_in[src]));
                }
            }
            assert(input@.to_multiset() == pre_in.remove(m as int).to_multiset());
            assert(out@.to_multiset() == pre_out.push(x).to_multiset());
            assert(input@.to_multiset() =~= pre_in.to_multiset().remove(x));
            assert(out@.to_multiset() =~= pre_out.to_multiset().insert(x));
            assert(pre_in.to_multiset().count(x) >= 1);
            assert(out@.to_multiset().add(input@.to_multiset()) =~= orig.to_multiset());
        }
    }
    out
}

} // verus!
