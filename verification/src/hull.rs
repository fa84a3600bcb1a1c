use vstd::prelude::*;
use crate::bounds::{bounds_of, AbstractBounds, Bounds, GuaranteedBounded};

verus! {

/// Whether every item of a sequence is well-formed.
pub open spec fn all_wf<R: GuaranteedBounded>(items: Seq<Bounds<R>>) -> bool {
    forall|k: int| 0 <= k < items.len() ==> (#[trigger] items[k]).wf()
}

impl<R: GuaranteedBounded> Bounds<R> {
    /// The hull of a sequence is well-formed and holds every item of it.
    pub proof fn lemma_hull_holds_every_item(items: Seq<Self>)
        requires
            all_wf(items),
        ensures
            Self::hull_of(items).wf(),
            forall|k: int|
                0 <= k < items.len() ==> Self::hull_of(items).covers(#[trigger] items[k]),
        decreases items.len(),
    {
        if items.len() > 0 {
            let front = items.drop_last();
            let last = items.last();
            Self::lemma_hull_holds_every_item(front);
            let inner = Self::hull_of(front);
            let whole = Self::hull_of(items);
            Self::lemma_joined_holds_both(inner, last);
            assert forall|k: int| 0 <= k < items.len() implies whole.covers(
                #[trigger] items[k],
            ) by {
                if k < items.len() - 1 {
                    assert(front[k] == items[k]);
                    Self::lemma_containment_is_transitive(whole, inner, items[k]);
                }
            }
        }
    }

    /// The hull of a sequence lies inside everything that holds every item of
    /// it.
    pub proof fn lemma_hull_is_least(items: Seq<Self>, around: Self)
        requires
            all_wf(items),
            forall|k: int| 0 <= k < items.len() ==> around.covers(#[trigger] items[k]),
        ensures
            around.covers(Self::hull_of(items)),
        decreases items.len(),
    {
        if items.len() > 0 {
            let front = items.drop_last();
            assert forall|k: int| 0 <= k < front.len() implies around.covers(
                #[trigger] front[k],
            ) by {
                assert(front[k] == items[k]);
            }
            Self::lemma_hull_is_least(front, around);
            Self::lemma_hull_holds_every_item(front);
            Self::lemma_joined_is_least(Self::hull_of(front), items.last(), around);
        }
    }

    /// The hull depends on which items a sequence holds, not on their order
    /// nor on how often each occurs.
    pub proof fn lemma_hull_ignores_order(first: Seq<Self>, second: Seq<Self>)
        requires
            all_wf(first),
            all_wf(second),
            forall|x: Self| first.contains(x) <==> second.contains(x),
        ensures
            Self::hull_of(first) == Self::hull_of(second),
    {
        let h1 = Self::hull_of(first);
        let h2 = Self::hull_of(second);
        Self::lemma_hull_holds_every_item(first);
        Self::lemma_hull_holds_every_item(second);
        assert forall|k: int| 0 <= k < first.len() implies h2.covers(#[trigger] first[k]) by {
            assert(first.contains(first[k]));
            let j = choose|j: int| 0 <= j < second.len() && second[j] == first[k];
            assert(h2.covers(second[j]));
        }
        assert forall|k: int| 0 <= k < second.len() implies h1.covers(#[trigger] second[k]) by {
            assert(second.contains(second[k]));
            let j = choose|j: int| 0 <= j < first.len() && first[j] == second[k];
            assert(h1.covers(first[j]));
        }
        Self::lemma_hull_is_least(first, h2);
        Self::lemma_hull_is_least(second, h1);
        Self::lemma_mutual_containment_is_equality(h1, h2);
    }

    /// The hull of a sequence read backwards is the hull of the sequence.
    pub proof fn lemma_hull_of_reverse(items: Seq<Self>)
        requires
            all_wf(items),
        ensures
            Self::hull_of(items.reverse()) == Self::hull_of(items),
    {
        let back = items.reverse();
        assert forall|x: Self| items.contains(x) <==> back.contains(x) by {
            if items.contains(x) {
                let k = choose|k: int| 0 <= k < items.len() && items[k] == x;
                assert(back[items.len() - 1 - k] == x);
            }
            if back.contains(x) {
                let k = choose|k: int| 0 <= k < back.len() && back[k] == x;
                assert(items[items.len() - 1 - k] == x);
            }
        }
        Self::lemma_hull_ignores_order(items, back);
    }

    /// Two sequences that are rearrangements of each other have the same hull.
    pub proof fn lemma_hull_of_permutation(first: Seq<Self>, second: Seq<Self>)
        requires
            all_wf(first),
            all_wf(second),
            first.to_multiset() == second.to_multiset(),
        ensures
            Self::hull_of(first) == Self::hull_of(second),
    {
        first.to_multiset_ensures();
        second.to_multiset_ensures();
        assert forall|x: Self| first.contains(x) <==> second.contains(x) by {
            assert(first.contains(x) <==> first.to_multiset().count(x) > 0);
            assert(second.contains(x) <==> second.to_multiset().count(x) > 0);
        }
        Self::lemma_hull_ignores_order(first, second);
    }

    /// The hull of a sequence of points, regions or bounds depends on which
    /// items the sequence holds, not on their order nor on how often each
    /// occurs.
    pub proof fn lemma_hull_of_items_ignores_order<U: AbstractBounds<R>>(
        first: Seq<U>,
        second: Seq<U>,
    )
        requires
            forall|k: int| 0 <= k < first.len() ==> (#[trigger] first[k]).is_valid(),
            forall|k: int| 0 <= k < second.len() ==> (#[trigger] second[k]).is_valid(),
            forall|x: U| first.contains(x) <==> second.contains(x),
        ensures
            Self::hull_of(bounds_of(first)) == Self::hull_of(bounds_of(second)),
    {
        let a = bounds_of::<R, U>(first);
        let b = bounds_of::<R, U>(second);
        assert forall|k: int| 0 <= k < a.len() implies (#[trigger] a[k]).wf() by {
            first[k].lemma_valid_gives_wf();
        }
        assert forall|k: int| 0 <= k < b.len() implies (#[trigger] b[k]).wf() by {
            second[k].lemma_valid_gives_wf();
        }
        assert forall|x: Self| a.contains(x) <==> b.contains(x) by {
            if a.contains(x) {
                let k = choose|k: int| 0 <= k < a.len() && a[k] == x;
                assert(first.contains(first[k]));
                let j = choose|j: int| 0 <= j < second.len() && second[j] == first[k];
                assert(b[j] == x);
            }
            if b.contains(x) {
                let k = choose|k: int| 0 <= k < b.len() && b[k] == x;
                assert(second.contains(second[k]));
                let j = choose|j: int| 0 <= j < first.len() && first[j] == second[k];
                assert(a[j] == x);
            }
        }
        Self::lemma_hull_ignores_order(a, b);
    }
}

} // verus!
