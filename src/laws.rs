//! Properties of the annotation engine, stated over the model that the
//! contract of `markup` uses.

use vstd::prelude::*;
use vstd::seq_lib::to_multiset_contains;
use vstd::utf8::encode_utf8;

use crate::hint::{groups_view, Category, GroupView, HintGroup};
use crate::markup::{
    annotated, category_markers, hint_markers, markers_at, marks_of, woven, woven_prefix,
};

verus! {

/// No marker anywhere.
pub open spec fn no_marks() -> spec_fn(int) -> Seq<u8> {
    |i: int| Seq::<u8>::empty()
}

proof fn lemma_unmarked_prefix(src: Seq<u8>, k: int)
    requires
        0 <= k <= src.len(),
    ensures
        woven_prefix(src, no_marks(), k) == src.take(k),
    decreases k,
{
    if k > 0 {
        lemma_unmarked_prefix(src, k - 1);
        assert(src.take(k) =~= src.take(k - 1) + no_marks()(k - 1) + seq![src[k - 1]]);
    }
}

/// Removing every inserted marker reproduces the source: the annotated text
/// is the source woven with the markers anchored at each offset, and the
/// same weave without any marker is the source byte for byte.
pub proof fn lemma_markers_removed_give_source(src: Seq<u8>, gs: Seq<GroupView>)
    ensures
        annotated(src, gs) == woven(src, marks_of(gs)),
        woven(src, no_marks()) == src,
{
    lemma_unmarked_prefix(src, src.len() as int);
    assert(src.take(src.len() as int) + no_marks()(src.len() as int) =~= src);
}

/// The engine is a function of its inputs: the same text and hint groups
/// of the same value give the same bytes.
pub proof fn lemma_deterministic(t1: Seq<char>, t2: Seq<char>, g1: Seq<HintGroup>, g2: Seq<HintGroup>)
    requires
        t1 == t2,
        groups_view(g1) == groups_view(g2),
    ensures
        annotated(encode_utf8(t1), groups_view(g1)) == annotated(encode_utf8(t2), groups_view(g2)),
{
}

/// Each category appears in at most one group.
pub open spec fn one_group_per_category(gs: Seq<GroupView>) -> bool {
    forall|a: int, b: int|
        0 <= a < b < gs.len() ==> #[trigger] gs[a].category != #[trigger] gs[b].category
}

proof fn lemma_category_absent(gs: Seq<GroupView>, c: Category, i: int)
    requires
        forall|k: int| 0 <= k < gs.len() ==> #[trigger] gs[k].category != c,
    ensures
        category_markers(gs, c, i) == Seq::<u8>::empty(),
    decreases gs.len(),
{
    if gs.len() > 0 {
        let d = gs.drop_last();
        assert forall|k: int| 0 <= k < d.len() implies #[trigger] d[k].category != c by {
            assert(d[k] == gs[k]);
        }
        lemma_category_absent(d, c, i);
        assert(category_markers(gs, c, i) =~= Seq::<u8>::empty());
    }
}

proof fn lemma_category_single(gs: Seq<GroupView>, c: Category, i: int, j: int)
    requires
        one_group_per_category(gs),
        0 <= j < gs.len(),
        gs[j].category == c,
    ensures
        category_markers(gs, c, i) == hint_markers(c, gs[j].hints, i),
    decreases gs.len(),
{
    let d = gs.drop_last();
    if j == gs.len() - 1 {
        assert forall|k: int| 0 <= k < d.len() implies #[trigger] d[k].category != c by {
            assert(d[k] == gs[k]);
            assert(gs[k].category != gs[j].category);
        }
        lemma_category_absent(d, c, i);
        assert(category_markers(gs, c, i) =~= hint_markers(c, gs[j].hints, i));
    } else {
        assert(gs.last().category != gs[j].category);
        assert forall|a: int, b: int| 0 <= a < b < d.len() implies #[trigger] d[a].category
            != #[trigger] d[b].category by {
            assert(d[a] == gs[a] && d[b] == gs[b]);
        }
        assert(d[j] == gs[j]);
        lemma_category_single(d, c, i, j);
        assert(category_markers(gs, c, i) =~= category_markers(d, c, i));
    }
}

proof fn lemma_same_category_markers(g1: Seq<GroupView>, g2: Seq<GroupView>, c: Category, i: int)
    requires
        one_group_per_category(g1),
        one_group_per_category(g2),
        g1.to_multiset() == g2.to_multiset(),
    ensures
        category_markers(g1, c, i) == category_markers(g2, c, i),
{
    if exists|j: int| 0 <= j < g1.len() && g1[j].category == c {
        let j = choose|j: int| 0 <= j < g1.len() && g1[j].category == c;
        to_multiset_contains(g1, g1[j]);
        to_multiset_contains(g2, g1[j]);
        let j2 = choose|j2: int| 0 <= j2 < g2.len() && g2[j2] == g1[j];
        lemma_category_single(g1, c, i, j);
        lemma_category_single(g2, c, i, j2);
    } else {
        assert forall|k: int| 0 <= k < g2.len() implies #[trigger] g2[k].category != c by {
            to_multiset_contains(g2, g2[k]);
            to_multiset_contains(g1, g2[k]);
            if g2[k].category == c {
                let j = choose|j: int| 0 <= j < g1.len() && g1[j] == g2[k];
                assert(g1[j].category == c);
            }
        }
        lemma_category_absent(g1, c, i);
        lemma_category_absent(g2, c, i);
    }
}

/// The order in which the groups are supplied does not matter: any
/// permutation of groups, one per category, gives the same annotated text.
pub proof fn lemma_order_independent(src: Seq<u8>, g1: Seq<GroupView>, g2: Seq<GroupView>)
    requires
        one_group_per_category(g1),
        one_group_per_category(g2),
        g1.to_multiset() == g2.to_multiset(),
    ensures
        annotated(src, g1) == annotated(src, g2),
{
    assert forall|i: int| markers_at(g1, i) == markers_at(g2, i) by {
        lemma_same_category_markers(g1, g2, Category::TypeHint, i);
        lemma_same_category_markers(g1, g2, Category::ChainingHint, i);
        lemma_same_category_markers(g1, g2, Category::ParameterHint, i);
        lemma_same_category_markers(g1, g2, Category::BindingModeHint, i);
        lemma_same_category_markers(g1, g2, Category::LifetimeHint, i);
        lemma_same_category_markers(g1, g2, Category::ClosingBraceHint, i);
    }
    assert(marks_of(g1) =~= marks_of(g2));
}

/// `gs` with the hints of every group whose category is in `s` taken away.
pub open spec fn emptied(gs: Seq<GroupView>, s: Set<Category>) -> Seq<GroupView> {
    gs.map_values(
        |g: GroupView|
            if s.contains(g.category) {
                GroupView { category: g.category, hints: Seq::empty() }
            } else {
                g
            },
    )
}

/// What category `c` inserts at `i`, or nothing where `c` is in `s`.
pub open spec fn kept_markers(gs: Seq<GroupView>, s: Set<Category>, c: Category, i: int) -> Seq<u8> {
    if s.contains(c) {
        Seq::empty()
    } else {
        category_markers(gs, c, i)
    }
}

/// The markers at `i` of the categories outside `s`, in the fixed order.
pub open spec fn markers_except(gs: Seq<GroupView>, s: Set<Category>, i: int) -> Seq<u8> {
    kept_markers(gs, s, Category::TypeHint, i)
        + kept_markers(gs, s, Category::ChainingHint, i)
        + kept_markers(gs, s, Category::ParameterHint, i)
        + kept_markers(gs, s, Category::BindingModeHint, i)
        + kept_markers(gs, s, Category::LifetimeHint, i)
        + kept_markers(gs, s, Category::ClosingBraceHint, i)
}

proof fn lemma_emptied_category(gs: Seq<GroupView>, s: Set<Category>, c: Category, i: int)
    ensures
        category_markers(emptied(gs, s), c, i) == kept_markers(gs, s, c, i),
    decreases gs.len(),
{
    if gs.len() > 0 {
        let e = emptied(gs, s);
        assert(e.drop_last() =~= emptied(gs.drop_last(), s));
        lemma_emptied_category(gs.drop_last(), s, c, i);
        if s.contains(gs.last().category) {
            assert(hint_markers(c, e.last().hints, i) == Seq::<u8>::empty());
        }
        assert(category_markers(e, c, i) =~= kept_markers(gs, s, c, i));
    }
}

/// Emptying the groups of some categories only drops their markers: the
/// result is the source woven with the markers of the other categories, at
/// the same offsets and in the same order as with all groups present.
pub proof fn lemma_empty_categories_neutral(src: Seq<u8>, gs: Seq<GroupView>, s: Set<Category>)
    ensures
        annotated(src, emptied(gs, s)) == woven(src, |i: int| markers_except(gs, s, i)),
        forall|i: int| #[trigger] markers_except(gs, Set::empty(), i) == markers_at(gs, i),
{
    assert forall|i: int| markers_at(emptied(gs, s), i) == markers_except(gs, s, i) by {
        lemma_emptied_category(gs, s, Category::TypeHint, i);
        lemma_emptied_category(gs, s, Category::ChainingHint, i);
        lemma_emptied_category(gs, s, Category::ParameterHint, i);
        lemma_emptied_category(gs, s, Category::BindingModeHint, i);
        lemma_emptied_category(gs, s, Category::LifetimeHint, i);
        lemma_emptied_category(gs, s, Category::ClosingBraceHint, i);
    }
    assert(marks_of(emptied(gs, s)) =~= (|i: int| markers_except(gs, s, i)));
}

proof fn lemma_woven_prefix_grows(src: Seq<u8>, marks: spec_fn(int) -> Seq<u8>, k: int, j: int)
    requires
        0 <= k <= j,
    ensures
        woven_prefix(src, marks, k).len() <= woven_prefix(src, marks, j).len(),
        woven_prefix(src, marks, j).take(woven_prefix(src, marks, k).len() as int) == woven_prefix(
            src,
            marks,
            k,
        ),
    decreases j,
{
    if k < j {
        lemma_woven_prefix_grows(src, marks, k, j - 1);
        let p = woven_prefix(src, marks, j - 1);
        assert(woven_prefix(src, marks, j).take(p.len() as int) =~= p);
        assert(woven_prefix(src, marks, j).take(woven_prefix(src, marks, k).len() as int)
            =~= p.take(woven_prefix(src, marks, k).len() as int));
    } else {
        assert(woven_prefix(src, marks, j).take(woven_prefix(src, marks, j).len() as int)
            =~= woven_prefix(src, marks, j));
    }
}

/// Markers stand at their anchors of the original text: for each offset
/// `k` of the source, the output starts with the first `k` source bytes and
/// their markers, then what is anchored at `k`, then source byte `k`.
pub proof fn lemma_anchor(src: Seq<u8>, gs: Seq<GroupView>, k: int)
    requires
        0 <= k < src.len(),
    ensures
        ({
            let before = woven_prefix(src, marks_of(gs), k);
            let here = before + markers_at(gs, k) + seq![src[k]];
            &&& annotated(src, gs).take(here.len() as int) == here
            &&& woven_prefix(src, no_marks(), k) == src.take(k)
        }),
{
    let m = marks_of(gs);
    lemma_woven_prefix_grows(src, m, k + 1, src.len() as int);
    let w = woven_prefix(src, m, src.len() as int);
    let here = woven_prefix(src, m, k + 1);
    assert(annotated(src, gs).take(here.len() as int) =~= w.take(here.len() as int));
    lemma_unmarked_prefix(src, k);
}

/// What is anchored at the end of the text follows the last source byte.
pub proof fn lemma_end_of_text(src: Seq<u8>, gs: Seq<GroupView>)
    ensures
        ({
            let out = annotated(src, gs);
            let tail = markers_at(gs, src.len() as int);
            &&& out.len() >= tail.len()
            &&& out.subrange(out.len() - tail.len(), out.len() as int) == tail
            &&& src.len() > 0 ==> out[out.len() - tail.len() - 1] == src.last()
        }),
{
    let out = annotated(src, gs);
    let tail = markers_at(gs, src.len() as int);
    let w = woven_prefix(src, marks_of(gs), src.len() as int);
    assert(out.subrange(out.len() - tail.len(), out.len() as int) =~= tail);
    if src.len() > 0 {
        assert(w.last() == src.last());
        assert(out[out.len() - tail.len() - 1] == w[w.len() - 1]);
    }
}

} // verus!
