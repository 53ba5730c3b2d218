//! The annotation engine: merges the hints of every category into the
//! source text, each marker at its anchor offset of the original text.

use vstd::prelude::*;
use vstd::string::StringSliceAdditionalSpecFns;

use crate::hint::{
    groups_view, hints_view, marker, push_marker, Category, GroupView, Hint, HintGroup, HintView,
};

verus! {

/// The markers of the hints `hs` of category `c` that anchor at `i`, in order.
pub open spec fn hint_markers(c: Category, hs: Seq<HintView>, i: int) -> Seq<u8>
    decreases hs.len(),
{
    if hs.len() == 0 {
        seq![]
    } else {
        let h = hs.last();
        hint_markers(c, hs.drop_last(), i) + if c.anchor(h) == i {
            marker(c, h.label)
        } else {
            seq![]
        }
    }
}

/// The markers that the groups of category `c` anchor at `i`, group by group.
pub open spec fn category_markers(gs: Seq<GroupView>, c: Category, i: int) -> Seq<u8>
    decreases gs.len(),
{
    if gs.len() == 0 {
        seq![]
    } else {
        category_markers(gs.drop_last(), c, i) + if gs.last().category == c {
            hint_markers(c, gs.last().hints, i)
        } else {
            seq![]
        }
    }
}

/// Everything inserted at offset `i`, the categories in their fixed order.
pub open spec fn markers_at(gs: Seq<GroupView>, i: int) -> Seq<u8> {
    category_markers(gs, Category::TypeHint, i)
        + category_markers(gs, Category::ChainingHint, i)
        + category_markers(gs, Category::ParameterHint, i)
        + category_markers(gs, Category::BindingModeHint, i)
        + category_markers(gs, Category::LifetimeHint, i)
        + category_markers(gs, Category::ClosingBraceHint, i)
}

/// The first `k` bytes of `src`, each preceded by what `marks` inserts at its offset.
pub open spec fn woven_prefix(src: Seq<u8>, marks: spec_fn(int) -> Seq<u8>, k: int) -> Seq<u8>
    decreases k,
{
    if k <= 0 {
        seq![]
    } else {
        woven_prefix(src, marks, k - 1) + marks(k - 1) + seq![src[k - 1]]
    }
}

/// `src` with `marks(i)` inserted before byte `i`, and `marks(len)` after the last byte.
pub open spec fn woven(src: Seq<u8>, marks: spec_fn(int) -> Seq<u8>) -> Seq<u8> {
    woven_prefix(src, marks, src.len() as int) + marks(src.len() as int)
}

/// The markers of `gs`, offset by offset.
pub open spec fn marks_of(gs: Seq<GroupView>) -> spec_fn(int) -> Seq<u8> {
    |i: int| markers_at(gs, i)
}

/// The annotated text: `src` with the markers of `gs` at their anchors.
pub open spec fn annotated(src: Seq<u8>, gs: Seq<GroupView>) -> Seq<u8> {
    woven(src, marks_of(gs))
}

fn push_hint_markers(out: &mut Vec<u8>, c: Category, hints: &Vec<Hint>, i: usize)
    ensures
        final(out)@ == old(out)@ + hint_markers(c, hints_view(hints@), i as int),
{
    let ghost hv = hints_view(hints@);
    let mut k: usize = 0;
    while k < hints.len()
        invariant
            k <= hints@.len(),
            hv == hints_view(hints@),
            out@ == old(out)@ + hint_markers(c, hv.take(k as int), i as int),
        decreases hints@.len() - k,
    {
        let h = &hints[k];
        assert(hv.take(k + 1).drop_last() =~= hv.take(k as int));
        assert(hv.take(k + 1).last() == h@);
        if c.anchor_of(h) == i {
            push_marker(out, c, h.label.as_str());
        }
        k = k + 1;
    }
    assert(hv.take(k as int) =~= hv);
}

fn push_category_markers(out: &mut Vec<u8>, groups: &Vec<HintGroup>, c: Category, i: usize)
    ensures
        final(out)@ == old(out)@ + category_markers(groups_view(groups@), c, i as int),
{
    let ghost gv = groups_view(groups@);
    let mut k: usize = 0;
    while k < groups.len()
        invariant
            k <= groups@.len(),
            gv == groups_view(groups@),
            out@ == old(out)@ + category_markers(gv.take(k as int), c, i as int),
        decreases groups@.len() - k,
    {
        let g = &groups[k];
        assert(gv.take(k + 1).drop_last() =~= gv.take(k as int));
        assert(gv.take(k + 1).last() == g@);
        if g.category == c {
            push_hint_markers(out, c, &g.hints, i);
        }
        k = k + 1;
    }
    assert(gv.take(k as int) =~= gv);
}

fn push_markers_at(out: &mut Vec<u8>, groups: &Vec<HintGroup>, i: usize)
    ensures
        final(out)@ == old(out)@ + markers_at(groups_view(groups@), i as int),
{
    push_category_markers(out, groups, Category::TypeHint, i);
    push_category_markers(out, groups, Category::ChainingHint, i);
    push_category_markers(out, groups, Category::ParameterHint, i);
    push_category_markers(out, groups, Category::BindingModeHint, i);
    push_category_markers(out, groups, Category::LifetimeHint, i);
    push_category_markers(out, groups, Category::ClosingBraceHint, i);
    assert(final(out)@ =~= old(out)@ + markers_at(groups_view(groups@), i as int));
}

/// Inserts the marker of every hint of `groups` into `source`.
///
/// A scan over the original bytes: before byte `i` go the markers anchored
/// at `i`, and the markers anchored at the end of the text follow its last
/// byte. At one offset the categories come in the order type, chaining,
/// parameter, binding mode, lifetime, closing brace; within a category, in
/// the order of the groups and of the hints in each group. Offsets refer to
/// the original text, so earlier insertions never shift later ones. A hint
/// whose anchor lies beyond the text contributes nothing.
pub fn markup(source: &str, groups: &Vec<HintGroup>) -> (r: Vec<u8>)
    ensures
        r@ == annotated(source.spec_bytes(), groups_view(groups@)),
{
    let bytes = source.as_bytes();
    let ghost src = source.spec_bytes();
    let ghost gv = groups_view(groups@);
    let mut out: Vec<u8> = Vec::new();
    let mut i: usize = 0;
    while i < bytes.len()
        invariant
            i <= bytes@.len(),
            bytes@ == src,
            gv == groups_view(groups@),
            out@ == woven_prefix(src, marks_of(gv), i as int),
        decreases bytes@.len() - i,
    {
        push_markers_at(&mut out, groups, i);
        out.push(bytes[i]);
        i = i + 1;
        assert(out@ =~= woven_prefix(src, marks_of(gv), i as int));
    }
    push_markers_at(&mut out, groups, i);
    out
}

} // verus!
