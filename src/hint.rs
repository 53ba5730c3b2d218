//! Hints, their categories, and how each category is anchored and rendered.

use vstd::prelude::*;
use vstd::string::StringSliceAdditionalSpecFns;
use vstd::utf8::encode_utf8;

verus! {

/// The ASCII bytes that the marker templates are made of.
pub const COLON: u8 = 58;
pub const SPACE: u8 = 32;
pub const SLASH: u8 = 47;
pub const STAR: u8 = 42;
pub const LESS: u8 = 60;
pub const DASH: u8 = 45;

/// The kinds of hint that the analysis engine computes.
#[derive(Clone, Copy, Debug, PartialEq, Eq, Structural)]
pub enum Category {
    TypeHint,
    ChainingHint,
    ParameterHint,
    BindingModeHint,
    LifetimeHint,
    ClosingBraceHint,
}

/// A label attached to the byte range `[start, end)` of a source text.
#[derive(Clone, Debug)]
pub struct Hint {
    pub start: usize,
    pub end: usize,
    pub label: String,
}

/// The mathematical value of a `Hint`.
pub struct HintView {
    pub start: int,
    pub end: int,
    pub label: Seq<char>,
}

impl View for Hint {
    type V = HintView;

    open spec fn view(&self) -> HintView {
        HintView { start: self.start as int, end: self.end as int, label: self.label@ }
    }
}

/// The hints that one category produced for a text, sorted by start offset.
#[derive(Clone, Debug)]
pub struct HintGroup {
    pub category: Category,
    pub hints: Vec<Hint>,
}

/// The mathematical value of a `HintGroup`.
pub struct GroupView {
    pub category: Category,
    pub hints: Seq<HintView>,
}

/// The values of the hints `hs`.
pub open spec fn hints_view(hs: Seq<Hint>) -> Seq<HintView> {
    hs.map_values(|h: Hint| h@)
}

impl View for HintGroup {
    type V = GroupView;

    open spec fn view(&self) -> GroupView {
        GroupView { category: self.category, hints: hints_view(self.hints@) }
    }
}

/// The values of the groups `gs`.
pub open spec fn groups_view(gs: Seq<HintGroup>) -> Seq<GroupView> {
    gs.map_values(|g: HintGroup| g@)
}

impl Category {
    /// Parameter names go before the argument; every other category goes
    /// after the range it describes.
    pub open spec fn anchor(self, h: HintView) -> int {
        if self == Category::ParameterHint {
            h.start
        } else {
            h.end
        }
    }

    /// The bytes inserted for a hint of this category with UTF-8 label `label`.
    pub open spec fn rendered(self, label: Seq<u8>) -> Seq<u8> {
        match self {
            Category::TypeHint => seq![COLON, SPACE] + label,
            Category::ChainingHint => seq![SPACE, SLASH, SLASH, SPACE, LESS, DASH, SPACE] + label,
            Category::ParameterHint => label + seq![COLON, SPACE],
            Category::BindingModeHint => seq![SPACE, SLASH, STAR, SPACE] + label + seq![SPACE, STAR, SLASH],
            Category::LifetimeHint => label,
            Category::ClosingBraceHint => seq![SPACE, SLASH, STAR, SPACE] + label + seq![SPACE, STAR, SLASH],
        }
    }

    /// The offset at which the marker of `h` is inserted.
    pub fn anchor_of(self, h: &Hint) -> (r: usize)
        ensures
            r as int == self.anchor(h@),
    {
        match self {
            Category::ParameterHint => h.start,
            _ => h.end,
        }
    }
}

/// The marker of a hint with label `label` in category `c`, as UTF-8 bytes.
pub open spec fn marker(c: Category, label: Seq<char>) -> Seq<u8> {
    c.rendered(encode_utf8(label))
}

fn push_all(out: &mut Vec<u8>, bytes: &[u8])
    ensures
        final(out)@ == old(out)@ + bytes@,
{
    let mut k: usize = 0;
    while k < bytes.len()
        invariant
            k <= bytes@.len(),
            out@ == old(out)@ + bytes@.subrange(0, k as int),
        decreases bytes@.len() - k,
    {
        out.push(bytes[k]);
        k = k + 1;
        assert(bytes@.subrange(0, k as int) =~= bytes@.subrange(0, k - 1) + seq![bytes@[k - 1]]);
    }
    assert(bytes@.subrange(0, k as int) =~= bytes@);
}

/// Appends the marker of a hint of category `c` with label `label`.
pub fn push_marker(out: &mut Vec<u8>, c: Category, label: &str)
    ensures
        final(out)@ == old(out)@ + marker(c, label@),
{
    let bytes = label.as_bytes();
    let ghost l = label.spec_bytes();
    match c {
        Category::TypeHint => {
            push_all(out, &[COLON, SPACE]);
            push_all(out, bytes);
        },
        Category::ChainingHint => {
            push_all(out, &[SPACE, SLASH, SLASH, SPACE, LESS, DASH, SPACE]);
            push_all(out, bytes);
        },
        Category::ParameterHint => {
            push_all(out, bytes);
            push_all(out, &[COLON, SPACE]);
        },
        Category::LifetimeHint => {
            push_all(out, bytes);
        },
        _ => {
            push_all(out, &[SPACE, SLASH, STAR, SPACE]);
            push_all(out, bytes);
            push_all(out, &[SPACE, STAR, SLASH]);
        },
    }
    assert(final(out)@ =~= old(out)@ + c.rendered(l));
}

} // verus!
