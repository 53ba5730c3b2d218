//! Turning what the analysis engine computed for one category into a hint
//! group: the hints sorted by start offset, a failed category left empty.

use itertools::Itertools;
use vstd::prelude::*;

use crate::hint::{Category, Hint, HintGroup};

verus! {

/// Every hint starts no later than the hints after it.
pub open spec fn sorted_by_start(hs: Seq<Hint>) -> bool {
    forall|a: int, b: int| 0 <= a < b < hs.len() ==> #[trigger] hs[a].start <= #[trigger] hs[b].start
}

/// The hints of `hs` that start at `k`, in their order in `hs`.
pub open spec fn starting_at(hs: Seq<Hint>, k: usize) -> Seq<Hint> {
    hs.filter(|h: Hint| h.start == k)
}

/// A stable sort of `hs` by start offset: `r` is sorted, and the hints of
/// each start offset are those of `hs`, in their order there.
pub open spec fn is_stable_sort_by_start(hs: Seq<Hint>, r: Seq<Hint>) -> bool {
    &&& r.len() == hs.len()
    &&& sorted_by_start(r)
    &&& forall|k: usize| #[trigger] starting_at(r, k) == starting_at(hs, k)
}

/// Relies on itertools::Itertools::sorted_by_key, which collects the items
/// into a Vec and orders it with the stable slice::sort_by_key.
#[verifier::external_body]
fn sorted_by_start_key(hints: Vec<Hint>) -> (r: Vec<Hint>)
    ensures
        is_stable_sort_by_start(hints@, r@),
{
    hints.into_iter().sorted_by_key(|h| h.start).collect()
}

/// Orders hints by start offset; hints with the same start keep their order.
pub fn sort_hints(hints: Vec<Hint>) -> (r: Vec<Hint>)
    ensures
        is_stable_sort_by_start(hints@, r@),
{
    sorted_by_start_key(hints)
}

/// The group of category `category` from what the analysis computed for
/// it: the computed hints sorted by start, or no hint where it failed.
pub fn category_group(category: Category, computed: Option<Vec<Hint>>) -> (g: HintGroup)
    ensures
        g.category == category,
        match computed {
            Some(hs) => is_stable_sort_by_start(hs@, g.hints@),
            None => g.hints@.len() == 0,
        },
{
    match computed {
        Some(hs) => HintGroup { category, hints: sort_hints(hs) },
        None => HintGroup { category, hints: Vec::new() },
    }
}

} // verus!
