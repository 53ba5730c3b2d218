use inlay_hint_markup::hint::{Category, Hint};
use inlay_hint_markup::source::{category_group, sort_hints};

fn hint(start: usize, end: usize, label: &str) -> Hint {
    Hint { start, end, label: label.to_string() }
}

fn starts_and_labels(hs: &[Hint]) -> Vec<(usize, String)> {
    hs.iter().map(|h| (h.start, h.label.clone())).collect()
}

#[test]
fn hints_sorted_by_start_stably() {
    let sorted = sort_hints(vec![hint(7, 8, "c"), hint(2, 5, "a"), hint(7, 7, "d"), hint(2, 2, "b")]);
    assert_eq!(
        starts_and_labels(&sorted),
        vec![
            (2, "a".to_string()),
            (2, "b".to_string()),
            (7, "c".to_string()),
            (7, "d".to_string())
        ]
    );
}

#[test]
fn sorting_nothing_gives_nothing() {
    assert!(sort_hints(vec![]).is_empty());
}

#[test]
fn failed_category_is_empty() {
    let g = category_group(Category::LifetimeHint, None);
    assert_eq!(g.category, Category::LifetimeHint);
    assert!(g.hints.is_empty());
}

#[test]
fn computed_category_is_sorted() {
    let g = category_group(Category::TypeHint, Some(vec![hint(9, 10, "u8"), hint(1, 2, "i32")]));
    assert_eq!(g.category, Category::TypeHint);
    assert_eq!(
        starts_and_labels(&g.hints),
        vec![(1, "i32".to_string()), (9, "u8".to_string())]
    );
}
