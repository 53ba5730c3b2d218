use inlay_hint_markup::hint::{Category, Hint, HintGroup};
use inlay_hint_markup::markup::markup;

fn hint(start: usize, end: usize, label: &str) -> Hint {
    Hint { start, end, label: label.to_string() }
}

fn group(category: Category, hints: Vec<Hint>) -> HintGroup {
    HintGroup { category, hints }
}

fn text(bytes: Vec<u8>) -> String {
    String::from_utf8(bytes).unwrap()
}

#[test]
fn parameter_hint_goes_before_its_argument() {
    let groups = vec![group(Category::ParameterHint, vec![hint(4, 4, "x")])];
    assert_eq!(text(markup("abc(1)", &groups)), "abc(x: 1)");
}

#[test]
fn type_hint_goes_after_its_binding() {
    let groups = vec![group(Category::TypeHint, vec![hint(4, 5, "i32")])];
    assert_eq!(text(markup("let x = 1;", &groups)), "let x: i32 = 1;");
}

#[test]
fn chaining_hint_template() {
    let groups = vec![group(Category::ChainingHint, vec![hint(0, 3, "Vec<u8>")])];
    assert_eq!(text(markup("a()\n.b()", &groups)), "a() // <- Vec<u8>\n.b()");
}

#[test]
fn binding_mode_hint_template() {
    let groups = vec![group(Category::BindingModeHint, vec![hint(0, 1, "ref")])];
    assert_eq!(text(markup("x)", &groups)), "x /* ref */)");
}

#[test]
fn lifetime_hint_has_no_decoration() {
    let groups = vec![group(Category::LifetimeHint, vec![hint(3, 4, "'a ")])];
    assert_eq!(text(markup("fn(&u8)", &groups)), "fn(&'a u8)");
}

#[test]
fn closing_brace_hint_at_end_of_text() {
    let groups = vec![group(Category::ClosingBraceHint, vec![hint(0, 11, "fn main")])];
    assert_eq!(text(markup("fn main(){}", &groups)), "fn main(){} /* fn main */");
}

#[test]
fn end_anchored_type_hint_at_end_of_text() {
    let groups = vec![group(Category::TypeHint, vec![hint(0, 1, "u8")])];
    assert_eq!(text(markup("x", &groups)), "x: u8");
}

#[test]
fn no_hints_gives_source_back() {
    let source = "fn main() { let s = \"héllo ✓\"; }";
    assert_eq!(markup(source, &vec![]), source.as_bytes().to_vec());
    let empty = vec![
        group(Category::TypeHint, vec![]),
        group(Category::ParameterHint, vec![]),
    ];
    assert_eq!(markup(source, &empty), source.as_bytes().to_vec());
}

#[test]
fn empty_source_keeps_hints_at_zero() {
    let groups = vec![group(Category::ParameterHint, vec![hint(0, 0, "p")])];
    assert_eq!(text(markup("", &groups)), "p: ");
}

#[test]
fn all_categories_at_one_offset_in_fixed_order() {
    let groups = vec![
        group(Category::ClosingBraceHint, vec![hint(0, 1, "c")]),
        group(Category::LifetimeHint, vec![hint(0, 1, "l")]),
        group(Category::BindingModeHint, vec![hint(0, 1, "b")]),
        group(Category::ParameterHint, vec![hint(1, 2, "p")]),
        group(Category::ChainingHint, vec![hint(0, 1, "ch")]),
        group(Category::TypeHint, vec![hint(0, 1, "t")]),
    ];
    assert_eq!(
        text(markup("ab", &groups)),
        "a: t // <- chp:  /* b */l /* c */b"
    );
}

#[test]
fn permuting_groups_keeps_output() {
    let source = "let v = f(1).g();";
    let a = vec![
        group(Category::TypeHint, vec![hint(4, 5, "Vec<u8>")]),
        group(Category::ParameterHint, vec![hint(10, 11, "n")]),
        group(Category::ChainingHint, vec![hint(8, 12, "Foo")]),
    ];
    let b = vec![a[2].clone(), a[0].clone(), a[1].clone()];
    let out = markup(source, &a);
    assert_eq!(out, markup(source, &b));
    assert_eq!(text(out), "let v: Vec<u8> = f(n: 1) // <- Foo.g();");
}

#[test]
fn emptied_category_drops_only_its_markers() {
    let source = "let v = f(1);";
    let full = vec![
        group(Category::TypeHint, vec![hint(4, 5, "i32")]),
        group(Category::ParameterHint, vec![hint(10, 11, "n")]),
    ];
    let without_types = vec![
        group(Category::TypeHint, vec![]),
        group(Category::ParameterHint, vec![hint(10, 11, "n")]),
    ];
    assert_eq!(text(markup(source, &full)), "let v: i32 = f(n: 1);");
    assert_eq!(text(markup(source, &without_types)), "let v = f(n: 1);");
}

#[test]
fn repeated_runs_agree() {
    let source = "let x = y;";
    let groups = vec![group(Category::TypeHint, vec![hint(4, 5, "u8"), hint(8, 9, "u8")])];
    assert_eq!(markup(source, &groups), markup(source, &groups.clone()));
}

#[test]
fn same_anchor_keeps_sequence_order() {
    let groups = vec![group(
        Category::ClosingBraceHint,
        vec![hint(2, 4, "inner"), hint(0, 4, "outer")],
    )];
    assert_eq!(text(markup("{{}}", &groups)), "{{}} /* inner */ /* outer */");
}

#[test]
fn offsets_refer_to_the_original_text() {
    let groups = vec![group(Category::ParameterHint, vec![hint(2, 3, "a"), hint(5, 6, "b")])];
    assert_eq!(text(markup("f(1, 2)", &groups)), "f(a: 1, b: 2)");
}

#[test]
fn anchor_after_multibyte_character() {
    let source = "let é = 1;";
    let groups = vec![group(Category::TypeHint, vec![hint(4, 6, "i32")])];
    assert_eq!(text(markup(source, &groups)), "let é: i32 = 1;");
}

#[test]
fn anchor_beyond_text_is_ignored() {
    let groups = vec![group(Category::TypeHint, vec![hint(5, 9, "u8")])];
    assert_eq!(text(markup("abc", &groups)), "abc");
}
