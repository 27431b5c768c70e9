//! Direct tests of the layout algebra and the renderer.

use mzfmt::doc::{append, group, nest, text, Doc};
use mzfmt::render::render;

fn soft_pair() -> Doc {
    // text("ab") <> line <> text("cd"), grouped.
    let l = text("ab");
    let r = text("cd");
    group(append(l, append(Doc::Line, r)))
}

#[test]
fn group_flattens_when_it_fits() {
    assert_eq!(render(&soft_pair(), 5), "ab cd");
    assert_eq!(render(&soft_pair(), 100), "ab cd");
}

#[test]
fn group_breaks_when_it_does_not_fit() {
    assert_eq!(render(&soft_pair(), 4), "ab\ncd");
    assert_eq!(render(&soft_pair(), 0), "ab\ncd");
}

#[test]
fn nest_indents_inner_newlines() {
    let l = text("ab");
    let r = text("cd");
    let d = group(nest(2, append(l, append(Doc::Line, r))));
    assert_eq!(render(&d, 4), "ab\n  cd");
    assert_eq!(render(&d, 5), "ab cd");
}

#[test]
fn soft_empty_break_vanishes_when_flat() {
    let l = text("(");
    let r = text(")");
    let d = group(append(l, append(Doc::LineEmpty, r)));
    assert_eq!(render(&d, 80), "()");
    assert_eq!(render(&d, 0), "(\n)");
}

#[test]
fn hard_break_survives_any_width() {
    let l = text("a");
    let r = text("b");
    let d = group(append(l, append(Doc::HardLine, r)));
    assert_eq!(render(&d, 1000), "a\nb");
}

#[test]
fn oversized_leaf_is_never_split() {
    let d = group(text("averylongtokenthatcannotfit"));
    assert_eq!(render(&d, 3), "averylongtokenthatcannotfit");
}

#[test]
fn rendering_is_deterministic() {
    let d = soft_pair();
    for width in [0usize, 1, 4, 5, 6, 100] {
        assert_eq!(render(&d, width), render(&d, width));
    }
}

#[test]
fn concat_joins_documents_without_separators() {
    let docs = vec![text("a"), text("b"), text("c")];
    let d = mzfmt::doc::concat(docs);
    assert_eq!(render(&d, 80), "abc");
    assert_eq!(render(&d, 0), "abc");
}
