//! Laws of the renderer.
//!
//! Two properties hold of every rendering. First, a document without hard
//! breaks whose flat form fits the width renders as that single flat line.
//! Second, rendering only ever places whitespace between a document's
//! atomic text leaves: every leaf appears in the output intact and in
//! order, never divided, whatever the width.

use vstd::prelude::*;

use crate::ast::Statement;
use crate::compile::d_statement;
use crate::doc::DocV;
use crate::render::{
    fits, lemma_stack_size_push, newline_at, pretty, render_cmds, sat_add, spaces, stack_size,
    CmdV, Mode,
};

verus! {

/// The flat rendering of a document: every soft break takes its flat
/// form, and groups and nesting disappear.
pub open spec fn flat_of(d: DocV) -> Seq<char>
    decreases d,
{
    match d {
        DocV::Text(s) => s,
        DocV::Line => seq![' '],
        DocV::LineEmpty => Seq::empty(),
        DocV::HardLine => seq!['\n'],
        DocV::Nil => Seq::empty(),
        DocV::Append(l, r) => flat_of(*l) + flat_of(*r),
        DocV::Nest(_, d2) => flat_of(*d2),
        DocV::Group(d2) => flat_of(*d2),
    }
}

/// No hard break anywhere, and no newline inside any text leaf: the
/// document admits a single-line rendering.
pub open spec fn single_line_safe(d: DocV) -> bool
    decreases d,
{
    match d {
        DocV::Text(s) => forall|i: int| 0 <= i < s.len() ==> s[i] != '\n',
        DocV::HardLine => false,
        DocV::Append(l, r) => single_line_safe(*l) && single_line_safe(*r),
        DocV::Nest(_, d2) => single_line_safe(*d2),
        DocV::Group(d2) => single_line_safe(*d2),
        _ => true,
    }
}

/// No hard break anywhere in the document.
pub open spec fn no_hard(d: DocV) -> bool
    decreases d,
{
    match d {
        DocV::HardLine => false,
        DocV::Append(l, r) => no_hard(*l) && no_hard(*r),
        DocV::Nest(_, d2) => no_hard(*d2),
        DocV::Group(d2) => no_hard(*d2),
        _ => true,
    }
}

/// No hard break anywhere on the stack.
pub open spec fn no_hard_cmds(cmds: Seq<CmdV>) -> bool {
    forall|i: int| 0 <= i < cmds.len() ==> no_hard(#[trigger] cmds[i].2)
}

/// A sequence of characters free of newlines: one output line.
pub open spec fn one_line(s: Seq<char>) -> bool {
    forall|i: int| 0 <= i < s.len() ==> s[i] != '\n'
}

/// Every command's mode on the stack is flat.
pub open spec fn all_flat(cmds: Seq<CmdV>) -> bool {
    forall|i: int| 0 <= i < cmds.len() ==> #[trigger] cmds[i].1 is Flat
}

/// The flat text of a whole command stack, in the order the renderer
/// emits it: the top of the stack first.
pub open spec fn flat_cmds(cmds: Seq<CmdV>) -> Seq<char>
    decreases stack_size(cmds),
{
    if cmds.len() == 0 {
        Seq::empty()
    } else {
        flat_of(cmds.last().2) + flat_cmds(cmds.drop_last())
    }
}

proof fn lemma_flat_cmds_push(s: Seq<CmdV>, c: CmdV)
    ensures
        flat_cmds(s.push(c)) == flat_of(c.2) + flat_cmds(s),
{
    assert(s.push(c).drop_last() =~= s);
    assert(s.push(c).last() == c);
}

/// A flat stack whose remaining flat width fits the budget passes the
/// fitting test.
proof fn lemma_fits_flat(width: nat, used: nat, cmds: Seq<CmdV>)
    requires
        width <= usize::MAX as nat,
        all_flat(cmds),
        used + flat_cmds(cmds).len() <= width,
    ensures
        fits(width, used, cmds),
    decreases stack_size(cmds),
{
    if cmds.len() > 0 {
        let (ind, mode, d) = cmds.last();
        let rest = cmds.drop_last();
        assert(cmds[cmds.len() - 1].1 is Flat);
        assert(forall|i: int| 0 <= i < rest.len() ==> rest[i] == cmds[i]);
        match d {
            DocV::Text(s) => {
                assert(sat_add(used, s.len()) == used + s.len());
                lemma_fits_flat(width, sat_add(used, s.len()), rest);
            },
            DocV::Line => {
                assert(sat_add(used, 1) == used + 1);
                lemma_fits_flat(width, sat_add(used, 1), rest);
            },
            DocV::LineEmpty => {
                lemma_fits_flat(width, used, rest);
            },
            DocV::HardLine => {},
            DocV::Nil => {
                lemma_fits_flat(width, used, rest);
            },
            DocV::Append(l, r) => {
                lemma_stack_size_push(rest, (ind, mode, *r));
                lemma_stack_size_push(rest.push((ind, mode, *r)), (ind, mode, *l));
                lemma_flat_cmds_push(rest, (ind, mode, *r));
                lemma_flat_cmds_push(rest.push((ind, mode, *r)), (ind, mode, *l));
                assert(all_flat(rest.push((ind, mode, *r)).push((ind, mode, *l))));
                lemma_fits_flat(width, used, rest.push((ind, mode, *r)).push((ind, mode, *l)));
            },
            DocV::Nest(j, d2) => {
                lemma_stack_size_push(rest, (sat_add(ind, j), mode, *d2));
                lemma_flat_cmds_push(rest, (sat_add(ind, j), mode, *d2));
                assert(all_flat(rest.push((sat_add(ind, j), mode, *d2))));
                lemma_fits_flat(width, used, rest.push((sat_add(ind, j), mode, *d2)));
            },
            DocV::Group(d2) => {
                lemma_stack_size_push(rest, (ind, mode, *d2));
                lemma_flat_cmds_push(rest, (ind, mode, *d2));
                assert(all_flat(rest.push((ind, mode, *d2))));
                lemma_fits_flat(width, used, rest.push((ind, mode, *d2)));
            },
        }
    }
}

/// A stack whose every command is flat renders exactly its flat text.
proof fn lemma_render_flat(width: nat, pos: nat, cmds: Seq<CmdV>)
    requires
        all_flat(cmds),
        no_hard_cmds(cmds),
    ensures
        render_cmds(width, pos, cmds) == flat_cmds(cmds),
    decreases stack_size(cmds),
{
    if cmds.len() > 0 {
        let (ind, mode, d) = cmds.last();
        let rest = cmds.drop_last();
        assert(cmds[cmds.len() - 1].1 is Flat);
        assert(forall|i: int| 0 <= i < rest.len() ==> rest[i] == cmds[i]);
        match d {
            DocV::Text(s) => {
                lemma_render_flat(width, sat_add(pos, s.len()), rest);
            },
            DocV::Line => {
                lemma_render_flat(width, sat_add(pos, 1), rest);
            },
            DocV::LineEmpty => {
                lemma_render_flat(width, pos, rest);
                assert(flat_cmds(cmds) =~= render_cmds(width, pos, cmds));
            },
            DocV::HardLine => {
                assert(no_hard(cmds[cmds.len() - 1].2));
                assert(false);
            },
            DocV::Nil => {
                lemma_render_flat(width, pos, rest);
                assert(flat_cmds(cmds) =~= render_cmds(width, pos, cmds));
            },
            DocV::Append(l, r) => {
                lemma_stack_size_push(rest, (ind, mode, *r));
                lemma_stack_size_push(rest.push((ind, mode, *r)), (ind, mode, *l));
                lemma_flat_cmds_push(rest, (ind, mode, *r));
                lemma_flat_cmds_push(rest.push((ind, mode, *r)), (ind, mode, *l));
                assert(all_flat(rest.push((ind, mode, *r)).push((ind, mode, *l))));
                assert(no_hard(cmds[cmds.len() - 1].2));
                assert(no_hard_cmds(rest.push((ind, mode, *r)).push((ind, mode, *l))));
                lemma_render_flat(width, pos, rest.push((ind, mode, *r)).push((ind, mode, *l)));
                assert(flat_cmds(cmds) =~= render_cmds(width, pos, cmds));
            },
            DocV::Nest(j, d2) => {
                lemma_stack_size_push(rest, (sat_add(ind, j), mode, *d2));
                lemma_flat_cmds_push(rest, (sat_add(ind, j), mode, *d2));
                assert(all_flat(rest.push((sat_add(ind, j), mode, *d2))));
                assert(no_hard(cmds[cmds.len() - 1].2));
                assert(no_hard_cmds(rest.push((sat_add(ind, j), mode, *d2))));
                lemma_render_flat(width, pos, rest.push((sat_add(ind, j), mode, *d2)));
            },
            DocV::Group(d2) => {
                lemma_stack_size_push(rest, (ind, Mode::Flat, *d2));
                lemma_flat_cmds_push(rest, (ind, Mode::Flat, *d2));
                assert(all_flat(rest.push((ind, Mode::Flat, *d2))));
                assert(no_hard(cmds[cmds.len() - 1].2));
                assert(no_hard_cmds(rest.push((ind, Mode::Flat, *d2))));
                lemma_render_flat(width, pos, rest.push((ind, Mode::Flat, *d2)));
            },
        }
    }
}

/// A single-line-safe document has no hard break.
proof fn lemma_single_line_safe_no_hard(d: DocV)
    requires
        single_line_safe(d),
    ensures
        no_hard(d),
    decreases d,
{
    match d {
        DocV::Append(l, r) => {
            lemma_single_line_safe_no_hard(*l);
            lemma_single_line_safe_no_hard(*r);
        },
        DocV::Nest(_, d2) => {
            lemma_single_line_safe_no_hard(*d2);
        },
        DocV::Group(d2) => {
            lemma_single_line_safe_no_hard(*d2);
        },
        _ => {},
    }
}

/// The flat text of a document without hard breaks or embedded newlines
/// is one line.
proof fn lemma_flat_one_line(d: DocV)
    requires
        single_line_safe(d),
    ensures
        one_line(flat_of(d)),
    decreases d,
{
    match d {
        DocV::Append(l, r) => {
            lemma_flat_one_line(*l);
            lemma_flat_one_line(*r);
        },
        DocV::Nest(_, d2) => {
            lemma_flat_one_line(*d2);
        },
        DocV::Group(d2) => {
            lemma_flat_one_line(*d2);
        },
        _ => {},
    }
}

/// Width-monotonic collapse for a grouped or atomic document: at any
/// width at least its flat length, it renders as its flat form — a
/// single line when it is single-line safe.
pub proof fn lemma_wide_renders_flat(d: DocV, width: nat)
    requires
        d is Group || d is Text,
        no_hard(d),
        flat_of(d).len() <= width,
        width <= usize::MAX as nat,
    ensures
        pretty(d, width) == flat_of(d),
        single_line_safe(d) ==> one_line(pretty(d, width)),
{
    let top = seq![(0nat, Mode::Broken, d)];
    assert(top.drop_last() =~= Seq::<CmdV>::empty());
    assert(flat_cmds(Seq::<CmdV>::empty()) =~= Seq::<char>::empty());
    match d {
        DocV::Group(inner) => {
            let flat = Seq::<CmdV>::empty().push((0nat, Mode::Flat, *inner));
            lemma_stack_size_push(Seq::<CmdV>::empty(), (0nat, Mode::Flat, *inner));
            lemma_flat_cmds_push(Seq::<CmdV>::empty(), (0nat, Mode::Flat, *inner));
            assert(flat_cmds(flat) =~= flat_of(*inner));
            assert(all_flat(flat));
            assert(no_hard_cmds(flat));
            lemma_fits_flat(width, 0, flat);
            lemma_render_flat(width, 0, flat);
            assert(top.drop_last().push((0nat, Mode::Flat, *inner)) == flat);
            assert(pretty(d, width) =~= flat_of(d));
        },
        DocV::Text(s) => {
            assert(render_cmds(width, sat_add(0, s.len()), top.drop_last())
                == render_cmds(width, sat_add(0, s.len()), Seq::<CmdV>::empty()));
            assert(pretty(d, width) =~= flat_of(d));
        },
        _ => {},
    }
    if single_line_safe(d) {
        lemma_flat_one_line(d);
    }
}

/// The compiled document of any statement is a group or a single text
/// leaf, so the collapse law applies to every statement.
pub proof fn lemma_statement_doc_shape(s: Statement)
    ensures
        d_statement(s) is Group || d_statement(s) is Text,
{
}

/// Width-monotonic collapse for statements: past the flat width, the
/// rendering of a statement is always its one flat line.
pub proof fn lemma_statement_collapse(s: Statement, width: nat)
    requires
        single_line_safe(d_statement(s)),
        flat_of(d_statement(s)).len() <= width,
        width <= usize::MAX as nat,
    ensures
        crate::rendered(s, width) == flat_of(d_statement(s)).push(';'),
        one_line(crate::rendered(s, width)),
{
    lemma_statement_doc_shape(s);
    lemma_single_line_safe_no_hard(d_statement(s));
    lemma_wide_renders_flat(d_statement(s), width);
    if single_line_safe(d_statement(s)) {
        assert forall|i: int| 0 <= i < crate::rendered(s, width).len() implies crate::rendered(
            s,
            width,
        )[i] != '\n' by {
            if i < flat_of(d_statement(s)).len() {
                assert(crate::rendered(s, width)[i] == flat_of(d_statement(s))[i]);
            }
        }
    }
}

// ---------------------------------------------------------------------
// No token splitting.

/// The atomic text leaves of a document, in order.
pub open spec fn leaves(d: DocV) -> Seq<Seq<char>>
    decreases d,
{
    match d {
        DocV::Text(s) => seq![s],
        DocV::Append(l, r) => leaves(*l) + leaves(*r),
        DocV::Nest(_, d2) => leaves(*d2),
        DocV::Group(d2) => leaves(*d2),
        _ => Seq::empty(),
    }
}

/// Whitespace only: spaces and newlines.
pub open spec fn is_ws(s: Seq<char>) -> bool {
    forall|i: int| 0 <= i < s.len() ==> s[i] == ' ' || s[i] == '\n'
}

/// `out` consists of the given leaves, in order and intact, with only
/// whitespace between, before and after them.
pub open spec fn interleaved(out: Seq<char>, ls: Seq<Seq<char>>) -> bool
    decreases ls.len(),
{
    if ls.len() == 0 {
        is_ws(out)
    } else {
        exists|a: int|
            0 <= a && a + ls[0].len() <= out.len() && is_ws(out.take(a)) && out.subrange(
                a,
                a + ls[0].len(),
            ) == ls[0] && interleaved(out.skip(a + ls[0].len()), ls.drop_first())
    }
}

/// Whitespace in front keeps an interleaving an interleaving.
proof fn lemma_ws_prefix(p: Seq<char>, out: Seq<char>, ls: Seq<Seq<char>>)
    requires
        is_ws(p),
        interleaved(out, ls),
    ensures
        interleaved(p + out, ls),
    decreases ls.len(),
{
    if ls.len() == 0 {
        assert(is_ws(p + out));
    } else {
        let a = choose|a: int|
            0 <= a && a + ls[0].len() <= out.len() && is_ws(out.take(a)) && out.subrange(
                a,
                a + ls[0].len(),
            ) == ls[0] && interleaved(out.skip(a + ls[0].len()), ls.drop_first());
        let b = p.len() + a;
        assert((p + out).take(b) =~= p + out.take(a));
        assert(is_ws(p + out.take(a)));
        assert((p + out).subrange(b, b + ls[0].len()) =~= out.subrange(a, a + ls[0].len()));
        assert((p + out).skip(b + ls[0].len()) =~= out.skip(a + ls[0].len()));
        assert(0 <= b && b + ls[0].len() <= (p + out).len() && is_ws((p + out).take(b)) && (p
            + out).subrange(b, b + ls[0].len()) == ls[0] && interleaved(
            (p + out).skip(b + ls[0].len()),
            ls.drop_first(),
        ));
    }
}

/// A leaf in front extends an interleaving by that leaf.
proof fn lemma_leaf_prefix(l: Seq<char>, out: Seq<char>, ls: Seq<Seq<char>>)
    requires
        interleaved(out, ls),
    ensures
        interleaved(l + out, seq![l] + ls),
{
    let ls2 = seq![l] + ls;
    assert(ls2[0] == l);
    assert(ls2.drop_first() =~= ls);
    assert((l + out).take(0) =~= Seq::<char>::empty());
    assert((l + out).subrange(0, l.len() as int) =~= l);
    assert((l + out).skip(l.len() as int) =~= out);
    assert(0 <= 0 && 0 + ls2[0].len() <= (l + out).len() && is_ws((l + out).take(0)) && (l
        + out).subrange(0, ls2[0].len() as int) == ls2[0] && interleaved(
        (l + out).skip(ls2[0].len() as int),
        ls2.drop_first(),
    ));
}

/// The leaves of a whole command stack, in emission order.
pub open spec fn leaves_cmds(cmds: Seq<CmdV>) -> Seq<Seq<char>>
    decreases stack_size(cmds),
{
    if cmds.len() == 0 {
        Seq::empty()
    } else {
        leaves(cmds.last().2) + leaves_cmds(cmds.drop_last())
    }
}

proof fn lemma_leaves_cmds_push(s: Seq<CmdV>, c: CmdV)
    ensures
        leaves_cmds(s.push(c)) == leaves(c.2) + leaves_cmds(s),
{
    assert(s.push(c).drop_last() =~= s);
    assert(s.push(c).last() == c);
}

/// The renderer's output is always an interleaving of the stack's leaves
/// with whitespace.
proof fn lemma_render_interleaved(width: nat, pos: nat, cmds: Seq<CmdV>)
    ensures
        interleaved(render_cmds(width, pos, cmds), leaves_cmds(cmds)),
    decreases stack_size(cmds),
{
    if cmds.len() == 0 {
        assert(is_ws(Seq::<char>::empty()));
    } else {
        let (ind, mode, d) = cmds.last();
        let rest = cmds.drop_last();
        match d {
            DocV::Text(s) => {
                lemma_render_interleaved(width, sat_add(pos, s.len()), rest);
                lemma_leaf_prefix(s, render_cmds(width, sat_add(pos, s.len()), rest), leaves_cmds(rest));
                assert(seq![s] + leaves_cmds(rest) =~= leaves_cmds(cmds));
            },
            DocV::Line => match mode {
                Mode::Flat => {
                    lemma_render_interleaved(width, sat_add(pos, 1), rest);
                    assert(is_ws(seq![' ']));
                    lemma_ws_prefix(seq![' '], render_cmds(width, sat_add(pos, 1), rest), leaves_cmds(rest));
                    assert(leaves_cmds(rest) =~= leaves_cmds(cmds));
                },
                Mode::Broken => {
                    lemma_render_interleaved(width, ind, rest);
                    assert(is_ws(newline_at(ind)));
                    lemma_ws_prefix(newline_at(ind), render_cmds(width, ind, rest), leaves_cmds(rest));
                    assert(leaves_cmds(rest) =~= leaves_cmds(cmds));
                },
            },
            DocV::LineEmpty => match mode {
                Mode::Flat => {
                    lemma_render_interleaved(width, pos, rest);
                    assert(leaves_cmds(rest) =~= leaves_cmds(cmds));
                },
                Mode::Broken => {
                    lemma_render_interleaved(width, ind, rest);
                    assert(is_ws(newline_at(ind)));
                    lemma_ws_prefix(newline_at(ind), render_cmds(width, ind, rest), leaves_cmds(rest));
                    assert(leaves_cmds(rest) =~= leaves_cmds(cmds));
                },
            },
            DocV::HardLine => {
                lemma_render_interleaved(width, ind, rest);
                assert(is_ws(newline_at(ind)));
                lemma_ws_prefix(newline_at(ind), render_cmds(width, ind, rest), leaves_cmds(rest));
                assert(leaves_cmds(rest) =~= leaves_cmds(cmds));
            },
            DocV::Nil => {
                lemma_render_interleaved(width, pos, rest);
                assert(leaves_cmds(rest) =~= leaves_cmds(cmds));
            },
            DocV::Append(l, r) => {
                let s2 = rest.push((ind, mode, *r)).push((ind, mode, *l));
                lemma_stack_size_push(rest, (ind, mode, *r));
                lemma_stack_size_push(rest.push((ind, mode, *r)), (ind, mode, *l));
                lemma_leaves_cmds_push(rest, (ind, mode, *r));
                lemma_leaves_cmds_push(rest.push((ind, mode, *r)), (ind, mode, *l));
                lemma_render_interleaved(width, pos, s2);
                assert(leaves_cmds(s2) =~= leaves_cmds(cmds));
            },
            DocV::Nest(j, d2) => {
                let s2 = rest.push((sat_add(ind, j), mode, *d2));
                lemma_stack_size_push(rest, (sat_add(ind, j), mode, *d2));
                lemma_leaves_cmds_push(rest, (sat_add(ind, j), mode, *d2));
                lemma_render_interleaved(width, pos, s2);
                assert(leaves_cmds(s2) =~= leaves_cmds(cmds));
            },
            DocV::Group(d2) => {
                let sf = rest.push((ind, Mode::Flat, *d2));
                let sb = rest.push((ind, Mode::Broken, *d2));
                lemma_stack_size_push(rest, (ind, Mode::Flat, *d2));
                lemma_stack_size_push(rest, (ind, Mode::Broken, *d2));
                lemma_leaves_cmds_push(rest, (ind, Mode::Flat, *d2));
                lemma_leaves_cmds_push(rest, (ind, Mode::Broken, *d2));
                match mode {
                    Mode::Flat => {
                        lemma_render_interleaved(width, pos, sf);
                        assert(leaves_cmds(sf) =~= leaves_cmds(cmds));
                    },
                    Mode::Broken => {
                        if fits(width, pos, sf) {
                            lemma_render_interleaved(width, pos, sf);
                            assert(leaves_cmds(sf) =~= leaves_cmds(cmds));
                        } else {
                            lemma_render_interleaved(width, pos, sb);
                            assert(leaves_cmds(sb) =~= leaves_cmds(cmds));
                        }
                    },
                }
            },
        }
    }
}

/// No token splitting: at every width, a document's rendering is its
/// atomic text leaves, intact and in order, with only whitespace around
/// them.
pub proof fn lemma_no_token_splitting(d: DocV, width: nat)
    ensures
        interleaved(pretty(d, width), leaves(d)),
{
    let top = seq![(0nat, Mode::Broken, d)];
    assert(top.drop_last() =~= Seq::<CmdV>::empty());
    lemma_render_interleaved(width, 0, top);
    assert(leaves_cmds(Seq::<CmdV>::empty()) =~= Seq::<Seq<char>>::empty());
    assert(leaves_cmds(top) == leaves(top.last().2) + leaves_cmds(top.drop_last()));
    assert(leaves_cmds(top) =~= leaves(d));
}

} // verus!
