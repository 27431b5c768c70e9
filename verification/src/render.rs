//! The renderer: a single deterministic pass resolving a document into text
//! at a target width.
//!
//! The renderer walks a stack of pending commands, each a document together
//! with the indentation to use for newlines within it and the mode — flat or
//! broken — of its nearest enclosing group. On meeting a group in broken
//! surroundings it measures whether the group, rendered flat, would let the
//! current output line reach its next break within the width budget; if so
//! the whole group renders flat, otherwise every break directly inside it
//! renders as a newline while nested groups decide for themselves again.
//!
//! No output line exceeds the width unless a single atomic text leaf alone
//! exceeds it: leaves are never split, so the width is in that one case a
//! best-effort target rather than a ceiling.

use vstd::prelude::*;
use vstd::string::StrSliceExecFns;
use vstd::string::StringExecFns;

use crate::doc::{Doc, DocV};

verus! {

/// Whether the breaks of the nearest enclosing group render flat or broken.
#[derive(Clone, Copy)]
pub enum Mode {
    Flat,
    Broken,
}

/// One pending command: indentation for newlines within the document, the
/// enclosing group's mode, and the document itself.
pub type CmdV = (nat, Mode, DocV);

/// Column arithmetic saturates at `usize::MAX`: a line that long cannot
/// exist in an in-memory string, and saturation keeps the renderer total.
pub open spec fn sat_add(a: nat, b: nat) -> nat {
    if a + b > usize::MAX as nat {
        usize::MAX as nat
    } else {
        a + b
    }
}

/// The number of nodes of a document; the measure that bounds the
/// renderer's recursion.
pub open spec fn doc_size(d: DocV) -> nat
    decreases d,
{
    match d {
        DocV::Append(l, r) => 1 + doc_size(*l) + doc_size(*r),
        DocV::Nest(_, d2) => 1 + doc_size(*d2),
        DocV::Group(d2) => 1 + doc_size(*d2),
        _ => 1,
    }
}

/// The total size of the documents on a command stack.
pub open spec fn stack_size(cmds: Seq<CmdV>) -> nat
    decreases cmds.len(),
{
    if cmds.len() == 0 {
        0
    } else {
        doc_size(cmds.last().2) + stack_size(cmds.drop_last())
    }
}

pub proof fn lemma_stack_size_push(s: Seq<CmdV>, c: CmdV)
    ensures
        stack_size(s.push(c)) == stack_size(s) + doc_size(c.2),
{
    assert(s.push(c).drop_last() =~= s);
    assert(s.push(c).last() == c);
}

/// The fitting test: starting `used` columns into the current line, can the
/// pending commands be laid out up to the next break that renders as a
/// newline without passing `width` columns? Commands in flat mode spend
/// their flat widths; a broken-mode soft break or a hard break ends the
/// line, so everything beyond it is the next line's business.
pub open spec fn fits(width: nat, used: nat, cmds: Seq<CmdV>) -> bool
    decreases stack_size(cmds),
{
    if used > width {
        false
    } else if cmds.len() == 0 {
        true
    } else {
        let (ind, mode, d) = cmds.last();
        let rest = cmds.drop_last();
        match d {
            DocV::Text(s) => fits(width, sat_add(used, s.len()), rest),
            DocV::Line => match mode {
                Mode::Flat => fits(width, sat_add(used, 1), rest),
                Mode::Broken => true,
            },
            DocV::LineEmpty => match mode {
                Mode::Flat => fits(width, used, rest),
                Mode::Broken => true,
            },
            DocV::HardLine => true,
            DocV::Nil => fits(width, used, rest),
            DocV::Append(l, r) => {
                proof {
                    lemma_stack_size_push(rest, (ind, mode, *r));
                    lemma_stack_size_push(rest.push((ind, mode, *r)), (ind, mode, *l));
                }
                fits(width, used, rest.push((ind, mode, *r)).push((ind, mode, *l)))
            },
            DocV::Nest(j, d2) => {
                proof {
                    lemma_stack_size_push(rest, (sat_add(ind, j), mode, *d2));
                }
                fits(width, used, rest.push((sat_add(ind, j), mode, *d2)))
            },
            DocV::Group(d2) => {
                proof {
                    lemma_stack_size_push(rest, (ind, mode, *d2));
                }
                fits(width, used, rest.push((ind, mode, *d2)))
            },
        }
    }
}

/// A run of `n` spaces.
pub open spec fn spaces(n: nat) -> Seq<char> {
    Seq::new(n, |i: int| ' ')
}

/// A newline followed by indentation to column `ind`.
pub open spec fn newline_at(ind: nat) -> Seq<char> {
    seq!['\n'] + spaces(ind)
}

/// The text the renderer emits for a command stack, with `pos` columns of
/// the current line already used.
pub open spec fn render_cmds(width: nat, pos: nat, cmds: Seq<CmdV>) -> Seq<char>
    decreases stack_size(cmds),
{
    if cmds.len() == 0 {
        Seq::empty()
    } else {
        let (ind, mode, d) = cmds.last();
        let rest = cmds.drop_last();
        match d {
            DocV::Text(s) => s + render_cmds(width, sat_add(pos, s.len()), rest),
            DocV::Line => match mode {
                Mode::Flat => seq![' '] + render_cmds(width, sat_add(pos, 1), rest),
                Mode::Broken => newline_at(ind) + render_cmds(width, ind, rest),
            },
            DocV::LineEmpty => match mode {
                Mode::Flat => render_cmds(width, pos, rest),
                Mode::Broken => newline_at(ind) + render_cmds(width, ind, rest),
            },
            DocV::HardLine => newline_at(ind) + render_cmds(width, ind, rest),
            DocV::Nil => render_cmds(width, pos, rest),
            DocV::Append(l, r) => {
                proof {
                    lemma_stack_size_push(rest, (ind, mode, *r));
                    lemma_stack_size_push(rest.push((ind, mode, *r)), (ind, mode, *l));
                }
                render_cmds(width, pos, rest.push((ind, mode, *r)).push((ind, mode, *l)))
            },
            DocV::Nest(j, d2) => {
                proof {
                    lemma_stack_size_push(rest, (sat_add(ind, j), mode, *d2));
                }
                render_cmds(width, pos, rest.push((sat_add(ind, j), mode, *d2)))
            },
            DocV::Group(d2) => {
                proof {
                    lemma_stack_size_push(rest, (ind, Mode::Flat, *d2));
                    lemma_stack_size_push(rest, (ind, Mode::Broken, *d2));
                }
                match mode {
                    Mode::Flat => render_cmds(width, pos, rest.push((ind, Mode::Flat, *d2))),
                    Mode::Broken => if fits(width, pos, rest.push((ind, Mode::Flat, *d2))) {
                        render_cmds(width, pos, rest.push((ind, Mode::Flat, *d2)))
                    } else {
                        render_cmds(width, pos, rest.push((ind, Mode::Broken, *d2)))
                    },
                }
            },
        }
    }
}

/// The text a document renders to at the given width.
pub open spec fn pretty(d: DocV, width: nat) -> Seq<char> {
    render_cmds(width, 0, seq![(0nat, Mode::Broken, d)])
}

/// The shape of one executable command.
pub open spec fn cmd_view(c: (usize, Mode, &Doc)) -> CmdV {
    (c.0 as nat, c.1, (*c.2)@)
}

/// The shapes of an executable command stack, in order.
pub open spec fn cmds_views(s: Seq<(usize, Mode, &Doc)>) -> Seq<CmdV>
    decreases s.len(),
{
    if s.len() == 0 {
        Seq::empty()
    } else {
        cmds_views(s.drop_last()).push(cmd_view(s.last()))
    }
}

proof fn lemma_cmds_views_push(s: Seq<(usize, Mode, &Doc)>, c: (usize, Mode, &Doc))
    ensures
        cmds_views(s.push(c)) == cmds_views(s).push(cmd_view(c)),
{
    assert(s.push(c).drop_last() =~= s);
    assert(s.push(c).last() == c);
}

/// `a + b`, saturating at `usize::MAX`.
fn sat_add_usize(a: usize, b: usize) -> (r: usize)
    ensures
        r as nat == sat_add(a as nat, b as nat),
{
    if a > usize::MAX - b {
        usize::MAX
    } else {
        a + b
    }
}

/// A copy of a command stack.
fn copy_cmds<'a>(cmds: &Vec<(usize, Mode, &'a Doc)>) -> (r: Vec<(usize, Mode, &'a Doc)>)
    ensures
        r@ == cmds@,
{
    let mut r: Vec<(usize, Mode, &'a Doc)> = Vec::new();
    let mut i: usize = 0;
    while i < cmds.len()
        invariant
            i <= cmds.len(),
            r@ == cmds@.take(i as int),
        decreases cmds.len() - i,
    {
        r.push(cmds[i]);
        proof {
            assert(cmds@.take(i as int).push(cmds@[i as int]) =~= cmds@.take(i + 1));
        }
        i = i + 1;
    }
    proof {
        assert(cmds@.take(cmds@.len() as int) =~= cmds@);
    }
    r
}

/// The executable fitting test; its result is exactly what `fits` says.
fn fits_exec<'a>(width: usize, used: usize, cmds: Vec<(usize, Mode, &'a Doc)>) -> (r: bool)
    ensures
        r == fits(width as nat, used as nat, cmds_views(cmds@)),
    decreases stack_size(cmds_views(cmds@)),
{
    let ghost cv0 = cmds_views(cmds@);
    if used > width {
        return false;
    }
    let mut cmds = cmds;
    match cmds.pop() {
        None => true,
        Some((ind, mode, d)) => {
            let ghost rest_e = cmds@;
            proof {
                assert(cv0.last() == cmd_view((ind, mode, d)));
                assert(cv0.drop_last() == cmds_views(rest_e));
                assert(stack_size(cv0) == doc_size((*d)@) + stack_size(cmds_views(rest_e)));
            }
            match d {
                Doc::Text(t) => {
                    let n = t.as_str().unicode_len();
                    fits_exec(width, sat_add_usize(used, n), cmds)
                },
                Doc::Line => match mode {
                    Mode::Flat => fits_exec(width, sat_add_usize(used, 1), cmds),
                    Mode::Broken => true,
                },
                Doc::LineEmpty => match mode {
                    Mode::Flat => fits_exec(width, used, cmds),
                    Mode::Broken => true,
                },
                Doc::HardLine => true,
                Doc::Nil => fits_exec(width, used, cmds),
                Doc::Append(l, r) => {
                    cmds.push((ind, mode, &**r));
                    let ghost s1 = cmds@;
                    cmds.push((ind, mode, &**l));
                    proof {
                        lemma_cmds_views_push(rest_e, (ind, mode, &**r));
                        lemma_cmds_views_push(s1, (ind, mode, &**l));
                        lemma_stack_size_push(cmds_views(rest_e), (ind as nat, mode, (**r)@));
                        lemma_stack_size_push(cmds_views(s1), (ind as nat, mode, (**l)@));
                    }
                    fits_exec(width, used, cmds)
                },
                Doc::Nest(j, d2) => {
                    let ind2 = sat_add_usize(ind, *j);
                    cmds.push((ind2, mode, &**d2));
                    proof {
                        lemma_cmds_views_push(rest_e, (ind2, mode, &**d2));
                        lemma_stack_size_push(cmds_views(rest_e), (ind2 as nat, mode, (**d2)@));
                    }
                    fits_exec(width, used, cmds)
                },
                Doc::Group(d2) => {
                    cmds.push((ind, mode, &**d2));
                    proof {
                        lemma_cmds_views_push(rest_e, (ind, mode, &**d2));
                        lemma_stack_size_push(cmds_views(rest_e), (ind as nat, mode, (**d2)@));
                    }
                    fits_exec(width, used, cmds)
                },
            }
        },
    }
}

/// Appends a newline and `ind` spaces of indentation.
fn push_newline_indent(out: &mut String, ind: usize)
    ensures
        final(out)@ == old(out)@ + newline_at(ind as nat),
{
    let ghost base = out@;
    out.append("\n");
    proof {
        reveal_strlit("\n");
        assert("\n"@ =~= seq!['\n']);
    }
    let mut k: usize = 0;
    while k < ind
        invariant
            k <= ind,
            out@ == base + seq!['\n'] + spaces(k as nat),
        decreases ind - k,
    {
        out.append(" ");
        proof {
            reveal_strlit(" ");
            assert(" "@ =~= seq![' ']);
            assert(spaces(k as nat).push(' ') =~= spaces((k + 1) as nat));
            assert(base + seq!['\n'] + spaces(k as nat) + seq![' ']
                =~= base + seq!['\n'] + spaces((k + 1) as nat));
        }
        k = k + 1;
    }
    proof {
        assert(base + seq!['\n'] + spaces(ind as nat) =~= base + newline_at(ind as nat));
    }
}

/// Renders the pending commands onto `out`.
fn render_onto<'a>(width: usize, pos: usize, cmds: Vec<(usize, Mode, &'a Doc)>, out: &mut String)
    ensures
        final(out)@ == old(out)@ + render_cmds(width as nat, pos as nat, cmds_views(cmds@)),
    decreases stack_size(cmds_views(cmds@)),
{
    let ghost cv0 = cmds_views(cmds@);
    let ghost base = out@;
    let mut cmds = cmds;
    match cmds.pop() {
        None => {
            proof {
                assert(base + Seq::<char>::empty() =~= base);
            }
        },
        Some((ind, mode, d)) => {
            let ghost rest_e = cmds@;
            proof {
                assert(cv0.last() == cmd_view((ind, mode, d)));
                assert(cv0.drop_last() == cmds_views(rest_e));
                assert(stack_size(cv0) == doc_size((*d)@) + stack_size(cmds_views(rest_e)));
            }
            match d {
                Doc::Text(t) => {
                    let n = t.as_str().unicode_len();
                    out.append(t.as_str());
                    let pos2 = sat_add_usize(pos, n);
                    render_onto(width, pos2, cmds, out);
                    proof {
                        assert(base + t@ + render_cmds(width as nat, pos2 as nat, cmds_views(rest_e))
                            =~= base + (t@ + render_cmds(width as nat, pos2 as nat, cmds_views(rest_e))));
                    }
                },
                Doc::Line => match mode {
                    Mode::Flat => {
                        out.append(" ");
                        proof {
                            reveal_strlit(" ");
                            assert(" "@ =~= seq![' ']);
                        }
                        let pos2 = sat_add_usize(pos, 1);
                        render_onto(width, pos2, cmds, out);
                        proof {
                            assert(base + " "@ + render_cmds(width as nat, pos2 as nat, cmds_views(rest_e))
                                =~= base + (seq![' '] + render_cmds(width as nat, pos2 as nat, cmds_views(rest_e))));
                        }
                    },
                    Mode::Broken => {
                        push_newline_indent(out, ind);
                        render_onto(width, ind, cmds, out);
                        proof {
                            assert(base + newline_at(ind as nat) + render_cmds(width as nat, ind as nat, cmds_views(rest_e))
                                =~= base + (newline_at(ind as nat) + render_cmds(width as nat, ind as nat, cmds_views(rest_e))));
                        }
                    },
                },
                Doc::LineEmpty => match mode {
                    Mode::Flat => {
                        render_onto(width, pos, cmds, out);
                    },
                    Mode::Broken => {
                        push_newline_indent(out, ind);
                        render_onto(width, ind, cmds, out);
                        proof {
                            assert(base + newline_at(ind as nat) + render_cmds(width as nat, ind as nat, cmds_views(rest_e))
                                =~= base + (newline_at(ind as nat) + render_cmds(width as nat, ind as nat, cmds_views(rest_e))));
                        }
                    },
                },
                Doc::HardLine => {
                    push_newline_indent(out, ind);
                    render_onto(width, ind, cmds, out);
                    proof {
                        assert(base + newline_at(ind as nat) + render_cmds(width as nat, ind as nat, cmds_views(rest_e))
                            =~= base + (newline_at(ind as nat) + render_cmds(width as nat, ind as nat, cmds_views(rest_e))));
                    }
                },
                Doc::Nil => {
                    render_onto(width, pos, cmds, out);
                },
                Doc::Append(l, r) => {
                    cmds.push((ind, mode, &**r));
                    let ghost s1 = cmds@;
                    cmds.push((ind, mode, &**l));
                    proof {
                        lemma_cmds_views_push(rest_e, (ind, mode, &**r));
                        lemma_cmds_views_push(s1, (ind, mode, &**l));
                        lemma_stack_size_push(cmds_views(rest_e), (ind as nat, mode, (**r)@));
                        lemma_stack_size_push(cmds_views(s1), (ind as nat, mode, (**l)@));
                    }
                    render_onto(width, pos, cmds, out);
                },
                Doc::Nest(j, d2) => {
                    let ind2 = sat_add_usize(ind, *j);
                    cmds.push((ind2, mode, &**d2));
                    proof {
                        lemma_cmds_views_push(rest_e, (ind2, mode, &**d2));
                        lemma_stack_size_push(cmds_views(rest_e), (ind2 as nat, mode, (**d2)@));
                    }
                    render_onto(width, pos, cmds, out);
                },
                Doc::Group(d2) => {
                    match mode {
                        Mode::Flat => {
                            cmds.push((ind, Mode::Flat, &**d2));
                            proof {
                                lemma_cmds_views_push(rest_e, (ind, Mode::Flat, &**d2));
                                lemma_stack_size_push(cmds_views(rest_e), (ind as nat, Mode::Flat, (**d2)@));
                            }
                            render_onto(width, pos, cmds, out);
                        },
                        Mode::Broken => {
                            cmds.push((ind, Mode::Flat, &**d2));
                            proof {
                                lemma_cmds_views_push(rest_e, (ind, Mode::Flat, &**d2));
                                lemma_stack_size_push(cmds_views(rest_e), (ind as nat, Mode::Flat, (**d2)@));
                                lemma_stack_size_push(cmds_views(rest_e), (ind as nat, Mode::Broken, (**d2)@));
                            }
                            let probe = copy_cmds(&cmds);
                            if fits_exec(width, pos, probe) {
                                render_onto(width, pos, cmds, out);
                            } else {
                                let _ = cmds.pop();
                                proof {
                                    assert(cmds@ =~= rest_e);
                                }
                                cmds.push((ind, Mode::Broken, &**d2));
                                proof {
                                    lemma_cmds_views_push(rest_e, (ind, Mode::Broken, &**d2));
                                }
                                render_onto(width, pos, cmds, out);
                            }
                        },
                    }
                },
            }
        },
    }
}

/// Renders a document at the given width. The result is exactly the text
/// that `pretty` ascribes to the document, so rendering is deterministic.
pub fn render(d: &Doc, width: usize) -> (r: String)
    ensures
        r@ == pretty(d@, width as nat),
{
    let mut out = String::new();
    let mut cmds: Vec<(usize, Mode, &Doc)> = Vec::new();
    cmds.push((0, Mode::Broken, d));
    proof {
        lemma_cmds_views_push(Seq::empty(), (0, Mode::Broken, d));
        assert(cmds_views(Seq::empty()) =~= Seq::<CmdV>::empty());
        assert(cmds_views(cmds@) =~= seq![(0nat, Mode::Broken, d@)]);
    }
    render_onto(width, 0, cmds, &mut out);
    proof {
        assert(Seq::<char>::empty() + pretty(d@, width as nat) =~= pretty(d@, width as nat));
    }
    out
}

} // verus!
