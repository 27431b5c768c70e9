//! A width-aware SQL pretty printer.
//!
//! The library is built from a small layout-document algebra (`doc`), a
//! deterministic renderer that resolves a document into text at a target
//! width (`render`), and a compiler from SQL statements to documents that
//! encodes all formatting policy (`compile`). Statements are plain data
//! (`ast`); parsing text into them is the caller's business. Formatting is
//! purely cosmetic: the laws in `laws` show that the renderer only ever
//! rearranges whitespace between the compiler's atomic text leaves.

pub mod ast;
pub mod compile;
pub mod doc;
pub mod laws;
pub mod render;

use vstd::prelude::*;
use vstd::string::StringExecFns;

use crate::ast::Statement;
use crate::compile::d_statement;
use crate::render::{pretty, render};

pub use crate::compile::to_doc;

verus! {

/// The text of one formatted statement: its document rendered at the
/// given width, with the terminating `;` appended.
pub open spec fn rendered(s: Statement, width: nat) -> Seq<char> {
    pretty(d_statement(s), width).push(';')
}

/// Renders one statement at the given width and appends the terminating
/// `;`. A width of zero or one is valid and forces maximal breaking.
pub fn to_pretty(stmt: &Statement, width: usize) -> (r: String)
    ensures
        r@ == rendered(*stmt, width as nat),
{
    let d = to_doc(stmt);
    let mut s = render(&d, width);
    s.append(";");
    proof {
        reveal_strlit(";");
        assert(";"@ =~= seq![';']);
        assert(pretty(d_statement(*stmt), width as nat) + seq![';'] =~= rendered(
            *stmt,
            width as nat,
        ));
    }
    s
}

/// Renders each statement independently at the given width.
pub fn pretty_strs(stmts: &Vec<Statement>, width: usize) -> (r: Vec<String>)
    ensures
        r@.len() == stmts@.len(),
        forall|i: int| 0 <= i < stmts@.len() ==> r@[i]@ == rendered(stmts@[i], width as nat),
{
    let mut r: Vec<String> = Vec::new();
    let mut i: usize = 0;
    while i < stmts.len()
        invariant
            i <= stmts@.len(),
            r@.len() == i,
            forall|j: int| 0 <= j < i ==> r@[j]@ == rendered(stmts@[j], width as nat),
        decreases stmts@.len() - i,
    {
        let s = to_pretty(&stmts[i], width);
        r.push(s);
        i = i + 1;
    }
    r
}

/// The renderings of a sequence of statements joined by a blank line.
pub open spec fn rendered_all(stmts: Seq<Statement>, width: nat) -> Seq<char>
    decreases stmts.len(),
{
    if stmts.len() == 0 {
        Seq::empty()
    } else if stmts.len() == 1 {
        rendered(stmts[0], width)
    } else {
        rendered_all(stmts.drop_last(), width) + seq!['\n', '\n'] + rendered(
            stmts.last(),
            width,
        )
    }
}

/// Renders each statement at the given width and joins the renderings
/// with a blank line between each neighbouring pair.
pub fn pretty_str(stmts: &Vec<Statement>, width: usize) -> (r: String)
    ensures
        r@ == rendered_all(stmts@, width as nat),
{
    let mut out = String::new();
    let mut i: usize = 0;
    proof {
        assert(stmts@.take(0) =~= Seq::<Statement>::empty());
    }
    while i < stmts.len()
        invariant
            i <= stmts@.len(),
            out@ == rendered_all(stmts@.take(i as int), width as nat),
        decreases stmts@.len() - i,
    {
        if i > 0 {
            out.append("\n\n");
            proof {
                reveal_strlit("\n\n");
                assert("\n\n"@ =~= seq!['\n', '\n']);
            }
        }
        let s = to_pretty(&stmts[i], width);
        out.append(s.as_str());
        proof {
            assert(stmts@.take(i + 1).drop_last() =~= stmts@.take(i as int));
            assert(stmts@.take(i + 1).last() == stmts@[i as int]);
            if i > 0 {
                assert(out@ == rendered_all(stmts@.take(i + 1), width as nat));
            } else {
                assert(stmts@.take(1).len() == 1);
                assert(out@ =~= rendered(stmts@[0], width as nat));
                assert(out@ == rendered_all(stmts@.take(i + 1), width as nat));
            }
        }
        i = i + 1;
    }
    proof {
        assert(stmts@.take(stmts@.len() as int) =~= stmts@);
    }
    out
}

} // verus!
