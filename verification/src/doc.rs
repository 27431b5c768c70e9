//! The layout-document algebra.
//!
//! A `Doc` is an immutable tree describing alternative layouts of a piece of
//! text. Text leaves are atomic: the renderer never splits one. Soft breaks
//! render as a space (`Line`) or as nothing (`LineEmpty`) while the enclosing
//! group is flat, and as a newline plus indentation once it is broken; a
//! `HardLine` is a newline in either case. `Nest` adds to the indentation of
//! every newline within its body, and `Group` is the unit of the flat-versus-
//! broken decision.

use vstd::prelude::*;

verus! {

/// A layout document.
pub enum Doc {
    /// An atomic piece of text, never split across lines.
    Text(String),
    /// A soft break: a space when flat, a newline when broken.
    Line,
    /// A soft break: nothing when flat, a newline when broken.
    LineEmpty,
    /// A newline regardless of the enclosing group's state.
    HardLine,
    /// The empty document.
    Nil,
    /// Two documents in sequence, with no separator.
    Append(Box<Doc>, Box<Doc>),
    /// The body, with the given delta added to the indentation of every
    /// newline emitted within it.
    Nest(usize, Box<Doc>),
    /// A region whose flat-or-broken choice the renderer resolves as one
    /// atomic unit.
    Group(Box<Doc>),
}

/// The mathematical shape of a document: the same tree with text as
/// character sequences and the indentation delta as a natural number.
pub enum DocV {
    Text(Seq<char>),
    Line,
    LineEmpty,
    HardLine,
    Nil,
    Append(Box<DocV>, Box<DocV>),
    Nest(nat, Box<DocV>),
    Group(Box<DocV>),
}

impl View for Doc {
    type V = DocV;

    open spec fn view(&self) -> DocV
        decreases self,
    {
        match self {
            Doc::Text(s) => DocV::Text(s@),
            Doc::Line => DocV::Line,
            Doc::LineEmpty => DocV::LineEmpty,
            Doc::HardLine => DocV::HardLine,
            Doc::Nil => DocV::Nil,
            Doc::Append(l, r) => DocV::Append(Box::new((**l)@), Box::new((**r)@)),
            Doc::Nest(j, d) => DocV::Nest(*j as nat, Box::new((**d)@)),
            Doc::Group(d) => DocV::Group(Box::new((**d)@)),
        }
    }
}

/// The views of a sequence's elements, in order.
pub open spec fn views_of<T: View>(s: Seq<T>) -> Seq<T::V>
    decreases s.len(),
{
    if s.len() == 0 {
        Seq::empty()
    } else {
        views_of(s.drop_last()).push(s.last()@)
    }
}

pub proof fn lemma_views_of<T: View>(s: Seq<T>)
    ensures
        views_of(s).len() == s.len(),
        forall|j: int| 0 <= j < s.len() ==> #[trigger] views_of(s)[j] == s[j]@,
    decreases s.len(),
{
    if s.len() > 0 {
        lemma_views_of(s.drop_last());
        assert forall|j: int| 0 <= j < s.len() implies views_of(s)[j] == s[j]@ by {
            if j < s.len() - 1 {
                assert(views_of(s)[j] == views_of(s.drop_last())[j]);
                assert(s.drop_last()[j] == s[j]);
            } else {
                assert(views_of(s)[j] == s.last()@);
            }
        }
    }
}

pub proof fn lemma_views_of_push<T: View>(s: Seq<T>, x: T)
    ensures
        views_of(s.push(x)) == views_of(s).push(x@),
{
    assert(s.push(x).drop_last() =~= s);
    assert(s.push(x).last() == x);
}

pub proof fn lemma_views_of_concat<T: View>(a: Seq<T>, b: Seq<T>)
    ensures
        views_of(a + b) == views_of(a) + views_of(b),
{
    lemma_views_of(a);
    lemma_views_of(b);
    lemma_views_of(a + b);
    assert(views_of(a + b) =~= views_of(a) + views_of(b));
}

/// The concatenation of a sequence of document shapes, in order.
pub open spec fn concat_of(docs: Seq<DocV>) -> DocV
    decreases docs.len(),
{
    if docs.len() == 0 {
        DocV::Nil
    } else {
        DocV::Append(Box::new(docs[0]), Box::new(concat_of(docs.drop_first())))
    }
}

/// The sequence of document shapes interleaved with a separator.
pub open spec fn intersperse_of(docs: Seq<DocV>, sep: DocV) -> DocV
    decreases docs.len(),
{
    if docs.len() == 0 {
        DocV::Nil
    } else if docs.len() == 1 {
        docs[0]
    } else {
        DocV::Append(
            Box::new(docs[0]),
            Box::new(DocV::Append(Box::new(sep), Box::new(intersperse_of(docs.drop_first(), sep)))),
        )
    }
}

/// A text leaf holding a copy of the given string.
pub fn text(s: &str) -> (d: Doc)
    ensures
        d@ == DocV::Text(s@),
{
    Doc::Text(s.to_owned())
}

/// A text leaf taking ownership of the given string.
pub fn text_owned(s: String) -> (d: Doc)
    ensures
        d@ == DocV::Text(s@),
{
    Doc::Text(s)
}

/// Two documents in sequence.
pub fn append(l: Doc, r: Doc) -> (d: Doc)
    ensures
        d@ == DocV::Append(Box::new(l@), Box::new(r@)),
{
    Doc::Append(Box::new(l), Box::new(r))
}

/// The concatenation of a vector of documents, in order.
pub fn concat(docs: Vec<Doc>) -> (d: Doc)
    ensures
        d@ == concat_of(views_of(docs@)),
{
    let ghost all = views_of(docs@);
    let mut out = Doc::Nil;
    let mut i = docs.len();
    let mut rest = docs;
    proof {
        lemma_views_of(rest@);
        assert(all.take(i as int) =~= all);
        assert(all.skip(all.len() as int) =~= Seq::<DocV>::empty());
    }
    while i > 0
        invariant
            i == rest.len(),
            i <= all.len(),
            views_of(rest@) == all.take(i as int),
            out@ == concat_of(all.skip(i as int)),
        decreases i,
    {
        let ghost prevs = rest@;
        let last = rest.pop().unwrap();
        proof {
            lemma_views_of(prevs);
            lemma_views_of(rest@);
            assert(last@ == views_of(prevs)[i - 1]);
            assert(views_of(rest@) =~= all.take(i - 1));
            assert(all.skip(i - 1).drop_first() =~= all.skip(i as int));
            assert(all.skip(i - 1)[0] == all[i - 1]);
        }
        out = Doc::Append(Box::new(last), Box::new(out));
        i = i - 1;
    }
    proof {
        assert(all.skip(0) =~= all);
    }
    out
}

/// The shape of a `","` followed by a soft space: the separator of
/// comma-separated lists.
pub open spec fn comma_line() -> DocV {
    DocV::Append(Box::new(DocV::Text(","@)), Box::new(DocV::Line))
}

/// The separator shapes used between list items in this crate.
#[derive(Clone, Copy)]
pub enum Sep {
    /// A soft space.
    Line,
    /// A `","` followed by a soft space.
    CommaLine,
}

/// The document shape a separator stands for.
pub open spec fn sep_shape(s: Sep) -> DocV {
    match s {
        Sep::Line => DocV::Line,
        Sep::CommaLine => comma_line(),
    }
}

impl Sep {
    /// One fresh document of this separator's shape.
    pub fn build(&self) -> (d: Doc)
        ensures
            d@ == sep_shape(*self),
    {
        match *self {
            Sep::Line => Doc::Line,
            Sep::CommaLine => {
                let comma = text(",");
                let line = Doc::Line;
                proof {
                    assert(line@ == DocV::Line);
                }
                let d = append(comma, line);
                proof {
                    assert(d@ == comma_line());
                }
                d
            },
        }
    }
}

/// The documents of a vector in sequence with a separator between each
/// neighbouring pair.
pub fn intersperse(docs: Vec<Doc>, sep: Sep) -> (d: Doc)
    ensures
        d@ == intersperse_of(views_of(docs@), sep_shape(sep)),
{
    let ghost all = views_of(docs@);
    let mut rest = docs;
    proof {
        lemma_views_of(rest@);
    }
    if rest.len() == 0 {
        return Doc::Nil;
    }
    let mut i = rest.len() - 1;
    let ghost prevs0 = rest@;
    let last = rest.pop().unwrap();
    proof {
        lemma_views_of(prevs0);
        lemma_views_of(rest@);
        assert(last@ == views_of(prevs0)[i as int]);
        assert(views_of(rest@) =~= all.take(i as int));
        assert(all.skip(i as int) =~= seq![all[i as int]]);
    }
    let mut out = last;
    while i > 0
        invariant
            i == rest.len(),
            i < all.len(),
            views_of(rest@) == all.take(i as int),
            out@ == intersperse_of(all.skip(i as int), sep_shape(sep)),
        decreases i,
    {
        let ghost prevs = rest@;
        let item = rest.pop().unwrap();
        proof {
            lemma_views_of(prevs);
            lemma_views_of(rest@);
            assert(item@ == views_of(prevs)[i - 1]);
            assert(item@ == all.take(i as int)[i - 1]);
            assert(item@ == all[i - 1]);
            assert(views_of(rest@) =~= all.take(i - 1));
            assert(all.skip(i - 1).drop_first() =~= all.skip(i as int));
            assert(all.skip(i - 1)[0] == all[i - 1]);
            assert(all.skip(i - 1).len() == all.len() - i + 1);
        }
        let sep_doc = sep.build();
        let tail = append(sep_doc, out);
        out = append(item, tail);
        proof {
            assert(intersperse_of(all.skip(i - 1).drop_first(), sep_shape(sep))
                == intersperse_of(all.skip(i as int), sep_shape(sep)));
            assert(out@ == intersperse_of(all.skip(i - 1), sep_shape(sep)));
        }
        i = i - 1;
    }
    proof {
        assert(all.skip(0) =~= all);
    }
    out
}

/// The body nested by the given indentation delta.
pub fn nest(delta: usize, d: Doc) -> (r: Doc)
    ensures
        r@ == DocV::Nest(delta as nat, Box::new(d@)),
{
    Doc::Nest(delta, Box::new(d))
}

/// The body as one flat-or-broken unit.
pub fn group(d: Doc) -> (r: Doc)
    ensures
        r@ == DocV::Group(Box::new(d@)),
{
    Doc::Group(Box::new(d))
}

} // verus!
