//! The compiler from statements to layout documents.
//!
//! One rule per statement, clause and expression shape; every formatting
//! policy of the library lives here. The recurring patterns: a title
//! followed by a soft break and its nested body, as one group; comma
//! lists joined by `","` plus a soft break, grouped as a whole so they
//! flatten or break together; bracketed regions whose soft-empty breaks
//! never force a blank line between empty brackets; and a fallback that
//! emits a node's canonical single-line text verbatim, which makes the
//! compiler total: an uncovered shape degrades to unformatted output,
//! never to wrong output.
//!
//! The `d_` spec functions are the rules themselves; each executable
//! `doc_` function is proved to build exactly the document its rule
//! describes.

use vstd::prelude::*;

use crate::ast::{
    CreateMaterializedViewStatement, CreateViewStatement, Cte, CteBlock, CteMutRec, Expr, Function,
    IfExistsBehavior, InsertSource, InsertStatement, Join, JoinConstraint, JoinKind, Limit,
    OrderByExpr, Query, Select, SelectItem, SelectStatement, SetExpr, Statement, TableFactor,
    TableWithJoins, Values, ViewDefinition,
};
use crate::doc::{
    append, comma_line, group, intersperse, intersperse_of, lemma_views_of, lemma_views_of_concat,
    lemma_views_of_push, nest, sep_shape, text, text_owned, views_of, Doc, DocV, Sep,
};
use vstd::string::StringExecFns;

verus! {

/// Indentation step: one level is four columns.
pub const TAB: usize = 4;

/// A text leaf.
pub open spec fn txt(s: Seq<char>) -> DocV {
    DocV::Text(s)
}

/// Two documents in sequence.
pub open spec fn app(l: DocV, r: DocV) -> DocV {
    DocV::Append(Box::new(l), Box::new(r))
}

/// A body nested one indentation level deeper.
pub open spec fn nst(d: DocV) -> DocV {
    DocV::Nest(TAB as nat, Box::new(d))
}

/// A flat-or-broken unit.
pub open spec fn grp(d: DocV) -> DocV {
    DocV::Group(Box::new(d))
}

/// Title plus body: the pair either stays on one line or the body moves
/// one level deeper onto its own line.
pub open spec fn d_nest(title: DocV, body: DocV) -> DocV {
    grp(nst(app(title, app(DocV::Line, body))))
}

/// A comma-separated list as one group: it flattens whole or every item
/// gets its own line, never a mix.
pub open spec fn d_commas(docs: Seq<DocV>) -> DocV {
    grp(intersperse_of(docs, comma_line()))
}

/// A title over a comma-separated list; just the title when the list is
/// empty.
pub open spec fn d_title_commas(title: Seq<char>, docs: Seq<DocV>) -> DocV {
    if docs.len() == 0 {
        txt(title)
    } else {
        d_nest(txt(title), d_commas(docs))
    }
}

/// A bracketed region: open bracket, nested body behind a break, a break,
/// close bracket, grouped.
pub open spec fn d_bracket_doc(l: DocV, d: DocV, r: DocV, ln: DocV) -> DocV {
    grp(app(l, app(nst(app(ln, d)), app(ln, r))))
}

/// A bracketed region between text brackets, breaking with soft-empty
/// breaks so empty brackets never force a blank line.
pub open spec fn d_bracket(l: Seq<char>, d: DocV, r: Seq<char>) -> DocV {
    d_bracket_doc(txt(l), d, txt(r), DocV::LineEmpty)
}

/// Documents interleaved with soft spaces, nested and grouped.
pub open spec fn d_nest_group(docs: Seq<DocV>) -> DocV {
    grp(nst(intersperse_of(docs, DocV::Line)))
}

// ---------------------------------------------------------------------
// Rules for lists of nodes.

pub open spec fn d_strings(ss: Seq<String>) -> Seq<DocV>
    decreases ss,
{
    if ss.len() == 0 {
        Seq::empty()
    } else {
        d_strings(ss.drop_last()).push(txt(ss.last()@))
    }
}

pub open spec fn d_exprs(es: Seq<Expr>) -> Seq<DocV>
    decreases es,
{
    if es.len() == 0 {
        Seq::empty()
    } else {
        d_exprs(es.drop_last()).push(d_expr(es.last()))
    }
}

pub open spec fn d_rows(rows: Seq<Vec<Expr>>) -> Seq<DocV>
    decreases rows,
{
    if rows.len() == 0 {
        Seq::empty()
    } else {
        d_rows(rows.drop_last()).push(d_bracket("("@, d_commas(d_exprs(rows.last()@)), ")"@))
    }
}

pub open spec fn d_ctes(cs: Seq<Cte>) -> Seq<DocV>
    decreases cs,
{
    if cs.len() == 0 {
        Seq::empty()
    } else {
        d_ctes(cs.drop_last()).push(d_cte(cs.last()))
    }
}

pub open spec fn d_ctemutrecs(cs: Seq<CteMutRec>) -> Seq<DocV>
    decreases cs,
{
    if cs.len() == 0 {
        Seq::empty()
    } else {
        d_ctemutrecs(cs.drop_last()).push(d_ctemutrec(cs.last()))
    }
}

pub open spec fn d_order_bys(os: Seq<OrderByExpr>) -> Seq<DocV>
    decreases os,
{
    if os.len() == 0 {
        Seq::empty()
    } else {
        d_order_bys(os.drop_last()).push(d_order_by(os.last()))
    }
}

pub open spec fn d_select_items(items: Seq<SelectItem>) -> Seq<DocV>
    decreases items,
{
    if items.len() == 0 {
        Seq::empty()
    } else {
        d_select_items(items.drop_last()).push(d_select_item(items.last()))
    }
}

pub open spec fn d_twjs(ts: Seq<TableWithJoins>) -> Seq<DocV>
    decreases ts,
{
    if ts.len() == 0 {
        Seq::empty()
    } else {
        d_twjs(ts.drop_last()).push(d_table_with_joins(ts.last()))
    }
}

pub open spec fn d_joins(js: Seq<Join>) -> Seq<DocV>
    decreases js,
{
    if js.len() == 0 {
        Seq::empty()
    } else {
        d_joins(js.drop_last()).push(d_join(js.last()))
    }
}

// ---------------------------------------------------------------------
// Rules for single nodes.

/// The title text of a `CREATE VIEW`.
pub open spec fn create_view_title(v: CreateViewStatement) -> Seq<char> {
    "CREATE"@ + (if v.if_exists is Replace {
        " OR REPLACE"@
    } else {
        Seq::<char>::empty()
    }) + (if v.temporary {
        " TEMPORARY"@
    } else {
        Seq::<char>::empty()
    }) + " VIEW"@ + (if v.if_exists is Skip {
        " IF NOT EXISTS"@
    } else {
        Seq::<char>::empty()
    })
}

/// The title text of a `CREATE MATERIALIZED VIEW`.
pub open spec fn cmv_title(v: CreateMaterializedViewStatement) -> Seq<char> {
    "CREATE"@ + (if v.if_exists is Replace {
        " OR REPLACE"@
    } else {
        Seq::<char>::empty()
    }) + " MATERIALIZED VIEW"@ + (if v.if_exists is Skip {
        " IF NOT EXISTS"@
    } else {
        Seq::<char>::empty()
    }) + " "@ + v.name@
}

/// The title text of a `SELECT` list: the keyword, then any quantifier.
pub open spec fn select_title(s: Select) -> Seq<char> {
    "SELECT"@ + (match s.distinct {
        Some(d) => " "@ + d@,
        None => Seq::<char>::empty(),
    })
}

/// The keyword of a modeled join.
pub open spec fn join_name(k: JoinKind) -> Seq<char> {
    match k {
        JoinKind::Inner => "JOIN"@,
        JoinKind::FullOuter => "FULL JOIN"@,
        JoinKind::LeftOuter => "LEFT JOIN"@,
        JoinKind::RightOuter => "RIGHT JOIN"@,
    }
}

pub open spec fn d_statement(s: Statement) -> DocV
    decreases s,
{
    match s {
        Statement::Select(v) => d_select_statement(*v),
        Statement::Insert(v) => d_insert(*v),
        Statement::CreateView(v) => d_create_view(*v),
        Statement::CreateMaterializedView(v) => d_cmv(*v),
        Statement::Other(t) => txt(t@),
    }
}

pub open spec fn d_select_statement(v: SelectStatement) -> DocV
    decreases v,
{
    grp(
        match v.as_of {
            Some(a) => grp(nst(app(d_query(v.query), app(DocV::Line, txt(a@))))),
            None => d_query(v.query),
        },
    )
}

pub open spec fn d_insert(v: InsertStatement) -> DocV
    decreases v,
{
    grp(nst(app(
        d_nest_group(
            if v.columns@.len() == 0 {
                seq![txt("INSERT INTO "@ + v.table_name@)]
            } else {
                seq![
                    txt("INSERT INTO "@ + v.table_name@),
                    d_bracket("("@, d_commas(d_strings(v.columns@)), ")"@),
                ]
            },
        ),
        app(
            DocV::Line,
            match v.source {
                InsertSource::Query(q) => d_query(q),
                InsertSource::Other(t) => txt(t@),
            },
        ),
    )))
}

pub open spec fn d_create_view(v: CreateViewStatement) -> DocV
    decreases v,
{
    d_nest_group(seq![txt(create_view_title(v)), d_view_definition(v.definition)])
}

pub open spec fn d_cmv(v: CreateMaterializedViewStatement) -> DocV
    decreases v,
{
    d_nest_group(
        seq![txt(cmv_title(v))] + (if v.columns@.len() == 0 {
            Seq::<DocV>::empty()
        } else {
            seq![d_bracket("("@, d_commas(d_strings(v.columns@)), ")"@)]
        }) + (match v.in_cluster {
            Some(c) => seq![txt("IN CLUSTER "@ + c@)],
            None => Seq::<DocV>::empty(),
        }) + seq![d_nest(txt("AS"@), d_query(v.query))],
    )
}

pub open spec fn d_view_definition(v: ViewDefinition) -> DocV
    decreases v,
{
    grp(intersperse_of(
        seq![txt(v.name@)] + (if v.columns@.len() == 0 {
            Seq::<DocV>::empty()
        } else {
            seq![d_bracket("("@, d_commas(d_strings(v.columns@)), ")"@)]
        }) + seq![d_nest(txt("AS"@), d_query(v.query))],
        DocV::Line,
    ))
}

/// The trailing row-count clauses of a query, in emission order: `OFFSET`
/// comes before `FETCH FIRST ... WITH TIES` but after a plain `LIMIT`, an
/// asymmetry the grammar prescribes.
pub open spec fn d_query_tail(q: Query) -> Seq<DocV>
    decreases q, 0nat,
{
    let offset = match q.offset {
        Some(e) => seq![d_nest(txt("OFFSET"@), d_expr(e))],
        None => Seq::<DocV>::empty(),
    };
    match q.limit {
        Some(l) => if l.with_ties {
            offset + seq![
                app(txt("FETCH FIRST "@), app(d_expr(l.quantity), txt(" ROWS WITH TIES"@))),
            ]
        } else {
            seq![d_nest(txt("LIMIT"@), d_expr(l.quantity))] + offset
        },
        None => offset,
    }
}

pub open spec fn d_query_docs(q: Query) -> Seq<DocV>
    decreases q, 1nat,
{
    (match q.ctes {
            CteBlock::Simple(cs) => if cs@.len() == 0 {
                Seq::<DocV>::empty()
            } else {
                seq![d_title_commas("WITH"@, d_ctes(cs@))]
            },
            CteBlock::MutuallyRecursive(cs) => if cs@.len() == 0 {
                Seq::<DocV>::empty()
            } else {
                seq![d_title_commas("WITH MUTUALLY RECURSIVE"@, d_ctemutrecs(cs@))]
            },
        }) + seq![d_set_expr(q.body)] + (if q.order_by@.len() == 0 {
            Seq::<DocV>::empty()
        } else {
            seq![d_title_commas("ORDER BY"@, d_order_bys(q.order_by@))]
        }) + d_query_tail(q)
}

pub open spec fn d_query(q: Query) -> DocV
    decreases q, 2nat,
{
    grp(intersperse_of(d_query_docs(q), DocV::Line))
}

pub open spec fn d_cte(c: Cte) -> DocV
    decreases c,
{
    app(
        txt(c.alias@ + " AS"@),
        app(DocV::Line, d_bracket("("@, d_query(c.query), ")"@)),
    )
}

pub open spec fn d_ctemutrec(c: CteMutRec) -> DocV
    decreases c,
{
    d_nest(
        txt(c.name@),
        grp(intersperse_of(
            (if c.columns@.len() == 0 {
                Seq::<DocV>::empty()
            } else {
                seq![d_bracket("("@, d_commas(d_strings(c.columns@)), ")"@)]
            }) + seq![d_bracket("AS ("@, d_query(c.query), ")"@)],
            DocV::Line,
        )),
    )
}

pub open spec fn d_set_expr(e: SetExpr) -> DocV
    decreases e,
{
    grp(
        match e {
            SetExpr::Select(s) => d_select(*s),
            SetExpr::Query(q) => d_bracket("("@, d_query(*q), ")"@),
            SetExpr::SetOperation { op, all, left, right } => app(
                d_set_expr(*left),
                app(
                    DocV::Line,
                    grp(nst(app(
                        txt(op@ + (if all {
                            " ALL"@
                        } else {
                            Seq::<char>::empty()
                        })),
                        app(DocV::Line, d_set_expr(*right)),
                    ))),
                ),
            ),
            SetExpr::Values(v) => d_values(v),
            SetExpr::Other(t) => txt(t@),
        },
    )
}

pub open spec fn d_values(v: Values) -> DocV
    decreases v,
{
    grp(nst(app(txt("VALUES"@), app(DocV::Line, d_commas(d_rows(v.rows@))))))
}

pub open spec fn d_table_with_joins(t: TableWithJoins) -> DocV
    decreases t,
{
    d_nest_group(seq![d_table_factor(t.relation)] + d_joins(t.joins@))
}

pub open spec fn d_join_constraint(c: JoinConstraint) -> DocV
    decreases c,
{
    match c {
        JoinConstraint::On(e) => app(txt("ON "@), d_expr(e)),
        JoinConstraint::Using(ids) => d_bracket("USING("@, d_commas(d_strings(ids@)), ")"@),
    }
}

pub open spec fn d_join(j: Join) -> DocV
    decreases j,
{
    match j {
        Join::Modeled { kind, relation, constraint } => d_nest_group(
            seq![txt(join_name(kind)), d_table_factor(relation), d_join_constraint(constraint)],
        ),
        Join::Other(t) => txt(t@),
    }
}

pub open spec fn d_table_factor(f: TableFactor) -> DocV
    decreases f,
{
    match f {
        TableFactor::Table(t) => txt(t@),
        TableFactor::Derived { subquery, alias } => d_nest_group(
            seq![d_bracket("("@, d_query(*subquery), ")"@)] + (match alias {
                Some(a) => seq![txt("AS "@ + a@)],
                None => Seq::<DocV>::empty(),
            }),
        ),
        TableFactor::NestedJoin { join, alias } => {
            let doc = d_bracket("("@, d_table_with_joins(*join), ")"@);
            match alias {
                Some(a) => d_nest_group(seq![doc, txt("AS "@ + a@)]),
                None => doc,
            }
        },
        TableFactor::Other(t) => txt(t@),
    }
}

pub open spec fn d_select_docs(s: Select) -> Seq<DocV>
    decreases s, 0nat,
{
    seq![d_title_commas(select_title(s), d_select_items(s.projection@))] + (
        if s.from@.len() == 0 {
            Seq::<DocV>::empty()
        } else {
            seq![d_title_commas("FROM"@, d_twjs(s.from@))]
        }) + (match s.selection {
            Some(e) => seq![d_nest(txt("WHERE"@), d_expr(e))],
            None => Seq::<DocV>::empty(),
        }) + (if s.group_by@.len() == 0 {
            Seq::<DocV>::empty()
        } else {
            seq![d_title_commas("GROUP BY"@, d_exprs(s.group_by@))]
        }) + (match s.having {
            Some(e) => seq![d_nest(txt("HAVING"@), d_expr(e))],
            None => Seq::<DocV>::empty(),
        }) + (if s.options@.len() == 0 {
            Seq::<DocV>::empty()
        } else {
            seq![d_bracket("OPTION ("@, d_commas(d_strings(s.options@)), ")"@)]
        })
}

pub open spec fn d_select(s: Select) -> DocV
    decreases s, 1nat,
{
    grp(intersperse_of(d_select_docs(s), DocV::Line))
}

pub open spec fn d_select_item(i: SelectItem) -> DocV
    decreases i,
{
    match i {
        SelectItem::Expr { expr, alias } => match alias {
            Some(a) => d_nest(d_expr(expr), app(txt("AS "@), txt(a@))),
            None => d_expr(expr),
        },
        SelectItem::Wildcard => txt("*"@),
    }
}

pub open spec fn d_order_by(o: OrderByExpr) -> DocV
    decreases o,
{
    match o.asc {
        Some(true) => d_nest(d_expr(o.expr), txt("ASC"@)),
        Some(false) => d_nest(d_expr(o.expr), txt("DESC"@)),
        None => d_expr(o.expr),
    }
}

pub open spec fn d_expr(e: Expr) -> DocV
    decreases e,
{
    grp(
        match e {
            Expr::Op { op, expr1, expr2 } => match expr2 {
                Some(e2) => app(
                    d_expr(*expr1),
                    app(DocV::Line, app(txt(op@ + " "@), nst(d_expr(*e2)))),
                ),
                None => app(txt(op@ + " "@), d_expr(*expr1)),
            },
            Expr::Cast { expr, data_type } => d_bracket(
                "CAST("@,
                nst(app(d_expr(*expr), app(DocV::Line, txt("AS "@ + data_type@)))),
                ")"@,
            ),
            Expr::Nested(inner) => d_bracket("("@, d_expr(*inner), ")"@),
            Expr::Function(f) => d_function(f),
            Expr::Subquery(q) => d_bracket("("@, d_query(*q), ")"@),
            Expr::Verbatim(t) => txt(t@),
            Expr::And { left, right } => d_bracket_doc(
                d_expr(*left),
                txt("AND"@),
                d_expr(*right),
                DocV::Line,
            ),
            Expr::Or { left, right } => d_bracket_doc(
                d_expr(*left),
                txt("OR"@),
                d_expr(*right),
                DocV::Line,
            ),
            Expr::Exists(q) => d_bracket("EXISTS ("@, d_query(*q), ")"@),
            Expr::Is { expr, negated, construct } => d_bracket_doc(
                d_expr(*expr),
                txt(if negated {
                    "IS NOT"@
                } else {
                    "IS"@
                }),
                txt(construct@),
                DocV::Line,
            ),
            Expr::Not { expr } => app(txt("NOT"@), app(DocV::Line, d_expr(*expr))),
            Expr::Between { expr, negated, low, high } => intersperse_of(
                seq![
                    d_expr(*expr),
                    txt(if negated {
                        "NOT BETWEEN"@
                    } else {
                        "BETWEEN"@
                    }),
                    grp(intersperse_of(
                        seq![d_expr(*low), txt("AND"@), d_expr(*high)],
                        DocV::Line,
                    )),
                ],
                DocV::Line,
            ),
            Expr::InSubquery { expr, subquery, negated } => intersperse_of(
                seq![
                    d_expr(*expr),
                    txt(if negated {
                        "NOT IN ("@
                    } else {
                        "IN ("@
                    }),
                    d_query(*subquery),
                    txt(")"@),
                ],
                DocV::Line,
            ),
            Expr::InList { expr, list, negated } => intersperse_of(
                seq![
                    d_expr(*expr),
                    txt(if negated {
                        "NOT IN ("@
                    } else {
                        "IN ("@
                    }),
                    d_commas(d_exprs(list@)),
                    txt(")"@),
                ],
                DocV::Line,
            ),
            Expr::Row { exprs } => d_bracket("ROW("@, d_commas(d_exprs(exprs@)), ")"@),
            Expr::Other(t) => txt(t@),
        },
    )
}

pub open spec fn d_function(f: Function) -> DocV
    decreases f,
{
    match f {
        Function::Call { name, distinct, args } => d_bracket_doc(
            txt(name@ + "("@ + (if distinct {
                "DISTINCT"@
            } else {
                Seq::<char>::empty()
            })),
            d_commas(d_exprs(args@)),
            txt(")"@),
            DocV::LineEmpty,
        ),
        Function::Verbatim(t) => txt(t@),
    }
}

// ---------------------------------------------------------------------
// Executable builders, each proved to produce its rule's document.

/// Title plus body as one nested group.
fn title_body(title: Doc, body: Doc) -> (d: Doc)
    ensures
        d@ == d_nest(title@, body@),
{
    let ln = Doc::Line;
    proof {
        assert(ln@ == DocV::Line);
    }
    let t1 = append(ln, body);
    let t2 = append(title, t1);
    let t3 = nest(TAB, t2);
    let d = group(t3);
    proof {
        assert(d@ == d_nest(title@, body@));
    }
    d
}

/// Title plus body, the title given as text.
fn nest_title(title: &str, body: Doc) -> (d: Doc)
    ensures
        d@ == d_nest(txt(title@), body@),
{
    let t = text(title);
    title_body(t, body)
}

/// A comma-separated list as one group.
fn comma_separated(docs: Vec<Doc>) -> (d: Doc)
    ensures
        d@ == d_commas(views_of(docs@)),
{
    let t = intersperse(docs, Sep::CommaLine);
    group(t)
}

/// A title over a comma-separated list; just the title when the list is
/// empty.
fn title_commas(title: String, docs: Vec<Doc>) -> (d: Doc)
    ensures
        d@ == d_title_commas(title@, views_of(docs@)),
{
    proof {
        crate::doc::lemma_views_of(docs@);
    }
    if docs.len() == 0 {
        text_owned(title)
    } else {
        let body = comma_separated(docs);
        title_body(text_owned(title), body)
    }
}

/// A bracketed region between arbitrary documents; breaks with soft-empty
/// breaks when `empty_break` is set, soft spaces otherwise.
fn bracket_doc(l: Doc, d: Doc, r: Doc, empty_break: bool) -> (res: Doc)
    ensures
        res@ == d_bracket_doc(
            l@,
            d@,
            r@,
            if empty_break {
                DocV::LineEmpty
            } else {
                DocV::Line
            },
        ),
{
    let ln1 = if empty_break {
        Doc::LineEmpty
    } else {
        Doc::Line
    };
    let ln2 = if empty_break {
        Doc::LineEmpty
    } else {
        Doc::Line
    };
    proof {
        assert(ln1@ == if empty_break {
            DocV::LineEmpty
        } else {
            DocV::Line
        });
        assert(ln2@ == ln1@);
    }
    let t1 = append(ln1, d);
    let t2 = nest(TAB, t1);
    let t3 = append(ln2, r);
    let t4 = append(t2, t3);
    let t5 = append(l, t4);
    let res = group(t5);
    proof {
        assert(res@ == d_bracket_doc(l@, d@, r@, ln1@));
    }
    res
}

/// A bracketed region between text brackets.
fn bracket(l: &str, d: Doc, r: &str) -> (res: Doc)
    ensures
        res@ == d_bracket(l@, d@, r@),
{
    let lt = text(l);
    let rt = text(r);
    bracket_doc(lt, d, rt, true)
}

/// Documents interleaved with soft spaces, nested and grouped.
fn nest_group(docs: Vec<Doc>) -> (d: Doc)
    ensures
        d@ == d_nest_group(views_of(docs@)),
{
    let t1 = intersperse(docs, Sep::Line);
    let t2 = nest(TAB, t1);
    group(t2)
}


// ---------------------------------------------------------------------
// Lists of node documents.

fn docs_of_strings(v: &Vec<String>) -> (r: Vec<Doc>)
    ensures
        views_of(r@) == d_strings(v@),
    decreases v@, 0nat,
{
    let mut r: Vec<Doc> = Vec::new();
    let mut i: usize = 0;
    proof {
        assert(v@.take(0) =~= Seq::<String>::empty());
    }
    while i < v.len()
        invariant
            i <= v.len(),
            views_of(r@) == d_strings(v@.take(i as int)),
        decreases v@.len() - i,
    {
        let ghost prev = r@;
        let d = text(v[i].as_str());
        r.push(d);
        proof {
            assert(r@.drop_last() =~= prev);
            assert(r@.last() == d);
            assert(v@.take(i + 1).drop_last() =~= v@.take(i as int));
            assert(v@.take(i + 1).last() == v@[i as int]);
            lemma_views_of(r@);
            assert(views_of(r@) == d_strings(v@.take(i + 1)));
        }
        i = i + 1;
    }
    proof {
        assert(v@.take(v@.len() as int) =~= v@);
    }
    r
}

fn docs_of_exprs(v: &Vec<Expr>) -> (r: Vec<Doc>)
    ensures
        views_of(r@) == d_exprs(v@),
    decreases v@, 0nat,
{
    let mut r: Vec<Doc> = Vec::new();
    let mut i: usize = 0;
    proof {
        assert(v@.take(0) =~= Seq::<Expr>::empty());
    }
    while i < v.len()
        invariant
            i <= v.len(),
            views_of(r@) == d_exprs(v@.take(i as int)),
        decreases v@.len() - i,
    {
        let ghost prev = r@;
        let d = doc_expr(&v[i]);
        r.push(d);
        proof {
            assert(r@.drop_last() =~= prev);
            assert(r@.last() == d);
            assert(v@.take(i + 1).drop_last() =~= v@.take(i as int));
            assert(v@.take(i + 1).last() == v@[i as int]);
            lemma_views_of(r@);
            assert(views_of(r@) == d_exprs(v@.take(i + 1)));
        }
        i = i + 1;
    }
    proof {
        assert(v@.take(v@.len() as int) =~= v@);
    }
    r
}

fn docs_of_rows(v: &Vec<Vec<Expr>>) -> (r: Vec<Doc>)
    ensures
        views_of(r@) == d_rows(v@),
    decreases v@, 0nat,
{
    let mut r: Vec<Doc> = Vec::new();
    let mut i: usize = 0;
    proof {
        assert(v@.take(0) =~= Seq::<Vec<Expr>>::empty());
    }
    while i < v.len()
        invariant
            i <= v.len(),
            views_of(r@) == d_rows(v@.take(i as int)),
        decreases v@.len() - i,
    {
        let ghost prev = r@;
        let d = doc_row(&v[i]);
        r.push(d);
        proof {
            assert(r@.drop_last() =~= prev);
            assert(r@.last() == d);
            assert(v@.take(i + 1).drop_last() =~= v@.take(i as int));
            assert(v@.take(i + 1).last() == v@[i as int]);
            lemma_views_of(r@);
            assert(views_of(r@) == d_rows(v@.take(i + 1)));
        }
        i = i + 1;
    }
    proof {
        assert(v@.take(v@.len() as int) =~= v@);
    }
    r
}

fn docs_of_ctes(v: &Vec<Cte>) -> (r: Vec<Doc>)
    ensures
        views_of(r@) == d_ctes(v@),
    decreases v@, 0nat,
{
    let mut r: Vec<Doc> = Vec::new();
    let mut i: usize = 0;
    proof {
        assert(v@.take(0) =~= Seq::<Cte>::empty());
    }
    while i < v.len()
        invariant
            i <= v.len(),
            views_of(r@) == d_ctes(v@.take(i as int)),
        decreases v@.len() - i,
    {
        let ghost prev = r@;
        let d = doc_cte(&v[i]);
        r.push(d);
        proof {
            assert(r@.drop_last() =~= prev);
            assert(r@.last() == d);
            assert(v@.take(i + 1).drop_last() =~= v@.take(i as int));
            assert(v@.take(i + 1).last() == v@[i as int]);
            lemma_views_of(r@);
            assert(views_of(r@) == d_ctes(v@.take(i + 1)));
        }
        i = i + 1;
    }
    proof {
        assert(v@.take(v@.len() as int) =~= v@);
    }
    r
}

fn docs_of_ctemutrecs(v: &Vec<CteMutRec>) -> (r: Vec<Doc>)
    ensures
        views_of(r@) == d_ctemutrecs(v@),
    decreases v@, 0nat,
{
    let mut r: Vec<Doc> = Vec::new();
    let mut i: usize = 0;
    proof {
        assert(v@.take(0) =~= Seq::<CteMutRec>::empty());
    }
    while i < v.len()
        invariant
            i <= v.len(),
            views_of(r@) == d_ctemutrecs(v@.take(i as int)),
        decreases v@.len() - i,
    {
        let ghost prev = r@;
        let d = doc_mutually_recursive(&v[i]);
        r.push(d);
        proof {
            assert(r@.drop_last() =~= prev);
            assert(r@.last() == d);
            assert(v@.take(i + 1).drop_last() =~= v@.take(i as int));
            assert(v@.take(i + 1).last() == v@[i as int]);
            lemma_views_of(r@);
            assert(views_of(r@) == d_ctemutrecs(v@.take(i + 1)));
        }
        i = i + 1;
    }
    proof {
        assert(v@.take(v@.len() as int) =~= v@);
    }
    r
}

fn docs_of_order_bys(v: &Vec<OrderByExpr>) -> (r: Vec<Doc>)
    ensures
        views_of(r@) == d_order_bys(v@),
    decreases v@, 0nat,
{
    let mut r: Vec<Doc> = Vec::new();
    let mut i: usize = 0;
    proof {
        assert(v@.take(0) =~= Seq::<OrderByExpr>::empty());
    }
    while i < v.len()
        invariant
            i <= v.len(),
            views_of(r@) == d_order_bys(v@.take(i as int)),
        decreases v@.len() - i,
    {
        let ghost prev = r@;
        let d = doc_order_by_key(&v[i]);
        r.push(d);
        proof {
            assert(r@.drop_last() =~= prev);
            assert(r@.last() == d);
            assert(v@.take(i + 1).drop_last() =~= v@.take(i as int));
            assert(v@.take(i + 1).last() == v@[i as int]);
            lemma_views_of(r@);
            assert(views_of(r@) == d_order_bys(v@.take(i + 1)));
        }
        i = i + 1;
    }
    proof {
        assert(v@.take(v@.len() as int) =~= v@);
    }
    r
}

fn docs_of_select_items(v: &Vec<SelectItem>) -> (r: Vec<Doc>)
    ensures
        views_of(r@) == d_select_items(v@),
    decreases v@, 0nat,
{
    let mut r: Vec<Doc> = Vec::new();
    let mut i: usize = 0;
    proof {
        assert(v@.take(0) =~= Seq::<SelectItem>::empty());
    }
    while i < v.len()
        invariant
            i <= v.len(),
            views_of(r@) == d_select_items(v@.take(i as int)),
        decreases v@.len() - i,
    {
        let ghost prev = r@;
        let d = doc_select_item(&v[i]);
        r.push(d);
        proof {
            assert(r@.drop_last() =~= prev);
            assert(r@.last() == d);
            assert(v@.take(i + 1).drop_last() =~= v@.take(i as int));
            assert(v@.take(i + 1).last() == v@[i as int]);
            lemma_views_of(r@);
            assert(views_of(r@) == d_select_items(v@.take(i + 1)));
        }
        i = i + 1;
    }
    proof {
        assert(v@.take(v@.len() as int) =~= v@);
    }
    r
}

fn docs_of_twjs(v: &Vec<TableWithJoins>) -> (r: Vec<Doc>)
    ensures
        views_of(r@) == d_twjs(v@),
    decreases v@, 0nat,
{
    let mut r: Vec<Doc> = Vec::new();
    let mut i: usize = 0;
    proof {
        assert(v@.take(0) =~= Seq::<TableWithJoins>::empty());
    }
    while i < v.len()
        invariant
            i <= v.len(),
            views_of(r@) == d_twjs(v@.take(i as int)),
        decreases v@.len() - i,
    {
        let ghost prev = r@;
        let d = doc_table_with_joins(&v[i]);
        r.push(d);
        proof {
            assert(r@.drop_last() =~= prev);
            assert(r@.last() == d);
            assert(v@.take(i + 1).drop_last() =~= v@.take(i as int));
            assert(v@.take(i + 1).last() == v@[i as int]);
            lemma_views_of(r@);
            assert(views_of(r@) == d_twjs(v@.take(i + 1)));
        }
        i = i + 1;
    }
    proof {
        assert(v@.take(v@.len() as int) =~= v@);
    }
    r
}

fn docs_of_joins(v: &Vec<Join>) -> (r: Vec<Doc>)
    ensures
        views_of(r@) == d_joins(v@),
    decreases v@, 0nat,
{
    let mut r: Vec<Doc> = Vec::new();
    let mut i: usize = 0;
    proof {
        assert(v@.take(0) =~= Seq::<Join>::empty());
    }
    while i < v.len()
        invariant
            i <= v.len(),
            views_of(r@) == d_joins(v@.take(i as int)),
        decreases v@.len() - i,
    {
        let ghost prev = r@;
        let d = doc_join(&v[i]);
        r.push(d);
        proof {
            assert(r@.drop_last() =~= prev);
            assert(r@.last() == d);
            assert(v@.take(i + 1).drop_last() =~= v@.take(i as int));
            assert(v@.take(i + 1).last() == v@[i as int]);
            lemma_views_of(r@);
            assert(views_of(r@) == d_joins(v@.take(i + 1)));
        }
        i = i + 1;
    }
    proof {
        assert(v@.take(v@.len() as int) =~= v@);
    }
    r
}

// ---------------------------------------------------------------------
// Documents of single nodes.

/// One parenthesized row of a `VALUES` body.
fn doc_row(v: &Vec<Expr>) -> (d: Doc)
    ensures
        d@ == d_bracket("("@, d_commas(d_exprs(v@)), ")"@),
    decreases v@, 1nat,
{
    let items = docs_of_exprs(v);
    let body = comma_separated(items);
    bracket("(", body, ")")
}

/// One `ORDER BY` key: the expression, with any direction keyword as a
/// nested body.
fn doc_order_by_key(o: &OrderByExpr) -> (d: Doc)
    ensures
        d@ == d_order_by(*o),
    decreases *o, 1nat,
{
    let e = doc_expr(&o.expr);
    match o.asc {
        Some(true) => {
            let t = text("ASC");
            title_body(e, t)
        },
        Some(false) => {
            let t = text("DESC");
            title_body(e, t)
        },
        None => e,
    }
}

/// One item of a select list.
fn doc_select_item(i: &SelectItem) -> (d: Doc)
    ensures
        d@ == d_select_item(*i),
    decreases *i, 1nat,
{
    match i {
        SelectItem::Expr { expr, alias } => {
            let e = doc_expr(expr);
            match alias {
                Some(a) => {
                    let kw = text("AS ");
                    let at = text(a.as_str());
                    let body = append(kw, at);
                    title_body(e, body)
                },
                None => e,
            }
        },
        SelectItem::Wildcard => text("*"),
    }
}

/// A function call: the name and open bracket as the region's left text.
fn doc_function(f: &Function) -> (d: Doc)
    ensures
        d@ == d_function(*f),
    decreases *f, 1nat,
{
    match f {
        Function::Call { name, distinct, args } => {
            let mut left = name.clone();
            left.append("(");
            if *distinct {
                left.append("DISTINCT");
            }
            proof {
                assert(left@ =~= name@ + "("@ + (if *distinct {
                    "DISTINCT"@
                } else {
                    Seq::<char>::empty()
                }));
            }
            let items = docs_of_exprs(args);
            let body = comma_separated(items);
            let rt = text(")");
            bracket_doc(text_owned(left), body, rt, true)
        },
        Function::Verbatim(t) => text(t.as_str()),
    }
}

/// An expression.
#[verifier::rlimit(100)]
fn doc_expr(e: &Expr) -> (d: Doc)
    ensures
        d@ == d_expr(*e),
    decreases *e, 1nat,
{
    match e {
        Expr::Op { op, expr1, expr2 } => match expr2 {
            Some(e2) => {
                let d1 = doc_expr(expr1);
                let d2 = doc_expr(e2);
                let mut ot = op.clone();
                ot.append(" ");
                let n2 = nest(TAB, d2);
                let t1 = append(text_owned(ot), n2);
                let ln = Doc::Line;
                proof {
                    assert(ln@ == DocV::Line);
                }
                let t2 = append(ln, t1);
                let t3 = append(d1, t2);
                let d = group(t3);
                proof {
                    assert(d@ == d_expr(*e));
                }
                d
            },
            None => {
                let d1 = doc_expr(expr1);
                let mut ot = op.clone();
                ot.append(" ");
                let t1 = append(text_owned(ot), d1);
                let d = group(t1);
                proof {
                    assert(d@ == d_expr(*e));
                }
                d
            },
        },
        Expr::Cast { expr, data_type } => {
            let d1 = doc_expr(expr);
            let mut at = String::from_str("AS ");
            at.append(data_type.as_str());
            let ln = Doc::Line;
            proof {
                assert(ln@ == DocV::Line);
            }
            let t1 = append(ln, text_owned(at));
            let t2 = append(d1, t1);
            let t3 = nest(TAB, t2);
            let d = bracket("CAST(", t3, ")");
            let d = group(d);
            proof {
                assert(d@ == d_expr(*e));
            }
            d
        },
        Expr::Nested(inner) => {
            let d1 = doc_expr(inner);
            let d = bracket("(", d1, ")");
            let d = group(d);
            proof {
                assert(d@ == d_expr(*e));
            }
            d
        },
        Expr::Function(f) => {
            let d = doc_function(f);
            let d = group(d);
            proof {
                assert(d@ == d_expr(*e));
            }
            d
        },
        Expr::Subquery(q) => {
            let dq = doc_query(q);
            let d = bracket("(", dq, ")");
            let d = group(d);
            proof {
                assert(d@ == d_expr(*e));
            }
            d
        },
        Expr::Verbatim(t) => {
            let d = text(t.as_str());
            let d = group(d);
            proof {
                assert(d@ == d_expr(*e));
            }
            d
        },
        Expr::And { left, right } => {
            let dl = doc_expr(left);
            let dr = doc_expr(right);
            let kw = text("AND");
            let d = bracket_doc(dl, kw, dr, false);
            let d = group(d);
            proof {
                assert(d@ == d_expr(*e));
            }
            d
        },
        Expr::Or { left, right } => {
            let dl = doc_expr(left);
            let dr = doc_expr(right);
            let kw = text("OR");
            let d = bracket_doc(dl, kw, dr, false);
            let d = group(d);
            proof {
                assert(d@ == d_expr(*e));
            }
            d
        },
        Expr::Exists(q) => {
            let dq = doc_query(q);
            let d = bracket("EXISTS (", dq, ")");
            let d = group(d);
            proof {
                assert(d@ == d_expr(*e));
            }
            d
        },
        Expr::Is { expr, negated, construct } => {
            let de = doc_expr(expr);
            let kw = if *negated {
                text("IS NOT")
            } else {
                text("IS")
            };
            let ct = text(construct.as_str());
            let d = bracket_doc(de, kw, ct, false);
            let d = group(d);
            proof {
                assert(d@ == d_expr(*e));
            }
            d
        },
        Expr::Not { expr } => {
            let de = doc_expr(expr);
            let ln = Doc::Line;
            proof {
                assert(ln@ == DocV::Line);
            }
            let t1 = append(ln, de);
            let kw = text("NOT");
            let t2 = append(kw, t1);
            let d = group(t2);
            proof {
                assert(d@ == d_expr(*e));
            }
            d
        },
        Expr::Between { expr, negated, low, high } => {
            let de = doc_expr(expr);
            let kw = if *negated {
                text("NOT BETWEEN")
            } else {
                text("BETWEEN")
            };
            let dl = doc_expr(low);
            let da = text("AND");
            let dh = doc_expr(high);
            let mut range: Vec<Doc> = Vec::new();
            let ghost dlv = dl@;
            let ghost dav = da@;
            let ghost dhv = dh@;
            range.push(dl);
            proof {
                lemma_views_of_push(Seq::empty(), range@.last());
                assert(range@.drop_last() =~= Seq::<Doc>::empty());
            }
            range.push(da);
            range.push(dh);
            proof {
                lemma_views_of(range@);
                assert(views_of(range@) =~= seq![dlv, dav, dhv]);
            }
            let ri = intersperse(range, Sep::Line);
            let rg = group(ri);
            let mut items: Vec<Doc> = Vec::new();
            let ghost dev = de@;
            let ghost kwv = kw@;
            let ghost rgv = rg@;
            items.push(de);
            items.push(kw);
            items.push(rg);
            proof {
                lemma_views_of(items@);
                assert(views_of(items@) =~= seq![dev, kwv, rgv]);
            }
            let ti = intersperse(items, Sep::Line);
            let d = group(ti);
            proof {
                assert(d@ == d_expr(*e));
            }
            d
        },
        Expr::InSubquery { expr, subquery, negated } => {
            let de = doc_expr(expr);
            let kw = if *negated {
                text("NOT IN (")
            } else {
                text("IN (")
            };
            let dq = doc_query(subquery);
            let ct = text(")");
            let mut items: Vec<Doc> = Vec::new();
            let ghost dev = de@;
            let ghost kwv = kw@;
            let ghost dqv = dq@;
            let ghost ctv = ct@;
            items.push(de);
            items.push(kw);
            items.push(dq);
            items.push(ct);
            proof {
                lemma_views_of(items@);
                assert(views_of(items@) =~= seq![dev, kwv, dqv, ctv]);
            }
            let ti = intersperse(items, Sep::Line);
            let d = group(ti);
            proof {
                assert(d@ == d_expr(*e));
            }
            d
        },
        Expr::InList { expr, list, negated } => {
            let de = doc_expr(expr);
            let kw = if *negated {
                text("NOT IN (")
            } else {
                text("IN (")
            };
            let ld = docs_of_exprs(list);
            let lc = comma_separated(ld);
            let ct = text(")");
            let mut items: Vec<Doc> = Vec::new();
            let ghost dev = de@;
            let ghost kwv = kw@;
            let ghost lcv = lc@;
            let ghost ctv = ct@;
            items.push(de);
            items.push(kw);
            items.push(lc);
            items.push(ct);
            proof {
                lemma_views_of(items@);
                assert(views_of(items@) =~= seq![dev, kwv, lcv, ctv]);
            }
            let ti = intersperse(items, Sep::Line);
            let d = group(ti);
            proof {
                assert(d@ == d_expr(*e));
            }
            d
        },
        Expr::Row { exprs } => {
            let ld = docs_of_exprs(exprs);
            let lc = comma_separated(ld);
            let d = bracket("ROW(", lc, ")");
            let d = group(d);
            proof {
                assert(d@ == d_expr(*e));
            }
            d
        },
        Expr::Other(t) => {
            let d = text(t.as_str());
            let d = group(d);
            proof {
                assert(d@ == d_expr(*e));
            }
            d
        },
    }
}

/// A table expression in a `FROM` clause.
#[verifier::rlimit(100)]
fn doc_table_factor(f: &TableFactor) -> (d: Doc)
    ensures
        d@ == d_table_factor(*f),
    decreases *f, 1nat,
{
    match f {
        TableFactor::Table(t) => text(t.as_str()),
        TableFactor::Derived { subquery, alias } => {
            let dq = doc_query(subquery);
            let b = bracket("(", dq, ")");
            let mut docs: Vec<Doc> = Vec::new();
            let ghost bv = b@;
            docs.push(b);
            match alias {
                Some(a) => {
                    let mut at = String::from_str("AS ");
                    at.append(a.as_str());
                    let t = text_owned(at);
                    let ghost tv = t@;
                    docs.push(t);
                    proof {
                        lemma_views_of(docs@);
                        assert(views_of(docs@) =~= seq![bv] + seq![tv]);
                    }
                    let d = nest_group(docs);
                    proof {
                        assert(d@ == d_table_factor(*f));
                    }
                    d
                },
                None => {
                    proof {
                        lemma_views_of(docs@);
                        assert(views_of(docs@) =~= seq![bv] + Seq::<DocV>::empty());
                    }
                    let d = nest_group(docs);
                    proof {
                        assert(d@ == d_table_factor(*f));
                    }
                    d
                },
            }
        },
        TableFactor::NestedJoin { join, alias } => {
            let dj = doc_table_with_joins(join);
            let b = bracket("(", dj, ")");
            match alias {
                Some(a) => {
                    let mut at = String::from_str("AS ");
                    at.append(a.as_str());
                    let t = text_owned(at);
                    let mut docs: Vec<Doc> = Vec::new();
                    let ghost bv = b@;
                    let ghost tv = t@;
                    docs.push(b);
                    docs.push(t);
                    proof {
                        lemma_views_of(docs@);
                        assert(views_of(docs@) =~= seq![bv, tv]);
                    }
                    let d = nest_group(docs);
                    proof {
                        assert(d@ == d_table_factor(*f));
                    }
                    d
                },
                None => b,
            }
        },
        TableFactor::Other(t) => text(t.as_str()),
    }
}

/// A join's `ON` or `USING` constraint.
fn doc_join_constraint(c: &JoinConstraint) -> (d: Doc)
    ensures
        d@ == d_join_constraint(*c),
    decreases *c, 1nat,
{
    match c {
        JoinConstraint::On(e) => {
            let kw = text("ON ");
            let de = doc_expr(e);
            append(kw, de)
        },
        JoinConstraint::Using(ids) => {
            let ds = docs_of_strings(ids);
            let dc = comma_separated(ds);
            bracket("USING(", dc, ")")
        },
    }
}

/// One join step.
#[verifier::rlimit(100)]
fn doc_join(j: &Join) -> (d: Doc)
    ensures
        d@ == d_join(*j),
    decreases *j, 1nat,
{
    match j {
        Join::Modeled { kind, relation, constraint } => {
            let name = match kind {
                JoinKind::Inner => {
                    let t = text("JOIN");
                    proof {
                        assert(t@ == txt(join_name(*kind)));
                    }
                    t
                },
                JoinKind::FullOuter => {
                    let t = text("FULL JOIN");
                    proof {
                        assert(t@ == txt(join_name(*kind)));
                    }
                    t
                },
                JoinKind::LeftOuter => {
                    let t = text("LEFT JOIN");
                    proof {
                        assert(t@ == txt(join_name(*kind)));
                    }
                    t
                },
                JoinKind::RightOuter => {
                    let t = text("RIGHT JOIN");
                    proof {
                        assert(t@ == txt(join_name(*kind)));
                    }
                    t
                },
            };
            proof {
                assert(name@ == txt(join_name(*kind)));
            }
            let rel = doc_table_factor(relation);
            let con = doc_join_constraint(constraint);
            let mut docs: Vec<Doc> = Vec::new();
            let ghost nv = name@;
            let ghost rv = rel@;
            let ghost cv = con@;
            docs.push(name);
            docs.push(rel);
            docs.push(con);
            proof {
                lemma_views_of(docs@);
                assert(views_of(docs@) =~= seq![nv, rv, cv]);
            }
            let d = nest_group(docs);
            proof {
                assert(d@ == d_join(*j));
            }
            d
        },
        Join::Other(t) => text(t.as_str()),
    }
}

/// A relation and its joins.
fn doc_table_with_joins(t: &TableWithJoins) -> (d: Doc)
    ensures
        d@ == d_table_with_joins(*t),
    decreases *t, 1nat,
{
    let rel = doc_table_factor(&t.relation);
    let mut js = docs_of_joins(&t.joins);
    let mut docs: Vec<Doc> = Vec::new();
    let ghost rv = rel@;
    docs.push(rel);
    proof {
        lemma_views_of(docs@);
        assert(views_of(docs@) =~= seq![rv]);
    }
    let ghost base = docs@;
    let ghost jsv = js@;
    docs.append(&mut js);
    proof {
        crate::doc::lemma_views_of(docs@);
        crate::doc::lemma_views_of(base);
        crate::doc::lemma_views_of(jsv);
        lemma_views_of(docs@);
        assert(views_of(docs@) =~= seq![rv] + d_joins(t.joins@));
    }
    let d = nest_group(docs);
    proof {
        assert(d@ == d_table_with_joins(*t));
    }
    d
}

/// A `VALUES` body.
fn doc_values(v: &Values) -> (d: Doc)
    ensures
        d@ == d_values(*v),
    decreases *v, 1nat,
{
    let rows = docs_of_rows(&v.rows);
    let rc = comma_separated(rows);
    let ln = Doc::Line;
    proof {
        assert(ln@ == DocV::Line);
    }
    let t1 = append(ln, rc);
    let kw = text("VALUES");
    let t2 = append(kw, t1);
    let t3 = nest(TAB, t2);
    let d = group(t3);
    proof {
        assert(d@ == d_values(*v));
    }
    d
}

/// The body of a query.
fn doc_set_expr(e: &SetExpr) -> (d: Doc)
    ensures
        d@ == d_set_expr(*e),
    decreases *e, 1nat,
{
    match e {
        SetExpr::Select(sel) => {
            let ds = doc_select(sel);
            let d = group(ds);
            proof {
                assert(d@ == d_set_expr(*e));
            }
            d
        },
        SetExpr::Query(q) => {
            let dq = doc_query(q);
            let b = bracket("(", dq, ")");
            let d = group(b);
            proof {
                assert(d@ == d_set_expr(*e));
            }
            d
        },
        SetExpr::SetOperation { op, all, left, right } => {
            let dl = doc_set_expr(left);
            let dr = doc_set_expr(right);
            let mut ot = op.clone();
            if *all {
                ot.append(" ALL");
            }
            proof {
                assert(ot@ =~= op@ + (if *all {
                    " ALL"@
                } else {
                    Seq::<char>::empty()
                }));
            }
            let ln1 = Doc::Line;
            let ln2 = Doc::Line;
            proof {
                assert(ln1@ == DocV::Line);
                assert(ln2@ == DocV::Line);
            }
            let t1 = append(ln2, dr);
            let t2 = append(text_owned(ot), t1);
            let t3 = nest(TAB, t2);
            let t4 = group(t3);
            let t5 = append(ln1, t4);
            let t6 = append(dl, t5);
            let d = group(t6);
            proof {
                assert(d@ == d_set_expr(*e));
            }
            d
        },
        SetExpr::Values(v) => {
            let dv = doc_values(v);
            let d = group(dv);
            proof {
                assert(d@ == d_set_expr(*e));
            }
            d
        },
        SetExpr::Other(t) => {
            let dt = text(t.as_str());
            let d = group(dt);
            proof {
                assert(d@ == d_set_expr(*e));
            }
            d
        },
    }
}

/// The clause documents of a `SELECT` core, in order.
#[verifier::rlimit(100)]
fn doc_select_docs(v: &Select) -> (r: Vec<Doc>)
    ensures
        views_of(r@) == d_select_docs(*v),
    decreases *v, 1nat,
{
    let mut title = String::from_str("SELECT");
    match &v.distinct {
        Some(dt) => {
            title.append(" ");
            title.append(dt.as_str());
        },
        None => {},
    }
    proof {
        assert(title@ =~= select_title(*v));
    }
    let items = docs_of_select_items(&v.projection);
    let t0 = title_commas(title, items);
    let mut docs: Vec<Doc> = Vec::new();
    let ghost t0v = t0@;
    docs.push(t0);
    proof {
        assert(docs@.drop_last() =~= Seq::<Doc>::empty());
        lemma_views_of(docs@);
        assert(views_of(docs@) =~= seq![t0v]);
    }

    let mut part_from: Vec<Doc> = Vec::new();
    if v.from.len() > 0 {
        let tf = docs_of_twjs(&v.from);
        let t = title_commas(String::from_str("FROM"), tf);
        let ghost tv = t@;
        part_from.push(t);
        proof {
            assert(part_from@.drop_last() =~= Seq::<Doc>::empty());
            lemma_views_of(part_from@);
            assert(views_of(part_from@) =~= seq![tv]);
        }
    }
    proof {
        lemma_views_of(part_from@);
        assert(views_of(part_from@) == (if v.from@.len() == 0 {
            Seq::<DocV>::empty()
        } else {
            seq![d_title_commas("FROM"@, d_twjs(v.from@))]
        }));
    }
    let ghost dv1 = docs@;
    let ghost pv1 = part_from@;
    docs.append(&mut part_from);
    proof {
        lemma_views_of_concat(dv1, pv1);
    }

    let mut part_where: Vec<Doc> = Vec::new();
    match &v.selection {
        Some(e) => {
            let de = doc_expr(e);
            let t = nest_title("WHERE", de);
            let ghost tv = t@;
            part_where.push(t);
            proof {
                assert(part_where@.drop_last() =~= Seq::<Doc>::empty());
                lemma_views_of(part_where@);
                assert(views_of(part_where@) =~= seq![tv]);
            }
        },
        None => {},
    }
    proof {
        lemma_views_of(part_where@);
        assert(views_of(part_where@) == (match v.selection {
            Some(e) => seq![d_nest(txt("WHERE"@), d_expr(e))],
            None => Seq::<DocV>::empty(),
        }));
    }
    let ghost dv2 = docs@;
    let ghost pv2 = part_where@;
    docs.append(&mut part_where);
    proof {
        lemma_views_of_concat(dv2, pv2);
    }

    let mut part_group: Vec<Doc> = Vec::new();
    if v.group_by.len() > 0 {
        let tg = docs_of_exprs(&v.group_by);
        let t = title_commas(String::from_str("GROUP BY"), tg);
        let ghost tv = t@;
        part_group.push(t);
        proof {
            assert(part_group@.drop_last() =~= Seq::<Doc>::empty());
            lemma_views_of(part_group@);
            assert(views_of(part_group@) =~= seq![tv]);
        }
    }
    proof {
        lemma_views_of(part_group@);
        assert(views_of(part_group@) == (if v.group_by@.len() == 0 {
            Seq::<DocV>::empty()
        } else {
            seq![d_title_commas("GROUP BY"@, d_exprs(v.group_by@))]
        }));
    }
    let ghost dv3 = docs@;
    let ghost pv3 = part_group@;
    docs.append(&mut part_group);
    proof {
        lemma_views_of_concat(dv3, pv3);
    }

    let mut part_having: Vec<Doc> = Vec::new();
    match &v.having {
        Some(e) => {
            let de = doc_expr(e);
            let t = nest_title("HAVING", de);
            let ghost tv = t@;
            part_having.push(t);
            proof {
                assert(part_having@.drop_last() =~= Seq::<Doc>::empty());
                lemma_views_of(part_having@);
                assert(views_of(part_having@) =~= seq![tv]);
            }
        },
        None => {},
    }
    proof {
        lemma_views_of(part_having@);
        assert(views_of(part_having@) == (match v.having {
            Some(e) => seq![d_nest(txt("HAVING"@), d_expr(e))],
            None => Seq::<DocV>::empty(),
        }));
    }
    let ghost dv4 = docs@;
    let ghost pv4 = part_having@;
    docs.append(&mut part_having);
    proof {
        lemma_views_of_concat(dv4, pv4);
    }

    let mut part_options: Vec<Doc> = Vec::new();
    if v.options.len() > 0 {
        let ds = docs_of_strings(&v.options);
        let dc = comma_separated(ds);
        let t = bracket("OPTION (", dc, ")");
        let ghost tv = t@;
        part_options.push(t);
        proof {
            assert(part_options@.drop_last() =~= Seq::<Doc>::empty());
            lemma_views_of(part_options@);
            assert(views_of(part_options@) =~= seq![tv]);
        }
    }
    proof {
        lemma_views_of(part_options@);
        assert(views_of(part_options@) == (if v.options@.len() == 0 {
            Seq::<DocV>::empty()
        } else {
            seq![d_bracket("OPTION ("@, d_commas(d_strings(v.options@)), ")"@)]
        }));
    }
    let ghost dv5 = docs@;
    let ghost pv5 = part_options@;
    docs.append(&mut part_options);
    proof {
        lemma_views_of_concat(dv5, pv5);
    }

    proof {
        assert(views_of(docs@) == d_select_docs(*v));
    }
    docs
}

/// A `SELECT` core.
fn doc_select(v: &Select) -> (d: Doc)
    ensures
        d@ == d_select(*v),
    decreases *v, 2nat,
{
    let docs = doc_select_docs(v);
    let ti = intersperse(docs, Sep::Line);
    let d = group(ti);
    proof {
        assert(d@ == d_select(*v));
    }
    d
}

/// The clause documents of a query, in order.
#[verifier::rlimit(100)]
fn doc_query_docs(v: &Query) -> (r: Vec<Doc>)
    ensures
        views_of(r@) == d_query_docs(*v),
    decreases *v, 2nat,
{
    let mut docs: Vec<Doc> = Vec::new();
    match &v.ctes {
        CteBlock::Simple(cs) => if cs.len() > 0 {
            let dc = docs_of_ctes(cs);
            let t = title_commas(String::from_str("WITH"), dc);
            let ghost tv = t@;
            docs.push(t);
            proof {
                assert(docs@.drop_last() =~= Seq::<Doc>::empty());
                lemma_views_of(docs@);
                assert(views_of(docs@) =~= seq![tv]);
            }
        },
        CteBlock::MutuallyRecursive(cs) => if cs.len() > 0 {
            let dc = docs_of_ctemutrecs(cs);
            let t = title_commas(String::from_str("WITH MUTUALLY RECURSIVE"), dc);
            let ghost tv = t@;
            docs.push(t);
            proof {
                assert(docs@.drop_last() =~= Seq::<Doc>::empty());
                lemma_views_of(docs@);
                assert(views_of(docs@) =~= seq![tv]);
            }
        },
    }
    proof {
        lemma_views_of(docs@);
        assert(views_of(docs@) == (match v.ctes {
            CteBlock::Simple(cs) => if cs@.len() == 0 {
                Seq::<DocV>::empty()
            } else {
                seq![d_title_commas("WITH"@, d_ctes(cs@))]
            },
            CteBlock::MutuallyRecursive(cs) => if cs@.len() == 0 {
                Seq::<DocV>::empty()
            } else {
                seq![d_title_commas("WITH MUTUALLY RECURSIVE"@, d_ctemutrecs(cs@))]
            },
        }));
    }

    let body = doc_set_expr(&v.body);
    let ghost bodyv = body@;
    let mut part_body: Vec<Doc> = Vec::new();
    part_body.push(body);
    proof {
        assert(part_body@.drop_last() =~= Seq::<Doc>::empty());
        lemma_views_of(part_body@);
        assert(views_of(part_body@) =~= seq![bodyv]);
    }
    let ghost dv1 = docs@;
    let ghost pv1 = part_body@;
    docs.append(&mut part_body);
    proof {
        lemma_views_of_concat(dv1, pv1);
    }

    let mut part_order: Vec<Doc> = Vec::new();
    if v.order_by.len() > 0 {
        let dor = docs_of_order_bys(&v.order_by);
        let t = title_commas(String::from_str("ORDER BY"), dor);
        let ghost tv = t@;
        part_order.push(t);
        proof {
            assert(part_order@.drop_last() =~= Seq::<Doc>::empty());
            lemma_views_of(part_order@);
            assert(views_of(part_order@) =~= seq![tv]);
        }
    }
    proof {
        lemma_views_of(part_order@);
        assert(views_of(part_order@) == (if v.order_by@.len() == 0 {
            Seq::<DocV>::empty()
        } else {
            seq![d_title_commas("ORDER BY"@, d_order_bys(v.order_by@))]
        }));
    }
    let ghost dv2 = docs@;
    let ghost pv2 = part_order@;
    docs.append(&mut part_order);
    proof {
        lemma_views_of_concat(dv2, pv2);
    }

    let mut tail: Vec<Doc> = Vec::new();
    match &v.limit {
        Some(l) => if l.with_ties {
            match &v.offset {
                Some(o) => {
                    let de = doc_expr(o);
                    let t = nest_title("OFFSET", de);
                    let ghost tv = t@;
                    tail.push(t);
                    proof {
                        assert(tail@.drop_last() =~= Seq::<Doc>::empty());
                        lemma_views_of(tail@);
                        assert(views_of(tail@) =~= seq![tv]);
                    }
                },
                None => {},
            }
            let fe = doc_expr(&l.quantity);
            let f2 = text(" ROWS WITH TIES");
            let inner = append(fe, f2);
            let f1 = text("FETCH FIRST ");
            let t = append(f1, inner);
            let ghost prev = tail@;
            let ghost tv = t@;
            tail.push(t);
            proof {
                assert(tail@.drop_last() =~= prev);
                lemma_views_of(tail@);
                lemma_views_of(prev);
                assert(views_of(tail@) == views_of(prev).push(tv));
                lemma_views_of(tail@);
                assert(views_of(tail@) =~= d_query_tail(*v));
            }
        } else {
            let le = doc_expr(&l.quantity);
            let t = nest_title("LIMIT", le);
            let ghost tv = t@;
            tail.push(t);
            proof {
                assert(tail@.drop_last() =~= Seq::<Doc>::empty());
                lemma_views_of(tail@);
                assert(views_of(tail@) =~= seq![tv]);
            }
            match &v.offset {
                Some(o) => {
                    let de = doc_expr(o);
                    let t2 = nest_title("OFFSET", de);
                    let ghost prev = tail@;
                    let ghost tv2 = t2@;
                    tail.push(t2);
                    proof {
                        assert(tail@.drop_last() =~= prev);
                        lemma_views_of(tail@);
                        lemma_views_of(prev);
                        assert(views_of(tail@) == views_of(prev).push(tv2));
                    }
                },
                None => {},
            }
            proof {
                lemma_views_of(tail@);
                assert(views_of(tail@) =~= d_query_tail(*v));
            }
        },
        None => {
            match &v.offset {
                Some(o) => {
                    let de = doc_expr(o);
                    let t = nest_title("OFFSET", de);
                    let ghost tv = t@;
                    tail.push(t);
                    proof {
                        assert(tail@.drop_last() =~= Seq::<Doc>::empty());
                        lemma_views_of(tail@);
                        assert(views_of(tail@) =~= seq![tv]);
                    }
                },
                None => {},
            }
            proof {
                lemma_views_of(tail@);
                assert(views_of(tail@) =~= d_query_tail(*v));
            }
        },
    }
    proof {
        lemma_views_of(tail@);
        assert(views_of(tail@) == d_query_tail(*v));
    }
    let ghost dv3 = docs@;
    let ghost pv3 = tail@;
    docs.append(&mut tail);
    proof {
        lemma_views_of_concat(dv3, pv3);
    }

    proof {
        assert(views_of(docs@) == d_query_docs(*v));
    }
    docs
}

/// A query: CTEs, body, ordering and row-count clauses.
fn doc_query(v: &Query) -> (d: Doc)
    ensures
        d@ == d_query(*v),
    decreases *v, 3nat,
{
    let docs = doc_query_docs(v);
    let ti = intersperse(docs, Sep::Line);
    let d = group(ti);
    proof {
        assert(d@ == d_query(*v));
    }
    d
}

/// One `WITH` entry.
fn doc_cte(c: &Cte) -> (d: Doc)
    ensures
        d@ == d_cte(*c),
    decreases *c, 1nat,
{
    let mut at = c.alias.clone();
    at.append(" AS");
    let dq = doc_query(&c.query);
    let b = bracket("(", dq, ")");
    let ln = Doc::Line;
    proof {
        assert(ln@ == DocV::Line);
    }
    let t1 = append(ln, b);
    let d = append(text_owned(at), t1);
    proof {
        assert(d@ == d_cte(*c));
    }
    d
}

/// One `WITH MUTUALLY RECURSIVE` entry.
#[verifier::rlimit(100)]
fn doc_mutually_recursive(c: &CteMutRec) -> (d: Doc)
    ensures
        d@ == d_ctemutrec(*c),
    decreases *c, 1nat,
{
    let mut docs: Vec<Doc> = Vec::new();
    if c.columns.len() > 0 {
        let ds = docs_of_strings(&c.columns);
        let dc = comma_separated(ds);
        let t = bracket("(", dc, ")");
        let ghost tv = t@;
        docs.push(t);
        proof {
            assert(docs@.drop_last() =~= Seq::<Doc>::empty());
            lemma_views_of(docs@);
            assert(views_of(docs@) =~= seq![tv]);
        }
    }
    proof {
        lemma_views_of(docs@);
        assert(views_of(docs@) == (if c.columns@.len() == 0 {
            Seq::<DocV>::empty()
        } else {
            seq![d_bracket("("@, d_commas(d_strings(c.columns@)), ")"@)]
        }));
    }
    let dq = doc_query(&c.query);
    let b = bracket("AS (", dq, ")");
    let ghost prev = docs@;
    let ghost bv = b@;
    docs.push(b);
    proof {
        assert(docs@.drop_last() =~= prev);
        lemma_views_of(docs@);
        lemma_views_of(prev);
        assert(views_of(docs@) == views_of(prev).push(bv));
        lemma_views_of(docs@);
        lemma_views_of(prev);
        assert(views_of(docs@) =~= views_of(prev) + seq![bv]);
    }
    let ti = intersperse(docs, Sep::Line);
    let tg = group(ti);
    let nt = text(c.name.as_str());
    let d = title_body(nt, tg);
    proof {
        assert(d@ == d_ctemutrec(*c));
    }
    d
}

/// A view's name, column list and defining query.
#[verifier::rlimit(100)]
fn doc_view_definition(v: &ViewDefinition) -> (d: Doc)
    ensures
        d@ == d_view_definition(*v),
    decreases *v, 1nat,
{
    let mut docs: Vec<Doc> = Vec::new();
    let nt = text(v.name.as_str());
    let ghost ntv = nt@;
    docs.push(nt);
    proof {
        assert(docs@.drop_last() =~= Seq::<Doc>::empty());
        lemma_views_of(docs@);
        assert(views_of(docs@) =~= seq![ntv]);
    }
    let mut part_cols: Vec<Doc> = Vec::new();
    if v.columns.len() > 0 {
        let ds = docs_of_strings(&v.columns);
        let dc = comma_separated(ds);
        let t = bracket("(", dc, ")");
        let ghost tv = t@;
        part_cols.push(t);
        proof {
            assert(part_cols@.drop_last() =~= Seq::<Doc>::empty());
            lemma_views_of(part_cols@);
            assert(views_of(part_cols@) =~= seq![tv]);
        }
    }
    proof {
        lemma_views_of(part_cols@);
        assert(views_of(part_cols@) == (if v.columns@.len() == 0 {
            Seq::<DocV>::empty()
        } else {
            seq![d_bracket("("@, d_commas(d_strings(v.columns@)), ")"@)]
        }));
    }
    let ghost dv1 = docs@;
    let ghost pv1 = part_cols@;
    docs.append(&mut part_cols);
    proof {
        lemma_views_of_concat(dv1, pv1);
    }
    let dq = doc_query(&v.query);
    let t = nest_title("AS", dq);
    let ghost prev = docs@;
    let ghost tv = t@;
    docs.push(t);
    proof {
        assert(docs@.drop_last() =~= prev);
        lemma_views_of(docs@);
        lemma_views_of(prev);
        assert(views_of(docs@) == views_of(prev).push(tv));
        lemma_views_of(docs@);
        lemma_views_of(prev);
        assert(views_of(docs@) =~= views_of(prev) + seq![tv]);
    }
    let ti = intersperse(docs, Sep::Line);
    let d = group(ti);
    proof {
        assert(d@ == d_view_definition(*v));
    }
    d
}

/// A `CREATE VIEW` statement.
fn doc_create_view(v: &CreateViewStatement) -> (d: Doc)
    ensures
        d@ == d_create_view(*v),
    decreases *v, 1nat,
{
    let mut title = String::from_str("CREATE");
    match v.if_exists {
        IfExistsBehavior::Replace => title.append(" OR REPLACE"),
        _ => {},
    }
    if v.temporary {
        title.append(" TEMPORARY");
    }
    title.append(" VIEW");
    match v.if_exists {
        IfExistsBehavior::Skip => title.append(" IF NOT EXISTS"),
        _ => {},
    }
    proof {
        assert(title@ =~= create_view_title(*v));
    }
    let dd = doc_view_definition(&v.definition);
    let tt = text_owned(title);
    let mut docs: Vec<Doc> = Vec::new();
    let ghost ttv = tt@;
    let ghost ddv = dd@;
    docs.push(tt);
    docs.push(dd);
    proof {
        lemma_views_of(docs@);
        assert(views_of(docs@) =~= seq![ttv, ddv]);
    }
    let d = nest_group(docs);
    proof {
        assert(d@ == d_create_view(*v));
    }
    d
}

/// A `CREATE MATERIALIZED VIEW` statement.
#[verifier::rlimit(100)]
fn doc_create_materialized_view(v: &CreateMaterializedViewStatement) -> (d: Doc)
    ensures
        d@ == d_cmv(*v),
    decreases *v, 1nat,
{
    let mut title = String::from_str("CREATE");
    match v.if_exists {
        IfExistsBehavior::Replace => title.append(" OR REPLACE"),
        _ => {},
    }
    title.append(" MATERIALIZED VIEW");
    match v.if_exists {
        IfExistsBehavior::Skip => title.append(" IF NOT EXISTS"),
        _ => {},
    }
    title.append(" ");
    title.append(v.name.as_str());
    proof {
        assert(title@ =~= cmv_title(*v));
    }
    let mut docs: Vec<Doc> = Vec::new();
    let tt = text_owned(title);
    let ghost ttv = tt@;
    docs.push(tt);
    proof {
        assert(docs@.drop_last() =~= Seq::<Doc>::empty());
        lemma_views_of(docs@);
        assert(views_of(docs@) =~= seq![ttv]);
    }
    let mut part_cols: Vec<Doc> = Vec::new();
    if v.columns.len() > 0 {
        let ds = docs_of_strings(&v.columns);
        let dc = comma_separated(ds);
        let t = bracket("(", dc, ")");
        let ghost tv = t@;
        part_cols.push(t);
        proof {
            assert(part_cols@.drop_last() =~= Seq::<Doc>::empty());
            lemma_views_of(part_cols@);
            assert(views_of(part_cols@) =~= seq![tv]);
        }
    }
    proof {
        lemma_views_of(part_cols@);
        assert(views_of(part_cols@) == (if v.columns@.len() == 0 {
            Seq::<DocV>::empty()
        } else {
            seq![d_bracket("("@, d_commas(d_strings(v.columns@)), ")"@)]
        }));
    }
    let ghost dv1 = docs@;
    let ghost pv1 = part_cols@;
    docs.append(&mut part_cols);
    proof {
        lemma_views_of_concat(dv1, pv1);
    }
    let mut part_cluster: Vec<Doc> = Vec::new();
    match &v.in_cluster {
        Some(c) => {
            let mut ct = String::from_str("IN CLUSTER ");
            ct.append(c.as_str());
            let t = text_owned(ct);
            let ghost tv = t@;
            part_cluster.push(t);
            proof {
                assert(part_cluster@.drop_last() =~= Seq::<Doc>::empty());
                lemma_views_of(part_cluster@);
                assert(views_of(part_cluster@) =~= seq![tv]);
            }
        },
        None => {},
    }
    proof {
        lemma_views_of(part_cluster@);
        assert(views_of(part_cluster@) == (match v.in_cluster {
            Some(c) => seq![txt("IN CLUSTER "@ + c@)],
            None => Seq::<DocV>::empty(),
        }));
    }
    let ghost dv2 = docs@;
    let ghost pv2 = part_cluster@;
    docs.append(&mut part_cluster);
    proof {
        lemma_views_of_concat(dv2, pv2);
    }
    let dq = doc_query(&v.query);
    let t = nest_title("AS", dq);
    let ghost prev = docs@;
    let ghost tv = t@;
    docs.push(t);
    proof {
        assert(docs@.drop_last() =~= prev);
        lemma_views_of(docs@);
        lemma_views_of(prev);
        assert(views_of(docs@) == views_of(prev).push(tv));
        lemma_views_of(docs@);
        lemma_views_of(prev);
        assert(views_of(docs@) =~= views_of(prev) + seq![tv]);
    }
    let d = nest_group(docs);
    proof {
        assert(d@ == d_cmv(*v));
    }
    d
}

/// An `INSERT` statement.
#[verifier::rlimit(100)]
fn doc_insert(v: &InsertStatement) -> (d: Doc)
    ensures
        d@ == d_insert(*v),
    decreases *v, 1nat,
{
    let mut title = String::from_str("INSERT INTO ");
    title.append(v.table_name.as_str());
    let tt = text_owned(title);
    let mut first: Vec<Doc> = Vec::new();
    let ghost ttv = tt@;
    first.push(tt);
    proof {
        assert(first@.drop_last() =~= Seq::<Doc>::empty());
        lemma_views_of(first@);
        assert(views_of(first@) =~= seq![ttv]);
    }
    if v.columns.len() > 0 {
        let ds = docs_of_strings(&v.columns);
        let dc = comma_separated(ds);
        let t = bracket("(", dc, ")");
        let ghost prev = first@;
        let ghost tv = t@;
        first.push(t);
        proof {
            assert(first@.drop_last() =~= prev);
            lemma_views_of(first@);
            lemma_views_of(prev);
            assert(views_of(first@) == views_of(prev).push(tv));
            lemma_views_of(first@);
            assert(views_of(first@) =~= seq![ttv, tv]);
        }
    }
    proof {
        lemma_views_of(first@);
        assert(views_of(first@) == (if v.columns@.len() == 0 {
            seq![txt("INSERT INTO "@ + v.table_name@)]
        } else {
            seq![
                txt("INSERT INTO "@ + v.table_name@),
                d_bracket("("@, d_commas(d_strings(v.columns@)), ")"@),
            ]
        }));
    }
    let fd = nest_group(first);
    let sources = match &v.source {
        InsertSource::Query(q) => doc_query(q),
        InsertSource::Other(t) => text(t.as_str()),
    };
    proof {
        assert(sources@ == (match v.source {
            InsertSource::Query(q) => d_query(q),
            InsertSource::Other(t) => txt(t@),
        }));
    }
    let ln = Doc::Line;
    proof {
        assert(ln@ == DocV::Line);
    }
    let t1 = append(ln, sources);
    let t2 = append(fd, t1);
    let t3 = nest(TAB, t2);
    let d = group(t3);
    proof {
        assert(d@ == d_insert(*v));
    }
    d
}

/// A `SELECT` statement: the query, with any `AS OF` clause.
fn doc_select_statement(v: &SelectStatement) -> (d: Doc)
    ensures
        d@ == d_select_statement(*v),
    decreases *v, 1nat,
{
    let dq = doc_query(&v.query);
    let inner = match &v.as_of {
        Some(a) => {
            let at = text(a.as_str());
            let ln = Doc::Line;
            proof {
                assert(ln@ == DocV::Line);
            }
            let t1 = append(ln, at);
            let t2 = append(dq, t1);
            let t3 = nest(TAB, t2);
            let t4 = group(t3);
            proof {
                assert(t4@ == grp(nst(app(d_query(v.query), app(DocV::Line, txt(v.as_of->0@))))));
            }
            t4
        },
        None => dq,
    };
    let d = group(inner);
    proof {
        assert(d@ == d_select_statement(*v));
    }
    d
}

/// The document of a statement: the covered statement kinds get their
/// layout rules; anything else renders as its canonical single-line text.
pub fn to_doc(v: &Statement) -> (d: Doc)
    ensures
        d@ == d_statement(*v),
    decreases *v, 1nat,
{
    match v {
        Statement::Select(s) => doc_select_statement(s),
        Statement::Insert(s) => doc_insert(s),
        Statement::CreateView(s) => doc_create_view(s),
        Statement::CreateMaterializedView(s) => doc_create_materialized_view(s),
        Statement::Other(t) => text(t.as_str()),
    }
}

} // verus!
