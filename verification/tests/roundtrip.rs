//! Round-trip checks through the external SQL parser: reparsing a
//! rendering yields the same statement, and reformatting a formatted
//! statement changes nothing.

use mzfmt::ast as mz;
use mzfmt::to_pretty;
use sqlparser::ast as sp;
use sqlparser::dialect::GenericDialect;
use sqlparser::parser::Parser;

/// A reduced conversion from the parser's tree to the library's
/// statements: common query shapes are mapped across, anything else is
/// carried as canonical text, exactly as the CLI does.
fn convert_statement(s: &sp::Statement) -> mz::Statement {
    match s {
        sp::Statement::Query(q) => match convert_query(q) {
            Some(query) => mz::Statement::Select(Box::new(mz::SelectStatement {
                query,
                as_of: None,
            })),
            None => mz::Statement::Other(s.to_string()),
        },
        _ => mz::Statement::Other(s.to_string()),
    }
}

fn convert_query(q: &sp::Query) -> Option<mz::Query> {
    if q.with.is_some()
        || q.fetch.is_some()
        || !q.locks.is_empty()
        || q.for_clause.is_some()
        || q.settings.is_some()
        || q.format_clause.is_some()
        || !q.pipe_operators.is_empty()
    {
        return None;
    }
    let order_by = match &q.order_by {
        None => vec![],
        Some(ob) => match &ob.kind {
            sp::OrderByKind::Expressions(exprs) if ob.interpolate.is_none() => {
                let mut keys = Vec::new();
                for k in exprs {
                    if k.with_fill.is_some() || k.options.nulls_first.is_some() {
                        return None;
                    }
                    let asc = match &k.options.sort {
                        None => None,
                        Some(sp::OrderBySort::Asc) => Some(true),
                        Some(sp::OrderBySort::Desc) => Some(false),
                        Some(_) => return None,
                    };
                    keys.push(mz::OrderByExpr {
                        expr: convert_expr(&k.expr),
                        asc,
                    });
                }
                keys
            }
            _ => return None,
        },
    };
    let (limit, offset) = match &q.limit_clause {
        None => (None, None),
        Some(sp::LimitClause::LimitOffset { limit, offset, limit_by }) if limit_by.is_empty() => (
            limit.as_ref().map(|l| mz::Limit {
                with_ties: false,
                quantity: convert_expr(l),
            }),
            offset.as_ref().map(|o| convert_expr(&o.value)),
        ),
        _ => return None,
    };
    Some(mz::Query {
        ctes: mz::CteBlock::Simple(vec![]),
        body: convert_set_expr(&q.body),
        order_by,
        limit,
        offset,
    })
}

fn convert_set_expr(e: &sp::SetExpr) -> mz::SetExpr {
    match e {
        sp::SetExpr::Select(s) => match convert_select(s) {
            Some(sel) => mz::SetExpr::Select(Box::new(sel)),
            None => mz::SetExpr::Other(e.to_string()),
        },
        sp::SetExpr::SetOperation { op, set_quantifier, left, right } => {
            let all = match set_quantifier {
                sp::SetQuantifier::All => true,
                sp::SetQuantifier::None => false,
                _ => return mz::SetExpr::Other(e.to_string()),
            };
            mz::SetExpr::SetOperation {
                op: op.to_string(),
                all,
                left: Box::new(convert_set_expr(left)),
                right: Box::new(convert_set_expr(right)),
            }
        }
        sp::SetExpr::Values(v) if !v.explicit_row && !v.value_keyword => {
            mz::SetExpr::Values(mz::Values {
                rows: v
                    .rows
                    .iter()
                    .map(|row| row.content.iter().map(convert_expr).collect())
                    .collect(),
            })
        }
        _ => mz::SetExpr::Other(e.to_string()),
    }
}

fn convert_select(s: &sp::Select) -> Option<mz::Select> {
    if !s.optimizer_hints.is_empty()
        || s.select_modifiers.is_some()
        || s.top.is_some()
        || s.exclude.is_some()
        || s.into.is_some()
        || !s.lateral_views.is_empty()
        || s.prewhere.is_some()
        || !s.connect_by.is_empty()
        || !s.cluster_by.is_empty()
        || !s.distribute_by.is_empty()
        || !s.sort_by.is_empty()
        || !s.named_window.is_empty()
        || s.qualify.is_some()
        || s.value_table_mode.is_some()
        || s.distinct.is_some()
    {
        return None;
    }
    let group_by = match &s.group_by {
        sp::GroupByExpr::Expressions(exprs, modifiers) if modifiers.is_empty() => {
            exprs.iter().map(convert_expr).collect()
        }
        _ => return None,
    };
    let mut from = Vec::new();
    for t in &s.from {
        if !t.joins.is_empty() {
            return None;
        }
        from.push(mz::TableWithJoins {
            relation: mz::TableFactor::Table(t.relation.to_string()),
            joins: vec![],
        });
    }
    let mut projection = Vec::new();
    for i in &s.projection {
        projection.push(match i {
            sp::SelectItem::UnnamedExpr(e) => mz::SelectItem::Expr {
                expr: convert_expr(e),
                alias: None,
            },
            sp::SelectItem::ExprWithAlias { expr, alias } => mz::SelectItem::Expr {
                expr: convert_expr(expr),
                alias: Some(alias.to_string()),
            },
            _ => return None,
        });
    }
    Some(mz::Select {
        distinct: None,
        projection,
        from,
        selection: s.selection.as_ref().map(convert_expr),
        group_by,
        having: s.having.as_ref().map(convert_expr),
        options: vec![],
    })
}

fn convert_expr(e: &sp::Expr) -> mz::Expr {
    match e {
        sp::Expr::Identifier(_) | sp::Expr::CompoundIdentifier(_) | sp::Expr::Value(_) => {
            mz::Expr::Verbatim(e.to_string())
        }
        sp::Expr::BinaryOp { left, op, right } => match op {
            sp::BinaryOperator::And => mz::Expr::And {
                left: Box::new(convert_expr(left)),
                right: Box::new(convert_expr(right)),
            },
            sp::BinaryOperator::Or => mz::Expr::Or {
                left: Box::new(convert_expr(left)),
                right: Box::new(convert_expr(right)),
            },
            _ => mz::Expr::Op {
                op: op.to_string(),
                expr1: Box::new(convert_expr(left)),
                expr2: Some(Box::new(convert_expr(right))),
            },
        },
        sp::Expr::Nested(inner) => mz::Expr::Nested(Box::new(convert_expr(inner))),
        sp::Expr::Function(f) => convert_function(f, e),
        _ => mz::Expr::Other(e.to_string()),
    }
}

fn convert_function(f: &sp::Function, whole: &sp::Expr) -> mz::Expr {
    let fallback = mz::Expr::Function(mz::Function::Verbatim(whole.to_string()));
    if f.uses_odbc_syntax
        || !matches!(f.parameters, sp::FunctionArguments::None)
        || f.filter.is_some()
        || f.null_treatment.is_some()
        || f.over.is_some()
        || !f.within_group.is_empty()
    {
        return fallback;
    }
    match &f.args {
        sp::FunctionArguments::List(list)
            if list.clauses.is_empty() && list.duplicate_treatment.is_none()
                && !list.args.is_empty() =>
        {
            let mut args = Vec::new();
            for a in &list.args {
                match a {
                    sp::FunctionArg::Unnamed(sp::FunctionArgExpr::Expr(e)) => {
                        args.push(convert_expr(e))
                    }
                    _ => return fallback,
                }
            }
            mz::Expr::Function(mz::Function::Call {
                name: f.name.to_string(),
                distinct: false,
                args,
            })
        }
        _ => fallback,
    }
}

fn parse_one(sql: &str) -> sp::Statement {
    Parser::parse_sql(&GenericDialect {}, sql)
        .unwrap()
        .into_iter()
        .next()
        .unwrap()
}

const CASES: &[&str] = &[
    "SELECT max(timestamp_col)",
    "select 1 union select 2",
    "insert into t (a,b,c) values (1,2,3), (4,5,6)",
    "select a, b from t where a = b and b < 3 order by a limit 1",
    "select (1 + 2) * 3",
];

#[test]
fn reparsing_yields_the_same_statement() {
    for sql in CASES {
        let ast1 = parse_one(sql);
        let stmt1 = convert_statement(&ast1);
        for n in [1usize, 40, 1000000] {
            let pretty1 = to_pretty(&stmt1, n);
            let without_semi = pretty1.strip_suffix(';').unwrap();
            let ast2 = parse_one(without_semi);
            assert_eq!(ast1.to_string(), ast2.to_string(), "{sql} at {n}: {pretty1}");
        }
    }
}

#[test]
fn reformatting_formatted_output_is_identical() {
    for sql in CASES {
        let ast1 = parse_one(sql);
        let stmt1 = convert_statement(&ast1);
        for n in [1usize, 40, 1000000] {
            let pretty1 = to_pretty(&stmt1, n);
            let without_semi = pretty1.strip_suffix(';').unwrap();
            let ast2 = parse_one(without_semi);
            let stmt2 = convert_statement(&ast2);
            let pretty2 = to_pretty(&stmt2, n);
            assert_eq!(pretty1, pretty2, "{sql} at {n}");
        }
    }
}

#[test]
fn wide_widths_squash_to_a_single_line() {
    for sql in CASES {
        let ast1 = parse_one(sql);
        let stmt1 = convert_statement(&ast1);
        let pretty1 = to_pretty(&stmt1, 1000000);
        assert_eq!(pretty1.lines().count(), 1, "{sql}: {pretty1}");
    }
}
