//! End-to-end formatting scenarios over hand-built statements.

use mzfmt::ast::{
    Expr, Function, InsertSource, InsertStatement, CteBlock, Query, Select, SelectItem,
    SelectStatement, SetExpr, Statement, Values,
};
use mzfmt::to_pretty;

fn plain_query(body: SetExpr) -> Query {
    Query {
        ctes: CteBlock::Simple(vec![]),
        body,
        order_by: vec![],
        limit: None,
        offset: None,
    }
}

fn plain_select(projection: Vec<SelectItem>) -> Select {
    Select {
        distinct: None,
        projection,
        from: vec![],
        selection: None,
        group_by: vec![],
        having: None,
        options: vec![],
    }
}

/// `SELECT max(timestamp_col)`.
fn select_max() -> Statement {
    let call = Expr::Function(Function::Call {
        name: "max".to_string(),
        distinct: false,
        args: vec![Expr::Verbatim("timestamp_col".to_string())],
    });
    let sel = plain_select(vec![SelectItem::Expr { expr: call, alias: None }]);
    Statement::Select(Box::new(SelectStatement {
        query: plain_query(SetExpr::Select(Box::new(sel))),
        as_of: None,
    }))
}

#[test]
fn pretty() {
    let stmt = select_max();
    let n: usize = 1;
    let s = to_pretty(&stmt, n);
    println!("\n-------------\n");
    println!("{}:\n{}\n", n, s);
    assert!(!s.is_empty());
}

#[test]
fn select_fits_on_wide_line() {
    let stmt = select_max();
    assert_eq!(to_pretty(&stmt, 60), "SELECT max(timestamp_col);");
}

#[test]
fn select_breaks_at_narrow_width() {
    let stmt = select_max();
    assert_eq!(
        to_pretty(&stmt, 5),
        "SELECT\n    max(\n        timestamp_col\n    );"
    );
}

#[test]
fn insert_fits_on_wide_line() {
    let rows = vec![
        vec![
            Expr::Verbatim("1".to_string()),
            Expr::Verbatim("2".to_string()),
            Expr::Verbatim("3".to_string()),
        ],
        vec![
            Expr::Verbatim("4".to_string()),
            Expr::Verbatim("5".to_string()),
            Expr::Verbatim("6".to_string()),
        ],
    ];
    let stmt = Statement::Insert(Box::new(InsertStatement {
        table_name: "t".to_string(),
        columns: vec!["a".to_string(), "b".to_string(), "c".to_string()],
        source: InsertSource::Query(plain_query(SetExpr::Values(Values { rows }))),
    }));
    assert_eq!(
        to_pretty(&stmt, 60),
        "INSERT INTO t (a, b, c) VALUES (1, 2, 3), (4, 5, 6);"
    );
}

#[test]
fn union_keeps_operator_at_outer_level() {
    let one = plain_select(vec![SelectItem::Expr {
        expr: Expr::Verbatim("1".to_string()),
        alias: None,
    }]);
    let two = plain_select(vec![SelectItem::Expr {
        expr: Expr::Verbatim("2".to_string()),
        alias: None,
    }]);
    let stmt = Statement::Select(Box::new(SelectStatement {
        query: plain_query(SetExpr::SetOperation {
            op: "UNION".to_string(),
            all: false,
            left: Box::new(SetExpr::Select(Box::new(one))),
            right: Box::new(SetExpr::Select(Box::new(two))),
        }),
        as_of: None,
    }));
    let out = to_pretty(&stmt, 1);
    assert_eq!(out, "SELECT\n    1\nUNION\n    SELECT\n        2;");
    // The UNION keyword stands at column zero, not under the left branch.
    assert!(out.lines().any(|l| l == "UNION"));
}

#[test]
fn uncovered_statement_renders_canonical_text_at_every_width() {
    let stmt = Statement::Other("SHOW TABLES".to_string());
    for width in [0usize, 1, 5, 11, 60, 1000] {
        assert_eq!(to_pretty(&stmt, width), "SHOW TABLES;");
    }
}

#[test]
fn repeated_calls_are_byte_identical() {
    let stmt = select_max();
    for width in [0usize, 1, 5, 25, 26, 60] {
        assert_eq!(to_pretty(&stmt, width), to_pretty(&stmt, width));
    }
}

#[test]
fn collapse_threshold_is_flat_width() {
    // "SELECT max(timestamp_col)" is 25 columns flat; at or past that
    // width the rendering is a single line, and it stays that line at
    // every larger width.
    let stmt = select_max();
    let flat = to_pretty(&stmt, 10_000);
    assert_eq!(flat, "SELECT max(timestamp_col);");
    for width in [25usize, 26, 40, 100] {
        assert_eq!(to_pretty(&stmt, width), flat);
    }
    assert_ne!(to_pretty(&stmt, 24), flat);
}

#[test]
fn leaves_stay_intact_at_every_width() {
    // No token splitting: each atomic leaf shows up contiguously whatever
    // the width.
    let stmt = select_max();
    for width in [0usize, 1, 3, 7, 12, 24, 25, 60] {
        let out = to_pretty(&stmt, width);
        for token in ["SELECT", "max(", "timestamp_col", ")"] {
            assert!(out.contains(token), "width {width}: {out}");
        }
    }
}
