//! Plain-data SQL statements.
//!
//! The compiler reads statements in this shape; producing them from source
//! text is the caller's business. Every leaf the formatter does not break
//! apart — identifiers, values, data types, and any construct the compiler
//! has no layout rule for — is carried as its canonical single-line text.
//! Statements are immutable, tree-shaped, and only read during a render.

use vstd::prelude::*;

verus! {

/// A SQL statement.
pub enum Statement {
    Select(Box<SelectStatement>),
    Insert(Box<InsertStatement>),
    CreateView(Box<CreateViewStatement>),
    CreateMaterializedView(Box<CreateMaterializedViewStatement>),
    /// A statement with no layout rule, as its canonical single-line text.
    Other(String),
}

/// A `SELECT` statement: a query with an optional `AS OF` clause, the
/// latter carried as canonical text.
pub struct SelectStatement {
    pub query: Query,
    pub as_of: Option<String>,
}

/// An `INSERT` statement.
pub struct InsertStatement {
    /// The target table's name, as canonical text.
    pub table_name: String,
    /// The column list, each as canonical text; may be empty.
    pub columns: Vec<String>,
    pub source: InsertSource,
}

/// The rows an `INSERT` inserts.
pub enum InsertSource {
    Query(Query),
    /// A source with no layout rule, as its canonical single-line text.
    Other(String),
}

/// What `CREATE ... VIEW` does when the view exists.
pub enum IfExistsBehavior {
    Error,
    Skip,
    Replace,
}

/// A `CREATE VIEW` statement.
pub struct CreateViewStatement {
    pub if_exists: IfExistsBehavior,
    pub temporary: bool,
    pub definition: ViewDefinition,
}

/// A view's name, optional column list and defining query.
pub struct ViewDefinition {
    pub name: String,
    pub columns: Vec<String>,
    pub query: Query,
}

/// A `CREATE MATERIALIZED VIEW` statement.
pub struct CreateMaterializedViewStatement {
    pub if_exists: IfExistsBehavior,
    pub name: String,
    pub columns: Vec<String>,
    pub in_cluster: Option<String>,
    pub query: Query,
}

/// A query: optional CTEs, a body, and the trailing ordering and row-count
/// clauses.
pub struct Query {
    pub ctes: CteBlock,
    pub body: SetExpr,
    pub order_by: Vec<OrderByExpr>,
    pub limit: Option<Limit>,
    pub offset: Option<Expr>,
}

/// The common-table-expression block of a query; `Simple` with no entries
/// means the query has none.
pub enum CteBlock {
    Simple(Vec<Cte>),
    MutuallyRecursive(Vec<CteMutRec>),
}

/// One `name AS (query)` entry of a `WITH` block. The alias carries the
/// name together with any column list, as canonical text.
pub struct Cte {
    pub alias: String,
    pub query: Query,
}

/// One entry of a `WITH MUTUALLY RECURSIVE` block.
pub struct CteMutRec {
    pub name: String,
    /// The column declarations, each as canonical text.
    pub columns: Vec<String>,
    pub query: Query,
}

/// A `LIMIT` / `FETCH FIRST` clause.
pub struct Limit {
    pub with_ties: bool,
    pub quantity: Expr,
}

/// One `ORDER BY` key.
pub struct OrderByExpr {
    pub expr: Expr,
    pub asc: Option<bool>,
}

/// The body of a query.
pub enum SetExpr {
    Select(Box<Select>),
    Query(Box<Query>),
    SetOperation {
        /// The operator's keyword, such as `UNION` or `INTERSECT`.
        op: String,
        all: bool,
        left: Box<SetExpr>,
        right: Box<SetExpr>,
    },
    Values(Values),
    /// A body with no layout rule, as its canonical single-line text.
    Other(String),
}

/// The rows of a `VALUES` body.
pub struct Values {
    pub rows: Vec<Vec<Expr>>,
}

/// A `SELECT` core: projection and the clauses around it.
pub struct Select {
    /// The text after `SELECT`, such as `DISTINCT`, if any.
    pub distinct: Option<String>,
    pub projection: Vec<SelectItem>,
    pub from: Vec<TableWithJoins>,
    pub selection: Option<Expr>,
    pub group_by: Vec<Expr>,
    pub having: Option<Expr>,
    /// `OPTION (...)` entries, each as canonical text.
    pub options: Vec<String>,
}

/// One item of a select list.
pub enum SelectItem {
    Expr { expr: Expr, alias: Option<String> },
    /// A bare `*`.
    Wildcard,
}

/// A relation and the joins applied to it.
pub struct TableWithJoins {
    pub relation: TableFactor,
    pub joins: Vec<Join>,
}

/// One join step.
pub enum Join {
    Modeled { kind: JoinKind, relation: TableFactor, constraint: JoinConstraint },
    /// A join with no layout rule, as its canonical single-line text.
    Other(String),
}

/// The kinds of join the compiler lays out itself.
pub enum JoinKind {
    Inner,
    FullOuter,
    LeftOuter,
    RightOuter,
}

/// A join's `ON` or `USING` constraint.
pub enum JoinConstraint {
    On(Expr),
    Using(Vec<String>),
}

/// A table expression in a `FROM` clause.
pub enum TableFactor {
    /// A named table, as canonical text.
    Table(String),
    Derived { subquery: Box<Query>, alias: Option<String> },
    NestedJoin { join: Box<TableWithJoins>, alias: Option<String> },
    /// A factor with no layout rule, as its canonical single-line text.
    Other(String),
}

/// A scalar expression.
pub enum Expr {
    /// A unary or binary operator application; the operator as its text.
    Op { op: String, expr1: Box<Expr>, expr2: Option<Box<Expr>> },
    /// `CAST(expr AS type)`; the type as canonical text.
    Cast { expr: Box<Expr>, data_type: String },
    /// A parenthesized expression.
    Nested(Box<Expr>),
    Function(Function),
    Subquery(Box<Query>),
    /// An atomic expression — an identifier, a literal, a wildcard or a
    /// field access — as canonical text.
    Verbatim(String),
    And { left: Box<Expr>, right: Box<Expr> },
    Or { left: Box<Expr>, right: Box<Expr> },
    Exists(Box<Query>),
    /// `expr IS [NOT] construct`; the construct as canonical text.
    Is { expr: Box<Expr>, negated: bool, construct: String },
    Not { expr: Box<Expr> },
    Between { expr: Box<Expr>, negated: bool, low: Box<Expr>, high: Box<Expr> },
    InSubquery { expr: Box<Expr>, subquery: Box<Query>, negated: bool },
    InList { expr: Box<Expr>, list: Vec<Expr>, negated: bool },
    Row { exprs: Vec<Expr> },
    /// An expression with no layout rule, as its canonical single-line text.
    Other(String),
}

/// A function call.
pub enum Function {
    /// `name(args)` with at least one argument and no trailing clauses;
    /// the name as canonical text.
    Call { name: String, distinct: bool, args: Vec<Expr> },
    /// Any other call shape — star or empty argument lists, `FILTER`,
    /// `OVER`, or an argument-list `ORDER BY` — as canonical text.
    Verbatim(String),
}

} // verus!
