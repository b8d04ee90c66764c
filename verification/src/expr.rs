use vstd::prelude::*;

verus! {

/// Binary operators that may appear in a predicate or computation tree.
#[derive(Clone, Copy, PartialEq, Eq, Structural, Debug)]
pub enum Operator {
    Eq,
    NotEq,
    Lt,
    LtEq,
    Gt,
    GtEq,
    And,
    Or,
}

/// A scalar constant embedded in an expression.
#[derive(Debug, PartialEq)]
pub enum LiteralValue {
    Boolean(bool),
    Int(i64),
    Utf8(String),
}

/// An immutable expression tree over row computations. Two expressions of the
/// same shape are treated alike by the structural classification below, no
/// matter what their operands hold.
#[derive(Debug, PartialEq)]
pub enum Expr {
    Literal(LiteralValue),
    Column(String),
    Alias(Box<Expr>, String),
    BinaryExpr { left: Box<Expr>, op: Operator, right: Box<Expr> },
    IsNull(Box<Expr>),
    IsNotNull(Box<Expr>),
    IsUnique(Box<Expr>),
    IsDuplicated(Box<Expr>),
}

/// The structural shapes a containment query can ask about.
#[derive(Clone, Copy, PartialEq, Eq, Structural, Debug)]
pub enum ExprKind {
    Binary,
    NullTest,
    NotNullTest,
    UniqueTest,
    DuplicatedTest,
}

/// What the source columns of an expression reduce to: none at all, exactly
/// one column, or several distinct columns.
#[derive(Debug, PartialEq)]
pub enum RootColumn {
    NoColumn,
    Single(String),
    Multiple,
}

pub open spec fn spec_matches_kind(e: Expr, k: ExprKind) -> bool {
    match k {
        ExprKind::Binary => e matches Expr::BinaryExpr { .. },
        ExprKind::NullTest => e matches Expr::IsNull(_),
        ExprKind::NotNullTest => e matches Expr::IsNotNull(_),
        ExprKind::UniqueTest => e matches Expr::IsUnique(_),
        ExprKind::DuplicatedTest => e matches Expr::IsDuplicated(_),
    }
}

/// Whether some node of the tree has the given shape.
pub open spec fn spec_contains_kind(e: Expr, k: ExprKind) -> bool
    decreases e,
{
    spec_matches_kind(e, k) || match e {
        Expr::Literal(_) => false,
        Expr::Column(_) => false,
        Expr::Alias(inner, _) => spec_contains_kind(*inner, k),
        Expr::BinaryExpr { left, op, right } => spec_contains_kind(*left, k)
            || spec_contains_kind(*right, k),
        Expr::IsNull(inner) => spec_contains_kind(*inner, k),
        Expr::IsNotNull(inner) => spec_contains_kind(*inner, k),
        Expr::IsUnique(inner) => spec_contains_kind(*inner, k),
        Expr::IsDuplicated(inner) => spec_contains_kind(*inner, k),
    }
}

/// Combines the root information of two subtrees: column names are compared
/// by their characters.
pub open spec fn spec_root_join(a: RootColumn, b: RootColumn) -> RootColumn {
    match (a, b) {
        (RootColumn::NoColumn, x) => x,
        (x, RootColumn::NoColumn) => x,
        (RootColumn::Single(m), RootColumn::Single(n)) => if m@ == n@ {
            RootColumn::Single(m)
        } else {
            RootColumn::Multiple
        },
        _ => RootColumn::Multiple,
    }
}

/// The root-column classification of an expression.
pub open spec fn spec_root(e: Expr) -> RootColumn
    decreases e,
{
    match e {
        Expr::Literal(_) => RootColumn::NoColumn,
        Expr::Column(n) => RootColumn::Single(n),
        Expr::Alias(inner, _) => spec_root(*inner),
        Expr::BinaryExpr { left, op, right } => spec_root_join(
            spec_root(*left),
            spec_root(*right),
        ),
        Expr::IsNull(inner) => spec_root(*inner),
        Expr::IsNotNull(inner) => spec_root(*inner),
        Expr::IsUnique(inner) => spec_root(*inner),
        Expr::IsDuplicated(inner) => spec_root(*inner),
    }
}

/// The expression with every column reference renamed to `n`. For an
/// expression with a single root column this is exactly the rename of that
/// root; callers establish the single root before relying on it.
pub open spec fn spec_rename(e: Expr, n: String) -> Expr
    decreases e,
{
    match e {
        Expr::Literal(v) => Expr::Literal(v),
        Expr::Column(_) => Expr::Column(n),
        Expr::Alias(inner, a) => Expr::Alias(Box::new(spec_rename(*inner, n)), a),
        Expr::BinaryExpr { left, op, right } => Expr::BinaryExpr {
            left: Box::new(spec_rename(*left, n)),
            op,
            right: Box::new(spec_rename(*right, n)),
        },
        Expr::IsNull(inner) => Expr::IsNull(Box::new(spec_rename(*inner, n))),
        Expr::IsNotNull(inner) => Expr::IsNotNull(Box::new(spec_rename(*inner, n))),
        Expr::IsUnique(inner) => Expr::IsUnique(Box::new(spec_rename(*inner, n))),
        Expr::IsDuplicated(inner) => Expr::IsDuplicated(Box::new(spec_rename(*inner, n))),
    }
}

/// The conjunction of two predicates as a new expression node; neither side
/// is evaluated or simplified.
pub open spec fn spec_and(a: Expr, b: Expr) -> Expr {
    Expr::BinaryExpr { left: Box::new(a), op: Operator::And, right: Box::new(b) }
}

pub fn clone_literal(v: &LiteralValue) -> (r: LiteralValue)
    ensures
        r == *v,
{
    match v {
        LiteralValue::Boolean(b) => LiteralValue::Boolean(*b),
        LiteralValue::Int(i) => LiteralValue::Int(*i),
        LiteralValue::Utf8(s) => LiteralValue::Utf8(s.clone()),
    }
}

pub fn clone_expr(e: &Expr) -> (r: Expr)
    ensures
        r == *e,
    decreases e,
{
    match e {
        Expr::Literal(v) => Expr::Literal(clone_literal(v)),
        Expr::Column(n) => Expr::Column(n.clone()),
        Expr::Alias(inner, a) => Expr::Alias(Box::new(clone_expr(inner)), a.clone()),
        Expr::BinaryExpr { left, op, right } => Expr::BinaryExpr {
            left: Box::new(clone_expr(left)),
            op: *op,
            right: Box::new(clone_expr(right)),
        },
        Expr::IsNull(inner) => Expr::IsNull(Box::new(clone_expr(inner))),
        Expr::IsNotNull(inner) => Expr::IsNotNull(Box::new(clone_expr(inner))),
        Expr::IsUnique(inner) => Expr::IsUnique(Box::new(clone_expr(inner))),
        Expr::IsDuplicated(inner) => Expr::IsDuplicated(Box::new(clone_expr(inner))),
    }
}

/// Structural containment test for a predicate shape, independent of
/// operand values.
pub fn has_expr_kind(e: &Expr, k: ExprKind) -> (r: bool)
    ensures
        r == spec_contains_kind(*e, k),
    decreases e,
{
    let here = match (e, k) {
        (Expr::BinaryExpr { .. }, ExprKind::Binary) => true,
        (Expr::IsNull(_), ExprKind::NullTest) => true,
        (Expr::IsNotNull(_), ExprKind::NotNullTest) => true,
        (Expr::IsUnique(_), ExprKind::UniqueTest) => true,
        (Expr::IsDuplicated(_), ExprKind::DuplicatedTest) => true,
        _ => false,
    };
    here || match e {
        Expr::Literal(_) => false,
        Expr::Column(_) => false,
        Expr::Alias(inner, _) => has_expr_kind(inner, k),
        Expr::BinaryExpr { left, op, right } => has_expr_kind(left, k) || has_expr_kind(right, k),
        Expr::IsNull(inner) => has_expr_kind(inner, k),
        Expr::IsNotNull(inner) => has_expr_kind(inner, k),
        Expr::IsUnique(inner) => has_expr_kind(inner, k),
        Expr::IsDuplicated(inner) => has_expr_kind(inner, k),
    }
}

fn root_join(a: RootColumn, b: RootColumn) -> (r: RootColumn)
    ensures
        r == spec_root_join(a, b),
{
    match (a, b) {
        (RootColumn::NoColumn, x) => x,
        (x, RootColumn::NoColumn) => x,
        (RootColumn::Single(m), RootColumn::Single(n)) => if m == n {
            RootColumn::Single(m)
        } else {
            RootColumn::Multiple
        },
        _ => RootColumn::Multiple,
    }
}

/// Classifies the source columns an expression reads: none, a single root
/// column, or several distinct ones.
pub fn expr_root_column(e: &Expr) -> (r: RootColumn)
    ensures
        r == spec_root(*e),
    decreases e,
{
    match e {
        Expr::Literal(_) => RootColumn::NoColumn,
        Expr::Column(n) => RootColumn::Single(n.clone()),
        Expr::Alias(inner, _) => expr_root_column(inner),
        Expr::BinaryExpr { left, op, right } => root_join(
            expr_root_column(left),
            expr_root_column(right),
        ),
        Expr::IsNull(inner) => expr_root_column(inner),
        Expr::IsNotNull(inner) => expr_root_column(inner),
        Expr::IsUnique(inner) => expr_root_column(inner),
        Expr::IsDuplicated(inner) => expr_root_column(inner),
    }
}

/// Renames every column reference of the expression to `n`. For the
/// predicates this pass renames, the expression has a single root column, so
/// this is the rename of that root.
pub fn rename_expr_root_name(e: &Expr, n: &String) -> (r: Expr)
    ensures
        r == spec_rename(*e, *n),
    decreases e,
{
    match e {
        Expr::Literal(v) => Expr::Literal(clone_literal(v)),
        Expr::Column(_) => Expr::Column(n.clone()),
        Expr::Alias(inner, a) => Expr::Alias(Box::new(rename_expr_root_name(inner, n)), a.clone()),
        Expr::BinaryExpr { left, op, right } => Expr::BinaryExpr {
            left: Box::new(rename_expr_root_name(left, n)),
            op: *op,
            right: Box::new(rename_expr_root_name(right, n)),
        },
        Expr::IsNull(inner) => Expr::IsNull(Box::new(rename_expr_root_name(inner, n))),
        Expr::IsNotNull(inner) => Expr::IsNotNull(Box::new(rename_expr_root_name(inner, n))),
        Expr::IsUnique(inner) => Expr::IsUnique(Box::new(rename_expr_root_name(inner, n))),
        Expr::IsDuplicated(inner) => Expr::IsDuplicated(Box::new(rename_expr_root_name(inner, n))),
    }
}

/// Builds the conjunction of two predicates without evaluating either.
pub fn and_expr(a: Expr, b: Expr) -> (r: Expr)
    ensures
        r == spec_and(a, b),
{
    Expr::BinaryExpr { left: Box::new(a), op: Operator::And, right: Box::new(b) }
}

} // verus!
