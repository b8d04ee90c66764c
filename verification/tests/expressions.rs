use predicate_pushdown::acc::{combine_predicates, Key, PredicateAcc};
use predicate_pushdown::expr::{
    and_expr, expr_root_column, has_expr_kind, rename_expr_root_name, Expr, ExprKind,
    LiteralValue, Operator, RootColumn,
};
use predicate_pushdown::schema::{check_down_node, DataType, Field, Schema};

fn col(name: &str) -> Expr {
    Expr::Column(name.to_string())
}

fn lit_int(v: i64) -> Expr {
    Expr::Literal(LiteralValue::Int(v))
}

fn binary(l: Expr, op: Operator, r: Expr) -> Expr {
    Expr::BinaryExpr { left: Box::new(l), op, right: Box::new(r) }
}

fn schema_of(names: &[&str]) -> Schema {
    Schema {
        fields: names
            .iter()
            .map(|n| Field { name: n.to_string(), dtype: DataType::Int64 })
            .collect(),
    }
}

#[test]
fn root_column_of_single_column_comparison() {
    let e = binary(col("price"), Operator::Gt, lit_int(10));
    assert_eq!(expr_root_column(&e), RootColumn::Single("price".to_string()));
}

#[test]
fn root_column_of_literal_is_none() {
    assert_eq!(expr_root_column(&lit_int(3)), RootColumn::NoColumn);
}

#[test]
fn root_column_of_cross_column_comparison_is_multiple() {
    let e = binary(col("a"), Operator::Eq, col("b"));
    assert_eq!(expr_root_column(&e), RootColumn::Multiple);
}

#[test]
fn root_column_sees_through_alias_and_null_tests() {
    let e = Expr::Alias(Box::new(Expr::IsNotNull(Box::new(col("a")))), "t".to_string());
    assert_eq!(expr_root_column(&e), RootColumn::Single("a".to_string()));
}

#[test]
fn containment_finds_nested_shapes() {
    let e = binary(Expr::IsNotNull(Box::new(col("a"))), Operator::And, lit_int(1));
    assert!(has_expr_kind(&e, ExprKind::NotNullTest));
    assert!(has_expr_kind(&e, ExprKind::Binary));
    assert!(!has_expr_kind(&e, ExprKind::NullTest));
    assert!(!has_expr_kind(&e, ExprKind::UniqueTest));
    assert!(!has_expr_kind(&e, ExprKind::DuplicatedTest));
}

#[test]
fn rename_replaces_the_root_column() {
    let e = binary(col("b"), Operator::Lt, lit_int(5));
    let renamed = rename_expr_root_name(&e, &"a".to_string());
    assert_eq!(renamed, binary(col("a"), Operator::Lt, lit_int(5)));
}

#[test]
fn schema_membership_drives_check_down_node() {
    let s = schema_of(&["a", "b"]);
    assert!(check_down_node(&binary(col("a"), Operator::Eq, col("b")), &s));
    assert!(!check_down_node(&binary(col("a"), Operator::Eq, col("z")), &s));
    assert!(check_down_node(&lit_int(0), &s));
}

#[test]
fn combine_predicates_folds_left_in_order() {
    let pa = binary(col("a"), Operator::Gt, lit_int(1));
    let pb = binary(col("b"), Operator::Lt, lit_int(2));
    let pc = Expr::IsNotNull(Box::new(col("c")));
    let combined = combine_predicates(vec![clone_pred(&pa), clone_pred(&pb), clone_pred(&pc)]);
    let expected = and_expr(and_expr(pa, pb), pc);
    assert_eq!(combined, expected);
}

fn clone_pred(e: &Expr) -> Expr {
    predicate_pushdown::expr::clone_expr(e)
}

#[test]
fn accumulator_merges_same_key_and_keeps_others_apart() {
    let pa = binary(col("a"), Operator::Gt, lit_int(1));
    let pb = binary(col("a"), Operator::Lt, lit_int(9));
    let pc = Expr::IsNull(Box::new(col("b")));
    let mut acc = PredicateAcc::new();
    acc.insert_and_combine(Key::Column("a".to_string()), clone_pred(&pa));
    acc.insert_and_combine(Key::Column("a".to_string()), clone_pred(&pb));
    assert_eq!(acc.entries.len(), 1);
    assert_eq!(acc.entries[0].predicate, and_expr(clone_pred(&pa), clone_pred(&pb)));
    acc.insert_and_combine(Key::Column("b".to_string()), clone_pred(&pc));
    assert_eq!(acc.entries.len(), 2);
    assert_eq!(acc.entries[1].predicate, pc);
}

#[test]
fn accumulator_take_out_removes_the_entry() {
    let pa = binary(col("a"), Operator::Gt, lit_int(1));
    let mut acc = PredicateAcc::new();
    acc.insert_and_combine(Key::Column("a".to_string()), clone_pred(&pa));
    let taken = acc.take_out(&Key::Column("a".to_string()));
    assert_eq!(taken, Some(pa));
    assert_eq!(acc.entries.len(), 0);
    assert_eq!(acc.take_out(&Key::Column("a".to_string())), None);
}
