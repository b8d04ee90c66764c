//! Runs small plans over in-memory rows, before and after optimization, and
//! compares the result multisets.

use predicate_pushdown::expr::{Expr, LiteralValue, Operator};
use predicate_pushdown::plan::{DataFrameOperation, JoinType, LogicalPlan};
use predicate_pushdown::pushdown::PredicatePushDown;
use predicate_pushdown::schema::{DataType, Field, Schema};

type Row = Vec<(String, Option<i64>)>;

fn col(name: &str) -> Expr {
    Expr::Column(name.to_string())
}

fn lit_int(v: i64) -> Expr {
    Expr::Literal(LiteralValue::Int(v))
}

fn binary(l: Expr, op: Operator, r: Expr) -> Expr {
    Expr::BinaryExpr { left: Box::new(l), op, right: Box::new(r) }
}

fn schema_of(names: &[&str]) -> Schema {
    Schema {
        fields: names
            .iter()
            .map(|n| Field { name: n.to_string(), dtype: DataType::Int64 })
            .collect(),
    }
}

fn scan(df: u64, names: &[&str]) -> LogicalPlan {
    LogicalPlan::DataFrameScan { df, schema: schema_of(names) }
}

fn select(predicate: Expr, input: LogicalPlan) -> LogicalPlan {
    LogicalPlan::Selection { predicate, input: Box::new(input) }
}

fn row(pairs: &[(&str, Option<i64>)]) -> Row {
    pairs.iter().map(|(n, v)| (n.to_string(), *v)).collect()
}

fn lookup(r: &Row, name: &str) -> Option<i64> {
    r.iter().find(|(n, _)| n == name).and_then(|(_, v)| *v)
}

fn eval_value(e: &Expr, r: &Row) -> Option<i64> {
    match e {
        Expr::Column(n) => lookup(r, n),
        Expr::Literal(LiteralValue::Int(v)) => Some(*v),
        _ => None,
    }
}

fn eval_pred(e: &Expr, r: &Row) -> bool {
    match e {
        Expr::BinaryExpr { left, op: Operator::And, right } => {
            eval_pred(left, r) && eval_pred(right, r)
        }
        Expr::BinaryExpr { left, op, right } => {
            match (eval_value(left, r), eval_value(right, r)) {
                (Some(a), Some(b)) => match op {
                    Operator::Eq => a == b,
                    Operator::NotEq => a != b,
                    Operator::Lt => a < b,
                    Operator::LtEq => a <= b,
                    Operator::Gt => a > b,
                    Operator::GtEq => a >= b,
                    Operator::And | Operator::Or => unreachable!(),
                },
                _ => false,
            }
        }
        Expr::IsNull(inner) => eval_value(inner, r).is_none(),
        Expr::IsNotNull(inner) => eval_value(inner, r).is_some(),
        _ => panic!("these evaluations cover only the shapes the plans build"),
    }
}

fn eval_plan(p: &LogicalPlan, frames: &[(u64, Vec<Row>)]) -> Vec<Row> {
    match p {
        LogicalPlan::DataFrameScan { df, .. } => frames
            .iter()
            .find(|(id, _)| id == df)
            .map(|(_, rows)| rows.clone())
            .unwrap(),
        LogicalPlan::Selection { predicate, input } => eval_plan(input, frames)
            .into_iter()
            .filter(|r| eval_pred(predicate, r))
            .collect(),
        LogicalPlan::DataFrameOp { input, operation } => {
            let mut rows = eval_plan(input, frames);
            match operation {
                DataFrameOperation::Reverse => rows.reverse(),
                DataFrameOperation::DropDuplicateRows => {}
            }
            rows
        }
        LogicalPlan::Distinct { input, .. } => {
            let mut seen: Vec<Row> = Vec::new();
            for r in eval_plan(input, frames) {
                if !seen.contains(&r) {
                    seen.push(r);
                }
            }
            seen
        }
        LogicalPlan::Join { input_left, input_right, left_on, right_on, how, .. } => {
            let left_rows = eval_plan(input_left, frames);
            let right_rows = eval_plan(input_right, frames);
            let right_names: Vec<String> = match right_rows.first() {
                Some(r) => r.iter().map(|(n, _)| n.clone()).collect(),
                None => Vec::new(),
            };
            let mut out: Vec<Row> = Vec::new();
            for lr in &left_rows {
                let key = lookup(lr, left_on);
                let mut matched = false;
                for rr in &right_rows {
                    if key.is_some() && key == lookup(rr, right_on) {
                        matched = true;
                        let mut combined = lr.clone();
                        for (n, v) in rr {
                            if n != right_on {
                                combined.push((n.clone(), *v));
                            }
                        }
                        out.push(combined);
                    }
                }
                if !matched && *how == JoinType::Left {
                    let mut combined = lr.clone();
                    for n in &right_names {
                        if n != right_on {
                            combined.push((n.clone(), None));
                        }
                    }
                    out.push(combined);
                }
            }
            out
        }
        _ => panic!("these evaluations cover only the shapes the plans build"),
    }
}

fn same_multiset(mut a: Vec<Row>, mut b: Vec<Row>) -> bool {
    a.sort();
    b.sort();
    a == b
}

fn check_sound(plan: LogicalPlan, frames: &[(u64, Vec<Row>)]) {
    let before = eval_plan(&plan, frames);
    let optimized = PredicatePushDown::default().optimize(plan).unwrap();
    let after = eval_plan(&optimized, frames);
    assert!(same_multiset(before, after));
}

#[test]
fn soundness_filter_pushed_into_inner_join() {
    let frames = vec![
        (
            1u64,
            vec![
                row(&[("k", Some(1)), ("a", Some(10))]),
                row(&[("k", Some(2)), ("a", Some(20))]),
                row(&[("k", Some(3)), ("a", Some(30))]),
            ],
        ),
        (
            2u64,
            vec![
                row(&[("k", Some(1)), ("b", Some(100))]),
                row(&[("k", Some(2)), ("b", None)]),
                row(&[("k", Some(2)), ("b", Some(200))]),
            ],
        ),
    ];
    let plan = select(
        binary(col("a"), Operator::Gt, lit_int(15)),
        LogicalPlan::Join {
            input_left: Box::new(scan(1, &["k", "a"])),
            input_right: Box::new(scan(2, &["k", "b"])),
            left_on: "k".to_string(),
            right_on: "k".to_string(),
            how: JoinType::Inner,
            schema: schema_of(&["k", "a", "b"]),
        },
    );
    check_sound(plan, &frames);
}

#[test]
fn soundness_is_not_null_above_left_join() {
    let frames = vec![
        (
            1u64,
            vec![
                row(&[("k", Some(1)), ("a", Some(10))]),
                row(&[("k", Some(4)), ("a", Some(40))]),
            ],
        ),
        (2u64, vec![row(&[("k", Some(1)), ("b", Some(100))])]),
    ];
    let plan = select(
        Expr::IsNotNull(Box::new(col("b"))),
        LogicalPlan::Join {
            input_left: Box::new(scan(1, &["k", "a"])),
            input_right: Box::new(scan(2, &["k", "b"])),
            left_on: "k".to_string(),
            right_on: "k".to_string(),
            how: JoinType::Left,
            schema: schema_of(&["k", "a", "b"]),
        },
    );
    check_sound(plan, &frames);
}

#[test]
fn soundness_filter_pushed_through_distinct() {
    let frames = vec![(
        1u64,
        vec![
            row(&[("a", Some(1))]),
            row(&[("a", Some(1))]),
            row(&[("a", None)]),
            row(&[("a", Some(2))]),
        ],
    )];
    let plan = select(
        Expr::IsNotNull(Box::new(col("a"))),
        LogicalPlan::Distinct {
            input: Box::new(scan(1, &["a"])),
            subset: None,
            maintain_order: true,
        },
    );
    check_sound(plan, &frames);
}

#[test]
fn soundness_merged_filters_through_a_reverse() {
    let frames = vec![(
        1u64,
        vec![
            row(&[("a", Some(1)), ("b", Some(9))]),
            row(&[("a", Some(5)), ("b", Some(2))]),
            row(&[("a", Some(7)), ("b", None)]),
            row(&[("a", None), ("b", Some(3))]),
        ],
    )];
    let plan = select(
        binary(col("a"), Operator::Gt, lit_int(0)),
        select(
            Expr::IsNotNull(Box::new(col("b"))),
            LogicalPlan::DataFrameOp {
                input: Box::new(scan(1, &["a", "b"])),
                operation: DataFrameOperation::Reverse,
            },
        ),
    );
    check_sound(plan, &frames);
}
