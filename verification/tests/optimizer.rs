use predicate_pushdown::expr::{clone_expr, Expr, LiteralValue, Operator};
use predicate_pushdown::plan::{DataFrameOperation, JoinType, LogicalPlan};
use predicate_pushdown::pushdown::{OptimizerError, PredicatePushDown};
use predicate_pushdown::schema::{DataType, Field, Schema};

fn col(name: &str) -> Expr {
    Expr::Column(name.to_string())
}

fn lit_int(v: i64) -> Expr {
    Expr::Literal(LiteralValue::Int(v))
}

fn lit_bool(v: bool) -> Expr {
    Expr::Literal(LiteralValue::Boolean(v))
}

fn binary(l: Expr, op: Operator, r: Expr) -> Expr {
    Expr::BinaryExpr { left: Box::new(l), op, right: Box::new(r) }
}

fn and(l: Expr, r: Expr) -> Expr {
    binary(l, Operator::And, r)
}

fn schema_of(names: &[&str]) -> Schema {
    Schema {
        fields: names
            .iter()
            .map(|n| Field { name: n.to_string(), dtype: DataType::Int64 })
            .collect(),
    }
}

fn csv(names: &[&str]) -> LogicalPlan {
    LogicalPlan::CsvScan {
        path: "data.csv".to_string(),
        schema: schema_of(names),
        has_header: true,
        delimiter: b',',
        ignore_errors: false,
        skip_rows: 0,
        stop_after_n_rows: None,
        with_columns: None,
    }
}

fn df_scan(names: &[&str]) -> LogicalPlan {
    LogicalPlan::DataFrameScan { df: 1, schema: schema_of(names) }
}

fn select(predicate: Expr, input: LogicalPlan) -> LogicalPlan {
    LogicalPlan::Selection { predicate, input: Box::new(input) }
}

fn join(left: LogicalPlan, right: LogicalPlan, how: JoinType, names: &[&str]) -> LogicalPlan {
    LogicalPlan::Join {
        input_left: Box::new(left),
        input_right: Box::new(right),
        left_on: "k".to_string(),
        right_on: "k".to_string(),
        how,
        schema: schema_of(names),
    }
}

fn optimize(plan: LogicalPlan) -> Result<LogicalPlan, OptimizerError> {
    PredicatePushDown::default().optimize(plan)
}

#[test]
fn leaf_absorption_single_filter_over_scan() {
    let pred = binary(col("a"), Operator::Gt, lit_int(1));
    let plan = select(clone_expr(&pred), csv(&["a"]));
    let expected = select(pred, csv(&["a"]));
    assert_eq!(optimize(plan), Ok(expected));
}

#[test]
fn merge_two_filters_on_the_same_column() {
    let pa = binary(col("a"), Operator::Gt, lit_int(1));
    let pb = binary(col("a"), Operator::Lt, lit_int(9));
    let plan = select(clone_expr(&pa), select(clone_expr(&pb), csv(&["a"])));
    let expected = select(and(pa, pb), csv(&["a"]));
    assert_eq!(optimize(plan), Ok(expected));
}

#[test]
fn filters_on_two_columns_combine_at_the_leaf() {
    let pa = binary(col("a"), Operator::Gt, lit_int(1));
    let pb = Expr::IsNotNull(Box::new(col("b")));
    let plan = select(clone_expr(&pa), select(clone_expr(&pb), csv(&["a", "b"])));
    let expected = select(and(pa, pb), csv(&["a", "b"]));
    assert_eq!(optimize(plan), Ok(expected));
}

#[test]
fn cross_column_comparison_gets_a_composite_key() {
    let pred = binary(col("a"), Operator::Eq, col("b"));
    let plan = select(clone_expr(&pred), csv(&["a", "b"]));
    let expected = select(pred, csv(&["a", "b"]));
    assert_eq!(optimize(plan), Ok(expected));
}

#[test]
fn unkeyable_predicate_aborts_the_pass() {
    let plan = select(lit_bool(true), csv(&["a"]));
    assert_eq!(
        optimize(plan),
        Err(OptimizerError::AmbiguousPredicateKey(lit_bool(true)))
    );
}

#[test]
fn inner_join_left_only_predicate_moves_inside_the_left_input() {
    let pred = binary(col("a"), Operator::Gt, lit_int(3));
    let plan = select(
        clone_expr(&pred),
        join(csv(&["k", "a"]), df_scan(&["k", "b"]), JoinType::Inner, &["k", "a", "b"]),
    );
    let expected = join(
        select(pred, csv(&["k", "a"])),
        df_scan(&["k", "b"]),
        JoinType::Inner,
        &["k", "a", "b"],
    );
    assert_eq!(optimize(plan), Ok(expected));
}

#[test]
fn inner_join_shared_column_predicate_goes_to_both_sides() {
    let pred = binary(col("k"), Operator::Gt, lit_int(0));
    let plan = select(
        clone_expr(&pred),
        join(csv(&["k", "a"]), df_scan(&["k", "b"]), JoinType::Inner, &["k", "a", "b"]),
    );
    let expected = join(
        select(clone_expr(&pred), csv(&["k", "a"])),
        select(pred, df_scan(&["k", "b"])),
        JoinType::Inner,
        &["k", "a", "b"],
    );
    assert_eq!(optimize(plan), Ok(expected));
}

#[test]
fn left_join_is_not_null_predicate_stays_above_the_join() {
    let pred = Expr::IsNotNull(Box::new(col("b")));
    let plan = select(
        clone_expr(&pred),
        join(csv(&["k", "a"]), df_scan(&["k", "b"]), JoinType::Left, &["k", "a", "b"]),
    );
    let expected = select(
        pred,
        join(csv(&["k", "a"]), df_scan(&["k", "b"]), JoinType::Left, &["k", "a", "b"]),
    );
    assert_eq!(optimize(plan), Ok(expected));
}

#[test]
fn uniqueness_test_stays_above_any_join() {
    let pred = Expr::IsUnique(Box::new(col("a")));
    let plan = select(
        clone_expr(&pred),
        join(csv(&["k", "a"]), df_scan(&["k", "b"]), JoinType::Inner, &["k", "a", "b"]),
    );
    let expected = select(
        pred,
        join(csv(&["k", "a"]), df_scan(&["k", "b"]), JoinType::Inner, &["k", "a", "b"]),
    );
    assert_eq!(optimize(plan), Ok(expected));
}

#[test]
fn distinct_cross_column_predicate_stays_above_distinct() {
    let pred = binary(col("a"), Operator::Eq, col("b"));
    let distinct = LogicalPlan::Distinct {
        input: Box::new(csv(&["a", "b"])),
        subset: None,
        maintain_order: false,
    };
    let plan = select(clone_expr(&pred), distinct);
    let expected = select(
        pred,
        LogicalPlan::Distinct {
            input: Box::new(csv(&["a", "b"])),
            subset: None,
            maintain_order: false,
        },
    );
    assert_eq!(optimize(plan), Ok(expected));
}

#[test]
fn distinct_lets_single_column_null_test_through() {
    let pred = Expr::IsNotNull(Box::new(col("a")));
    let plan = select(
        clone_expr(&pred),
        LogicalPlan::Distinct {
            input: Box::new(csv(&["a"])),
            subset: None,
            maintain_order: true,
        },
    );
    let expected = LogicalPlan::Distinct {
        input: Box::new(select(pred, csv(&["a"]))),
        subset: None,
        maintain_order: true,
    };
    assert_eq!(optimize(plan), Ok(expected));
}

#[test]
fn aggregate_blocks_every_predicate_above_it() {
    let pred = binary(col("a"), Operator::Gt, lit_int(1));
    let agg = LogicalPlan::Aggregate {
        input: Box::new(csv(&["a", "b"])),
        keys: vec!["a".to_string()],
        aggs: vec![col("b")],
        schema: schema_of(&["a", "b"]),
    };
    let plan = select(clone_expr(&pred), agg);
    let expected = select(
        pred,
        LogicalPlan::Aggregate {
            input: Box::new(csv(&["a", "b"])),
            keys: vec!["a".to_string()],
            aggs: vec![col("b")],
            schema: schema_of(&["a", "b"]),
        },
    );
    assert_eq!(optimize(plan), Ok(expected));
}

#[test]
fn frame_operation_is_transparent_to_pushdown() {
    let pred = binary(col("a"), Operator::Gt, lit_int(1));
    let plan = select(
        clone_expr(&pred),
        LogicalPlan::DataFrameOp {
            input: Box::new(csv(&["a"])),
            operation: DataFrameOperation::Reverse,
        },
    );
    let expected = LogicalPlan::DataFrameOp {
        input: Box::new(select(pred, csv(&["a"]))),
        operation: DataFrameOperation::Reverse,
    };
    assert_eq!(optimize(plan), Ok(expected));
}

#[test]
fn optimizing_twice_changes_nothing_further() {
    let pred = binary(col("a"), Operator::Gt, lit_int(1));
    let plan = select(
        pred,
        LogicalPlan::DataFrameOp {
            input: Box::new(csv(&["a"])),
            operation: DataFrameOperation::Reverse,
        },
    );
    let once = optimize(plan).unwrap();
    let twice = optimize(clone_plan(&once)).unwrap();
    assert_eq!(once, twice);
}

fn clone_plan(p: &LogicalPlan) -> LogicalPlan {
    match p {
        LogicalPlan::Selection { predicate, input } => LogicalPlan::Selection {
            predicate: clone_expr(predicate),
            input: Box::new(clone_plan(input)),
        },
        LogicalPlan::DataFrameOp { input, operation } => LogicalPlan::DataFrameOp {
            input: Box::new(clone_plan(input)),
            operation: *operation,
        },
        LogicalPlan::CsvScan {
            path,
            schema,
            has_header,
            delimiter,
            ignore_errors,
            skip_rows,
            stop_after_n_rows,
            with_columns,
        } => LogicalPlan::CsvScan {
            path: path.clone(),
            schema: Schema {
                fields: schema
                    .fields
                    .iter()
                    .map(|f| Field { name: f.name.clone(), dtype: f.dtype })
                    .collect(),
            },
            has_header: *has_header,
            delimiter: *delimiter,
            ignore_errors: *ignore_errors,
            skip_rows: *skip_rows,
            stop_after_n_rows: *stop_after_n_rows,
            with_columns: with_columns.clone(),
        },
        _ => panic!("clone_plan covers only the shapes these tests build"),
    }
}

#[test]
fn plan_without_filters_comes_back_unchanged() {
    let plan = join(
        LogicalPlan::Distinct {
            input: Box::new(csv(&["k", "a"])),
            subset: None,
            maintain_order: false,
        },
        df_scan(&["k", "b"]),
        JoinType::Left,
        &["k", "a", "b"],
    );
    let expected = join(
        LogicalPlan::Distinct {
            input: Box::new(csv(&["k", "a"])),
            subset: None,
            maintain_order: false,
        },
        df_scan(&["k", "b"]),
        JoinType::Left,
        &["k", "a", "b"],
    );
    assert_eq!(optimize(plan), Ok(expected));
}

#[test]
fn conjunction_spanning_three_columns_is_unkeyable() {
    let pa = binary(col("a"), Operator::Gt, lit_int(1));
    let pb = binary(col("b"), Operator::Gt, lit_int(2));
    let pc = binary(col("c"), Operator::Gt, lit_int(3));
    let pred = and(and(pa, pb), pc);
    let plan = select(clone_expr(&pred), csv(&["a", "b", "c"]));
    assert_eq!(
        optimize(plan),
        Err(OptimizerError::AmbiguousPredicateKey(pred))
    );
}

#[test]
fn last_projection_blocks_the_filter_above_it() {
    let pred = binary(col("a"), Operator::Gt, lit_int(1));
    let projection = LogicalPlan::Projection {
        expr: vec![col("a")],
        input: Box::new(csv(&["a", "b"])),
        schema: schema_of(&["a"]),
    };
    let plan = select(clone_expr(&pred), projection);
    let expected = select(
        pred,
        LogicalPlan::Projection {
            expr: vec![col("a")],
            input: Box::new(csv(&["a", "b"])),
            schema: schema_of(&["a"]),
        },
    );
    assert_eq!(optimize(plan), Ok(expected));
}

#[test]
fn alias_in_a_stacked_projection_renames_the_predicate() {
    let inner = LogicalPlan::Projection {
        expr: vec![col("a")],
        input: Box::new(csv(&["a"])),
        schema: schema_of(&["a"]),
    };
    let outer = LogicalPlan::Projection {
        expr: vec![Expr::Alias(Box::new(col("a")), "b".to_string())],
        input: Box::new(inner),
        schema: schema_of(&["b"]),
    };
    let plan = select(binary(col("b"), Operator::Gt, lit_int(1)), outer);
    let expected = LogicalPlan::Projection {
        expr: vec![Expr::Alias(Box::new(col("a")), "b".to_string())],
        input: Box::new(select(
            binary(col("a"), Operator::Gt, lit_int(1)),
            LogicalPlan::Projection {
                expr: vec![col("a")],
                input: Box::new(csv(&["a"])),
                schema: schema_of(&["a"]),
            },
        )),
        schema: schema_of(&["b"]),
    };
    assert_eq!(optimize(plan), Ok(expected));
}

#[test]
fn alias_of_a_rootless_expression_leaves_the_filter_at_the_projection() {
    let inner = LogicalPlan::Projection {
        expr: vec![col("a")],
        input: Box::new(csv(&["a"])),
        schema: schema_of(&["a"]),
    };
    let outer = LogicalPlan::Projection {
        expr: vec![Expr::Alias(Box::new(lit_int(1)), "b".to_string())],
        input: Box::new(inner),
        schema: schema_of(&["b"]),
    };
    let pred = Expr::IsNotNull(Box::new(col("b")));
    let plan = select(clone_expr(&pred), outer);
    let expected = select(
        pred,
        LogicalPlan::Projection {
            expr: vec![Expr::Alias(Box::new(lit_int(1)), "b".to_string())],
            input: Box::new(LogicalPlan::Projection {
                expr: vec![col("a")],
                input: Box::new(csv(&["a"])),
                schema: schema_of(&["a"]),
            }),
            schema: schema_of(&["b"]),
        },
    );
    assert_eq!(optimize(plan), Ok(expected));
}

#[test]
fn local_projection_drops_expressions_over_missing_columns() {
    let plan = LogicalPlan::LocalProjection {
        expr: vec![col("a"), col("z")],
        input: Box::new(csv(&["a"])),
        schema: schema_of(&["a"]),
    };
    let expected = LogicalPlan::LocalProjection {
        expr: vec![col("a")],
        input: Box::new(csv(&["a"])),
        schema: schema_of(&["a"]),
    };
    assert_eq!(optimize(plan), Ok(expected));
}

#[test]
fn hstack_splits_filters_between_old_and_new_columns() {
    let added = Expr::Alias(Box::new(binary(col("a"), Operator::Gt, lit_int(0))), "n".to_string());
    let pred_new = Expr::IsNotNull(Box::new(col("n")));
    let pred_old = Expr::IsNotNull(Box::new(col("a")));
    let hstack = LogicalPlan::HStack {
        input: Box::new(csv(&["a"])),
        exprs: vec![clone_expr(&added)],
        schema: schema_of(&["a", "n"]),
    };
    let plan = select(clone_expr(&pred_new), select(clone_expr(&pred_old), hstack));
    let expected = select(
        pred_new,
        LogicalPlan::HStack {
            input: Box::new(select(pred_old, csv(&["a"]))),
            exprs: vec![added],
            schema: schema_of(&["a", "n"]),
        },
    );
    assert_eq!(optimize(plan), Ok(expected));
}
