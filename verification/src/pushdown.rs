use vstd::prelude::*;
use crate::acc::{
    acc_insert, acc_preds, acc_take_out, combine_predicates, combine_seq, clone_key, Key,
    PredicateAcc, PredicateEntry,
};
use crate::builder::LogicalPlanBuilder;
use crate::expr::{
    clone_expr, expr_root_column, has_expr_kind, rename_expr_root_name, spec_contains_kind,
    spec_rename, spec_root, Expr, ExprKind, RootColumn,
};
use crate::plan::{
    spec_has_projection, spec_plan_schema, has_projection_below, JoinType, LogicalPlan, PlanV,
};
use crate::schema::{check_down_node, spec_refs_only, Schema};

verus! {

/// Why an optimization pass was abandoned. No partial plan is returned; the
/// caller falls back to the plan it handed in.
#[derive(Debug, PartialEq)]
pub enum OptimizerError {
    /// A filter predicate reduces to neither a single root column nor a
    /// comparison whose two sides each reduce to one column, so no
    /// accumulator key can be derived for it. The offending predicate is
    /// carried along.
    AmbiguousPredicateKey(Expr),
}

/// The accumulator key a predicate is filed under: its single root column,
/// or, failing that, the pair of root columns of a comparison's two sides.
pub open spec fn spec_key_for(e: Expr) -> Option<Key> {
    match spec_root(e) {
        RootColumn::Single(n) => Some(Key::Column(n)),
        _ => match e {
            Expr::BinaryExpr { left, op, right } => match (
                spec_root(*left),
                spec_root(*right),
            ) {
                (RootColumn::Single(l), RootColumn::Single(r)) => Some(Key::Binary(l, r)),
                _ => None,
            },
            _ => None,
        },
    }
}

/// The plan wrapped in one filter carrying the AND of the predicates; an
/// empty sequence leaves the plan alone.
pub open spec fn emit_local(lp: PlanV, ps: Seq<Expr>) -> PlanV {
    if ps.len() == 0 {
        lp
    } else {
        PlanV::Selection { predicate: combine_seq(ps), input: Box::new(lp) }
    }
}

/// The plan wrapped in one filter carrying the AND of the whole accumulator.
pub open spec fn emit_acc(lp: PlanV, s: Seq<PredicateEntry>) -> PlanV {
    emit_local(lp, acc_preds(s))
}

/// One projection expression applied to the accumulator: an alias whose name
/// matches a stored key takes that predicate out and re-files it under the
/// root column of the aliased expression, renamed accordingly; when that
/// expression has no single root the predicate stays local at the
/// projection. Any other expression changes nothing.
pub open spec fn alias_step(e: Expr, acc: Seq<PredicateEntry>, local: Seq<Expr>) -> (Seq<
    PredicateEntry,
>, Seq<Expr>) {
    match e {
        Expr::Alias(inner, name) => {
            let taken = acc_take_out(acc, Key::Column(name));
            match taken.0 {
                Some(p) => match spec_root(*inner) {
                    RootColumn::Single(new_name) => (
                        acc_insert(taken.1, Key::Column(new_name), spec_rename(p, new_name)),
                        local,
                    ),
                    _ => (taken.1, local.push(p)),
                },
                None => (acc, local),
            }
        },
        _ => (acc, local),
    }
}

/// The accumulator and local filters after every projection expression has
/// been applied in order.
pub open spec fn alias_fold(exprs: Seq<Expr>, acc: Seq<PredicateEntry>) -> (Seq<PredicateEntry>, Seq<
    Expr,
>)
    decreases exprs.len(),
{
    if exprs.len() == 0 {
        (acc, Seq::<Expr>::empty())
    } else {
        let prev = alias_fold(exprs.drop_last(), acc);
        alias_step(exprs.last(), prev.0, prev.1)
    }
}

/// The projection expressions whose columns all exist in the schema, in
/// their input order.
pub open spec fn keep_refs(exprs: Seq<Expr>, schema: Schema) -> Seq<Expr>
    decreases exprs.len(),
{
    if exprs.len() == 0 {
        Seq::<Expr>::empty()
    } else {
        let prev = keep_refs(exprs.drop_last(), schema);
        if spec_refs_only(exprs.last(), schema) {
            prev.push(exprs.last())
        } else {
            prev
        }
    }
}

/// Partition at a Distinct node: a predicate of cross-column comparison
/// shape could change which row survives deduplication if it ran earlier, so
/// it stays local; every other predicate keeps going down.
pub open spec fn distinct_split(s: Seq<PredicateEntry>) -> (Seq<PredicateEntry>, Seq<Expr>)
    decreases s.len(),
{
    if s.len() == 0 {
        (Seq::<PredicateEntry>::empty(), Seq::<Expr>::empty())
    } else {
        let prev = distinct_split(s.drop_last());
        let e = s.last();
        if spec_contains_kind(e.predicate, ExprKind::Binary) {
            (prev.0, prev.1.push(e.predicate))
        } else {
            (prev.0.push(e), prev.1)
        }
    }
}

/// Split against one schema: predicates wholly over columns of the schema
/// keep going down, the rest become local filters.
pub open spec fn local_split(s: Seq<PredicateEntry>, schema: Schema) -> (Seq<Expr>, Seq<
    PredicateEntry,
>)
    decreases s.len(),
{
    if s.len() == 0 {
        (Seq::<Expr>::empty(), Seq::<PredicateEntry>::empty())
    } else {
        let prev = local_split(s.drop_last(), schema);
        let e = s.last();
        if spec_refs_only(e.predicate, schema) {
            (prev.0, prev.1.push(e))
        } else {
            (prev.0.push(e.predicate), prev.1)
        }
    }
}

/// One accumulated predicate routed at a join. Uniqueness and duplication
/// tests always stay local: a join can create or destroy duplicate rows. On
/// an outer or left join, so does any predicate containing a null test:
/// such joins fabricate null rows that an early filter would treat wrongly.
/// Every other predicate is copied into each side whose schema resolves all
/// its columns, and stays local only when neither side does.
pub open spec fn join_step(
    e: PredicateEntry,
    how: JoinType,
    schema_left: Schema,
    schema_right: Schema,
    pl: Seq<PredicateEntry>,
    pr: Seq<PredicateEntry>,
    local: Seq<Expr>,
) -> (Seq<PredicateEntry>, Seq<PredicateEntry>, Seq<Expr>) {
    let p = e.predicate;
    if spec_contains_kind(p, ExprKind::UniqueTest) || spec_contains_kind(
        p,
        ExprKind::DuplicatedTest,
    ) {
        (pl, pr, local.push(p))
    } else if (how == JoinType::Outer || how == JoinType::Left) && (spec_contains_kind(
        p,
        ExprKind::NotNullTest,
    ) || spec_contains_kind(p, ExprKind::NullTest)) {
        (pl, pr, local.push(p))
    } else {
        let in_left = spec_refs_only(p, schema_left);
        let in_right = spec_refs_only(p, schema_right);
        (
            if in_left {
                acc_insert(pl, e.key, p)
            } else {
                pl
            },
            if in_right {
                acc_insert(pr, e.key, p)
            } else {
                pr
            },
            if !in_left && !in_right {
                local.push(p)
            } else {
                local
            },
        )
    }
}

/// The whole accumulator routed at a join, in order.
pub open spec fn join_split(
    s: Seq<PredicateEntry>,
    how: JoinType,
    schema_left: Schema,
    schema_right: Schema,
) -> (Seq<PredicateEntry>, Seq<PredicateEntry>, Seq<Expr>)
    decreases s.len(),
{
    if s.len() == 0 {
        (Seq::<PredicateEntry>::empty(), Seq::<PredicateEntry>::empty(), Seq::<Expr>::empty())
    } else {
        let prev = join_split(s.drop_last(), how, schema_left, schema_right);
        join_step(s.last(), how, schema_left, schema_right, prev.0, prev.1, prev.2)
    }
}

/// The rewrite itself: the node-by-node transition of the pushdown pass.
/// The accumulator is carried top-down; a filter node dissolves into it, a
/// leaf or a blocking node re-materializes what may go no further, and every
/// branching node partitions it so that no branch sees another's filters.
pub open spec fn push_spec(lp: PlanV, acc: Seq<PredicateEntry>) -> Result<PlanV, OptimizerError>
    decreases lp,
{
    match lp {
        PlanV::Selection { predicate, input } => match spec_key_for(predicate) {
            Some(k) => push_spec(*input, acc_insert(acc, k, predicate)),
            None => Err(OptimizerError::AmbiguousPredicateKey(predicate)),
        },
        PlanV::Projection { expr, input, schema } => if !spec_has_projection(*input) {
            match push_spec(*input, Seq::<PredicateEntry>::empty()) {
                Ok(inner) => Ok(
                    emit_acc(
                        PlanV::Projection { expr, input: Box::new(inner), schema },
                        acc,
                    ),
                ),
                Err(e) => Err(e),
            }
        } else {
            let folded = alias_fold(expr, acc);
            match push_spec(*input, folded.0) {
                Ok(inner) => Ok(
                    emit_local(
                        PlanV::Projection { expr, input: Box::new(inner), schema },
                        folded.1,
                    ),
                ),
                Err(e) => Err(e),
            }
        },
        PlanV::LocalProjection { expr, input, schema } => match push_spec(*input, acc) {
            Ok(inner) => Ok(
                PlanV::LocalProjection {
                    expr: keep_refs(expr, spec_plan_schema(inner)),
                    input: Box::new(inner),
                    schema,
                },
            ),
            Err(e) => Err(e),
        },
        PlanV::DataFrameScan { df, schema } => Ok(
            emit_acc(PlanV::DataFrameScan { df, schema }, acc),
        ),
        PlanV::CsvScan {
            path,
            schema,
            has_header,
            delimiter,
            ignore_errors,
            skip_rows,
            stop_after_n_rows,
            with_columns,
        } => Ok(
            emit_acc(
                PlanV::CsvScan {
                    path,
                    schema,
                    has_header,
                    delimiter,
                    ignore_errors,
                    skip_rows,
                    stop_after_n_rows,
                    with_columns,
                },
                acc,
            ),
        ),
        PlanV::DataFrameOp { input, operation } => match push_spec(*input, acc) {
            Ok(inner) => Ok(PlanV::DataFrameOp { input: Box::new(inner), operation }),
            Err(e) => Err(e),
        },
        PlanV::Distinct { input, subset, maintain_order } => {
            let parts = distinct_split(acc);
            match push_spec(*input, parts.0) {
                Ok(inner) => Ok(
                    emit_local(
                        PlanV::Distinct { input: Box::new(inner), subset, maintain_order },
                        parts.1,
                    ),
                ),
                Err(e) => Err(e),
            }
        },
        PlanV::Aggregate { input, keys, aggs, schema } => match push_spec(
            *input,
            Seq::<PredicateEntry>::empty(),
        ) {
            Ok(inner) => Ok(
                emit_acc(
                    PlanV::Aggregate { input: Box::new(inner), keys, aggs, schema },
                    acc,
                ),
            ),
            Err(e) => Err(e),
        },
        PlanV::Join { input_left, input_right, left_on, right_on, how, schema } => {
            let parts = join_split(
                acc,
                how,
                spec_plan_schema(*input_left),
                spec_plan_schema(*input_right),
            );
            match push_spec(*input_left, parts.0) {
                Ok(lp_left) => match push_spec(*input_right, parts.1) {
                    Ok(lp_right) => Ok(
                        emit_local(
                            PlanV::Join {
                                input_left: Box::new(lp_left),
                                input_right: Box::new(lp_right),
                                left_on,
                                right_on,
                                how,
                                schema,
                            },
                            parts.2,
                        ),
                    ),
                    Err(e) => Err(e),
                },
                Err(e) => Err(e),
            }
        },
        PlanV::HStack { input, exprs, schema } => {
            let parts = local_split(acc, spec_plan_schema(*input));
            match push_spec(*input, parts.1) {
                Ok(inner) => Ok(
                    emit_local(
                        PlanV::HStack { input: Box::new(inner), exprs, schema },
                        parts.0,
                    ),
                ),
                Err(e) => Err(e),
            }
        },
    }
}

/// The rewritten plan a result carries, at the level the contracts speak of.
pub open spec fn result_view(r: Result<LogicalPlan, OptimizerError>) -> Result<
    PlanV,
    OptimizerError,
> {
    match r {
        Ok(p) => Ok(p@),
        Err(e) => Err(e),
    }
}

/// Derives the accumulator key for a filter predicate: the single root
/// column when there is one; else, for a comparison, the pair of its sides'
/// root columns; else the pass is abandoned with the offending predicate.
pub fn predicate_key(predicate: &Expr) -> (r: Result<Key, OptimizerError>)
    ensures
        match r {
            Ok(k) => spec_key_for(*predicate) == Some(k),
            Err(e) => spec_key_for(*predicate) is None && e
                == OptimizerError::AmbiguousPredicateKey(*predicate),
        },
{
    match expr_root_column(predicate) {
        RootColumn::Single(name) => Ok(Key::Column(name)),
        _ => match predicate {
            Expr::BinaryExpr { left, op, right } => match (
                expr_root_column(&**left),
                expr_root_column(&**right),
            ) {
                (RootColumn::Single(l), RootColumn::Single(r)) => Ok(Key::Binary(l, r)),
                _ => Err(OptimizerError::AmbiguousPredicateKey(clone_expr(predicate))),
            },
            _ => Err(OptimizerError::AmbiguousPredicateKey(clone_expr(predicate))),
        },
    }
}

/// The predicate-pushdown pass. Stateless: all state of a run lives in the
/// accumulator threaded through the recursion.
pub struct PredicatePushDown {}

impl Default for PredicatePushDown {
    fn default() -> (r: Self)
        ensures
            r == (PredicatePushDown {  }),
    {
        PredicatePushDown {}
    }
}

impl PredicatePushDown {
    /// Re-materializes the whole accumulator as one filter directly above a
    /// node past which nothing may be pushed.
    fn finish_at_leaf(&self, lp: LogicalPlan, acc_predicates: PredicateAcc) -> (r: LogicalPlan)
        ensures
            r@ == emit_acc(lp@, acc_predicates@),
    {
        if acc_predicates.len() == 0 {
            lp
        } else {
            let preds = acc_predicates.predicates();
            let predicate = combine_predicates(preds);
            LogicalPlanBuilder::from_plan(lp).filter(predicate).build()
        }
    }

    /// Wraps a rebuilt node with one filter carrying the AND of the local
    /// predicates, if there are any.
    fn finish_node(&self, local_predicates: Vec<Expr>, builder: LogicalPlanBuilder) -> (r:
        LogicalPlan)
        ensures
            r@ == emit_local(builder.plan@, local_predicates@),
    {
        if local_predicates.len() > 0 {
            let predicate = combine_predicates(local_predicates);
            builder.filter(predicate).build()
        } else {
            builder.build()
        }
    }

    /// Splits the accumulator against one schema: predicates over columns
    /// the schema resolves stay accumulated, the rest come back as local
    /// filters.
    fn split_pushdown_and_local(&self, acc_predicates: PredicateAcc, schema: &Schema) -> (r: (
        Vec<Expr>,
        PredicateAcc,
    ))
        ensures
            (r.0@, r.1@) == local_split(acc_predicates@, *schema),
    {
        let ghost acc0 = acc_predicates@;
        let mut local: Vec<Expr> = Vec::new();
        let mut kept = PredicateAcc::new();
        let mut i: usize = 0;
        while i < acc_predicates.entries.len()
            invariant
                acc_predicates@ == acc0,
                0 <= i <= acc0.len(),
                (local@, kept@) == local_split(acc0.take(i as int), *schema),
            decreases acc0.len() - i,
        {
            let entry = &acc_predicates.entries[i];
            if check_down_node(&entry.predicate, schema) {
                kept.entries.push(
                    PredicateEntry {
                        key: clone_key(&entry.key),
                        predicate: clone_expr(&entry.predicate),
                    },
                );
            } else {
                local.push(clone_expr(&entry.predicate));
            }
            proof {
                assert(acc0.take(i + 1).drop_last() =~= acc0.take(i as int));
                assert(acc0.take(i + 1).last() == acc0[i as int]);
            }
            i += 1;
        }
        proof {
            assert(acc0.take(acc0.len() as int) =~= acc0);
        }
        (local, kept)
    }

    /// The recursive rewrite: consumes a subtree and the accumulated
    /// filters above it, and returns the rewritten subtree, or the error
    /// that abandons the pass.
    pub fn push_down(&self, logical_plan: LogicalPlan, acc_predicates: PredicateAcc) -> (r:
        Result<LogicalPlan, OptimizerError>)
        ensures
            result_view(r) == push_spec(logical_plan@, acc_predicates@),
        decreases logical_plan,
    {
        let ghost acc0 = acc_predicates@;
        match logical_plan {
            LogicalPlan::Selection { predicate, input } => {
                match predicate_key(&predicate) {
                    Ok(key) => {
                        let mut acc_predicates = acc_predicates;
                        acc_predicates.insert_and_combine(key, predicate);
                        self.push_down(*input, acc_predicates)
                    },
                    Err(e) => Err(e),
                }
            },
            LogicalPlan::Projection { expr, input, schema } => {
                if !has_projection_below(&input) {
                    match self.push_down(*input, PredicateAcc::new()) {
                        Ok(inner) => {
                            let builder = LogicalPlanBuilder::from_plan(inner).project(
                                expr,
                                schema,
                            );
                            Ok(self.finish_node(acc_predicates.predicates(), builder))
                        },
                        Err(e) => Err(e),
                    }
                } else {
                    let mut acc_predicates = acc_predicates;
                    let mut local: Vec<Expr> = Vec::new();
                    let mut i: usize = 0;
                    while i < expr.len()
                        invariant
                            0 <= i <= expr@.len(),
                            (acc_predicates@, local@) == alias_fold(expr@.take(i as int), acc0),
                        decreases expr@.len() - i,
                    {
                        match &expr[i] {
                            Expr::Alias(aliased, name) => {
                                let key = Key::Column(name.clone());
                                match acc_predicates.take_out(&key) {
                                    Some(p) => {
                                        match expr_root_column(&**aliased) {
                                            RootColumn::Single(new_name) => {
                                                let renamed = rename_expr_root_name(
                                                    &p,
                                                    &new_name,
                                                );
                                                acc_predicates.insert_and_combine(
                                                    Key::Column(new_name),
                                                    renamed,
                                                );
                                            },
                                            _ => {
                                                local.push(p);
                                            },
                                        }
                                    },
                                    None => {},
                                }
                            },
                            _ => {},
                        }
                        proof {
                            assert(expr@.take(i + 1).drop_last() =~= expr@.take(i as int));
                            assert(expr@.take(i + 1).last() == expr@[i as int]);
                        }
                        i += 1;
                    }
                    proof {
                        assert(expr@.take(expr@.len() as int) =~= expr@);
                    }
                    match self.push_down(*input, acc_predicates) {
                        Ok(inner) => {
                            let builder = LogicalPlanBuilder::from_plan(inner).project(
                                expr,
                                schema,
                            );
                            Ok(self.finish_node(local, builder))
                        },
                        Err(e) => Err(e),
                    }
                }
            },
            LogicalPlan::LocalProjection { expr, input, schema } => {
                match self.push_down(*input, acc_predicates) {
                    Ok(inner) => {
                        let mut kept: Vec<Expr> = Vec::new();
                        let input_schema = inner.schema();
                        let mut i: usize = 0;
                        while i < expr.len()
                            invariant
                                0 <= i <= expr@.len(),
                                kept@ == keep_refs(expr@.take(i as int), *input_schema),
                            decreases expr@.len() - i,
                        {
                            if check_down_node(&expr[i], input_schema) {
                                kept.push(clone_expr(&expr[i]));
                            }
                            proof {
                                assert(expr@.take(i + 1).drop_last() =~= expr@.take(i as int));
                                assert(expr@.take(i + 1).last() == expr@[i as int]);
                            }
                            i += 1;
                        }
                        proof {
                            assert(expr@.take(expr@.len() as int) =~= expr@);
                        }
                        Ok(
                            LogicalPlanBuilder::from_plan(inner).project_local(
                                kept,
                                schema,
                            ).build(),
                        )
                    },
                    Err(e) => Err(e),
                }
            },
            LogicalPlan::DataFrameScan { df, schema } => {
                let lp = LogicalPlan::DataFrameScan { df, schema };
                Ok(self.finish_at_leaf(lp, acc_predicates))
            },
            LogicalPlan::CsvScan {
                path,
                schema,
                has_header,
                delimiter,
                ignore_errors,
                skip_rows,
                stop_after_n_rows,
                with_columns,
            } => {
                let lp = LogicalPlan::CsvScan {
                    path,
                    schema,
                    has_header,
                    delimiter,
                    ignore_errors,
                    skip_rows,
                    stop_after_n_rows,
                    with_columns,
                };
                Ok(self.finish_at_leaf(lp, acc_predicates))
            },
            LogicalPlan::DataFrameOp { input, operation } => {
                match self.push_down(*input, acc_predicates) {
                    Ok(inner) => Ok(
                        LogicalPlan::DataFrameOp { input: Box::new(inner), operation },
                    ),
                    Err(e) => Err(e),
                }
            },
            LogicalPlan::Distinct { input, subset, maintain_order } => {
                let mut pushable = PredicateAcc::new();
                let mut local: Vec<Expr> = Vec::new();
                let mut i: usize = 0;
                while i < acc_predicates.entries.len()
                    invariant
                        acc_predicates@ == acc0,
                        0 <= i <= acc0.len(),
                        (pushable@, local@) == distinct_split(acc0.take(i as int)),
                    decreases acc0.len() - i,
                {
                    let entry = &acc_predicates.entries[i];
                    if has_expr_kind(&entry.predicate, ExprKind::Binary) {
                        local.push(clone_expr(&entry.predicate));
                    } else {
                        pushable.entries.push(
                            PredicateEntry {
                                key: clone_key(&entry.key),
                                predicate: clone_expr(&entry.predicate),
                            },
                        );
                    }
                    proof {
                        assert(acc0.take(i + 1).drop_last() =~= acc0.take(i as int));
                        assert(acc0.take(i + 1).last() == acc0[i as int]);
                    }
                    i += 1;
                }
                proof {
                    assert(acc0.take(acc0.len() as int) =~= acc0);
                }
                match self.push_down(*input, pushable) {
                    Ok(inner) => {
                        let lp = LogicalPlan::Distinct {
                            input: Box::new(inner),
                            subset,
                            maintain_order,
                        };
                        Ok(self.finish_node(local, LogicalPlanBuilder::from_plan(lp)))
                    },
                    Err(e) => Err(e),
                }
            },
            LogicalPlan::Aggregate { input, keys, aggs, schema } => {
                match self.push_down(*input, PredicateAcc::new()) {
                    Ok(inner) => {
                        let lp = LogicalPlan::Aggregate {
                            input: Box::new(inner),
                            keys,
                            aggs,
                            schema,
                        };
                        Ok(self.finish_at_leaf(lp, acc_predicates))
                    },
                    Err(e) => Err(e),
                }
            },
            LogicalPlan::Join { input_left, input_right, left_on, right_on, how, schema } => {
                let mut pushdown_left = PredicateAcc::new();
                let mut pushdown_right = PredicateAcc::new();
                let mut local: Vec<Expr> = Vec::new();
                let schema_left = input_left.schema();
                let schema_right = input_right.schema();
                let mut i: usize = 0;
                while i < acc_predicates.entries.len()
                    invariant
                        acc_predicates@ == acc0,
                        0 <= i <= acc0.len(),
                        (pushdown_left@, pushdown_right@, local@) == join_split(
                            acc0.take(i as int),
                            how,
                            *schema_left,
                            *schema_right,
                        ),
                    decreases acc0.len() - i,
                {
                    let entry = &acc_predicates.entries[i];
                    if has_expr_kind(&entry.predicate, ExprKind::UniqueTest) || has_expr_kind(
                        &entry.predicate,
                        ExprKind::DuplicatedTest,
                    ) {
                        local.push(clone_expr(&entry.predicate));
                    } else if (how == JoinType::Outer || how == JoinType::Left) && (
                    has_expr_kind(&entry.predicate, ExprKind::NotNullTest) || has_expr_kind(
                        &entry.predicate,
                        ExprKind::NullTest,
                    )) {
                        local.push(clone_expr(&entry.predicate));
                    } else {
                        let in_left = check_down_node(&entry.predicate, schema_left);
                        let in_right = check_down_node(&entry.predicate, schema_right);
                        if in_left {
                            pushdown_left.insert_and_combine(
                                clone_key(&entry.key),
                                clone_expr(&entry.predicate),
                            );
                        }
                        if in_right {
                            pushdown_right.insert_and_combine(
                                clone_key(&entry.key),
                                clone_expr(&entry.predicate),
                            );
                        }
                        if !in_left && !in_right {
                            local.push(clone_expr(&entry.predicate));
                        }
                    }
                    proof {
                        assert(acc0.take(i + 1).drop_last() =~= acc0.take(i as int));
                        assert(acc0.take(i + 1).last() == acc0[i as int]);
                    }
                    i += 1;
                }
                proof {
                    assert(acc0.take(acc0.len() as int) =~= acc0);
                }
                match self.push_down(*input_left, pushdown_left) {
                    Ok(lp_left) => match self.push_down(*input_right, pushdown_right) {
                        Ok(lp_right) => {
                            let builder = LogicalPlanBuilder::from_plan(lp_left).join(
                                lp_right,
                                how,
                                left_on,
                                right_on,
                                schema,
                            );
                            Ok(self.finish_node(local, builder))
                        },
                        Err(e) => Err(e),
                    },
                    Err(e) => Err(e),
                }
            },
            LogicalPlan::HStack { input, exprs, schema } => {
                let split = self.split_pushdown_and_local(acc_predicates, input.schema());
                match self.push_down(*input, split.1) {
                    Ok(inner) => {
                        let builder = LogicalPlanBuilder::from_plan(inner).with_columns(
                            exprs,
                            schema,
                        );
                        Ok(self.finish_node(split.0, builder))
                    },
                    Err(e) => Err(e),
                }
            },
        }
    }

    /// Runs the pass on a whole plan, starting from an empty accumulator.
    /// On success the result is exactly the rewrite the transition relation
    /// describes; on failure no partial plan is returned.
    pub fn optimize(&self, logical_plan: LogicalPlan) -> (r: Result<LogicalPlan, OptimizerError>)
        ensures
            result_view(r) == push_spec(logical_plan@, Seq::<PredicateEntry>::empty()),
    {
        self.push_down(logical_plan, PredicateAcc::new())
    }
}

} // verus!
