use vstd::prelude::*;
use crate::acc::{
    acc_index_of, acc_insert, acc_preds, combine_seq, spec_key_eq, Key, PredicateEntry,
    lemma_acc_index_of,
};
use crate::expr::{spec_and, spec_contains_kind, Expr, ExprKind};
use crate::plan::{spec_has_projection, spec_plan_schema, DataFrameOperation, JoinType, PlanV};
use crate::pushdown::{
    alias_fold, distinct_split, emit_acc, emit_local, join_split, join_step, keep_refs,
    local_split, push_spec, spec_key_for, OptimizerError,
};
use crate::schema::spec_refs_only;

verus! {

/// A plan node with no plan-node children: a data source.
pub open spec fn is_leaf(p: PlanV) -> bool {
    p matches PlanV::DataFrameScan { .. } || p matches PlanV::CsvScan { .. }
}

/// At most one accumulator entry per key.
pub open spec fn acc_keys_unique(s: Seq<PredicateEntry>) -> bool {
    forall|i: int, j: int|
        0 <= i < j < s.len() ==> !spec_key_eq(s[i].key, s[j].key)
}

/// Merging preserves the accumulator's invariant: a key never gains a
/// second entry, whether it was present or not.
pub proof fn lemma_insert_keeps_keys_unique(s: Seq<PredicateEntry>, k: Key, p: Expr)
    requires
        acc_keys_unique(s),
    ensures
        acc_keys_unique(acc_insert(s, k, p)),
{
    lemma_acc_index_of(s, k);
    let i = acc_index_of(s, k);
    if i >= 0 {
        let s2 = acc_insert(s, k, p);
        assert forall|a: int, b: int| 0 <= a < b < s2.len() implies !spec_key_eq(
            s2[a].key,
            s2[b].key,
        ) by {
            assert(s2[a].key == s[a].key);
            assert(s2[b].key == s[b].key);
        }
    }
}

/// A predicate accumulated above a leaf is re-materialized as exactly one
/// filter wrapped directly around the leaf.
pub proof fn lemma_push_at_leaf(p: PlanV, acc: Seq<PredicateEntry>)
    requires
        is_leaf(p),
    ensures
        push_spec(p, acc) == Ok::<PlanV, OptimizerError>(emit_acc(p, acc)),
{
    match p {
        PlanV::DataFrameScan { df, schema } => {},
        PlanV::CsvScan { .. } => {},
        _ => {},
    }
}

/// The rewrite of a single keyed filter above any subtree starts from the
/// one-entry accumulator holding its predicate.
pub proof fn lemma_selection_dissolves(pred: Expr, input: PlanV, k: Key)
    requires
        spec_key_for(pred) == Some(k),
    ensures
        push_spec(
            PlanV::Selection { predicate: pred, input: Box::new(input) },
            Seq::<PredicateEntry>::empty(),
        ) == push_spec(input, seq![PredicateEntry { key: k, predicate: pred }]),
{
    assert(acc_index_of(Seq::<PredicateEntry>::empty(), k) == -1);
    assert(acc_insert(Seq::<PredicateEntry>::empty(), k, pred) =~= seq![
        PredicateEntry { key: k, predicate: pred },
    ]);
}

/// The one-entry accumulator re-materializes as a filter carrying exactly
/// its predicate.
pub proof fn lemma_emit_single(lp: PlanV, k: Key, pred: Expr)
    ensures
        emit_acc(lp, seq![PredicateEntry { key: k, predicate: pred }]) == (PlanV::Selection {
            predicate: pred,
            input: Box::new(lp),
        }),
{
    let s = seq![PredicateEntry { key: k, predicate: pred }];
    assert(acc_preds(s) =~= seq![pred]);
    assert(combine_seq(seq![pred]) == pred);
}

/// Leaf absorption: a filter over a scan collapses to the scan wrapped
/// directly by one filter node carrying the same predicate; no separate
/// Selection layer remains between them and none is added above.
pub proof fn lemma_leaf_absorption(pred: Expr, leaf: PlanV, k: Key)
    requires
        is_leaf(leaf),
        spec_key_for(pred) == Some(k),
        spec_refs_only(pred, spec_plan_schema(leaf)),
    ensures
        push_spec(
            PlanV::Selection { predicate: pred, input: Box::new(leaf) },
            Seq::<PredicateEntry>::empty(),
        ) == Ok::<PlanV, OptimizerError>(
            PlanV::Selection { predicate: pred, input: Box::new(leaf) },
        ),
{
    lemma_selection_dissolves(pred, leaf, k);
    lemma_push_at_leaf(leaf, seq![PredicateEntry { key: k, predicate: pred }]);
    lemma_emit_single(leaf, k, pred);
}

/// Idempotence on a pushed-through filter: a keyed filter above a
/// transparent frame operation is pushed below the operation, and running
/// the pass again on that output changes nothing further.
pub proof fn lemma_idempotent_through_op(
    pred: Expr,
    op: DataFrameOperation,
    leaf: PlanV,
    k: Key,
)
    requires
        is_leaf(leaf),
        spec_key_for(pred) == Some(k),
    ensures
        ({
            let unrewritten = PlanV::Selection {
                predicate: pred,
                input: Box::new(PlanV::DataFrameOp { input: Box::new(leaf), operation: op }),
            };
            let rewritten = PlanV::DataFrameOp {
                input: Box::new(PlanV::Selection { predicate: pred, input: Box::new(leaf) }),
                operation: op,
            };
            push_spec(unrewritten, Seq::<PredicateEntry>::empty()) == Ok::<
                PlanV,
                OptimizerError,
            >(rewritten) && push_spec(rewritten, Seq::<PredicateEntry>::empty()) == Ok::<
                PlanV,
                OptimizerError,
            >(rewritten)
        }),
{
    let op_node = PlanV::DataFrameOp { input: Box::new(leaf), operation: op };
    lemma_selection_dissolves(pred, op_node, k);
    lemma_push_at_leaf(leaf, seq![PredicateEntry { key: k, predicate: pred }]);
    lemma_emit_single(leaf, k, pred);
    lemma_leaf_absorption_inner(pred, leaf, k);
}

/// Helper: the rewrite of a keyed filter above a leaf, without the schema
/// hypothesis (the accumulator absorbs the filter whatever its columns).
proof fn lemma_leaf_absorption_inner(pred: Expr, leaf: PlanV, k: Key)
    requires
        is_leaf(leaf),
        spec_key_for(pred) == Some(k),
    ensures
        push_spec(
            PlanV::Selection { predicate: pred, input: Box::new(leaf) },
            Seq::<PredicateEntry>::empty(),
        ) == Ok::<PlanV, OptimizerError>(
            PlanV::Selection { predicate: pred, input: Box::new(leaf) },
        ),
{
    lemma_selection_dissolves(pred, leaf, k);
    lemma_push_at_leaf(leaf, seq![PredicateEntry { key: k, predicate: pred }]);
    lemma_emit_single(leaf, k, pred);
}

/// Merge: two stacked filters keyed to the same column collapse into one
/// filter carrying the AND of both predicates, in merge order, wrapped
/// directly around the source.
pub proof fn lemma_merge(pred_a: Expr, pred_b: Expr, leaf: PlanV, ka: Key, kb: Key)
    requires
        is_leaf(leaf),
        spec_key_for(pred_a) == Some(ka),
        spec_key_for(pred_b) == Some(kb),
        spec_key_eq(ka, kb),
    ensures
        push_spec(
            PlanV::Selection {
                predicate: pred_a,
                input: Box::new(
                    PlanV::Selection { predicate: pred_b, input: Box::new(leaf) },
                ),
            },
            Seq::<PredicateEntry>::empty(),
        ) == Ok::<PlanV, OptimizerError>(
            PlanV::Selection { predicate: spec_and(pred_a, pred_b), input: Box::new(leaf) },
        ),
{
    let inner = PlanV::Selection { predicate: pred_b, input: Box::new(leaf) };
    lemma_selection_dissolves(pred_a, inner, ka);
    let s1 = seq![PredicateEntry { key: ka, predicate: pred_a }];
    assert(acc_index_of(s1, kb) == 0);
    let s2 = acc_insert(s1, kb, pred_b);
    assert(s2 =~= seq![PredicateEntry { key: ka, predicate: spec_and(pred_a, pred_b) }]);
    lemma_push_at_leaf(leaf, s2);
    lemma_emit_single(leaf, ka, spec_and(pred_a, pred_b));
}

/// Join safety: on an inner join, a predicate resolving only in the left
/// schema becomes a filter strictly inside the left subtree; nothing is
/// left directly above the join and the right subtree is untouched.
pub proof fn lemma_inner_join_left_pushdown(
    pred: Expr,
    left: PlanV,
    right: PlanV,
    left_on: String,
    right_on: String,
    schema: crate::schema::Schema,
    k: Key,
)
    requires
        is_leaf(left),
        is_leaf(right),
        spec_key_for(pred) == Some(k),
        !spec_contains_kind(pred, ExprKind::UniqueTest),
        !spec_contains_kind(pred, ExprKind::DuplicatedTest),
        spec_refs_only(pred, spec_plan_schema(left)),
        !spec_refs_only(pred, spec_plan_schema(right)),
    ensures
        push_spec(
            PlanV::Selection {
                predicate: pred,
                input: Box::new(
                    PlanV::Join {
                        input_left: Box::new(left),
                        input_right: Box::new(right),
                        left_on,
                        right_on,
                        how: JoinType::Inner,
                        schema,
                    },
                ),
            },
            Seq::<PredicateEntry>::empty(),
        ) == Ok::<PlanV, OptimizerError>(
            PlanV::Join {
                input_left: Box::new(
                    PlanV::Selection { predicate: pred, input: Box::new(left) },
                ),
                input_right: Box::new(right),
                left_on,
                right_on,
                how: JoinType::Inner,
                schema,
            },
        ),
{
    let join = PlanV::Join {
        input_left: Box::new(left),
        input_right: Box::new(right),
        left_on,
        right_on,
        how: JoinType::Inner,
        schema,
    };
    lemma_selection_dissolves(pred, join, k);
    let e0 = Seq::<PredicateEntry>::empty();
    let sl = spec_plan_schema(left);
    let sr = spec_plan_schema(right);
    let s1 = seq![PredicateEntry { key: k, predicate: pred }];
    assert(s1.drop_last() =~= e0);
    let parts0 = join_split(e0, JoinType::Inner, sl, sr);
    assert(parts0.0 =~= e0);
    assert(parts0.1 =~= e0);
    assert(parts0.2 =~= Seq::<Expr>::empty());
    let parts = join_split(s1, JoinType::Inner, sl, sr);
    assert(parts == join_step(s1.last(), JoinType::Inner, sl, sr, parts0.0, parts0.1, parts0.2));
    assert(acc_index_of(e0, k) == -1);
    assert(parts.0 =~= s1);
    assert(parts.1 =~= e0);
    assert(parts.2 =~= Seq::<Expr>::empty());
    lemma_push_at_leaf(left, s1);
    lemma_push_at_leaf(right, e0);
    lemma_emit_single(left, k, pred);
    assert(acc_preds(e0) =~= Seq::<Expr>::empty());
}

/// Outer-join null safety: on a left join, a predicate containing an
/// is-not-null test over right-side columns stays as the one filter
/// directly above the join; neither subtree receives it.
pub proof fn lemma_left_join_null_safety(
    pred: Expr,
    left: PlanV,
    right: PlanV,
    left_on: String,
    right_on: String,
    schema: crate::schema::Schema,
    k: Key,
)
    requires
        selection_free(left),
        local_exprs_resolved(left),
        selection_free(right),
        local_exprs_resolved(right),
        spec_key_for(pred) == Some(k),
        !spec_contains_kind(pred, ExprKind::UniqueTest),
        !spec_contains_kind(pred, ExprKind::DuplicatedTest),
        spec_contains_kind(pred, ExprKind::NotNullTest),
        spec_refs_only(pred, spec_plan_schema(right)),
        !spec_refs_only(pred, spec_plan_schema(left)),
    ensures
        push_spec(
            PlanV::Selection {
                predicate: pred,
                input: Box::new(
                    PlanV::Join {
                        input_left: Box::new(left),
                        input_right: Box::new(right),
                        left_on,
                        right_on,
                        how: JoinType::Left,
                        schema,
                    },
                ),
            },
            Seq::<PredicateEntry>::empty(),
        ) == Ok::<PlanV, OptimizerError>(
            PlanV::Selection {
                predicate: pred,
                input: Box::new(
                    PlanV::Join {
                        input_left: Box::new(left),
                        input_right: Box::new(right),
                        left_on,
                        right_on,
                        how: JoinType::Left,
                        schema,
                    },
                ),
            },
        ),
{
    let join = PlanV::Join {
        input_left: Box::new(left),
        input_right: Box::new(right),
        left_on,
        right_on,
        how: JoinType::Left,
        schema,
    };
    lemma_selection_dissolves(pred, join, k);
    let e0 = Seq::<PredicateEntry>::empty();
    let sl = spec_plan_schema(left);
    let sr = spec_plan_schema(right);
    let s1 = seq![PredicateEntry { key: k, predicate: pred }];
    assert(s1.drop_last() =~= e0);
    let parts0 = join_split(e0, JoinType::Left, sl, sr);
    assert(parts0.0 =~= e0);
    assert(parts0.1 =~= e0);
    assert(parts0.2 =~= Seq::<Expr>::empty());
    let parts = join_split(s1, JoinType::Left, sl, sr);
    assert(parts == join_step(s1.last(), JoinType::Left, sl, sr, parts0.0, parts0.1, parts0.2));
    assert(parts.0 =~= e0);
    assert(parts.1 =~= e0);
    assert(parts.2 =~= seq![pred]);
    lemma_no_filters_no_change(left);
    lemma_no_filters_no_change(right);
    assert(acc_preds(e0) =~= Seq::<Expr>::empty());
    assert(combine_seq(seq![pred]) == pred);
}

/// Distinct correlation safety: a predicate of cross-column comparison
/// shape ends up applied directly above Distinct, and the input subtree is
/// untouched.
pub proof fn lemma_distinct_correlation_safety(
    pred: Expr,
    source: PlanV,
    subset: Option<Vec<String>>,
    maintain_order: bool,
    k: Key,
)
    requires
        selection_free(source),
        local_exprs_resolved(source),
        spec_key_for(pred) == Some(k),
        spec_contains_kind(pred, ExprKind::Binary),
    ensures
        push_spec(
            PlanV::Selection {
                predicate: pred,
                input: Box::new(
                    PlanV::Distinct { input: Box::new(source), subset, maintain_order },
                ),
            },
            Seq::<PredicateEntry>::empty(),
        ) == Ok::<PlanV, OptimizerError>(
            PlanV::Selection {
                predicate: pred,
                input: Box::new(
                    PlanV::Distinct { input: Box::new(source), subset, maintain_order },
                ),
            },
        ),
{
    let distinct = PlanV::Distinct { input: Box::new(source), subset, maintain_order };
    lemma_selection_dissolves(pred, distinct, k);
    let s1 = seq![PredicateEntry { key: k, predicate: pred }];
    assert(s1.drop_last() =~= Seq::<PredicateEntry>::empty());
    lemma_no_filters_no_change(source);
    assert(acc_preds(Seq::<PredicateEntry>::empty()) =~= Seq::<Expr>::empty());
    assert(combine_seq(seq![pred]) == pred);
}

/// Aggregate boundary: a predicate accumulated above an aggregation is
/// applied directly above it; the aggregation's input subtree is unaffected.
pub proof fn lemma_aggregate_boundary(
    pred: Expr,
    source: PlanV,
    keys: Vec<String>,
    aggs: Seq<Expr>,
    schema: crate::schema::Schema,
    k: Key,
)
    requires
        selection_free(source),
        local_exprs_resolved(source),
        spec_key_for(pred) == Some(k),
    ensures
        push_spec(
            PlanV::Selection {
                predicate: pred,
                input: Box::new(
                    PlanV::Aggregate { input: Box::new(source), keys, aggs, schema },
                ),
            },
            Seq::<PredicateEntry>::empty(),
        ) == Ok::<PlanV, OptimizerError>(
            PlanV::Selection {
                predicate: pred,
                input: Box::new(
                    PlanV::Aggregate { input: Box::new(source), keys, aggs, schema },
                ),
            },
        ),
{
    let agg = PlanV::Aggregate { input: Box::new(source), keys, aggs, schema };
    lemma_selection_dissolves(pred, agg, k);
    let s1 = seq![PredicateEntry { key: k, predicate: pred }];
    lemma_no_filters_no_change(source);
    lemma_emit_single(agg_after(source, keys, aggs, schema), k, pred);
}

/// The aggregation node as it stands after its input came back unchanged.
pub open spec fn agg_after(source: PlanV, keys: Vec<String>, aggs: Seq<Expr>, schema:
    crate::schema::Schema) -> PlanV {
    PlanV::Aggregate { input: Box::new(source), keys, aggs, schema }
}

/// No filter node anywhere in the plan.
pub open spec fn selection_free(p: PlanV) -> bool
    decreases p,
{
    match p {
        PlanV::Selection { .. } => false,
        PlanV::Projection { input, .. } => selection_free(*input),
        PlanV::LocalProjection { input, .. } => selection_free(*input),
        PlanV::DataFrameScan { .. } => true,
        PlanV::CsvScan { .. } => true,
        PlanV::DataFrameOp { input, .. } => selection_free(*input),
        PlanV::Distinct { input, .. } => selection_free(*input),
        PlanV::Aggregate { input, .. } => selection_free(*input),
        PlanV::Join { input_left, input_right, .. } => selection_free(*input_left)
            && selection_free(*input_right),
        PlanV::HStack { input, .. } => selection_free(*input),
    }
}

/// Every local projection's expressions resolve in its own input's schema.
pub open spec fn local_exprs_resolved(p: PlanV) -> bool
    decreases p,
{
    match p {
        PlanV::Selection { input, .. } => local_exprs_resolved(*input),
        PlanV::Projection { input, .. } => local_exprs_resolved(*input),
        PlanV::LocalProjection { expr, input, .. } => local_exprs_resolved(*input) && forall|
            i: int,
        | 0 <= i < expr.len() ==> spec_refs_only(#[trigger] expr[i], spec_plan_schema(*input)),
        PlanV::DataFrameScan { .. } => true,
        PlanV::CsvScan { .. } => true,
        PlanV::DataFrameOp { input, .. } => local_exprs_resolved(*input),
        PlanV::Distinct { input, .. } => local_exprs_resolved(*input),
        PlanV::Aggregate { input, .. } => local_exprs_resolved(*input),
        PlanV::Join { input_left, input_right, .. } => local_exprs_resolved(*input_left)
            && local_exprs_resolved(*input_right),
        PlanV::HStack { input, .. } => local_exprs_resolved(*input),
    }
}

/// An empty accumulator passes through every projection expression
/// unchanged: there is nothing an alias could re-key.
pub proof fn lemma_alias_fold_empty(exprs: Seq<Expr>)
    ensures
        alias_fold(exprs, Seq::<PredicateEntry>::empty()) == (
            Seq::<PredicateEntry>::empty(),
            Seq::<Expr>::empty(),
        ),
    decreases exprs.len(),
{
    let e0 = Seq::<PredicateEntry>::empty();
    if exprs.len() > 0 {
        lemma_alias_fold_empty(exprs.drop_last());
        match exprs.last() {
            Expr::Alias(inner, name) => {
                assert(acc_index_of(e0, Key::Column(name)) == -1);
            },
            _ => {},
        }
    }
}

/// Expressions that all resolve in the schema are all kept, in order.
pub proof fn lemma_keep_refs_all(exprs: Seq<Expr>, schema: crate::schema::Schema)
    requires
        forall|i: int| 0 <= i < exprs.len() ==> spec_refs_only(#[trigger] exprs[i], schema),
    ensures
        keep_refs(exprs, schema) == exprs,
    decreases exprs.len(),
{
    if exprs.len() > 0 {
        lemma_keep_refs_all(exprs.drop_last(), schema);
        assert(exprs.drop_last().push(exprs.last()) =~= exprs);
    }
}

/// Idempotence on filter-free plans: a plan holding no filter node, whose
/// local projections are well formed, comes back from the pass unchanged;
/// in particular the pass never invents a filter out of nothing.
pub proof fn lemma_no_filters_no_change(p: PlanV)
    requires
        selection_free(p),
        local_exprs_resolved(p),
    ensures
        push_spec(p, Seq::<PredicateEntry>::empty()) == Ok::<PlanV, OptimizerError>(p),
    decreases p,
{
    let e0 = Seq::<PredicateEntry>::empty();
    assert(acc_preds(e0) =~= Seq::<Expr>::empty());
    match p {
        PlanV::Selection { .. } => {},
        PlanV::Projection { expr, input, schema } => {
            lemma_no_filters_no_change(*input);
            if spec_has_projection(*input) {
                lemma_alias_fold_empty(expr);
            }
        },
        PlanV::LocalProjection { expr, input, schema } => {
            lemma_no_filters_no_change(*input);
            lemma_keep_refs_all(expr, spec_plan_schema(*input));
        },
        PlanV::DataFrameScan { .. } => {},
        PlanV::CsvScan { .. } => {},
        PlanV::DataFrameOp { input, .. } => {
            lemma_no_filters_no_change(*input);
        },
        PlanV::Distinct { input, .. } => {
            lemma_no_filters_no_change(*input);
        },
        PlanV::Aggregate { input, .. } => {
            lemma_no_filters_no_change(*input);
        },
        PlanV::Join { input_left, input_right, .. } => {
            lemma_no_filters_no_change(*input_left);
            lemma_no_filters_no_change(*input_right);
        },
        PlanV::HStack { input, .. } => {
            lemma_no_filters_no_change(*input);
        },
    }
}

/// The plan with every filter node dissolved and every local projection's
/// expression list blanked: the shape the pass may not disturb.
pub open spec fn skeleton(p: PlanV) -> PlanV
    decreases p,
{
    match p {
        PlanV::Selection { predicate, input } => skeleton(*input),
        PlanV::Projection { expr, input, schema } => PlanV::Projection {
            expr,
            input: Box::new(skeleton(*input)),
            schema,
        },
        PlanV::LocalProjection { expr, input, schema } => PlanV::LocalProjection {
            expr: Seq::<Expr>::empty(),
            input: Box::new(skeleton(*input)),
            schema,
        },
        PlanV::DataFrameScan { df, schema } => PlanV::DataFrameScan { df, schema },
        PlanV::CsvScan {
            path,
            schema,
            has_header,
            delimiter,
            ignore_errors,
            skip_rows,
            stop_after_n_rows,
            with_columns,
        } => PlanV::CsvScan {
            path,
            schema,
            has_header,
            delimiter,
            ignore_errors,
            skip_rows,
            stop_after_n_rows,
            with_columns,
        },
        PlanV::DataFrameOp { input, operation } => PlanV::DataFrameOp {
            input: Box::new(skeleton(*input)),
            operation,
        },
        PlanV::Distinct { input, subset, maintain_order } => PlanV::Distinct {
            input: Box::new(skeleton(*input)),
            subset,
            maintain_order,
        },
        PlanV::Aggregate { input, keys, aggs, schema } => PlanV::Aggregate {
            input: Box::new(skeleton(*input)),
            keys,
            aggs,
            schema,
        },
        PlanV::Join { input_left, input_right, left_on, right_on, how, schema } => PlanV::Join {
            input_left: Box::new(skeleton(*input_left)),
            input_right: Box::new(skeleton(*input_right)),
            left_on,
            right_on,
            how,
            schema,
        },
        PlanV::HStack { input, exprs, schema } => PlanV::HStack {
            input: Box::new(skeleton(*input)),
            exprs,
            schema,
        },
    }
}

/// Wrapping a plan in a filter does not change its skeleton.
pub proof fn lemma_skeleton_emit(lp: PlanV, ps: Seq<Expr>)
    ensures
        skeleton(emit_local(lp, ps)) == skeleton(lp),
{
}

/// Structural isomorphism: whatever the accumulator holds, a successful
/// pass returns a plan with exactly the input's skeleton — filter nodes are
/// relocated, merged or removed, and nothing else moves.
pub proof fn lemma_pushdown_preserves_skeleton(p: PlanV, acc: Seq<PredicateEntry>)
    ensures
        match push_spec(p, acc) {
            Ok(q) => skeleton(q) == skeleton(p),
            Err(_) => true,
        },
    decreases p,
{
    let e0 = Seq::<PredicateEntry>::empty();
    match p {
        PlanV::Selection { predicate, input } => {
            match spec_key_for(predicate) {
                Some(k) => {
                    lemma_pushdown_preserves_skeleton(*input, acc_insert(acc, k, predicate));
                },
                None => {},
            }
        },
        PlanV::Projection { expr, input, schema } => {
            if !spec_has_projection(*input) {
                lemma_pushdown_preserves_skeleton(*input, e0);
                match push_spec(*input, e0) {
                    Ok(inner) => {
                        lemma_skeleton_emit(
                            PlanV::Projection { expr, input: Box::new(inner), schema },
                            acc_preds(acc),
                        );
                    },
                    Err(_) => {},
                }
            } else {
                let folded = alias_fold(expr, acc);
                lemma_pushdown_preserves_skeleton(*input, folded.0);
                match push_spec(*input, folded.0) {
                    Ok(inner) => {
                        lemma_skeleton_emit(
                            PlanV::Projection { expr, input: Box::new(inner), schema },
                            folded.1,
                        );
                    },
                    Err(_) => {},
                }
            }
        },
        PlanV::LocalProjection { expr, input, schema } => {
            lemma_pushdown_preserves_skeleton(*input, acc);
        },
        PlanV::DataFrameScan { df, schema } => {
            lemma_skeleton_emit(PlanV::DataFrameScan { df, schema }, acc_preds(acc));
        },
        PlanV::CsvScan { .. } => {
            lemma_skeleton_emit(p, acc_preds(acc));
        },
        PlanV::DataFrameOp { input, operation } => {
            lemma_pushdown_preserves_skeleton(*input, acc);
        },
        PlanV::Distinct { input, subset, maintain_order } => {
            let parts = distinct_split(acc);
            lemma_pushdown_preserves_skeleton(*input, parts.0);
            match push_spec(*input, parts.0) {
                Ok(inner) => {
                    lemma_skeleton_emit(
                        PlanV::Distinct { input: Box::new(inner), subset, maintain_order },
                        parts.1,
                    );
                },
                Err(_) => {},
            }
        },
        PlanV::Aggregate { input, keys, aggs, schema } => {
            lemma_pushdown_preserves_skeleton(*input, e0);
            match push_spec(*input, e0) {
                Ok(inner) => {
                    lemma_skeleton_emit(
                        PlanV::Aggregate { input: Box::new(inner), keys, aggs, schema },
                        acc_preds(acc),
                    );
                },
                Err(_) => {},
            }
        },
        PlanV::Join { input_left, input_right, left_on, right_on, how, schema } => {
            let parts = join_split(
                acc,
                how,
                spec_plan_schema(*input_left),
                spec_plan_schema(*input_right),
            );
            lemma_pushdown_preserves_skeleton(*input_left, parts.0);
            lemma_pushdown_preserves_skeleton(*input_right, parts.1);
            match push_spec(*input_left, parts.0) {
                Ok(lp_left) => match push_spec(*input_right, parts.1) {
                    Ok(lp_right) => {
                        lemma_skeleton_emit(
                            PlanV::Join {
                                input_left: Box::new(lp_left),
                                input_right: Box::new(lp_right),
                                left_on,
                                right_on,
                                how,
                                schema,
                            },
                            parts.2,
                        );
                    },
                    Err(_) => {},
                },
                Err(_) => {},
            }
        },
        PlanV::HStack { input, exprs, schema } => {
            let parts = local_split(acc, spec_plan_schema(*input));
            lemma_pushdown_preserves_skeleton(*input, parts.1);
            match push_spec(*input, parts.1) {
                Ok(inner) => {
                    lemma_skeleton_emit(
                        PlanV::HStack { input: Box::new(inner), exprs, schema },
                        parts.0,
                    );
                },
                Err(_) => {},
            }
        },
    }
}

/// No filter node sits directly above another: every conjunction of
/// predicates that land in one place is merged into a single filter.
pub open spec fn no_stacked_filters(p: PlanV) -> bool
    decreases p,
{
    match p {
        PlanV::Selection { predicate, input } => !(*input matches PlanV::Selection { .. })
            && no_stacked_filters(*input),
        PlanV::Projection { input, .. } => no_stacked_filters(*input),
        PlanV::LocalProjection { input, .. } => no_stacked_filters(*input),
        PlanV::DataFrameScan { .. } => true,
        PlanV::CsvScan { .. } => true,
        PlanV::DataFrameOp { input, .. } => no_stacked_filters(*input),
        PlanV::Distinct { input, .. } => no_stacked_filters(*input),
        PlanV::Aggregate { input, .. } => no_stacked_filters(*input),
        PlanV::Join { input_left, input_right, .. } => no_stacked_filters(*input_left)
            && no_stacked_filters(*input_right),
        PlanV::HStack { input, .. } => no_stacked_filters(*input),
    }
}

/// Wrapping a non-filter node whose subtree is merged keeps it merged.
pub proof fn lemma_emit_keeps_merged(lp: PlanV, ps: Seq<Expr>)
    requires
        !(lp matches PlanV::Selection { .. }),
        no_stacked_filters(lp),
    ensures
        no_stacked_filters(emit_local(lp, ps)),
{
}

/// Merged output: however the accumulator stands, a successful pass never
/// leaves one filter node directly above another anywhere in the plan.
pub proof fn lemma_output_has_merged_filters(p: PlanV, acc: Seq<PredicateEntry>)
    ensures
        match push_spec(p, acc) {
            Ok(q) => no_stacked_filters(q),
            Err(_) => true,
        },
    decreases p,
{
    let e0 = Seq::<PredicateEntry>::empty();
    match p {
        PlanV::Selection { predicate, input } => {
            match spec_key_for(predicate) {
                Some(k) => {
                    lemma_output_has_merged_filters(*input, acc_insert(acc, k, predicate));
                },
                None => {},
            }
        },
        PlanV::Projection { expr, input, schema } => {
            if !spec_has_projection(*input) {
                lemma_output_has_merged_filters(*input, e0);
                match push_spec(*input, e0) {
                    Ok(inner) => {
                        lemma_emit_keeps_merged(
                            PlanV::Projection { expr, input: Box::new(inner), schema },
                            acc_preds(acc),
                        );
                    },
                    Err(_) => {},
                }
            } else {
                let folded = alias_fold(expr, acc);
                lemma_output_has_merged_filters(*input, folded.0);
                match push_spec(*input, folded.0) {
                    Ok(inner) => {
                        lemma_emit_keeps_merged(
                            PlanV::Projection { expr, input: Box::new(inner), schema },
                            folded.1,
                        );
                    },
                    Err(_) => {},
                }
            }
        },
        PlanV::LocalProjection { expr, input, schema } => {
            lemma_output_has_merged_filters(*input, acc);
        },
        PlanV::DataFrameScan { df, schema } => {
            lemma_emit_keeps_merged(PlanV::DataFrameScan { df, schema }, acc_preds(acc));
        },
        PlanV::CsvScan { .. } => {
            lemma_emit_keeps_merged(p, acc_preds(acc));
        },
        PlanV::DataFrameOp { input, operation } => {
            lemma_output_has_merged_filters(*input, acc);
        },
        PlanV::Distinct { input, subset, maintain_order } => {
            let parts = distinct_split(acc);
            lemma_output_has_merged_filters(*input, parts.0);
            match push_spec(*input, parts.0) {
                Ok(inner) => {
                    lemma_emit_keeps_merged(
                        PlanV::Distinct { input: Box::new(inner), subset, maintain_order },
                        parts.1,
                    );
                },
                Err(_) => {},
            }
        },
        PlanV::Aggregate { input, keys, aggs, schema } => {
            lemma_output_has_merged_filters(*input, e0);
            match push_spec(*input, e0) {
                Ok(inner) => {
                    lemma_emit_keeps_merged(
                        PlanV::Aggregate { input: Box::new(inner), keys, aggs, schema },
                        acc_preds(acc),
                    );
                },
                Err(_) => {},
            }
        },
        PlanV::Join { input_left, input_right, left_on, right_on, how, schema } => {
            let parts = join_split(
                acc,
                how,
                spec_plan_schema(*input_left),
                spec_plan_schema(*input_right),
            );
            lemma_output_has_merged_filters(*input_left, parts.0);
            lemma_output_has_merged_filters(*input_right, parts.1);
            match push_spec(*input_left, parts.0) {
                Ok(lp_left) => match push_spec(*input_right, parts.1) {
                    Ok(lp_right) => {
                        lemma_emit_keeps_merged(
                            PlanV::Join {
                                input_left: Box::new(lp_left),
                                input_right: Box::new(lp_right),
                                left_on,
                                right_on,
                                how,
                                schema,
                            },
                            parts.2,
                        );
                    },
                    Err(_) => {},
                },
                Err(_) => {},
            }
        },
        PlanV::HStack { input, exprs, schema } => {
            let parts = local_split(acc, spec_plan_schema(*input));
            lemma_output_has_merged_filters(*input, parts.1);
            match push_spec(*input, parts.1) {
                Ok(inner) => {
                    lemma_emit_keeps_merged(
                        PlanV::HStack { input: Box::new(inner), exprs, schema },
                        parts.0,
                    );
                },
                Err(_) => {},
            }
        },
    }
}

} // verus!
