use vstd::prelude::*;
use crate::expr::Expr;
use crate::schema::Schema;

verus! {

/// How a join combines its two inputs.
#[derive(Clone, Copy, PartialEq, Eq, Structural, Debug)]
pub enum JoinType {
    Inner,
    Left,
    Outer,
}

/// A whole-frame operation a plan can wrap around its input; the pushdown is
/// transparent to it and never looks inside.
#[derive(Clone, Copy, PartialEq, Eq, Structural, Debug)]
pub enum DataFrameOperation {
    Reverse,
    DropDuplicateRows,
}

/// A declarative plan tree, each node annotated with its schema when it is
/// built. The optimizer consumes one tree and produces a structurally new
/// one; nothing is mutated in place.
#[derive(Debug, PartialEq)]
pub enum LogicalPlan {
    Selection { predicate: Expr, input: Box<LogicalPlan> },
    Projection { expr: Vec<Expr>, input: Box<LogicalPlan>, schema: Schema },
    LocalProjection { expr: Vec<Expr>, input: Box<LogicalPlan>, schema: Schema },
    DataFrameScan { df: u64, schema: Schema },
    CsvScan {
        path: String,
        schema: Schema,
        has_header: bool,
        delimiter: u8,
        ignore_errors: bool,
        skip_rows: usize,
        stop_after_n_rows: Option<usize>,
        with_columns: Option<Vec<String>>,
    },
    DataFrameOp { input: Box<LogicalPlan>, operation: DataFrameOperation },
    Distinct { input: Box<LogicalPlan>, subset: Option<Vec<String>>, maintain_order: bool },
    Aggregate { input: Box<LogicalPlan>, keys: Vec<String>, aggs: Vec<Expr>, schema: Schema },
    Join {
        input_left: Box<LogicalPlan>,
        input_right: Box<LogicalPlan>,
        left_on: String,
        right_on: String,
        how: JoinType,
        schema: Schema,
    },
    HStack { input: Box<LogicalPlan>, exprs: Vec<Expr>, schema: Schema },
}

/// The mathematical shape of a plan tree: the same constructors, with every
/// expression list abstracted to a sequence. Contracts and the rewrite
/// specification speak of this type.
pub enum PlanV {
    Selection { predicate: Expr, input: Box<PlanV> },
    Projection { expr: Seq<Expr>, input: Box<PlanV>, schema: Schema },
    LocalProjection { expr: Seq<Expr>, input: Box<PlanV>, schema: Schema },
    DataFrameScan { df: u64, schema: Schema },
    CsvScan {
        path: String,
        schema: Schema,
        has_header: bool,
        delimiter: u8,
        ignore_errors: bool,
        skip_rows: usize,
        stop_after_n_rows: Option<usize>,
        with_columns: Option<Vec<String>>,
    },
    DataFrameOp { input: Box<PlanV>, operation: DataFrameOperation },
    Distinct { input: Box<PlanV>, subset: Option<Vec<String>>, maintain_order: bool },
    Aggregate { input: Box<PlanV>, keys: Vec<String>, aggs: Seq<Expr>, schema: Schema },
    Join {
        input_left: Box<PlanV>,
        input_right: Box<PlanV>,
        left_on: String,
        right_on: String,
        how: JoinType,
        schema: Schema,
    },
    HStack { input: Box<PlanV>, exprs: Seq<Expr>, schema: Schema },
}

pub open spec fn view_plan(p: LogicalPlan) -> PlanV
    decreases p,
{
    match p {
        LogicalPlan::Selection { predicate, input } => PlanV::Selection {
            predicate,
            input: Box::new(view_plan(*input)),
        },
        LogicalPlan::Projection { expr, input, schema } => PlanV::Projection {
            expr: expr@,
            input: Box::new(view_plan(*input)),
            schema,
        },
        LogicalPlan::LocalProjection { expr, input, schema } => PlanV::LocalProjection {
            expr: expr@,
            input: Box::new(view_plan(*input)),
            schema,
        },
        LogicalPlan::DataFrameScan { df, schema } => PlanV::DataFrameScan { df, schema },
        LogicalPlan::CsvScan {
            path,
            schema,
            has_header,
            delimiter,
            ignore_errors,
            skip_rows,
            stop_after_n_rows,
            with_columns,
        } => PlanV::CsvScan {
            path,
            schema,
            has_header,
            delimiter,
            ignore_errors,
            skip_rows,
            stop_after_n_rows,
            with_columns,
        },
        LogicalPlan::DataFrameOp { input, operation } => PlanV::DataFrameOp {
            input: Box::new(view_plan(*input)),
            operation,
        },
        LogicalPlan::Distinct { input, subset, maintain_order } => PlanV::Distinct {
            input: Box::new(view_plan(*input)),
            subset,
            maintain_order,
        },
        LogicalPlan::Aggregate { input, keys, aggs, schema } => PlanV::Aggregate {
            input: Box::new(view_plan(*input)),
            keys,
            aggs: aggs@,
            schema,
        },
        LogicalPlan::Join { input_left, input_right, left_on, right_on, how, schema } => PlanV::Join {
            input_left: Box::new(view_plan(*input_left)),
            input_right: Box::new(view_plan(*input_right)),
            left_on,
            right_on,
            how,
            schema,
        },
        LogicalPlan::HStack { input, exprs, schema } => PlanV::HStack {
            input: Box::new(view_plan(*input)),
            exprs: exprs@,
            schema,
        },
    }
}

impl View for LogicalPlan {
    type V = PlanV;

    open spec fn view(&self) -> PlanV {
        view_plan(*self)
    }
}

/// The schema a subtree exposes to the node above it: filters and transparent
/// operations pass their input's schema through, every other node carries the
/// schema it was built with.
pub open spec fn spec_plan_schema(p: PlanV) -> Schema
    decreases p,
{
    match p {
        PlanV::Selection { predicate, input } => spec_plan_schema(*input),
        PlanV::Projection { schema, .. } => schema,
        PlanV::LocalProjection { schema, .. } => schema,
        PlanV::DataFrameScan { schema, .. } => schema,
        PlanV::CsvScan { schema, .. } => schema,
        PlanV::DataFrameOp { input, .. } => spec_plan_schema(*input),
        PlanV::Distinct { input, .. } => spec_plan_schema(*input),
        PlanV::Aggregate { schema, .. } => schema,
        PlanV::Join { schema, .. } => schema,
        PlanV::HStack { schema, .. } => schema,
    }
}

/// Whether any Projection node stands somewhere in the subtree; while one
/// does, a later projection may still reshape or rename columns.
pub open spec fn spec_has_projection(p: PlanV) -> bool
    decreases p,
{
    match p {
        PlanV::Selection { predicate, input } => spec_has_projection(*input),
        PlanV::Projection { .. } => true,
        PlanV::LocalProjection { input, .. } => spec_has_projection(*input),
        PlanV::DataFrameScan { .. } => false,
        PlanV::CsvScan { .. } => false,
        PlanV::DataFrameOp { input, .. } => spec_has_projection(*input),
        PlanV::Distinct { input, .. } => spec_has_projection(*input),
        PlanV::Aggregate { input, .. } => spec_has_projection(*input),
        PlanV::Join { input_left, input_right, .. } => spec_has_projection(*input_left)
            || spec_has_projection(*input_right),
        PlanV::HStack { input, .. } => spec_has_projection(*input),
    }
}

impl LogicalPlan {
    /// The schema of the rows this subtree produces.
    pub fn schema(&self) -> (r: &Schema)
        ensures
            *r == spec_plan_schema(self@),
        decreases self,
    {
        match self {
            LogicalPlan::Selection { predicate, input } => input.schema(),
            LogicalPlan::Projection { schema, .. } => schema,
            LogicalPlan::LocalProjection { schema, .. } => schema,
            LogicalPlan::DataFrameScan { schema, .. } => schema,
            LogicalPlan::CsvScan { schema, .. } => schema,
            LogicalPlan::DataFrameOp { input, .. } => input.schema(),
            LogicalPlan::Distinct { input, .. } => input.schema(),
            LogicalPlan::Aggregate { schema, .. } => schema,
            LogicalPlan::Join { schema, .. } => schema,
            LogicalPlan::HStack { schema, .. } => schema,
        }
    }
}

/// Whether a Projection node stands anywhere below; used to decide whether
/// pushing a filter past a projection can still pay off.
pub fn has_projection_below(p: &LogicalPlan) -> (r: bool)
    ensures
        r == spec_has_projection(p@),
    decreases p,
{
    match p {
        LogicalPlan::Selection { predicate, input } => has_projection_below(input),
        LogicalPlan::Projection { .. } => true,
        LogicalPlan::LocalProjection { input, .. } => has_projection_below(input),
        LogicalPlan::DataFrameScan { .. } => false,
        LogicalPlan::CsvScan { .. } => false,
        LogicalPlan::DataFrameOp { input, .. } => has_projection_below(input),
        LogicalPlan::Distinct { input, .. } => has_projection_below(input),
        LogicalPlan::Aggregate { input, .. } => has_projection_below(input),
        LogicalPlan::Join { input_left, input_right, .. } => has_projection_below(input_left)
            || has_projection_below(input_right),
        LogicalPlan::HStack { input, .. } => has_projection_below(input),
    }
}

} // verus!
