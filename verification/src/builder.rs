use vstd::prelude::*;
use crate::expr::Expr;
use crate::plan::{JoinType, LogicalPlan, PlanV};
use crate::schema::Schema;

verus! {

/// Structural reconstruction helper: wraps a plan in new nodes and performs
/// no pushdown logic. Schema derivation for a new node is its caller's
/// business; each wrapping method takes the schema the node is to carry.
pub struct LogicalPlanBuilder {
    pub plan: LogicalPlan,
}

impl LogicalPlanBuilder {
    pub fn from_plan(plan: LogicalPlan) -> (r: LogicalPlanBuilder)
        ensures
            r.plan == plan,
    {
        LogicalPlanBuilder { plan }
    }

    /// Wraps the plan in a filter node carrying the predicate.
    pub fn filter(self, predicate: Expr) -> (r: LogicalPlanBuilder)
        ensures
            r.plan@ == (PlanV::Selection { predicate, input: Box::new(self.plan@) }),
    {
        LogicalPlanBuilder {
            plan: LogicalPlan::Selection { predicate, input: Box::new(self.plan) },
        }
    }

    /// Wraps the plan in a projection node.
    pub fn project(self, expr: Vec<Expr>, schema: Schema) -> (r: LogicalPlanBuilder)
        ensures
            r.plan@ == (PlanV::Projection {
                expr: expr@,
                input: Box::new(self.plan@),
                schema,
            }),
    {
        LogicalPlanBuilder {
            plan: LogicalPlan::Projection { expr, input: Box::new(self.plan), schema },
        }
    }

    /// Wraps the plan in a local projection node.
    pub fn project_local(self, expr: Vec<Expr>, schema: Schema) -> (r: LogicalPlanBuilder)
        ensures
            r.plan@ == (PlanV::LocalProjection {
                expr: expr@,
                input: Box::new(self.plan@),
                schema,
            }),
    {
        LogicalPlanBuilder {
            plan: LogicalPlan::LocalProjection { expr, input: Box::new(self.plan), schema },
        }
    }

    /// Wraps the plan in a column-adding node.
    pub fn with_columns(self, exprs: Vec<Expr>, schema: Schema) -> (r: LogicalPlanBuilder)
        ensures
            r.plan@ == (PlanV::HStack { input: Box::new(self.plan@), exprs: exprs@, schema }),
    {
        LogicalPlanBuilder {
            plan: LogicalPlan::HStack { input: Box::new(self.plan), exprs, schema },
        }
    }

    /// Joins the plan, as the left input, with another plan.
    pub fn join(
        self,
        other: LogicalPlan,
        how: JoinType,
        left_on: String,
        right_on: String,
        schema: Schema,
    ) -> (r: LogicalPlanBuilder)
        ensures
            r.plan@ == (PlanV::Join {
                input_left: Box::new(self.plan@),
                input_right: Box::new(other@),
                left_on,
                right_on,
                how,
                schema,
            }),
    {
        LogicalPlanBuilder {
            plan: LogicalPlan::Join {
                input_left: Box::new(self.plan),
                input_right: Box::new(other),
                left_on,
                right_on,
                how,
                schema,
            },
        }
    }

    pub fn build(self) -> (r: LogicalPlan)
        ensures
            r == self.plan,
    {
        self.plan
    }
}

} // verus!
