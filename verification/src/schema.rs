use vstd::prelude::*;
use crate::expr::Expr;

verus! {

/// The type a column carries; the pushdown rules never look at it, but every
/// plan node carries a full name-to-type mapping.
#[derive(Clone, Copy, PartialEq, Eq, Structural, Debug)]
pub enum DataType {
    Boolean,
    Int64,
    Utf8,
}

/// One named, typed column of a schema.
#[derive(Debug, PartialEq)]
pub struct Field {
    pub name: String,
    pub dtype: DataType,
}

/// An ordered column-name-to-type mapping, one instance attached to each
/// plan node when the node is built.
#[derive(Debug, PartialEq)]
pub struct Schema {
    pub fields: Vec<Field>,
}

/// Whether the schema holds a column of the given name.
pub open spec fn spec_schema_has(s: Schema, name: Seq<char>) -> bool {
    exists|i: int| 0 <= i < s.fields@.len() && s.fields@[i].name@ == name
}

/// Whether every column the expression reads exists in the schema.
pub open spec fn spec_refs_only(e: Expr, s: Schema) -> bool
    decreases e,
{
    match e {
        Expr::Literal(_) => true,
        Expr::Column(n) => spec_schema_has(s, n@),
        Expr::Alias(inner, _) => spec_refs_only(*inner, s),
        Expr::BinaryExpr { left, op, right } => spec_refs_only(*left, s) && spec_refs_only(
            *right,
            s,
        ),
        Expr::IsNull(inner) => spec_refs_only(*inner, s),
        Expr::IsNotNull(inner) => spec_refs_only(*inner, s),
        Expr::IsUnique(inner) => spec_refs_only(*inner, s),
        Expr::IsDuplicated(inner) => spec_refs_only(*inner, s),
    }
}

impl Schema {
    pub fn has_column(&self, name: &String) -> (r: bool)
        ensures
            r == spec_schema_has(*self, name@),
    {
        let mut i: usize = 0;
        while i < self.fields.len()
            invariant
                0 <= i <= self.fields@.len(),
                forall|j: int| 0 <= j < i ==> self.fields@[j].name@ != name@,
            decreases self.fields@.len() - i,
        {
            if self.fields[i].name == *name {
                return true;
            }
            i += 1;
        }
        false
    }
}

/// Membership test threaded through the pushdown: true iff every column the
/// predicate reads exists in the candidate schema.
pub fn check_down_node(e: &Expr, s: &Schema) -> (r: bool)
    ensures
        r == spec_refs_only(*e, *s),
    decreases e,
{
    match e {
        Expr::Literal(_) => true,
        Expr::Column(n) => s.has_column(n),
        Expr::Alias(inner, _) => check_down_node(inner, s),
        Expr::BinaryExpr { left, op, right } => check_down_node(left, s) && check_down_node(
            right,
            s,
        ),
        Expr::IsNull(inner) => check_down_node(inner, s),
        Expr::IsNotNull(inner) => check_down_node(inner, s),
        Expr::IsUnique(inner) => check_down_node(inner, s),
        Expr::IsDuplicated(inner) => check_down_node(inner, s),
    }
}

} // verus!
