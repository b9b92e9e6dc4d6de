//! The condition data model and its combinators.
//!
//! A query filter is a flat, ordered sequence of conditions. Each element
//! is either a field condition — a field name, a comparison operator and a
//! serialized value with its type tag — or a logical connective standing
//! between two field conditions. The combinators `and` and `or` append a
//! connective and then the other sequence, so the sequence keeps exactly
//! the left-to-right order it was built in; the compilers render it in
//! that order with no parenthesization.

use vstd::prelude::*;

use crate::value::{encode, spec_encode_tag, spec_encode_text, TypeTag, Value};

verus! {

/// A comparison operator of a field condition.
#[derive(Clone, Copy, Debug, PartialEq, Eq, Structural)]
pub enum CompareOp {
    Eq,
    Ne,
    Lt,
    Le,
    Gt,
    Ge,
}

/// The SQL text of a comparison operator.
pub open spec fn spec_compare_symbol(op: CompareOp) -> Seq<char> {
    match op {
        CompareOp::Eq => "="@,
        CompareOp::Ne => "!="@,
        CompareOp::Lt => "<"@,
        CompareOp::Le => "<="@,
        CompareOp::Gt => ">"@,
        CompareOp::Ge => ">="@,
    }
}

impl CompareOp {
    /// The operator as it is rendered into SQL text.
    pub fn symbol(&self) -> (r: &'static str)
        ensures
            r@ == spec_compare_symbol(*self),
    {
        match self {
            CompareOp::Eq => "=",
            CompareOp::Ne => "!=",
            CompareOp::Lt => "<",
            CompareOp::Le => "<=",
            CompareOp::Gt => ">",
            CompareOp::Ge => ">=",
        }
    }
}

/// A logical connective standing between two field conditions.
#[derive(Clone, Copy, Debug, PartialEq, Eq, Structural)]
pub enum LogicalOp {
    And,
    Or,
}

/// The SQL keyword of a logical connective.
pub open spec fn spec_logical_keyword(op: LogicalOp) -> Seq<char> {
    match op {
        LogicalOp::And => "and"@,
        LogicalOp::Or => "or"@,
    }
}

impl LogicalOp {
    /// The connective as it is rendered into SQL text.
    pub fn keyword(&self) -> (r: &'static str)
        ensures
            r@ == spec_logical_keyword(*self),
    {
        match self {
            LogicalOp::And => "and",
            LogicalOp::Or => "or",
        }
    }
}

/// One element of a condition sequence.
#[derive(Clone, Debug, PartialEq)]
pub enum Kwargs {
    /// A filter on one field. `field` may be a bare column name or a
    /// `table.column` qualifier; `value` is the serialized value, or the
    /// literal `table.column` reference when `value_type` is the column
    /// tag.
    Condition {
        field: String,
        value: String,
        value_type: TypeTag,
        comparison_operator: CompareOp,
    },
    /// A connective inserted between two field conditions when two
    /// sequences are joined with `and` or `or`.
    LogicalOperator { operator: LogicalOp },
}

/// A single condition comparing `field` against a native value, as a
/// one-element sequence ready for the combinators.
pub fn kwarg(field: String, op: CompareOp, value: Value) -> (r: Vec<Kwargs>)
    ensures
        r@.len() == 1,
        r@[0] matches Kwargs::Condition {
            field: f,
            value: v,
            value_type: t,
            comparison_operator: o,
        } && f@ == field@ && v@ == spec_encode_text(value) && t == spec_encode_tag(value) && o
            == op,
{
    let a = encode(value);
    let mut r: Vec<Kwargs> = Vec::new();
    r.push(
        Kwargs::Condition {
            field,
            value: a.value,
            value_type: a.ty,
            comparison_operator: op,
        },
    );
    r
}

/// A single condition comparing `field` against the value of `field` in
/// another table (`table.column`), as used in join predicates. The
/// reference is spliced into the SQL text verbatim and is never added to
/// the argument list.
pub fn kwarg_column(field: String, op: CompareOp, reference: String) -> (r: Vec<Kwargs>)
    ensures
        r@.len() == 1,
        r@[0] matches Kwargs::Condition {
            field: f,
            value: v,
            value_type: t,
            comparison_operator: o,
        } && f@ == field@ && v@ == reference@ && t == TypeTag::Column && o == op,
{
    let mut r: Vec<Kwargs> = Vec::new();
    r.push(
        Kwargs::Condition {
            field,
            value: reference,
            value_type: TypeTag::Column,
            comparison_operator: op,
        },
    );
    r
}

/// Joins two condition sequences with an `or` connective.
pub trait Or {
    /// Appends an `or` connective, then every element of `kwargs`.
    fn or(self, kwargs: Vec<Kwargs>) -> Vec<Kwargs>;
}

/// Joins two condition sequences with an `and` connective.
pub trait And {
    /// Appends an `and` connective, then every element of `kwargs`.
    fn and(self, kwargs: Vec<Kwargs>) -> Vec<Kwargs>;
}

/// Appends the connective `op`, then every element of `kwargs`, to `base`.
pub fn join_conditions(base: Vec<Kwargs>, op: LogicalOp, kwargs: Vec<Kwargs>) -> (r: Vec<Kwargs>)
    ensures
        r@ == base@ + seq![Kwargs::LogicalOperator { operator: op }] + kwargs@,
{
    let mut r = base;
    let mut rest = kwargs;
    r.push(Kwargs::LogicalOperator { operator: op });
    r.append(&mut rest);
    proof {
        assert(r@ =~= base@ + seq![Kwargs::LogicalOperator { operator: op }] + kwargs@);
    }
    r
}

impl Or for Vec<Kwargs> {
    fn or(self, kwargs: Vec<Kwargs>) -> (r: Vec<Kwargs>)
        ensures
            r@ == self@ + seq![Kwargs::LogicalOperator { operator: LogicalOp::Or }] + kwargs@,
    {
        join_conditions(self, LogicalOp::Or, kwargs)
    }
}

impl And for Vec<Kwargs> {
    fn and(self, kwargs: Vec<Kwargs>) -> (r: Vec<Kwargs>)
        ensures
            r@ == self@ + seq![Kwargs::LogicalOperator { operator: LogicalOp::And }] + kwargs@,
    {
        join_conditions(self, LogicalOp::And, kwargs)
    }
}

} // verus!
