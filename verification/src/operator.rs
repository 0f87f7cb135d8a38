use vstd::prelude::*;

verus! {

/// The comparison and test operators of a leaf condition.
#[derive(Debug, Clone, Copy, PartialEq, Eq, Structural)]
pub enum Operator {
    Equal,
    NotEqual,
    In,
    NotIn,
    IsNull,
    IsNotNull,
    Exists,
    NotExists,
    Between,
    NotBetween,
    Like,
    NotLike,
    GreaterThan,
    GreaterThanOrEqual,
    LessThan,
    LessThanOrEqual,
    GreaterORLessThan,
}

/// The SQL token of an operator.
pub open spec fn op_token(op: Operator) -> Seq<char> {
    match op {
        Operator::Equal => "="@,
        Operator::NotEqual => "!="@,
        Operator::In => "IN"@,
        Operator::NotIn => "NOT IN"@,
        Operator::IsNull => "IS NULL"@,
        Operator::IsNotNull => "IS NOT NULL"@,
        Operator::Exists => "EXISTS"@,
        Operator::NotExists => "NOT EXISTS"@,
        Operator::Between => "BETWEEN"@,
        Operator::NotBetween => "NOT BETWEEN"@,
        Operator::Like => "LIKE"@,
        Operator::NotLike => "NOT LIKE"@,
        Operator::GreaterThan => ">"@,
        Operator::GreaterThanOrEqual => ">="@,
        Operator::LessThan => "<"@,
        Operator::LessThanOrEqual => "<="@,
        Operator::GreaterORLessThan => "<>"@,
    }
}

/// Whether an operator consumes bound values.
pub open spec fn op_is_bind(op: Operator) -> bool {
    match op {
        Operator::IsNull => false,
        Operator::IsNotNull => false,
        Operator::Exists => false,
        Operator::NotExists => false,
        _ => true,
    }
}

/// The SQL token of an operator, and whether it consumes bound values.
pub fn operator_to_sql(operator: &Operator) -> (r: (&'static str, bool))
    ensures
        r.0@ == op_token(*operator),
        r.1 == op_is_bind(*operator),
{
    match operator {
        Operator::Equal => ("=", true),
        Operator::NotEqual => ("!=", true),
        Operator::In => ("IN", true),
        Operator::NotIn => ("NOT IN", true),
        Operator::IsNull => ("IS NULL", false),
        Operator::IsNotNull => ("IS NOT NULL", false),
        Operator::Exists => ("EXISTS", false),
        Operator::NotExists => ("NOT EXISTS", false),
        Operator::Between => ("BETWEEN", true),
        Operator::NotBetween => ("NOT BETWEEN", true),
        Operator::Like => ("LIKE", true),
        Operator::NotLike => ("NOT LIKE", true),
        Operator::GreaterThan => (">", true),
        Operator::GreaterThanOrEqual => (">=", true),
        Operator::LessThan => ("<", true),
        Operator::LessThanOrEqual => ("<=", true),
        Operator::GreaterORLessThan => ("<>", true),
    }
}

} // verus!
