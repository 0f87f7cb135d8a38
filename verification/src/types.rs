use vstd::prelude::*;

use crate::operator::Operator;
use crate::value::Value;
use crate::query::QueryBuilder;
use crate::builder::ChainBuilder;

verus! {

/// The database dialects a statement can be compiled for.
#[derive(Debug, Clone, Copy, PartialEq, Eq, Structural)]
pub enum Client {
    Mysql,
    /// Recognised but not compiled: `to_sql` reports it as unsupported.
    Postgres,
    Sqlite,
}

/// The operation a statement performs.
#[derive(Debug, Clone, Copy, PartialEq, Eq, Structural)]
pub enum Method {
    Select,
    Insert,
    InsertMany,
    Update,
    Delete,
}

/// Why a statement cannot be compiled.  Compilation is total: every
/// malformed tree is reported through this type instead of a panic.
#[derive(Debug, Clone, Copy, PartialEq, Eq, Structural)]
pub enum CompileError {
    /// The statement's client has no compiler.
    UnsupportedClient,
    /// A `Between`/`NotBetween` condition whose value is not a two-element array.
    BetweenArity,
    /// An INSERT or UPDATE payload that is not an object.
    PayloadNotObject,
    /// A multi-row INSERT payload that is not an array.
    PayloadNotArray,
    /// A multi-row INSERT with no rows.
    NoRows,
    /// A multi-row INSERT row that is not an object.
    RowNotObject,
    /// A multi-row INSERT row whose key set differs from the first row's.
    RowKeyMismatch,
    /// An INSERT or UPDATE payload object with two equal keys.
    DuplicateColumn,
}

/// One node of a condition tree (WHERE or HAVING logic).
#[derive(Debug)]
pub enum Statement {
    /// A leaf comparison: column, operator, value.
    Value(String, Operator, Value),
    /// A parenthesized nested tree, joined to its siblings with AND.
    SubChain(Box<QueryBuilder>),
    /// A parenthesized nested tree, joined to its siblings with OR.
    OrChain(Box<QueryBuilder>),
    /// A raw SQL fragment with optional bind values, inserted verbatim.
    Raw(String, Option<Vec<Value>>),
}

impl Statement {
    /// A structural copy.
    #[verifier::loop_isolation(false)]
    pub(crate) fn duplicate(&self) -> Statement
        decreases self,
    {
        match self {
            Statement::Value(c, op, v) => Statement::Value(c.clone(), *op, v.duplicate()),
            Statement::SubChain(q) => Statement::SubChain(Box::new((**q).duplicate())),
            Statement::OrChain(q) => Statement::OrChain(Box::new((**q).duplicate())),
            Statement::Raw(s, b) => Statement::Raw(s.clone(), b.clone()),
        }
    }
}

impl Clone for Statement {
    fn clone(&self) -> Statement {
        self.duplicate()
    }
}

impl Statement {
    /// The nested builder of a `SubChain` or `OrChain` node.
    pub fn to_query_builder(&mut self) -> (r: &mut QueryBuilder)
        requires
            *old(self) is SubChain || *old(self) is OrChain,
        ensures
            *old(self) matches Statement::SubChain(q) ==> ({
                &&& *r == *q
                &&& *final(self) matches Statement::SubChain(q2) && *q2 == *final(r)
            }),
            *old(self) matches Statement::OrChain(q) ==> ({
                &&& *r == *q
                &&& *final(self) matches Statement::OrChain(q2) && *q2 == *final(r)
            }),
    {
        match self {
            Statement::SubChain(q) => &mut **q,
            Statement::OrChain(q) => &mut **q,
            _ => vstd::pervasive::unreached(),
        }
    }
}

/// One entry of the select list.
#[derive(Debug)]
pub enum Select {
    /// Column names, joined with `, `.
    Columns(Vec<String>),
    /// A raw SQL expression with optional bind values.
    Raw(String, Option<Vec<Value>>),
    /// A nested statement compiled as `(…) AS alias`: alias, then builder.
    Builder(String, ChainBuilder),
}

impl Select {
    /// A structural copy.
    pub(crate) fn duplicate(&self) -> Select
        decreases self,
    {
        match self {
            Select::Columns(c) => Select::Columns(c.clone()),
            Select::Raw(s, b) => Select::Raw(s.clone(), b.clone()),
            Select::Builder(a, c) => Select::Builder(a.clone(), c.duplicate()),
        }
    }
}

impl Clone for Select {
    fn clone(&self) -> Select {
        self.duplicate()
    }
}

/// One auxiliary clause (WITH, UNION, LIMIT, OFFSET, GROUP BY, HAVING,
/// ORDER BY).  The clauses of a statement form an ordered sequence.
#[derive(Debug)]
pub enum Common {
    /// A common table expression: alias, is-recursive, nested statement.
    With(String, bool, ChainBuilder),
    /// A union: is-all, nested statement.
    Union(bool, ChainBuilder),
    Limit(usize),
    Offset(usize),
    /// GROUP BY column names.
    GroupBy(Vec<String>),
    /// A raw GROUP BY body with optional bind values.
    GroupByRaw(String, Option<Vec<Value>>),
    /// A HAVING condition with optional bind values; several are joined with ` AND `.
    Having(String, Option<Vec<Value>>),
    /// ORDER BY: column, then direction.
    OrderBy(String, String),
    /// A raw ORDER BY body with optional bind values.
    OrderByRaw(String, Option<Vec<Value>>),
}

impl Common {
    /// A structural copy.
    pub(crate) fn duplicate(&self) -> Common
        decreases self,
    {
        match self {
            Common::With(a, r, c) => Common::With(a.clone(), *r, c.duplicate()),
            Common::Union(all, c) => Common::Union(*all, c.duplicate()),
            Common::Limit(n) => Common::Limit(*n),
            Common::Offset(n) => Common::Offset(*n),
            Common::GroupBy(g) => Common::GroupBy(g.clone()),
            Common::GroupByRaw(s, b) => Common::GroupByRaw(s.clone(), b.clone()),
            Common::Having(s, b) => Common::Having(s.clone(), b.clone()),
            Common::OrderBy(c, d) => Common::OrderBy(c.clone(), d.clone()),
            Common::OrderByRaw(s, b) => Common::OrderByRaw(s.clone(), b.clone()),
        }
    }
}

impl Clone for Common {
    fn clone(&self) -> Common {
        self.duplicate()
    }
}

} // verus!
