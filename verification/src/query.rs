use vstd::prelude::*;
use vstd::string::StringExecFns;

use crate::builder::ChainBuilder;
use crate::compile::{compile_binds, compile_err, compile_sql};
use crate::join::JoinBuilder;
use crate::operator::Operator;
use crate::strutil::{build_q_marks_cs, concat3, q_marks_cs};
use crate::types::{Client, Common, CompileError, Statement};
use crate::value::{vals_deep, Value};

verus! {

/// The query part of a statement: the WHERE condition tree, raw trailing
/// fragments, joins and common clauses.
#[derive(Debug)]
pub struct QueryBuilder {
    pub statement: Vec<Statement>,
    pub raw: Vec<(String, Option<Vec<Value>>)>,
    pub join: Vec<JoinBuilder>,
    pub query_common: Vec<Common>,
    pub client: Client,
}

impl QueryBuilder {
    /// A structural copy.
    #[verifier::loop_isolation(false)]
    pub(crate) fn duplicate(&self) -> QueryBuilder
        decreases self,
    {
        let mut statement: Vec<Statement> = Vec::new();
        let mut i: usize = 0;
        while i < self.statement.len()
            invariant
                i <= self.statement@.len(),
            decreases self.statement@.len() - i,
        {
            statement.push(self.statement[i].duplicate());
            i += 1;
        }
        let mut join: Vec<JoinBuilder> = Vec::new();
        let mut j: usize = 0;
        while j < self.join.len()
            invariant
                j <= self.join@.len(),
            decreases self.join@.len() - j,
        {
            join.push(self.join[j].duplicate());
            j += 1;
        }
        let mut query_common: Vec<Common> = Vec::new();
        let mut k: usize = 0;
        while k < self.query_common.len()
            invariant
                k <= self.query_common@.len(),
            decreases self.query_common@.len() - k,
        {
            query_common.push(self.query_common[k].duplicate());
            k += 1;
        }
        QueryBuilder {
            statement,
            raw: self.raw.clone(),
            join,
            query_common,
            client: self.client,
        }
    }
}

impl Clone for QueryBuilder {
    fn clone(&self) -> QueryBuilder {
        self.duplicate()
    }
}

/// An empty query for the given client.
pub open spec fn qb_is_empty(q: QueryBuilder, client: Client) -> bool {
    &&& q.statement@.len() == 0
    &&& q.raw@.len() == 0
    &&& q.join@.len() == 0
    &&& q.query_common@.len() == 0
    &&& q.client == client
}

impl QueryBuilder {
    /// An empty query for the given client.
    pub fn new(client: Client) -> (r: QueryBuilder)
        ensures
            qb_is_empty(r, client),
    {
        QueryBuilder {
            statement: Vec::new(),
            raw: Vec::new(),
            join: Vec::new(),
            query_common: Vec::new(),
            client,
        }
    }

    /// Appends a leaf condition.
    pub fn where_clause(&mut self, column: &str, operator: Operator, value: Value) -> (r:
        &mut QueryBuilder)
        ensures
            ({
                let st = r.statement@.last();
                &&& *r == (QueryBuilder { statement: r.statement, ..*old(self) })
                &&& r.statement@ == old(self).statement@.push(st)
                &&& st matches Statement::Value(c, op, v) && c@ == column@ && op == operator && v
                    == value
            }),
            *final(self) == *final(r),
    {
        self.statement.push(Statement::Value(column.to_owned(), operator, value));
        self
    }

    /// Appends an equality condition.
    pub fn where_eq(&mut self, column: &str, value: Value) -> (r: &mut QueryBuilder)
        ensures
            ({
                let st = r.statement@.last();
                &&& *r == (QueryBuilder { statement: r.statement, ..*old(self) })
                &&& r.statement@ == old(self).statement@.push(st)
                &&& st matches Statement::Value(c, op, v) && c@ == column@ && op == Operator::Equal
                    && v == value
            }),
            *final(self) == *final(r),
    {
        self.where_clause(column, Operator::Equal, value)
    }

    /// Appends an inequality condition.
    pub fn where_ne(&mut self, column: &str, value: Value) -> (r: &mut QueryBuilder)
        ensures
            ({
                let st = r.statement@.last();
                &&& *r == (QueryBuilder { statement: r.statement, ..*old(self) })
                &&& r.statement@ == old(self).statement@.push(st)
                &&& st matches Statement::Value(c, op, v) && c@ == column@ && op
                    == Operator::NotEqual && v == value
            }),
            *final(self) == *final(r),
    {
        self.where_clause(column, Operator::NotEqual, value)
    }

    /// Appends an inequality condition.
    pub fn where_not_eq(&mut self, column: &str, value: Value) -> (r: &mut QueryBuilder)
        ensures
            ({
                let st = r.statement@.last();
                &&& *r == (QueryBuilder { statement: r.statement, ..*old(self) })
                &&& r.statement@ == old(self).statement@.push(st)
                &&& st matches Statement::Value(c, op, v) && c@ == column@ && op
                    == Operator::NotEqual && v == value
            }),
            *final(self) == *final(r),
    {
        self.where_clause(column, Operator::NotEqual, value)
    }

    /// Appends an `IN` condition over the given values.
    pub fn where_in(&mut self, column: &str, values: Vec<Value>) -> (r: &mut QueryBuilder)
        ensures
            ({
                let st = r.statement@.last();
                &&& *r == (QueryBuilder { statement: r.statement, ..*old(self) })
                &&& r.statement@ == old(self).statement@.push(st)
                &&& st matches Statement::Value(c, op, v) && c@ == column@ && op == Operator::In
                    && v == Value::Array(values)
            }),
            *final(self) == *final(r),
    {
        self.where_clause(column, Operator::In, Value::Array(values))
    }

    /// Appends a `NOT IN` condition over the given values.
    pub fn where_not_in(&mut self, column: &str, values: Vec<Value>) -> (r: &mut QueryBuilder)
        ensures
            ({
                let st = r.statement@.last();
                &&& *r == (QueryBuilder { statement: r.statement, ..*old(self) })
                &&& r.statement@ == old(self).statement@.push(st)
                &&& st matches Statement::Value(c, op, v) && c@ == column@ && op == Operator::NotIn
                    && v == Value::Array(values)
            }),
            *final(self) == *final(r),
    {
        self.where_clause(column, Operator::NotIn, Value::Array(values))
    }

    /// Appends an `IS NULL` condition.
    pub fn where_null(&mut self, column: &str) -> (r: &mut QueryBuilder)
        ensures
            ({
                let st = r.statement@.last();
                &&& *r == (QueryBuilder { statement: r.statement, ..*old(self) })
                &&& r.statement@ == old(self).statement@.push(st)
                &&& st matches Statement::Value(c, op, v) && c@ == column@ && op == Operator::IsNull
                    && v == Value::Null
            }),
            *final(self) == *final(r),
    {
        self.where_clause(column, Operator::IsNull, Value::Null)
    }

    /// Appends an `IS NOT NULL` condition.
    pub fn where_not_null(&mut self, column: &str) -> (r: &mut QueryBuilder)
        ensures
            ({
                let st = r.statement@.last();
                &&& *r == (QueryBuilder { statement: r.statement, ..*old(self) })
                &&& r.statement@ == old(self).statement@.push(st)
                &&& st matches Statement::Value(c, op, v) && c@ == column@ && op
                    == Operator::IsNotNull && v == Value::Null
            }),
            *final(self) == *final(r),
    {
        self.where_clause(column, Operator::IsNotNull, Value::Null)
    }

    /// Appends a `BETWEEN` condition over the two given bounds.
    pub fn where_between(&mut self, column: &str, values: (Value, Value)) -> (r: &mut QueryBuilder)
        ensures
            ({
                let st = r.statement@.last();
                &&& *r == (QueryBuilder { statement: r.statement, ..*old(self) })
                &&& r.statement@ == old(self).statement@.push(st)
                &&& st matches Statement::Value(c, op, v) && ({
                    &&& c@ == column@
                    &&& op == Operator::Between
                    &&& v matches Value::Array(a) && a@ == seq![values.0, values.1]
                })
            }),
            *final(self) == *final(r),
    {
        let (lo, hi) = values;
        self.where_clause(column, Operator::Between, Value::Array(vec![lo, hi]))
    }

    /// Appends a `NOT BETWEEN` condition over the two given bounds.
    pub fn where_not_between(&mut self, column: &str, values: (Value, Value)) -> (r:
        &mut QueryBuilder)
        ensures
            ({
                let st = r.statement@.last();
                &&& *r == (QueryBuilder { statement: r.statement, ..*old(self) })
                &&& r.statement@ == old(self).statement@.push(st)
                &&& st matches Statement::Value(c, op, v) && ({
                    &&& c@ == column@
                    &&& op == Operator::NotBetween
                    &&& v matches Value::Array(a) && a@ == seq![values.0, values.1]
                })
            }),
            *final(self) == *final(r),
    {
        let (lo, hi) = values;
        self.where_clause(column, Operator::NotBetween, Value::Array(vec![lo, hi]))
    }

    /// Appends a `LIKE` condition.
    pub fn where_like(&mut self, column: &str, value: Value) -> (r: &mut QueryBuilder)
        ensures
            ({
                let st = r.statement@.last();
                &&& *r == (QueryBuilder { statement: r.statement, ..*old(self) })
                &&& r.statement@ == old(self).statement@.push(st)
                &&& st matches Statement::Value(c, op, v) && c@ == column@ && op == Operator::Like
                    && v == value
            }),
            *final(self) == *final(r),
    {
        self.where_clause(column, Operator::Like, value)
    }

    /// Appends a `NOT LIKE` condition.
    pub fn where_not_like(&mut self, column: &str, value: Value) -> (r: &mut QueryBuilder)
        ensures
            ({
                let st = r.statement@.last();
                &&& *r == (QueryBuilder { statement: r.statement, ..*old(self) })
                &&& r.statement@ == old(self).statement@.push(st)
                &&& st matches Statement::Value(c, op, v) && c@ == column@ && op
                    == Operator::NotLike && v == value
            }),
            *final(self) == *final(r),
    {
        self.where_clause(column, Operator::NotLike, value)
    }

    /// Appends a `>` condition.
    pub fn where_gt(&mut self, column: &str, value: Value) -> (r: &mut QueryBuilder)
        ensures
            ({
                let st = r.statement@.last();
                &&& *r == (QueryBuilder { statement: r.statement, ..*old(self) })
                &&& r.statement@ == old(self).statement@.push(st)
                &&& st matches Statement::Value(c, op, v) && c@ == column@ && op
                    == Operator::GreaterThan && v == value
            }),
            *final(self) == *final(r),
    {
        self.where_clause(column, Operator::GreaterThan, value)
    }

    /// Appends a `>=` condition.
    pub fn where_gte(&mut self, column: &str, value: Value) -> (r: &mut QueryBuilder)
        ensures
            ({
                let st = r.statement@.last();
                &&& *r == (QueryBuilder { statement: r.statement, ..*old(self) })
                &&& r.statement@ == old(self).statement@.push(st)
                &&& st matches Statement::Value(c, op, v) && c@ == column@ && op
                    == Operator::GreaterThanOrEqual && v == value
            }),
            *final(self) == *final(r),
    {
        self.where_clause(column, Operator::GreaterThanOrEqual, value)
    }

    /// Appends a `<` condition.
    pub fn where_lt(&mut self, column: &str, value: Value) -> (r: &mut QueryBuilder)
        ensures
            ({
                let st = r.statement@.last();
                &&& *r == (QueryBuilder { statement: r.statement, ..*old(self) })
                &&& r.statement@ == old(self).statement@.push(st)
                &&& st matches Statement::Value(c, op, v) && c@ == column@ && op
                    == Operator::LessThan && v == value
            }),
            *final(self) == *final(r),
    {
        self.where_clause(column, Operator::LessThan, value)
    }

    /// Appends a `<=` condition.
    pub fn where_lte(&mut self, column: &str, value: Value) -> (r: &mut QueryBuilder)
        ensures
            ({
                let st = r.statement@.last();
                &&& *r == (QueryBuilder { statement: r.statement, ..*old(self) })
                &&& r.statement@ == old(self).statement@.push(st)
                &&& st matches Statement::Value(c, op, v) && c@ == column@ && op
                    == Operator::LessThanOrEqual && v == value
            }),
            *final(self) == *final(r),
    {
        self.where_clause(column, Operator::LessThanOrEqual, value)
    }

    /// Appends a `<>` condition.
    pub fn where_gtlt(&mut self, column: &str, value: Value) -> (r: &mut QueryBuilder)
        ensures
            ({
                let st = r.statement@.last();
                &&& *r == (QueryBuilder { statement: r.statement, ..*old(self) })
                &&& r.statement@ == old(self).statement@.push(st)
                &&& st matches Statement::Value(c, op, v) && c@ == column@ && op
                    == Operator::GreaterORLessThan && v == value
            }),
            *final(self) == *final(r),
    {
        self.where_clause(column, Operator::GreaterORLessThan, value)
    }

    /// Appends a raw condition fragment with optional bind values.
    pub fn where_raw(&mut self, sql: &str, binds: Option<Vec<Value>>) -> (r: &mut QueryBuilder)
        ensures
            ({
                let st = r.statement@.last();
                &&& *r == (QueryBuilder { statement: r.statement, ..*old(self) })
                &&& r.statement@ == old(self).statement@.push(st)
                &&& st matches Statement::Raw(s, b) && s@ == sql@ && b == binds
            }),
            *final(self) == *final(r),
    {
        self.statement.push(Statement::Raw(sql.to_owned(), binds));
        self
    }

    /// Appends a case-insensitive `LIKE` condition, written with `LOWER()`.
    pub fn where_ilike(&mut self, column: &str, value: Value) -> (r: &mut QueryBuilder)
        ensures
            ({
                let st = r.statement@.last();
                &&& *r == (QueryBuilder { statement: r.statement, ..*old(self) })
                &&& r.statement@ == old(self).statement@.push(st)
                &&& st matches Statement::Raw(s, b) && ({
                    &&& s@ == "LOWER("@ + column@ + ") LIKE LOWER(?)"@
                    &&& b matches Some(bs) && bs@ == seq![value]
                })
            }),
            *final(self) == *final(r),
    {
        let sql = concat3("LOWER(", column, ") LIKE LOWER(?)");
        self.statement.push(Statement::Raw(sql, Some(vec![value])));
        self
    }

    /// Appends a column-to-column comparison, rendered verbatim.
    pub fn where_column(&mut self, lhs: &str, operator: &str, rhs: &str) -> (r: &mut QueryBuilder)
        ensures
            ({
                let st = r.statement@.last();
                &&& *r == (QueryBuilder { statement: r.statement, ..*old(self) })
                &&& r.statement@ == old(self).statement@.push(st)
                &&& st matches Statement::Raw(s, b) && s@ == lhs@ + " "@ + operator@ + " "@ + rhs@
                    && b is None
            }),
            *final(self) == *final(r),
    {
        let sql = crate::strutil::concat5(lhs, " ", operator, " ", rhs);
        self.statement.push(Statement::Raw(sql, None));
        self
    }

    /// Appends a `JSON_CONTAINS` condition on the column.
    pub fn where_json_contains(&mut self, column: &str, value: Value) -> (r: &mut QueryBuilder)
        ensures
            ({
                let st = r.statement@.last();
                &&& *r == (QueryBuilder { statement: r.statement, ..*old(self) })
                &&& r.statement@ == old(self).statement@.push(st)
                &&& st matches Statement::Raw(s, b) && ({
                    &&& s@ == "JSON_CONTAINS("@ + column@ + ", ?)"@
                    &&& b matches Some(bs) && bs@ == seq![value]
                })
            }),
            *final(self) == *final(r),
    {
        let sql = concat3("JSON_CONTAINS(", column, ", ?)");
        self.statement.push(Statement::Raw(sql, Some(vec![value])));
        self
    }

    /// Appends an AND-joined nested condition group and hands out its builder.
    pub fn where_subquery(&mut self) -> (r: &mut QueryBuilder)
        ensures
            qb_is_empty(*r, old(self).client),
            *final(self) == (QueryBuilder { statement: final(self).statement, ..*old(self) }),
            final(self).statement@.len() == old(self).statement@.len() + 1,
            final(self).statement@.take(old(self).statement@.len() as int) == old(
                self,
            ).statement@,
            final(self).statement@.last() matches Statement::SubChain(q) && *q == *final(r),
    {
        let idx = self.statement.len();
        let child = QueryBuilder::new(self.client);
        self.statement.push(Statement::SubChain(Box::new(child)));
        let slot = &mut self.statement[idx];
        proof {
            assert(old(self).statement@.push(*slot).take(old(self).statement@.len() as int)
                =~= old(self).statement@);
        }
        match slot {
            Statement::SubChain(q) => &mut **q,
            _ => vstd::pervasive::unreached(),
        }
    }

    /// Appends an OR-joined nested condition group and hands out its builder.
    pub fn or(&mut self) -> (r: &mut QueryBuilder)
        ensures
            qb_is_empty(*r, old(self).client),
            *final(self) == (QueryBuilder { statement: final(self).statement, ..*old(self) }),
            final(self).statement@.len() == old(self).statement@.len() + 1,
            final(self).statement@.take(old(self).statement@.len() as int) == old(
                self,
            ).statement@,
            final(self).statement@.last() matches Statement::OrChain(q) && *q == *final(r),
    {
        let idx = self.statement.len();
        let child = QueryBuilder::new(self.client);
        self.statement.push(Statement::OrChain(Box::new(child)));
        let slot = &mut self.statement[idx];
        proof {
            assert(old(self).statement@.push(*slot).take(old(self).statement@.len() as int)
                =~= old(self).statement@);
        }
        match slot {
            Statement::OrChain(q) => &mut **q,
            _ => vstd::pervasive::unreached(),
        }
    }

    /// Appends a `HAVING` condition `column operator ?` with one bind value.
    pub fn having(&mut self, column: &str, operator: &str, value: Value) -> (r: &mut QueryBuilder)
        ensures
            ({
                let c = r.query_common@.last();
                &&& *r == (QueryBuilder { query_common: r.query_common, ..*old(self) })
                &&& r.query_common@ == old(self).query_common@.push(c)
                &&& c matches Common::Having(s, b) && ({
                    &&& s@ == column@ + " "@ + operator@ + " ?"@
                    &&& b matches Some(bs) && bs@ == seq![value]
                })
            }),
            *final(self) == *final(r),
    {
        let mut sql = concat3(column, " ", operator);
        sql.append(" ?");
        proof {
            assert(sql@ =~= column@ + " "@ + operator@ + " ?"@);
        }
        self.query_common.push(Common::Having(sql, Some(vec![value])));
        self
    }

    /// Appends a raw `HAVING` condition with optional bind values.
    pub fn having_raw(&mut self, sql: &str, binds: Option<Vec<Value>>) -> (r: &mut QueryBuilder)
        ensures
            ({
                let c = r.query_common@.last();
                &&& *r == (QueryBuilder { query_common: r.query_common, ..*old(self) })
                &&& r.query_common@ == old(self).query_common@.push(c)
                &&& c matches Common::Having(s, b) && s@ == sql@ && b == binds
            }),
            *final(self) == *final(r),
    {
        self.query_common.push(Common::Having(sql.to_owned(), binds));
        self
    }

    /// Appends a `HAVING … BETWEEN ? AND ?` condition with two bind values.
    pub fn having_between(&mut self, column: &str, values: (Value, Value)) -> (r:
        &mut QueryBuilder)
        ensures
            ({
                let c = r.query_common@.last();
                &&& *r == (QueryBuilder { query_common: r.query_common, ..*old(self) })
                &&& r.query_common@ == old(self).query_common@.push(c)
                &&& c matches Common::Having(s, b) && ({
                    &&& s@ == column@ + " BETWEEN ? AND ?"@
                    &&& b matches Some(bs) && bs@ == seq![values.0, values.1]
                })
            }),
            *final(self) == *final(r),
    {
        let mut sql = column.to_owned();
        sql.append(" BETWEEN ? AND ?");
        let (lo, hi) = values;
        self.query_common.push(Common::Having(sql, Some(vec![lo, hi])));
        self
    }

    /// Appends a `HAVING … IN (…)` condition with one placeholder per value.
    pub fn having_in(&mut self, column: &str, values: Vec<Value>) -> (r: &mut QueryBuilder)
        ensures
            ({
                let c = r.query_common@.last();
                &&& *r == (QueryBuilder { query_common: r.query_common, ..*old(self) })
                &&& r.query_common@ == old(self).query_common@.push(c)
                &&& c matches Common::Having(s, b) && ({
                    &&& s@ == column@ + " IN ("@ + q_marks_cs(values@.len()) + ")"@
                    &&& b matches Some(bs) && bs == values
                })
            }),
            *final(self) == *final(r),
    {
        let mut sql = column.to_owned();
        sql.append(" IN (");
        let marks = build_q_marks_cs(values.len());
        sql.append(marks.as_str());
        sql.append(")");
        proof {
            assert(sql@ =~= column@ + " IN ("@ + q_marks_cs(values@.len()) + ")"@);
        }
        self.query_common.push(Common::Having(sql, Some(values)));
        self
    }

    /// Appends a `HAVING … NOT IN (…)` condition with one placeholder per value.
    pub fn having_not_in(&mut self, column: &str, values: Vec<Value>) -> (r: &mut QueryBuilder)
        ensures
            ({
                let c = r.query_common@.last();
                &&& *r == (QueryBuilder { query_common: r.query_common, ..*old(self) })
                &&& r.query_common@ == old(self).query_common@.push(c)
                &&& c matches Common::Having(s, b) && ({
                    &&& s@ == column@ + " NOT IN ("@ + q_marks_cs(values@.len()) + ")"@
                    &&& b matches Some(bs) && bs == values
                })
            }),
            *final(self) == *final(r),
    {
        let mut sql = column.to_owned();
        sql.append(" NOT IN (");
        let marks = build_q_marks_cs(values.len());
        sql.append(marks.as_str());
        sql.append(")");
        proof {
            assert(sql@ =~= column@ + " NOT IN ("@ + q_marks_cs(values@.len()) + ")"@);
        }
        self.query_common.push(Common::Having(sql, Some(values)));
        self
    }

    /// Appends a `LIMIT` clause.
    pub fn limit(&mut self, limit: usize) -> (r: &mut QueryBuilder)
        ensures
            *r == (QueryBuilder { query_common: r.query_common, ..*old(self) }),
            r.query_common@ == old(self).query_common@.push(Common::Limit(limit)),
            *final(self) == *final(r),
    {
        self.query_common.push(Common::Limit(limit));
        self
    }

    /// Appends an `OFFSET` clause.
    pub fn offset(&mut self, offset: usize) -> (r: &mut QueryBuilder)
        ensures
            *r == (QueryBuilder { query_common: r.query_common, ..*old(self) }),
            r.query_common@ == old(self).query_common@.push(Common::Offset(offset)),
            *final(self) == *final(r),
    {
        self.query_common.push(Common::Offset(offset));
        self
    }

    /// Appends a `GROUP BY` clause over the given columns.
    pub fn group_by(&mut self, columns: Vec<String>) -> (r: &mut QueryBuilder)
        ensures
            *r == (QueryBuilder { query_common: r.query_common, ..*old(self) }),
            r.query_common@ == old(self).query_common@.push(Common::GroupBy(columns)),
            *final(self) == *final(r),
    {
        self.query_common.push(Common::GroupBy(columns));
        self
    }

    /// Appends a raw `GROUP BY` body with optional bind values.
    pub fn group_by_raw(&mut self, sql: &str, binds: Option<Vec<Value>>) -> (r: &mut QueryBuilder)
        ensures
            ({
                let c = r.query_common@.last();
                &&& *r == (QueryBuilder { query_common: r.query_common, ..*old(self) })
                &&& r.query_common@ == old(self).query_common@.push(c)
                &&& c matches Common::GroupByRaw(s, b) && s@ == sql@ && b == binds
            }),
            *final(self) == *final(r),
    {
        self.query_common.push(Common::GroupByRaw(sql.to_owned(), binds));
        self
    }

    /// Appends an `ORDER BY` clause: column and direction.
    pub fn order_by(&mut self, column: &str, order: &str) -> (r: &mut QueryBuilder)
        ensures
            ({
                let c = r.query_common@.last();
                &&& *r == (QueryBuilder { query_common: r.query_common, ..*old(self) })
                &&& r.query_common@ == old(self).query_common@.push(c)
                &&& c matches Common::OrderBy(col, d) && col@ == column@ && d@ == order@
            }),
            *final(self) == *final(r),
    {
        self.query_common.push(Common::OrderBy(column.to_owned(), order.to_owned()));
        self
    }

    /// Appends a raw `ORDER BY` body with optional bind values.
    pub fn order_by_raw(&mut self, sql: &str, binds: Option<Vec<Value>>) -> (r: &mut QueryBuilder)
        ensures
            ({
                let c = r.query_common@.last();
                &&& *r == (QueryBuilder { query_common: r.query_common, ..*old(self) })
                &&& r.query_common@ == old(self).query_common@.push(c)
                &&& c matches Common::OrderByRaw(s, b) && s@ == sql@ && b == binds
            }),
            *final(self) == *final(r),
    {
        self.query_common.push(Common::OrderByRaw(sql.to_owned(), binds));
        self
    }
}

impl QueryBuilder {
    /// Appends an `EXISTS (…)` condition holding the compiled nested
    /// statement and its bind values; a malformed nested statement is
    /// reported and nothing is appended.
    pub fn where_exists(&mut self, sub: &ChainBuilder) -> (r: Result<(), CompileError>)
        ensures
            compile_err(*sub) matches Some(e) ==> r == Err::<(), CompileError>(e) && *final(self)
                == *old(self),
            compile_err(*sub) is None ==> ({
                let st = final(self).statement@.last();
                &&& r is Ok
                &&& *final(self) == (QueryBuilder {
                    statement: final(self).statement,
                    ..*old(self)
                })
                &&& final(self).statement@ == old(self).statement@.push(st)
                &&& st matches Statement::Raw(s, b) && ({
                    &&& s@ == "EXISTS ("@ + compile_sql(*sub) + ")"@
                    &&& b matches Some(bs) && vals_deep(bs@) == compile_binds(*sub)
                })
            }),
    {
        let compiled = match sub.to_sql() {
            Ok(p) => p,
            Err(e) => {
                return Err(e);
            },
        };
        let mut s = "EXISTS (".to_owned();
        s.append(compiled.0.as_str());
        s.append(")");
        proof {
            assert(s@ =~= "EXISTS ("@ + compile_sql(*sub) + ")"@);
        }
        self.statement.push(Statement::Raw(s, Some(compiled.1)));
        Ok(())
    }

    /// Appends a `NOT EXISTS (…)` condition holding the compiled nested
    /// statement and its bind values; a malformed nested statement is
    /// reported and nothing is appended.
    pub fn where_not_exists(&mut self, sub: &ChainBuilder) -> (r: Result<(), CompileError>)
        ensures
            compile_err(*sub) matches Some(e) ==> r == Err::<(), CompileError>(e) && *final(self)
                == *old(self),
            compile_err(*sub) is None ==> ({
                let st = final(self).statement@.last();
                &&& r is Ok
                &&& *final(self) == (QueryBuilder {
                    statement: final(self).statement,
                    ..*old(self)
                })
                &&& final(self).statement@ == old(self).statement@.push(st)
                &&& st matches Statement::Raw(s, b) && ({
                    &&& s@ == "NOT EXISTS ("@ + compile_sql(*sub) + ")"@
                    &&& b matches Some(bs) && vals_deep(bs@) == compile_binds(*sub)
                })
            }),
    {
        let compiled = match sub.to_sql() {
            Ok(p) => p,
            Err(e) => {
                return Err(e);
            },
        };
        let mut s = "NOT EXISTS (".to_owned();
        s.append(compiled.0.as_str());
        s.append(")");
        proof {
            assert(s@ =~= "NOT EXISTS ("@ + compile_sql(*sub) + ")"@);
        }
        self.statement.push(Statement::Raw(s, Some(compiled.1)));
        Ok(())
    }
}

} // verus!
