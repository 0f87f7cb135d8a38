use vstd::prelude::*;

use crate::value::{dup_opt_values, opt_vals_deep, vals_deep, DVal, Value};

verus! {

/// One condition of a join's `ON` clause.
#[derive(Debug)]
pub enum JoinStatement {
    /// A column-to-column comparison: column, operator text, column.
    On(String, String, String),
    /// A parenthesized nested condition sequence, joined with OR.
    OrChain(Box<JoinBuilder>),
    /// A column-to-value comparison: column, operator text, bind value.
    OnVal(String, String, Value),
    /// A raw ON fragment with optional bind values.
    OnRaw(String, Option<Vec<Value>>),
}

impl JoinStatement {
    /// A structural copy.
    pub(crate) fn duplicate(&self) -> JoinStatement
        decreases self,
    {
        match self {
            JoinStatement::On(a, op, b) => JoinStatement::On(a.clone(), op.clone(), b.clone()),
            JoinStatement::OrChain(j) => JoinStatement::OrChain(Box::new((**j).duplicate())),
            JoinStatement::OnVal(c, op, v) => JoinStatement::OnVal(
                c.clone(),
                op.clone(),
                v.duplicate(),
            ),
            JoinStatement::OnRaw(s, b) => JoinStatement::OnRaw(s.clone(), b.clone()),
        }
    }
}

impl Clone for JoinStatement {
    fn clone(&self) -> JoinStatement {
        self.duplicate()
    }
}

impl JoinStatement {
    /// The nested builder of an `OrChain` condition.
    pub fn as_mut_join_builder(&mut self) -> (r: &mut JoinBuilder)
        requires
            *old(self) is OrChain,
        ensures
            *old(self) matches JoinStatement::OrChain(j) ==> ({
                &&& *r == *j
                &&& *final(self) matches JoinStatement::OrChain(j2) && *j2 == *final(r)
            }),
    {
        match self {
            JoinStatement::OrChain(j) => &mut **j,
            _ => vstd::pervasive::unreached(),
        }
    }
}

/// One join of a statement: the joined table, the join-type token, an
/// optional alias, the `ON` conditions, and an optional raw override that
/// replaces the structured rendering.
#[derive(Debug)]
pub struct JoinBuilder {
    pub table: String,
    pub join_type: String,
    pub statement: Vec<JoinStatement>,
    pub raw: Option<(String, Option<Vec<Value>>)>,
    pub as_name: Option<String>,
}

impl JoinBuilder {
    /// A structural copy.
    #[verifier::loop_isolation(false)]
    pub(crate) fn duplicate(&self) -> JoinBuilder
        decreases self,
    {
        let mut statement: Vec<JoinStatement> = Vec::new();
        let mut i: usize = 0;
        while i < self.statement.len()
            invariant
                i <= self.statement@.len(),
            decreases self.statement@.len() - i,
        {
            statement.push(self.statement[i].duplicate());
            i += 1;
        }
        JoinBuilder {
            table: self.table.clone(),
            join_type: self.join_type.clone(),
            statement,
            raw: self.raw.clone(),
            as_name: self.as_name.clone(),
        }
    }
}

impl Clone for JoinBuilder {
    fn clone(&self) -> JoinBuilder {
        self.duplicate()
    }
}

/// The mathematical view of a raw join override: text and bind values.
pub open spec fn raw_opt_deep(o: Option<(String, Option<Vec<Value>>)>) -> Option<
    (Seq<char>, Seq<DVal>),
> {
    match o {
        Option::None => Option::None,
        Option::Some(p) => Option::Some((p.0@, opt_vals_deep(p.1))),
    }
}

/// A freshly created join for the given table and join-type token.
pub open spec fn jb_is_new(j: JoinBuilder, table: Seq<char>, join_type: Seq<char>) -> bool {
    &&& j.table@ == table
    &&& j.join_type@ == join_type
    &&& j.statement@.len() == 0
    &&& j.raw is None
    &&& j.as_name is None
}

impl JoinBuilder {
    /// Sets the joined table's alias.
    pub fn as_name(&mut self, name: &str) -> (r: &mut JoinBuilder)
        ensures
            *r == (JoinBuilder { as_name: r.as_name, ..*old(self) }),
            r.as_name matches Some(n) && n@ == name@,
            *final(self) == *final(r),
    {
        self.as_name = Some(name.to_owned());
        self
    }

    /// Appends a column-to-column `ON` condition.
    pub fn on(&mut self, column: &str, operator: &str, column2: &str) -> (r: &mut JoinBuilder)
        ensures
            ({
                let st = r.statement@.last();
                &&& *r == (JoinBuilder { statement: r.statement, ..*old(self) })
                &&& r.statement@ == old(self).statement@.push(st)
                &&& st matches JoinStatement::On(a, op, b) && a@ == column@ && op@ == operator@
                    && b@ == column2@
            }),
            *final(self) == *final(r),
    {
        self.statement.push(
            JoinStatement::On(column.to_owned(), operator.to_owned(), column2.to_owned()),
        );
        self
    }

    /// Appends a column-to-value `ON` condition with one bind value.
    pub fn on_val(&mut self, column: &str, operator: &str, value: Value) -> (r: &mut JoinBuilder)
        ensures
            ({
                let st = r.statement@.last();
                &&& *r == (JoinBuilder { statement: r.statement, ..*old(self) })
                &&& r.statement@ == old(self).statement@.push(st)
                &&& st matches JoinStatement::OnVal(c, op, v) && c@ == column@ && op@ == operator@
                    && v == value
            }),
            *final(self) == *final(r),
    {
        self.statement.push(JoinStatement::OnVal(column.to_owned(), operator.to_owned(), value));
        self
    }

    /// Appends a raw `ON` fragment with optional bind values.
    pub fn on_raw(&mut self, raw: &str, val: Option<Vec<Value>>) -> (r: &mut JoinBuilder)
        ensures
            ({
                let st = r.statement@.last();
                &&& *r == (JoinBuilder { statement: r.statement, ..*old(self) })
                &&& r.statement@ == old(self).statement@.push(st)
                &&& st matches JoinStatement::OnRaw(s, b) && s@ == raw@ && b == val
            }),
            *final(self) == *final(r),
    {
        self.statement.push(JoinStatement::OnRaw(raw.to_owned(), val));
        self
    }

    /// Appends an OR-joined nested condition group, carrying the join's own
    /// table, join type, alias and raw override, and hands out its builder.
    pub fn or(&mut self) -> (r: &mut JoinBuilder)
        ensures
            r.statement@.len() == 0,
            r.table == old(self).table,
            r.join_type == old(self).join_type,
            r.as_name == old(self).as_name,
            raw_opt_deep(r.raw) == raw_opt_deep(old(self).raw),
            *final(self) == (JoinBuilder { statement: final(self).statement, ..*old(self) }),
            final(self).statement@.len() == old(self).statement@.len() + 1,
            final(self).statement@.take(old(self).statement@.len() as int) == old(
                self,
            ).statement@,
            final(self).statement@.last() matches JoinStatement::OrChain(j) && *j == *final(r),
    {
        let idx = self.statement.len();
        let raw: Option<(String, Option<Vec<Value>>)> = match &self.raw {
            Option::None => Option::None,
            Option::Some(p) => Option::Some((p.0.clone(), dup_opt_values(&p.1))),
        };
        let as_name: Option<String> = match &self.as_name {
            Option::None => Option::None,
            Option::Some(n) => Option::Some(n.clone()),
        };
        let child = JoinBuilder {
            table: self.table.clone(),
            join_type: self.join_type.clone(),
            statement: Vec::new(),
            raw,
            as_name,
        };
        self.statement.push(JoinStatement::OrChain(Box::new(child)));
        let slot = &mut self.statement[idx];
        proof {
            assert(old(self).statement@.push(*slot).take(old(self).statement@.len() as int)
                =~= old(self).statement@);
        }
        match slot {
            JoinStatement::OrChain(j) => &mut **j,
            _ => vstd::pervasive::unreached(),
        }
    }
}

impl crate::query::QueryBuilder {
    /// Appends a join with the given join-type token and hands out its builder.
    fn push_join(&mut self, table: &str, join_type: &str) -> (r: &mut JoinBuilder)
        ensures
            jb_is_new(*r, table@, join_type@),
            *final(self) == (crate::query::QueryBuilder { join: final(self).join, ..*old(self) }),
            final(self).join@.len() == old(self).join@.len() + 1,
            final(self).join@.take(old(self).join@.len() as int) == old(self).join@,
            final(self).join@.last() == *final(r),
    {
        let idx = self.join.len();
        let jb = JoinBuilder {
            table: table.to_owned(),
            join_type: join_type.to_owned(),
            statement: Vec::new(),
            raw: None,
            as_name: None,
        };
        self.join.push(jb);
        let slot = &mut self.join[idx];
        proof {
            assert(old(self).join@.push(*slot).take(old(self).join@.len() as int) =~= old(
                self,
            ).join@);
        }
        slot
    }

    /// Appends a `JOIN` and hands out its builder.
    pub fn join(&mut self, table: &str) -> (r: &mut JoinBuilder)
        ensures
            jb_is_new(*r, table@, "JOIN"@),
            *final(self) == (crate::query::QueryBuilder { join: final(self).join, ..*old(self) }),
            final(self).join@.len() == old(self).join@.len() + 1,
            final(self).join@.take(old(self).join@.len() as int) == old(self).join@,
            final(self).join@.last() == *final(r),
    {
        self.push_join(table, "JOIN")
    }

    /// Appends an `INNER JOIN` and hands out its builder.
    pub fn inner_join(&mut self, table: &str) -> (r: &mut JoinBuilder)
        ensures
            jb_is_new(*r, table@, "INNER JOIN"@),
            *final(self) == (crate::query::QueryBuilder { join: final(self).join, ..*old(self) }),
            final(self).join@.len() == old(self).join@.len() + 1,
            final(self).join@.take(old(self).join@.len() as int) == old(self).join@,
            final(self).join@.last() == *final(r),
    {
        self.push_join(table, "INNER JOIN")
    }

    /// Appends a `LEFT JOIN` and hands out its builder.
    pub fn left_join(&mut self, table: &str) -> (r: &mut JoinBuilder)
        ensures
            jb_is_new(*r, table@, "LEFT JOIN"@),
            *final(self) == (crate::query::QueryBuilder { join: final(self).join, ..*old(self) }),
            final(self).join@.len() == old(self).join@.len() + 1,
            final(self).join@.take(old(self).join@.len() as int) == old(self).join@,
            final(self).join@.last() == *final(r),
    {
        self.push_join(table, "LEFT JOIN")
    }

    /// Appends a `RIGHT JOIN` and hands out its builder.
    pub fn right_join(&mut self, table: &str) -> (r: &mut JoinBuilder)
        ensures
            jb_is_new(*r, table@, "RIGHT JOIN"@),
            *final(self) == (crate::query::QueryBuilder { join: final(self).join, ..*old(self) }),
            final(self).join@.len() == old(self).join@.len() + 1,
            final(self).join@.take(old(self).join@.len() as int) == old(self).join@,
            final(self).join@.last() == *final(r),
    {
        self.push_join(table, "RIGHT JOIN")
    }

    /// Appends a `LEFT OUTER JOIN` and hands out its builder.
    pub fn left_outer_join(&mut self, table: &str) -> (r: &mut JoinBuilder)
        ensures
            jb_is_new(*r, table@, "LEFT OUTER JOIN"@),
            *final(self) == (crate::query::QueryBuilder { join: final(self).join, ..*old(self) }),
            final(self).join@.len() == old(self).join@.len() + 1,
            final(self).join@.take(old(self).join@.len() as int) == old(self).join@,
            final(self).join@.last() == *final(r),
    {
        self.push_join(table, "LEFT OUTER JOIN")
    }

    /// Appends a `RIGHT OUTER JOIN` and hands out its builder.
    pub fn right_outer_join(&mut self, table: &str) -> (r: &mut JoinBuilder)
        ensures
            jb_is_new(*r, table@, "RIGHT OUTER JOIN"@),
            *final(self) == (crate::query::QueryBuilder { join: final(self).join, ..*old(self) }),
            final(self).join@.len() == old(self).join@.len() + 1,
            final(self).join@.take(old(self).join@.len() as int) == old(self).join@,
            final(self).join@.last() == *final(r),
    {
        self.push_join(table, "RIGHT OUTER JOIN")
    }

    /// Appends a `FULL OUTER JOIN` and hands out its builder.
    pub fn full_outer_join(&mut self, table: &str) -> (r: &mut JoinBuilder)
        ensures
            jb_is_new(*r, table@, "FULL OUTER JOIN"@),
            *final(self) == (crate::query::QueryBuilder { join: final(self).join, ..*old(self) }),
            final(self).join@.len() == old(self).join@.len() + 1,
            final(self).join@.take(old(self).join@.len() as int) == old(self).join@,
            final(self).join@.last() == *final(r),
    {
        self.push_join(table, "FULL OUTER JOIN")
    }

    /// Appends a `CROSS JOIN` and hands out its builder.
    pub fn cross_join(&mut self, table: &str) -> (r: &mut JoinBuilder)
        ensures
            jb_is_new(*r, table@, "CROSS JOIN"@),
            *final(self) == (crate::query::QueryBuilder { join: final(self).join, ..*old(self) }),
            final(self).join@.len() == old(self).join@.len() + 1,
            final(self).join@.take(old(self).join@.len() as int) == old(self).join@,
            final(self).join@.last() == *final(r),
    {
        self.push_join(table, "CROSS JOIN")
    }

    /// Appends a raw join fragment with optional bind values.
    pub fn raw_join(&mut self, raw: &str, val: Option<Vec<Value>>)
        ensures
            ({
                let j = final(self).join@.last();
                &&& *final(self) == (crate::query::QueryBuilder {
                    join: final(self).join,
                    ..*old(self)
                })
                &&& final(self).join@ == old(self).join@.push(j)
                &&& j.raw matches Some(p) && p.0@ == raw@ && p.1 == val
                &&& j.statement@.len() == 0
            }),
    {
        self.join.push(
            JoinBuilder {
                table: raw.to_owned(),
                join_type: String::new(),
                statement: Vec::new(),
                raw: Some((raw.to_owned(), val)),
                as_name: None,
            },
        );
    }

    /// Appends a `JOIN … USING (…)` clause as a raw join fragment.
    pub fn join_using(&mut self, table: &str, columns: Vec<String>)
        ensures
            ({
                let j = final(self).join@.last();
                &&& *final(self) == (crate::query::QueryBuilder {
                    join: final(self).join,
                    ..*old(self)
                })
                &&& final(self).join@ == old(self).join@.push(j)
                &&& j.raw matches Some(p) && ({
                    &&& p.0@ == "JOIN "@ + table@ + " USING ("@ + crate::strutil::sep_join(
                        crate::strutil::strs_deep(columns@),
                        ", "@,
                    ) + ")"@
                    &&& p.1 is None
                })
                &&& j.statement@.len() == 0
            }),
    {
        let cols = crate::strutil::join_strings(&columns, ", ");
        let sql = crate::strutil::concat5("JOIN ", table, " USING (", cols.as_str(), ")");
        proof {
            assert(sql@ =~= "JOIN "@ + table@ + " USING ("@ + crate::strutil::sep_join(
                crate::strutil::strs_deep(columns@),
                ", "@,
            ) + ")"@);
        }
        self.raw_join(sql.as_str(), None);
    }
}

} // verus!
