use vstd::prelude::*;
use vstd::string::StringExecFns;

use crate::compile::{compile_binds, compile_err, compile_sql, full_compile};
use crate::query::{qb_is_empty, QueryBuilder};
use crate::strutil::{concat3, dec_int, i64_to_dec};
use crate::types::{Client, Common, CompileError, Method, Select};
use crate::value::{vals_deep, Value};

verus! {

/// The root of a statement: the operation, the table, the select list, the
/// payload and the query parts, compiled by `to_sql`.
#[derive(Debug)]
pub struct ChainBuilder {
    pub client: Client,
    pub db: Option<String>,
    pub table: Option<String>,
    pub table_raw: Option<(String, Option<Vec<Value>>)>,
    pub as_name: Option<String>,
    pub select: Vec<Select>,
    pub query: QueryBuilder,
    pub method: Method,
    pub insert_update: Value,
    pub is_distinct: bool,
}

impl ChainBuilder {
    /// A structural copy.
    #[verifier::loop_isolation(false)]
    pub(crate) fn duplicate(&self) -> ChainBuilder
        decreases self,
    {
        let mut select: Vec<Select> = Vec::new();
        let mut i: usize = 0;
        while i < self.select.len()
            invariant
                i <= self.select@.len(),
            decreases self.select@.len() - i,
        {
            select.push(self.select[i].duplicate());
            i += 1;
        }
        ChainBuilder {
            client: self.client,
            db: self.db.clone(),
            table: self.table.clone(),
            table_raw: self.table_raw.clone(),
            as_name: self.as_name.clone(),
            select,
            query: self.query.duplicate(),
            method: self.method,
            insert_update: self.insert_update.duplicate(),
            is_distinct: self.is_distinct,
        }
    }
}

impl Clone for ChainBuilder {
    fn clone(&self) -> ChainBuilder {
        self.duplicate()
    }
}

/// A freshly created statement for the given client.
pub open spec fn cb_is_new(b: ChainBuilder, client: Client) -> bool {
    &&& b.client == client
    &&& b.db is None
    &&& b.table is None
    &&& b.table_raw is None
    &&& b.as_name is None
    &&& b.select@.len() == 0
    &&& qb_is_empty(b.query, client)
    &&& b.method == Method::Select
    &&& b.insert_update == Value::Null
    &&& b.is_distinct == false
}

impl ChainBuilder {
    /// An empty SELECT statement for the given client.
    pub fn new(client: Client) -> (r: ChainBuilder)
        ensures
            cb_is_new(r, client),
    {
        ChainBuilder {
            client,
            db: None,
            table: None,
            table_raw: None,
            as_name: None,
            select: Vec::new(),
            query: QueryBuilder::new(client),
            method: Method::Select,
            insert_update: Value::Null,
            is_distinct: false,
        }
    }

    /// An empty statement for the MySQL dialect.
    pub fn new_mysql() -> (r: ChainBuilder)
        ensures
            cb_is_new(r, Client::Mysql),
    {
        ChainBuilder::new(Client::Mysql)
    }

    /// An empty statement for the SQLite dialect.
    pub fn new_sqlite() -> (r: ChainBuilder)
        ensures
            cb_is_new(r, Client::Sqlite),
    {
        ChainBuilder::new(Client::Sqlite)
    }

    /// Sets the database-name prefix.
    pub fn db(&mut self, db: &str) -> (r: &mut ChainBuilder)
        ensures
            *r == (ChainBuilder { db: r.db, ..*old(self) }),
            r.db matches Some(s) && s@ == db@,
            *final(self) == *final(r),
    {
        self.db = Some(db.to_owned());
        self
    }

    /// Sets the table name.
    pub fn table(&mut self, table: &str) -> (r: &mut ChainBuilder)
        ensures
            *r == (ChainBuilder { table: r.table, ..*old(self) }),
            r.table matches Some(s) && s@ == table@,
            *final(self) == *final(r),
    {
        self.table = Some(table.to_owned());
        self
    }

    /// Sets a raw table expression with optional bind values; when present it
    /// takes the table name's place.
    pub fn table_raw(&mut self, table: &str, val: Option<Vec<Value>>) -> (r: &mut ChainBuilder)
        ensures
            *r == (ChainBuilder { table_raw: r.table_raw, ..*old(self) }),
            r.table_raw matches Some(p) && p.0@ == table@ && p.1 == val,
            *final(self) == *final(r),
    {
        self.table_raw = Some((table.to_owned(), val));
        self
    }

    /// Sets the table alias.
    pub fn as_name(&mut self, name: &str) -> (r: &mut ChainBuilder)
        ensures
            *r == (ChainBuilder { as_name: r.as_name, ..*old(self) }),
            r.as_name matches Some(s) && s@ == name@,
            *final(self) == *final(r),
    {
        self.as_name = Some(name.to_owned());
        self
    }

    /// Turns the select list into `SELECT DISTINCT`.
    pub fn distinct(&mut self) -> (r: &mut ChainBuilder)
        ensures
            *r == (ChainBuilder { is_distinct: true, ..*old(self) }),
            *final(self) == *final(r),
    {
        self.is_distinct = true;
        self
    }

    /// Appends a select-list entry and makes the statement a SELECT.
    pub fn select(&mut self, select: Select) -> (r: &mut ChainBuilder)
        ensures
            *r == (ChainBuilder {
                select: r.select,
                method: Method::Select,
                ..*old(self)
            }),
            r.select@ == old(self).select@.push(select),
            *final(self) == *final(r),
    {
        self.method = Method::Select;
        self.select.push(select);
        self
    }

    /// Appends a raw select expression with optional bind values.
    pub fn select_raw(&mut self, sql: &str, binds: Option<Vec<Value>>) -> (r: &mut ChainBuilder)
        ensures
            ({
                let e = r.select@.last();
                &&& *r == (ChainBuilder {
                    select: r.select,
                    method: Method::Select,
                    ..*old(self)
                })
                &&& r.select@ == old(self).select@.push(e)
                &&& e matches Select::Raw(s, b) && s@ == sql@ && b == binds
            }),
            *final(self) == *final(r),
    {
        self.method = Method::Select;
        self.select.push(Select::Raw(sql.to_owned(), binds));
        self
    }

    /// Appends the given columns and makes the select list `DISTINCT`.
    pub fn select_distinct(&mut self, columns: Vec<String>) -> (r: &mut ChainBuilder)
        ensures
            *r == (ChainBuilder {
                select: r.select,
                method: Method::Select,
                is_distinct: true,
                ..*old(self)
            }),
            r.select@ == old(self).select@.push(Select::Columns(columns)),
            *final(self) == *final(r),
    {
        self.method = Method::Select;
        self.is_distinct = true;
        self.select.push(Select::Columns(columns));
        self
    }

    /// Appends a `COUNT(column)` select expression.
    pub fn select_count(&mut self, column: &str) -> (r: &mut ChainBuilder)
        ensures
            ({
                let e = r.select@.last();
                &&& *r == (ChainBuilder {
                    select: r.select,
                    method: Method::Select,
                    ..*old(self)
                })
                &&& r.select@ == old(self).select@.push(e)
                &&& e matches Select::Raw(s, b) && s@ == "COUNT("@ + column@ + ")"@ && b is None
            }),
            *final(self) == *final(r),
    {
        self.method = Method::Select;
        self.select.push(Select::Raw(concat3("COUNT(", column, ")"), None));
        self
    }

    /// Appends a `SUM(column)` select expression.
    pub fn select_sum(&mut self, column: &str) -> (r: &mut ChainBuilder)
        ensures
            ({
                let e = r.select@.last();
                &&& *r == (ChainBuilder {
                    select: r.select,
                    method: Method::Select,
                    ..*old(self)
                })
                &&& r.select@ == old(self).select@.push(e)
                &&& e matches Select::Raw(s, b) && s@ == "SUM("@ + column@ + ")"@ && b is None
            }),
            *final(self) == *final(r),
    {
        self.method = Method::Select;
        self.select.push(Select::Raw(concat3("SUM(", column, ")"), None));
        self
    }

    /// Appends an `AVG(column)` select expression.
    pub fn select_avg(&mut self, column: &str) -> (r: &mut ChainBuilder)
        ensures
            ({
                let e = r.select@.last();
                &&& *r == (ChainBuilder {
                    select: r.select,
                    method: Method::Select,
                    ..*old(self)
                })
                &&& r.select@ == old(self).select@.push(e)
                &&& e matches Select::Raw(s, b) && s@ == "AVG("@ + column@ + ")"@ && b is None
            }),
            *final(self) == *final(r),
    {
        self.method = Method::Select;
        self.select.push(Select::Raw(concat3("AVG(", column, ")"), None));
        self
    }

    /// Appends a `MAX(column)` select expression.
    pub fn select_max(&mut self, column: &str) -> (r: &mut ChainBuilder)
        ensures
            ({
                let e = r.select@.last();
                &&& *r == (ChainBuilder {
                    select: r.select,
                    method: Method::Select,
                    ..*old(self)
                })
                &&& r.select@ == old(self).select@.push(e)
                &&& e matches Select::Raw(s, b) && s@ == "MAX("@ + column@ + ")"@ && b is None
            }),
            *final(self) == *final(r),
    {
        self.method = Method::Select;
        self.select.push(Select::Raw(concat3("MAX(", column, ")"), None));
        self
    }

    /// Appends a `MIN(column)` select expression.
    pub fn select_min(&mut self, column: &str) -> (r: &mut ChainBuilder)
        ensures
            ({
                let e = r.select@.last();
                &&& *r == (ChainBuilder {
                    select: r.select,
                    method: Method::Select,
                    ..*old(self)
                })
                &&& r.select@ == old(self).select@.push(e)
                &&& e matches Select::Raw(s, b) && s@ == "MIN("@ + column@ + ")"@ && b is None
            }),
            *final(self) == *final(r),
    {
        self.method = Method::Select;
        self.select.push(Select::Raw(concat3("MIN(", column, ")"), None));
        self
    }

    /// Appends a `column AS alias` select expression.
    pub fn select_alias(&mut self, column: &str, alias: &str) -> (r: &mut ChainBuilder)
        ensures
            ({
                let e = r.select@.last();
                &&& *r == (ChainBuilder {
                    select: r.select,
                    method: Method::Select,
                    ..*old(self)
                })
                &&& r.select@ == old(self).select@.push(e)
                &&& e matches Select::Raw(s, b) && s@ == column@ + " AS "@ + alias@ && b is None
            }),
            *final(self) == *final(r),
    {
        self.method = Method::Select;
        self.select.push(Select::Raw(concat3(column, " AS ", alias), None));
        self
    }

    /// Makes the statement a single-row INSERT of the given payload.
    pub fn insert(&mut self, data: Value) -> (r: &mut ChainBuilder)
        ensures
            *r == (ChainBuilder { method: Method::Insert, insert_update: data, ..*old(self) }),
            *final(self) == *final(r),
    {
        self.method = Method::Insert;
        self.insert_update = data;
        self
    }

    /// Makes the statement a multi-row INSERT of the given rows.
    pub fn insert_many(&mut self, data: Vec<Value>) -> (r: &mut ChainBuilder)
        ensures
            *r == (ChainBuilder {
                method: Method::InsertMany,
                insert_update: Value::Array(data),
                ..*old(self)
            }),
            *final(self) == *final(r),
    {
        self.method = Method::InsertMany;
        self.insert_update = Value::Array(data);
        self
    }

    /// Makes the statement an UPDATE with the given payload.
    pub fn update(&mut self, data: Value) -> (r: &mut ChainBuilder)
        ensures
            *r == (ChainBuilder { method: Method::Update, insert_update: data, ..*old(self) }),
            *final(self) == *final(r),
    {
        self.method = Method::Update;
        self.insert_update = data;
        self
    }

    /// Makes the statement an INSERT of the given payload; the ignore
    /// variant is not rendered differently from `insert`.
    pub fn insert_ignore(&mut self, data: Value) -> (r: &mut ChainBuilder)
        ensures
            *r == (ChainBuilder { method: Method::Insert, insert_update: data, ..*old(self) }),
            *final(self) == *final(r),
    {
        self.method = Method::Insert;
        self.insert_update = data;
        self
    }

    /// Makes the statement an INSERT of `data`; the update payload is
    /// accepted for interface compatibility and is not rendered.
    pub fn insert_or_update(&mut self, data: Value, _update_data: Value) -> (r: &mut ChainBuilder)
        ensures
            *r == (ChainBuilder { method: Method::Insert, insert_update: data, ..*old(self) }),
            *final(self) == *final(r),
    {
        self.method = Method::Insert;
        self.insert_update = data;
        self
    }

    /// Makes the statement an UPDATE; the raw text is accepted for
    /// interface compatibility and is not rendered.
    pub fn update_raw(&mut self, _sql: &str, _binds: Option<Vec<Value>>) -> (r: &mut ChainBuilder)
        ensures
            *r == (ChainBuilder { method: Method::Update, ..*old(self) }),
            *final(self) == *final(r),
    {
        self.method = Method::Update;
        self
    }

    /// Makes the statement an UPDATE that sets `column = column + amount`.
    pub fn increment(&mut self, column: &str, amount: i64) -> (r: &mut ChainBuilder)
        ensures
            ({
                &&& *r == (ChainBuilder {
                    method: Method::Update,
                    insert_update: r.insert_update,
                    ..*old(self)
                })
                &&& r.insert_update matches Value::Object(fields) && ({
                    &&& fields@.len() == 1
                    &&& fields@[0].0@ == column@
                    &&& fields@[0].1 matches Value::Str(s) && s@ == column@ + " + "@ + dec_int(
                        amount as int,
                    )
                })
            }),
            *final(self) == *final(r),
    {
        self.method = Method::Update;
        let mut expr = column.to_owned();
        expr.append(" + ");
        let dec = i64_to_dec(amount);
        expr.append(dec.as_str());
        proof {
            assert(expr@ =~= column@ + " + "@ + dec_int(amount as int));
        }
        self.insert_update = Value::Object(vec![(column.to_owned(), Value::Str(expr))]);
        self
    }

    /// Makes the statement an UPDATE that sets `column = column - amount`.
    pub fn decrement(&mut self, column: &str, amount: i64) -> (r: &mut ChainBuilder)
        ensures
            ({
                &&& *r == (ChainBuilder {
                    method: Method::Update,
                    insert_update: r.insert_update,
                    ..*old(self)
                })
                &&& r.insert_update matches Value::Object(fields) && ({
                    &&& fields@.len() == 1
                    &&& fields@[0].0@ == column@
                    &&& fields@[0].1 matches Value::Str(s) && s@ == column@ + " - "@ + dec_int(
                        amount as int,
                    )
                })
            }),
            *final(self) == *final(r),
    {
        self.method = Method::Update;
        let mut expr = column.to_owned();
        expr.append(" - ");
        let dec = i64_to_dec(amount);
        expr.append(dec.as_str());
        proof {
            assert(expr@ =~= column@ + " - "@ + dec_int(amount as int));
        }
        self.insert_update = Value::Object(vec![(column.to_owned(), Value::Str(expr))]);
        self
    }

    /// Makes the statement a DELETE.
    pub fn delete(&mut self) -> (r: &mut ChainBuilder)
        ensures
            *r == (ChainBuilder { method: Method::Delete, ..*old(self) }),
            *final(self) == *final(r),
    {
        self.method = Method::Delete;
        self
    }

    /// Appends a WITH clause (common table expression).
    pub fn with(&mut self, alias: &str, chain_builder: ChainBuilder) -> (r: &mut ChainBuilder)
        ensures
            ({
                let c = r.query.query_common@.last();
                &&& *r == (ChainBuilder { query: r.query, ..*old(self) })
                &&& r.query == (QueryBuilder {
                    query_common: r.query.query_common,
                    ..old(self).query
                })
                &&& r.query.query_common@ == old(self).query.query_common@.push(c)
                &&& c matches Common::With(a, rec, cb) && a@ == alias@ && rec == false && cb
                    == chain_builder
            }),
            *final(self) == *final(r),
    {
        self.query.query_common.push(Common::With(alias.to_owned(), false, chain_builder));
        self
    }

    /// Appends a recursive WITH clause.
    pub fn with_recursive(&mut self, alias: &str, chain_builder: ChainBuilder) -> (r:
        &mut ChainBuilder)
        ensures
            ({
                let c = r.query.query_common@.last();
                &&& *r == (ChainBuilder { query: r.query, ..*old(self) })
                &&& r.query == (QueryBuilder {
                    query_common: r.query.query_common,
                    ..old(self).query
                })
                &&& r.query.query_common@ == old(self).query.query_common@.push(c)
                &&& c matches Common::With(a, rec, cb) && a@ == alias@ && rec == true && cb
                    == chain_builder
            }),
            *final(self) == *final(r),
    {
        self.query.query_common.push(Common::With(alias.to_owned(), true, chain_builder));
        self
    }

    /// Appends a UNION clause.
    pub fn union(&mut self, chain_builder: ChainBuilder) -> (r: &mut ChainBuilder)
        ensures
            *r == (ChainBuilder { query: r.query, ..*old(self) }),
            r.query == (QueryBuilder { query_common: r.query.query_common, ..old(self).query }),
            r.query.query_common@ == old(self).query.query_common@.push(
                Common::Union(false, chain_builder),
            ),
            *final(self) == *final(r),
    {
        self.query.query_common.push(Common::Union(false, chain_builder));
        self
    }

    /// Appends a UNION ALL clause.
    pub fn union_all(&mut self, chain_builder: ChainBuilder) -> (r: &mut ChainBuilder)
        ensures
            *r == (ChainBuilder { query: r.query, ..*old(self) }),
            r.query == (QueryBuilder { query_common: r.query.query_common, ..old(self).query }),
            r.query.query_common@ == old(self).query.query_common@.push(
                Common::Union(true, chain_builder),
            ),
            *final(self) == *final(r),
    {
        self.query.query_common.push(Common::Union(true, chain_builder));
        self
    }

    /// Hands out the statement's query builder (WHERE, JOIN and common clauses).
    pub fn query(&mut self) -> (r: &mut QueryBuilder)
        ensures
            *r == old(self).query,
            *final(self) == (ChainBuilder { query: *final(r), ..*old(self) }),
    {
        &mut self.query
    }

    /// Appends a raw trailing SQL fragment with optional bind values.
    pub fn add_raw(&mut self, sql: &str, val: Option<Vec<Value>>)
        ensures
            ({
                let e = final(self).query.raw@.last();
                &&& *final(self) == (ChainBuilder { query: final(self).query, ..*old(self) })
                &&& final(self).query == (QueryBuilder {
                    raw: final(self).query.raw,
                    ..old(self).query
                })
                &&& final(self).query.raw@ == old(self).query.raw@.push(e)
                &&& e.0@ == sql@ && e.1 == val
            }),
    {
        self.query.raw.push((sql.to_owned(), val));
    }
}

impl ChainBuilder {
    /// Compiles the statement for its client.
    ///
    /// On success the SQL text and the bind values are exactly the compiled
    /// form of the tree: the bind values sit in the order of the placeholders
    /// they feed.  Every malformed tree is reported as an error; compilation
    /// reads the statement and never panics.
    pub fn to_sql(&self) -> (r: Result<(String, Vec<Value>), CompileError>)
        ensures
            compile_err(*self) matches Some(e) ==> r == Err::<(String, Vec<Value>), CompileError>(
                e,
            ),
            compile_err(*self) is None ==> ({
                &&& r matches Ok(p)
                &&& p.0@ == compile_sql(*self)
                &&& vals_deep(p.1@) == compile_binds(*self)
            }),
    {
        match self.client {
            Client::Postgres => Err(CompileError::UnsupportedClient),
            _ => full_compile(self, self.client),
        }
    }
}

} // verus!
