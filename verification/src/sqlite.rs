//! The SQLite dialect: `LIMIT offset, count` inlined as literals instead of
//! bound placeholders.

use vstd::prelude::*;

pub use crate::compile::ToSql;

use crate::builder::ChainBuilder;
use crate::compile::{
    assemble_binds, assemble_sql, builder_err, builder_parts, to_sql_parts, tosql_parts,
};
use crate::types::{Client, CompileError};
use crate::value::{vals_deep, Value};

verus! {

/// Compiles every part of a statement for SQLite.
pub fn to_sql(chain_builder: &ChainBuilder) -> (r: Result<ToSql, CompileError>)
    ensures
        builder_err(*chain_builder, Client::Sqlite) matches Some(e) ==> r == Err::<
            ToSql,
            CompileError,
        >(e),
        builder_err(*chain_builder, Client::Sqlite) is None ==> ({
            &&& r matches Ok(t)
            &&& tosql_parts(t) == builder_parts(*chain_builder, Client::Sqlite)
        }),
{
    to_sql_parts(chain_builder, Client::Sqlite)
}

/// Assembles compiled parts into SQLite text and bind values.
pub fn merge_to_sql(to_sql: ToSql) -> (r: (String, Vec<Value>))
    ensures
        r.0@ == assemble_sql(Client::Sqlite, tosql_parts(to_sql)),
        vals_deep(r.1@) == assemble_binds(Client::Sqlite, tosql_parts(to_sql)),
{
    crate::compile::merge_to_sql(to_sql, Client::Sqlite)
}

} // verus!
