//! The MySQL dialect: bound placeholders for LIMIT and OFFSET.

use vstd::prelude::*;

pub use crate::compile::ToSql;

use crate::builder::ChainBuilder;
use crate::compile::{
    assemble_binds, assemble_sql, builder_err, builder_parts, full_compile, to_sql_parts,
    tosql_parts,
};
use crate::types::{Client, CompileError};
use crate::value::{vals_deep, Value};

verus! {

/// Compiles every part of a statement for MySQL.
pub fn to_sql(chain_builder: &ChainBuilder) -> (r: Result<ToSql, CompileError>)
    ensures
        builder_err(*chain_builder, Client::Mysql) matches Some(e) ==> r == Err::<
            ToSql,
            CompileError,
        >(e),
        builder_err(*chain_builder, Client::Mysql) is None ==> ({
            &&& r matches Ok(t)
            &&& tosql_parts(t) == builder_parts(*chain_builder, Client::Mysql)
        }),
{
    to_sql_parts(chain_builder, Client::Mysql)
}

/// Assembles compiled parts into MySQL text and bind values.
pub fn merge_to_sql(to_sql: ToSql) -> (r: (String, Vec<Value>))
    ensures
        r.0@ == assemble_sql(Client::Mysql, tosql_parts(to_sql)),
        vals_deep(r.1@) == assemble_binds(Client::Mysql, tosql_parts(to_sql)),
{
    crate::compile::merge_to_sql(to_sql, Client::Mysql)
}

} // verus!
