//! A programmatic SQL statement builder.
//!
//! A statement is assembled in memory — operation, table, select list,
//! condition tree, joins and common clauses — and then compiled into a
//! dialect-specific SQL string together with an ordered list of bind values
//! for parameterized execution.  The compiler guarantees that the bind values
//! line up with the placeholders of the emitted SQL.

pub mod builder;
pub mod compile;
pub mod join;
pub mod keys;
pub mod laws;
pub mod mysql;
pub mod operator;
pub mod parity;
pub mod query;
pub mod sqlite;
pub mod strutil;
pub mod types;
pub mod value;

pub use builder::ChainBuilder;
pub use join::JoinBuilder;
pub use join::JoinStatement;
pub use compile::{join_compiler, method_compiler, statement_compiler};
pub use operator::operator_to_sql;
pub use operator::Operator;
pub use value::DVal;
pub use query::QueryBuilder;
pub use types::Client;
pub use types::Common;
pub use types::CompileError;
pub use types::Method;
pub use types::Select;
pub use types::Statement;
pub use value::Value;
