//! A verified ORM core: a condition-to-SQL compilation engine.
//!
//! The crate compiles dialect-agnostic filter conditions into parameterized
//! SQL fragments for SELECT, INSERT and UPDATE statement shapes, together
//! with an ordered list of bind arguments, and provides the typed value
//! codec that serializes native values into a textual form and re-hydrates
//! them into native bind values at execution time. All compilation is pure;
//! executing the compiled statements against a database engine is left to
//! the surrounding application.

pub mod builder;
pub mod condition;
pub mod dialect;
pub mod model;
pub mod statement;
pub mod strutil;
pub mod types;
pub mod value;
