//! A predicate compiler: rewrites `filter` / `find` calls on queryable entities
//! into a query expression that a storage engine can evaluate, plus a residual
//! closure for whatever cannot be expressed as a query.
pub mod ast;
pub mod query;
pub mod infer;
pub mod codegen;
pub mod rewrite;
pub mod laws;
pub mod manifest;
