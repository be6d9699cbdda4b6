//! Fake tabular data: a schema of typed columns, generators for each type, the
//! encoding of generated rows into typed columns, the delimited encoding of
//! records, and the bookkeeping that splits columnar output over files bounded in
//! row groups and in bytes.

pub mod rolling;
pub mod schema;
pub mod decimal;
pub mod generate;
pub mod encode;
pub mod lines;
pub mod run;
