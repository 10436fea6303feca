//! Execution engine for declarative HTTP API test suites: variable
//! substitution, response validation, rule evaluation and result tallying.
pub mod text;
pub mod json;
pub mod resolve;
pub mod rule;
pub mod model;
pub mod validate;
pub mod eval;
pub mod runner;
pub mod curl;
pub mod report;
