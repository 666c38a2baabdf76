//! Test selection, result aggregation and tiered reporting for a contract test runner.

pub mod decimal;
pub mod matcher;
pub mod outcome;
pub mod report;
