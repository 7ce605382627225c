//! A supervisor run: selecting domains, building the report and the summary.
pub mod report;
pub mod selection;
