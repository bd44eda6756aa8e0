//! Validation of an organisation's governance records: contributors, teams
//! and repositories are checked for naming, for references between them and
//! for the outcome of identity lookups at GitHub and Slack, and the findings
//! are gathered into one report.

pub mod text;
pub mod lists;
pub mod model;
pub mod style;
pub mod checks;
pub mod outcome;
pub mod request;
pub mod github;
pub mod json;
pub mod slack;
pub mod identity;
pub mod report;
pub mod validator;
pub mod loader;
pub mod graph;
