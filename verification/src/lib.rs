//! Interpretation of the reports of an external source-code clone detector:
//! the report grammar, the parsed model, and the reduction of a report to the
//! clone pairs between one project file and one example file.

pub mod clone_pair;
pub mod config;
pub mod error;
pub mod job;
pub mod path;
pub mod runner;
pub mod session;
pub mod text;
