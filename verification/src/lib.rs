//! Import of tabular moderation reports into a relational store: the rules
//! that turn a CSV source into bound insert statements, and the decisions
//! that drive one import from file to commit.

pub mod import;
pub mod key;
pub mod laws;
pub mod mapping;
pub mod report;
pub mod source;
pub mod statement;
pub mod text;
