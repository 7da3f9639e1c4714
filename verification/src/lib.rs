//! Verified core of `rokf`: frontmatter recognition, Rules, Findings, reports and the
//! Verification of Open Knowledge Format documents.

pub mod check;
pub mod cli;
pub mod document;
pub mod laws;
pub mod text;
pub mod traversal;
pub mod verification;
pub mod yaml;
