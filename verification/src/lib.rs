//! Version classification, comparison and advisory matching for the
//! dependencies that a project manifest declares.

pub mod advisory;
pub mod dependency;
pub mod laws;
pub mod manifest;
pub mod numeral;
pub mod order;
pub mod output;
pub mod parse;
pub mod render;
pub mod report;
pub mod specifier;
pub mod version;
