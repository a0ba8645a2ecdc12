//! Tests the crates that depend on a crate against its work in progress.
//!
//! The library holds the decisions of the tool: where the crate under test and
//! its reverse dependencies are found in the registry, how the newest version of
//! a dependency is picked, how a fetch follows a redirect, how one dependency's
//! test goes from version lookup through two builds to passed, regressed, broken
//! or error, and what the summary and the HTML report say. The program around it
//! does the fetching, building, printing and writing that these steps ask for.


pub mod error;
pub mod manifest;
pub mod registry;
pub mod report;
pub mod testing;
pub mod text;
pub mod version;

