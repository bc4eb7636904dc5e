//! Decompilation pipeline planning and source-tree report generation for
//! packaged applications.
//!
//! The library decides what each pipeline stage has to do, extracts the
//! bytecode entry of an application archive, mirrors a recovered source tree
//! into pages and a navigation menu, and renders them through a template
//! registry. Reading and writing files and running the tools is left to the
//! caller, who hands the library what was read and carries out what it plans.

pub mod paths;
pub mod pipeline;
pub mod archive;
pub mod tree;
pub mod mirror;
pub mod shape;
pub mod json;
pub mod report;
