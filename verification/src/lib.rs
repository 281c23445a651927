//! Finds the project roots in a directory tree.
//!
//! A directory is a project root when it is under version control or holds
//! the marks of a package ecosystem. The walk over the tree is written as a
//! machine that asks for one filesystem operation at a time and is told its
//! outcome: the machine decides, its caller touches the disk.

pub mod error;
pub mod examine;
pub mod laws;
pub mod marker;
pub mod model;
pub mod project;
pub mod report;
pub mod walk;
