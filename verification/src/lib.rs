//! Finds the packages below a directory: the rules of the scan, and the
//! fingerprint and the table of what it found.
//!
//! The library does no input or output. A walk over the file system reports
//! what it meets to a [`Scanner`], which decides what is skipped, what is
//! read, and what counts as a package:
//!
//! - [`filter`]: which entries of a walk are hidden;
//! - [`manifest`]: what a manifest is, and how the package name is read from it;
//! - [`scanner`]: the scan itself, as a function of the events of a walk;
//! - [`json`] and [`fingerprint`]: the text that stands for the projects found,
//!   and the digest of it;
//! - [`report`]: the rows of the table of projects;
//! - [`text`] and [`hex`]: scanning of characters, and hexadecimal digits.

pub mod filter;
pub mod fingerprint;
pub mod hex;
pub mod json;
pub mod manifest;
pub mod project;
pub mod report;
pub mod scanner;
pub mod text;

pub use filter::{should_skip, Entry};
pub use fingerprint::{calculate_hash, ProjectFile};
pub use manifest::extract_package_name;
pub use project::Project;
pub use scanner::{Action, Scanner, WalkEvent};
