//! Scans a directory tree for build-artifact-bearing project roots, decides
//! for each one whether to clean it (driven by flags or by an interactive
//! confirmation), and reports the projects the user declined.
//!
//! The verified library holds the classification of directories by marker
//! files, the auto-clean / prompt decision flow, the confirmation-answer
//! parsing, the run engine that ties them together, and the exact text of
//! every message the tool prints. Directory walking, argument parsing,
//! terminal I/O and the clean subprocesses live in the unverified binary
//! around the library, which hands plain values in and takes plain values out.

pub mod confirm;
pub mod engine;
pub mod project;
pub mod report;

pub use project::ProjectType;
