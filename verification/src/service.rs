//! What is done with one document.

pub mod linter;
pub mod runner;

pub use linter::Linter;
