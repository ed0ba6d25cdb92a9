//! A Markdown style checker: documents are parsed into an indexed syntax tree,
//! a configurable set of rules inspects each tree, and the findings come back
//! as a deterministically ordered list of violations.

pub mod collection;
pub mod command;
pub mod config;
pub mod diagnostic;
pub mod document;
pub mod error;
pub mod output;
pub mod position;
pub mod rule;
pub mod service;
pub mod sorting;
pub mod text;
pub mod violation;

pub use config::Config;
pub use diagnostic::Diagnostic;
pub use document::Document;
pub use position::LineColumn;
pub use position::Sourcepos;
pub use rule::Rule;
pub use service::Linter;
pub use violation::Violation;
