//! Offline documents: data point documents and source definitions.
//!
//! Both take documents already read from text (JSON for data points, TOML for
//! source definitions) and hold every rule that applies to what was read.
pub mod document;
pub mod source_definition;
