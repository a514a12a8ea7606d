//! Configuration resolution for a source-code tooling suite.
//!
//! The crate discovers a project's configuration file by walking the
//! directory hierarchy upward, deserializes it strictly (unknown keys are
//! rejected), overlays command-line options onto the parsed value, writes a
//! fresh configuration file for project setup, and projects resolved linter
//! settings into the flat record the rule engine consumes.

use vstd::prelude::*;

pub mod analyzer;
pub mod cli;
pub mod codec;
pub mod configuration;
pub mod diagnostics;
pub mod discovery;
pub mod fs;
pub mod json;
pub mod laws;
pub mod paths;
pub mod string_set;
pub mod text;
pub mod writer;

verus! {

} // verus!
