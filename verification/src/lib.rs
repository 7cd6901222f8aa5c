//! Generates thin C++ wrapper classes for vendor C peripheral APIs that
//! follow the `<version>_<kind>_<peripheral>` file- and `PREFIX_Verb`
//! function-naming conventions.
//!
//! The pipeline is: classify a file name, resolve the handle types of the
//! peripheral, select the candidate functions, synthesize one method
//! descriptor per candidate, and render the generated source text.

pub mod classify;
pub mod decl;
pub mod emit;
pub mod laws;
pub mod resolve;
pub mod select;
pub mod strutil;
pub mod synth;
