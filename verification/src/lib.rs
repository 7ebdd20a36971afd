//! Mutation testing for a Rust workspace: discover function-level mutation
//! sites in a source tree, compute the build-tool invocations that check,
//! build and test each mutant, and classify the outcome of each run.

pub mod ast;
pub mod cargo;
pub mod config;
pub mod console;
pub mod mutate;
pub mod normalize;
pub mod options;
pub mod outcome;
pub mod parse;
pub mod path;
pub mod source;
pub mod text;
pub mod visit;

use vstd::prelude::*;

verus! {

/// An error that aborts discovery or workspace handling.
#[derive(Debug)]
pub enum MutantsError {
    /// A source file could not be parsed as Rust; holds its tree-relative
    /// path.
    ParseFailed(String),
    /// A source-path glob pattern did not compile.
    InvalidGlob,
    /// A name-filter regex pattern did not compile.
    InvalidRegex,
    /// The build tool's project-locating output held no usable manifest
    /// path.
    NoManifest,
}

} // verus!
