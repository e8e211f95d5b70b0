//! Build-time feature probing: before the main build, small probe programs
//! are compiled and run, and each success enables the matching build feature.
//!
//! The decision logic lives here, verified: the inhibition gate, the lexical
//! ordering of features, the accumulation of enabled features, the artifact
//! kind-priority rule, the probe compile command, and every diagnostic and
//! directive line. The surrounding process work (environment, subprocesses,
//! the log file) is left to the caller.

use vstd::prelude::*;

pub mod artifacts;
pub mod edition;
pub mod gate;
pub mod laws;
pub mod probe;
pub mod run;
pub mod text;

verus! {

/// Name of the probing pipeline's API; it carries no data of its own.
pub enum ConfTest {
    /// The only state the pipeline's name can be in.
    Api,
}

} // verus!
