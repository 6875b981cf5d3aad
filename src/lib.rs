//! Bulk import of legacy KSM score logs into a USC score database.
//!
//! The verified core: score-line parsing, chart path derivation, a digest
//! cache, the version-19 row layout and the step-wise import driver.
use vstd::prelude::*;

pub mod text;
pub mod score;
pub mod chart;
pub mod schema;
pub mod importer;
pub mod digest;

verus! {

} // verus!
