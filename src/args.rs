//! The options a run is started with.
use vstd::prelude::*;

verus! {

/// Command-line options: the input file, debug logging, and whether a
/// failing record aborts the run (by default it is reported and skipped).
pub struct Args {
    pub name: String,
    pub debug: bool,
    pub stop_on_error: bool,
}

} // verus!
