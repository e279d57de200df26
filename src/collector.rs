//! What every data source offers to the scheduler.

use vstd::prelude::*;
use vstd::string::StringExecFns;

verus! {

/// Why a collector could not produce its text this tick.
pub struct BlockError {
    pub reason: String,
}

impl BlockError {
    pub fn new(reason: &str) -> (r: BlockError)
        ensures
            r.reason@ == reason@,
    {
        BlockError { reason: String::from_str(reason) }
    }
}

/// A data source of the status line. `run` yields fresh text, `Ok(None)`
/// when there is deliberately nothing to show, or an error.
pub trait Block {
    fn run(&self) -> Result<Option<String>, BlockError>;
}

} // verus!
