//! The clock slot.

use vstd::prelude::*;
use vstd::string::StringExecFns;

use crate::collector::{Block, BlockError};

verus! {

/// Relies on chrono's `Local::now` and `DateTime::format`: the local time
/// now, as `(KW<ISO week>) <month>/<day>/<year> <hour>:<minute> <AM|PM>`.
/// The time changes from call to call, so nothing is stated of the text.
#[verifier::external_body]
fn local_time_now() -> (r: String) {
    chrono::offset::Local::now().format("(KW%V) %m/%d/%Y %I:%M %p").to_string()
}

/// What the clock slot shows for a written time.
pub open spec fn clock_text_of(time: Seq<char>) -> Seq<char> {
    "🕛 "@ + time
}

/// The clock slot's text for a written time.
pub fn clock_text(time: &str) -> (r: String)
    ensures
        r@ == clock_text_of(time@),
{
    let mut s = String::from_str("🕛 ");
    s.append(time);
    s
}

/// The clock: always has something to show.
pub struct Clock {}

impl Clock {
    pub fn new() -> (r: Clock) {
        Clock {}
    }

    /// The clock's text for the time now.
    pub fn now_text(&self) -> (r: String)
        ensures
            exists|t: Seq<char>| r@ == clock_text_of(t),
    {
        let now = local_time_now();
        clock_text(now.as_str())
    }
}

impl Block for Clock {
    fn run(&self) -> Result<Option<String>, BlockError> {
        Ok(Some(self.now_text()))
    }
}

} // verus!
