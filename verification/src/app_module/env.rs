//! What a script learns of the call it serves.
use vstd::prelude::*;

verus! {

/// What a script is given: the version that it is to work on, and nothing
/// else.
#[derive(Debug)]
pub struct CyreneEnv {
    pub version: String,
}

impl CyreneEnv {
    /// The record for a call that works on `version`.
    pub fn new(version: &str) -> (r: Self)
        ensures
            r.version@ == version@,
    {
        CyreneEnv { version: version.to_owned() }
    }
}

} // verus!
