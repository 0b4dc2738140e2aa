//! Text utilities for scripts.
use crate::text::spec_strip_prefix;
use vstd::prelude::*;

verus! {

/// `value` without its leading repetitions of `trim`.
pub fn strip_prefix(value: &str, trim: &str) -> (r: String)
    ensures
        r@ == spec_strip_prefix(value@, trim@),
{
    crate::text::strip_prefix(value, trim)
}

} // verus!
