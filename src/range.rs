//! Character ranges of matches in a source text.

use vstd::prelude::*;
use crate::pattern::GroupCapture;

verus! {

/// A half-open range `[start, end)` of offsets into a source text.
#[derive(Debug, Clone, Copy, PartialEq, Eq, Structural)]
pub struct Range {
    pub start: usize,
    pub end: usize,
}

/// The range that a captured group covers.
pub fn match_to_range(m: &GroupCapture) -> (r: Range)
    ensures
        r.start == m.start,
        r.end == m.end,
{
    Range { start: m.start, end: m.end }
}

} // verus!
