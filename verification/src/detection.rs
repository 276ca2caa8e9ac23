//! One detected object.

use vstd::prelude::*;
use crate::geometry::BoundingBox;
use crate::labels::ClassLabel;

verus! {

/// Tenths in a confidence of one.
pub const CONFIDENCE_ONE: i64 = 10;

/// A box, what it holds, and how sure the model was, in tenths.
#[derive(Clone, Copy, Debug, PartialEq, Eq, Structural)]
pub struct Detection {
    pub bbox: BoundingBox,
    pub label: ClassLabel,
    pub confidence: i64,
}

} // verus!
