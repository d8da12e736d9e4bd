//! The names under which a segment's buffer and its reader are also known.

use crate::lazybytes::{LazyBytes, LazyBytesStream};
use vstd::prelude::*;

verus! {

/// A segment's bytes and whether they are complete.
pub type Segment = LazyBytes;

/// A reader of a segment's bytes.
pub type SegmentStream = LazyBytesStream;

} // verus!
