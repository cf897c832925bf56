//! What the pointer designates on the canvas.

use vstd::prelude::*;

use crate::domain::model::EventId;

verus! {

/// An event card, or one of its source artifacts when `artifact_index`
/// names it.
#[derive(Clone, Debug, PartialEq, Eq)]
pub struct CanvasSubject {
    pub event: EventId,
    pub artifact_index: Option<usize>,
}

} // verus!
