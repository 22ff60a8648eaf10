use vstd::prelude::*;

verus! {

/// Identifier of a view (a buffer shown in a split or overlay).
#[derive(Debug, Clone, Copy, PartialEq, Eq, Structural)]
pub struct ViewId(pub u64);

/// Identifier of a window (the base window or a floating window).
#[derive(Debug, Clone, Copy, PartialEq, Eq, Structural)]
pub struct WindowId(pub u64);

/// Identifier of a document shared by one or more views.
#[derive(Debug, Clone, Copy, PartialEq, Eq, Structural)]
pub struct DocumentId(pub u64);

} // verus!
