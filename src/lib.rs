use vstd::prelude::*;

pub mod frame;
pub mod glyphs;
pub mod scene;

pub use glyphs::{glyph_indices, glyphs_with_advances};

verus! {

/// Marker sent from the compositor's notifier when a submitted frame is ready.
pub struct Msg {}

} // verus!
