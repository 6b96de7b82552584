//! A verified bracket-matching engine.
//!
//! A single forward pass over source text finds matched bracket pairs,
//! reports unmatched or mismatched brackets, tracks nesting depth, and
//! assigns a cyclic rainbow color level per depth, while ignoring bracket
//! characters that sit inside string literals or comments.  The behaviour
//! of the scan is pinned down by a functional model (see [`scan`]), and the
//! laws the engine obeys are stated and proved in [`laws`].

pub mod brackets;
pub mod chars;
mod clock;
pub mod editor;
pub mod laws;
pub mod matcher;
pub mod scan;
pub mod transport;
