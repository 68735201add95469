//! Core of a minimal browser rendering engine: an HTML tokenizer driven by a
//! WHATWG-derived state machine, and a layout engine that turns a styled DOM
//! tree into a tree of boxes plus an ordered list of paint instructions.

pub mod attribute;
pub mod css;
pub mod dom;
pub mod http;
pub mod layout_object;
pub mod layout_view;
pub mod strutil;
pub mod token;

use vstd::prelude::*;

verus! {

/// Width in pixels of the content area the page is laid out into.
pub const CONTENT_AREA_WIDTH: u64 = 600;

/// Width in pixels of one fixed-width glyph.
pub const GLYPH_WIDTH: u64 = 8;

/// Height in pixels of one fixed-width glyph (one text line).
pub const GLYPH_HEIGHT: u64 = 16;

} // verus!
