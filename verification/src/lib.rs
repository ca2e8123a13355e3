use vstd::prelude::*;

pub mod bez_cache;
pub mod bytes;
pub mod cubic_contour;
pub mod cmap;
pub mod glyph_names;
pub mod glyph_order;
pub mod hyper_contour;
pub mod glyphs_clipboard;
pub mod kerning;
pub mod point;
pub mod mouse;
pub mod point_list;
pub mod preview_font;
pub mod segment;
pub mod select;
pub mod session;
pub mod selection;
pub mod sort;
pub mod theme;
pub mod tools;
pub mod undo;
pub mod virtual_font;
