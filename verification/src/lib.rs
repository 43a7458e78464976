use vstd::prelude::*;

pub mod ansi_csi;
pub mod ansi_format;
pub mod ansi_parser;
pub mod area_operations;
pub mod ascii_format;
pub mod atascii_parser;
pub mod attributed_char;
pub mod avatar_parser;
pub mod bin_format;
pub mod buffer;
pub mod buffer_features;
pub mod buffer_type;
pub mod edit_operations;
pub mod caret;
pub mod editor_error;
pub mod font_operations;
pub mod font_table;
pub mod fonts;
pub mod formats;
pub mod geometry;
pub mod layer;
pub mod layer_operations;
pub mod line;
pub mod palette;
pub mod parser_errors;
pub mod pcboard_parser;
pub mod render;
pub mod rip_parser;
pub mod sixel;
pub mod terminal_ops;
pub mod terminal_state;
pub mod text;
pub mod text_attribute;
pub mod undo_operations;
pub mod undo_stack;
pub mod viewdata_parser;
pub mod xbin;

verus! {

} // verus!
