use icy_engine::attributed_char::AttributedChar;
use icy_engine::buffer::Buffer;
use icy_engine::buffer_type::FontMode;
use icy_engine::editor_error::EditorError;
use icy_engine::fonts::BitFont;
use icy_engine::geometry::{Position, Rectangle, Size};
use icy_engine::text_attribute::TextAttribute;
use icy_engine::undo_operations::EditState;

fn named_font(name: &str, height: u8) -> BitFont {
    let mut font = BitFont::from_basic(8, height, &vec![0u8; 256 * height as usize]);
    font.name = name.to_string();
    font
}

/// A font of two pixel rows: 'A' has its top left and bottom right pixel
/// set, every other glyph is empty.
fn two_row_font() -> BitFont {
    let mut data = vec![0u8; 256 * 2];
    data[65 * 2] = 0x80;
    data[65 * 2 + 1] = 0x01;
    BitFont::from_basic(8, 2, &data)
}

#[test]
fn font_table_starts_empty() {
    let buf = Buffer::new(Size::new(80, 25));
    assert!(!buf.has_fonts());
    assert_eq!(0, buf.font_count());
    assert!(buf.get_font(0).is_none());
    assert!(!buf.is_font_table_updated());
}

#[test]
fn set_get_and_remove_fonts() {
    let mut buf = Buffer::new(Size::new(80, 25));
    buf.set_font(0, named_font("first", 16));
    assert!(buf.has_fonts());
    assert!(buf.has_font(0));
    assert!(!buf.has_font(1));
    assert!(buf.is_font_table_updated());
    assert_eq!(Size::new(8, 16), buf.get_font_dimensions());
    assert_eq!(Size::new(8, 16), buf.get_font(0).unwrap().size);

    buf.set_font_table_is_updated();
    assert!(!buf.is_font_table_updated());

    let removed = buf.remove_font(0).unwrap();
    assert_eq!("first", removed.name);
    assert!(buf.remove_font(0).is_none());
    assert_eq!(0, buf.font_count());
}

#[test]
fn append_font_takes_the_lowest_free_page() {
    let mut buf = Buffer::new(Size::new(80, 25));
    assert_eq!(0, buf.append_font(named_font("a", 8)));
    assert_eq!(1, buf.append_font(named_font("b", 8)));
    assert_eq!(2, buf.append_font(named_font("c", 8)));
    buf.remove_font(1);
    assert_eq!(1, buf.append_font(named_font("d", 8)));
    assert_eq!(3, buf.font_count());
}

#[test]
fn search_font_by_name_finds_the_page() {
    let mut buf = Buffer::new(Size::new(80, 25));
    buf.set_font(0, named_font("IBM VGA", 16));
    buf.set_font(7, named_font("Amiga Topaz 1", 8));
    assert_eq!(Some(7), buf.search_font_by_name("Amiga Topaz 1"));
    assert_eq!(Some(0), buf.search_font_by_name("IBM VGA"));
    assert_eq!(None, buf.search_font_by_name("IBM VGA 437"));
}

#[test]
fn font_table_copy_and_clear() {
    let mut buf = Buffer::new(Size::new(80, 25));
    buf.set_font(3, named_font("x", 8));
    let table = buf.get_font_table();
    buf.clear_font_table();
    assert!(!buf.has_fonts());
    assert!(buf.is_font_table_updated());
    buf.set_font_table(table);
    assert!(buf.has_font(3));
    assert_eq!(1, buf.font_count());
}

#[test]
fn render_draws_glyph_pixels() {
    let mut buf = Buffer::new(Size::new(2, 1));
    buf.set_font(0, two_row_font());
    buf.layers[0].set_char(Position::new(0, 0), AttributedChar::new('A', TextAttribute::from_color(7, 0)));
    buf.layers[0].set_char(Position::new(1, 0), AttributedChar::new('B', TextAttribute::from_color(7, 1)));
    let (size, pixels) = buf.render_to_rgba(Rectangle::from(0, 0, 2, 1));
    assert_eq!(Size::new(16, 2), size);
    assert_eq!(16 * 2 * 4, pixels.len());
    // top left pixel of 'A': foreground
    assert_eq!(&[0xAA, 0xAA, 0xAA, 0xFF], &pixels[0..4]);
    // its neighbour: background
    assert_eq!(&[0x00, 0x00, 0x00, 0xFF], &pixels[4..8]);
    // second row, last pixel of 'A': foreground
    let row = 16 * 4;
    assert_eq!(&[0xAA, 0xAA, 0xAA, 0xFF], &pixels[row + 7 * 4..row + 8 * 4]);
    // 'B' has an empty glyph: all its pixels are its blue background
    assert_eq!(&[0x00, 0x00, 0xAA, 0xFF], &pixels[8 * 4..9 * 4]);
}

#[test]
fn render_shows_bold_in_bright_colors() {
    let mut buf = Buffer::new(Size::new(1, 1));
    buf.set_font(0, two_row_font());
    let mut attr = TextAttribute::from_color(1, 0);
    attr.set_is_bold(true);
    buf.layers[0].set_char(Position::new(0, 0), AttributedChar::new('A', attr));
    let (_, pixels) = buf.render_to_rgba(Rectangle::from(0, 0, 1, 1));
    assert_eq!(&[0x55, 0x55, 0xFF, 0xFF], &pixels[0..4]);
}

#[test]
fn render_leaves_cells_without_glyph_blank() {
    let mut buf = Buffer::new(Size::new(1, 1));
    let mut font = two_row_font();
    font.glyphs.truncate(10);
    buf.set_font(0, font);
    buf.layers[0].set_char(Position::new(0, 0), AttributedChar::new('A', TextAttribute::from_color(7, 1)));
    let (_, pixels) = buf.render_to_rgba(Rectangle::from(0, 0, 1, 1));
    assert!(pixels.iter().all(|b| *b == 0));
}

#[test]
fn add_font_uses_pages_from_100() {
    let mut state = EditState::default();
    state.buffer.font_mode = FontMode::Unlimited;
    state.buffer.set_font(100, named_font("taken", 8));
    state.add_font(named_font("new", 8)).unwrap();
    assert_eq!(101, state.caret.get_font_page());
    assert_eq!("new", state.buffer.get_font(101).unwrap().name);

    state.undo().unwrap();
    assert!(!state.buffer.has_font(101));
    assert_eq!(0, state.caret.get_font_page());
}

#[test]
fn add_font_needs_unlimited_mode() {
    let mut state = EditState::default();
    state.buffer.font_mode = FontMode::Sauce;
    assert!(matches!(state.add_font(named_font("x", 8)), Err(EditorError::NotSupportedForBufferType)));
    assert_eq!(0, state.buffer.font_count());
}

#[test]
fn set_font_replaces_and_undoes() {
    let mut state = EditState::default();
    state.buffer.font_mode = FontMode::Single;
    state.buffer.set_font(0, named_font("old", 16));
    state.set_font(named_font("new", 8)).unwrap();
    assert_eq!("new", state.buffer.get_font(0).unwrap().name);
    state.undo().unwrap();
    assert_eq!("old", state.buffer.get_font(0).unwrap().name);
    assert_eq!(Size::new(8, 16), state.buffer.get_font_dimensions());
    state.redo().unwrap();
    assert_eq!(Size::new(8, 8), state.buffer.get_font_dimensions());
}

#[test]
fn set_font_is_refused_for_sauce_buffers() {
    let mut state = EditState::default();
    state.buffer.font_mode = FontMode::Sauce;
    state.buffer.set_font(0, named_font("old", 16));
    assert!(matches!(state.set_font(named_font("new", 8)), Err(EditorError::NotSupportedForSauceBuffers)));
    assert_eq!("old", state.buffer.get_font(0).unwrap().name);
}

#[test]
fn switch_to_font_page_moves_the_caret() {
    let mut state = EditState::default();
    state.switch_to_font_page(5).unwrap();
    assert_eq!(5, state.caret.get_font_page());
    state.undo().unwrap();
    assert_eq!(0, state.caret.get_font_page());
}

#[test]
fn flat_clone_copies_layers_and_fonts() {
    let mut buf = Buffer::new(Size::new(4, 2));
    buf.set_font(0, named_font("a", 8));
    buf.set_font(9, named_font("b", 16));
    buf.layers[0].set_char(Position::new(1, 1), AttributedChar::new('x', TextAttribute::from_color(3, 4)));
    buf.get_overlay_layer();
    let copy = buf.flat_clone();
    assert!(copy.overlay_layer.is_none());
    assert_eq!(2, copy.font_count());
    assert_eq!("b", copy.get_font(9).unwrap().name);
    assert_eq!(Size::new(8, 16), copy.get_font(9).unwrap().size);
    assert_eq!('x', copy.get_char(Position::new(1, 1)).ch);
    assert_eq!(buf.size, copy.size);
    assert!(copy.is_font_table_updated());
}

#[test]
fn overlay_layer_is_created_once() {
    let mut buf = Buffer::new(Size::new(10, 3));
    assert!(buf.overlay_layer.is_none());
    {
        let overlay = buf.get_overlay_layer();
        let layer = overlay.as_mut().unwrap();
        assert_eq!("Overlay", layer.title);
        assert!(layer.has_alpha_channel);
        assert_eq!(Size::new(10, 3), layer.size);
        layer.title = "changed".to_string();
    }
    assert_eq!("changed", buf.get_overlay_layer().as_ref().unwrap().title);
}

#[test]
fn empty_lines_are_found() {
    let mut buf = Buffer::new(Size::new(10, 3));
    buf.layers[0].set_char(Position::new(4, 1), AttributedChar::new('x', TextAttribute::from_color(7, 0)));
    assert!(buf.is_line_empty(0));
    assert!(!buf.is_line_empty(1));
    assert!(buf.is_line_empty(2));
}

#[test]
fn font_iter_lists_every_page_once() {
    let mut buf = Buffer::new(Size::new(80, 25));
    buf.set_font(0, named_font("a", 8));
    buf.set_font(5, named_font("b", 8));
    buf.set_font(42, named_font("c", 16));
    let mut pages: Vec<(usize, String)> = buf.font_iter().iter().map(|(p, f)| (*p, f.name.clone())).collect();
    pages.sort();
    assert_eq!(vec![(0, "a".to_string()), (5, "b".to_string()), (42, "c".to_string())], pages);
}

#[test]
fn test_is_default_by_name() {
    let data = vec![0u8; 16 * 256];
    assert!(BitFont::create_8("IBM VGA".to_string(), 8, 16, &data).is_default());
    assert!(BitFont::create_8("IBM VGA 437".to_string(), 8, 16, &data).is_default());
    assert!(!BitFont::create_8("IBM EGA".to_string(), 8, 16, &data).is_default());
    assert!(!BitFont::create_8("".to_string(), 8, 16, &data).is_default());
}
