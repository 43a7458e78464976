use icy_engine::attributed_char::AttributedChar;
use icy_engine::buffer::Buffer;
use icy_engine::buffer_features::analyze_font_usage;
use icy_engine::buffer_type::IceMode;
use icy_engine::font_operations::{find_new_color, remove_ice_color};
use icy_engine::fonts::{BitFont, FontError};
use icy_engine::formats::{convert_ansi_to_utf8, SaveOptions, ScreenPreperation};
use icy_engine::geometry::{Position, Rectangle, Size};
use icy_engine::layer::Layer;
use icy_engine::palette::{Color, Palette};
use icy_engine::text_attribute::TextAttribute;
use icy_engine::undo_operations::{EditState, RotateLayer};

fn psf1_data(height: u8) -> Vec<u8> {
    let mut data = vec![0x36, 0x04, 0, height];
    for i in 0..256usize {
        for _ in 0..height {
            data.push(i as u8);
        }
    }
    data
}

#[test]
fn psf1_font_is_read() {
    let font = BitFont::from_bytes("test".to_string(), &psf1_data(8)).unwrap();
    assert_eq!(Size::new(8, 8), font.size);
    assert_eq!(256, font.length);
    assert_eq!(vec![0x41u8; 8], font.get_glyph('A').unwrap().data);
}

#[test]
fn psf2_font_round_trips() {
    let font = BitFont::from_bytes("test".to_string(), &psf1_data(16)).unwrap();
    let bytes = font.to_bytes();
    assert_eq!(32 + 256 * 16, bytes.len());
    assert_eq!(&[0x72, 0xb5, 0x4a, 0x86], &bytes[0..4]);
    let back = BitFont::from_bytes("again".to_string(), &bytes).unwrap();
    assert_eq!(font.size, back.size);
    assert_eq!(font.length, back.length);
    for i in 0..256 {
        assert_eq!(font.glyphs[i].data, back.glyphs[i].data);
    }
}

#[test]
fn plain_font_height_comes_from_length() {
    let data = vec![0x18u8; 256 * 14];
    let font = BitFont::from_bytes("plain".to_string(), &data).unwrap();
    assert_eq!(Size::new(8, 14), font.size);
}

#[test]
fn font_errors() {
    let res = BitFont::from_bytes("x".to_string(), &[1, 2, 3, 4, 5]);
    assert!(matches!(res, Err(FontError::MagicNumberMismatch)));

    let mut data = vec![0x72, 0xb5, 0x4a, 0x86, 1, 0, 0, 0, 32, 0, 0, 0];
    data.extend_from_slice(&[0; 20]);
    let res = BitFont::from_bytes("x".to_string(), &data);
    assert!(matches!(res, Err(FontError::UnsupportedVersion(1))));

    let mut data = vec![0x72, 0xb5, 0x4a, 0x86, 0, 0, 0, 0, 32, 0, 0, 0, 0, 0, 0, 0];
    data.extend_from_slice(&[1, 0, 0, 0, 8, 0, 0, 0, 8, 0, 0, 0, 8, 0, 0, 0]);
    data.extend_from_slice(&[0; 4]);
    let res = BitFont::from_bytes("x".to_string(), &data);
    assert!(matches!(res, Err(FontError::LengthMismatch(36, 40))));
}

#[test]
fn ice_colors_are_removed() {
    let mut attr = TextAttribute::default();
    attr.set_foreground(1);
    attr.set_background(9);
    let c = remove_ice_color(AttributedChar::new('A', attr));
    assert_eq!('A', c.ch);
    assert!(c.attribute.is_blinking());
    assert_eq!(1, c.attribute.get_background());

    let c = remove_ice_color(AttributedChar::new(' ', attr));
    assert_eq!('\u{db}', c.ch);
    assert_eq!(9, c.attribute.get_foreground());
    assert_eq!(0, c.attribute.get_background());

    let c = remove_ice_color(AttributedChar::new('\u{dc}', attr));
    assert_eq!('\u{df}', c.ch);
    assert_eq!(9, c.attribute.get_foreground());
    assert_eq!(1, c.attribute.get_background());
}

#[test]
fn ice_mode_switch_is_undone() {
    let mut state = EditState::default();
    let mut attr = TextAttribute::default();
    attr.set_background(12);
    state.set_char(Position::new(0, 0), AttributedChar::new('x', attr)).unwrap();
    state.set_ice_mode(IceMode::Blink).unwrap();
    let c = state.buffer.get_char(Position::new(0, 0));
    assert!(c.attribute.is_blinking());
    assert_eq!(4, c.attribute.get_background());
    state.undo().unwrap();
    let c = state.buffer.get_char(Position::new(0, 0));
    assert!(!c.attribute.is_blinking());
    assert_eq!(12, c.attribute.get_background());
}

#[test]
fn nearest_color_is_found() {
    let old = Palette::new();
    let mut new = Palette::new();
    new.clear();
    new.insert_color(Color::new(0, 0, 0));
    new.insert_color(Color::new(0xff, 0xff, 0xff));
    new.insert_color(Color::new(0xaa, 0, 0));
    // light red of the DOS palette lies nearest to dark red
    assert_eq!(2, find_new_color(&old, &new, 12));
    // white
    assert_eq!(1, find_new_color(&old, &new, 15));
    // black
    assert_eq!(0, find_new_color(&old, &new, 0));
}

#[test]
fn text_is_read_as_utf8_or_bytes() {
    let (s, utf8) = convert_ansi_to_utf8(&[0xef, 0xbb, 0xbf, 0xc3, 0xa4]);
    assert!(utf8);
    assert_eq!("\u{feff}\u{e4}", s);
    let (s, utf8) = convert_ansi_to_utf8(&[0x41, 0xc3, 0xa4]);
    assert!(!utf8);
    assert_eq!("A\u{c3}\u{a4}", s);
    let (s, utf8) = convert_ansi_to_utf8(&[0xef, 0xbb, 0xbf, 0xff]);
    assert!(!utf8);
    assert_eq!(4, s.chars().count());
}

#[test]
fn save_options_default() {
    let o = SaveOptions::new();
    assert_eq!(ScreenPreperation::Unchanged, o.screen_preparation);
    assert!(o.compress);
    assert!(!o.save_sauce);
    assert_eq!(None, o.output_line_length);
}

#[test]
fn font_pages_are_counted() {
    let mut buf = Buffer::new(Size::new(10, 2));
    let ch = AttributedChar::new('a', TextAttribute::default()).with_font_page(3);
    buf.layers[0].set_char(Position::new(1, 1), ch);
    let ch = AttributedChar::new('b', TextAttribute::default()).with_font_page(1);
    buf.layers[0].set_char(Position::new(2, 1), ch);
    assert_eq!(vec![0, 1, 3], analyze_font_usage(&buf));
    let f = buf.scan_buffer_features();
    assert_eq!(3, f.font_count);
    assert!(!f.use_colors);
    assert!(!f.use_extended_colors);
}

#[test]
fn features_are_found() {
    let mut buf = Buffer::new(Size::new(10, 2));
    let mut attr = TextAttribute::default();
    attr.set_is_blinking(true);
    attr.set_is_underlined(true);
    buf.layers[0].set_char(Position::new(1, 1), AttributedChar::new('a', attr));
    let f = buf.scan_buffer_features();
    assert!(f.use_blink);
    assert!(f.use_extended_attributes);
    assert!(!f.use_colors);
    attr.set_foreground(2);
    buf.layers[0].set_char(Position::new(2, 1), AttributedChar::new('a', attr));
    assert!(buf.scan_buffer_features().use_colors);
}

#[test]
fn layer_rotates_over_its_diagonal() {
    let mut state = EditState::default();
    let mut layer = Layer::new("r", Size::new(3, 2));
    layer.set_char(Position::new(2, 0), AttributedChar::new('x', TextAttribute::default()));
    layer.set_char(Position::new(0, 1), AttributedChar::new('y', TextAttribute::default()));
    state.buffer.layers.push(layer);
    let op = RotateLayer::new(1);
    op.redo(&mut state).unwrap();
    let l = &state.buffer.layers[1];
    assert_eq!(Size::new(2, 3), l.get_size());
    assert_eq!('x', l.get_char(Position::new(0, 2)).ch);
    assert_eq!('y', l.get_char(Position::new(1, 0)).ch);
}

#[test]
fn layers_join_visible_cells() {
    let mut base = Layer::new("base", Size::new(4, 1));
    base.set_char(Position::new(0, 0), AttributedChar::new('a', TextAttribute::default()));
    base.set_char(Position::new(1, 0), AttributedChar::new('b', TextAttribute::default()));
    let mut top = Layer::new("top", Size::new(4, 1));
    top.set_char(Position::new(1, 0), AttributedChar::new('c', TextAttribute::default()));
    base.join(&top);
    assert_eq!('a', base.get_char(Position::new(0, 0)).ch);
    assert_eq!('c', base.get_char(Position::new(1, 0)).ch);
}

#[test]
fn selection_changes_are_undone() {
    let mut state = EditState::default();
    let r = Rectangle::from(1, 2, 3, 4);
    state.set_selection(r).unwrap();
    assert_eq!(Some(r), state.get_selection());
    let kept = state.undo_stack_len();
    state.set_selection(r).unwrap();
    assert_eq!(kept, state.undo_stack_len());
    state.undo().unwrap();
    assert_eq!(None, state.get_selection());
    state.redo().unwrap();
    state.deselect().unwrap();
    assert_eq!(None, state.get_selection());
    state.undo().unwrap();
    assert_eq!(Some(r), state.get_selection());
    state.clear_selection().unwrap();
    assert_eq!(None, state.get_selection());
    state.undo().unwrap();
    assert!(state.get_is_selected(Position::new(3, 5)));
    assert!(!state.get_is_selected(Position::new(4, 5)));
}
