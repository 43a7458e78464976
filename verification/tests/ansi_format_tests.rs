use icy_engine::ansi_format::{AnsiState, StringGenerator};
use icy_engine::buffer::Buffer;
use icy_engine::buffer_type::IceMode;
use icy_engine::formats::{SaveOptions, ScreenPreperation};
use icy_engine::attributed_char::AttributedChar;
use icy_engine::geometry::{Position, Rectangle, Size};
use icy_engine::palette::Color;
use icy_engine::text_attribute::TextAttribute;

#[test]
fn test_generator_writes_bom_for_modern_terminals() {
    let mut options = SaveOptions::new();
    options.modern_terminal_output = true;
    let gen = StringGenerator::new(options);
    assert_eq!(&[0xEF, 0xBB, 0xBF], gen.get_data());
    let gen = StringGenerator::new(SaveOptions::new());
    assert!(gen.get_data().is_empty());
    assert_eq!(usize::MAX, gen.max_output_line_length);
}

#[test]
fn test_push_result_breaks_long_lines() {
    let mut options = SaveOptions::new();
    options.output_line_length = Some(4);
    let mut gen = StringGenerator::new(options);
    let mut part = vec![1, 2, 3];
    gen.push_result(&mut part);
    assert!(part.is_empty());
    assert_eq!(&[1, 2, 3], gen.get_data());
    let mut part = vec![4, 5];
    gen.push_result(&mut part);
    assert_eq!(&[1, 2, 3, 0x1B, b'[', b's', 13, 10, 0x1B, b'[', b'u', 4, 5], gen.get_data());
    assert_eq!(8, gen.last_line_break);
}

#[test]
fn test_screen_prep_and_end() {
    let mut buf = Buffer::new(Size::new(80, 25));
    buf.ice_mode = IceMode::Ice;
    let mut options = SaveOptions::new();
    options.screen_preparation = ScreenPreperation::ClearScreen;
    let mut gen = StringGenerator::new(options);
    gen.screen_prep(&buf);
    assert_eq!(b"\x1b[?33h\x1b[2J", gen.get_data());
    gen.screen_end(&buf);
    assert_eq!(b"\x1b[?33h\x1b[2J\x1b[?33l", gen.get_data());

    let buf = Buffer::new(Size::new(80, 25));
    let mut options = SaveOptions::new();
    options.screen_preparation = ScreenPreperation::Home;
    let mut gen = StringGenerator::new(options);
    gen.screen_prep(&buf);
    gen.screen_end(&buf);
    assert_eq!(b"\x1b[1;1H", gen.get_data());
}

#[test]
fn test_get_color_basic_foreground() {
    let buf = Buffer::new(Size::new(80, 25));
    let (state, sgr, sgr_tc) =
        StringGenerator::get_color(&buf, TextAttribute::from_color(4, 0), AnsiState::new());
    assert_eq!(vec![31], sgr);
    assert!(sgr_tc.is_empty());
    assert_eq!(4, state.fg_idx);
    assert_eq!(Color::new(0xAA, 0, 0), state.fg);
    assert!(!state.is_bold);
}

#[test]
fn test_get_color_bright_foreground_is_bold() {
    let buf = Buffer::new(Size::new(80, 25));
    let mut attr = TextAttribute::from_color(7, 0);
    attr.foreground_color = 12;
    let (state, sgr, _) = StringGenerator::get_color(&buf, attr, AnsiState::new());
    assert_eq!(vec![1, 31], sgr);
    assert!(state.is_bold);
}

#[test]
fn test_get_color_unchanged_attribute_writes_nothing() {
    let buf = Buffer::new(Size::new(80, 25));
    let (state, sgr, sgr_tc) =
        StringGenerator::get_color(&buf, TextAttribute::from_color(7, 0), AnsiState::new());
    assert!(sgr.is_empty());
    assert!(sgr_tc.is_empty());
    assert_eq!(AnsiState::new(), state);
}

#[test]
fn test_get_color_blink_and_reset() {
    let buf = Buffer::new(Size::new(80, 25));
    let mut attr = TextAttribute::from_color(7, 1);
    attr.blink = true;
    let (state, sgr, _) = StringGenerator::get_color(&buf, attr, AnsiState::new());
    assert_eq!(vec![5, 44], sgr);
    assert!(state.is_blink);
    let (state, sgr, _) = StringGenerator::get_color(&buf, TextAttribute::from_color(7, 1), state);
    assert_eq!(vec![0, 44], sgr);
    assert!(!state.is_blink);
}

#[test]
fn test_get_color_true_color() {
    let mut buf = Buffer::new(Size::new(80, 25));
    let idx = buf.palette.insert_color_rgb(1, 2, 3);
    let (state, sgr, sgr_tc) =
        StringGenerator::get_color(&buf, TextAttribute::from_color(idx, 0), AnsiState::new());
    assert!(sgr.is_empty());
    assert_eq!(vec![1, 1, 2, 3], sgr_tc);
    assert_eq!(idx, state.fg_idx);
}

#[test]
fn test_get_color_settles() {
    let buf = Buffer::new(Size::new(80, 25));
    let mut attr = TextAttribute::from_color(12, 3);
    attr.blink = true;
    let (state, sgr, _) = StringGenerator::get_color(&buf, attr, AnsiState::new());
    assert!(!sgr.is_empty());
    let (state2, sgr2, tc2) = StringGenerator::get_color(&buf, attr, state);
    assert!(sgr2.is_empty());
    assert!(tc2.is_empty());
    assert_eq!(state, state2);
}

#[test]
fn test_generate_cells() {
    let mut buf = Buffer::new(Size::new(3, 2));
    for x in 0..3 {
        buf.layers[0].set_char(Position::new(x, 0), AttributedChar::new('A', TextAttribute::from_color(4, 0)));
        buf.layers[0].set_char(Position::new(x, 1), AttributedChar::new('B', TextAttribute::from_color(7, 0)));
    }
    let cells = StringGenerator::generate_cells(&buf, Rectangle::new(Position::new(0, 0), Size::new(3, 2)));
    assert_eq!(2, cells.len());
    assert_eq!(3, cells[0].len());
    assert_eq!('A', cells[0][0].ch);
    assert_eq!(vec![31], cells[0][0].sgr);
    assert!(cells[0][1].sgr.is_empty());
    assert!(cells[0][2].sgr.is_empty());
    assert_eq!(4, cells[0][2].cur_state.fg_idx);
    assert_eq!('B', cells[1][0].ch);
    assert_eq!(vec![37], cells[1][0].sgr);
    assert_eq!(7, cells[1][2].cur_state.fg_idx);
}
