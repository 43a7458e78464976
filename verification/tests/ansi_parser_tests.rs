use icy_engine::ansi_parser::AnsiParser;
use icy_engine::buffer::Buffer;
use icy_engine::buffer_type::BufferType;
use icy_engine::caret::Caret;
use icy_engine::geometry::{Position, Size};
use icy_engine::parser_errors::ParserError;
use icy_engine::fonts::BitFont;
use icy_engine::palette::Color;
use icy_engine::sixel::SixelReadStatus;
use icy_engine::terminal_state::TerminalScrolling;
use icy_engine::text_attribute::TextAttribute;

fn create_buffer(parser: &mut AnsiParser, input: &[u8]) -> (Buffer, Caret) {
    let mut buf = Buffer::create(Size::new(80, 25));
    let mut caret = Caret::default();
    buf.is_terminal_buffer = true;
    buf.layers[0].lines.clear();
    buf.layers[0].is_locked = false;

    update_buffer(&mut buf, &mut caret, parser, input);

    (buf, caret)
}

fn update_buffer(buf: &mut Buffer, caret: &mut Caret, parser: &mut AnsiParser, input: &[u8]) {
    for b in input {
        if let Some(ch) = char::from_u32(*b as u32) {
            parser.print_char(buf, caret, ch).unwrap();
        }
    }
}

fn feed(buf: &mut Buffer, caret: &mut Caret, parser: &mut AnsiParser, input: &str) -> Vec<Result<Option<String>, ParserError>> {
    input.chars().map(|ch| parser.print_char(buf, caret, ch)).collect()
}

#[test]
fn test_ansi_sequence() {
    let (buf, _) = create_buffer(&mut AnsiParser::new(), b"\x1B[0;40;37mFoo-\x1B[1mB\x1B[0ma\x1B[35mr");

    let ch = buf.get_char(Position::new(0, 0));
    assert_eq!(b'F', ch.ch as u8);
    assert_eq!(7, ch.attribute.as_u8(BufferType::CP437));

    let ch = buf.get_char(Position::new(1, 0));
    assert_eq!(b'o', ch.ch as u8);
    assert_eq!(7, ch.attribute.as_u8(BufferType::CP437));

    let ch = buf.get_char(Position::new(2, 0));
    assert_eq!(b'o', ch.ch as u8);
    assert_eq!(7, ch.attribute.as_u8(BufferType::CP437));

    let ch = buf.get_char(Position::new(3, 0));
    assert_eq!(b'-', ch.ch as u8);
    assert_eq!(7, ch.attribute.as_u8(BufferType::CP437));

    let ch = buf.get_char(Position::new(4, 0));
    assert_eq!(b'B', ch.ch as u8);
    assert_eq!(15, ch.attribute.as_u8(BufferType::CP437));

    let ch = buf.get_char(Position::new(5, 0));
    assert_eq!(b'a', ch.ch as u8);
    assert_eq!(7, ch.attribute.as_u8(BufferType::CP437));

    let ch = buf.get_char(Position::new(6, 0));
    assert_eq!(b'r', ch.ch as u8);
    assert_eq!(5, ch.attribute.as_u8(BufferType::CP437));
}

#[test]
fn test_ansi_30() {
    let (buf, _) = create_buffer(&mut AnsiParser::new(), b"\x1B[1;35mA\x1B[30mB\x1B[0mC");
    let ch = buf.get_char(Position::new(0, 0));
    assert_eq!(b'A', ch.ch as u8);
    assert_eq!(13, ch.attribute.as_u8(BufferType::CP437));
    let ch = buf.get_char(Position::new(1, 0));
    assert_eq!(b'B', ch.ch as u8);
    assert_eq!(8, ch.attribute.as_u8(BufferType::CP437));
    let ch = buf.get_char(Position::new(2, 0));
    assert_eq!(b'C', ch.ch as u8);
    assert_eq!(7, ch.attribute.as_u8(BufferType::CP437));
}

#[test]
fn test_bg_colorrsequence() {
    let (buf, _) = create_buffer(&mut AnsiParser::new(), b"\x1B[1;30m1\x1B[0;34m2\x1B[33m3\x1B[1;41m4\x1B[40m5\x1B[43m6\x1B[40m7");
    let ch = buf.get_char(Position::new(0, 0));
    assert_eq!(b'1', ch.ch as u8);
    assert_eq!(8, ch.attribute.as_u8(BufferType::CP437));
    let ch = buf.get_char(Position::new(1, 0));
    assert_eq!(b'2', ch.ch as u8);
    assert_eq!(1, ch.attribute.as_u8(BufferType::CP437));
    let ch = buf.get_char(Position::new(2, 0));
    assert_eq!(b'3', ch.ch as u8);
    assert_eq!(6, ch.attribute.as_u8(BufferType::CP437));
    let ch = buf.get_char(Position::new(3, 0));
    assert_eq!(b'4', ch.ch as u8);
    assert_eq!(14 + (4 << 4), ch.attribute.as_u8(BufferType::CP437));
    let ch = buf.get_char(Position::new(4, 0));
    assert_eq!(b'5', ch.ch as u8);
    assert_eq!(14, ch.attribute.as_u8(BufferType::CP437));
    let ch = buf.get_char(Position::new(5, 0));
    assert_eq!(b'6', ch.ch as u8);
    assert_eq!(14 + (6 << 4), ch.attribute.as_u8(BufferType::CP437));
    let ch = buf.get_char(Position::new(6, 0));
    assert_eq!(b'7', ch.ch as u8);
    assert_eq!(14, ch.attribute.as_u8(BufferType::CP437));
}

#[test]
fn test_char_missing_bug() {
    let (buf, _) = create_buffer(&mut AnsiParser::new(), b"\x1B[1;35mA\x1B[30mB\x1B[0mC");

    let ch = buf.get_char(Position::new(0, 0));
    assert_eq!(b'A', ch.ch as u8);
    assert_eq!(13, ch.attribute.as_u8(BufferType::CP437));
    let ch = buf.get_char(Position::new(1, 0));
    assert_eq!(b'B', ch.ch as u8);
    assert_eq!(8, ch.attribute.as_u8(BufferType::CP437));
    let ch = buf.get_char(Position::new(2, 0));
    assert_eq!(b'C', ch.ch as u8);
    assert_eq!(7, ch.attribute.as_u8(BufferType::CP437));
}

#[test]
fn test_caret_forward() {
    let (buf, _) = create_buffer(&mut AnsiParser::new(), b"\x1B[70Ctest_me\x1B[2CF");
    let ch = buf.get_char(Position::new(79, 0));
    assert_eq!('F', ch.ch);
}

#[test]
fn test_caret_forward_at_eol() {
    let (buf, _) = create_buffer(&mut AnsiParser::new(), b"\x1B[75CTEST_\x1B[2CF");
    let ch = buf.get_char(Position::new(2, 1));
    assert_eq!(b'F', ch.ch as u8);
}

#[test]
fn test_char0_bug() {
    let (buf, _) = create_buffer(&mut AnsiParser::new(), b"\x00A");
    let ch = buf.get_char(Position::new(0, 0));
    assert_eq!(b'A', ch.ch as u8);
}

#[test]
fn test_insert_line_default() {
    let (buf, _) = create_buffer(&mut AnsiParser::new(), b"\x1b[L");
    assert_eq!(1, buf.layers[0].lines.len());
}

#[test]
fn test_insert_n_line() {
    let (buf, _) = create_buffer(&mut AnsiParser::new(), b"\x1b[10L");
    assert_eq!(10, buf.layers[0].lines.len());
}

#[test]
fn test_remove_line_default() {
    let (buf, _) = create_buffer(&mut AnsiParser::new(), b"test\x1b[M");
    assert_eq!(b' ', buf.get_char(Position::new(0, 0)).ch as u8);
}

#[test]
fn test_remove_n_line() {
    let (mut buf, _) = create_buffer(&mut AnsiParser::new(), b"test\ntest\ntest\ntest");
    for i in 0..4 {
        assert_eq!(b't', buf.get_char(Position::new(0, i)).ch as u8);
    }
    update_buffer(&mut buf, &mut Caret::default(), &mut AnsiParser::new(), b"\x1b[3M");
    assert_eq!(b't', buf.get_char(Position::new(0, 0)).ch as u8);
    assert_eq!(b' ', buf.get_char(Position::new(0, 1)).ch as u8);
}

#[test]
fn test_delete_character_default() {
    let (mut buf, _) = create_buffer(&mut AnsiParser::new(), b"test");
    update_buffer(&mut buf, &mut Caret::new_xy(0, 0), &mut AnsiParser::new(), b"\x1b[P");
    assert_eq!(b'e', buf.get_char(Position::new(0, 0)).ch as u8);
    update_buffer(&mut buf, &mut Caret::new_xy(0, 0), &mut AnsiParser::new(), b"\x1b[P");
    assert_eq!(b's', buf.get_char(Position::new(0, 0)).ch as u8);
    update_buffer(&mut buf, &mut Caret::new_xy(0, 0), &mut AnsiParser::new(), b"\x1b[P");
    assert_eq!(b't', buf.get_char(Position::new(0, 0)).ch as u8);
}

#[test]
fn test_delete_n_character() {
    let (mut buf, _) = create_buffer(&mut AnsiParser::new(), b"testme");
    update_buffer(&mut buf, &mut Caret::new_xy(0, 0), &mut AnsiParser::new(), b"\x1b[4P");
    assert_eq!(b'm', buf.get_char(Position::new(0, 0)).ch as u8);
}

#[test]
fn test_save_cursor() {
    let (_, caret) = create_buffer(&mut AnsiParser::new(), b"\x1b7testme\x1b8");
    assert_eq!(Position::new(0, 0), caret.get_position());
}

#[test]
fn test_save_cursor_more_times() {
    let (_, caret) = create_buffer(&mut AnsiParser::new(), b"\x1b7testme\x1b8testme\x1b8");
    assert_eq!(Position::new(0, 0), caret.get_position());
}

#[test]
fn test_reset_cursor() {
    let (mut buf, mut caret) = create_buffer(&mut AnsiParser::new(), b"testme\x1b[1;37m");
    assert_ne!(TextAttribute::default(), caret.attribute);
    assert_ne!(Position::new(0, 0), caret.get_position());
    update_buffer(&mut buf, &mut caret, &mut AnsiParser::new(), b"\x1bc");
    assert_eq!(TextAttribute::default(), caret.attribute);
    assert_eq!(Position::new(0, 0), caret.get_position());
}

#[test]
fn test_cursor_visibilty() {
    let (mut buf, mut caret) = create_buffer(&mut AnsiParser::new(), b"\x1b[?25l");
    assert_eq!(false, caret.is_visible);
    update_buffer(&mut buf, &mut caret, &mut AnsiParser::new(), b"\x1b[?25h");
    assert_eq!(true, caret.is_visible);
}

#[test]
fn test_cursor_visibilty_reset() {
    let (mut buf, mut caret) = create_buffer(&mut AnsiParser::new(), b"\x1b[?25l");
    assert_eq!(false, caret.is_visible);
    update_buffer(&mut buf, &mut caret, &mut AnsiParser::new(), b"\x0C");
    assert_eq!(true, caret.is_visible);
}

#[test]
fn test_vert_line_position_absolute_default() {
    let (_, caret) = create_buffer(&mut AnsiParser::new(), b"\n\n\nfoo\x1b[d");
    assert_eq!(Position::new(3, 0), caret.get_position());
}

#[test]
fn test_vert_line_position_absolute_n() {
    let (_, caret) = create_buffer(&mut AnsiParser::new(), b"test\x1b[5d");
    assert_eq!(Position::new(4, 4), caret.get_position());
}

#[test]
fn test_vert_line_position_relative_default() {
    let (_, caret) = create_buffer(&mut AnsiParser::new(), b"\n\n\nfoo\x1b[e");
    assert_eq!(Position::new(3, 4), caret.get_position());
}

#[test]
fn test_vert_line_position_relative_n() {
    let (_, caret) = create_buffer(&mut AnsiParser::new(), b"\n\n\x1b[5e");
    assert_eq!(Position::new(0, 7), caret.get_position());
}

#[test]
fn test_horiz_line_position_absolute_default() {
    let (_, caret) = create_buffer(&mut AnsiParser::new(), b"foo\x1b['");
    assert_eq!(Position::new(0, 0), caret.get_position());
}

#[test]
fn test_horiz_line_position_absolute_n() {
    let (_, caret) = create_buffer(&mut AnsiParser::new(), b"testfooo\x1b['\x1b[3'");
    assert_eq!(Position::new(2, 0), caret.get_position());
    let (_, caret) = create_buffer(&mut AnsiParser::new(), b"01234567\x1b['\x1b[100'");
    assert_eq!(Position::new(8, 0), caret.get_position());
}

#[test]
fn test_horiz_line_position_relative_default() {
    let (_, caret) = create_buffer(&mut AnsiParser::new(), b"testfooo\x1b['\x1b[a");
    assert_eq!(Position::new(1, 0), caret.get_position());
}

#[test]
fn test_horiz_line_position_relative_n() {
    let (_, caret) = create_buffer(&mut AnsiParser::new(), b"testfooo\x1b['\x1b[3a");
    assert_eq!(Position::new(3, 0), caret.get_position());
    let (_, caret) = create_buffer(&mut AnsiParser::new(), b"01234567\x1b['\x1b[100a");
    assert_eq!(Position::new(8, 0), caret.get_position());
}

#[test]
fn test_cursor_horiz_absolute_default() {
    let (_, caret) = create_buffer(&mut AnsiParser::new(), b"testfooo\x1b[G");
    assert_eq!(Position::new(0, 0), caret.get_position());
}

#[test]
fn test_cursor_horiz_absolute_n() {
    let (_, caret) = create_buffer(&mut AnsiParser::new(), b"testfooo\x1b['\x1b[3G");
    assert_eq!(Position::new(2, 0), caret.get_position());
    let (_, caret) = create_buffer(&mut AnsiParser::new(), b"01234567\x1b['\x1b[100G");
    assert_eq!(Position::new(79, 0), caret.get_position());
}

#[test]
fn test_cursor_next_line_default() {
    let (_, caret) = create_buffer(&mut AnsiParser::new(), b"\n\n\nfoo\x1b[E");
    assert_eq!(Position::new(0, 4), caret.get_position());
}

#[test]
fn test_cursor_next_line_n() {
    let (_, caret) = create_buffer(&mut AnsiParser::new(), b"test\x1b[5E");
    assert_eq!(Position::new(0, 5), caret.get_position());
}

#[test]
fn test_cursor_previous_line_default() {
    let (_, caret) = create_buffer(&mut AnsiParser::new(), b"\n\n\nfoo\x1b[F");
    assert_eq!(Position::new(0, 2), caret.get_position());
}

#[test]
fn test_cursor_previous_line_n() {
    let (_, caret) = create_buffer(&mut AnsiParser::new(), b"\n\n\nfoo\x1b[2F");
    assert_eq!(Position::new(0, 1), caret.get_position());
}

#[test]
fn test_set_top_and_bottom_margins() {
    let (buf, _) = create_buffer(&mut AnsiParser::new(), b"\x1b[5;10r");
    assert_eq!(Some((4, 9)), buf.terminal_state.margins);
}

#[test]
fn test_scrolling_terminal_state() {
    let (mut buf, mut caret) = create_buffer(&mut AnsiParser::new(), b"");
    assert_eq!(TerminalScrolling::Smooth, buf.terminal_state.scroll_state);
    update_buffer(&mut buf, &mut caret, &mut AnsiParser::new(), b"\x1b[?4l");
    assert_eq!(TerminalScrolling::Fast, buf.terminal_state.scroll_state);
    update_buffer(&mut buf, &mut caret, &mut AnsiParser::new(), b"\x1b[?4h");
    assert_eq!(TerminalScrolling::Smooth, buf.terminal_state.scroll_state);
}

#[test]
fn test_reset_empty_colors() {
    let (buf, _) = create_buffer(&mut AnsiParser::new(), b"\x1B[m\x1B[33mN\x1B[1m\x1B[33ma\x1B[m\x1B[33mCHR\x1B[1m\x1B[33mi\x1B[m\x1B[33mCHT");
    assert_eq!(buf.get_char(Position::new(0, 0)).attribute, buf.get_char(Position::new(2, 0)).attribute);
    assert_eq!(buf.get_char(Position::new(1, 0)).attribute, buf.get_char(Position::new(5, 0)).attribute);
    assert_eq!(buf.get_char(Position::new(2, 0)).attribute, buf.get_char(Position::new(8, 0)).attribute);
}

#[test]
fn test_print_char_extension() {
    let (mut buf, mut caret) = create_buffer(&mut AnsiParser::new(), b"");
    for _ in 0..30 {
        update_buffer(&mut buf, &mut caret, &mut AnsiParser::new(), b"a\n");
    }
    assert_eq!(31, buf.layers[0].lines.len());
}

#[test]
fn test_index_line() {
    let (_buf, caret) = create_buffer(&mut AnsiParser::new(), b"test\x1BD\x1BD\x1BD");
    assert_eq!(Position::new(4, 3), caret.get_position());
}

#[test]
fn test_reverse_index_line() {
    let (buf, caret) = create_buffer(&mut AnsiParser::new(), b"test\x1BM\x1BM\x1BM");
    assert_eq!(Position::new(4, 0), caret.get_position());
    let ch = buf.get_char(Position::new(0, 3));
    assert_eq!(b't', ch.ch as u8);
}

#[test]
fn test_next_line() {
    let (buf, caret) = create_buffer(&mut AnsiParser::new(), b"\x1B[25;1Htest\x1BE\x1BE\x1BE");
    assert_eq!(Position::new(0, 24), caret.get_position());
    let ch = buf.get_char(Position::new(0, 24 - 3));
    assert_eq!(b't', ch.ch as u8);
}

#[test]
fn unknown_final_character_is_refused() {
    let (mut buf, mut caret) = create_buffer(&mut AnsiParser::new(), b"");
    let mut parser = AnsiParser::new();
    let res = feed(&mut buf, &mut caret, &mut parser, "\x1b[5z");
    match res.last().unwrap() {
        Err(ParserError::UnsupportedEscapeSequence(s)) => assert_eq!("<ESC>[5z", s),
        other => panic!("unexpected {:?}", other),
    }
    // The parser reads text again afterwards.
    feed(&mut buf, &mut caret, &mut parser, "Q");
    assert_eq!('Q', buf.get_char(Position::new(0, 0)).ch);
}

#[test]
fn unknown_escape_is_refused() {
    let (mut buf, mut caret) = create_buffer(&mut AnsiParser::new(), b"");
    let mut parser = AnsiParser::new();
    let res = feed(&mut buf, &mut caret, &mut parser, "\x1bZ");
    match res.last().unwrap() {
        Err(ParserError::UnsupportedEscapeSequence(s)) => assert_eq!("<ESC>", s),
        other => panic!("unexpected {:?}", other),
    }
}

#[test]
fn device_status_reports() {
    let (mut buf, mut caret) = create_buffer(&mut AnsiParser::new(), b"");
    let mut parser = AnsiParser::new();
    let res = feed(&mut buf, &mut caret, &mut parser, "\x1b[5n");
    assert_eq!(Some("\x1b[0n".to_string()), res.last().unwrap().clone().unwrap());
    let res = feed(&mut buf, &mut caret, &mut parser, "\x1b[3;12H\x1b[6n");
    assert_eq!(Some("\x1b[3;12R".to_string()), res.last().unwrap().clone().unwrap());
    let res = feed(&mut buf, &mut caret, &mut parser, "\x1b[c");
    assert_eq!(Some("\x1b[?1;0c".to_string()), res.last().unwrap().clone().unwrap());
}

#[test]
fn extended_colors_enter_the_palette() {
    let (buf, _) = create_buffer(&mut AnsiParser::new(), b"\x1b[38;2;1;2;3mA\x1b[48;5;196mB");
    let a = buf.get_char(Position::new(0, 0)).attribute;
    assert_eq!(16, a.get_foreground());
    let b = buf.get_char(Position::new(1, 0)).attribute;
    assert_eq!(17, b.get_background());
    assert_eq!(18, buf.palette.len());
    let c = buf.palette.colors[17];
    assert_eq!((255, 0, 0), c.get_rgb());
}

#[test]
fn reverse_video_swaps_colors() {
    let (buf, _) = create_buffer(&mut AnsiParser::new(), b"\x1b[31;42;7mA");
    let a = buf.get_char(Position::new(0, 0)).attribute;
    assert_eq!(2, a.get_foreground());
    assert_eq!(4, a.get_background());
}

#[test]
fn erase_in_line_clears_to_end() {
    let (buf, _) = create_buffer(&mut AnsiParser::new(), b"abcdef\x1b[3G\x1b[K");
    assert_eq!('b', buf.get_char(Position::new(1, 0)).ch);
    assert_eq!(' ', buf.get_char(Position::new(2, 0)).ch);
    assert_eq!(' ', buf.get_char(Position::new(5, 0)).ch);
}

#[test]
fn insert_characters_shift_right() {
    let (buf, _) = create_buffer(&mut AnsiParser::new(), b"abc\x1b[1G\x1b[2@");
    assert_eq!(' ', buf.get_char(Position::new(0, 0)).ch);
    assert_eq!('a', buf.get_char(Position::new(2, 0)).ch);
}

#[test]
fn sixel_data_is_consumed() {
    let (buf, caret) = create_buffer(&mut AnsiParser::new(), b"\x1bPq#0;2;0;0;0~~!3@-\x1b\\X");
    assert_eq!('X', buf.get_char(Position::new(0, 0)).ch);
    assert_eq!(Position::new(1, 0), caret.get_position());
}

#[test]
fn test_insert_mode() {
    let (buf, _) = create_buffer(&mut AnsiParser::new(), b"test\x1B[H\x1B[4lhelp\x1B[H\x1B[4hnewtest");
    let converted = icy_engine::ascii_format::convert_to_asc(&buf, &icy_engine::formats::SaveOptions::new());

    // more gentle output.
    let b: Vec<u8> = converted.iter().map(|&x| if x == 27 { b'x' } else { x }).collect();
    let converted = String::from_utf8_lossy(b.as_slice());
    assert_eq!("newtesthelp", converted);
}

#[test]
fn ansi_parser_tests_test_linebreak_bug() {
    let (buf, _) = create_buffer(&mut AnsiParser::new(), b"X\x16X");
    assert_eq!(0x16, buf.get_char(Position::new(1, 0)).ch as u32);
}

#[test]
fn sixel_picture_is_kept() {
    let (buf, _) = create_buffer(&mut AnsiParser::new(), b"\x1bPq#0;2;100;0;0~~!3@-\x1b\\X");
    assert_eq!(1, buf.layers[0].sixels.len());
    let sixel = &buf.layers[0].sixels[0];
    assert_eq!(Position::new(0, 0), sixel.position);
    assert_eq!(SixelReadStatus::Finished, sixel.read_status);
    assert_eq!(5, sixel.len);
    assert_eq!(5, sixel.picture.len());
    let red = Some(Color::new(255, 0, 0));
    assert_eq!(vec![red; 6], sixel.picture[0]);
    assert_eq!(vec![red; 6], sixel.picture[1]);
    assert_eq!(vec![red, None, None, None, None, None], sixel.picture[4]);
    assert!(buf.scan_buffer_features().use_sixels);
    assert!(!Buffer::create(Size::new(80, 25)).scan_buffer_features().use_sixels);
}

#[test]
fn sixel_size_and_errors() {
    let mut buf = Buffer::create(Size::new(80, 25));
    buf.is_terminal_buffer = true;
    let mut caret = Caret::default();
    let mut parser = AnsiParser::new();
    let res = feed(&mut buf, &mut caret, &mut parser, "\x1bP0q\"1;1;3;2#1;2;0;100;0?");
    assert!(res.iter().all(|r| r.is_ok()));
    let sixel = &buf.layers[0].sixels[0];
    assert_eq!(5, sixel.aspect_ratio);
    assert_eq!(3, sixel.picture.len());
    assert_eq!(vec![None; 6], sixel.picture[0]);
    assert_eq!(vec![None, None], sixel.picture[2]);
    assert_eq!(SixelReadStatus::Position(1, 0), sixel.read_status);
    // a color definition reads on until a control character of the picture
    assert!(parser.print_char(&mut buf, &mut caret, '0').is_ok());

    let mut parser = AnsiParser::new();
    feed(&mut buf, &mut caret, &mut parser, "\x1bPq");
    assert_eq!(2, buf.layers[0].sixels.len());
    assert!(matches!(parser.print_char(&mut buf, &mut caret, '0'), Err(ParserError::InvalidSixelChar('0'))));
    assert_eq!(SixelReadStatus::Error, buf.layers[0].sixels[1].read_status);
}

fn font_buffer() -> Buffer {
    let mut buf = Buffer::create(Size::new(80, 25));
    buf.is_terminal_buffer = true;
    let data = vec![0u8; 16 * 256];
    buf.set_font(0, BitFont::create_8("IBM VGA".to_string(), 8, 16, &data));
    buf.set_font(5, BitFont::create_8("Amiga Topaz 1".to_string(), 8, 16, &data));
    buf.set_font(7, BitFont::create_8("Amiga Topaz 1".to_string(), 8, 16, &data));
    buf
}

#[test]
fn font_selection_by_name() {
    let mut buf = font_buffer();
    let mut caret = Caret::default();
    let mut parser = AnsiParser::new();
    let res = feed(&mut buf, &mut caret, &mut parser, "\x1b[0;42 D");
    assert!(res.iter().all(|r| r.is_ok()));
    assert_eq!(5, parser.current_font_page);
    feed(&mut buf, &mut caret, &mut parser, "\x1b[0;7 D");
    assert_eq!(0, parser.current_font_page);
    let res = feed(&mut buf, &mut caret, &mut parser, "\x1b[0;1 D");
    assert!(matches!(res.last(), Some(Err(ParserError::UnsupportedFont(1)))));
    assert_eq!(0, parser.current_font_page);
    let res = feed(&mut buf, &mut caret, &mut parser, "\x1b[0;43 D");
    assert!(matches!(res.last(), Some(Err(ParserError::UnsupportedFont(43)))));
}
