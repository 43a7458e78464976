use icy_engine::atascii_parser::AtasciiParser;
use icy_engine::buffer::Buffer;
use icy_engine::buffer_type::BufferType;
use icy_engine::caret::Caret;
use icy_engine::geometry::{Position, Size};
use icy_engine::pcboard_parser::PCBoardParser;
use icy_engine::viewdata_parser::ViewdataParser;

fn terminal(width: usize, height: usize) -> (Buffer, Caret) {
    let mut buf = Buffer::create(Size::new(width, height));
    buf.is_terminal_buffer = true;
    buf.layers[0].lines.clear();
    (buf, Caret::default())
}

fn atascii(parser: &mut AtasciiParser, buf: &mut Buffer, caret: &mut Caret, input: &[u8]) {
    for b in input {
        assert_eq!(parser.print_char(buf, caret, *b).unwrap(), None);
    }
}

#[test]
fn atascii_prints_and_moves() {
    let (mut buf, mut caret) = terminal(40, 24);
    let mut parser = AtasciiParser::new();
    atascii(&mut parser, &mut buf, &mut caret, b"AB");
    assert_eq!('A', buf.get_char(Position::new(0, 0)).ch);
    assert_eq!('B', buf.get_char(Position::new(1, 0)).ch);
    assert_eq!(Position::new(2, 0), caret.pos);

    // ESC makes the next control code printable
    atascii(&mut parser, &mut buf, &mut caret, &[0x1b, 0x1c]);
    assert_eq!('\u{1c}', buf.get_char(Position::new(2, 0)).ch);
    assert_eq!(Position::new(3, 0), caret.pos);
    assert!(!parser.got_escape);

    // end of line
    atascii(&mut parser, &mut buf, &mut caret, &[0x9b]);
    assert_eq!(Position::new(0, 1), caret.pos);

    // cursor right twice, left once
    atascii(&mut parser, &mut buf, &mut caret, &[0x1f, 0x1f, 0x1e]);
    assert_eq!(Position::new(1, 1), caret.pos);

    // cursor up
    atascii(&mut parser, &mut buf, &mut caret, &[0x1c]);
    assert_eq!(Position::new(1, 0), caret.pos);

    // delete the character under the caret: "A\x1c" remains shifted
    atascii(&mut parser, &mut buf, &mut caret, &[0xfe]);
    assert_eq!('\u{1c}', buf.get_char(Position::new(1, 0)).ch);

    // clear screen
    atascii(&mut parser, &mut buf, &mut caret, &[0x7d]);
    assert_eq!(Position::new(0, 0), caret.pos);
    assert_eq!(0, buf.layers[0].lines.len());
}

#[test]
fn atascii_escape_is_remembered() {
    let (mut buf, mut caret) = terminal(40, 24);
    let mut parser = AtasciiParser::new();
    atascii(&mut parser, &mut buf, &mut caret, &[0x1b]);
    assert!(parser.got_escape);
    assert_eq!(Position::new(0, 0), caret.pos);
}

#[test]
fn atascii_character_table() {
    let parser = AtasciiParser::new();
    assert_eq!('\u{2665}', parser.to_unicode('\u{0}'));
    assert_eq!('A', parser.to_unicode('A'));
    assert_eq!('\u{25b6}', parser.to_unicode('\u{ff}'));
    assert_eq!('\u{100}', parser.to_unicode('\u{100}'));
    assert_eq!('\u{0}', parser.from_unicode('\u{2665}'));
    assert_eq!('\u{1c}', parser.from_unicode('\u{2191}'));
    assert_eq!('A', parser.from_unicode('A'));
    assert_eq!('\u{20ac}', parser.from_unicode('\u{20ac}'));
}

fn viewdata(parser: &mut ViewdataParser, buf: &mut Buffer, caret: &mut Caret, input: &[u8]) {
    for b in input {
        assert_eq!(parser.print_char(buf, caret, *b as char).unwrap(), None);
    }
}

#[test]
fn viewdata_colors_and_graphics() {
    let (mut buf, mut caret) = terminal(40, 24);
    let mut parser = ViewdataParser::new();

    viewdata(&mut parser, &mut buf, &mut caret, b"A");
    assert_eq!('A', buf.get_char(Position::new(0, 0)).ch);
    assert_eq!(7, buf.get_char(Position::new(0, 0)).attribute.foreground_color);

    // ESC A: alphanumeric red; the control cell is drawn as a space
    viewdata(&mut parser, &mut buf, &mut caret, b"\x1bAB");
    assert_eq!(' ', buf.get_char(Position::new(1, 0)).ch);
    assert_eq!('B', buf.get_char(Position::new(2, 0)).ch);
    assert_eq!(1, buf.get_char(Position::new(2, 0)).attribute.foreground_color);

    // ESC Q: graphics red; 'a' becomes contiguous block graphics
    viewdata(&mut parser, &mut buf, &mut caret, b"\x1bQa");
    assert_eq!('\u{a1}', buf.get_char(Position::new(4, 0)).ch);
    assert!(parser.is_in_graphic_mode);

    // ESC Z: separated graphics
    viewdata(&mut parser, &mut buf, &mut caret, b"\x1bZa");
    assert_eq!('\u{e1}', buf.get_char(Position::new(6, 0)).ch);
    assert_eq!(Position::new(7, 0), caret.pos);
}

#[test]
fn viewdata_row_wrap_resets() {
    let (mut buf, mut caret) = terminal(4, 3);
    let mut parser = ViewdataParser::new();
    viewdata(&mut parser, &mut buf, &mut caret, b"\x1bAxyz");
    assert_eq!(Position::new(0, 1), caret.pos);
    assert_eq!(7, caret.attribute.foreground_color);
    assert!(!parser.got_esc);

    // up from the first row wraps to the last, left from the first column to the end of the row above
    viewdata(&mut parser, &mut buf, &mut caret, &[0x0b, 0x0b]);
    assert_eq!(Position::new(0, 2), caret.pos);
    viewdata(&mut parser, &mut buf, &mut caret, &[0x08]);
    assert_eq!(Position::new(3, 1), caret.pos);
    viewdata(&mut parser, &mut buf, &mut caret, &[0x1e]);
    assert_eq!(Position::new(0, 0), caret.pos);
}

#[test]
fn viewdata_carriage_return_fills_row() {
    let (mut buf, mut caret) = terminal(6, 3);
    let mut parser = ViewdataParser::new();
    viewdata(&mut parser, &mut buf, &mut caret, b"\x1bDab\r");
    assert_eq!(Position::new(0, 0), caret.pos);
    for x in 3..6 {
        assert_eq!(4, buf.layers[0].get_char(Position::new(x, 0)).attribute.foreground_color);
    }
    viewdata(&mut parser, &mut buf, &mut caret, &[0x14]);
    assert!(!caret.is_visible);
    viewdata(&mut parser, &mut buf, &mut caret, &[0x11]);
    assert!(caret.is_visible);
}

#[test]
fn viewdata_character_table() {
    let parser = ViewdataParser::new();
    assert_eq!('f', parser.to_unicode('#'));
    assert_eq!('\u{bd}', parser.to_unicode('\\'));
    assert_eq!('\u{1fb00}', parser.to_unicode('\u{81}'));
    assert_eq!(' ', parser.from_unicode(' '));
    assert_eq!('\\', parser.from_unicode('\u{bd}'));
    assert_eq!('f', parser.from_unicode('f'));
    assert_eq!('\u{c1}', parser.from_unicode('\u{1fb00}'));
    assert_eq!('\u{20ac}', parser.from_unicode('\u{20ac}'));
}

#[test]
fn pcboard_color_code_sets_attribute() {
    let (mut buf, mut caret) = terminal(80, 25);
    let mut parser = PCBoardParser::new();
    for ch in "@X1FA".chars() {
        parser.print_char(&mut buf, &mut caret, ch).unwrap();
    }
    let c = buf.get_char(Position::new(0, 0));
    assert_eq!('A', c.ch);
    assert_eq!(0x1f, c.attribute.as_u8(BufferType::CP437));
    assert!(c.attribute.is_bold());
    assert_eq!(1, c.attribute.background_color);
}
