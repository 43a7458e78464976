use icy_engine::ansi_parser::AnsiParser;
use icy_engine::buffer::Buffer;
use icy_engine::caret::Caret;
use icy_engine::geometry::{Position, Size};
use icy_engine::text_attribute::TextAttribute;

fn create_buffer(parser: &mut AnsiParser, input: &[u8]) -> (Buffer, Caret) {
    let mut buf = Buffer::create(Size::new(80, 25));
    let mut caret = Caret::default();
    buf.is_terminal_buffer = true;
    buf.layers[0].lines.clear();
    buf.layers[0].is_locked = false;

    update_buffer(&mut buf, &mut caret, parser, input);

    (buf, caret)
}

fn update_buffer(buf: &mut Buffer, caret: &mut Caret, parser: &mut AnsiParser, input: &[u8]) {
    for b in input {
        if let Some(ch) = char::from_u32(*b as u32) {
            parser.print_char(buf, caret, ch).unwrap();
        }
    }
}

#[test]
fn test_bs() {
    let (buf, caret) = create_buffer(&mut AnsiParser::new(), b"\x1b[1;43mtest\x08\x08\x08\x08");
    assert_eq!(Position::new(0, 0), caret.pos);
    for i in 0..4 {
        assert_eq!(TextAttribute::from_color(15, 6), buf.get_char(Position::new(i, 0)).attribute);
    }
}

#[test]
fn test_up() {
    let (mut buf, mut caret) = create_buffer(&mut AnsiParser::new(), b"\x1b[10;10H");
    assert_eq!(9, caret.pos.y);
    caret.up(&mut buf, 100);
    assert_eq!(0, caret.pos.y);
}

#[test]
fn test_down() {
    let (mut buf, mut caret) = create_buffer(&mut AnsiParser::new(), b"\x1b[10;10H");
    assert_eq!(9, caret.pos.y);
    caret.down(&mut buf, 100);
    assert_eq!(24, caret.pos.y);
}

#[test]
fn test_lf_beyond_terminal_height() {
    let (mut buf, mut caret) = create_buffer(&mut AnsiParser::new(), b"");
    for _ in 0..30 {
        caret.lf(&mut buf);
    }
    assert_eq!(30, caret.pos.y);
    assert_eq!(6, buf.get_first_visible_line());
}

#[test]
fn test_margin_up() {
    let (mut buf, mut caret) = create_buffer(&mut AnsiParser::new(), b"\x1b[10;10H");
    assert_eq!(9, caret.pos.y);
    caret.up(&mut buf, 100);
    assert_eq!(0, caret.pos.y);
}

#[test]
fn test_margin_scroll_up() {
    let (mut buf, mut caret) = create_buffer(&mut AnsiParser::new(), b"\x1B[1;25r1\n2\n3\n4\n");
    caret.up(&mut buf, 5);
    assert_eq!(0, caret.pos.y);
    assert_eq!('1', buf.get_char(Position::new(0, 1)).ch);
}

#[test]
fn test_margin_scroll_down() {
    let (mut buf, mut caret) = create_buffer(&mut AnsiParser::new(), b"\x1B[1;25r");
    assert_eq!(0, buf.get_line_count());
    for i in 0..24 {
        update_buffer(&mut buf, &mut caret, &mut AnsiParser::new(), format!("{}", i + 1).as_bytes());
        caret.lf(&mut buf);
    }
    update_buffer(&mut buf, &mut caret, &mut AnsiParser::new(), b"25");
    assert_eq!(25, buf.get_line_count());
    assert_eq!('1', buf.get_char(Position::new(0, 0)).ch);

    caret.down(&mut buf, 5);
    assert_eq!(25, buf.get_line_count());
    assert_eq!('6', buf.get_char(Position::new(0, 0)).ch);
    assert_eq!('5', buf.get_char(Position::new(1, 19)).ch);
}

#[test]
fn test_margin_scroll_down_bug() {
    let (mut buf, mut caret) = create_buffer(&mut AnsiParser::new(), b"1\x1b[5;19r\x1b[17;1Hfoo\nbar");

    let ch = buf.get_char(Position::new(0, 16));
    assert_eq!(b'f', ch.ch as u8);
    let ch = buf.get_char(Position::new(0, 17));
    assert_eq!(b'b', ch.ch as u8);

    assert_eq!(17, caret.pos.y);
    update_buffer(&mut buf, &mut caret, &mut AnsiParser::new(), b"\x1B[19H\r\n");
    update_buffer(&mut buf, &mut caret, &mut AnsiParser::new(), b"\x1B[19H\r\n");
    update_buffer(&mut buf, &mut caret, &mut AnsiParser::new(), b"\x1B[19H\r\n");

    assert_eq!(18, caret.pos.y);

    let ch = buf.get_char(Position::new(0, 16 - 3));
    assert_eq!(b'f', ch.ch as u8);
    let ch = buf.get_char(Position::new(0, 17 - 3));
    assert_eq!(b'b', ch.ch as u8);
}

#[test]
fn test_clear_screen_reset() {
    let (mut buf, mut caret) = create_buffer(&mut AnsiParser::new(), b"");
    for _ in 0..100 {
        caret.lf(&mut buf);
    }
    buf.clear_screen(&mut caret);
    assert_eq!(Position::new(0, 0), caret.pos);
    assert_eq!(0, buf.get_first_visible_line());
}
