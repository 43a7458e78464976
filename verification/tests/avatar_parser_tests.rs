use icy_engine::avatar_parser::AvatarParser;
use icy_engine::buffer::Buffer;
use icy_engine::buffer_type::BufferType;
use icy_engine::caret::Caret;
use icy_engine::geometry::{Position, Size};
use icy_engine::parser_errors::ParserError;
use icy_engine::text_attribute::TextAttribute;

fn run(parser: &mut AvatarParser, buf: &mut Buffer, caret: &mut Caret, input: &str) {
    for ch in input.chars() {
        parser.print_char(buf, caret, ch).unwrap();
    }
}

fn create_buffer() -> (Buffer, Caret) {
    let mut buf = Buffer::create(Size::new(80, 25));
    buf.is_terminal_buffer = true;
    (buf, Caret::default())
}

#[test]
fn test_avatar_plain_text() {
    let (mut buf, mut caret) = create_buffer();
    let mut parser = AvatarParser::new(true);
    run(&mut parser, &mut buf, &mut caret, "Hi");
    assert_eq!('H', buf.get_char(Position::new(0, 0)).ch);
    assert_eq!('i', buf.get_char(Position::new(1, 0)).ch);
    assert_eq!(Position::new(2, 0), caret.pos);
}

#[test]
fn test_avatar_repeat() {
    let (mut buf, mut caret) = create_buffer();
    let mut parser = AvatarParser::new(false);
    run(&mut parser, &mut buf, &mut caret, "\x19A\x03B");
    for x in 0..3 {
        assert_eq!('A', buf.get_char(Position::new(x, 0)).ch);
    }
    assert_eq!('B', buf.get_char(Position::new(3, 0)).ch);
}

#[test]
fn test_avatar_color() {
    let (mut buf, mut caret) = create_buffer();
    let mut parser = AvatarParser::new(true);
    run(&mut parser, &mut buf, &mut caret, "\x16\x01\x1F");
    assert_eq!(TextAttribute::from_u8(0x1F, BufferType::CP437), caret.attribute);
    run(&mut parser, &mut buf, &mut caret, "\x16\x02");
    assert!(caret.attribute.blink);
}

#[test]
fn test_avatar_goto_and_moves() {
    let (mut buf, mut caret) = create_buffer();
    let mut parser = AvatarParser::new(true);
    run(&mut parser, &mut buf, &mut caret, "\x16\x08\x05\x03");
    assert_eq!(Position::new(5, 3), caret.pos);
    run(&mut parser, &mut buf, &mut caret, "\x16\x03\x16\x05\x16\x04\x16\x04");
    assert_eq!(Position::new(4, 4), caret.pos);
    run(&mut parser, &mut buf, &mut caret, "\x16\x08\x4F\x00\x16\x06");
    assert_eq!(Position::new(79, 0), caret.pos);
    run(&mut parser, &mut buf, &mut caret, "\x16\x08\x00\x00\x16\x03\x16\x05");
    assert_eq!(Position::new(0, 0), caret.pos);
}

#[test]
fn test_avatar_clear_screen() {
    let (mut buf, mut caret) = create_buffer();
    let mut parser = AvatarParser::new(true);
    run(&mut parser, &mut buf, &mut caret, "AB\x16\x01\x1F\x0C");
    assert_eq!(Position::new(0, 0), caret.pos);
    assert_eq!(TextAttribute::default(), caret.attribute);
    assert_eq!(' ', buf.get_char(Position::new(0, 0)).ch);
}

#[test]
fn test_avatar_refused_commands() {
    let (mut buf, mut caret) = create_buffer();
    let mut parser = AvatarParser::new(true);
    run(&mut parser, &mut buf, &mut caret, "\x16");
    match parser.print_char(&mut buf, &mut caret, '\x07') {
        Err(ParserError::Description(s)) => assert_eq!("todo: avt cleareol", s),
        _ => panic!("clear to end of line is not supported"),
    }
    match parser.print_char(&mut buf, &mut caret, '\x09') {
        Err(ParserError::Description(s)) => assert_eq!("unsupported avatar command", s),
        _ => panic!("command 9 is not supported"),
    }
    run(&mut parser, &mut buf, &mut caret, "X");
    assert_eq!('X', buf.get_char(Position::new(0, 0)).ch);
}
