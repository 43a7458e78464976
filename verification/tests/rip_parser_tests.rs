use icy_engine::buffer::Buffer;
use icy_engine::caret::Caret;
use icy_engine::geometry::{Position, Size};
use icy_engine::parser_errors::ParserError;
use icy_engine::rip_parser::{RipParser, RipState};

fn terminal() -> (Buffer, Caret) {
    let mut buf = Buffer::create(Size::new(80, 25));
    buf.is_terminal_buffer = true;
    buf.layers[0].lines.clear();
    buf.layers[0].is_locked = false;
    (buf, Caret::default())
}

fn feed(parser: &mut RipParser, buf: &mut Buffer, caret: &mut Caret, input: &str) -> Vec<Result<Option<String>, ParserError>> {
    input.chars().map(|ch| parser.print_char(buf, caret, ch)).collect()
}

fn row(buf: &Buffer, y: i32, width: i32) -> String {
    (0..width).map(|x| buf.get_char(Position::new(x, y)).ch).collect()
}

#[test]
fn rip_text_goes_to_the_screen() {
    let (mut buf, mut caret) = terminal();
    let mut parser = RipParser::new();
    feed(&mut parser, &mut buf, &mut caret, "AB");
    assert_eq!("AB", row(&buf, 0, 2));
}

#[test]
fn rip_home_command_moves_the_caret() {
    let (mut buf, mut caret) = terminal();
    let mut parser = RipParser::new();
    feed(&mut parser, &mut buf, &mut caret, "ABC!|HX");
    assert_eq!("XBC", row(&buf, 0, 3));
    assert_eq!(RipState::Default, parser.state);
}

#[test]
fn rip_erase_eol_clears_the_rest_of_the_row() {
    let (mut buf, mut caret) = terminal();
    let mut parser = RipParser::new();
    feed(&mut parser, &mut buf, &mut caret, "ABCD");
    caret.pos = Position::new(1, 0);
    feed(&mut parser, &mut buf, &mut caret, "!|>");
    assert_eq!("A   ", row(&buf, 0, 4));
}

#[test]
fn bang_without_bar_is_printed() {
    let (mut buf, mut caret) = terminal();
    let mut parser = RipParser::new();
    feed(&mut parser, &mut buf, &mut caret, "!x");
    assert_eq!("!x", row(&buf, 0, 2));
}

#[test]
fn unknown_rip_command_is_printed() {
    let (mut buf, mut caret) = terminal();
    let mut parser = RipParser::new();
    feed(&mut parser, &mut buf, &mut caret, "!|q");
    assert_eq!("!|q", row(&buf, 0, 3));
}

#[test]
fn reset_windows_drops_window_and_viewport() {
    let (mut buf, mut caret) = terminal();
    let mut parser = RipParser::new();
    parser.text_window = Some(icy_engine::geometry::Rectangle::from(0, 0, 5, 5));
    feed(&mut parser, &mut buf, &mut caret, "!|*");
    assert!(parser.text_window.is_none());
    assert!(parser.viewport.is_none());
}

#[test]
fn rip_query_is_answered() {
    let (mut buf, mut caret) = terminal();
    let mut parser = RipParser::new();
    let res = feed(&mut parser, &mut buf, &mut caret, "\x1b[!");
    assert_eq!(Some("RIPSCRIP01540\0".to_string()), res[2].as_ref().unwrap().clone());
    let res = feed(&mut parser, &mut buf, &mut caret, "\x1b[0!");
    assert_eq!(Some("RIPSCRIP01540\0".to_string()), res[3].as_ref().unwrap().clone());
}

#[test]
fn rip_can_be_switched_off() {
    let (mut buf, mut caret) = terminal();
    let mut parser = RipParser::new();
    feed(&mut parser, &mut buf, &mut caret, "\x1b[1!");
    assert!(!parser.enable_rip);
    feed(&mut parser, &mut buf, &mut caret, "!|H");
    assert_eq!("!|H", row(&buf, 0, 3));
    feed(&mut parser, &mut buf, &mut caret, "\x1b[2!");
    assert!(parser.enable_rip);
}

#[test]
fn invalid_rip_query_is_refused() {
    let (mut buf, mut caret) = terminal();
    let mut parser = RipParser::new();
    let res = feed(&mut parser, &mut buf, &mut caret, "\x1b[5!");
    assert!(matches!(res[3], Err(ParserError::InvalidRipAnsiQuery(5))));
}
