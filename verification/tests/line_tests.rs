use icy_engine::attributed_char::AttributedChar;
use icy_engine::line::Line;
use icy_engine::text_attribute::TextAttribute;

#[test]
fn test_insert_char() {
    let mut line = Line::new();
    line.insert_char(100, AttributedChar::default());
    assert_eq!(101, line.chars.len());
    line.insert_char(1, AttributedChar::default());
    assert_eq!(102, line.chars.len());
}

#[test]
fn test_set_char() {
    let mut line = Line::new();
    line.set_char(100, AttributedChar::default());
    assert_eq!(101, line.chars.len());
    line.set_char(100, AttributedChar::default());
    assert_eq!(101, line.chars.len());
}

#[test]
fn line_length_stops_at_last_visible_cell() {
    let mut line = Line::create(10);
    assert_eq!(0, line.get_line_length());
    line.set_char(3, AttributedChar::new('a', TextAttribute::default()));
    assert_eq!(4, line.get_line_length());
    line.set_char(6, AttributedChar::new(' ', TextAttribute::from_color(7, 1)));
    assert_eq!(7, line.get_line_length());
}

#[test]
fn insert_char_shifts_the_rest() {
    let mut line = Line::new();
    line.set_char(0, AttributedChar::new('a', TextAttribute::default()));
    line.set_char(1, AttributedChar::new('b', TextAttribute::default()));
    line.insert_char(1, AttributedChar::new('c', TextAttribute::default()));
    let text: String = line.chars.iter().map(|c| c.ch).collect();
    assert_eq!("acb", text);
}
