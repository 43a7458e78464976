use icy_engine::attributed_char::AttributedChar;
use icy_engine::buffer::Buffer;
use icy_engine::geometry::{Position, Size};
use icy_engine::layer::Layer;
use icy_engine::line::Line;
use icy_engine::text_attribute::TextAttribute;

#[test]
fn test_get_char() {
    let mut layer = Layer::new("Background", Size::new(0, 0));
    layer.has_alpha_channel = false;
    let mut line = Line::new();
    line.set_char(10, AttributedChar::new('a', TextAttribute::default()));

    layer.insert_line(0, line);

    assert_eq!(AttributedChar::default(), layer.get_char(Position::new(-1, -1)));
    assert_eq!(AttributedChar::default(), layer.get_char(Position::new(1000, 1000)));
    assert_eq!('a', layer.get_char(Position::new(10, 0)).ch);
    assert_eq!(AttributedChar::default(), layer.get_char(Position::new(9, 0)));
    assert_eq!(AttributedChar::default(), layer.get_char(Position::new(11, 0)));
}

#[test]
fn test_get_char_intransparent() {
    let mut layer = Layer::new("Background", Size::new(0, 0));
    layer.has_alpha_channel = true;

    let mut line = Line::new();
    line.set_char(10, AttributedChar::new('a', TextAttribute::default()));

    layer.insert_line(0, line);

    assert_eq!(AttributedChar::invisible(), layer.get_char(Position::new(-1, -1)));
    assert_eq!(AttributedChar::invisible(), layer.get_char(Position::new(1000, 1000)));
    assert_eq!('a', layer.get_char(Position::new(10, 0)).ch);
    assert_eq!(AttributedChar::invisible(), layer.get_char(Position::new(9, 0)));
    assert_eq!(AttributedChar::invisible(), layer.get_char(Position::new(11, 0)));
}

#[test]
fn test_insert_line() {
    let mut layer = Layer::new("Background", Size::new(80, 0));
    let mut line = Line::new();
    line.chars.push(AttributedChar::new('a', TextAttribute::default()));
    layer.insert_line(10, line);

    assert_eq!('a', layer.lines[10].chars[0].ch);
    assert_eq!(11, layer.lines.len());

    layer.insert_line(11, Line::new());
    assert_eq!(12, layer.lines.len());
}

#[test]
fn layer_rows_before_an_inserted_row_are_invisible() {
    let mut layer = Layer::new("Background", Size::new(4, 0));
    layer.insert_line(2, Line::new());
    assert_eq!(3, layer.lines.len());
    assert_eq!(4, layer.lines[0].chars.len());
    assert!(!layer.lines[0].chars[0].is_visible());
    assert_eq!(0, layer.lines[2].chars.len());
}

#[test]
fn locked_layer_ignores_writes() {
    let mut layer = Layer::new("Background", Size::new(10, 2));
    layer.is_locked = true;
    layer.set_char(Position::new(1, 1), AttributedChar::new('x', TextAttribute::default()));
    assert_ne!('x', layer.get_char(Position::new(1, 1)).ch);
}

#[test]
fn layer_offset_shifts_reads() {
    let mut layer = Layer::new("Background", Size::new(10, 2));
    layer.set_char(Position::new(1, 1), AttributedChar::new('x', TextAttribute::default()));
    layer.set_offset(Position::new(2, 3));
    assert_eq!('x', layer.get_char(Position::new(3, 4)).ch);
    layer.is_position_locked = true;
    layer.set_offset(Position::new(0, 0));
    assert_eq!(Position::new(2, 3), layer.get_offset());
}

#[test]
fn swap_char_exchanges_cells() {
    let mut layer = Layer::new("Background", Size::new(10, 2));
    layer.set_char(Position::new(0, 0), AttributedChar::new('a', TextAttribute::default()));
    layer.set_char(Position::new(5, 1), AttributedChar::new('b', TextAttribute::default()));
    layer.swap_char(Position::new(0, 0), Position::new(5, 1));
    assert_eq!('b', layer.get_char(Position::new(0, 0)).ch);
    assert_eq!('a', layer.get_char(Position::new(5, 1)).ch);
}

#[test]
fn test_layer_offset() {
    let mut buf: Buffer = Buffer::default();

    let mut new_layer = Layer::new("1", Size::new(10, 10));
    new_layer.has_alpha_channel = true;
    new_layer.set_offset(Position::new(2, 2));
    new_layer.set_char(Position::new(5, 5), AttributedChar::new('a', TextAttribute::default()));
    buf.layers.push(new_layer);

    assert_eq!('a', buf.get_char(Position::new(7, 7)).ch);
}

#[test]
fn test_layer_negative_offset() {
    let mut buf: Buffer = Buffer::default();

    let mut new_layer = Layer::new("1", Size::new(10, 10));
    new_layer.has_alpha_channel = true;
    new_layer.set_offset(Position::new(-2, -2));
    new_layer.set_char(Position::new(5, 5), AttributedChar::new('a', TextAttribute::default()));
    buf.layers.push(new_layer);

    let mut new_layer = Layer::new("2", Size::new(10, 10));
    new_layer.has_alpha_channel = true;
    new_layer.set_offset(Position::new(2, 2));
    new_layer.set_char(Position::new(5, 5), AttributedChar::new('b', TextAttribute::default()));
    buf.layers.push(new_layer);

    assert_eq!('a', buf.get_char(Position::new(3, 3)).ch);
    assert_eq!('b', buf.get_char(Position::new(7, 7)).ch);
}
