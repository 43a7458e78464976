use icy_engine::attributed_char::AttributedChar;
use icy_engine::geometry::{Position, Rectangle, Size};
use icy_engine::layer::Layer;
use icy_engine::text_attribute::TextAttribute;
use icy_engine::undo_operations::EditState;
use icy_engine::undo_stack::UndoOperation;

fn hash() -> AttributedChar {
    AttributedChar::new('#', TextAttribute::default())
}

fn filled_state() -> EditState {
    let mut state = EditState::default();
    for y in 0..20 {
        for x in 0..20 {
            state.set_char(Position::new(x, y), hash()).unwrap();
        }
    }
    state
}

#[test]
fn test_delete_selection() {
    let mut state = filled_state();

    let rect = Rectangle::from(5, 5, 10, 10);
    state.set_selection(rect).unwrap();
    state.erase_selection().unwrap();
    for y in 0..20 {
        for x in 0..20 {
            let pos = Position::new(x, y);
            let ch = state.get_buffer().get_char(pos);

            if rect.is_inside(pos) {
                assert_eq!(ch.ch, ' ');
            } else {
                assert_eq!(ch.ch, '#');
            }
        }
    }

    state.undo().unwrap();

    for y in 0..20 {
        for x in 0..20 {
            let pos = Position::new(x, y);
            let ch = state.get_buffer().get_char(pos);
            assert_eq!(ch.ch, '#');
        }
    }
}

fn prepared_state(a: (i32, i32), b: (i32, i32)) -> EditState {
    let mut state = filled_state();
    state.set_selection(Rectangle::from(0, 0, 10, 10)).unwrap();
    state.erase_selection().unwrap();

    state.set_selection(Rectangle::from(0, 0, 10, 10)).unwrap();
    state.set_char(Position::new(a.0, a.1), hash()).unwrap();
    state.set_char(Position::new(b.0, b.1), hash()).unwrap();
    state
}

fn check_outside(state: &EditState) {
    for y in 10..20 {
        for x in 10..20 {
            let ch = state.get_buffer().get_char(Position::new(x, y));
            assert_eq!(ch.ch, '#');
        }
    }
}

fn check_inside(state: &EditState, marked: &[(i32, i32)]) {
    for y in 0..10 {
        for x in 0..10 {
            let ch = state.get_buffer().get_char(Position::new(x, y));
            if marked.contains(&(x, y)) {
                assert_eq!(ch.ch, '#');
            } else {
                assert_eq!(ch.ch, ' ');
            }
        }
    }
}

#[test]
fn test_flip_x() {
    let mut state = prepared_state((3, 5), (0, 9));
    state.flip_x().unwrap();
    check_outside(&state);
    check_inside(&state, &[(9, 9), (6, 5)]);
    state.undo().unwrap();
    check_inside(&state, &[(3, 5), (0, 9)]);
}

#[test]
fn test_flip_y() {
    let mut state = prepared_state((3, 3), (9, 9));
    state.flip_y().unwrap();
    check_outside(&state);
    check_inside(&state, &[(9, 0), (3, 6)]);
    state.undo().unwrap();
    check_inside(&state, &[(3, 3), (9, 9)]);
}

#[test]
fn test_justify_right() {
    let mut state = prepared_state((5, 5), (0, 9));
    state.justify_right().unwrap();
    check_outside(&state);
    check_inside(&state, &[(9, 5), (9, 9)]);
    state.undo().unwrap();
    check_inside(&state, &[(5, 5), (0, 9)]);
}

#[test]
fn test_center() {
    let mut state = prepared_state((0, 5), (9, 9));
    state.center().unwrap();
    check_outside(&state);
    check_inside(&state, &[(4, 5), (4, 9)]);
    state.undo().unwrap();
    check_inside(&state, &[(0, 5), (9, 9)]);
}

#[test]
fn test_justify_left() {
    let mut state = prepared_state((5, 5), (9, 9));
    state.justify_left().unwrap();
    check_outside(&state);
    check_inside(&state, &[(0, 5), (0, 9)]);
    state.undo().unwrap();
    check_inside(&state, &[(5, 5), (9, 9)]);
}

#[test]
fn test_crop() {
    let mut state = EditState::default();

    let mut layer = Layer::new("1", Size::new(100, 100));
    layer.set_offset(Position::new(-5, -5));
    state.get_buffer_mut().layers.push(layer);

    let mut layer = Layer::new("2", Size::new(2, 2));
    layer.set_offset(Position::new(7, 6));
    state.get_buffer_mut().layers.push(layer);

    state.set_selection(Rectangle::from(5, 5, 5, 4)).unwrap();

    state.crop().unwrap();

    assert_eq!(state.get_buffer().get_width(), 5);
    assert_eq!(state.get_buffer().get_height(), 4);
    assert_eq!(state.get_buffer().layers[1].get_size(), Size::new(5, 4));
    assert_eq!(state.get_buffer().layers[2].get_size(), Size::new(2, 2));

    state.undo().unwrap();

    assert_eq!(state.get_buffer().get_width(), 80);
    assert_eq!(state.get_buffer().get_height(), 25);
    assert_eq!(state.get_buffer().layers[1].get_size(), Size::new(100, 100));
    assert_eq!(state.get_buffer().layers[2].get_size(), Size::new(2, 2));
}

#[test]
fn test_resize_buffer() {
    let mut state = EditState::default();
    assert_eq!(Size::new(80, 25), state.buffer.get_size());
    state.resize_buffer(Size::new(10, 10)).unwrap();
    assert_eq!(Size::new(10, 10), state.buffer.get_size());
    state.undo().unwrap();
    assert_eq!(Size::new(80, 25), state.buffer.get_size());
}

#[test]
fn test_add_layer() {
    let mut state = EditState::default();
    assert_eq!(1, state.buffer.layers.len());
    state.add_new_layer(0).unwrap();
    assert_eq!(2, state.buffer.layers.len());
}

#[test]
fn test_add_layer_size() {
    let mut state = EditState::default();
    let size = Size::new(160, 1000);
    state.buffer.set_size(size);
    state.add_new_layer(0).unwrap();
    assert_eq!(size, state.buffer.layers[1].get_size());
}

#[test]
fn test_add_layer_undo_redo() {
    let mut state = EditState::default();
    assert_eq!(1, state.buffer.layers.len());
    state.add_new_layer(0).unwrap();
    assert_eq!(2, state.buffer.layers.len());
    state.undo().unwrap();
    assert_eq!(1, state.buffer.layers.len());
    state.redo().unwrap();
    assert_eq!(2, state.buffer.layers.len());
}

#[test]
fn test_remove_layer() {
    let mut state = EditState::default();
    state.add_new_layer(0).unwrap();
    state.add_new_layer(0).unwrap();
    assert_eq!(3, state.buffer.layers.len());
    state.remove_layer(1).unwrap();
    assert_eq!(2, state.buffer.layers.len());
}

#[test]
fn test_remove_layer_undo_redo() {
    let mut state = EditState::default();
    state.add_new_layer(0).unwrap();
    state.add_new_layer(0).unwrap();
    assert_eq!(3, state.buffer.layers.len());
    state.remove_layer(1).unwrap();
    assert_eq!(2, state.buffer.layers.len());
    state.undo().unwrap();
    assert_eq!(3, state.buffer.layers.len());
    state.redo().unwrap();
    assert_eq!(2, state.buffer.layers.len());
}

#[test]
fn test_raise_layer() {
    let mut state = EditState::default();
    let name = state.buffer.layers[0].title.clone();
    state.add_new_layer(0).unwrap();
    state.raise_layer(0).unwrap();
    assert_eq!(name, state.buffer.layers[1].title);
    state.undo().unwrap();
    assert_ne!(name, state.buffer.layers[1].title);
}

#[test]
fn test_lower_layer() {
    let mut state: EditState = EditState::default();
    state.add_new_layer(0).unwrap();
    let name = state.buffer.layers[1].title.clone();
    state.lower_layer(1).unwrap();
    assert_eq!(name, state.buffer.layers[0].title);
    state.undo().unwrap();
    assert_ne!(name, state.buffer.layers[0].title);
}

#[test]
fn test_toggle_layer_visibility() {
    let mut state = EditState::default();
    assert!(state.buffer.layers[0].is_visible);
    state.toggle_layer_visibility(0).unwrap();
    assert!(!state.buffer.layers[0].is_visible);
    state.undo().unwrap();
    assert!(state.buffer.layers[0].is_visible);
}

#[test]
fn test_merge_layer_down() {
    let mut state = EditState::default();
    let mut new_layer = Layer::new("1", Size::new(10, 10));
    new_layer.has_alpha_channel = true;
    new_layer.set_char(Position::new(5, 5), AttributedChar::new('a', TextAttribute::default()));
    state.buffer.layers.push(new_layer);

    let mut new_layer = Layer::new("2", Size::new(10, 10));
    new_layer.has_alpha_channel = true;
    new_layer.set_char(Position::new(6, 6), AttributedChar::new('b', TextAttribute::default()));
    state.buffer.layers.push(new_layer);

    state.merge_layer_down(2).unwrap();
    assert_eq!(2, state.buffer.layers.len());

    assert_eq!('a', state.buffer.get_char(Position::new(5, 5)).ch);
    assert_eq!('b', state.buffer.get_char(Position::new(6, 6)).ch);
    assert_eq!(Position::new(0, 0), state.buffer.layers[1].get_offset());
    assert_eq!(Size::new(10, 10), state.buffer.layers[1].get_size());
    state.undo().unwrap();
    assert_eq!(3, state.buffer.layers.len());
}

#[test]
fn test_merge_layer_down_case1() {
    let mut state = EditState::default();
    let mut new_layer = Layer::new("1", Size::new(10, 10));
    new_layer.has_alpha_channel = true;
    new_layer.set_offset(Position::new(2, 2));
    new_layer.set_char(Position::new(5, 5), AttributedChar::new('a', TextAttribute::default()));
    state.buffer.layers.push(new_layer);

    let mut new_layer = Layer::new("2", Size::new(10, 10));
    new_layer.has_alpha_channel = true;
    new_layer.set_char(Position::new(6, 6), AttributedChar::new('b', TextAttribute::default()));
    state.buffer.layers.push(new_layer);

    state.merge_layer_down(2).unwrap();
    assert_eq!(2, state.buffer.layers.len());

    assert_eq!('a', state.buffer.get_char(Position::new(7, 7)).ch);
    assert_eq!('b', state.buffer.get_char(Position::new(6, 6)).ch);
    assert_eq!(Position::new(0, 0), state.buffer.layers[1].get_offset());
    assert_eq!(Size::new(12, 12), state.buffer.layers[1].get_size());
}

#[test]
fn test_merge_layer_down_case2() {
    let mut state = EditState::default();
    let mut new_layer = Layer::new("1", Size::new(10, 10));
    new_layer.has_alpha_channel = true;
    new_layer.set_offset(Position::new(-1, -1));
    new_layer.set_char(Position::new(5, 5), AttributedChar::new('a', TextAttribute::default()));
    state.buffer.layers.push(new_layer);

    let mut new_layer = Layer::new("2", Size::new(10, 10));
    new_layer.has_alpha_channel = true;
    new_layer.set_char(Position::new(6, 6), AttributedChar::new('b', TextAttribute::default()));
    state.buffer.layers.push(new_layer);

    state.merge_layer_down(2).unwrap();

    assert_eq!(2, state.buffer.layers.len());

    assert_eq!(Position::new(-1, -1), state.buffer.layers[1].get_offset());
    assert_eq!(Size::new(11, 11), state.buffer.layers[1].get_size());

    assert_eq!('a', state.buffer.layers[1].get_char(Position::new(5, 5)).ch);
    assert_eq!('b', state.buffer.layers[1].get_char(Position::new(7, 7)).ch);
}

fn put_row(state: &mut EditState, y: i32, text: &str) {
    for (x, c) in text.chars().enumerate() {
        state.set_char(Position::new(x as i32, y), AttributedChar::new(c, TextAttribute::default())).unwrap();
    }
}

fn row_text(state: &EditState, y: i32, width: i32) -> String {
    let mut s = String::new();
    for x in 0..width {
        s.push(state.get_buffer().get_char(Position::new(x, y)).ch);
    }
    s
}

#[test]
fn scroll_area_turns_cells() {
    let mut state = EditState::default();
    put_row(&mut state, 0, "ABCD");
    put_row(&mut state, 1, "EFGH");
    state.set_selection(Rectangle::from(1, 0, 2, 2)).unwrap();

    state.scroll_area_left().unwrap();
    assert!(matches!(state.undo_stack.last(), Some(UndoOperation::UndoLayerChange(_))));
    assert_eq!("ACBD", row_text(&state, 0, 4));
    assert_eq!("EGFH", row_text(&state, 1, 4));

    state.scroll_area_right().unwrap();
    assert_eq!("ABCD", row_text(&state, 0, 4));

    state.scroll_area_up().unwrap();
    assert_eq!("AFGD", row_text(&state, 0, 4));
    assert_eq!("EBCH", row_text(&state, 1, 4));
    state.undo().unwrap();
    assert_eq!("ABCD", row_text(&state, 0, 4));
    assert_eq!("EFGH", row_text(&state, 1, 4));

    state.scroll_area_down().unwrap();
    assert_eq!("AFGD", row_text(&state, 0, 4));
    assert_eq!("EBCH", row_text(&state, 1, 4));
}

#[test]
fn scroll_area_over_whole_width_turns_layer() {
    let mut state = EditState::default();
    put_row(&mut state, 0, "ABCD");
    put_row(&mut state, 1, "EFGH");
    state.scroll_area_up().unwrap();
    assert!(matches!(state.undo_stack.last(), Some(UndoOperation::UndoScrollWholeLayerUp(_))));
    assert_eq!("EFGH", row_text(&state, 0, 4));
    assert_eq!("ABCD", row_text(&state, 24, 4));
}

#[test]
fn scroll_area_of_nothing_does_nothing() {
    let mut state = EditState::default();
    put_row(&mut state, 0, "ABCD");
    state.set_selection(Rectangle::from(100, 100, 2, 2)).unwrap();
    let kept = state.undo_stack_len();
    state.scroll_area_left().unwrap();
    assert_eq!(kept, state.undo_stack_len());
    assert_eq!("ABCD", row_text(&state, 0, 4));
}

#[test]
fn center_line_centers_caret_row() {
    let mut state = EditState::default();
    put_row(&mut state, 3, "AB");
    state.get_caret_mut().pos = Position::new(0, 3);
    state.center_line().unwrap();
    assert!(state.get_selection().is_none());
    assert_eq!('A', state.get_buffer().get_char(Position::new(38, 3)).ch);
    assert_eq!('B', state.get_buffer().get_char(Position::new(39, 3)).ch);
    assert_eq!(' ', state.get_buffer().get_char(Position::new(0, 3)).ch);
}

#[test]
fn erase_row_to_end_clears_from_caret() {
    let mut state = EditState::default();
    put_row(&mut state, 2, "ABCDEF");
    state.get_caret_mut().pos = Position::new(2, 2);
    state.erase_row_to_end().unwrap();
    assert_eq!("AB    ", row_text(&state, 2, 6));
    assert!(state.get_selection().is_none());
}

#[test]
fn set_char_is_undone() {
    let mut state = EditState::default();
    state.set_char(Position::new(1, 1), hash()).unwrap();
    assert_eq!('#', state.get_buffer().get_char(Position::new(1, 1)).ch);
    state.undo().unwrap();
    assert_eq!(' ', state.get_buffer().get_char(Position::new(1, 1)).ch);
}

#[test]
fn delete_and_insert_row_at_caret() {
    let mut state = EditState::default();
    put_row(&mut state, 0, "AB");
    put_row(&mut state, 1, "CD");
    state.delete_row().unwrap();
    assert_eq!("CD", row_text(&state, 0, 2));
    assert_eq!(24, state.buffer.layers[0].get_height());
    state.undo().unwrap();
    assert_eq!("AB", row_text(&state, 0, 2));
    state.insert_row().unwrap();
    assert_eq!("AB", row_text(&state, 1, 2));
    assert_eq!(26, state.buffer.layers[0].get_height());
}

#[test]
fn current_layer_is_held_to_the_layers() {
    let mut state = EditState::default();
    state.add_new_layer(0).unwrap();
    state.set_current_layer(5);
    assert_eq!(1, state.current_layer);
    assert_eq!(state.buffer.layers[1].title, state.get_cur_layer().unwrap().title);
    state.set_current_layer(0);
    assert_eq!(0, state.current_layer);
    state.get_cur_layer_mut().unwrap().title = "renamed".to_string();
    assert_eq!("renamed", state.buffer.layers[0].title);
}

#[test]
fn outline_style_and_mirror_mode() {
    let mut state = EditState::default();
    assert_eq!(0, state.get_outline_style());
    assert!(!state.get_mirror_mode());
    state.set_outline_style(3);
    state.set_mirror_mode(true);
    assert_eq!(3, state.get_outline_style());
    assert!(state.get_mirror_mode());
}

#[test]
fn undo_stack_moves_operations_back_and_forth() {
    let mut state = EditState::default();
    assert!(!state.can_undo());
    assert!(!state.can_redo());
    state.undo().unwrap();
    state.redo().unwrap();
    assert_eq!(1, state.buffer.layers.len());

    state.add_new_layer(0).unwrap();
    state.toggle_layer_visibility(0).unwrap();
    assert_eq!(2, state.undo_stack_len());
    assert!(!state.buffer.layers[0].is_visible);

    state.undo().unwrap();
    assert!(state.buffer.layers[0].is_visible);
    assert!(state.can_redo());
    state.undo().unwrap();
    assert_eq!(1, state.buffer.layers.len());
    assert_eq!(0, state.undo_stack_len());

    state.redo().unwrap();
    assert_eq!(2, state.buffer.layers.len());
    assert_eq!(1, state.undo_stack_len());

    state.switch_to_font_page(3).unwrap();
    assert!(!state.can_redo());
}

#[test]
fn buffer_can_be_replaced_and_changed_with_the_caret() {
    let mut state = EditState::default();
    state.set_buffer(icy_engine::buffer::Buffer::new(Size::new(10, 4)));
    assert_eq!(Size::new(10, 4), state.buffer.get_size());
    {
        let (buf, caret) = state.get_buffer_and_caret_mut();
        caret.pos = Position::new(3, 2);
        buf.layers[0].set_char(Position::new(3, 2), AttributedChar::new('q', TextAttribute::default()));
    }
    assert_eq!(Position::new(3, 2), state.caret.pos);
    assert_eq!('q', state.buffer.get_char(Position::new(3, 2)).ch);
}
