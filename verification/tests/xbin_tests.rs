use icy_engine::attributed_char::AttributedChar;
use icy_engine::buffer::Buffer;
use icy_engine::geometry::{Position, Size};
use icy_engine::text_attribute::TextAttribute;
use icy_engine::xbin::{compress_backtrack, compress_greedy, count_length, encode_attr, Compression};

fn row_buffer(cells: &[(char, u32)]) -> Buffer {
    let mut buf = Buffer::new(Size::new(cells.len(), 1));
    for (i, (ch, fg)) in cells.iter().enumerate() {
        buf.layers[0].set_char(
            Position::new(i as i32, 0),
            AttributedChar::new(*ch, TextAttribute::from_color(*fg, 0)),
        );
    }
    buf
}

#[test]
fn test_compress_repeated_cell() {
    let buf = row_buffer(&[('A', 7), ('A', 7), ('A', 7), ('B', 7)]);
    let mut out = Vec::new();
    compress_greedy(&mut out, &buf, false);
    assert_eq!(vec![0xC2, 0x41, 0x07, 0x00, 0x42, 0x07], out);
    let mut out = vec![0x99];
    compress_backtrack(&mut out, &buf, false);
    assert_eq!(vec![0x99, 0xC2, 0x41, 0x07, 0x00, 0x42, 0x07], out);
}

#[test]
fn test_compress_shared_attribute() {
    let buf = row_buffer(&[('A', 7), ('B', 7), ('C', 7), ('D', 7)]);
    let mut out = Vec::new();
    compress_greedy(&mut out, &buf, false);
    assert_eq!(vec![0x83, 0x07, 0x41, 0x42, 0x43, 0x44], out);
}

#[test]
fn test_compress_shared_character() {
    let buf = row_buffer(&[('A', 1), ('A', 2), ('A', 3)]);
    let mut out = Vec::new();
    compress_greedy(&mut out, &buf, false);
    assert_eq!(vec![0x42, 0x41, 0x01, 0x02, 0x03], out);
}

#[test]
fn test_compress_distinct_cells() {
    let buf = row_buffer(&[('A', 1), ('B', 2)]);
    let mut out = Vec::new();
    compress_greedy(&mut out, &buf, false);
    assert_eq!(vec![0x01, 0x41, 0x01, 0x42, 0x02], out);
    let mut out = Vec::new();
    compress_backtrack(&mut out, &buf, false);
    assert_eq!(vec![0x01, 0x41, 0x01, 0x42, 0x02], out);
}

#[test]
fn test_compress_empty_buffer() {
    let buf = Buffer::new(Size::new(0, 0));
    let mut out = vec![1, 2];
    compress_greedy(&mut out, &buf, false);
    assert_eq!(vec![1, 2], out);
}

#[test]
fn test_count_length() {
    let buf = row_buffer(&[('A', 7), ('A', 7), ('A', 7), ('B', 7)]);
    let a = AttributedChar::new('A', TextAttribute::from_color(7, 0));
    assert_eq!(2, count_length(Compression::Full, a, None, 0, &buf, 0));
    assert_eq!(3, count_length(Compression::Off, a, Some(true), 1, &buf, 1));
    assert_eq!(0, count_length(Compression::Off, a, None, 1, &buf, 3));
}

#[test]
fn test_encode_attr() {
    let attr = TextAttribute::from_color(7, 0);
    assert_eq!(7, encode_attr(65, attr, true));
    assert_eq!(15, encode_attr(256, attr, true));
    assert_eq!(7, encode_attr(256, attr, false));
    assert_eq!(0x1E, encode_attr(65, TextAttribute::from_color(14, 1), false));
}

fn decode_runs(bytes: &[u8]) -> Vec<(u8, u8)> {
    let mut result = Vec::new();
    let mut o = 0;
    while o < bytes.len() {
        let mode = bytes[o] >> 6;
        let n = (bytes[o] & 0x3F) as usize + 1;
        o += 1;
        match mode {
            0 => {
                for i in 0..n {
                    result.push((bytes[o + 2 * i], bytes[o + 2 * i + 1]));
                }
                o += 2 * n;
            }
            1 => {
                for i in 0..n {
                    result.push((bytes[o], bytes[o + 1 + i]));
                }
                o += 1 + n;
            }
            2 => {
                for i in 0..n {
                    result.push((bytes[o + 1 + i], bytes[o]));
                }
                o += 1 + n;
            }
            _ => {
                for _ in 0..n {
                    result.push((bytes[o], bytes[o + 1]));
                }
                o += 2;
            }
        }
    }
    result
}

#[test]
fn test_compressed_data_decodes_to_the_cells() {
    let mut cells = Vec::new();
    for i in 0..150u32 {
        let ch = match i % 7 {
            0 | 1 | 2 => 'A',
            3 => 'B',
            _ => char::from_u32(0x40 + (i % 11)).unwrap(),
        };
        let fg = if i < 70 { 7 } else { i % 5 };
        cells.push((ch, fg));
    }
    for _ in 0..80 {
        cells.push(('Z', 3));
    }
    let buf = row_buffer(&cells);
    let expected: Vec<(u8, u8)> = cells
        .iter()
        .map(|(ch, fg)| (*ch as u8, TextAttribute::from_color(*fg, 0).foreground_color as u8))
        .collect();
    let mut greedy = Vec::new();
    compress_greedy(&mut greedy, &buf, false);
    assert_eq!(expected, decode_runs(&greedy));
    let mut backtrack = Vec::new();
    compress_backtrack(&mut backtrack, &buf, false);
    assert_eq!(expected, decode_runs(&backtrack));
}

#[test]
fn test_advance_pos() {
    let buf = Buffer::new(Size::new(3, 2));
    let mut pos = Position::new(0, 0);
    assert!(icy_engine::xbin::advance_pos(&buf, &mut pos));
    assert_eq!(Position::new(1, 0), pos);
    icy_engine::xbin::advance_pos(&buf, &mut pos);
    icy_engine::xbin::advance_pos(&buf, &mut pos);
    assert_eq!(Position::new(0, 1), pos);
}
