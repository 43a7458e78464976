use icy_engine::attributed_char::AttributedChar;
use icy_engine::bin_format::{Artworx, Bin};
use icy_engine::fonts::BitFont;
use icy_engine::formats::SavingError;
use icy_engine::buffer::Buffer;
use icy_engine::formats::SaveOptions;
use icy_engine::geometry::{Position, Size};
use icy_engine::text_attribute::TextAttribute;

#[test]
fn test_bin_to_bytes() {
    let mut buf = Buffer::new(Size::new(2, 2));
    buf.layers[0].set_char(Position::new(0, 0), AttributedChar::new('A', TextAttribute::from_color(1, 2)));
    buf.layers[0].set_char(Position::new(1, 0), AttributedChar::new('B', TextAttribute::from_color(15, 0)));
    buf.layers[0].set_char(Position::new(0, 1), AttributedChar::new('C', TextAttribute::from_color(7, 0)));
    buf.layers[0].set_char(Position::new(1, 1), AttributedChar::new('D', TextAttribute::from_color(0, 7)));
    let bytes = Bin {}.to_bytes(&buf, &SaveOptions::new());
    assert_eq!(vec![b'A', 0x21, b'B', 0x0F, b'C', 0x07, b'D', 0x70], bytes);
}

#[test]
fn test_bin_to_bytes_empty() {
    let buf = Buffer::new(Size::new(0, 0));
    assert!(Bin {}.to_bytes(&buf, &SaveOptions::new()).is_empty());
}

#[test]
fn test_artworx_to_bytes() {
    let mut buf = Buffer::new(Size::new(2, 1));
    buf.layers[0].set_char(Position::new(0, 0), AttributedChar::new('A', TextAttribute::from_color(1, 2)));
    buf.layers[0].set_char(Position::new(1, 0), AttributedChar::new('B', TextAttribute::from_color(7, 0)));
    let data: Vec<u8> = (0..16 * 256).map(|i| (i % 251) as u8).collect();
    buf.set_font(0, BitFont::create_8("".to_string(), 8, 16, &data));
    let bytes = Artworx {}.to_bytes(&buf, &SaveOptions::new()).unwrap();
    let palette = buf.palette.to_ega_palette();
    assert_eq!(1, bytes[0]);
    assert_eq!(palette[..], bytes[1..1 + palette.len()]);
    let fonts_start = 1 + palette.len();
    assert_eq!(data[..], bytes[fonts_start..fonts_start + data.len()]);
    assert_eq!(vec![b'A', 0x21, b'B', 0x07], bytes[fonts_start + data.len()..].to_vec());

    buf.set_font(0, BitFont::create_8("".to_string(), 8, 8, &data));
    assert!(matches!(
        Artworx {}.to_bytes(&buf, &SaveOptions::new()),
        Err(SavingError::Only8x16FontsSupported)
    ));
}
