use vstd::prelude::*;

use crate::text_attribute::{default_attribute, TextAttribute};

verus! {

/// A character cell: a character with its attribute and the font page that
/// draws it.
#[derive(Clone, Copy, Debug)]
pub struct AttributedChar {
    pub ch: char,
    pub attribute: TextAttribute,
    pub font_page: usize,
}

impl AttributedChar {
    /// A character with an attribute on the first font page.
    pub open spec fn spec_new(ch: char, attribute: TextAttribute) -> AttributedChar {
        AttributedChar { ch, attribute, font_page: 0 }
    }
}

/// A space on black with the default attribute.
pub open spec fn default_char() -> AttributedChar {
    AttributedChar::spec_new(' ', default_attribute())
}

/// The cell that shows nothing: a space whose attribute is marked invisible.
pub open spec fn invisible_char() -> AttributedChar {
    AttributedChar::spec_new(' ', TextAttribute { invisible: true, ..default_attribute() })
}

/// A cell is transparent where it holds no glyph on a black background.
pub open spec fn is_transparent_char(c: AttributedChar) -> bool {
    (c.ch == '\0' || c.ch == ' ') && c.attribute.background_color == 0
}

/// Two cells are equal where their characters and attributes are; the font
/// page is not compared.
pub open spec fn same_char(a: AttributedChar, b: AttributedChar) -> bool {
    a.ch == b.ch && a.attribute == b.attribute
}

impl Default for AttributedChar {
    fn default() -> (res: Self)
        ensures
            res == default_char(),
    {
        AttributedChar { ch: ' ', attribute: TextAttribute::new_default(), font_page: 0 }
    }
}

impl AttributedChar {
    pub fn new(ch: char, attribute: TextAttribute) -> (res: Self)
        ensures
            res == AttributedChar::spec_new(ch, attribute),
    {
        AttributedChar { ch, attribute, font_page: 0 }
    }

    pub fn invisible() -> (res: Self)
        ensures
            res == invisible_char(),
    {
        let mut attribute = TextAttribute::new_default();
        attribute.invisible = true;
        AttributedChar { ch: ' ', attribute, font_page: 0 }
    }

    pub fn is_visible(&self) -> (res: bool)
        ensures
            res == !self.attribute.invisible,
    {
        !self.attribute.invisible
    }

    pub fn is_transparent(self) -> (res: bool)
        ensures
            res == is_transparent_char(self),
    {
        (self.ch == '\0' || self.ch == ' ') && self.attribute.get_background() == 0
    }

    pub fn get_font_page(&self) -> (res: usize)
        ensures
            res == self.font_page,
    {
        self.font_page
    }

    pub fn set_font_page(&mut self, page: usize)
        ensures
            final(self).font_page == page,
            final(self).ch == old(self).ch,
            final(self).attribute == old(self).attribute,
    {
        self.font_page = page;
    }

    /// This character moved to another font page.
    pub fn with_font_page(self, page: usize) -> (res: Self)
        ensures
            res.font_page == page,
            res.ch == self.ch,
            res.attribute == self.attribute,
    {
        AttributedChar { font_page: page, ..self }
    }
}

impl PartialEq for AttributedChar {
    fn eq(&self, other: &AttributedChar) -> (res: bool) {
        self.ch == other.ch && self.attribute == other.attribute
    }
}

impl vstd::std_specs::cmp::PartialEqSpecImpl for AttributedChar {
    open spec fn obeys_eq_spec() -> bool {
        true
    }

    open spec fn eq_spec(&self, other: &AttributedChar) -> bool {
        same_char(*self, *other)
    }
}

} // verus!
