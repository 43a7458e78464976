use vstd::prelude::*;

use crate::area_operations::at;
use crate::attributed_char::AttributedChar;
use crate::buffer::{buffer_char, Buffer};
use crate::geometry::Position;
use crate::layer::{char_at, layer_cells, Layer};

verus! {

/// What a buffer uses, as far as the file formats care.
#[derive(Clone, Copy, Debug, Default)]
pub struct BufferFeatures {
    pub use_sixels: bool,
    pub has_links: bool,
    pub font_count: usize,
    pub use_extended_colors: bool,
    pub use_colors: bool,
    pub use_blink: bool,
    pub use_extended_attributes: bool,
}

/// A property that a cell may show.
#[derive(Clone, Copy)]
pub enum CellFeature {
    /// Other colors than light gray on black.
    Colors,
    /// Blinking.
    Blink,
    /// Underlining, double underlining, overlining, crossing out,
    /// concealing or double height.
    ExtendedAttributes,
}

pub open spec fn has_feature(f: CellFeature, c: AttributedChar) -> bool {
    match f {
        CellFeature::Colors => c.attribute.foreground_color != 7 || c.attribute.background_color != 0,
        CellFeature::Blink => c.attribute.blink,
        CellFeature::ExtendedAttributes => c.attribute.crossed_out || c.attribute.underline || c.attribute.concealed
            || c.attribute.double_height || c.attribute.double_underline || c.attribute.overline,
    }
}

/// Whether a cell within layer `l`'s size shows `f`: of the rows before
/// `y`, or of row `y` the cells before `x`.
pub open spec fn shows_before(l: Layer, f: CellFeature, y: int, x: int) -> bool {
    exists|yy: int, xx: int|
        0 <= xx < l.size.width && 0 <= yy < l.size.height && (yy < y || (yy == y && xx < x)) && #[trigger] has_feature(
            f,
            char_at(l, layer_cells(l), at(xx, yy)),
        )
}

/// Whether a cell within layer `l`'s size shows `f`.
pub open spec fn layer_shows(l: Layer, f: CellFeature) -> bool {
    shows_before(l, f, l.size.height as int, 0)
}

/// Whether a cell within the size of one of the layers `ls` shows `f`.
pub open spec fn layers_show(ls: Seq<Layer>, f: CellFeature) -> bool {
    exists|i: int| 0 <= i < ls.len() && #[trigger] layer_shows(ls[i], f)
}

/// The font pages of the cells the buffer shows within its size.
pub open spec fn font_pages_used(b: Buffer) -> Set<usize> {
    Set::new(
        |p: usize|
            exists|x: int, y: int|
                0 <= x < b.size.width && 0 <= y < b.size.height && #[trigger] buffer_char(b, at(x, y)).font_page == p,
    )
}

/// The values of `s` rise strictly.
pub open spec fn strictly_rising(s: Seq<usize>) -> bool {
    forall|i: int, j: int| 0 <= i < j < s.len() ==> s[i] < s[j]
}

/// Adds `p` to the strictly rising `v` where it is missing, keeping it
/// strictly rising.
fn insert_sorted(v: &mut Vec<usize>, p: usize)
    requires
        strictly_rising(old(v)@),
    ensures
        strictly_rising(final(v)@),
        forall|q: usize| final(v)@.contains(q) <==> (old(v)@.contains(q) || q == p),
{
    let mut i: usize = 0;
    while i < v.len() && v[i] < p
        invariant
            i <= v@.len(),
            forall|k: int| 0 <= k < i ==> v@[k] < p,
            v@ == old(v)@,
            strictly_rising(v@),
        decreases v@.len() - i,
    {
        i += 1;
    }
    if i < v.len() && v[i] == p {
        assert(v@[i as int] == p);
        assert(v@.contains(p));
        return;
    }
    let ghost before = v@;
    assert(before == old(v)@);
    v.insert(i, p);
    assert forall|q: usize| v@.contains(q) <==> (before.contains(q) || q == p) by {
        if v@.contains(q) {
            let k = choose|k: int| 0 <= k < v@.len() && v@[k] == q;
            if k < i {
                assert(before[k] == q);
            } else if k > i {
                assert(before[k - 1] == q);
            }
        }
        if before.contains(q) {
            let k = choose|k: int| 0 <= k < before.len() && before[k] == q;
            if k < i {
                assert(v@[k] == q);
            } else {
                assert(v@[k + 1] == q);
            }
        }
        if q == p {
            assert(v@[i as int] == p);
        }
    }
    assert forall|q: usize| v@.contains(q) <==> (old(v)@.contains(q) || q == p) by {
        assert(v@.contains(q) <==> (before.contains(q) || q == p));
    }
}

/// The font pages that the buffer's cells use, each once, rising.
pub fn analyze_font_usage(buf: &Buffer) -> (res: Vec<usize>)
    requires
        buf.size.width <= i32::MAX,
        buf.size.height <= i32::MAX,
    ensures
        strictly_rising(res@),
        forall|p: usize| res@.contains(p) <==> font_pages_used(*buf).contains(p),
{
    let mut v: Vec<usize> = Vec::new();
    let w = buf.size.width as i32;
    let h = buf.size.height as i32;
    let mut y: i32 = 0;
    while y < h
        invariant
            0 <= y <= h,
            w == buf.size.width,
            h == buf.size.height,
            strictly_rising(v@),
            forall|p: usize|
                v@.contains(p) <==> exists|xx: int, yy: int|
                    0 <= xx < w && 0 <= yy < y && #[trigger] buffer_char(*buf, at(xx, yy)).font_page == p,
        decreases h - y,
    {
        let mut x: i32 = 0;
        while x < w
            invariant
                0 <= x <= w,
                0 <= y < h,
                w == buf.size.width,
                h == buf.size.height,
                strictly_rising(v@),
                forall|p: usize|
                    v@.contains(p) <==> exists|xx: int, yy: int|
                        0 <= xx < w && 0 <= yy <= y && (yy < y || xx < x) && #[trigger] buffer_char(*buf, at(xx, yy)).font_page
                            == p,
            decreases w - x,
        {
            let ch = buf.get_char(Position::new(x, y));
            let ghost before = v@;
            insert_sorted(&mut v, ch.font_page);
            assert(buffer_char(*buf, at(x as int, y as int)) == ch);
            assert forall|p: usize|
                v@.contains(p) <==> exists|xx: int, yy: int|
                    0 <= xx < w && 0 <= yy <= y && (yy < y || xx < x + 1) && #[trigger] buffer_char(*buf, at(xx, yy)).font_page
                        == p by {
                if p == ch.font_page {
                    assert(buffer_char(*buf, at(x as int, y as int)).font_page == p);
                }
                if exists|xx: int, yy: int|
                    0 <= xx < w && 0 <= yy <= y && (yy < y || xx < x + 1) && #[trigger] buffer_char(*buf, at(xx, yy)).font_page == p {
                    let (xx, yy) = choose|xx: int, yy: int|
                        0 <= xx < w && 0 <= yy <= y && (yy < y || xx < x + 1) && #[trigger] buffer_char(*buf, at(xx, yy)).font_page
                            == p;
                    if !(yy < y || xx < x) {
                        assert(xx == x && yy == y);
                    }
                }
            }
            x += 1;
        }
        assert forall|p: usize|
            v@.contains(p) <==> exists|xx: int, yy: int|
                0 <= xx < w && 0 <= yy < y + 1 && #[trigger] buffer_char(*buf, at(xx, yy)).font_page == p by {
            if exists|xx: int, yy: int| 0 <= xx < w && 0 <= yy < y + 1 && #[trigger] buffer_char(*buf, at(xx, yy)).font_page == p {
                let (xx, yy) = choose|xx: int, yy: int|
                    0 <= xx < w && 0 <= yy < y + 1 && #[trigger] buffer_char(*buf, at(xx, yy)).font_page == p;
                assert(0 <= xx < w && 0 <= yy <= y && (yy < y || xx < x));
            }
        }
        y += 1;
    }
    v
}

impl Layer {
    /// Whether a cell within the layer's size shows `f`.
    fn scan_feature(&self, f: CellFeature) -> (res: bool)
        requires
            self.size.width <= i32::MAX,
            self.size.height <= i32::MAX,
        ensures
            res == layer_shows(*self, f),
    {
        let w = self.size.width as i32;
        let h = self.size.height as i32;
        let mut y: i32 = 0;
        while y < h
            invariant
                0 <= y <= h,
                w == self.size.width,
                h == self.size.height,
                !shows_before(*self, f, y as int, 0),
            decreases h - y,
        {
            let mut x: i32 = 0;
            while x < w
                invariant
                    0 <= x <= w,
                    0 <= y < h,
                    w == self.size.width,
                    h == self.size.height,
                    !shows_before(*self, f, y as int, x as int),
                decreases w - x,
            {
                let ch = self.get_char(Position::new(x, y));
                let a = ch.attribute;
                let found = match f {
                    CellFeature::Colors => a.foreground_color != 7 || a.background_color != 0,
                    CellFeature::Blink => a.blink,
                    CellFeature::ExtendedAttributes => a.crossed_out || a.underline || a.concealed || a.double_height
                        || a.double_underline || a.overline,
                };
                assert(found == has_feature(f, char_at(*self, layer_cells(*self), at(x as int, y as int))));
                if found {
                    assert(shows_before(*self, f, y as int, x + 1));
                    assert(shows_before(*self, f, h as int, 0));
                    return true;
                }
                assert(!shows_before(*self, f, y as int, x + 1)) by {
                    if shows_before(*self, f, y as int, x + 1) {
                        let (yy, xx) = choose|yy: int, xx: int|
                            0 <= xx < w && 0 <= yy < h && (yy < y || (yy == y && xx < x + 1)) && #[trigger] has_feature(
                                f,
                                char_at(*self, layer_cells(*self), at(xx, yy)),
                            );
                        assert(yy < y || (yy == y && xx < x));
                    }
                }
                x += 1;
            }
            assert(!shows_before(*self, f, y + 1, 0)) by {
                if shows_before(*self, f, y + 1, 0) {
                    let (yy, xx) = choose|yy: int, xx: int|
                        0 <= xx < w && 0 <= yy < h && (yy < y + 1 || (yy == y + 1 && xx < 0)) && #[trigger] has_feature(
                            f,
                            char_at(*self, layer_cells(*self), at(xx, yy)),
                        );
                    assert(yy < y || (yy == y && xx < x));
                }
            }
            y += 1;
        }
        false
    }
}

/// Every layer of the buffer and the buffer itself have sizes in the
/// coordinate range.
pub open spec fn sizes_in_range(b: Buffer) -> bool {
    &&& b.size.width <= i32::MAX
    &&& b.size.height <= i32::MAX
    &&& forall|i: int| 0 <= i < b.layers@.len() ==> (#[trigger] b.layers@[i]).size.width <= i32::MAX
        && b.layers@[i].size.height <= i32::MAX
}

impl Buffer {
    /// Whether a cell within the size of one of the layers shows `f`.
    fn scan_layers(&self, f: CellFeature) -> (res: bool)
        requires
            sizes_in_range(*self),
        ensures
            res == layers_show(self.layers@, f),
    {
        let mut i: usize = 0;
        while i < self.layers.len()
            invariant
                i <= self.layers@.len(),
                sizes_in_range(*self),
                forall|k: int| 0 <= k < i ==> !#[trigger] layer_shows(self.layers@[k], f),
            decreases self.layers@.len() - i,
        {
            if self.layers[i].scan_feature(f) {
                return true;
            }
            i += 1;
        }
        false
    }

    /// What the buffer uses: links on any layer, colors, blinking and
    /// extended attributes on any layer's cells within its size, how many
    /// font pages the shown cells use, and whether the palette holds more
    /// than 16 colors, and whether any layer holds a sixel picture.
    pub fn scan_buffer_features(&self) -> (res: BufferFeatures)
        requires
            sizes_in_range(*self),
        ensures
            res.use_sixels == exists|i: int| 0 <= i < self.layers@.len() && (#[trigger] self.layers@[i]).sixels@.len() > 0,
            res.has_links == exists|i: int| 0 <= i < self.layers@.len() && (#[trigger] self.layers@[i]).hyperlinks@.len() > 0,
            res.use_colors == layers_show(self.layers@, CellFeature::Colors),
            res.use_blink == layers_show(self.layers@, CellFeature::Blink),
            res.use_extended_attributes == layers_show(self.layers@, CellFeature::ExtendedAttributes),
            res.font_count == font_pages_used(*self).len(),
            res.use_extended_colors == (self.palette.colors@.len() > 16),
    {
        let mut has_links = false;
        let mut use_sixels = false;
        let mut i: usize = 0;
        while i < self.layers.len()
            invariant
                i <= self.layers@.len(),
                has_links == exists|k: int| 0 <= k < i && (#[trigger] self.layers@[k]).hyperlinks@.len() > 0,
                use_sixels == exists|k: int| 0 <= k < i && (#[trigger] self.layers@[k]).sixels@.len() > 0,
            decreases self.layers@.len() - i,
        {
            if self.layers[i].sixels.len() > 0 {
                use_sixels = true;
            }
            if self.layers[i].hyperlinks.len() > 0 {
                has_links = true;
            }
            i += 1;
        }
        let fonts = analyze_font_usage(self);
        proof {
            lemma_rising_set_len(fonts@, font_pages_used(*self));
        }
        BufferFeatures {
            use_sixels,
            has_links,
            font_count: fonts.len(),
            use_extended_colors: self.palette.colors.len() > 16,
            use_colors: self.scan_layers(CellFeature::Colors),
            use_blink: self.scan_layers(CellFeature::Blink),
            use_extended_attributes: self.scan_layers(CellFeature::ExtendedAttributes),
        }
    }
}

/// A strictly rising sequence holds as many values as the set of them.
pub proof fn lemma_rising_set_len(s: Seq<usize>, set: Set<usize>)
    requires
        strictly_rising(s),
        forall|p: usize| s.contains(p) <==> set.contains(p),
    ensures
        set.len() == s.len(),
        set.finite(),
{
    assert(s.no_duplicates()) by {
        assert forall|i: int, j: int| 0 <= i < s.len() && 0 <= j < s.len() && i != j implies s[i] != s[j] by {
            if i < j {
                assert(s[i] < s[j]);
            } else {
                assert(s[j] < s[i]);
            }
        }
    }
    s.unique_seq_to_set();
    assert(s.to_set() =~= set);
}

} // verus!
