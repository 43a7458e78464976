use vstd::prelude::*;

use crate::geometry::Position;
use crate::palette::Color;

verus! {

/// How far a sixel picture has been read: not yet begun, finished, broken
/// off by an error, or read up to a sixel position.
#[derive(Clone, Copy, Debug, PartialEq, Eq, Structural)]
pub enum SixelReadStatus {
    Starting,
    Finished,
    Error,
    Position(i32, i32),
}

/// A sixel picture placed at a cell position: its columns of pixels, top to
/// bottom, each pixel a color or unset.
#[derive(Clone, Debug)]
pub struct Sixel {
    pub position: Position,
    pub aspect_ratio: i32,
    pub background_color: Option<Color>,
    pub picture: Vec<Vec<Option<Color>>>,
    pub len: usize,
    pub read_status: SixelReadStatus,
}

pub struct SixelView {
    pub position: Position,
    pub aspect_ratio: i32,
    pub background_color: Option<Color>,
    pub picture: Seq<Seq<Option<Color>>>,
    pub len: usize,
    pub read_status: SixelReadStatus,
}

pub open spec fn columns_view(p: Seq<Vec<Option<Color>>>) -> Seq<Seq<Option<Color>>> {
    p.map_values(|c: Vec<Option<Color>>| c@)
}

impl View for Sixel {
    type V = SixelView;

    open spec fn view(&self) -> SixelView {
        SixelView {
            position: self.position,
            aspect_ratio: self.aspect_ratio,
            background_color: self.background_color,
            picture: columns_view(self.picture@),
            len: self.len,
            read_status: self.read_status,
        }
    }
}

/// The pictures of a layer.
pub open spec fn sixels_view(s: Seq<Sixel>) -> Seq<SixelView> {
    s.map_values(|x: Sixel| x@)
}

/// A picture at `position` that holds nothing yet.
pub open spec fn new_sixel(position: Position, aspect_ratio: i32) -> SixelView {
    SixelView {
        position,
        aspect_ratio,
        background_color: None,
        picture: Seq::empty(),
        len: 0,
        read_status: SixelReadStatus::Starting,
    }
}

impl Sixel {
    pub fn new(position: Position, aspect_ratio: i32) -> (res: Self)
        ensures
            res@ == new_sixel(position, aspect_ratio),
    {
        let res = Sixel {
            position,
            aspect_ratio,
            background_color: None,
            picture: Vec::new(),
            len: 0,
            read_status: SixelReadStatus::Starting,
        };
        assert(columns_view(res.picture@) =~= Seq::<Seq<Option<Color>>>::empty());
        res
    }

    /// A copy of this picture.
    pub fn duplicate(&self) -> (res: Sixel)
        ensures
            res@ == self@,
    {
        let mut picture: Vec<Vec<Option<Color>>> = Vec::new();
        let mut i: usize = 0;
        while i < self.picture.len()
            invariant
                i <= self.picture@.len(),
                picture@.len() == i,
                forall|j: int| 0 <= j < i ==> (#[trigger] picture@[j])@ == self.picture@[j]@,
            decreases self.picture@.len() - i,
        {
            let col = copy_column(&self.picture[i]);
            picture.push(col);
            i += 1;
        }
        assert(columns_view(picture@) =~= columns_view(self.picture@));
        Sixel {
            position: self.position,
            aspect_ratio: self.aspect_ratio,
            background_color: self.background_color,
            picture,
            len: self.len,
            read_status: self.read_status,
        }
    }
}

fn copy_column(c: &Vec<Option<Color>>) -> (res: Vec<Option<Color>>)
    ensures
        res@ == c@,
{
    let mut res: Vec<Option<Color>> = Vec::new();
    let mut i: usize = 0;
    while i < c.len()
        invariant
            i <= c@.len(),
            res@ == c@.subrange(0, i as int),
        decreases c@.len() - i,
    {
        res.push(c[i]);
        i += 1;
        assert(res@ =~= c@.subrange(0, i as int));
    }
    assert(res@ =~= c@);
    res
}

/// `colors` with color `n` set to `c`, grown with black where shorter.
pub open spec fn palette_with(colors: Seq<Color>, n: int, c: Color) -> Seq<Color> {
    Seq::new(
        if n < colors.len() { colors.len() } else { (n + 1) as nat },
        |i: int| if i == n { c } else if i < colors.len() { colors[i] } else { Color::default_spec() },
    )
}

/// The column grown with unset pixels to at least `n` pixels.
pub open spec fn column_grown(col: Seq<Option<Color>>, n: int) -> Seq<Option<Color>> {
    if col.len() < n {
        col + Seq::new((n - col.len()) as nat, |k: int| None::<Color>)
    } else {
        col
    }
}

/// The picture grown with empty columns to at least `n` columns.
pub open spec fn picture_grown(pic: Seq<Seq<Option<Color>>>, n: int) -> Seq<Seq<Option<Color>>> {
    if pic.len() < n {
        pic + Seq::new((n - pic.len()) as nat, |k: int| Seq::<Option<Color>>::empty())
    } else {
        pic
    }
}

/// Whether bit `i` of the sixel `mask` is set.
pub open spec fn mask_bit(mask: u8, i: int) -> bool {
    mask & (1u8 << (i as u8)) != 0
}

/// The picture with the sixel `mask` drawn in `color` in column `offset`,
/// from pixel `lo` down: six pixels, the lowest bit the top one; the
/// picture counts one sixel more and has read up to `status`.
pub open spec fn pixel_drawn(
    sx: SixelView,
    offset: int,
    lo: int,
    color: Option<Color>,
    mask: u8,
    status: SixelReadStatus,
) -> SixelView {
    let pic1 = picture_grown(sx.picture, offset + 1);
    let col1 = column_grown(pic1[offset], lo + 6);
    let col2 = Seq::new(
        col1.len(),
        |k: int| if lo <= k < lo + 6 && mask_bit(mask, k - lo) { color } else { col1[k] },
    );
    SixelView { picture: pic1.update(offset, col2), len: (sx.len + 1) as usize, read_status: status, ..sx }
}

/// The picture grown to at least `w` columns and each column to at least
/// `h` pixels.
pub open spec fn picture_sized(sx: SixelView, w: int, h: int) -> SixelView {
    let pic1 = picture_grown(sx.picture, w);
    SixelView { picture: Seq::new(pic1.len(), |i: int| column_grown(pic1[i], h)), ..sx }
}

/// `columns_view` of a picture whose column `i` is replaced.
proof fn lemma_columns_update(p: Seq<Vec<Option<Color>>>, i: int, c: Vec<Option<Color>>)
    requires
        0 <= i < p.len(),
    ensures
        columns_view(p.update(i, c)) == columns_view(p).update(i, c@),
{
    assert(columns_view(p.update(i, c)) =~= columns_view(p).update(i, c@));
}

impl Sixel {
    pub(crate) fn set_status(&mut self, status: SixelReadStatus)
        ensures
            final(self)@ == (SixelView { read_status: status, ..old(self)@ }),
    {
        self.read_status = status;
    }

    fn grow_picture(&mut self, n: usize)
        ensures
            final(self)@ == (SixelView { picture: picture_grown(old(self)@.picture, n as int), ..old(self)@ }),
    {
        let ghost start = self@;
        while self.picture.len() < n
            invariant
                start.picture.len() < n ==> self@ == (SixelView {
                    picture: start.picture + Seq::new(
                        (self.picture@.len() - start.picture.len()) as nat,
                        |k: int| Seq::<Option<Color>>::empty(),
                    ),
                    ..start
                }) && start.picture.len() <= self.picture@.len() <= n,
                start.picture.len() >= n ==> self@ == start,
            decreases n - self.picture@.len(),
        {
            let ghost before = self.picture@;
            self.picture.push(Vec::new());
            proof {
                let e: Vec<Option<Color>> = self.picture@.last();
                assert(e@ =~= Seq::<Option<Color>>::empty());
                assert(columns_view(self.picture@) =~= columns_view(before).push(e@));
                assert(start.picture + Seq::new(
                    (self.picture@.len() - start.picture.len()) as nat,
                    |k: int| Seq::<Option<Color>>::empty(),
                ) =~= columns_view(before).push(e@));
            }
        }
        proof {
            if start.picture.len() < n {
                assert(self.picture@.len() == n);
            }
        }
    }

    /// The picture drawn as in `pixel_drawn`.
    pub(crate) fn draw_pixel(&mut self, offset: usize, lo: usize, color: Option<Color>, mask: u8, status: SixelReadStatus)
        requires
            old(self).len < usize::MAX,
            lo + 6 <= usize::MAX,
            offset < usize::MAX,
        ensures
            final(self)@ == pixel_drawn(old(self)@, offset as int, lo as int, color, mask, status),
    {
        let ghost sx = self@;
        self.grow_picture(offset + 1);
        let ghost pic1 = picture_grown(sx.picture, offset + 1);
        assert(columns_view(self.picture@).len() == self.picture@.len());
        assert(self.picture@.len() > offset);
        let mut col = copy_column(&self.picture[offset]);
        assert(col@ == pic1[offset as int]);
        let ghost col1 = column_grown(col@, lo + 6);
        let ghost c0 = col@;
        while col.len() < lo + 6
            invariant
                c0.len() < lo + 6 ==> col@ == c0 + Seq::new((col@.len() - c0.len()) as nat, |k: int| None::<Color>)
                    && c0.len() <= col@.len() <= lo + 6,
                c0.len() >= lo + 6 ==> col@ == c0,
                lo + 6 <= usize::MAX,
            decreases lo + 6 - col@.len(),
        {
            col.push(None);
            assert(col@ =~= c0 + Seq::new((col@.len() - c0.len()) as nat, |k: int| None::<Color>));
        }
        assert(col@ =~= col1);
        let mut i: u8 = 0;
        while i < 6
            invariant
                i <= 6,
                lo + 6 <= usize::MAX,
                col1.len() >= lo + 6,
                col@ == Seq::new(
                    col1.len(),
                    |k: int| if lo <= k < lo + i && mask_bit(mask, k - lo) { color } else { col1[k] },
                ),
            decreases 6 - i,
        {
            if mask & (1u8 << i) != 0 {
                col.set(lo + i as usize, color);
            }
            i += 1;
            assert(col@ =~= Seq::new(
                col1.len(),
                |k: int| if lo <= k < lo + i && mask_bit(mask, k - lo) { color } else { col1[k] },
            ));
        }
        let ghost pic = self.picture@;
        let ghost col2 = Seq::new(
            col1.len(),
            |k: int| if lo <= k < lo + 6 && mask_bit(mask, k - lo) { color } else { col1[k] },
        );
        proof {
            lemma_columns_update(pic, offset as int, col);
            assert(columns_view(pic) == pic1);
            assert(col@ =~= col2);
            assert(col1 == column_grown(pic1[offset as int], lo + 6));
        }
        let ghost colv = col@;
        self.picture.set(offset, col);
        assert(self.picture@ == pic.update(offset as int, col));
        assert(columns_view(self.picture@) == pic1.update(offset as int, col2));
        self.len = self.len + 1;
        self.read_status = status;
        assert(pixel_drawn(sx, offset as int, lo as int, color, mask, status).picture =~~= pic1.update(offset as int, col2));
        assert(self@.picture == columns_view(self.picture@));
    }

    /// The picture sized as in `picture_sized`.
    pub(crate) fn size_picture(&mut self, w: usize, h: usize)
        ensures
            final(self)@ == picture_sized(old(self)@, w as int, h as int),
    {
        let ghost sx = self@;
        self.grow_picture(w);
        let ghost pic1 = self@.picture;
        assert(columns_view(self.picture@).len() == self.picture@.len());
        let mut i: usize = 0;
        assert(self@.picture =~= Seq::new(pic1.len(), |j: int| if j < i { column_grown(pic1[j], h as int) } else { pic1[j] }));
        while i < self.picture.len()
            invariant
                pic1.len() == self.picture@.len(),
                i <= self.picture@.len(),
                self@ == (SixelView {
                    picture: Seq::new(pic1.len(), |j: int| if j < i { column_grown(pic1[j], h as int) } else { pic1[j] }),
                    ..sx
                }),
            decreases self.picture@.len() - i,
        {
            if self.picture[i].len() < h {
                let mut col = copy_column(&self.picture[i]);
                let ghost c0 = col@;
                assert(self@.picture[i as int] == pic1[i as int]);
                assert(self@.picture[i as int] == self.picture@[i as int]@);
                assert(c0 == pic1[i as int]);
                while col.len() < h
                    invariant
                        c0.len() < h,
                        c0.len() < h ==> col@ == c0 + Seq::new((col@.len() - c0.len()) as nat, |k: int| None::<Color>)
                            && c0.len() <= col@.len() <= h,
                    decreases h - col@.len(),
                {
                    col.push(None);
                    assert(col@ =~= c0 + Seq::new((col@.len() - c0.len()) as nat, |k: int| None::<Color>));
                }
                assert(col@ =~= column_grown(pic1[i as int], h as int));
                let ghost pic = self.picture@;
                proof {
                    lemma_columns_update(pic, i as int, col);
                }
                self.picture.set(i, col);
            }
            i += 1;
            assert(self@.picture =~= Seq::new(pic1.len(), |j: int| if j < i { column_grown(pic1[j], h as int) } else { pic1[j] }));
        }
        assert(self@.picture =~= picture_sized(sx, w as int, h as int).picture);
    }
}

} // verus!
