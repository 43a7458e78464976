use vstd::prelude::*;

use crate::attributed_char::{default_char, AttributedChar};
use crate::buffer::{
    sat, limited_pos, first_visible_line, all_cells, first_editable_line, g_first_editable, g_last_editable, g_limited_pos, geom, last_editable_line,
    same_except_cells, same_except_cells_and_height, upper_left, usize_to_i32_sat, Buffer, TermGeom,
};
use crate::caret::Caret;
use crate::geometry::{Position, Size};
use crate::layer::{cells_of, lemma_cells_of_push, same_layer_props, sat_i32, set_char_cells, Layer};
use crate::line::Line;

verus! {

pub type Cells = Seq<Seq<crate::attributed_char::AttributedChar>>;

/// The rows of a layer after the scroll region `start..=end` moved up by a
/// row: the row at `start` leaves and an empty row enters at `end`.
pub open spec fn scroll_down_cells(cells: Cells, start: int, end: int) -> Cells {
    if start < 0 || end < 0 {
        cells
    } else {
        let c1 = if cells.len() > start { cells.remove(start) } else { cells };
        if c1.len() >= end { c1.insert(end, Seq::empty()) } else { c1 }
    }
}

/// The rows of a layer after the scroll region `start..=end` moved down by a
/// row: the row at `end` leaves and an empty row enters at `start`; a layer
/// too short is first grown to reach `end`.
pub open spec fn scroll_up_cells(cells: Cells, start: int, end: int) -> Cells {
    if start < 0 || start > end {
        cells
    } else {
        let c1 = if cells.len() <= end { cells + Seq::new((end + 1 - cells.len()) as nat, |i: int| Seq::empty()) } else { cells };
        c1.remove(end).insert(start, Seq::empty())
    }
}

pub open spec fn scroll_all(cs: Seq<Cells>, start: int, end: int, down: bool) -> Seq<Cells> {
    cs.map_values(|c: Cells| if down { scroll_down_cells(c, start, end) } else { scroll_up_cells(c, start, end) })
}

pub open spec fn with_n0(g: TermGeom, cs: Seq<Cells>) -> TermGeom {
    TermGeom { n0: if cs.len() > 0 { cs[0].len() as int } else { 0 }, ..g }
}

/// Scrolls the region up while row `y` lies below the last editable row,
/// moving `y` up with it; gives the rows and the final `y`.
pub open spec fn down_loop(g: TermGeom, cs: Seq<Cells>, y: int) -> (Seq<Cells>, int)
    decreases y - i32::MIN,
{
    if y <= i32::MIN || cs.len() == 0 {
        (cs, y)
    } else {
        let g1 = with_n0(g, cs);
        let last = g_last_editable(g1);
        if y > last {
            down_loop(g, scroll_all(cs, g_first_editable(g1), last, true), y - 1)
        } else {
            (cs, y)
        }
    }
}

/// Scrolls the region down while row `y` lies above the first editable row,
/// moving `y` down with it; gives the rows and the final `y`.
pub open spec fn up_loop(g: TermGeom, cs: Seq<Cells>, y: int) -> (Seq<Cells>, int)
    decreases i32::MAX - y,
{
    if y >= i32::MAX || cs.len() == 0 {
        (cs, y)
    } else {
        let g1 = with_n0(g, cs);
        let first = g_first_editable(g1);
        if y < first {
            up_loop(g, scroll_all(cs, first, g_last_editable(g1), false), y + 1)
        } else {
            (cs, y)
        }
    }
}

/// The rows of the first layer grown with empty rows until row `y` exists.
pub open spec fn rows_reaching(c: Cells, y: int) -> Cells {
    if y < c.len() { c } else { c + Seq::new((y + 1 - c.len()) as nat, |i: int| Seq::empty()) }
}

/// The caret and rows after the caret moved down to row `y` (in the same
/// column `x`): a buffer that scrolls (or `force`) scrolls until the row is
/// editable, then the caret is held to the screen.
pub open spec fn moved_down(g: TermGeom, cs: Seq<Cells>, x: int, y: int, force: bool) -> (Seq<Cells>, Position) {
    let (cs2, y2) = if (g.is_terminal && g.margins.is_some()) || force { down_loop(g, cs, y) } else { (cs, y) };
    (cs2, g_limited_pos(with_n0(g, cs2), Position { x: x as i32, y: y2 as i32 }))
}

/// As `moved_down`, upwards.
pub open spec fn moved_up(g: TermGeom, cs: Seq<Cells>, x: int, y: int, force: bool) -> (Seq<Cells>, Position) {
    let (cs2, y2) = if (g.is_terminal && g.margins.is_some()) || force { up_loop(g, cs, y) } else { (cs, y) };
    (cs2, g_limited_pos(with_n0(g, cs2), Position { x: x as i32, y: y2 as i32 }))
}

/// The result of a line feed from row `y`: the caret goes to the start of
/// the next row, the first layer grows to reach it and a terminal buffer
/// grows its height with it; a caret that was below the last editable row is
/// held to the screen, else the region scrolls where the buffer scrolls.
pub open spec fn line_feed(g: TermGeom, cs: Seq<Cells>, y: int) -> (Seq<Cells>, Position, int) {
    let y1 = sat_i32(y + 1);
    let rows = rows_reaching(cs[0], y1);
    let cs1 = cs.update(0, rows);
    let height = if g.is_terminal && rows.len() > g.height { rows.len() as int } else { g.height };
    let g1 = TermGeom { height, n0: rows.len() as int, ..g };
    if y > g_last_editable(g) {
        (cs1, g_limited_pos(g1, Position { x: 0, y: y1 as i32 }), height)
    } else if g.is_terminal && g.margins.is_some() {
        let (cs2, y2) = down_loop(g1, cs1, y1);
        (cs2, Position { x: 0, y: y2 as i32 }, height)
    } else {
        (cs1, Position { x: 0, y: y1 as i32 }, height)
    }
}

/// What a character printed at the caret does: in insert mode the row makes
/// room first; the cell is written to the first layer and the caret moves
/// right; past the right edge it wraps with a line feed or, without auto
/// wrap, stays on the last column.
pub open spec fn printed_cells(b: Buffer, c: Caret, ch: AttributedChar) -> Cells {
    let l = b.layers@[0];
    let cells = crate::layer::layer_cells(l);
    let x = c.pos.x as int;
    let y = c.pos.y as int;
    let inserted = if c.insert_mode && 0 <= y < cells.len() && 0 <= x {
        cells.update(y, crate::line::cells_inserting_char(cells[y], x, default_char()))
    } else {
        cells
    };
    set_char_cells(l, inserted, c.pos, ch)
}

fn scroll_down_lines(lines: &mut Vec<Line>, start: usize, end: usize)
    ensures
        cells_of(final(lines)@) == scroll_down_cells(cells_of(old(lines)@), start as int, end as int),
{
    let ghost c0 = cells_of(lines@);
    if lines.len() > start {
        lines.remove(start);
    }
    let ghost c1 = if c0.len() > start { c0.remove(start as int) } else { c0 };
    assert(cells_of(lines@) =~= c1);
    if lines.len() >= end {
        lines.insert(end, Line::new());
    }
    assert(cells_of(lines@) =~= (if c1.len() >= end { c1.insert(end as int, Seq::empty()) } else { c1 }));
}

fn scroll_up_lines(lines: &mut Vec<Line>, start: usize, end: usize)
    requires
        start <= end < usize::MAX,
    ensures
        cells_of(final(lines)@) == scroll_up_cells(cells_of(old(lines)@), start as int, end as int),
{
    let ghost c0 = cells_of(lines@);
    while lines.len() <= end
        invariant
            start <= end < usize::MAX,
            c0.len() <= lines@.len(),
            c0.len() <= end ==> lines@.len() <= end + 1,
            c0.len() > end ==> lines@.len() == c0.len(),
            cells_of(lines@) == c0 + Seq::new((lines@.len() - c0.len()) as nat, |j: int| Seq::<AttributedChar>::empty()),
        decreases end + 1 - lines@.len(),
    {
        let l = Line::new();
        proof {
            lemma_cells_of_push(lines@, l);
        }
        lines.push(l);
        assert(cells_of(lines@) =~= c0 + Seq::new((lines@.len() - c0.len()) as nat, |j: int| Seq::<AttributedChar>::empty()));
    }
    let ghost c1 = if c0.len() <= end { c0 + Seq::new((end + 1 - c0.len()) as nat, |j: int| Seq::<AttributedChar>::empty()) } else { c0 };
    assert(cells_of(lines@) =~= c1);
    lines.remove(end);
    assert(cells_of(lines@) =~= c1.remove(end as int));
    lines.insert(start, Line::new());
    assert(cells_of(lines@) =~= c1.remove(end as int).insert(start as int, Seq::empty()));
}

impl Buffer {
    /// Moves the scroll region up by a row in every layer; see
    /// `scroll_down_cells`.
    pub fn scroll_down(&mut self)
        requires
            old(self).layers@.len() > 0,
        ensures
            same_except_cells(*old(self), *final(self)),
            all_cells(*final(self)) == scroll_all(
                all_cells(*old(self)),
                first_editable_line(*old(self)),
                last_editable_line(*old(self)),
                true,
            ),
    {
        let start = self.get_first_editable_line();
        let end = self.get_last_editable_line();
        if start < 0 || end < 0 {
            assert(all_cells(*self) =~= scroll_all(all_cells(*old(self)), start as int, end as int, true));
            return;
        }
        let mut i: usize = 0;
        while i < self.layers.len()
            invariant
                0 <= start,
                0 <= end,
                i <= self.layers@.len(),
                same_except_cells(*old(self), *self),
                forall|k: int| 0 <= k < i ==> #[trigger] all_cells(*self)[k] == scroll_down_cells(all_cells(*old(self))[k], start as int, end as int),
                forall|k: int| i <= k < self.layers@.len() ==> #[trigger] all_cells(*self)[k] == all_cells(*old(self))[k],
            decreases self.layers@.len() - i,
        {
            let ghost ls = self.layers@;
            let ghost before_cells = all_cells(*self);
            scroll_down_lines(&mut self.layers[i].lines, start as usize, end as usize);
            proof {
                assert forall|k: int| 0 <= k < self.layers@.len() && k != i implies self.layers@[k] == ls[k] by {}
                assert(same_layer_props(self.layers@[i as int], ls[i as int]));
                assert(all_cells(*self) =~= before_cells.update(i as int, scroll_down_cells(before_cells[i as int], start as int, end as int)));
            }
            i += 1;
        }
        assert(all_cells(*self) =~= scroll_all(all_cells(*old(self)), start as int, end as int, true));
    }

    /// Moves the scroll region down by a row in every layer; see
    /// `scroll_up_cells`.
    pub fn scroll_up(&mut self)
        requires
            old(self).layers@.len() > 0,
        ensures
            same_except_cells(*old(self), *final(self)),
            all_cells(*final(self)) == scroll_all(
                all_cells(*old(self)),
                first_editable_line(*old(self)),
                last_editable_line(*old(self)),
                false,
            ),
    {
        let start = self.get_first_editable_line();
        let end = self.get_last_editable_line();
        if start < 0 || start > end {
            assert(all_cells(*self) =~= scroll_all(all_cells(*old(self)), start as int, end as int, false));
            return;
        }
        let mut i: usize = 0;
        while i < self.layers.len()
            invariant
                0 <= start <= end,
                i <= self.layers@.len(),
                same_except_cells(*old(self), *self),
                forall|k: int| 0 <= k < i ==> #[trigger] all_cells(*self)[k] == scroll_up_cells(all_cells(*old(self))[k], start as int, end as int),
                forall|k: int| i <= k < self.layers@.len() ==> #[trigger] all_cells(*self)[k] == all_cells(*old(self))[k],
            decreases self.layers@.len() - i,
        {
            let ghost ls = self.layers@;
            let ghost before_cells = all_cells(*self);
            scroll_up_lines(&mut self.layers[i].lines, start as usize, end as usize);
            proof {
                assert forall|k: int| 0 <= k < self.layers@.len() && k != i implies self.layers@[k] == ls[k] by {}
                assert(same_layer_props(self.layers@[i as int], ls[i as int]));
                assert(all_cells(*self) =~= before_cells.update(i as int, scroll_up_cells(before_cells[i as int], start as int, end as int)));
            }
            i += 1;
        }
        assert(all_cells(*self) =~= scroll_all(all_cells(*old(self)), start as int, end as int, false));
    }
}

pub proof fn lemma_geom_n0(b: Buffer)
    requires
        b.layers@.len() > 0,
    ensures
        geom(b) == with_n0(geom(b), all_cells(b)),
        all_cells(b).len() == b.layers@.len(),
{
    assert(all_cells(b)[0] == crate::layer::layer_cells(b.layers@[0]));
}

pub proof fn lemma_same_geom(a: Buffer, b: Buffer)
    requires
        a.layers@.len() > 0,
        same_except_cells(a, b),
    ensures
        geom(b) == with_n0(geom(a), all_cells(b)),
{
    lemma_geom_n0(b);
}

impl Caret {
    /// Scrolls the region up while the caret is below the last editable
    /// row, where the buffer scrolls or `force` is set; see `down_loop`.
    pub fn check_scrolling_on_caret_down(&mut self, buf: &mut Buffer, force: bool)
        requires
            old(buf).layers@.len() > 0,
        ensures
            same_except_cells(*old(buf), *final(buf)),
            ({
                let go = (old(buf).is_terminal_buffer && old(buf).terminal_state.margins.is_some()) || force;
                let (cs, y) = if go {
                    down_loop(geom(*old(buf)), all_cells(*old(buf)), old(self).pos.y as int)
                } else {
                    (all_cells(*old(buf)), old(self).pos.y as int)
                };
                &&& all_cells(*final(buf)) == cs
                &&& *final(self) == (Caret { pos: Position { x: old(self).pos.x, y: y as i32 }, ..*old(self) })
            }),
    {
        if buf.needs_scrolling() || force {
            let ghost g = geom(*buf);
            let ghost c0 = all_cells(*buf);
            let ghost y0 = self.pos.y as int;
            proof {
                lemma_geom_n0(*buf);
            }
            while self.pos.y > buf.get_last_editable_line()
                invariant
                    same_except_cells(*old(buf), *buf),
                    buf.layers@.len() > 0,
                    g == geom(*old(buf)),
                    geom(*buf) == with_n0(g, all_cells(*buf)),
                    down_loop(g, all_cells(*buf), self.pos.y as int) == down_loop(g, c0, y0),
                    c0 == all_cells(*old(buf)),
                    y0 == old(self).pos.y,
                    *self == (Caret { pos: Position { x: old(self).pos.x, y: self.pos.y }, ..*old(self) }),
                decreases self.pos.y - i32::MIN,
            {
                let ghost cs = all_cells(*buf);
                buf.scroll_down();
                self.pos.y = self.pos.y - 1;
                proof {
                    lemma_same_geom(*old(buf), *buf);
                }
            }
        }
    }

    /// Scrolls the region down while the caret is above the first editable
    /// row, where the buffer scrolls or `force` is set; see `up_loop`.
    pub fn check_scrolling_on_caret_up(&mut self, buf: &mut Buffer, force: bool)
        requires
            old(buf).layers@.len() > 0,
        ensures
            same_except_cells(*old(buf), *final(buf)),
            ({
                let go = (old(buf).is_terminal_buffer && old(buf).terminal_state.margins.is_some()) || force;
                let (cs, y) = if go {
                    up_loop(geom(*old(buf)), all_cells(*old(buf)), old(self).pos.y as int)
                } else {
                    (all_cells(*old(buf)), old(self).pos.y as int)
                };
                &&& all_cells(*final(buf)) == cs
                &&& *final(self) == (Caret { pos: Position { x: old(self).pos.x, y: y as i32 }, ..*old(self) })
            }),
    {
        if buf.needs_scrolling() || force {
            let ghost g = geom(*buf);
            let ghost c0 = all_cells(*buf);
            let ghost y0 = self.pos.y as int;
            proof {
                lemma_geom_n0(*buf);
            }
            while self.pos.y < buf.get_first_editable_line()
                invariant
                    same_except_cells(*old(buf), *buf),
                    buf.layers@.len() > 0,
                    g == geom(*old(buf)),
                    geom(*buf) == with_n0(g, all_cells(*buf)),
                    up_loop(g, all_cells(*buf), self.pos.y as int) == up_loop(g, c0, y0),
                    c0 == all_cells(*old(buf)),
                    y0 == old(self).pos.y,
                    *self == (Caret { pos: Position { x: old(self).pos.x, y: self.pos.y }, ..*old(self) }),
                decreases i32::MAX - self.pos.y,
            {
                buf.scroll_up();
                self.pos.y = self.pos.y + 1;
                proof {
                    lemma_same_geom(*old(buf), *buf);
                }
            }
        }
    }
}

impl Caret {
    /// Line feed: to the start of the next row; see `line_feed`.
    pub fn lf(&mut self, buf: &mut Buffer)
        requires
            old(buf).layers@.len() > 0,
        ensures
            same_except_cells_and_height(*old(buf), *final(buf)),
            ({
                let (cs, p, h) = line_feed(geom(*old(buf)), all_cells(*old(buf)), old(self).pos.y as int);
                &&& all_cells(*final(buf)) == cs
                &&& final(buf).size.height == h
                &&& *final(self) == (Caret { pos: p, ..*old(self) })
            }),
    {
        let ghost g = geom(*buf);
        let ghost cs = all_cells(*buf);
        proof {
            lemma_geom_n0(*buf);
        }
        let was_ooe = self.pos.y > buf.get_last_editable_line();
        self.pos.x = 0;
        self.pos.y = sat(self.pos.y as i64 + 1);
        let ghost y1 = self.pos.y as int;
        let ghost rows0 = cs[0];
        while self.pos.y >= 0 && (self.pos.y as usize) >= buf.layers[0].lines.len()
            invariant
                buf.layers@.len() == old(buf).layers@.len(),
                buf.layers@.len() > 0,
                same_except_cells(*old(buf), *buf),
                rows0.len() <= buf.layers@[0].lines@.len(),
                rows0.len() <= y1 + 1 ==> buf.layers@[0].lines@.len() <= y1 + 1,
                rows0.len() > y1 + 1 ==> buf.layers@[0].lines@.len() == rows0.len(),
                all_cells(*buf) == cs.update(0, rows0 + Seq::new((buf.layers@[0].lines@.len() - rows0.len()) as nat, |j: int| Seq::<AttributedChar>::empty())),
                y1 == self.pos.y,
                cs == all_cells(*old(buf)),
                rows0 == cs[0],
            decreases y1 + 1 - buf.layers@[0].lines@.len(),
        {
            let ghost before_cells = all_cells(*buf);
            let ghost ls = buf.layers@;
            let l = Line::new();
            proof {
                lemma_cells_of_push(buf.layers@[0].lines@, l);
            }
            buf.layers[0].lines.push(l);
            proof {
                assert forall|k: int| 0 <= k < buf.layers@.len() && k != 0 implies buf.layers@[k] == ls[k] by {}
                assert(same_layer_props(buf.layers@[0], ls[0]));
                assert(before_cells[0] == crate::layer::layer_cells(ls[0]));
                assert(buf.layers@[0].lines@ == ls[0].lines@.push(l));
                assert(crate::layer::layer_cells(buf.layers@[0]) == crate::layer::layer_cells(ls[0]).push(Seq::<AttributedChar>::empty()));
                assert(crate::layer::layer_cells(buf.layers@[0]) =~= rows0 + Seq::new((buf.layers@[0].lines@.len() - rows0.len()) as nat, |j: int| Seq::<AttributedChar>::empty()));
                assert(all_cells(*buf) =~= before_cells.update(0, crate::layer::layer_cells(buf.layers@[0])));
                assert(all_cells(*buf) =~= cs.update(0, rows0 + Seq::new((buf.layers@[0].lines@.len() - rows0.len()) as nat, |j: int| Seq::<AttributedChar>::empty())));
            }
        }
        proof {
            let rows = rows_reaching(rows0, y1);
            assert(all_cells(*buf) =~= cs.update(0, rows));
        }
        let len = buf.layers[0].lines.len();
        if buf.is_terminal_buffer && len > buf.size.height {
            buf.size.height = len;
        }
        proof {
            lemma_geom_n0(*buf);
        }
        if was_ooe {
            buf.limit_caret_pos(self);
        } else {
            self.check_scrolling_on_caret_down(buf, false);
        }
    }

    /// Carriage return: to the start of the row.
    pub fn cr(&mut self, _buf: &mut Buffer)
        ensures
            *final(self) == (Caret { pos: Position { x: 0, y: old(self).pos.y }, ..*old(self) }),
            *final(_buf) == *old(_buf),
    {
        self.pos.x = 0;
    }

    /// To the last column of the buffer.
    pub fn eol(&mut self, buf: &mut Buffer)
        ensures
            *final(self) == (Caret { pos: Position { x: (sat_i32(old(buf).size.width as int) - 1) as i32, y: old(self).pos.y }, ..*old(self) }),
            *final(buf) == *old(buf),
    {
        self.pos.x = usize_to_i32_sat(buf.size.width) - 1;
    }

    /// To the position that cursor addressing starts from.
    pub fn home(&mut self, buf: &mut Buffer)
        ensures
            *final(self) == (Caret { pos: upper_left(*old(buf)), ..*old(self) }),
            *final(buf) == *old(buf),
    {
        self.pos = buf.upper_left_position();
    }

    /// Backspace: one column left (not past the first) and a space in the
    /// caret's attribute written there on the first layer.
    pub fn bs(&mut self, buf: &mut Buffer)
        requires
            old(buf).layers@.len() > 0,
        ensures
            ({
                let x = if old(self).pos.x - 1 > 0 { old(self).pos.x - 1 } else { 0 };
                let p = Position { x: x as i32, y: old(self).pos.y };
                &&& *final(self) == (Caret { pos: p, ..*old(self) })
                &&& same_except_cells(*old(buf), *final(buf))
                &&& all_cells(*final(buf)) == all_cells(*old(buf)).update(
                    0,
                    set_char_cells(
                        old(buf).layers@[0],
                        all_cells(*old(buf))[0],
                        p,
                        AttributedChar::spec_new(' ', old(self).attribute),
                    ),
                )
            }),
    {
        self.pos.x = if self.pos.x > 1 { self.pos.x - 1 } else { 0 };
        let ch = AttributedChar::new(' ', self.attribute);
        let ghost ls = buf.layers@;
        let ghost before_cells = all_cells(*buf);
        buf.layers[0].set_char(self.pos, ch);
        proof {
            assert forall|k: int| 0 <= k < buf.layers@.len() && k != 0 implies buf.layers@[k] == ls[k] by {}
            assert(all_cells(*buf) =~= before_cells.update(0, crate::layer::layer_cells(buf.layers@[0])));
        }
    }

    /// Deletes the cell under the caret on the first layer; the rest of the
    /// row moves left.
    pub fn del(&mut self, buf: &mut Buffer)
        requires
            old(buf).layers@.len() > 0,
        ensures
            *final(self) == *old(self),
            same_except_cells(*old(buf), *final(buf)),
            ({
                let cs = all_cells(*old(buf));
                let x = old(self).pos.x as int;
                let y = old(self).pos.y as int;
                if 0 <= y < cs[0].len() && 0 <= x < cs[0][y].len() {
                    all_cells(*final(buf)) == cs.update(0, cs[0].update(y, cs[0][y].remove(x)))
                } else {
                    all_cells(*final(buf)) == cs
                }
            }),
    {
        let ghost ls = buf.layers@;
        let ghost before_cells = all_cells(*buf);
        if self.pos.y >= 0 && (self.pos.y as usize) < buf.layers[0].lines.len() {
            let y = self.pos.y as usize;
            if self.pos.x >= 0 && (self.pos.x as usize) < buf.layers[0].lines[y].chars.len() {
                let x = self.pos.x as usize;
                assert(before_cells[0][y as int] == buf.layers@[0].lines@[y as int].chars@);
                buf.layers[0].lines[y].chars.remove(x);
                proof {
                    assert forall|k: int| 0 <= k < buf.layers@.len() && k != 0 implies buf.layers@[k] == ls[k] by {}
                    assert(same_layer_props(buf.layers@[0], ls[0]));
                    assert(crate::layer::layer_cells(buf.layers@[0]) =~= before_cells[0].update(y as int, before_cells[0][y as int].remove(x as int)));
                    assert(all_cells(*buf) =~= before_cells.update(0, before_cells[0].update(y as int, before_cells[0][y as int].remove(x as int))));
                }
                return;
            }
        }
    }

    /// `num` columns left, then held to the screen.
    pub fn left(&mut self, buf: &mut Buffer, num: i32)
        requires
            old(buf).layers@.len() > 0,
        ensures
            *final(buf) == *old(buf),
            *final(self) == (Caret {
                pos: limited_pos(*old(buf), Position { x: sat_i32(old(self).pos.x - num) as i32, y: old(self).pos.y }),
                ..*old(self)
            }),
    {
        self.pos.x = sat(self.pos.x as i64 - num as i64);
        buf.limit_caret_pos(self);
    }

    /// `num` columns right; past the right edge above the last editable row
    /// the caret wraps to the rows below, then it is held to the screen.
    pub fn right(&mut self, buf: &mut Buffer, num: i32)
        requires
            old(buf).layers@.len() > 0,
        ensures
            *final(buf) == *old(buf),
            ({
                let w = sat_i32(old(buf).size.width as int);
                let x1 = sat_i32(old(self).pos.x + num);
                let y0 = old(self).pos.y as int;
                let p = if x1 > w && y0 < last_editable_line(*old(buf)) && w > 0 {
                    Position { x: (x1 % w) as i32, y: sat_i32(y0 + x1 / w) as i32 }
                } else {
                    Position { x: x1 as i32, y: y0 as i32 }
                };
                *final(self) == (Caret { pos: limited_pos(*old(buf), p), ..*old(self) })
            }),
    {
        self.pos.x = sat(self.pos.x as i64 + num as i64);
        let w = usize_to_i32_sat(buf.size.width);
        if self.pos.x > w && self.pos.y < buf.get_last_editable_line() && w > 0 {
            self.pos.y = sat(self.pos.y as i64 + (self.pos.x / w) as i64);
            self.pos.x = self.pos.x % w;
        }
        buf.limit_caret_pos(self);
    }

    /// `num` rows up, scrolling where the buffer scrolls; see `moved_up`.
    pub fn up(&mut self, buf: &mut Buffer, num: i32)
        requires
            old(buf).layers@.len() > 0,
        ensures
            same_except_cells(*old(buf), *final(buf)),
            ({
                let (cs, p) = moved_up(geom(*old(buf)), all_cells(*old(buf)), old(self).pos.x as int, sat_i32(old(self).pos.y - num), false);
                &&& all_cells(*final(buf)) == cs
                &&& *final(self) == (Caret { pos: p, ..*old(self) })
            }),
    {
        self.pos.y = sat(self.pos.y as i64 - num as i64);
        self.check_scrolling_on_caret_up(buf, false);
        proof {
            lemma_same_geom(*old(buf), *buf);
        }
        buf.limit_caret_pos(self);
    }

    /// `num` rows down, scrolling where the buffer scrolls; see `moved_down`.
    pub fn down(&mut self, buf: &mut Buffer, num: i32)
        requires
            old(buf).layers@.len() > 0,
        ensures
            same_except_cells(*old(buf), *final(buf)),
            ({
                let (cs, p) = moved_down(geom(*old(buf)), all_cells(*old(buf)), old(self).pos.x as int, sat_i32(old(self).pos.y + num), false);
                &&& all_cells(*final(buf)) == cs
                &&& *final(self) == (Caret { pos: p, ..*old(self) })
            }),
    {
        self.pos.y = sat(self.pos.y as i64 + num as i64);
        self.check_scrolling_on_caret_down(buf, false);
        proof {
            lemma_same_geom(*old(buf), *buf);
        }
        buf.limit_caret_pos(self);
    }

    /// Moves the cursor down one line in the same column; at the bottom
    /// margin the page scrolls up.
    pub fn index(&mut self, buf: &mut Buffer)
        requires
            old(buf).layers@.len() > 0,
        ensures
            same_except_cells(*old(buf), *final(buf)),
            ({
                let (cs, p) = moved_down(geom(*old(buf)), all_cells(*old(buf)), old(self).pos.x as int, sat_i32(old(self).pos.y + 1), true);
                &&& all_cells(*final(buf)) == cs
                &&& *final(self) == (Caret { pos: p, ..*old(self) })
            }),
    {
        self.pos.y = sat(self.pos.y as i64 + 1);
        self.check_scrolling_on_caret_down(buf, true);
        proof {
            lemma_same_geom(*old(buf), *buf);
        }
        buf.limit_caret_pos(self);
    }

    /// Moves the cursor up one line in the same column; at the top margin
    /// the page scrolls down.
    pub fn reverse_index(&mut self, buf: &mut Buffer)
        requires
            old(buf).layers@.len() > 0,
        ensures
            same_except_cells(*old(buf), *final(buf)),
            ({
                let (cs, p) = moved_up(geom(*old(buf)), all_cells(*old(buf)), old(self).pos.x as int, sat_i32(old(self).pos.y - 1), true);
                &&& all_cells(*final(buf)) == cs
                &&& *final(self) == (Caret { pos: p, ..*old(self) })
            }),
    {
        self.pos.y = sat(self.pos.y as i64 - 1);
        self.check_scrolling_on_caret_up(buf, true);
        proof {
            lemma_same_geom(*old(buf), *buf);
        }
        buf.limit_caret_pos(self);
    }

    /// To the start of the next row; at the bottom margin the page scrolls
    /// up.
    pub fn next_line(&mut self, buf: &mut Buffer)
        requires
            old(buf).layers@.len() > 0,
        ensures
            same_except_cells(*old(buf), *final(buf)),
            ({
                let (cs, p) = moved_down(geom(*old(buf)), all_cells(*old(buf)), 0, sat_i32(old(self).pos.y + 1), true);
                &&& all_cells(*final(buf)) == cs
                &&& *final(self) == (Caret { pos: p, ..*old(self) })
            }),
    {
        self.pos.y = sat(self.pos.y as i64 + 1);
        self.pos.x = 0;
        self.check_scrolling_on_caret_down(buf, true);
        proof {
            lemma_same_geom(*old(buf), *buf);
        }
        buf.limit_caret_pos(self);
    }
}

/// The rows of the first layer after `set_char` wrote `c` at the columns
/// `x..x1` of row `y`, left to right.
pub open spec fn fill_row(l: Layer, cells: Cells, y: int, x: int, x1: int, c: AttributedChar) -> Cells
    decreases x1 - x,
{
    if x >= x1 {
        cells
    } else {
        fill_row(l, set_char_cells(l, cells, Position { x: x as i32, y: y as i32 }, c), y, x + 1, x1, c)
    }
}

/// The rows of the first layer after each row of `y..y1` was filled with
/// `c` over the columns `0..width`, top to bottom.
pub open spec fn fill_rows(l: Layer, cells: Cells, y: int, y1: int, width: int, c: AttributedChar) -> Cells
    decreases y1 - y,
{
    if y >= y1 {
        cells
    } else {
        fill_rows(l, fill_row(l, cells, y, 0, width, c), y + 1, y1, width, c)
    }
}

pub proof fn lemma_fill_row_props(a: Layer, b: Layer, cells: Cells, y: int, x: int, x1: int, c: AttributedChar)
    requires
        same_layer_props(a, b),
    ensures
        fill_row(a, cells, y, x, x1, c) == fill_row(b, cells, y, x, x1, c),
    decreases x1 - x,
{
    if x < x1 {
        let p = Position { x: x as i32, y: y as i32 };
        assert(set_char_cells(a, cells, p, c) == set_char_cells(b, cells, p, c));
        lemma_fill_row_props(a, b, set_char_cells(a, cells, p, c), y, x + 1, x1, c);
    }
}

impl Buffer {
    /// Writes `c` on the first layer at the columns `x0..x1` of row `y`.
    fn fill_layer_row(&mut self, y: i32, x0: i32, x1: i32, c: AttributedChar)
        requires
            old(self).layers@.len() > 0,
        ensures
            same_except_cells(*old(self), *final(self)),
            all_cells(*final(self)) == all_cells(*old(self)).update(
                0,
                fill_row(old(self).layers@[0], all_cells(*old(self))[0], y as int, x0 as int, x1 as int, c),
            ),
    {
        let mut x = x0;
        let ghost l0 = self.layers@[0];
        let ghost cs = all_cells(*self);
        while x < x1
            invariant
                x0 <= x || x0 >= x1,
                self.layers@.len() == old(self).layers@.len(),
                self.layers@.len() > 0,
                same_except_cells(*old(self), *self),
                same_layer_props(self.layers@[0], l0),
                l0 == old(self).layers@[0],
                cs == all_cells(*old(self)),
                fill_row(l0, all_cells(*self)[0], y as int, x as int, x1 as int, c) == fill_row(l0, cs[0], y as int, x0 as int, x1 as int, c),
                all_cells(*self) == cs.update(0, all_cells(*self)[0]),
            decreases x1 - x,
        {
            let ghost ls = self.layers@;
            let ghost before = all_cells(*self);
            self.layers[0].set_char(Position { x, y }, c);
            proof {
                assert forall|k: int| 0 <= k < self.layers@.len() && k != 0 implies self.layers@[k] == ls[k] by {}
                assert(before[0] == crate::layer::layer_cells(ls[0]));
                assert(all_cells(*self) =~= before.update(0, crate::layer::layer_cells(self.layers@[0])));
                assert(all_cells(*self) =~= cs.update(0, all_cells(*self)[0]));
            }
            x = x + 1;
        }
        assert(all_cells(*self) =~= cs.update(0, fill_row(l0, cs[0], y as int, x0 as int, x1 as int, c)));
    }

    /// Writes a space on rows `y..` up to the last editable row of the
    /// first layer, over the buffer's width.
    pub fn clear_buffer_down(&mut self, y: i32)
        requires
            old(self).layers@.len() > 0,
        ensures
            same_except_cells(*old(self), *final(self)),
            all_cells(*final(self)) == all_cells(*old(self)).update(
                0,
                fill_rows(old(self).layers@[0], all_cells(*old(self))[0], y as int, last_editable_line(*old(self)), sat_i32(old(self).size.width as int), default_char()),
            ),
    {
        let end = self.get_last_editable_line();
        let w = usize_to_i32_sat(self.size.width);
        self.fill_layer_rows(y, end, w);
    }

    /// Writes a space on the rows from the first editable row up to (not
    /// including) `y`, over the buffer's width.
    pub fn clear_buffer_up(&mut self, y: i32)
        requires
            old(self).layers@.len() > 0,
        ensures
            same_except_cells(*old(self), *final(self)),
            all_cells(*final(self)) == all_cells(*old(self)).update(
                0,
                fill_rows(old(self).layers@[0], all_cells(*old(self))[0], first_editable_line(*old(self)), y as int, sat_i32(old(self).size.width as int), default_char()),
            ),
    {
        let start = self.get_first_editable_line();
        let w = usize_to_i32_sat(self.size.width);
        self.fill_layer_rows(start, y, w);
    }

    fn fill_layer_rows(&mut self, y0: i32, y1: i32, w: i32)
        requires
            old(self).layers@.len() > 0,
        ensures
            same_except_cells(*old(self), *final(self)),
            all_cells(*final(self)) == all_cells(*old(self)).update(
                0,
                fill_rows(old(self).layers@[0], all_cells(*old(self))[0], y0 as int, y1 as int, w as int, default_char()),
            ),
    {
        let c = AttributedChar::default();
        let mut y = y0;
        let ghost l0 = self.layers@[0];
        let ghost cs = all_cells(*self);
        while y < y1
            invariant
                self.layers@.len() > 0,
                same_except_cells(*old(self), *self),
                same_layer_props(self.layers@[0], l0),
                l0 == old(self).layers@[0],
                cs == all_cells(*old(self)),
                c == default_char(),
                fill_rows(l0, all_cells(*self)[0], y as int, y1 as int, w as int, c) == fill_rows(l0, cs[0], y0 as int, y1 as int, w as int, c),
                all_cells(*self) == cs.update(0, all_cells(*self)[0]),
            decreases y1 - y,
        {
            let ghost before = all_cells(*self)[0];
            proof {
                lemma_fill_row_props(self.layers@[0], l0, before, y as int, 0, w as int, c);
            }
            self.fill_layer_row(y, 0, w, c);
            y = y + 1;
        }
    }

    /// Writes a space on the whole row `y`.
    pub fn clear_line(&mut self, y: i32)
        requires
            old(self).layers@.len() > 0,
        ensures
            same_except_cells(*old(self), *final(self)),
            all_cells(*final(self)) == all_cells(*old(self)).update(
                0,
                fill_row(old(self).layers@[0], all_cells(*old(self))[0], y as int, 0, sat_i32(old(self).size.width as int), default_char()),
            ),
    {
        let w = usize_to_i32_sat(self.size.width);
        self.fill_layer_row(y, 0, w, AttributedChar::default());
    }

    /// Writes a space from `pos` to the end of its row.
    pub fn clear_line_end(&mut self, pos: &Position)
        requires
            old(self).layers@.len() > 0,
        ensures
            same_except_cells(*old(self), *final(self)),
            all_cells(*final(self)) == all_cells(*old(self)).update(
                0,
                fill_row(old(self).layers@[0], all_cells(*old(self))[0], pos.y as int, pos.x as int, sat_i32(old(self).size.width as int), default_char()),
            ),
    {
        let w = usize_to_i32_sat(self.size.width);
        self.fill_layer_row(pos.y, pos.x, w, AttributedChar::default());
    }

    /// Writes a space from the start of the row of `pos` up to (not
    /// including) `pos`.
    pub fn clear_line_start(&mut self, pos: &Position)
        requires
            old(self).layers@.len() > 0,
        ensures
            same_except_cells(*old(self), *final(self)),
            all_cells(*final(self)) == all_cells(*old(self)).update(
                0,
                fill_row(old(self).layers@[0], all_cells(*old(self))[0], pos.y as int, 0, pos.x as int, default_char()),
            ),
    {
        self.fill_layer_row(pos.y, 0, pos.x, AttributedChar::default());
    }
}

impl Buffer {
    /// Writes `ch` at the caret on the first layer, making room first in
    /// insert mode; see `printed_cells`.
    fn put_char_at_caret(&mut self, caret: &Caret, ch: AttributedChar)
        requires
            old(self).layers@.len() > 0,
        ensures
            same_except_cells(*old(self), *final(self)),
            all_cells(*final(self)) == all_cells(*old(self)).update(0, printed_cells(*old(self), *caret, ch)),
    {
        let ghost cs0 = all_cells(*self);
        let ghost l0 = self.layers@[0];
        let ghost inserted = if caret.insert_mode && 0 <= caret.pos.y < cs0[0].len() && 0 <= caret.pos.x {
            cs0[0].update(caret.pos.y as int, crate::line::cells_inserting_char(cs0[0][caret.pos.y as int], caret.pos.x as int, default_char()))
        } else {
            cs0[0]
        };
        if caret.insert_mode && caret.pos.y >= 0 && (caret.pos.y as usize) < self.layers[0].lines.len() && caret.pos.x >= 0 {
            let ghost ls = self.layers@;
            self.layers[0].insert_cell(caret.pos.y as usize, caret.pos.x as usize, AttributedChar::default());
            proof {
                assert forall|k: int| 0 <= k < self.layers@.len() && k != 0 implies self.layers@[k] == ls[k] by {}
                assert(all_cells(*self) =~= cs0.update(0, inserted));
            }
        } else {
            assert(all_cells(*self) =~= cs0.update(0, inserted));
        }
        let ghost ls2 = self.layers@;
        let ghost mid = all_cells(*self);
        self.layers[0].set_char(caret.pos, ch);
        proof {
            assert forall|k: int| 0 <= k < self.layers@.len() && k != 0 implies self.layers@[k] == ls2[k] by {}
            assert(mid[0] == crate::layer::layer_cells(ls2[0]));
            assert(set_char_cells(ls2[0], inserted, caret.pos, ch) == set_char_cells(l0, inserted, caret.pos, ch));
            assert(all_cells(*self) =~= cs0.update(0, printed_cells(*old(self), *caret, ch)));
        }
    }

    /// Prints a cell at the caret; see `printed_cells` and `line_feed`.
    #[verifier::spinoff_prover]
    pub fn print_char(&mut self, caret: &mut Caret, ch: AttributedChar)
        requires
            old(self).layers@.len() > 0,
        ensures
            same_except_cells_and_height(*old(self), *final(self)),
            ({
                let cs1 = all_cells(*old(self)).update(0, printed_cells(*old(self), *old(caret), ch));
                let x1 = sat_i32(old(caret).pos.x + 1);
                let w = sat_i32(old(self).size.width as int);
                if x1 > w && old(self).terminal_state.auto_wrap_mode == crate::terminal_state::AutoWrapMode::AutoWrap {
                    let (cs, p, h) = line_feed(with_n0(geom(*old(self)), cs1), cs1, old(caret).pos.y as int);
                    &&& all_cells(*final(self)) == cs
                    &&& final(self).size.height == h
                    &&& *final(caret) == (Caret { pos: p, ..*old(caret) })
                } else {
                    &&& all_cells(*final(self)) == cs1
                    &&& final(self).size == old(self).size
                    &&& *final(caret) == (Caret { pos: Position { x: (if x1 > w { x1 - 1 } else { x1 }) as i32, y: old(caret).pos.y }, ..*old(caret) })
                }
            }),
    {
        self.put_char_at_caret(caret, ch);
        proof {
            crate::terminal_ops::lemma_same_geom(*old(self), *self);
        }
        caret.pos.x = sat(caret.pos.x as i64 + 1);
        let w = usize_to_i32_sat(self.size.width);
        if caret.pos.x > w {
            match self.terminal_state.auto_wrap_mode {
                crate::terminal_state::AutoWrapMode::AutoWrap => {
                    caret.lf(self);
                },
                crate::terminal_state::AutoWrapMode::NoWrap => {
                    caret.pos.x = caret.pos.x - 1;
                },
            }
        }
    }

    /// Empties every layer; a terminal buffer shrinks back to the height of
    /// its screen.
    pub fn clear(&mut self)
        ensures
            buffer_cleared(*old(self), *final(self)),
    {
        let mut i: usize = 0;
        while i < self.layers.len()
            invariant
                i <= self.layers@.len(),
                self.layers@.len() == old(self).layers@.len(),
                forall|k: int| 0 <= k < i ==> layer_emptied(old(self).layers@[k], #[trigger] self.layers@[k]),
                forall|k: int| i <= k < self.layers@.len() ==> #[trigger] self.layers@[k] == old(self).layers@[k],
                *self == (Buffer { layers: self.layers, ..*old(self) }),
            decreases self.layers@.len() - i,
        {
            let ghost ls = self.layers@;
            self.layers[i].clear();
            proof {
                assert forall|k: int| 0 <= k < self.layers@.len() && k != i implies self.layers@[k] == ls[k] by {}
            }
            i += 1;
        }
        if self.is_terminal_buffer {
            self.size.height = self.terminal_state.size.height;
        }
    }

    /// Empties the buffer and puts the caret at the origin.
    pub fn clear_screen(&mut self, caret: &mut Caret)
        ensures
            *final(caret) == (Caret { pos: Position { x: 0, y: 0 }, ..*old(caret) }),
            buffer_cleared(*old(self), *final(self)),
    {
        caret.pos = Position::new(0, 0);
        self.clear();
    }

    /// Removes row `line` of the first layer; with margins, an empty row
    /// enters at the bottom margin.
    pub fn remove_terminal_line(&mut self, line: i32)
        requires
            old(self).layers@.len() > 0,
        ensures
            same_except_cells(*old(self), *final(self)),
            ({
                let l = old(self).layers@[0];
                let cs = all_cells(*old(self));
                if line < 0 || line >= cs[0].len() || l.is_locked || !l.is_visible {
                    all_cells(*final(self)) == cs
                } else {
                    let c1 = cs[0].remove(line as int);
                    match old(self).terminal_state.margins {
                        Some((_, end)) => if end >= 0 {
                            all_cells(*final(self)) == cs.update(0, (if end <= c1.len() { c1 } else {
                                c1 + Seq::new((end - c1.len()) as nat, |i: int| crate::line::invisible_cells(l.size.width as nat))
                            }).insert(end as int, Seq::empty()))
                        } else {
                            all_cells(*final(self)) == cs.update(0, c1)
                        },
                        None => all_cells(*final(self)) == cs.update(0, c1),
                    }
                }
            }),
    {
        let ghost cs = all_cells(*self);
        proof {
            assert(cs[0] == crate::layer::layer_cells(self.layers@[0]));
        }
        if line < 0 || line as usize >= self.layers[0].lines.len() || self.layers[0].is_locked || !self.layers[0].is_visible {
            return;
        }
        let ghost ls = self.layers@;
        self.layers[0].remove_line(line);
        proof {
            assert forall|k: int| 0 <= k < self.layers@.len() && k != 0 implies self.layers@[k] == ls[k] by {}
            assert(all_cells(*self) =~= cs.update(0, cs[0].remove(line as int)));
        }
        if let Some((_, end)) = self.terminal_state.margins {
            if end >= 0 {
                let ghost ls2 = self.layers@;
                let ghost mid = all_cells(*self);
                self.layers[0].insert_line(end, Line::new());
                proof {
                    assert forall|k: int| 0 <= k < self.layers@.len() && k != 0 implies self.layers@[k] == ls2[k] by {}
                    assert(all_cells(*self) =~= mid.update(0, crate::layer::layer_cells(self.layers@[0])));
                }
            }
        }
    }

    /// With margins, removes the row at the bottom margin of the first layer.
    fn remove_bottom_margin_row(&mut self)
        requires
            old(self).layers@.len() > 0,
        ensures
            same_except_cells(*old(self), *final(self)),
            all_cells(*final(self)) == all_cells(*old(self)).update(0, match old(self).terminal_state.margins {
                Some((_, end)) => if 0 <= end < all_cells(*old(self))[0].len() { all_cells(*old(self))[0].remove(end as int) } else { all_cells(*old(self))[0] },
                None => all_cells(*old(self))[0],
            }),
    {
        let ghost cs = all_cells(*self);
        proof {
            assert(cs[0] == crate::layer::layer_cells(self.layers@[0]));
        }
        if let Some((_, end)) = self.terminal_state.margins {
            if end >= 0 && (end as usize) < self.layers[0].lines.len() {
                let ghost ls = self.layers@;
                self.layers[0].remove_row(end as usize);
                proof {
                    assert forall|k: int| 0 <= k < self.layers@.len() && k != 0 implies self.layers@[k] == ls[k] by {}
                    assert(all_cells(*self) =~= cs.update(0, cs[0].remove(end as int)));
                }
                return;
            }
        }
        assert(all_cells(*self) =~= cs.update(0, cs[0]));
    }

    /// Inserts an empty row at `line` of the first layer; with margins, the
    /// row at the bottom margin leaves first.
    pub fn insert_terminal_line(&mut self, line: i32)
        requires
            old(self).layers@.len() > 0,
        ensures
            same_except_cells(*old(self), *final(self)),
            ({
                let l = old(self).layers@[0];
                let cs = all_cells(*old(self));
                let c1 = match old(self).terminal_state.margins {
                    Some((_, end)) => if 0 <= end < cs[0].len() { cs[0].remove(end as int) } else { cs[0] },
                    None => cs[0],
                };
                if line < 0 || l.is_locked || !l.is_visible {
                    all_cells(*final(self)) == cs.update(0, c1)
                } else {
                    all_cells(*final(self)) == cs.update(0, (if line <= c1.len() { c1 } else {
                        c1 + Seq::new((line - c1.len()) as nat, |i: int| crate::line::invisible_cells(l.size.width as nat))
                    }).insert(line as int, Seq::empty()))
                }
            }),
    {
        self.remove_bottom_margin_row();
        if line < 0 || self.layers[0].is_locked || !self.layers[0].is_visible {
            return;
        }
        let ghost ls2 = self.layers@;
        let ghost mid = all_cells(*self);
        proof {
            assert(mid[0] == crate::layer::layer_cells(ls2[0]));
            assert(same_layer_props(ls2[0], old(self).layers@[0]));
        }
        self.layers[0].insert_line(line, Line::new());
        proof {
            assert forall|k: int| 0 <= k < self.layers@.len() && k != 0 implies self.layers@[k] == ls2[k] by {}
            assert(all_cells(*self) =~= mid.update(0, crate::layer::layer_cells(self.layers@[0])));
        }
    }
}

impl Caret {
    /// Form feed: resets the terminal, empties the buffer and brings the
    /// caret home, visible and with the default attribute.
    pub fn ff(&mut self, buf: &mut Buffer)
        ensures
            *final(self) == (Caret { pos: Position { x: 0, y: 0 }, is_visible: true, attribute: crate::text_attribute::default_attribute(), ..*old(self) }),
            buffer_cleared(
                Buffer { terminal_state: crate::terminal_state::initial_terminal_state(old(buf).terminal_state.size), ..*old(buf) },
                *final(buf),
            ),
    {
        buf.terminal_state.reset();
        buf.clear();
        self.pos = Position::new(0, 0);
        self.is_visible = true;
        self.attribute = crate::text_attribute::TextAttribute::new_default();
    }

    /// Inserts a space at the caret on the first layer; the rest of the row
    /// moves right.
    pub fn ins(&mut self, buf: &mut Buffer)
        requires
            old(buf).layers@.len() > 0,
        ensures
            *final(self) == *old(self),
            same_except_cells(*old(buf), *final(buf)),
            ({
                let cs = all_cells(*old(buf));
                let x = old(self).pos.x as int;
                let y = old(self).pos.y as int;
                if 0 <= y < cs[0].len() && 0 <= x {
                    all_cells(*final(buf)) == cs.update(0, cs[0].update(y, crate::line::cells_inserting_char(cs[0][y], x, default_char())))
                } else {
                    all_cells(*final(buf)) == cs
                }
            }),
    {
        let ghost cs = all_cells(*buf);
        if self.pos.y >= 0 && (self.pos.y as usize) < buf.layers[0].lines.len() && self.pos.x >= 0 {
            let ghost ls = buf.layers@;
            buf.layers[0].insert_cell(self.pos.y as usize, self.pos.x as usize, AttributedChar::default());
            proof {
                assert forall|k: int| 0 <= k < buf.layers@.len() && k != 0 implies buf.layers@[k] == ls[k] by {}
                assert(all_cells(*buf) =~= cs.update(0, cs[0].update(self.pos.y as int, crate::line::cells_inserting_char(cs[0][self.pos.y as int], self.pos.x as int, default_char()))));
            }
        }
    }

    /// Writes `num` spaces from the caret to the right on the first layer.
    pub fn erase_character(&mut self, buf: &mut Buffer, num: i32)
        requires
            old(buf).layers@.len() > 0,
        ensures
            *final(self) == *old(self),
            same_except_cells(*old(buf), *final(buf)),
            all_cells(*final(buf)) == all_cells(*old(buf)).update(
                0,
                fill_row(old(buf).layers@[0], all_cells(*old(buf))[0], old(self).pos.y as int, old(self).pos.x as int, sat_i32(old(self).pos.x + num), default_char()),
            ),
    {
        let end = sat(self.pos.x as i64 + num as i64);
        buf.fill_layer_row(self.pos.y, self.pos.x, end, AttributedChar::default());
    }
}

/// A layer emptied: no rows, links or pictures, its other properties kept.
pub open spec fn layer_emptied(a: Layer, b: Layer) -> bool {
    &&& b.lines@.len() == 0
    &&& b.hyperlinks@.len() == 0
    &&& b.sixels@.len() == 0
    &&& same_layer_props(b, Layer { hyperlinks: b.hyperlinks, sixels: b.sixels, ..a })
}

/// `b1` is `b0` with every layer emptied; a terminal buffer takes the
/// height of its screen.
pub open spec fn buffer_cleared(b0: Buffer, b1: Buffer) -> bool {
    &&& b1 == (Buffer {
        layers: b1.layers,
        size: Size {
            width: b0.size.width,
            height: if b0.is_terminal_buffer { b0.terminal_state.size.height } else { b0.size.height },
        },
        ..b0
    })
    &&& b1.layers@.len() == b0.layers@.len()
    &&& forall|i: int|
        #![trigger b0.layers@[i]]
        #![trigger b1.layers@[i]]
        0 <= i < b0.layers@.len() ==> layer_emptied(b0.layers@[i], b1.layers@[i])
}

} // verus!
