use vstd::prelude::*;

use crate::ascii_format::{lemma_line_count_unique, line_count};
use crate::attributed_char::{default_char, same_char, AttributedChar};
use crate::buffer::{buffer_char, Buffer};
use crate::geometry::Position;
use crate::text_attribute::{dos_byte, TextAttribute};

verus! {

/// How the cells of one run of an XBin image are stored: each cell as a
/// character and an attribute byte, one character shared by the run, one
/// attribute shared by the run, or one cell repeated.
#[derive(Clone, Copy, Debug, PartialEq, Eq, Structural)]
pub enum Compression {
    Off,
    Char,
    Attr,
    Full,
}

/// The two high bits of a run's header byte.
pub open spec fn mode_bits(m: Compression) -> u8 {
    match m {
        Compression::Off => 0x00,
        Compression::Char => 0x40,
        Compression::Attr => 0x80,
        Compression::Full => 0xC0,
    }
}

impl Compression {
    pub fn bits(self) -> (res: u8)
        ensures
            res == mode_bits(self),
    {
        match self {
            Compression::Off => 0x00,
            Compression::Char => 0x40,
            Compression::Attr => 0x80,
            Compression::Full => 0xC0,
        }
    }
}

/// The position of the `i`-th cell when the cells are counted row by row.
pub open spec fn xbin_cell_pos(i: int, width: int) -> Position {
    Position { x: (i % width) as i32, y: (i / width) as i32 }
}

/// The cells of a buffer row by row, over all of its rows.
pub open spec fn xbin_cells(b: Buffer) -> Seq<AttributedChar> {
    Seq::new(
        (line_count(b) * b.size.width) as nat,
        |i: int| buffer_char(b, xbin_cell_pos(i, b.size.width as int)),
    )
}

/// The number of cells of the buffer fits in an `i32`.
pub open spec fn xbin_fits(b: Buffer) -> bool {
    line_count(b) * b.size.width <= i32::MAX
}

/// The attribute byte of an XBin cell: the DOS attribute byte, with bit 3
/// marking a character of the second font where the image has two fonts.
pub open spec fn encoded_attr(char_code: u16, attr: TextAttribute, extended_font: bool) -> u8 {
    if extended_font && char_code > 255 {
        (dos_byte(attr) as u8) | 8u8
    } else {
        dos_byte(attr) as u8
    }
}

/// The character byte of a cell.
pub open spec fn char_byte(c: AttributedChar) -> u8 {
    (c.ch as u32) as u8
}

/// The attribute byte of a cell.
pub open spec fn attr_byte(c: AttributedChar, extended_font: bool) -> u8 {
    encoded_attr((c.ch as u32) as u16, c.attribute, extended_font)
}

pub fn encode_attr(char_code: u16, attr: TextAttribute, extended_font: bool) -> (res: u8)
    ensures
        res == encoded_attr(char_code, attr, extended_font),
{
    let a = attr.as_u8(crate::buffer_type::BufferType::CP437);
    if extended_font && char_code > 255 {
        a | 8u8
    } else {
        a
    }
}

/// Whether a run that holds `count` cells ends before cell `x`, the cells
/// looked at ending at `len`: it is full at 64 cells; a run of distinct
/// cells ends where a repeated cell, character or attribute begins; a run
/// sharing a character or an attribute ends where that changes or where
/// four equal cells begin; a repeated cell ends where another cell comes.
pub open spec fn end_rule(
    c: Seq<AttributedChar>,
    len: int,
    x: int,
    mode: Compression,
    run_ch: AttributedChar,
    count: int,
) -> bool {
    let cur = c[x];
    if count >= 64 {
        true
    } else {
        match mode {
            Compression::Off => x + 2 < len && (same_char(cur, c[x + 1]) || (cur.ch == c[x + 1].ch
                && cur.ch == c[x + 2].ch) || (cur.attribute == c[x + 1].attribute
                && cur.attribute == c[x + 2].attribute)),
            Compression::Char => cur.ch != run_ch.ch || (x + 3 < len && same_char(cur, c[x + 1])
                && same_char(cur, c[x + 2]) && same_char(cur, c[x + 3])),
            Compression::Attr => cur.attribute != run_ch.attribute || (x + 3 < len && same_char(
                cur,
                c[x + 1],
            ) && same_char(cur, c[x + 2]) && same_char(cur, c[x + 3])),
            Compression::Full => !same_char(cur, run_ch),
        }
    }
}

/// How a run that begins at cell `x` is stored: by what the cell shares
/// with the next one before `len`.
pub open spec fn pick_mode(c: Seq<AttributedChar>, len: int, x: int) -> Compression {
    if x + 1 < len {
        if same_char(c[x], c[x + 1]) {
            Compression::Full
        } else if c[x].ch == c[x + 1].ch {
            Compression::Char
        } else if c[x].attribute == c[x + 1].attribute {
            Compression::Attr
        } else {
            Compression::Off
        }
    } else {
        Compression::Off
    }
}

/// A run being built: its mode, its length, its stored bytes and its first
/// cell.
pub struct XbinRun {
    pub mode: Compression,
    pub count: u8,
    pub buf: Seq<u8>,
    pub run_ch: AttributedChar,
}

pub open spec fn initial_run() -> XbinRun {
    XbinRun { mode: Compression::Off, count: 0, buf: Seq::empty(), run_ch: default_char() }
}

/// The header byte of a run: its mode and its length less one.
pub open spec fn run_header(mode: Compression, count: u8) -> u8 {
    mode_bits(mode) | ((count - 1) as u8)
}

/// A finished run written after `out`.
pub open spec fn flush_run(r: XbinRun, out: Seq<u8>) -> Seq<u8> {
    out.push(run_header(r.mode, r.count)) + r.buf
}

/// The bytes that a cell adds to a run that it continues.
pub open spec fn run_item(mode: Compression, cur: AttributedChar, ext: bool) -> Seq<u8> {
    match mode {
        Compression::Off => Seq::empty().push(char_byte(cur)).push(attr_byte(cur, ext)),
        Compression::Char => Seq::empty().push(attr_byte(cur, ext)),
        Compression::Attr => Seq::empty().push(char_byte(cur)),
        Compression::Full => Seq::empty(),
    }
}

/// The bytes that a cell stores when it begins a run: the shared byte first.
pub open spec fn run_start(mode: Compression, cur: AttributedChar, ext: bool) -> Seq<u8> {
    if mode == Compression::Attr {
        Seq::empty().push(attr_byte(cur, ext)).push(char_byte(cur))
    } else {
        Seq::empty().push(char_byte(cur)).push(attr_byte(cur, ext))
    }
}

/// Cell `x` taken into the run: the run is written out first where `end`
/// says so, then the cell continues the run or begins a new one.
pub open spec fn compress_step(
    c: Seq<AttributedChar>,
    ext: bool,
    x: int,
    r: XbinRun,
    out: Seq<u8>,
    end: bool,
) -> (XbinRun, Seq<u8>) {
    let ended = r.count > 0 && end;
    let out1 = if ended { flush_run(r, out) } else { out };
    if r.count > 0 && !ended {
        (XbinRun { buf: r.buf + run_item(r.mode, c[x], ext), count: (r.count + 1) as u8, ..r }, out1)
    } else {
        let m = pick_mode(c, c.len() as int, x);
        (XbinRun { mode: m, count: 1, buf: run_start(m, c[x], ext), run_ch: c[x] }, out1)
    }
}

/// The state of a length count: the run as in `XbinRun` without its bytes,
/// a decision already taken on ending it, and the bytes counted so far.
pub struct CountState {
    pub mode: Compression,
    pub run_ch: AttributedChar,
    pub end_run: Option<bool>,
    pub run_count: int,
    pub count: int,
}

/// The number of bytes that a cell adds to a run that it continues.
pub open spec fn item_len(m: Compression) -> int {
    match m {
        Compression::Off => 2,
        Compression::Char => 1,
        Compression::Attr => 1,
        Compression::Full => 0,
    }
}

/// One cell of a length count: the run header is counted where the run
/// ends, then the cell's bytes.
pub open spec fn cl_step(c: Seq<AttributedChar>, lim: int, x: int, s: CountState) -> CountState {
    let ended = s.run_count > 0 && match s.end_run {
        Some(b) => b,
        None => end_rule(c, lim, x, s.mode, s.run_ch, s.run_count),
    };
    let count1 = if ended { s.count + 1 } else { s.count };
    if s.run_count > 0 && !ended {
        CountState { end_run: None, run_count: s.run_count + 1, count: count1 + item_len(s.mode), ..s }
    } else {
        CountState {
            mode: pick_mode(c, lim, x),
            run_ch: c[x],
            end_run: None,
            run_count: 1,
            count: count1 + 2,
        }
    }
}

/// The count after the cells `x..lim`.
pub open spec fn cl_from(c: Seq<AttributedChar>, lim: int, x: int, s: CountState) -> int
    decreases lim - x,
{
    if x >= lim {
        s.count
    } else {
        cl_from(c, lim, x + 1, cl_step(c, lim, x, s))
    }
}

/// The number of bytes that the cells from `x` on take, up to 256 cells and
/// not the last cell, when the run given continues there (`end_run` decides
/// whether it ends before `x`; `None` leaves it to the usual rule).
pub open spec fn counted_length(
    c: Seq<AttributedChar>,
    mode: Compression,
    run_ch: AttributedChar,
    end_run: Option<bool>,
    run_count: int,
    x: int,
) -> int {
    cl_from(
        c,
        vstd::math::min(x + 256, c.len() - 1),
        x,
        CountState { mode, run_ch, end_run, run_count, count: 0 },
    )
}

/// The rule of the backtracking compressor: a run full at 64 cells, a
/// repeated cell followed by another and a run sharing a character or an
/// attribute that changes end as in `end_rule`; where the cells ahead begin
/// to share something, the run ends only if that counts fewer bytes.
pub open spec fn backtrack_end(
    c: Seq<AttributedChar>,
    x: int,
    mode: Compression,
    run_ch: AttributedChar,
    count: int,
) -> bool {
    let len = c.len() as int;
    let cur = c[x];
    let l1 = counted_length(c, mode, run_ch, Some(true), count, x);
    let l2 = counted_length(c, mode, run_ch, Some(false), count, x);
    if count >= 64 {
        true
    } else {
        match mode {
            Compression::Off => x + 2 < len && (cur.ch == c[x + 1].ch || cur.attribute == c[x
                + 1].attribute) && l1 < l2,
            Compression::Char => cur.ch != run_ch.ch || (x + 4 < len && cur.attribute == c[x
                + 1].attribute && cur.attribute == c[x + 2].attribute && l1 < l2),
            Compression::Attr => cur.attribute != run_ch.attribute || (x + 3 < len && cur.ch == c[x
                + 1].ch && cur.ch == c[x + 2].ch && l1 < l2),
            Compression::Full => !same_char(cur, run_ch),
        }
    }
}

pub open spec fn run_ends(
    c: Seq<AttributedChar>,
    backtrack: bool,
    x: int,
    mode: Compression,
    run_ch: AttributedChar,
    count: int,
) -> bool {
    if backtrack {
        backtrack_end(c, x, mode, run_ch, count)
    } else {
        end_rule(c, c.len() as int, x, mode, run_ch, count)
    }
}

/// The bytes written for the cells from `x` on, after `out`, with the run
/// `r` open.
pub open spec fn compress_from(
    c: Seq<AttributedChar>,
    ext: bool,
    backtrack: bool,
    x: int,
    r: XbinRun,
    out: Seq<u8>,
) -> Seq<u8>
    decreases c.len() - x,
{
    if x >= c.len() {
        if r.count > 0 {
            flush_run(r, out)
        } else {
            out
        }
    } else {
        let (r2, o2) = compress_step(
            c,
            ext,
            x,
            r,
            out,
            run_ends(c, backtrack, x, r.mode, r.run_ch, r.count as int),
        );
        compress_from(c, ext, backtrack, x + 1, r2, o2)
    }
}

/// The compressed XBin image data of the cells.
pub open spec fn xbin_compressed(c: Seq<AttributedChar>, ext: bool, backtrack: bool) -> Seq<u8> {
    compress_from(c, ext, backtrack, 0, initial_run(), Seq::empty())
}

proof fn lemma_compress_prefix(
    c: Seq<AttributedChar>,
    ext: bool,
    backtrack: bool,
    x: int,
    r: XbinRun,
    a: Seq<u8>,
    b: Seq<u8>,
)
    ensures
        compress_from(c, ext, backtrack, x, r, a + b) == a + compress_from(c, ext, backtrack, x, r, b),
    decreases c.len() - x,
{
    if x >= c.len() {
        if r.count > 0 {
            assert(flush_run(r, a + b) =~= a + flush_run(r, b));
        } else {
        }
    } else {
        let e = run_ends(c, backtrack, x, r.mode, r.run_ch, r.count as int);
        let (r2, o2) = compress_step(c, ext, x, r, b, e);
        let (r3, o3) = compress_step(c, ext, x, r, a + b, e);
        if r.count > 0 && e {
            assert(flush_run(r, a + b) =~= a + flush_run(r, b));
        }
        assert(r3 == r2);
        assert(o3 == a + o2);
        lemma_compress_prefix(c, ext, backtrack, x + 1, r2, a, o2);
    }
}

/// The cell `i` of `xbin_cells`.
fn xbin_cell(buffer: &Buffer, width: usize, i: usize) -> (res: AttributedChar)
    requires
        width == buffer.size.width,
        width > 0,
    ensures
        res == buffer_char(*buffer, xbin_cell_pos(i as int, width as int)),
{
    buffer.get_char(Position { x: (i % width) as i32, y: (i / width) as i32 })
}

/// The number of cells, `xbin_cells(buffer).len()`.
fn xbin_len(buffer: &Buffer) -> (res: usize)
    requires
        xbin_fits(*buffer),
    ensures
        res == xbin_cells(*buffer).len(),
        res <= i32::MAX,
        res > 0 ==> buffer.size.width > 0,
{
    let width = buffer.get_width();
    let lines = buffer.get_line_count();
    proof {
        lemma_line_count_unique(*buffer, lines as int, line_count(*buffer));
        assert(lines * width >= 0) by (nonlinear_arith);
        if width == 0 {
            assert(lines * width == 0) by (nonlinear_arith)
                requires
                    width == 0,
            ;
        }
    }
    lines * width
}

fn pick_mode_at(buffer: &Buffer, len: usize, x: usize) -> (res: Compression)
    requires
        len <= xbin_cells(*buffer).len(),
        x < len,
        buffer.size.width > 0,
    ensures
        res == pick_mode(xbin_cells(*buffer), len as int, x as int),
{
    let width = buffer.get_width();
    if x + 1 < len {
        let cur = xbin_cell(buffer, width, x);
        let next = xbin_cell(buffer, width, x + 1);
        if cur == next {
            Compression::Full
        } else if cur.ch == next.ch {
            Compression::Char
        } else if cur.attribute == next.attribute {
            Compression::Attr
        } else {
            Compression::Off
        }
    } else {
        Compression::Off
    }
}

fn end_rule_at(
    buffer: &Buffer,
    len: usize,
    x: usize,
    mode: Compression,
    run_ch: AttributedChar,
    count: u8,
) -> (res: bool)
    requires
        len <= xbin_cells(*buffer).len(),
        len <= i32::MAX,
        x < len,
        buffer.size.width > 0,
    ensures
        res == end_rule(xbin_cells(*buffer), len as int, x as int, mode, run_ch, count as int),
{
    let width = buffer.get_width();
    let cur = xbin_cell(buffer, width, x);
    if count >= 64 {
        return true;
    }
    match mode {
        Compression::Off => {
            if x + 2 < len {
                let next = xbin_cell(buffer, width, x + 1);
                let next2 = xbin_cell(buffer, width, x + 2);
                cur == next || (cur.ch == next.ch && cur.ch == next2.ch) || (cur.attribute
                    == next.attribute && cur.attribute == next2.attribute)
            } else {
                false
            }
        },
        Compression::Char => {
            if cur.ch != run_ch.ch {
                true
            } else if x + 3 < len {
                let next = xbin_cell(buffer, width, x + 1);
                let next2 = xbin_cell(buffer, width, x + 2);
                let next3 = xbin_cell(buffer, width, x + 3);
                cur == next && cur == next2 && cur == next3
            } else {
                false
            }
        },
        Compression::Attr => {
            if cur.attribute != run_ch.attribute {
                true
            } else if x + 3 < len {
                let next = xbin_cell(buffer, width, x + 1);
                let next2 = xbin_cell(buffer, width, x + 2);
                let next3 = xbin_cell(buffer, width, x + 3);
                cur == next && cur == next2 && cur == next3
            } else {
                false
            }
        },
        Compression::Full => cur != run_ch,
    }
}

/// The number of bytes that the cells from `x` on take when the run given
/// continues there; see `counted_length`.
pub fn count_length(
    run_mode: Compression,
    run_ch: AttributedChar,
    end_run: Option<bool>,
    run_count: u8,
    buffer: &Buffer,
    x: i32,
) -> (res: usize)
    requires
        xbin_fits(*buffer),
        0 <= x <= i32::MAX - 256,
        end_run == Some(false) ==> run_count < 255,
    ensures
        res == counted_length(
            xbin_cells(*buffer),
            run_mode,
            run_ch,
            end_run,
            run_count as int,
            x as int,
        ),
{
    let total = xbin_len(buffer);
    let width = buffer.get_width();
    let ghost c = xbin_cells(*buffer);
    let last: i32 = total as i32 - 1;
    let len: i32 = if x + 256 <= last {
        x + 256
    } else {
        last
    };
    let mut mode = run_mode;
    let mut ch0 = run_ch;
    let mut end = end_run;
    let mut rc: u8 = run_count;
    let mut count: usize = 0;
    let mut xi: i32 = x;
    while xi < len
        invariant
            c == xbin_cells(*buffer),
            total == c.len(),
            total <= i32::MAX,
            width == buffer.size.width,
            total > 0 ==> width > 0,
            len == vstd::math::min(x + 256, c.len() - 1),
            0 <= x <= xi,
            xi < len ==> xi < x + 256,
            count <= 3 * (xi - x),
            end == Some(false) ==> rc < 255,
            cl_from(
                c,
                len as int,
                xi as int,
                CountState { mode, run_ch: ch0, end_run: end, run_count: rc as int, count: count as int },
            ) == counted_length(c, run_mode, run_ch, end_run, run_count as int, x as int),
        decreases len - xi,
    {
        let ghost s0 = CountState { mode, run_ch: ch0, end_run: end, run_count: rc as int, count: count as int };
        let i = xi as usize;
        let cur = xbin_cell(buffer, width, i);
        let mut ended = false;
        if rc > 0 {
            let e = match end {
                Some(b) => b,
                None => end_rule_at(buffer, len as usize, i, mode, ch0, rc),
            };
            if e {
                count = count + 1;
                ended = true;
            }
        }
        end = None;
        if rc > 0 && !ended {
            match mode {
                Compression::Off => {
                    count = count + 2;
                },
                Compression::Char => {
                    count = count + 1;
                },
                Compression::Attr => {
                    count = count + 1;
                },
                Compression::Full => {},
            }
            rc = rc + 1;
        } else {
            mode = pick_mode_at(buffer, len as usize, i);
            count = count + 2;
            ch0 = cur;
            rc = 1;
        }
        proof {
            let s1 = cl_step(c, len as int, xi as int, s0);
            assert(s1 == CountState { mode, run_ch: ch0, end_run: end, run_count: rc as int, count: count as int });
        }
        xi = xi + 1;
    }
    count
}

fn backtrack_end_at(
    buffer: &Buffer,
    len: usize,
    x: usize,
    mode: Compression,
    run_ch: AttributedChar,
    count: u8,
) -> (res: bool)
    requires
        xbin_fits(*buffer),
        len == xbin_cells(*buffer).len(),
        len + 256 <= i32::MAX,
        x < len,
        buffer.size.width > 0,
    ensures
        res == backtrack_end(xbin_cells(*buffer), x as int, mode, run_ch, count as int),
{
    let width = buffer.get_width();
    let cur = xbin_cell(buffer, width, x);
    if count >= 64 {
        return true;
    }
    match mode {
        Compression::Off => {
            if x + 2 < len {
                let next = xbin_cell(buffer, width, x + 1);
                if cur.ch == next.ch || cur.attribute == next.attribute {
                    let l1 = count_length(mode, run_ch, Some(true), count, buffer, x as i32);
                    let l2 = count_length(mode, run_ch, Some(false), count, buffer, x as i32);
                    l1 < l2
                } else {
                    false
                }
            } else {
                false
            }
        },
        Compression::Char => {
            if cur.ch != run_ch.ch {
                true
            } else if x + 4 < len {
                let next = xbin_cell(buffer, width, x + 1);
                let next2 = xbin_cell(buffer, width, x + 2);
                if cur.attribute == next.attribute && cur.attribute == next2.attribute {
                    let l1 = count_length(mode, run_ch, Some(true), count, buffer, x as i32);
                    let l2 = count_length(mode, run_ch, Some(false), count, buffer, x as i32);
                    l1 < l2
                } else {
                    false
                }
            } else {
                false
            }
        },
        Compression::Attr => {
            if cur.attribute != run_ch.attribute {
                true
            } else if x + 3 < len {
                let next = xbin_cell(buffer, width, x + 1);
                let next2 = xbin_cell(buffer, width, x + 2);
                if cur.ch == next.ch && cur.ch == next2.ch {
                    let l1 = count_length(mode, run_ch, Some(true), count, buffer, x as i32);
                    let l2 = count_length(mode, run_ch, Some(false), count, buffer, x as i32);
                    l1 < l2
                } else {
                    false
                }
            } else {
                false
            }
        },
        Compression::Full => cur != run_ch,
    }
}

fn compress_runs(outputdata: &mut Vec<u8>, buffer: &Buffer, extended_font: bool, backtrack: bool)
    requires
        xbin_fits(*buffer),
        backtrack ==> xbin_cells(*buffer).len() + 256 <= i32::MAX,
    ensures
        final(outputdata)@ == old(outputdata)@ + xbin_compressed(
            xbin_cells(*buffer),
            extended_font,
            backtrack,
        ),
{
    let len = xbin_len(buffer);
    let width = buffer.get_width();
    let ghost c = xbin_cells(*buffer);
    let ghost old_out = outputdata@;
    let mut run_mode = Compression::Off;
    let mut run_count: u8 = 0;
    let mut run_buf: Vec<u8> = Vec::new();
    let mut run_ch = AttributedChar::default();
    proof {
        lemma_compress_prefix(c, extended_font, backtrack, 0, initial_run(), old_out, Seq::empty());
        assert(old_out + Seq::<u8>::empty() =~= old_out);
        assert(run_buf@ =~= Seq::<u8>::empty());
        assert(XbinRun { mode: run_mode, count: run_count, buf: run_buf@, run_ch } == initial_run());
    }
    let mut x: usize = 0;
    while x < len
        invariant
            c == xbin_cells(*buffer),
            len == c.len(),
            len <= i32::MAX,
            width == buffer.size.width,
            len > 0 ==> width > 0,
            xbin_fits(*buffer),
            backtrack ==> len + 256 <= i32::MAX,
            x <= len,
            run_count <= 64,
            compress_from(
                c,
                extended_font,
                backtrack,
                x as int,
                XbinRun { mode: run_mode, count: run_count, buf: run_buf@, run_ch },
                outputdata@,
            ) == old_out + xbin_compressed(c, extended_font, backtrack),
        decreases len - x,
    {
        let ghost r0 = XbinRun { mode: run_mode, count: run_count, buf: run_buf@, run_ch };
        let ghost out0 = outputdata@;
        let cur = xbin_cell(buffer, width, x);
        let mut ended = false;
        if run_count > 0 {
            let e = if backtrack {
                backtrack_end_at(buffer, len, x, run_mode, run_ch, run_count)
            } else {
                end_rule_at(buffer, len, x, run_mode, run_ch, run_count)
            };
            if e {
                outputdata.push(run_mode.bits() | (run_count - 1));
                outputdata.append(&mut run_buf);
                ended = true;
            }
        }
        if run_count > 0 && !ended {
            match run_mode {
                Compression::Off => {
                    run_buf.push((cur.ch as u32) as u8);
                    run_buf.push(encode_attr((cur.ch as u32) as u16, cur.attribute, extended_font));
                },
                Compression::Char => {
                    run_buf.push(encode_attr((cur.ch as u32) as u16, cur.attribute, extended_font));
                },
                Compression::Attr => {
                    run_buf.push((cur.ch as u32) as u8);
                },
                Compression::Full => {},
            }
            run_count = run_count + 1;
        } else {
            run_mode = pick_mode_at(buffer, len, x);
            run_buf = Vec::new();
            if run_mode == Compression::Attr {
                run_buf.push(encode_attr((cur.ch as u32) as u16, cur.attribute, extended_font));
                run_buf.push((cur.ch as u32) as u8);
            } else {
                run_buf.push((cur.ch as u32) as u8);
                run_buf.push(encode_attr((cur.ch as u32) as u16, cur.attribute, extended_font));
            }
            run_ch = cur;
            run_count = 1;
        }
        proof {
            let e = run_ends(c, backtrack, x as int, r0.mode, r0.run_ch, r0.count as int);
            let (r2, o2) = compress_step(c, extended_font, x as int, r0, out0, e);
            if r0.count > 0 && e {
                assert(outputdata@ =~= flush_run(r0, out0));
            } else {
                assert(outputdata@ =~= out0);
            }
            assert(run_buf@ =~= r2.buf);
            assert(XbinRun { mode: run_mode, count: run_count, buf: run_buf@, run_ch } == r2);
        }
        x = x + 1;
    }
    if run_count > 0 {
        let ghost out0 = outputdata@;
        let ghost b0 = run_buf@;
        outputdata.push(run_mode.bits() | (run_count - 1));
        outputdata.append(&mut run_buf);
        proof {
            assert(outputdata@ =~= flush_run(
                XbinRun { mode: run_mode, count: run_count, buf: b0, run_ch },
                out0,
            ));
        }
    }
}

/// Appends the cells of the buffer as compressed XBin image data, each run
/// ended by the rule `end_rule`.
pub fn compress_greedy(outputdata: &mut Vec<u8>, buffer: &Buffer, extended_font: bool)
    requires
        xbin_fits(*buffer),
    ensures
        final(outputdata)@ == old(outputdata)@ + xbin_compressed(
            xbin_cells(*buffer),
            extended_font,
            false,
        ),
{
    compress_runs(outputdata, buffer, extended_font, false)
}

/// Appends the cells of the buffer as compressed XBin image data, each run
/// ended by the rule `backtrack_end`, which compares the bytes that the cells
/// ahead take either way.
pub fn compress_backtrack(outputdata: &mut Vec<u8>, buffer: &Buffer, extended_font: bool)
    requires
        xbin_fits(*buffer),
        xbin_cells(*buffer).len() + 256 <= i32::MAX,
    ensures
        final(outputdata)@ == old(outputdata)@ + xbin_compressed(
            xbin_cells(*buffer),
            extended_font,
            true,
        ),
{
    compress_runs(outputdata, buffer, extended_font, true)
}


/// Moves `pos` to the next cell of the image: one column on, or to the
/// start of the next row after the last column.
pub fn advance_pos(result: &Buffer, pos: &mut Position) -> (res: bool)
    requires
        old(pos).x < i32::MAX,
        old(pos).x + 1 >= result.size.width ==> old(pos).y < i32::MAX,
    ensures
        res,
        *final(pos) == if old(pos).x + 1 >= result.size.width {
            Position { x: 0, y: (old(pos).y + 1) as i32 }
        } else {
            Position { x: (old(pos).x + 1) as i32, y: old(pos).y }
        },
{
    pos.x = pos.x + 1;
    if pos.x >= 0 && pos.x as usize >= result.get_width() {
        pos.x = 0;
        pos.y = pos.y + 1;
    }
    true
}

/// The character and attribute bytes of a cell as XBin stores them.
pub open spec fn cell_bytes(c: AttributedChar, ext: bool) -> (u8, u8) {
    (char_byte(c), attr_byte(c, ext))
}

/// The cells `x..` of `c` as character and attribute bytes.
pub open spec fn cells_bytes_from(c: Seq<AttributedChar>, ext: bool, x: int) -> Seq<(u8, u8)> {
    Seq::new((c.len() - x) as nat, |i: int| cell_bytes(c[x + i], ext))
}

/// The cells that XBin run data describes, as character and attribute
/// bytes. Each run is a header byte, whose two high bits give the mode and
/// whose six low bits the number of cells less one, followed by: for
/// distinct cells a character and an attribute byte each; for a shared
/// character that character, then an attribute byte each; for a shared
/// attribute that attribute, then a character byte each; for a repeated cell
/// its two bytes once.
pub open spec fn xbin_decoded(b: Seq<u8>) -> Seq<(u8, u8)>
    decreases b.len(),
{
    if b.len() == 0 {
        Seq::empty()
    } else {
        let k = b[0] / 64;
        let n = (b[0] % 64) as int + 1;
        if k == 0 {
            if 1 + 2 * n <= b.len() {
                Seq::new(n as nat, |i: int| (b[1 + 2 * i], b[2 + 2 * i])) + xbin_decoded(
                    b.subrange(1 + 2 * n, b.len() as int),
                )
            } else {
                Seq::empty()
            }
        } else if k == 1 || k == 2 {
            if 2 + n <= b.len() {
                Seq::new(
                    n as nat,
                    |i: int|
                        if k == 1 {
                            (b[1], b[2 + i])
                        } else {
                            (b[2 + i], b[1])
                        },
                ) + xbin_decoded(b.subrange(2 + n, b.len() as int))
            } else {
                Seq::empty()
            }
        } else {
            if 3 <= b.len() {
                Seq::new(n as nat, |i: int| (b[1], b[2])) + xbin_decoded(b.subrange(3, b.len() as int))
            } else {
                Seq::empty()
            }
        }
    }
}

/// The bytes of distinct cells `s..s + n`: a character and an attribute
/// byte each.
pub open spec fn off_bytes(c: Seq<AttributedChar>, ext: bool, s: int, n: nat) -> Seq<u8>
    decreases n,
{
    if n == 0 {
        Seq::empty()
    } else {
        off_bytes(c, ext, s, (n - 1) as nat).push(char_byte(c[s + n - 1])).push(attr_byte(c[s + n - 1], ext))
    }
}

/// The bytes `2 * i` and `2 * i + 1`.
pub open spec fn byte_pair(b: Seq<u8>, i: int) -> (u8, u8) {
    (b[2 * i], b[2 * i + 1])
}

proof fn lemma_off_bytes(c: Seq<AttributedChar>, ext: bool, s: int, n: nat)
    ensures
        off_bytes(c, ext, s, n).len() == 2 * n,
        forall|i: int| 0 <= i < n ==> #[trigger] byte_pair(off_bytes(c, ext, s, n), i) == cell_bytes(c[s + i], ext),
    decreases n,
{
    if n > 0 {
        lemma_off_bytes(c, ext, s, (n - 1) as nat);
        let prev = off_bytes(c, ext, s, (n - 1) as nat);
        assert forall|i: int| 0 <= i < n implies #[trigger] byte_pair(off_bytes(c, ext, s, n), i) == cell_bytes(
            c[s + i],
            ext,
        ) by {
            if i < n - 1 {
                assert(byte_pair(prev, i) == cell_bytes(c[s + i], ext));
            }
        }
    }
}

/// The run `r`, open before cell `x`, holds the cells before `x` that it
/// counts, and stores them as its mode says.
pub open spec fn run_ok(c: Seq<AttributedChar>, ext: bool, x: int, r: XbinRun) -> bool {
    r.count == 0 || {
        let n = r.count as int;
        let s = x - n;
        &&& 1 <= n <= 64
        &&& 0 <= s
        &&& x <= c.len()
        &&& r.run_ch == c[s]
        &&& match r.mode {
            Compression::Off => r.buf == off_bytes(c, ext, s, n as nat),
            Compression::Char => r.buf == Seq::empty().push(char_byte(c[s])) + Seq::new(
                n as nat,
                |i: int| attr_byte(c[s + i], ext),
            ) && forall|j: int| s <= j < x ==> (#[trigger] c[j]).ch == r.run_ch.ch,
            Compression::Attr => r.buf == Seq::empty().push(attr_byte(c[s], ext)) + Seq::new(
                n as nat,
                |i: int| char_byte(c[s + i]),
            ) && forall|j: int| s <= j < x ==> (#[trigger] c[j]).attribute == r.run_ch.attribute,
            Compression::Full => r.buf == Seq::empty().push(char_byte(c[s])).push(attr_byte(c[s], ext))
                && forall|j: int| s <= j < x ==> same_char(#[trigger] c[j], r.run_ch),
        }
    }
}

/// The cells of the open run as character and attribute bytes.
pub open spec fn run_bytes(c: Seq<AttributedChar>, ext: bool, x: int, r: XbinRun) -> Seq<(u8, u8)> {
    Seq::new(r.count as nat, |i: int| cell_bytes(c[x - r.count + i], ext))
}

/// The attribute byte of a cell depends on its attribute alone where no
/// character needs the second font.
pub open spec fn attr_by_attribute(c: Seq<AttributedChar>, ext: bool) -> bool {
    !ext || forall|i: int| 0 <= i < c.len() ==> ((#[trigger] c[i].ch as u32) as u16) <= 255
}

proof fn lemma_header(m: u8, k: u8)
    requires
        m == 0 || m == 64 || m == 128 || m == 192,
        k < 64,
    ensures
        (m | k) / 64 == m / 64,
        (m | k) % 64 == k,
{
    assert((m == 0 || m == 64 || m == 128 || m == 192) && k < 64 ==> (m | k) / 64 == m / 64 && (m | k) % 64
        == k) by (bit_vector);
}

proof fn lemma_decode_run(c: Seq<AttributedChar>, ext: bool, x: int, r: XbinRun, rest: Seq<u8>)
    requires
        run_ok(c, ext, x, r),
        r.count > 0,
        attr_by_attribute(c, ext),
    ensures
        xbin_decoded(flush_run(r, Seq::empty()) + rest) == run_bytes(c, ext, x, r) + xbin_decoded(rest),
{
    let b = flush_run(r, Seq::empty()) + rest;
    let n = r.count as int;
    let s = x - n;
    let h = run_header(r.mode, r.count);
    lemma_header(mode_bits(r.mode), (r.count - 1) as u8);
    assert(b[0] == h);
    assert(h % 64 == n - 1);
    match r.mode {
        Compression::Off => {
            lemma_off_bytes(c, ext, s, n as nat);
            assert(b.subrange(1 + 2 * n, b.len() as int) =~= rest);
            assert(Seq::new(n as nat, |i: int| (b[1 + 2 * i], b[2 + 2 * i])) =~= run_bytes(c, ext, x, r)) by {
                assert forall|i: int| 0 <= i < n implies #[trigger] run_bytes(c, ext, x, r)[i] == (b[1 + 2 * i], b[2
                    + 2 * i]) by {
                    assert(byte_pair(r.buf, i) == cell_bytes(c[s + i], ext));
                    assert(b[1 + 2 * i] == r.buf[2 * i]);
                    assert(b[2 + 2 * i] == r.buf[2 * i + 1]);
                }
            }
        },
        Compression::Char => {
            assert(b.subrange(2 + n, b.len() as int) =~= rest);
            assert forall|i: int| 0 <= i < n implies #[trigger] run_bytes(c, ext, x, r)[i] == (b[1], b[2 + i]) by {
                assert(c[s + i].ch == r.run_ch.ch);
                assert(b[2 + i] == r.buf[1 + i]);
            }
            assert(Seq::new(n as nat, |i: int| (b[1], b[2 + i])) =~= run_bytes(c, ext, x, r));
        },
        Compression::Attr => {
            assert(b.subrange(2 + n, b.len() as int) =~= rest);
            assert forall|i: int| 0 <= i < n implies #[trigger] run_bytes(c, ext, x, r)[i] == (b[2 + i], b[1]) by {
                assert(c[s + i].attribute == r.run_ch.attribute);
                assert(b[2 + i] == r.buf[1 + i]);
                if ext {
                    assert(((c[s + i].ch as u32) as u16) <= 255);
                    assert(((c[s].ch as u32) as u16) <= 255);
                }
            }
            assert(Seq::new(n as nat, |i: int| (b[2 + i], b[1])) =~= run_bytes(c, ext, x, r));
        },
        Compression::Full => {
            assert(b.subrange(3, b.len() as int) =~= rest);
            assert forall|i: int| 0 <= i < n implies #[trigger] run_bytes(c, ext, x, r)[i] == (b[1], b[2]) by {
                assert(same_char(c[s + i], r.run_ch));
            }
            assert(Seq::new(n as nat, |i: int| (b[1], b[2])) =~= run_bytes(c, ext, x, r));
        },
    }
}

proof fn lemma_not_end(
    c: Seq<AttributedChar>,
    backtrack: bool,
    x: int,
    mode: Compression,
    run_ch: AttributedChar,
    count: int,
)
    requires
        0 <= x < c.len(),
        !run_ends(c, backtrack, x, mode, run_ch, count),
    ensures
        count < 64,
        mode == Compression::Char ==> c[x].ch == run_ch.ch,
        mode == Compression::Attr ==> c[x].attribute == run_ch.attribute,
        mode == Compression::Full ==> same_char(c[x], run_ch),
{
}

proof fn lemma_step_run_ok(c: Seq<AttributedChar>, ext: bool, backtrack: bool, x: int, r: XbinRun)
    requires
        0 <= x < c.len(),
        run_ok(c, ext, x, r),
    ensures
        ({
            let e = run_ends(c, backtrack, x, r.mode, r.run_ch, r.count as int);
            let (r2, o2) = compress_step(c, ext, x, r, Seq::empty(), e);
            &&& run_ok(c, ext, x + 1, r2)
            &&& if r.count > 0 && e {
                o2 == flush_run(r, Seq::empty()) && r2.count == 1
            } else if r.count > 0 {
                o2 == Seq::<u8>::empty() && run_bytes(c, ext, x + 1, r2) == run_bytes(c, ext, x, r).push(
                    cell_bytes(c[x], ext),
                )
            } else {
                o2 == Seq::<u8>::empty() && r2.count == 1
            }
        }),
{
    let e = run_ends(c, backtrack, x, r.mode, r.run_ch, r.count as int);
    let (r2, o2) = compress_step(c, ext, x, r, Seq::empty(), e);
    if r.count > 0 && !e {
        lemma_not_end(c, backtrack, x, r.mode, r.run_ch, r.count as int);
        let n = r.count as int;
        let s = x - n;
        match r.mode {
            Compression::Off => {
                assert(r2.buf =~= off_bytes(c, ext, s, (n + 1) as nat));
            },
            Compression::Char => {
                assert(r2.buf =~= Seq::empty().push(char_byte(c[s])) + Seq::new(
                    (n + 1) as nat,
                    |i: int| attr_byte(c[s + i], ext),
                ));
            },
            Compression::Attr => {
                assert(r2.buf =~= Seq::empty().push(attr_byte(c[s], ext)) + Seq::new(
                    (n + 1) as nat,
                    |i: int| char_byte(c[s + i]),
                ));
            },
            Compression::Full => {},
        }
        assert(run_bytes(c, ext, x + 1, r2) =~= run_bytes(c, ext, x, r).push(cell_bytes(c[x], ext)));
    } else {
        let m = pick_mode(c, c.len() as int, x);
        match m {
            Compression::Off => {
                assert(off_bytes(c, ext, x, 0) == Seq::<u8>::empty());
                assert(off_bytes(c, ext, x, 1) == Seq::<u8>::empty().push(char_byte(c[x])).push(attr_byte(c[x], ext)));
                assert(r2.buf =~= off_bytes(c, ext, x, 1));
            },
            Compression::Char => {
                assert(r2.buf =~= Seq::empty().push(char_byte(c[x])) + Seq::new(
                    1,
                    |i: int| attr_byte(c[x + i], ext),
                ));
            },
            Compression::Attr => {
                assert(r2.buf =~= Seq::empty().push(attr_byte(c[x], ext)) + Seq::new(
                    1,
                    |i: int| char_byte(c[x + i]),
                ));
            },
            Compression::Full => {},
        }
    }
}

proof fn lemma_tail(c: Seq<AttributedChar>, ext: bool, backtrack: bool, x: int, r: XbinRun)
    requires
        0 <= x <= c.len(),
        run_ok(c, ext, x, r),
        attr_by_attribute(c, ext),
    ensures
        xbin_decoded(compress_from(c, ext, backtrack, x, r, Seq::empty())) == run_bytes(c, ext, x, r)
            + cells_bytes_from(c, ext, x),
    decreases c.len() - x,
{
    let e0: Seq<u8> = Seq::empty();
    assert(xbin_decoded(e0) =~= Seq::<(u8, u8)>::empty());
    if x >= c.len() {
        assert(cells_bytes_from(c, ext, x) =~= Seq::<(u8, u8)>::empty());
        if r.count > 0 {
            lemma_decode_run(c, ext, x, r, e0);
            assert(flush_run(r, e0) + e0 =~= flush_run(r, e0));
        } else {
            assert(run_bytes(c, ext, x, r) =~= Seq::<(u8, u8)>::empty());
        }
    } else {
        let e = run_ends(c, backtrack, x, r.mode, r.run_ch, r.count as int);
        let (r2, o2) = compress_step(c, ext, x, r, e0, e);
        lemma_step_run_ok(c, ext, backtrack, x, r);
        lemma_tail(c, ext, backtrack, x + 1, r2);
        lemma_compress_prefix(c, ext, backtrack, x + 1, r2, o2, e0);
        assert(o2 + e0 =~= o2);
        let t = compress_from(c, ext, backtrack, x + 1, r2, e0);
        assert(compress_from(c, ext, backtrack, x, r, e0) == o2 + t);
        assert(cells_bytes_from(c, ext, x) =~= Seq::empty().push(cell_bytes(c[x], ext)) + cells_bytes_from(
            c,
            ext,
            x + 1,
        ));
        if r.count > 0 && e {
            lemma_decode_run(c, ext, x, r, t);
            assert(run_bytes(c, ext, x + 1, r2) =~= Seq::empty().push(cell_bytes(c[x], ext)));
        } else if r.count > 0 {
            assert(o2 + t =~= t);
        } else {
            assert(o2 + t =~= t);
            assert(run_bytes(c, ext, x, r) =~= Seq::<(u8, u8)>::empty());
            assert(run_bytes(c, ext, x + 1, r2) =~= Seq::empty().push(cell_bytes(c[x], ext)));
        }
    }
}

/// Law: XBin data written by either compressor, read back run by run,
/// gives the character and attribute bytes of every cell in order. This
/// holds wherever a cell's attribute byte depends on its attribute alone:
/// without the second font, or where no character needs it.
pub proof fn law_xbin_compressed_decodes(c: Seq<AttributedChar>, ext: bool, backtrack: bool)
    requires
        attr_by_attribute(c, ext),
    ensures
        xbin_decoded(xbin_compressed(c, ext, backtrack)) == Seq::new(c.len(), |i: int| cell_bytes(c[i], ext)),
{
    assert(run_ok(c, ext, 0, initial_run()));
    lemma_tail(c, ext, backtrack, 0, initial_run());
    assert(run_bytes(c, ext, 0, initial_run()) =~= Seq::<(u8, u8)>::empty());
    assert(cells_bytes_from(c, ext, 0) =~= Seq::new(c.len(), |i: int| cell_bytes(c[i], ext)));
    assert(Seq::<(u8, u8)>::empty() + cells_bytes_from(c, ext, 0) =~= cells_bytes_from(c, ext, 0));
}

} // verus!
