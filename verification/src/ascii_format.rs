use vstd::prelude::*;

use crate::attributed_char::is_transparent_char;
use crate::buffer::{buffer_char, Buffer};
use crate::formats::SaveOptions;
use crate::geometry::Position;

verus! {

/// `n` is the length of row `y`: one past its last cell within the width
/// that is not transparent, every cell after it transparent.
pub open spec fn row_length_is(b: Buffer, y: i32, n: int) -> bool {
    &&& 0 <= n <= b.size.width
    &&& n > 0 ==> !is_transparent_char(buffer_char(b, Position { x: (n - 1) as i32, y }))
    &&& forall|x: int|
        n <= x < b.size.width && x <= i32::MAX ==> is_transparent_char(#[trigger] buffer_char(b, Position { x: x as i32, y }))
}

/// The length of row `y`; see `row_length_is`.
pub open spec fn row_length(b: Buffer, y: i32) -> int {
    choose|n: int| row_length_is(b, y, n)
}

pub proof fn lemma_row_length_unique(b: Buffer, y: i32, n1: int, n2: int)
    requires
        b.size.width <= i32::MAX,
        row_length_is(b, y, n1),
        row_length_is(b, y, n2),
    ensures
        n1 == n2,
{
    if n1 < n2 {
        assert(is_transparent_char(buffer_char(b, Position { x: (n2 - 1) as i32, y })));
    }
    if n2 < n1 {
        assert(is_transparent_char(buffer_char(b, Position { x: (n1 - 1) as i32, y })));
    }
}

/// `n` is the number of rows of the buffer: the most rows of any layer, or
/// its height where it has no layers.
pub open spec fn line_count_is(b: Buffer, n: int) -> bool {
    &&& b.layers@.len() == 0 ==> n == b.size.height
    &&& b.layers@.len() > 0 ==> (forall|i: int| 0 <= i < b.layers@.len() ==> b.layers@[i].lines@.len() <= n)
    &&& b.layers@.len() > 0 ==> (exists|i: int| 0 <= i < b.layers@.len() && b.layers@[i].lines@.len() == n)
}

/// The number of rows of the buffer; see `line_count_is`.
pub open spec fn line_count(b: Buffer) -> int {
    choose|n: int| line_count_is(b, n)
}

pub proof fn lemma_line_count_unique(b: Buffer, n1: int, n2: int)
    requires
        line_count_is(b, n1),
        line_count_is(b, n2),
    ensures
        n1 == n2,
{
    if b.layers@.len() > 0 {
        let i1 = choose|i: int| 0 <= i < b.layers@.len() && b.layers@[i].lines@.len() == n1;
        let i2 = choose|i: int| 0 <= i < b.layers@.len() && b.layers@[i].lines@.len() == n2;
        assert(b.layers@[i1].lines@.len() <= n2);
        assert(b.layers@[i2].lines@.len() <= n1);
    }
}

/// The byte that a character is saved as: NUL as a space, any other
/// character as the low byte of its number.
pub open spec fn asc_byte(ch: char) -> u8 {
    if ch == '\0' { 0x20 } else { (ch as u32 % 256) as u8 }
}

/// Row `y` of `h` rows saved as text: its cells up to its length, then a
/// line break where the row ends before the width and is not the last one.
pub open spec fn asc_row(b: Buffer, y: int, h: int) -> Seq<u8> {
    let n = row_length(b, y as i32);
    Seq::new(n as nat, |x: int| asc_byte(buffer_char(b, Position { x: x as i32, y: y as i32 }).ch)) + if n < b.size.width
        && y + 1 < h {
        seq![13u8, 10u8]
    } else {
        Seq::empty()
    }
}

/// The first `k` of `h` rows saved as text.
pub open spec fn asc_rows(b: Buffer, h: int, k: nat) -> Seq<u8>
    decreases k,
{
    if k == 0 {
        Seq::empty()
    } else {
        asc_rows(b, h, (k - 1) as nat) + asc_row(b, k - 1, h)
    }
}

/// The buffer and its rows lie in the coordinate range.
pub open spec fn asc_fits(b: Buffer) -> bool {
    &&& b.size.width <= i32::MAX
    &&& b.size.height <= i32::MAX
    &&& forall|i: int| 0 <= i < b.layers@.len() ==> (#[trigger] b.layers@[i]).lines@.len() <= i32::MAX
}

/// The buffer saved as plain text: every row up to its length, rows broken
/// by CR LF. No SAUCE record is written.
pub fn convert_to_asc(buf: &Buffer, options: &SaveOptions) -> (res: Vec<u8>)
    requires
        asc_fits(*buf),
    ensures
        res@ == asc_rows(*buf, line_count(*buf), line_count(*buf) as nat),
{
    let mut result: Vec<u8> = Vec::new();
    let height = buf.get_line_count();
    proof {
        lemma_line_count_unique(*buf, height as int, line_count(*buf));
        if buf.layers@.len() > 0 {
            let i = choose|i: int| 0 <= i < buf.layers@.len() && buf.layers@[i].lines@.len() == height;
            assert(buf.layers@[i].lines@.len() <= i32::MAX);
        }
    }
    let mut y: usize = 0;
    while y < height
        invariant
            y <= height == line_count(*buf),
            height <= i32::MAX,
            asc_fits(*buf),
            result@ == asc_rows(*buf, height as int, y as nat),
        decreases height - y,
    {
        let yy = y as i32;
        let n = buf.get_line_length(yy);
        proof {
            lemma_row_length_unique(*buf, yy, n as int, row_length(*buf, yy));
        }
        let ghost start = result@;
        let mut x: usize = 0;
        while x < n
            invariant
                x <= n == row_length(*buf, yy),
                n <= buf.size.width <= i32::MAX,
                result@ == start + Seq::new(
                    x as nat,
                    |k: int| asc_byte(buffer_char(*buf, Position { x: k as i32, y: yy }).ch),
                ),
            decreases n - x,
        {
            let ch = buf.get_char(Position::new(x as i32, yy));
            let b: u8 = if ch.ch == '\0' { 0x20 } else { (ch.ch as u32 % 256) as u8 };
            result.push(b);
            x += 1;
            assert(result@ =~= start + Seq::new(
                x as nat,
                |k: int| asc_byte(buffer_char(*buf, Position { x: k as i32, y: yy }).ch),
            ));
        }
        if n < buf.size.width && y + 1 < height {
            result.push(13);
            result.push(10);
        }
        assert(result@ =~= asc_rows(*buf, height as int, (y + 1) as nat));
        y += 1;
    }
    result
}


/// What the first `k` rows give stands unchanged at the start of what the
/// first `m` rows give, for `k <= m`.
proof fn lemma_asc_rows_prefix(b: Buffer, h: int, k: nat, m: nat)
    requires
        k <= m,
    ensures
        asc_rows(b, h, k).len() <= asc_rows(b, h, m).len(),
        forall|i: int| 0 <= i < asc_rows(b, h, k).len() ==> #[trigger] asc_rows(b, h, m)[i] == asc_rows(b, h, k)[i],
    decreases m,
{
    if k < m {
        lemma_asc_rows_prefix(b, h, k, (m - 1) as nat);
    }
}

/// Every row has a length: below `k` there is one, where every cell from `k`
/// to the width is transparent.
proof fn lemma_row_length_below(b: Buffer, y: i32, k: int)
    requires
        b.size.width <= i32::MAX,
        0 <= k <= b.size.width,
        forall|x: int|
            k <= x < b.size.width && x <= i32::MAX ==> is_transparent_char(#[trigger] buffer_char(b, Position { x: x as i32, y })),
    ensures
        row_length_is(b, y, row_length(b, y)),
    decreases k,
{
    if k == 0 {
        assert(row_length_is(b, y, 0));
    } else if is_transparent_char(buffer_char(b, Position { x: (k - 1) as i32, y })) {
        assert forall|x: int|
            k - 1 <= x < b.size.width && x <= i32::MAX implies is_transparent_char(
            #[trigger] buffer_char(b, Position { x: x as i32, y }),
        ) by {
            if x == k - 1 {
            }
        }
        lemma_row_length_below(b, y, k - 1);
    } else {
        assert(row_length_is(b, y, k));
    }
}

/// Line breaks in saved text: in `out`, the text that `convert_to_asc` gives,
/// row `y` starts right after the text of the rows above it with its
/// characters up to its length; a row shorter than the width that is not the
/// last one is followed by CR LF (13, 10), any other row by nothing, so the
/// next row (or the end of the text, after the last row) follows at once.
pub proof fn law_asc_line_breaks(b: Buffer, out: Seq<u8>, y: int)
    requires
        asc_fits(b),
        out == asc_rows(b, line_count(b), line_count(b) as nat),
        0 <= y < line_count(b),
    ensures
        ({
            let h = line_count(b);
            let start = asc_rows(b, h, y as nat).len() as int;
            let next = asc_rows(b, h, (y + 1) as nat).len() as int;
            let n = row_length(b, y as i32);
            &&& start + n <= out.len()
            &&& forall|x: int|
                0 <= x < n ==> {
                    let c = #[trigger] buffer_char(b, Position { x: x as i32, y: y as i32 }).ch;
                    out[start + x] == if c == '\0' { 32u8 } else { (c as u32 % 256) as u8 }
                }
            &&& n < b.size.width && y + 1 < h ==> next == start + n + 2 && out[start + n] == 13u8 && out[start + n + 1] == 10u8
            &&& !(n < b.size.width && y + 1 < h) ==> next == start + n
            &&& y + 1 == h ==> out.len() == start + n
        }),
{
    let h = line_count(b);
    lemma_row_length_below(b, y as i32, b.size.width as int);
    lemma_asc_rows_prefix(b, h, (y + 1) as nat, h as nat);
    let start = asc_rows(b, h, y as nat).len() as int;
    let n = row_length(b, y as i32);
    let r = asc_rows(b, h, (y + 1) as nat);
    assert(r == asc_rows(b, h, y as nat) + asc_row(b, y, h));
    assert forall|x: int| 0 <= x < n implies out[start + x] == asc_byte(
        #[trigger] buffer_char(b, Position { x: x as i32, y: y as i32 }).ch,
    ) by {
        assert(out[start + x] == r[start + x]);
        assert(r[start + x] == asc_row(b, y, h)[x]);
    }
    if n < b.size.width && y + 1 < h {
        assert(out[start + n] == r[start + n]);
        assert(out[start + n + 1] == r[start + n + 1]);
    }
}


/// A buffer without rows is saved as no text at all.
pub proof fn law_asc_no_rows(b: Buffer, out: Seq<u8>)
    requires
        out == asc_rows(b, line_count(b), line_count(b) as nat),
        line_count(b) == 0,
    ensures
        out.len() == 0,
{
}

} // verus!
