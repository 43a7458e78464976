use vstd::prelude::*;

use crate::attributed_char::{is_transparent_char, invisible_char, AttributedChar};

verus! {

/// One row of character cells.
#[derive(Clone, Debug, Default)]
pub struct Line {
    pub chars: Vec<AttributedChar>,
}

/// The length of a row up to and including its last cell that is not
/// transparent.
pub open spec fn line_length(chars: Seq<AttributedChar>) -> nat
    decreases chars.len(),
{
    if chars.len() == 0 {
        0
    } else if !is_transparent_char(chars.last()) {
        chars.len()
    } else {
        line_length(chars.drop_last())
    }
}

/// `n` invisible cells.
pub open spec fn invisible_cells(n: nat) -> Seq<AttributedChar> {
    Seq::new(n, |i: int| invisible_char())
}

/// The cells after writing `c` at `index`: a shorter row is padded with
/// invisible cells first.
pub open spec fn cells_with_char(chars: Seq<AttributedChar>, index: int, c: AttributedChar) -> Seq<AttributedChar> {
    if index < chars.len() {
        chars.update(index, c)
    } else {
        (chars + invisible_cells((index - chars.len()) as nat)).push(c)
    }
}

/// The cells after inserting `c` at `index`: a shorter row is padded with
/// invisible cells first.
pub open spec fn cells_inserting_char(chars: Seq<AttributedChar>, index: int, c: AttributedChar) -> Seq<AttributedChar> {
    if index <= chars.len() {
        chars.insert(index, c)
    } else {
        (chars + invisible_cells((index - chars.len()) as nat)).push(c)
    }
}

pub proof fn lemma_line_length_bound(chars: Seq<AttributedChar>)
    ensures
        line_length(chars) <= chars.len(),
        forall|i: int| line_length(chars) <= i < chars.len() ==> is_transparent_char(#[trigger] chars[i]),
        line_length(chars) > 0 ==> !is_transparent_char(chars[line_length(chars) - 1]),
    decreases chars.len(),
{
    if chars.len() > 0 && is_transparent_char(chars.last()) {
        lemma_line_length_bound(chars.drop_last());
        assert forall|i: int| line_length(chars) <= i < chars.len() implies is_transparent_char(#[trigger] chars[i]) by {
            if i < chars.len() - 1 {
                assert(chars[i] == chars.drop_last()[i]);
            }
        }
        if line_length(chars) > 0 {
            assert(chars[line_length(chars) - 1] == chars.drop_last()[line_length(chars) - 1]);
        }
    }
}

/// Appends invisible cells until `chars` holds `len` cells.
pub(crate) fn pad_with_invisible(chars: &mut Vec<AttributedChar>, len: usize)
    ensures
        old(chars)@.len() >= len ==> final(chars)@ == old(chars)@,
        old(chars)@.len() < len ==> final(chars)@ == old(chars)@ + invisible_cells((len - old(chars)@.len()) as nat),
{
    let ghost start = chars@;
    if chars.len() >= len {
        return;
    }
    while chars.len() < len
        invariant
            start.len() <= chars@.len() <= len,
            chars@ == start + invisible_cells((chars@.len() - start.len()) as nat),
        decreases len - chars@.len(),
    {
        let ghost before = chars@;
        chars.push(AttributedChar::invisible());
        assert(chars@ =~= start + invisible_cells((chars@.len() - start.len()) as nat));
    }
}

impl Line {
    pub fn new() -> (res: Self)
        ensures
            res.chars@ == Seq::<AttributedChar>::empty(),
    {
        Line::with_capacity(80)
    }

    pub fn with_capacity(capacity: usize) -> (res: Self)
        ensures
            res.chars@ == Seq::<AttributedChar>::empty(),
    {
        let chars = Vec::with_capacity(capacity);
        assert(chars@ =~= Seq::<AttributedChar>::empty());
        Line { chars }
    }

    /// A row of `width` invisible cells.
    pub fn create(width: usize) -> (res: Self)
        ensures
            res.chars@ == invisible_cells(width as nat),
    {
        let mut chars = Vec::new();
        pad_with_invisible(&mut chars, width);
        assert(chars@ =~= invisible_cells(width as nat));
        Line { chars }
    }

    pub fn get_line_length(&self) -> (res: usize)
        ensures
            res == line_length(self.chars@),
    {
        let mut idx = self.chars.len();
        assert(self.chars@.subrange(0, idx as int) =~= self.chars@);
        while idx > 0
            invariant
                idx <= self.chars@.len(),
                line_length(self.chars@) == line_length(self.chars@.subrange(0, idx as int)),
            decreases idx,
        {
            let ghost prefix = self.chars@.subrange(0, idx as int);
            if !self.chars[idx - 1].is_transparent() {
                return idx;
            }
            assert(prefix.drop_last() =~= self.chars@.subrange(0, idx - 1));
            idx -= 1;
        }
        assert(self.chars@.subrange(0, 0) =~= Seq::<AttributedChar>::empty());
        0
    }

    /// A copy of this row.
    pub fn duplicate(&self) -> (res: Self)
        ensures
            res.chars@ == self.chars@,
    {
        let mut chars: Vec<AttributedChar> = Vec::new();
        let mut i: usize = 0;
        while i < self.chars.len()
            invariant
                i <= self.chars@.len(),
                chars@ == self.chars@.subrange(0, i as int),
            decreases self.chars@.len() - i,
        {
            chars.push(self.chars[i]);
            i += 1;
            assert(chars@ =~= self.chars@.subrange(0, i as int));
        }
        assert(chars@ =~= self.chars@);
        Line { chars }
    }

    /// Inserts a cell at `index`, padding a shorter row with invisible cells.
    pub fn insert_char(&mut self, index: usize, char_opt: AttributedChar)
        requires
            index < usize::MAX,
        ensures
            final(self).chars@ == cells_inserting_char(old(self).chars@, index as int, char_opt),
    {
        let ghost start = self.chars@;
        if index > self.chars.len() {
            pad_with_invisible(&mut self.chars, index);
            self.chars.push(char_opt);
            assert(self.chars@ =~= cells_inserting_char(start, index as int, char_opt));
        } else {
            self.chars.insert(index, char_opt);
        }
    }

    /// Writes a cell at `index`, padding a shorter row with invisible cells.
    pub fn set_char(&mut self, index: usize, char: AttributedChar)
        requires
            index < usize::MAX,
        ensures
            final(self).chars@ == cells_with_char(old(self).chars@, index as int, char),
    {
        let ghost start = self.chars@;
        if index >= self.chars.len() {
            pad_with_invisible(&mut self.chars, index);
            self.chars.push(char);
            assert(self.chars@ =~= cells_with_char(start, index as int, char));
        } else {
            self.chars.set(index, char);
        }
    }
}

} // verus!
