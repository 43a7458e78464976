use vstd::prelude::*;

use crate::ansi_parser::{ansi_char_ok, ansi_seq_ok, ansi_step, initial_ansi_parser, AnsiParser, AnsiParserView, AnsiState};
use crate::attributed_char::default_char;
use crate::buffer::{all_cells, same_except_cells, upper_left, Buffer};
use crate::caret::Caret;
use crate::geometry::Rectangle;
use crate::layer::sat_i32;
use crate::parser_errors::ParserError;
use crate::terminal_ops::{buffer_cleared, fill_row};

verus! {

/// Where the RIP parser stands: in text, after a `!` that may start a
/// command, or reading the command after `!|`.
#[derive(Clone, Copy, Debug, PartialEq, Eq, Structural)]
pub enum RipState {
    Default,
    GotRipStart,
    ReadCommand,
}

/// How drawing combines with what is drawn already.
#[derive(Clone, Copy, Debug, PartialEq, Eq, Structural)]
pub enum RipWriteMode {
    Normal,
    Xor,
}

/// A parser for RIPscrip terminal output: ANSI text in which `!|` starts a
/// graphics command.
pub struct RipParser {
    pub ansi_parser: AnsiParser,
    pub enable_rip: bool,
    pub state: RipState,
    pub text_window: Option<Rectangle>,
    pub viewport: Option<Rectangle>,
    pub current_write_mode: RipWriteMode,
}

/// The command letters that this parser knows by name but does not carry
/// out: the drawing, windowing and query commands.
pub open spec fn is_drawing_command(ch: char) -> bool {
    ch == 'w' || ch == 'v' || ch == 'g' || ch == 'c' || ch == 'Q' || ch == 'a' || ch == 'W' || ch == 'm' || ch
        == 'T' || ch == '@' || ch == 'Y' || ch == 'X' || ch == 'L' || ch == 'R' || ch == 'B' || ch == 'C' || ch
        == 'O' || ch == 'o' || ch == 'A' || ch == 'V' || ch == 'I' || ch == 'i' || ch == 'Z' || ch == 'P' || ch
        == 'p' || ch == 'l' || ch == 'F' || ch == '=' || ch == 'S' || ch == 's' || ch == 'M' || ch == 'K' || ch
        == 't' || ch == 'U' || ch == 'D' || ch == '\x1B' || ch == 'G'
}

/// The answer to a RIP query: the terminal's name.
pub open spec fn rip_terminal_id() -> Seq<char> {
    seq!['R', 'I', 'P', 'S', 'C', 'R', 'I', 'P', '0', '1', '5', '4', '0', '\0']
}

/// The characters `chars` read one after the other by the ANSI parser,
/// stopping at the first error: the parser, buffer and caret go from `p0`,
/// `b0`, `c0` to `p1`, `b1`, `c1`, and `res` is the last answer or the
/// error.
pub open spec fn ansi_prints(
    p0: AnsiParserView,
    b0: Buffer,
    c0: Caret,
    chars: Seq<char>,
    p1: AnsiParserView,
    b1: Buffer,
    c1: Caret,
    res: Result<Option<String>, ParserError>,
) -> bool
    decreases chars.len(),
{
    if chars.len() <= 1 {
        chars.len() == 1 && ansi_step(p0, b0, c0, chars[0], p1, b1, c1, res)
    } else {
        exists|pa: AnsiParserView, ba: Buffer, ca: Caret, ra: Result<Option<String>, ParserError>|
            #[trigger] ansi_step(p0, b0, c0, chars[0], pa, ba, ca, ra) && if ra is Err {
                p1 == pa && b1 == ba && c1 == ca && res == ra
            } else {
                ansi_prints(pa, ba, ca, chars.drop_first(), p1, b1, c1, res)
            }
    }
}

/// What a character does. After `!|` the command letter is read: `*` drops
/// the text window and viewport, `e` erases the (unkept) view, `E` clears
/// the buffer, `H` moves the caret home, `>` clears the rest of the caret's
/// row, `#` ends the commands; any other letter is printed after `!|` as
/// text. After `!` a `|` starts a command and anything else is printed after
/// the `!`. In text, with RIP on, `!` may start a command; a RIP query
/// (`ESC[!`, `ESC[0!`) is answered with the terminal's name and `ESC[1!`
/// and `ESC[2!` switch RIP off and on; everything else goes to the ANSI
/// parser.
pub open spec fn rip_step(
    r0: RipParser,
    b0: Buffer,
    c0: Caret,
    ch: char,
    r1: RipParser,
    b1: Buffer,
    c1: Caret,
    res: Result<Option<String>, ParserError>,
) -> bool {
    let ok = res == Ok::<Option<String>, ParserError>(None);
    let p0 = r0.ansi_parser@;
    let p1 = r1.ansi_parser@;
    match r0.state {
        RipState::ReadCommand => {
            let done = RipParser { state: RipState::Default, ansi_parser: r1.ansi_parser, ..r0 };
            if ch == '*' {
                ok && b1 == b0 && c1 == c0 && p1 == p0 && r1 == (RipParser { text_window: None, viewport: None, ..done })
            } else if ch == 'e' || ch == '#' {
                ok && b1 == b0 && c1 == c0 && p1 == p0 && r1 == done
            } else if ch == 'E' {
                ok && buffer_cleared(b0, b1) && c1 == c0 && p1 == p0 && r1 == done
            } else if ch == 'H' {
                ok && b1 == b0 && c1 == (Caret { pos: upper_left(b0), ..c0 }) && p1 == p0 && r1 == done
            } else if ch == '>' {
                &&& ok && c1 == c0 && p1 == p0 && r1 == done
                &&& same_except_cells(b0, b1)
                &&& all_cells(b1) == all_cells(b0).update(
                    0,
                    fill_row(b0.layers@[0], all_cells(b0)[0], c0.pos.y as int, c0.pos.x as int, sat_i32(b0.size.width as int), default_char()),
                )
            } else {
                r1 == done && ansi_prints(p0, b0, c0, Seq::<char>::empty().push('!').push('|').push(ch), p1, b1, c1, res)
            }
        },
        RipState::GotRipStart => {
            if ch == '|' {
                ok && b1 == b0 && c1 == c0 && p1 == p0 && r1 == (RipParser { state: RipState::ReadCommand, ..r0 })
            } else {
                r1 == (RipParser { state: RipState::Default, ansi_parser: r1.ansi_parser, ..r0 })
                    && ansi_prints(p0, b0, c0, Seq::<char>::empty().push('!').push(ch), p1, b1, c1, res)
            }
        },
        RipState::Default => {
            if p0.state == AnsiState::ReadSequence && ch == '!' {
                let nums = p0.parsed_numbers;
                let answered = AnsiParserView { state: AnsiState::Default, ..p0 };
                &&& b1 == b0 && c1 == c0 && p1 == answered
                &&& if nums.len() == 0 || nums[0] == 0 {
                    r1 == (RipParser { ansi_parser: r1.ansi_parser, ..r0 }) && (res matches Ok(Some(s)) && s@ == rip_terminal_id())
                } else if nums[0] == 1 || nums[0] == 2 {
                    r1 == (RipParser { ansi_parser: r1.ansi_parser, enable_rip: nums[0] == 2, ..r0 }) && ok
                } else {
                    r1 == (RipParser { ansi_parser: r1.ansi_parser, ..r0 }) && res == Err::<Option<String>, ParserError>(
                        ParserError::InvalidRipAnsiQuery(nums[0]),
                    )
                }
            } else if p0.state == AnsiState::Default && r0.enable_rip && ch == '!' {
                ok && b1 == b0 && c1 == c0 && p1 == p0 && r1 == (RipParser { state: RipState::GotRipStart, ..r0 })
            } else {
                r1 == (RipParser { ansi_parser: r1.ansi_parser, ..r0 }) && ansi_step(p0, b0, c0, ch, p1, b1, c1, res)
            }
        },
    }
}

/// A character can be read: after `!|` a drawing command is not (its
/// drawing is not carried out), and what goes to the ANSI parser must be
/// readable there (`ansi_char_ok`, `ansi_seq_ok`).
pub open spec fn rip_ok(r: RipParser, b: Buffer, c: Caret, ch: char) -> bool {
    let p = r.ansi_parser@;
    match r.state {
        RipState::ReadCommand => !is_drawing_command(ch) && (ch == '*' || ch == 'e' || ch == 'E' || ch == 'H' || ch
            == '>' || ch == '#' || ansi_seq_ok(p, b, c, Seq::<char>::empty().push('!').push('|').push(ch))),
        RipState::GotRipStart => ch == '|' || ansi_seq_ok(p, b, c, Seq::<char>::empty().push('!').push(ch)),
        RipState::Default => (p.state == AnsiState::ReadSequence && ch == '!') || (p.state == AnsiState::Default
            && r.enable_rip && ch == '!') || ansi_char_ok(p, b, c, ch),
    }
}

impl RipParser {
    pub fn new() -> (res: Self)
        ensures
            res.ansi_parser@ == initial_ansi_parser(),
            res.enable_rip,
            res.state == RipState::Default,
            res.text_window is None,
            res.viewport is None,
            res.current_write_mode == RipWriteMode::Normal,
    {
        RipParser {
            ansi_parser: AnsiParser::new(),
            enable_rip: true,
            state: RipState::Default,
            text_window: None,
            viewport: None,
            current_write_mode: RipWriteMode::Normal,
        }
    }

    /// Clears the viewport; the viewport's graphics are not kept, so there
    /// is nothing to clear.
    pub fn clear(&mut self)
        ensures
            *final(self) == *old(self),
    {
    }

    /// Reads `first` and then `ch` with the ANSI parser, stopping at an
    /// error.
    fn print_two(&mut self, buf: &mut Buffer, caret: &mut Caret, first: char, ch: char) -> (res: Result<
        Option<String>,
        ParserError,
    >)
        requires
            old(buf).layers@.len() > 0,
            ansi_seq_ok(old(self).ansi_parser@, *old(buf), *old(caret), Seq::<char>::empty().push(first).push(ch)),
        ensures
            final(buf).layers@.len() == old(buf).layers@.len(),
            *final(self) == (RipParser { ansi_parser: final(self).ansi_parser, ..*old(self) }),
            ansi_prints(old(self).ansi_parser@, *old(buf), *old(caret), Seq::<char>::empty().push(first).push(ch), final(self).ansi_parser@, *final(buf), *final(caret), res),
    {
        assert(Seq::<char>::empty().push(first).push(ch)[0] == first);
        let r = self.ansi_parser.print_char(buf, caret, first);
        let ghost (pa, ba, ca) = (self.ansi_parser@, *buf, *caret);
        proof {
            assert(Seq::<char>::empty().push(first).push(ch).drop_first() =~= Seq::<char>::empty().push(ch));
            assert(Seq::<char>::empty().push(first).push(ch)[0] == first);
            assert(ansi_step(old(self).ansi_parser@, *old(buf), *old(caret), first, pa, ba, ca, r));
        }
        if r.is_err() {
            return r;
        }
        proof {
            assert(ansi_seq_ok(pa, ba, ca, Seq::<char>::empty().push(ch)));
            assert(Seq::<char>::empty().push(ch)[0] == ch);
        }
        let r2 = self.ansi_parser.print_char(buf, caret, ch);
        proof {
            assert(Seq::<char>::empty().push(ch)[0] == ch);
            assert(ansi_prints(pa, ba, ca, Seq::<char>::empty().push(ch), self.ansi_parser@, *buf, *caret, r2));
            assert(ansi_prints(
                old(self).ansi_parser@,
                *old(buf),
                *old(caret),
                Seq::<char>::empty().push(first).push(ch),
                self.ansi_parser@,
                *buf,
                *caret,
                r2,
            ));
        }
        r2
    }

    /// Reads one character; see `rip_step`.
    pub fn print_char(&mut self, buf: &mut Buffer, caret: &mut Caret, ch: char) -> (res: Result<Option<String>, ParserError>)
        requires
            old(buf).layers@.len() > 0,
            rip_ok(*old(self), *old(buf), *old(caret), ch),
        ensures
            final(buf).layers@.len() == old(buf).layers@.len(),
            rip_step(*old(self), *old(buf), *old(caret), ch, *final(self), *final(buf), *final(caret), res),
    {
        match self.state {
            RipState::ReadCommand => {
                self.state = RipState::Default;
                if ch == '*' {
                    self.text_window = None;
                    self.viewport = None;
                    Ok(None)
                } else if ch == 'e' {
                    self.clear();
                    Ok(None)
                } else if ch == 'E' {
                    buf.clear();
                    Ok(None)
                } else if ch == 'H' {
                    caret.home(buf);
                    Ok(None)
                } else if ch == '>' {
                    let pos = caret.pos;
                    buf.clear_line_end(&pos);
                    Ok(None)
                } else if ch == '#' {
                    Ok(None)
                } else {
                    let ghost (p0, b0, c0) = (self.ansi_parser@, *buf, *caret);
                    let ghost three = Seq::<char>::empty().push('!').push('|').push(ch);
                    assert(three[0] == '!');
                    let r = self.ansi_parser.print_char(buf, caret, '!');
                    let ghost (pa, ba, ca) = (self.ansi_parser@, *buf, *caret);
                    proof {
                        assert(three.drop_first() =~= Seq::<char>::empty().push('|').push(ch));
                        assert(three[0] == '!');
                        assert(ansi_step(p0, b0, c0, '!', pa, ba, ca, r));
                    }
                    if r.is_err() {
                        return r;
                    }
                    proof {
                        assert(ansi_seq_ok(pa, ba, ca, three.drop_first()));
                    }
                    let r2 = self.print_two(buf, caret, '|', ch);
                    proof {
                        assert(ansi_prints(p0, b0, c0, three, self.ansi_parser@, *buf, *caret, r2));
                    }
                    r2
                }
            },
            RipState::GotRipStart => {
                if ch != '|' {
                    self.state = RipState::Default;
                    self.print_two(buf, caret, '!', ch)
                } else {
                    self.state = RipState::ReadCommand;
                    Ok(None)
                }
            },
            RipState::Default => {
                if self.ansi_parser.state == AnsiState::ReadSequence && ch == '!' {
                    self.ansi_parser.state = AnsiState::Default;
                    if self.ansi_parser.parsed_numbers.len() == 0 || self.ansi_parser.parsed_numbers[0] == 0 {
                        let id = "RIPSCRIP01540\0";
                        proof {
                            reveal_strlit("RIPSCRIP01540\0");
                            assert(id@ =~= rip_terminal_id());
                        }
                        return Ok(Some(id.to_owned()));
                    }
                    let n = self.ansi_parser.parsed_numbers[0];
                    if n == 1 {
                        self.enable_rip = false;
                        Ok(None)
                    } else if n == 2 {
                        self.enable_rip = true;
                        Ok(None)
                    } else {
                        Err(ParserError::InvalidRipAnsiQuery(n))
                    }
                } else if self.ansi_parser.state == AnsiState::Default && self.enable_rip && ch == '!' {
                    self.state = RipState::GotRipStart;
                    Ok(None)
                } else {
                    self.ansi_parser.print_char(buf, caret, ch)
                }
            },
        }
    }
}

} // verus!
