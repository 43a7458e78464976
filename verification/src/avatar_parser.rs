use vstd::prelude::*;

use crate::ansi_parser::{ansi_char_ok, ansi_seq_ok, ansi_step, initial_ansi_parser, AnsiParser, AnsiParserView};
use crate::buffer::Buffer;
use crate::caret::Caret;
use crate::geometry::Position;
use crate::parser_errors::ParserError;
use crate::rip_parser::ansi_prints;
use crate::terminal_ops::buffer_cleared;
use crate::terminal_state::initial_terminal_state;
use crate::text_attribute::{attribute_of_dos_byte, default_attribute, TextAttribute};

verus! {

/// What the Avatar parser reads next: text, the character and count of a
/// repetition, a command after `^V`, the position of a cursor move, or an
/// attribute byte.
#[derive(Clone, Copy, Debug, PartialEq, Eq, Structural)]
pub enum AvtReadState {
    Chars,
    RepeatChars,
    ReadCommand,
    MoveCursor,
    ReadColor,
}

/// Starts an Avatar command.
pub const AVT_CMD: char = '\x16';

/// Clears the screen and sets the default attribute.
pub const AVT_CLR: char = '\x0C';

/// Repeats the next character as many times as the character after it says.
pub const AVT_REP: char = '\x19';

/// A parser for Avatar (FSC-0025) terminal output. What it does not read as
/// Avatar, and the characters of a repetition, go to the ANSI parser it
/// holds, whether `use_ansi_parser` is set or not: in its text state that
/// parser resets the attribute at NUL, carries out LF, FF, CR, BS and DEL,
/// starts a sequence at ESC and prints every other character.
pub struct AvatarParser {
    pub ansi_parser: AnsiParser,
    pub use_ansi_parser: bool,
    pub avt_state: AvtReadState,
    pub avatar_state: i32,
    pub avt_repeat_char: char,
}

pub struct AvatarView {
    pub ansi: AnsiParserView,
    pub use_ansi_parser: bool,
    pub avt_state: AvtReadState,
    pub avatar_state: i32,
    pub avt_repeat_char: char,
}

impl View for AvatarParser {
    type V = AvatarView;

    open spec fn view(&self) -> AvatarView {
        AvatarView {
            ansi: self.ansi_parser@,
            use_ansi_parser: self.use_ansi_parser,
            avt_state: self.avt_state,
            avatar_state: self.avatar_state,
            avt_repeat_char: self.avt_repeat_char,
        }
    }
}

/// The error whose text is `msg`.
pub open spec fn is_description(res: Result<Option<String>, ParserError>, msg: Seq<char>) -> bool {
    res matches Err(ParserError::Description(s)) && s@ == msg
}

/// The caret after a form feed.
pub open spec fn ff_caret(c: Caret) -> Caret {
    Caret { pos: Position { x: 0, y: 0 }, is_visible: true, attribute: default_attribute(), ..c }
}

/// The caret moved to `(x, y)`.
pub open spec fn caret_at(c: Caret, x: int, y: int) -> Caret {
    Caret { pos: Position { x: x as i32, y: y as i32 }, ..c }
}

/// The number of the command character: its code point cut to 16 bits.
pub open spec fn command_code(ch: char) -> u16 {
    (ch as u32) as u16
}

/// The character `rc` `n` times.
pub open spec fn repeated(rc: char, n: nat) -> Seq<char> {
    Seq::new(n, |i: int| rc)
}

/// The repeated character printed `n` times by the ANSI parser, stopping at
/// the first error; the answers of the ANSI parser are dropped.
pub open spec fn repeat_prints(
    p0: AnsiParserView,
    b0: Buffer,
    c0: Caret,
    rc: char,
    n: nat,
    p1: AnsiParserView,
    b1: Buffer,
    c1: Caret,
    res: Result<Option<String>, ParserError>,
) -> bool {
    if n == 0 {
        p1 == p0 && b1 == b0 && c1 == c0 && res == Ok::<Option<String>, ParserError>(None)
    } else {
        exists|last: Result<Option<String>, ParserError>|
            #[trigger] ansi_prints(p0, b0, c0, repeated(rc, n), p1, b1, c1, last) && if last is Err {
                res == last
            } else {
                res == Ok::<Option<String>, ParserError>(None)
            }
    }
}

/// Whether a character moves the caret past the range of `i32`: the cursor
/// commands 3 to 6 move it by one.
pub open spec fn avatar_overflows(v: AvatarView, c: Caret, ch: char) -> bool {
    v.avt_state == AvtReadState::ReadCommand && {
        let code = command_code(ch);
        (code == 3 && c.pos.y == i32::MIN) || (code == 4 && c.pos.y == i32::MAX) || (code == 5
            && c.pos.x == i32::MIN) || (code == 6 && c.pos.x == i32::MAX)
    }
}

/// What goes to the ANSI parser can be read there: a character that
/// Avatar does not read, and the characters of a repetition.
pub open spec fn avatar_ok(v: AvatarView, b: Buffer, c: Caret, ch: char) -> bool {
    &&& (v.avt_state == AvtReadState::Chars && ch != AVT_CLR && ch != AVT_REP && ch != AVT_CMD) ==> ansi_char_ok(
        v.ansi,
        b,
        c,
        ch,
    )
    &&& (v.avt_state == AvtReadState::RepeatChars && v.avatar_state == 2) ==> ansi_seq_ok(
        v.ansi,
        b,
        c,
        repeated(v.avt_repeat_char, (ch as u32) as nat),
    )
}

/// What a character does. In text, `^L` clears the screen as a form feed,
/// `^Y` starts a repetition and `^V` a command; anything else goes to the
/// ANSI parser. Command 1 reads an attribute byte next, 2 sets blinking, 3
/// to 6 move the caret up, down, left and right (not left of 0 and not up
/// above 0 or right of column 79), 7 (clear to end of line) is refused and
/// keeps the command state, 8 reads a position next; other commands are
/// refused. A repetition reads its character, then its count, and prints
/// the character that many times; an error while printing ends it there. A
/// position is read as its column, then its row, each the code point.
pub open spec fn avatar_step(
    v0: AvatarView,
    b0: Buffer,
    c0: Caret,
    ch: char,
    v1: AvatarView,
    b1: Buffer,
    c1: Caret,
    res: Result<Option<String>, ParserError>,
) -> bool {
    let ok = res == Ok::<Option<String>, ParserError>(None);
    match v0.avt_state {
        AvtReadState::Chars => if ch == AVT_CLR {
            v1 == v0 && c1 == ff_caret(c0) && buffer_cleared(
                Buffer { terminal_state: initial_terminal_state(b0.terminal_state.size), ..b0 },
                b1,
            ) && ok
        } else if ch == AVT_REP {
            v1 == AvatarView { avt_state: AvtReadState::RepeatChars, avatar_state: 1, ..v0 } && b1 == b0
                && c1 == c0 && ok
        } else if ch == AVT_CMD {
            v1 == AvatarView { avt_state: AvtReadState::ReadCommand, ..v0 } && b1 == b0 && c1 == c0 && ok
        } else {
            v1 == AvatarView { ansi: v1.ansi, ..v0 } && ansi_step(v0.ansi, b0, c0, ch, v1.ansi, b1, c1, res)
        },
        AvtReadState::ReadCommand => {
            let code = command_code(ch);
            let to_chars = AvatarView { avt_state: AvtReadState::Chars, ..v0 };
            let (x, y) = (c0.pos.x as int, c0.pos.y as int);
            b1 == b0 && if code == 1 {
                v1 == AvatarView { avt_state: AvtReadState::ReadColor, ..v0 } && c1 == c0 && ok
            } else if code == 2 {
                v1 == to_chars && c1 == (Caret {
                    attribute: TextAttribute { blink: true, ..c0.attribute },
                    ..c0
                }) && ok
            } else if code == 3 {
                v1 == to_chars && c1 == caret_at(c0, x, vstd::math::max(0, y - 1)) && ok
            } else if code == 4 {
                v1 == to_chars && c1 == caret_at(c0, x, y + 1) && ok
            } else if code == 5 {
                v1 == to_chars && c1 == caret_at(c0, vstd::math::max(0, x - 1), y) && ok
            } else if code == 6 {
                v1 == to_chars && c1 == caret_at(c0, vstd::math::min(79, x + 1), y) && ok
            } else if code == 7 {
                v1 == v0 && c1 == c0 && is_description(res, "todo: avt cleareol"@)
            } else if code == 8 {
                v1 == AvatarView { avt_state: AvtReadState::MoveCursor, avatar_state: 1, ..v0 } && c1 == c0
                    && ok
            } else {
                v1 == to_chars && c1 == c0 && is_description(res, "unsupported avatar command"@)
            }
        },
        AvtReadState::RepeatChars => if v0.avatar_state == 1 {
            v1 == AvatarView { avt_repeat_char: ch, avatar_state: 2, ..v0 } && b1 == b0 && c1 == c0 && ok
        } else if v0.avatar_state == 2 {
            repeat_prints(v0.ansi, b0, c0, v0.avt_repeat_char, (ch as u32) as nat, v1.ansi, b1, c1, res)
                && if res is Err {
                v1 == AvatarView { ansi: v1.ansi, avatar_state: 3, ..v0 }
            } else {
                v1 == AvatarView { ansi: v1.ansi, avatar_state: 3, avt_state: AvtReadState::Chars, ..v0 }
            }
        } else {
            v1 == AvatarView { avt_state: AvtReadState::Chars, ..v0 } && b1 == b0 && c1 == c0
                && is_description(res, "error in reading avt state"@)
        },
        AvtReadState::ReadColor => v1 == AvatarView { avt_state: AvtReadState::Chars, ..v0 } && b1 == b0
            && c1 == (Caret { attribute: attribute_of_dos_byte((ch as u32) as u8), ..c0 }) && ok,
        AvtReadState::MoveCursor => if v0.avatar_state == 1 {
            v1 == AvatarView { avt_repeat_char: ch, avatar_state: 2, ..v0 } && b1 == b0 && c1 == c0 && ok
        } else if v0.avatar_state == 2 {
            v1 == AvatarView { avt_state: AvtReadState::Chars, ..v0 } && b1 == b0 && c1 == caret_at(
                c0,
                v0.avt_repeat_char as int,
                ch as int,
            ) && ok
        } else {
            v1 == v0 && b1 == b0 && c1 == c0 && is_description(res, "error in reading avt avt_gotoxy"@)
        },
    }
}

/// `ansi_prints` of a sequence with one more character after a successful
/// read of the sequence.
proof fn lemma_prints_push(
    p0: AnsiParserView,
    b0: Buffer,
    c0: Caret,
    s: Seq<char>,
    pa: AnsiParserView,
    ba: Buffer,
    ca: Caret,
    ra: Result<Option<String>, ParserError>,
    c: char,
    p1: AnsiParserView,
    b1: Buffer,
    c1: Caret,
    r: Result<Option<String>, ParserError>,
)
    requires
        s.len() >= 1,
        ansi_prints(p0, b0, c0, s, pa, ba, ca, ra),
        ra is Ok,
        ansi_step(pa, ba, ca, c, p1, b1, c1, r),
    ensures
        ansi_prints(p0, b0, c0, s.push(c), p1, b1, c1, r),
    decreases s.len(),
{
    let t = s.push(c);
    assert(t[0] == s[0]);
    if s.len() == 1 {
        assert(t.drop_first() =~= Seq::<char>::empty().push(c));
        assert(t.drop_first()[0] == c);
        assert(ansi_prints(pa, ba, ca, t.drop_first(), p1, b1, c1, r));
        assert(ansi_step(p0, b0, c0, t[0], pa, ba, ca, ra));
    } else {
        let (qa, qb, qc, qr) = choose|qa: AnsiParserView, qb: Buffer, qc: Caret, qr: Result<Option<String>, ParserError>|
            #[trigger] ansi_step(p0, b0, c0, s[0], qa, qb, qc, qr) && if qr is Err {
                pa == qa && ba == qb && ca == qc && ra == qr
            } else {
                ansi_prints(qa, qb, qc, s.drop_first(), pa, ba, ca, ra)
            };
        if qr is Err {
            assert(ra is Err);
        }
        lemma_prints_push(qa, qb, qc, s.drop_first(), pa, ba, ca, ra, c, p1, b1, c1, r);
        assert(t.drop_first() =~= s.drop_first().push(c));
        assert(ansi_prints(qa, qb, qc, t.drop_first(), p1, b1, c1, r));
        assert(ansi_step(p0, b0, c0, t[0], qa, qb, qc, qr));
    }
}

/// `ansi_prints` of a sequence that ended in an error holds of any longer
/// sequence that begins with it: reading stops at the error.
proof fn lemma_prints_err_extend(
    p0: AnsiParserView,
    b0: Buffer,
    c0: Caret,
    s: Seq<char>,
    u: Seq<char>,
    p1: AnsiParserView,
    b1: Buffer,
    c1: Caret,
    r: Result<Option<String>, ParserError>,
)
    requires
        s.len() >= 1,
        ansi_prints(p0, b0, c0, s, p1, b1, c1, r),
        r is Err,
    ensures
        ansi_prints(p0, b0, c0, s + u, p1, b1, c1, r),
    decreases s.len(),
{
    let t = s + u;
    assert(t[0] == s[0]);
    if u.len() == 0 {
        assert(t =~= s);
    } else if s.len() == 1 {
        assert(ansi_step(p0, b0, c0, t[0], p1, b1, c1, r));
    } else {
        let (qa, qb, qc, qr) = choose|qa: AnsiParserView, qb: Buffer, qc: Caret, qr: Result<Option<String>, ParserError>|
            #[trigger] ansi_step(p0, b0, c0, s[0], qa, qb, qc, qr) && if qr is Err {
                p1 == qa && b1 == qb && c1 == qc && r == qr
            } else {
                ansi_prints(qa, qb, qc, s.drop_first(), p1, b1, c1, r)
            };
        if qr is Ok {
            lemma_prints_err_extend(qa, qb, qc, s.drop_first(), u, p1, b1, c1, r);
            assert(t.drop_first() =~= s.drop_first() + u);
            assert(ansi_prints(qa, qb, qc, t.drop_first(), p1, b1, c1, r));
        }
        assert(ansi_step(p0, b0, c0, t[0], qa, qb, qc, qr));
    }
}

fn description(msg: &str) -> (res: Result<Option<String>, ParserError>)
    ensures
        is_description(res, msg@),
{
    Err(ParserError::Description(msg.to_owned()))
}

impl AvatarParser {
    pub fn new(use_ansi_parser: bool) -> (res: Self)
        ensures
            res@ == (AvatarView {
                ansi: initial_ansi_parser(),
                use_ansi_parser,
                avt_state: AvtReadState::Chars,
                avatar_state: 0,
                avt_repeat_char: ' ',
            }),
    {
        AvatarParser {
            ansi_parser: AnsiParser::new(),
            use_ansi_parser,
            avt_state: AvtReadState::Chars,
            avatar_state: 0,
            avt_repeat_char: ' ',
        }
    }

    /// Prints the repeated character `n` times; see `repeat_prints`.
    fn print_repeated(&mut self, buf: &mut Buffer, caret: &mut Caret, n: usize) -> (res: Result<Option<String>, ParserError>)
        requires
            old(buf).layers@.len() > 0,
            ansi_seq_ok(old(self).ansi_parser@, *old(buf), *old(caret), repeated(old(self).avt_repeat_char, n as nat)),
        ensures
            final(buf).layers@.len() == old(buf).layers@.len(),
            repeat_prints(
                old(self).ansi_parser@,
                *old(buf),
                *old(caret),
                old(self).avt_repeat_char,
                n as nat,
                final(self).ansi_parser@,
                *final(buf),
                *final(caret),
                res,
            ),
            final(self)@ == (AvatarView { ansi: final(self).ansi_parser@, ..old(self)@ }),
    {
        let rc = self.avt_repeat_char;
        let ghost mut last: Result<Option<String>, ParserError> = Ok(None);
        let mut i: usize = 0;
        while i < n
            invariant
                i <= n,
                old(buf).layers@.len() > 0,
                rc == old(self).avt_repeat_char,
                ansi_seq_ok(self.ansi_parser@, *buf, *caret, repeated(rc, (n - i) as nat)),
                buf.layers@.len() == old(buf).layers@.len(),
                self@ == (AvatarView { ansi: self.ansi_parser@, ..old(self)@ }),
                i == 0 ==> (self.ansi_parser@ == old(self).ansi_parser@ && *buf == *old(buf) && *caret
                    == *old(caret)),
                i > 0 ==> ansi_prints(
                    old(self).ansi_parser@,
                    *old(buf),
                    *old(caret),
                    repeated(rc, i as nat),
                    self.ansi_parser@,
                    *buf,
                    *caret,
                    last,
                ),
                last is Ok,
            decreases n - i,
        {
            let ghost (pa, ba, ca) = (self.ansi_parser@, *buf, *caret);
            assert(repeated(rc, (n - i) as nat)[0] == rc);
            let r = self.ansi_parser.print_char(buf, caret, rc);
            proof {
                if r is Ok {
                    assert(ansi_step(pa, ba, ca, repeated(rc, (n - i) as nat)[0], self.ansi_parser@, *buf, *caret, r));
                    assert(repeated(rc, (n - i) as nat).drop_first() =~= repeated(rc, (n - i - 1) as nat));
                }
            }
            proof {
                let s = repeated(rc, i as nat);
                let t = repeated(rc, (i + 1) as nat);
                if i == 0 {
                    assert(t.len() == 1 && t[0] == rc);
                    assert(ansi_prints(old(self).ansi_parser@, *old(buf), *old(caret), t, self.ansi_parser@, *buf, *caret, r));
                } else {
                    lemma_prints_push(
                        old(self).ansi_parser@,
                        *old(buf),
                        *old(caret),
                        s,
                        pa,
                        ba,
                        ca,
                        last,
                        rc,
                        self.ansi_parser@,
                        *buf,
                        *caret,
                        r,
                    );
                    assert(s.push(rc) =~= t);
                }
                if r is Err {
                    let u = repeated(rc, (n - i - 1) as nat);
                    lemma_prints_err_extend(
                        old(self).ansi_parser@,
                        *old(buf),
                        *old(caret),
                        t,
                        u,
                        self.ansi_parser@,
                        *buf,
                        *caret,
                        r,
                    );
                    assert(t + u =~= repeated(rc, n as nat));
                }
                last = r;
            }
            if r.is_err() {
                return r;
            }
            i += 1;
        }
        proof {
            if n > 0 {
                assert(repeated(rc, i as nat) =~= repeated(rc, n as nat));
            }
        }
        Ok(None)
    }

    /// Reads one character; see `avatar_step`.
    pub fn print_char(&mut self, buf: &mut Buffer, caret: &mut Caret, ch: char) -> (res: Result<Option<String>, ParserError>)
        requires
            old(buf).layers@.len() > 0,
            !avatar_overflows(old(self)@, *old(caret), ch),
            avatar_ok(old(self)@, *old(buf), *old(caret), ch),
        ensures
            final(buf).layers@.len() == old(buf).layers@.len(),
            avatar_step(old(self)@, *old(buf), *old(caret), ch, final(self)@, *final(buf), *final(caret), res),
    {
        match self.avt_state {
            AvtReadState::Chars => {
                if ch == AVT_CLR {
                    caret.ff(buf);
                    assert(*caret == ff_caret(*old(caret)));
                    assert(self@ == old(self)@);
                    assert(avatar_step(old(self)@, *old(buf), *old(caret), ch, self@, *buf, *caret, Ok(None)));
                } else if ch == AVT_REP {
                    self.avt_state = AvtReadState::RepeatChars;
                    self.avatar_state = 1;
                } else if ch == AVT_CMD {
                    self.avt_state = AvtReadState::ReadCommand;
                } else {
                    return self.ansi_parser.print_char(buf, caret, ch);
                }
                Ok(None)
            },
            AvtReadState::ReadCommand => {
                let code: u16 = (ch as u32) as u16;
                if code == 1 {
                    self.avt_state = AvtReadState::ReadColor;
                    return Ok(None);
                } else if code == 2 {
                    caret.attribute.blink = true;
                } else if code == 3 {
                    caret.pos.y = if caret.pos.y - 1 > 0 { caret.pos.y - 1 } else { 0 };
                } else if code == 4 {
                    caret.pos.y = caret.pos.y + 1;
                } else if code == 5 {
                    caret.pos.x = if caret.pos.x - 1 > 0 { caret.pos.x - 1 } else { 0 };
                } else if code == 6 {
                    caret.pos.x = if caret.pos.x + 1 < 79 { caret.pos.x + 1 } else { 79 };
                } else if code == 7 {
                    return description("todo: avt cleareol");
                } else if code == 8 {
                    self.avt_state = AvtReadState::MoveCursor;
                    self.avatar_state = 1;
                    return Ok(None);
                } else {
                    self.avt_state = AvtReadState::Chars;
                    return description("unsupported avatar command");
                }
                self.avt_state = AvtReadState::Chars;
                Ok(None)
            },
            AvtReadState::RepeatChars => {
                if self.avatar_state == 1 {
                    self.avt_repeat_char = ch;
                    self.avatar_state = 2;
                    Ok(None)
                } else if self.avatar_state == 2 {
                    self.avatar_state = 3;
                    let r = self.print_repeated(buf, caret, (ch as u32) as usize);
                    if r.is_err() {
                        return r;
                    }
                    self.avt_state = AvtReadState::Chars;
                    Ok(None)
                } else {
                    self.avt_state = AvtReadState::Chars;
                    description("error in reading avt state")
                }
            },
            AvtReadState::ReadColor => {
                caret.attribute = TextAttribute::from_u8((ch as u32) as u8, buf.buffer_type);
                self.avt_state = AvtReadState::Chars;
                Ok(None)
            },
            AvtReadState::MoveCursor => {
                if self.avatar_state == 1 {
                    self.avt_repeat_char = ch;
                    self.avatar_state = 2;
                    Ok(None)
                } else if self.avatar_state == 2 {
                    caret.pos.x = (self.avt_repeat_char as u32) as i32;
                    caret.pos.y = (ch as u32) as i32;
                    self.avt_state = AvtReadState::Chars;
                    Ok(None)
                } else {
                    description("error in reading avt avt_gotoxy")
                }
            },
        }
    }
}

} // verus!
