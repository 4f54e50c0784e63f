//! The bitmap-font parser: reads the 96 printable-character glyphs of a
//! 16x18 terminal font out of BDF text.  Each glyph row is four hex
//! digits; each digit contributes four pixel bits.

use vstd::prelude::*;

verus! {

/// Glyph width in pixels.
pub const FONT_WIDTH: usize = 16;

/// Glyph height in pixels.
pub const FONT_HEIGHT: usize = 18;

/// One glyph: its encoding and its pixel rows, one byte per pixel,
/// each 0 or 1.
pub struct Terminus16x18Glyph {
    /// The character code, 32 to 127; 0 for a slot the font left empty.
    pub codepoint: u8,
    /// `FONT_HEIGHT` rows of `FONT_WIDTH` pixel bits.
    pub bitmap: Vec<Vec<u8>>,
}

/// The font: one glyph slot per printable character, indexed by
/// codepoint minus 32.
pub struct Terminus16x18Font {
    pub glyphs: Vec<Terminus16x18Glyph>,
}

/// A glyph has full rows of pixel bits and a codepoint that is either
/// empty or printable.
pub open spec fn glyph_wf(g: Terminus16x18Glyph) -> bool {
    &&& g.bitmap@.len() == FONT_HEIGHT
    &&& forall|r: int| 0 <= r < FONT_HEIGHT ==> (#[trigger] g.bitmap@[r])@.len() == FONT_WIDTH
    &&& forall|r: int, c: int|
        0 <= r < FONT_HEIGHT && 0 <= c < FONT_WIDTH ==> (#[trigger] g.bitmap@[r]@[c]) <= 1
    &&& (g.codepoint == 0 || (32 <= g.codepoint < 128))
}

impl Terminus16x18Font {
    /// Every printable character has a well-formed slot, under its own
    /// codepoint or left empty.
    pub open spec fn wf(self) -> bool {
        &&& self.glyphs@.len() == 96
        &&& forall|i: int| 0 <= i < 96 ==> glyph_wf(#[trigger] self.glyphs@[i])
        &&& forall|i: int|
            0 <= i < 96 ==> ((#[trigger] self.glyphs@[i]).codepoint == 0
                || self.glyphs@[i].codepoint == i + 32)
    }

    /// The glyph slot of a printable character.
    pub fn get_glyph(&self, codepoint: u8) -> (r: &Terminus16x18Glyph)
        requires
            self.wf(),
            32 <= codepoint < 128,
        ensures
            r == &self.glyphs@[codepoint - 32],
    {
        &self.glyphs[(codepoint - 32) as usize]
    }
}

/// Whether `t` holds exactly the bytes of `kw`.
fn bytes_eq(t: &Vec<u8>, kw: &Vec<u8>) -> (r: bool)
    ensures
        r == (t@ == kw@),
{
    if t.len() != kw.len() {
        proof {
            assert(t@ != kw@);
        }
        return false;
    }
    let mut i: usize = 0;
    while i < t.len()
        invariant
            i <= t@.len(),
            t@.len() == kw@.len(),
            forall|j: int| 0 <= j < i ==> t@[j] == kw@[j],
        decreases t@.len() - i,
    {
        if t[i] != kw[i] {
            proof {
                assert(t@ != kw@);
            }
            return false;
        }
        i = i + 1;
    }
    proof {
        assert(t@ =~= kw@);
    }
    true
}

/// Every part is a contiguous run of `whole`'s bytes.
pub open spec fn parts_of(parts: Seq<Vec<u8>>, whole: Seq<u8>) -> bool {
    forall|k: int|
        0 <= k < parts.len() ==> exists|a: int, b: int|
            0 <= a <= b <= whole.len() && (#[trigger] parts[k])@ == whole.subrange(a, b)
}

proof fn lemma_parts_push(parts: Seq<Vec<u8>>, piece: Vec<u8>, whole: Seq<u8>, a: int, b: int)
    requires
        parts_of(parts, whole),
        0 <= a <= b <= whole.len(),
        piece@ == whole.subrange(a, b),
    ensures
        parts_of(parts.push(piece), whole),
{
    assert forall|k: int| 0 <= k < parts.push(piece).len() implies exists|a2: int, b2: int|
        0 <= a2 <= b2 <= whole.len() && (#[trigger] parts.push(piece)[k])@ == whole.subrange(
            a2,
            b2,
        ) by {
        if k < parts.len() {
            assert(parts.push(piece)[k] == parts[k]);
        } else {
            assert(parts.push(piece)[k] == piece);
            assert(parts.push(piece)[k]@ == whole.subrange(a, b));
        }
    };
}

/// Splits text into lines at each newline byte.  Every line is a run
/// of the text's own bytes.
fn split_lines(text: &Vec<u8>) -> (lines: Vec<Vec<u8>>)
    ensures
        parts_of(lines@, text@),
{
    let mut lines: Vec<Vec<u8>> = Vec::new();
    let mut cur: Vec<u8> = Vec::new();
    let ghost mut start: int = 0;
    let mut i: usize = 0;
    proof {
        assert(cur@ =~= text@.subrange(0, 0));
    }
    while i < text.len()
        invariant
            i <= text@.len(),
            0 <= start <= i,
            cur@ == text@.subrange(start, i as int),
            parts_of(lines@, text@),
        decreases text@.len() - i,
    {
        let b = text[i];
        // newline
        if b == 10 {
            proof {
                lemma_parts_push(lines@, cur, text@, start, i as int);
            }
            lines.push(cur);
            cur = Vec::new();
            proof {
                start = i + 1;
                assert(cur@ =~= text@.subrange(start, i as int + 1));
            }
        } else {
            cur.push(b);
            proof {
                assert(cur@ =~= text@.subrange(start, i as int + 1));
            }
        }
        i = i + 1;
    }
    // a trailing newline ends the last line rather than opening an
    // empty one
    if cur.len() > 0 {
        proof {
            lemma_parts_push(lines@, cur, text@, start, text@.len() as int);
        }
        lines.push(cur);
    }
    lines
}

/// Splits a line into its space-separated tokens (empty tokens
/// included, as the splitting the source text receives produces them).
/// Every token is a run of the line's own bytes.
fn split_tokens(line: &Vec<u8>) -> (tokens: Vec<Vec<u8>>)
    ensures
        parts_of(tokens@, line@),
{
    let mut tokens: Vec<Vec<u8>> = Vec::new();
    let mut cur: Vec<u8> = Vec::new();
    let ghost mut start: int = 0;
    let mut i: usize = 0;
    proof {
        assert(cur@ =~= line@.subrange(0, 0));
    }
    while i < line.len()
        invariant
            i <= line@.len(),
            0 <= start <= i,
            cur@ == line@.subrange(start, i as int),
            parts_of(tokens@, line@),
        decreases line@.len() - i,
    {
        let b = line[i];
        // space
        if b == 32 {
            proof {
                lemma_parts_push(tokens@, cur, line@, start, i as int);
            }
            tokens.push(cur);
            cur = Vec::new();
            proof {
                start = i + 1;
                assert(cur@ =~= line@.subrange(start, i as int + 1));
            }
        } else {
            cur.push(b);
            proof {
                assert(cur@ =~= line@.subrange(start, i as int + 1));
            }
        }
        i = i + 1;
    }
    proof {
        lemma_parts_push(tokens@, cur, line@, start, line@.len() as int);
    }
    tokens.push(cur);
    tokens
}

/// Value accumulated by reading the decimal digits of `t` from
/// position `i` onwards; nothing if a non-digit appears or the value
/// leaves a byte's range.
pub open spec fn dec_fold(t: Seq<u8>, i: int, value: int) -> Option<int>
    decreases t.len() - i when 0 <= i <= t.len()
{
    if i >= t.len() {
        Some(value)
    } else if t[i] < 48 || t[i] > 57 {
        None
    } else if value > 25 || value * 10 + (t[i] - 48) > 255 {
        None
    } else {
        dec_fold(t, i + 1, value * 10 + (t[i] - 48))
    }
}

/// The value of `t` read as a decimal numeral fitting a byte.
pub open spec fn dec_value(t: Seq<u8>) -> Option<int> {
    if t.len() == 0 {
        None
    } else {
        dec_fold(t, 0, 0)
    }
}

/// Parses a decimal number that fits a byte.
fn parse_u8(t: &Vec<u8>) -> (r: Option<u8>)
    ensures
        r matches Some(v) ==> dec_value(t@) == Some(v as int),
        r is None ==> dec_value(t@) is None,
{
    if t.len() == 0 {
        return None;
    }
    let mut value: u32 = 0;
    let mut i: usize = 0;
    while i < t.len()
        invariant
            i <= t@.len(),
            value <= 255,
            t@.len() > 0,
            dec_value(t@) == dec_fold(t@, i as int, value as int),
        decreases t@.len() - i,
    {
        let b = t[i];
        if b < 48 || b > 57 {
            return None;
        }
        let d = (b - 48) as u32;
        if value > 25 || value * 10 + d > 255 {
            return None;
        }
        value = value * 10 + d;
        i = i + 1;
    }
    Some(value as u8)
}

/// Value of one hex digit.
fn hex_val(c: u8) -> (r: Option<u8>)
    ensures
        r matches Some(d) ==> d < 16,
{
    if c >= 48 && c <= 57 {
        Some(c - 48)
    } else if c >= 97 && c <= 102 {
        Some(c - 97 + 10)
    } else if c >= 65 && c <= 70 {
        Some(c - 65 + 10)
    } else {
        None
    }
}

/// Parser state: what the keyword lines seen so far have opened.
#[derive(Clone, Copy, PartialEq, Eq, Structural, Debug)]
enum Token {
    Startchar,
    Encoding,
    Bitmap,
    Unused,
}

/// An all-empty glyph slot.
fn empty_glyph() -> (g: Terminus16x18Glyph)
    ensures
        glyph_wf(g),
        g.codepoint == 0,
{
    let mut bitmap: Vec<Vec<u8>> = Vec::new();
    let mut r: usize = 0;
    while r < FONT_HEIGHT
        invariant
            bitmap@.len() == r,
            r <= FONT_HEIGHT,
            forall|k: int| 0 <= k < r ==> (#[trigger] bitmap@[k])@.len() == FONT_WIDTH,
            forall|k: int, c: int|
                0 <= k < r && 0 <= c < FONT_WIDTH ==> (#[trigger] bitmap@[k]@[c]) == 0,
        decreases FONT_HEIGHT - r,
    {
        bitmap.push(vec![0u8; FONT_WIDTH]);
        r = r + 1;
    }
    Terminus16x18Glyph { codepoint: 0, bitmap }
}

/// Every filled glyph slot owes its codepoint to the text: the numeral
/// naming it stands somewhere in the input as a run of decimal digits.
pub open spec fn codepoints_traced(glyphs: Seq<Terminus16x18Glyph>, text: Seq<u8>) -> bool {
    forall|i: int|
        0 <= i < glyphs.len() && (#[trigger] glyphs[i]).codepoint == i + 32 ==> exists|
            a: int,
            b: int,
        |
            0 <= a <= b <= text.len() && #[trigger] dec_value(text.subrange(a, b)) == Some(
                i + 32,
            )
}

proof fn lemma_traced_preserved(
    g0: Seq<Terminus16x18Glyph>,
    g1: Seq<Terminus16x18Glyph>,
    text: Seq<u8>,
)
    requires
        codepoints_traced(g0, text),
        g0.len() == g1.len(),
        forall|i: int| 0 <= i < g1.len() ==> #[trigger] g1[i].codepoint == g0[i].codepoint,
    ensures
        codepoints_traced(g1, text),
{
    assert forall|i: int| 0 <= i < g1.len() && (#[trigger] g1[i]).codepoint == i + 32 implies
        exists|a: int, b: int|
            0 <= a <= b <= text.len() && #[trigger] dec_value(text.subrange(a, b)) == Some(
                i + 32,
            ) by {
        assert(g0[i].codepoint == i + 32);
    };
}

/// Parses the font from BDF text: skips the header, then reads each
/// glyph's `STARTCHAR`/`ENCODING`/`BITMAP` sections, storing the 96
/// printable characters by codepoint and ignoring the rest.  Corrupt
/// text — keywords out of order, malformed hex, rows or columns beyond
/// the glyph size — is rejected with the section that broke.  Every
/// codepoint the result carries was read out of the text itself.
pub fn parse_bdf(text: &Vec<u8>) -> (r: Result<Terminus16x18Font, &'static str>)
    ensures
        r matches Ok(f) ==> f.wf(),
        r matches Ok(f) ==> codepoints_traced(f.glyphs@, text@),
{
    let mut glyphs: Vec<Terminus16x18Glyph> = Vec::new();
    let mut n: usize = 0;
    while n < 96
        invariant
            glyphs@.len() == n,
            n <= 96,
            forall|i: int| 0 <= i < n ==> glyph_wf(#[trigger] glyphs@[i]),
            forall|i: int| 0 <= i < n ==> (#[trigger] glyphs@[i]).codepoint == 0,
        decreases 96 - n,
    {
        glyphs.push(empty_glyph());
        n = n + 1;
    }
    let kw_startchar: Vec<u8> = vec![83u8, 84, 65, 82, 84, 67, 72, 65, 82];
    let kw_encoding: Vec<u8> = vec![69u8, 78, 67, 79, 68, 73, 78, 71];
    let kw_bitmap: Vec<u8> = vec![66u8, 73, 84, 77, 65, 80];
    let kw_endchar: Vec<u8> = vec![69u8, 78, 68, 67, 72, 65, 82];
    let kw_endfont: Vec<u8> = vec![69u8, 78, 68, 70, 79, 78, 84];

    let lines = split_lines(text);
    let mut stack: Vec<Token> = Vec::new();
    let mut gi: usize = 0;
    let mut row: usize = 0;
    let mut line_no: usize = 0;
    proof {
        assert(codepoints_traced(glyphs@, text@));
    }
    while line_no < lines.len()
        invariant
            glyphs@.len() == 96,
            gi < 96,
            forall|i: int| 0 <= i < 96 ==> glyph_wf(#[trigger] glyphs@[i]),
            forall|i: int|
                0 <= i < 96 ==> ((#[trigger] glyphs@[i]).codepoint == 0 || glyphs@[i].codepoint
                    == i + 32),
            codepoints_traced(glyphs@, text@),
            parts_of(lines@, text@),
        decreases lines@.len() - line_no,
    {
        let line = &lines[line_no];
        proof {
            // instantiate the run property at this line
            assert(0 <= line_no < lines@.len());
            let (a0, b0) = choose|a0: int, b0: int|
                0 <= a0 <= b0 <= text@.len() && (lines@[line_no as int])@ == text@.subrange(
                    a0,
                    b0,
                );
            assert(line@ == text@.subrange(a0, b0));
        }
        line_no = line_no + 1;
        // the fixed header of the font file
        if line_no <= 27 {
            continue ;
        }
        let tokens = split_tokens(line);
        let mut ti: usize = 0;
        let mut next_line: bool = false;
        while ti < tokens.len() && !next_line
            invariant
                glyphs@.len() == 96,
                gi < 96,
                forall|i: int| 0 <= i < 96 ==> glyph_wf(#[trigger] glyphs@[i]),
                forall|i: int|
                    0 <= i < 96 ==> ((#[trigger] glyphs@[i]).codepoint == 0
                        || glyphs@[i].codepoint == i + 32),
                codepoints_traced(glyphs@, text@),
                parts_of(tokens@, line@),
                exists|a: int, b: int|
                    0 <= a <= b <= text@.len() && line@ == text@.subrange(a, b),
            decreases tokens@.len() - ti, (if next_line { 0int } else { 1int }),
    {
            let t = &tokens[ti];
            let top: Option<Token> = if stack.len() > 0 {
                Some(stack[stack.len() - 1])
            } else {
                None
            };
            if bytes_eq(t, &kw_startchar) {
                if stack.len() != 0 {
                    return Err("corrupt bdf: STARTCHAR");
                }
                row = 0;
                stack.push(Token::Startchar);
                next_line = true;
            } else if bytes_eq(t, &kw_encoding) {
                if top != Some(Token::Startchar) {
                    return Err("corrupt bdf: ENCODING");
                }
                stack.push(Token::Encoding);
                ti = ti + 1;
            } else if bytes_eq(t, &kw_bitmap) {
                if top == Some(Token::Unused) {
                    next_line = true;
                } else if top != Some(Token::Startchar) {
                    return Err("corrupt bdf: BITMAP");
                } else {
                    stack.push(Token::Bitmap);
                    next_line = true;
                }
            } else if bytes_eq(t, &kw_endchar) {
                if top != Some(Token::Bitmap) && top != Some(Token::Unused) {
                    return Err("corrupt bdf: ENDCHAR");
                }
                let _ = stack.pop();
                let _ = stack.pop();
                next_line = true;
            } else if bytes_eq(t, &kw_endfont) {
                next_line = true;
            } else {
                match top {
                    Some(Token::Encoding) => {
                        match parse_u8(t) {
                            Some(enc) => {
                                if enc >= 128 || enc < 32 {
                                    // not one of the 96 printable slots
                                    let _ = stack.pop();
                                    stack.push(Token::Unused);
                                } else {
                                    gi = (enc - 32) as usize;
                                    let ghost g0 = glyphs@;
                                    glyphs[gi].codepoint = enc;
                                    proof {
                                        // the numeral that named this
                                        // slot is a run of the text
                                        assert(tokens@[ti as int] == *t);
                                        let (a1, b1) = choose|a1: int, b1: int|
                                            0 <= a1 <= b1 <= line@.len() && t@ == line@.subrange(
                                                a1,
                                                b1,
                                            );
                                        let (a2, b2) = choose|a2: int, b2: int|
                                            0 <= a2 <= b2 <= text@.len() && line@
                                                == text@.subrange(a2, b2);
                                        assert(text@.subrange(a2, b2).subrange(a1, b1)
                                            =~= text@.subrange(a2 + a1, a2 + b1));
                                        assert(dec_value(text@.subrange(a2 + a1, a2 + b1))
                                            == Some(enc as int));
                                        assert forall|i2: int|
                                            0 <= i2 < 96 && (#[trigger] glyphs@[i2]).codepoint
                                                == i2 + 32 implies exists|a: int, b: int|
                                            0 <= a <= b <= text@.len()
                                                && #[trigger] dec_value(text@.subrange(a, b))
                                                == Some(i2 + 32) by {
                                            if i2 == gi as int {
                                                assert(dec_value(
                                                    text@.subrange(a2 + a1, a2 + b1),
                                                ) == Some(i2 + 32));
                                            } else {
                                                assert(glyphs@[i2] == g0[i2]);
                                                assert(g0[i2].codepoint == i2 + 32);
                                            }
                                        };
                                    }
                                    let _ = stack.pop();
                                }
                            },
                            None => {
                                let _ = stack.pop();
                                stack.push(Token::Unused);
                            },
                        }
                        next_line = true;
                    },
                    Some(Token::Unused) => {
                        next_line = true;
                    },
                    Some(Token::Startchar) => {
                        // the glyph name on the STARTCHAR line
                        ti = ti + 1;
                    },
                    Some(Token::Bitmap) => {
                        // one row of hex digits, four pixels per digit
                        if row >= FONT_HEIGHT {
                            return Err("corrupt bdf: BITMAP");
                        }
                        let line_len = t.len();
                        let mut ci: usize = 0;
                        while ci < t.len()
                            invariant
                                glyphs@.len() == 96,
                                gi < 96,
                                row < FONT_HEIGHT,
                                line_len == t@.len(),
                                forall|i: int| 0 <= i < 96 ==> glyph_wf(#[trigger] glyphs@[i]),
                                forall|i: int|
                                    0 <= i < 96 ==> ((#[trigger] glyphs@[i]).codepoint == 0
                                        || glyphs@[i].codepoint == i + 32),
                                codepoints_traced(glyphs@, text@),
                            decreases t@.len() - ci,
                        {
                            let d = match hex_val(t[ci]) {
                                Some(d) => d,
                                None => {
                                    return Err("corrupt bdf: BITMAP");
                                },
                            };
                            let col = match line_len.checked_mul(ci) {
                                Some(c) => c,
                                None => {
                                    return Err("corrupt bdf: BITMAP");
                                },
                            };
                            if col > FONT_WIDTH - 4 {
                                return Err("corrupt bdf: BITMAP");
                            }
                            proof {
                                assert((d & 0b1000) >> 3 <= 1 && (d & 0b100) >> 2 <= 1 && (d
                                    & 0b10) >> 1 <= 1 && d & 0b1 <= 1) by (bit_vector);
                            }
                            let ghost g0 = glyphs@;
                            glyphs[gi].bitmap[row][col] = (d & 0b1000) >> 3;
                            glyphs[gi].bitmap[row][col + 1] = (d & 0b100) >> 2;
                            glyphs[gi].bitmap[row][col + 2] = (d & 0b10) >> 1;
                            glyphs[gi].bitmap[row][col + 3] = d & 0b1;
                            proof {
                                // pixel writes leave every codepoint
                                assert(forall|i2: int|
                                    0 <= i2 < 96 ==> #[trigger] glyphs@[i2].codepoint
                                        == g0[i2].codepoint);
                                lemma_traced_preserved(g0, glyphs@, text@);
                            }
                            ci = ci + 1;
                        }
                        row = row + 1;
                        next_line = true;
                    },
                    _ => {
                        return Err("corrupt bdf: value");
                    },
                }
            }
        }
    }
    Ok(Terminus16x18Font { glyphs })
}

} // verus!
