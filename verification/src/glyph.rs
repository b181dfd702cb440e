//! The built-in 5x7 bitmap font used to render text annotations, and the
//! size a text box needs for its text.
use vstd::prelude::*;
use crate::geometry::{max_i32, spec_max};

verus! {

/// Scale factor from font cells to pixels.
pub const TEXT_SCALE: i32 = 2;
/// Width of a rendered glyph.
pub const TEXT_GLYPH_W: i32 = 10;
/// Height of a rendered glyph.
pub const TEXT_GLYPH_H: i32 = 14;
/// Horizontal advance after a glyph.
pub const TEXT_GLYPH_ADVANCE: i32 = 13;
/// Horizontal advance after a space.
pub const TEXT_SPACE_ADVANCE: i32 = 6;
/// Vertical gap between lines.
pub const TEXT_LINE_GAP: i32 = 4;
/// Inset of the text inside its box.
pub const TEXT_PAD: i32 = 4;
/// Smallest width of a text box.
pub const TEXT_DEFAULT_W: i32 = 48;
/// Smallest height of a text box.
pub const TEXT_DEFAULT_H: i32 = 24;
/// Longest text whose box size is computed (its width stays inside `i32`).
pub const TEXT_CHARS_LIMIT: usize = 100_000_000;

/// `c` with `A..=Z` mapped to `a..=z`.
pub open spec fn lower_char(c: char) -> char {
    if 'A' <= c <= 'Z' {
        ((c as u32) + 32) as char
    } else {
        c
    }
}

/// `c` mapped by `char::to_ascii_lowercase`.
pub fn to_ascii_lower_char(c: char) -> (r: char)
    ensures
        r == lower_char(c),
{
    if 'A' <= c && c <= 'Z' {
        let u = (c as u8) + 32;
        u as char
    } else {
        c
    }
}

/// Rows of the glyph for a lower-case letter or digit, top row first, bit 4
/// the leftmost column; any other character gets a box-like placeholder.
pub open spec fn spec_glyph(c: char) -> Seq<u8> {
    if c == 'a' {
        seq![0b01110, 0b10001, 0b10001, 0b11111, 0b10001, 0b10001, 0b10001]
    } else if c == 'b' {
        seq![0b11110, 0b10001, 0b10001, 0b11110, 0b10001, 0b10001, 0b11110]
    } else if c == 'c' {
        seq![0b01110, 0b10001, 0b10000, 0b10000, 0b10000, 0b10001, 0b01110]
    } else if c == 'd' {
        seq![0b11110, 0b10001, 0b10001, 0b10001, 0b10001, 0b10001, 0b11110]
    } else if c == 'e' {
        seq![0b11111, 0b10000, 0b10000, 0b11110, 0b10000, 0b10000, 0b11111]
    } else if c == 'f' {
        seq![0b11111, 0b10000, 0b10000, 0b11110, 0b10000, 0b10000, 0b10000]
    } else if c == 'g' {
        seq![0b01110, 0b10001, 0b10000, 0b10111, 0b10001, 0b10001, 0b01110]
    } else if c == 'h' {
        seq![0b10001, 0b10001, 0b10001, 0b11111, 0b10001, 0b10001, 0b10001]
    } else if c == 'i' {
        seq![0b11111, 0b00100, 0b00100, 0b00100, 0b00100, 0b00100, 0b11111]
    } else if c == 'j' {
        seq![0b11111, 0b00010, 0b00010, 0b00010, 0b00010, 0b10010, 0b01100]
    } else if c == 'k' {
        seq![0b10001, 0b10010, 0b10100, 0b11000, 0b10100, 0b10010, 0b10001]
    } else if c == 'l' {
        seq![0b10000, 0b10000, 0b10000, 0b10000, 0b10000, 0b10000, 0b11111]
    } else if c == 'm' {
        seq![0b10001, 0b11011, 0b10101, 0b10001, 0b10001, 0b10001, 0b10001]
    } else if c == 'n' {
        seq![0b10001, 0b11001, 0b10101, 0b10011, 0b10001, 0b10001, 0b10001]
    } else if c == 'o' {
        seq![0b01110, 0b10001, 0b10001, 0b10001, 0b10001, 0b10001, 0b01110]
    } else if c == 'p' {
        seq![0b11110, 0b10001, 0b10001, 0b11110, 0b10000, 0b10000, 0b10000]
    } else if c == 'q' {
        seq![0b01110, 0b10001, 0b10001, 0b10001, 0b10101, 0b10010, 0b01101]
    } else if c == 'r' {
        seq![0b11110, 0b10001, 0b10001, 0b11110, 0b10100, 0b10010, 0b10001]
    } else if c == 's' {
        seq![0b01111, 0b10000, 0b10000, 0b01110, 0b00001, 0b00001, 0b11110]
    } else if c == 't' {
        seq![0b11111, 0b00100, 0b00100, 0b00100, 0b00100, 0b00100, 0b00100]
    } else if c == 'u' {
        seq![0b10001, 0b10001, 0b10001, 0b10001, 0b10001, 0b10001, 0b01110]
    } else if c == 'v' {
        seq![0b10001, 0b10001, 0b10001, 0b10001, 0b10001, 0b01010, 0b00100]
    } else if c == 'w' {
        seq![0b10001, 0b10001, 0b10001, 0b10001, 0b10101, 0b11011, 0b10001]
    } else if c == 'x' {
        seq![0b10001, 0b10001, 0b01010, 0b00100, 0b01010, 0b10001, 0b10001]
    } else if c == 'y' {
        seq![0b10001, 0b10001, 0b01010, 0b00100, 0b00100, 0b00100, 0b00100]
    } else if c == 'z' {
        seq![0b11111, 0b00001, 0b00010, 0b00100, 0b01000, 0b10000, 0b11111]
    } else if c == '0' {
        seq![0b01110, 0b10001, 0b10011, 0b10101, 0b11001, 0b10001, 0b01110]
    } else if c == '1' {
        seq![0b00100, 0b01100, 0b00100, 0b00100, 0b00100, 0b00100, 0b01110]
    } else if c == '2' {
        seq![0b01110, 0b10001, 0b00001, 0b00010, 0b00100, 0b01000, 0b11111]
    } else if c == '3' {
        seq![0b11110, 0b00001, 0b00001, 0b01110, 0b00001, 0b00001, 0b11110]
    } else if c == '4' {
        seq![0b00010, 0b00110, 0b01010, 0b10010, 0b11111, 0b00010, 0b00010]
    } else if c == '5' {
        seq![0b11111, 0b10000, 0b10000, 0b11110, 0b00001, 0b00001, 0b11110]
    } else if c == '6' {
        seq![0b01110, 0b10000, 0b10000, 0b11110, 0b10001, 0b10001, 0b01110]
    } else if c == '7' {
        seq![0b11111, 0b00001, 0b00010, 0b00100, 0b01000, 0b10000, 0b10000]
    } else if c == '8' {
        seq![0b01110, 0b10001, 0b10001, 0b01110, 0b10001, 0b10001, 0b01110]
    } else if c == '9' {
        seq![0b01110, 0b10001, 0b10001, 0b01111, 0b00001, 0b00001, 0b01110]
    } else {
        seq![0b11111, 0b10001, 0b00100, 0b00100, 0b00100, 0b10001, 0b11111]
    }
}

/// The letters, the digits, and a character drawn with the placeholder,
/// in the order of their glyphs' codes.
pub open spec fn glyph_chars() -> Seq<char> {
    seq!['4', 't', 'y', 'v', 'j', 'q', '9', '1', 'c', '8', 'o', 'u', 'g', '6', '0', '7', 'f', 'p', 'x', 'm', 'n', 'a', 'h', 'k', 'r', 'w', '3', 's', '5', 'd', 'b', 'i', '2', 'z', 'l', 'e', '?']
}

/// The seven rows of a glyph read as one number, five bits a row.
pub open spec fn glyph_code(g: Seq<u8>) -> int {
    g[0] + 32 * g[1] + 1024 * g[2] + 32768 * g[3] + 1048576 * g[4] + 33554432 * g[5] + 1073741824 * g[6]
}

/// The glyph codes of `glyph_chars` rise from each character to the next.
proof fn lemma_codes_rise(k: int)
    requires
        0 <= k < glyph_chars().len() - 1,
    ensures
        glyph_code(spec_glyph(glyph_chars()[k])) < glyph_code(spec_glyph(glyph_chars()[k + 1])),
{
    let s = glyph_chars();
    assert(glyph_code(spec_glyph('4')) < glyph_code(spec_glyph('t')));
    assert(glyph_code(spec_glyph('t')) < glyph_code(spec_glyph('y')));
    assert(glyph_code(spec_glyph('y')) < glyph_code(spec_glyph('v')));
    assert(glyph_code(spec_glyph('v')) < glyph_code(spec_glyph('j')));
    assert(glyph_code(spec_glyph('j')) < glyph_code(spec_glyph('q')));
    assert(glyph_code(spec_glyph('q')) < glyph_code(spec_glyph('9')));
    assert(glyph_code(spec_glyph('9')) < glyph_code(spec_glyph('1')));
    assert(glyph_code(spec_glyph('1')) < glyph_code(spec_glyph('c')));
    assert(glyph_code(spec_glyph('c')) < glyph_code(spec_glyph('8')));
    assert(glyph_code(spec_glyph('8')) < glyph_code(spec_glyph('o')));
    assert(glyph_code(spec_glyph('o')) < glyph_code(spec_glyph('u')));
    assert(glyph_code(spec_glyph('u')) < glyph_code(spec_glyph('g')));
    assert(glyph_code(spec_glyph('g')) < glyph_code(spec_glyph('6')));
    assert(glyph_code(spec_glyph('6')) < glyph_code(spec_glyph('0')));
    assert(glyph_code(spec_glyph('0')) < glyph_code(spec_glyph('7')));
    assert(glyph_code(spec_glyph('7')) < glyph_code(spec_glyph('f')));
    assert(glyph_code(spec_glyph('f')) < glyph_code(spec_glyph('p')));
    assert(glyph_code(spec_glyph('p')) < glyph_code(spec_glyph('x')));
    assert(glyph_code(spec_glyph('x')) < glyph_code(spec_glyph('m')));
    assert(glyph_code(spec_glyph('m')) < glyph_code(spec_glyph('n')));
    assert(glyph_code(spec_glyph('n')) < glyph_code(spec_glyph('a')));
    assert(glyph_code(spec_glyph('a')) < glyph_code(spec_glyph('h')));
    assert(glyph_code(spec_glyph('h')) < glyph_code(spec_glyph('k')));
    assert(glyph_code(spec_glyph('k')) < glyph_code(spec_glyph('r')));
    assert(glyph_code(spec_glyph('r')) < glyph_code(spec_glyph('w')));
    assert(glyph_code(spec_glyph('w')) < glyph_code(spec_glyph('3')));
    assert(glyph_code(spec_glyph('3')) < glyph_code(spec_glyph('s')));
    assert(glyph_code(spec_glyph('s')) < glyph_code(spec_glyph('5')));
    assert(glyph_code(spec_glyph('5')) < glyph_code(spec_glyph('d')));
    assert(glyph_code(spec_glyph('d')) < glyph_code(spec_glyph('b')));
    assert(glyph_code(spec_glyph('b')) < glyph_code(spec_glyph('i')));
    assert(glyph_code(spec_glyph('i')) < glyph_code(spec_glyph('2')));
    assert(glyph_code(spec_glyph('2')) < glyph_code(spec_glyph('z')));
    assert(glyph_code(spec_glyph('z')) < glyph_code(spec_glyph('l')));
    assert(glyph_code(spec_glyph('l')) < glyph_code(spec_glyph('e')));
    assert(glyph_code(spec_glyph('e')) < glyph_code(spec_glyph('?')));
}

proof fn lemma_codes_increase(i: int, j: int)
    requires
        0 <= i < j < glyph_chars().len(),
    ensures
        glyph_code(spec_glyph(glyph_chars()[i])) < glyph_code(spec_glyph(glyph_chars()[j])),
    decreases j - i,
{
    lemma_codes_rise(j - 1);
    if i < j - 1 {
        lemma_codes_increase(i, j - 1);
    }
}

/// Every glyph has seven rows of five bits.
pub proof fn law_glyph_rows_are_five_bits(c: char)
    ensures
        spec_glyph(c).len() == 7,
        forall|i: int| 0 <= i < 7 ==> #[trigger] spec_glyph(c)[i] < 32,
{
}

/// Upper and lower case of a letter draw the same glyph: the font folds
/// case once, and folding twice changes nothing.
pub proof fn law_glyph_folds_case(c: char)
    ensures
        lower_char(lower_char(c)) == lower_char(c),
        spec_glyph(lower_char(lower_char(c))) == spec_glyph(lower_char(c)),
{
}

/// The letters and digits have pairwise different glyphs, all different
/// from the placeholder other characters get.
pub proof fn law_glyphs_distinct(i: int, j: int)
    requires
        0 <= i < j < glyph_chars().len(),
    ensures
        spec_glyph(glyph_chars()[i]) != spec_glyph(glyph_chars()[j]),
{
    lemma_codes_increase(i, j);
}

pub fn glyph_5x7(ch: char) -> (g: [u8; 7])
    ensures
        g@ == spec_glyph(lower_char(ch)),
{
    let c = to_ascii_lower_char(ch);
    if c == 'a' {
        [0b01110, 0b10001, 0b10001, 0b11111, 0b10001, 0b10001, 0b10001]
    } else if c == 'b' {
        [0b11110, 0b10001, 0b10001, 0b11110, 0b10001, 0b10001, 0b11110]
    } else if c == 'c' {
        [0b01110, 0b10001, 0b10000, 0b10000, 0b10000, 0b10001, 0b01110]
    } else if c == 'd' {
        [0b11110, 0b10001, 0b10001, 0b10001, 0b10001, 0b10001, 0b11110]
    } else if c == 'e' {
        [0b11111, 0b10000, 0b10000, 0b11110, 0b10000, 0b10000, 0b11111]
    } else if c == 'f' {
        [0b11111, 0b10000, 0b10000, 0b11110, 0b10000, 0b10000, 0b10000]
    } else if c == 'g' {
        [0b01110, 0b10001, 0b10000, 0b10111, 0b10001, 0b10001, 0b01110]
    } else if c == 'h' {
        [0b10001, 0b10001, 0b10001, 0b11111, 0b10001, 0b10001, 0b10001]
    } else if c == 'i' {
        [0b11111, 0b00100, 0b00100, 0b00100, 0b00100, 0b00100, 0b11111]
    } else if c == 'j' {
        [0b11111, 0b00010, 0b00010, 0b00010, 0b00010, 0b10010, 0b01100]
    } else if c == 'k' {
        [0b10001, 0b10010, 0b10100, 0b11000, 0b10100, 0b10010, 0b10001]
    } else if c == 'l' {
        [0b10000, 0b10000, 0b10000, 0b10000, 0b10000, 0b10000, 0b11111]
    } else if c == 'm' {
        [0b10001, 0b11011, 0b10101, 0b10001, 0b10001, 0b10001, 0b10001]
    } else if c == 'n' {
        [0b10001, 0b11001, 0b10101, 0b10011, 0b10001, 0b10001, 0b10001]
    } else if c == 'o' {
        [0b01110, 0b10001, 0b10001, 0b10001, 0b10001, 0b10001, 0b01110]
    } else if c == 'p' {
        [0b11110, 0b10001, 0b10001, 0b11110, 0b10000, 0b10000, 0b10000]
    } else if c == 'q' {
        [0b01110, 0b10001, 0b10001, 0b10001, 0b10101, 0b10010, 0b01101]
    } else if c == 'r' {
        [0b11110, 0b10001, 0b10001, 0b11110, 0b10100, 0b10010, 0b10001]
    } else if c == 's' {
        [0b01111, 0b10000, 0b10000, 0b01110, 0b00001, 0b00001, 0b11110]
    } else if c == 't' {
        [0b11111, 0b00100, 0b00100, 0b00100, 0b00100, 0b00100, 0b00100]
    } else if c == 'u' {
        [0b10001, 0b10001, 0b10001, 0b10001, 0b10001, 0b10001, 0b01110]
    } else if c == 'v' {
        [0b10001, 0b10001, 0b10001, 0b10001, 0b10001, 0b01010, 0b00100]
    } else if c == 'w' {
        [0b10001, 0b10001, 0b10001, 0b10001, 0b10101, 0b11011, 0b10001]
    } else if c == 'x' {
        [0b10001, 0b10001, 0b01010, 0b00100, 0b01010, 0b10001, 0b10001]
    } else if c == 'y' {
        [0b10001, 0b10001, 0b01010, 0b00100, 0b00100, 0b00100, 0b00100]
    } else if c == 'z' {
        [0b11111, 0b00001, 0b00010, 0b00100, 0b01000, 0b10000, 0b11111]
    } else if c == '0' {
        [0b01110, 0b10001, 0b10011, 0b10101, 0b11001, 0b10001, 0b01110]
    } else if c == '1' {
        [0b00100, 0b01100, 0b00100, 0b00100, 0b00100, 0b00100, 0b01110]
    } else if c == '2' {
        [0b01110, 0b10001, 0b00001, 0b00010, 0b00100, 0b01000, 0b11111]
    } else if c == '3' {
        [0b11110, 0b00001, 0b00001, 0b01110, 0b00001, 0b00001, 0b11110]
    } else if c == '4' {
        [0b00010, 0b00110, 0b01010, 0b10010, 0b11111, 0b00010, 0b00010]
    } else if c == '5' {
        [0b11111, 0b10000, 0b10000, 0b11110, 0b00001, 0b00001, 0b11110]
    } else if c == '6' {
        [0b01110, 0b10000, 0b10000, 0b11110, 0b10001, 0b10001, 0b01110]
    } else if c == '7' {
        [0b11111, 0b00001, 0b00010, 0b00100, 0b01000, 0b10000, 0b10000]
    } else if c == '8' {
        [0b01110, 0b10001, 0b10001, 0b01110, 0b10001, 0b10001, 0b01110]
    } else if c == '9' {
        [0b01110, 0b10001, 0b10001, 0b01111, 0b00001, 0b00001, 0b01110]
    } else {
        [0b11111, 0b10001, 0b00100, 0b00100, 0b00100, 0b10001, 0b11111]
    }
}

/// Width of one character of text (a space is narrower than a glyph).
pub open spec fn char_advance(c: char) -> int {
    if c == ' ' {
        TEXT_SPACE_ADVANCE as int
    } else {
        TEXT_GLYPH_ADVANCE as int
    }
}

/// Widest finished line, width of the current line, and number of lines,
/// after laying out `s`; `\r` is skipped and `\n` starts a new line.
pub open spec fn text_metrics(s: Seq<char>) -> (int, int, int)
    decreases s.len(),
{
    if s.len() == 0 {
        (TEXT_GLYPH_W as int, 0, 1)
    } else {
        let (m, l, c) = text_metrics(s.drop_last());
        let ch = s.last();
        if ch == '\r' {
            (m, l, c)
        } else if ch == '\n' {
            (spec_max(m, spec_max(l, TEXT_GLYPH_W as int)), 0, c + 1)
        } else {
            (m, l + char_advance(ch), c)
        }
    }
}

/// Width and height of the box that `text` needs, padding included and never
/// below the default box.
pub open spec fn spec_text_required_size(s: Seq<char>) -> (int, int) {
    let (m, l, c) = text_metrics(s);
    let w = spec_max(m, spec_max(l, TEXT_GLYPH_W as int));
    let text_h = c * TEXT_GLYPH_H + (c - 1) * TEXT_LINE_GAP;
    (spec_max(w + 2 * TEXT_PAD, TEXT_DEFAULT_W as int), spec_max(text_h + 2 * TEXT_PAD, TEXT_DEFAULT_H as int))
}

proof fn lemma_metrics_bounds(s: Seq<char>)
    ensures
        ({
            let (m, l, c) = text_metrics(s);
            &&& TEXT_GLYPH_W <= m <= TEXT_GLYPH_ADVANCE * s.len() + TEXT_GLYPH_W
            &&& 0 <= l <= TEXT_GLYPH_ADVANCE * s.len()
            &&& 1 <= c <= s.len() + 1
        }),
    decreases s.len(),
{
    if s.len() > 0 {
        lemma_metrics_bounds(s.drop_last());
    }
}

/// Size of the box that `text` needs.
pub fn text_required_size(text: &str) -> (r: (i32, i32))
    requires
        text@.len() <= TEXT_CHARS_LIMIT,
    ensures
        r.0 == spec_text_required_size(text@).0,
        r.1 == spec_text_required_size(text@).1,
{
    let mut max_line_w: i32 = TEXT_GLYPH_W;
    let mut line_w: i32 = 0;
    let mut line_count: i32 = 1;
    let n = text.unicode_len();
    let mut i: usize = 0;
    while i < n
        invariant
            n == text@.len(),
            n <= TEXT_CHARS_LIMIT,
            i <= n,
            (max_line_w as int, line_w as int, line_count as int) == text_metrics(text@.subrange(0, i as int)),
        decreases n - i,
    {
        proof {
            lemma_metrics_bounds(text@.subrange(0, i as int));
            assert(text@.subrange(0, i + 1).drop_last() =~= text@.subrange(0, i as int));
        }
        let ch = text.get_char(i);
        if ch == '\r' {
        } else if ch == '\n' {
            max_line_w = max_i32(max_line_w, max_i32(line_w, TEXT_GLYPH_W));
            line_w = 0;
            line_count = line_count + 1;
        } else {
            line_w = line_w + if ch == ' ' { TEXT_SPACE_ADVANCE } else { TEXT_GLYPH_ADVANCE };
        }
        i = i + 1;
    }
    assert(text@.subrange(0, n as int) =~= text@);
    proof {
        lemma_metrics_bounds(text@);
    }
    max_line_w = max_i32(max_line_w, max_i32(line_w, TEXT_GLYPH_W));
    let text_h = (line_count * TEXT_GLYPH_H) + ((line_count - 1) * TEXT_LINE_GAP);
    let width = max_line_w + (TEXT_PAD * 2);
    let height = text_h + (TEXT_PAD * 2);
    (max_i32(width, TEXT_DEFAULT_W), max_i32(height, TEXT_DEFAULT_H))
}

} // verus!
