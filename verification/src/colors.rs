//! `#RRGGBB` colour strings: normalising, reading and writing them.
use vstd::prelude::*;
use crate::text::{chars_of, is_ws, spec_trim, string_from_chars, trim_chars, upper_char, upper_seq};

verus! {

pub open spec fn is_hex_char(c: char) -> bool {
    ('0' <= c <= '9') || ('a' <= c <= 'f') || ('A' <= c <= 'F')
}

/// Value of a hexadecimal digit.
pub open spec fn hex_value(c: char) -> int {
    if '0' <= c <= '9' {
        c as int - '0' as int
    } else if 'a' <= c <= 'f' {
        c as int - 'a' as int + 10
    } else {
        c as int - 'A' as int + 10
    }
}

/// Upper-case hexadecimal digit of `d` (below 16).
pub open spec fn hex_upper(d: int) -> char {
    if d < 10 {
        (('0' as int) + d) as char
    } else {
        (('A' as int) + d - 10) as char
    }
}

/// `raw` without surrounding white space and one leading `#`.
pub open spec fn hex_body(raw: Seq<char>) -> Seq<char> {
    let t = spec_trim(raw);
    if t.len() > 0 && t[0] == '#' {
        t.drop_first()
    } else {
        t
    }
}

/// `#` and six upper-case hex digits, when `raw` (trimmed, with or without
/// `#`) holds exactly six hex digits.
pub open spec fn spec_normalize_hex_color(raw: Seq<char>) -> Option<Seq<char>> {
    let h = hex_body(raw);
    if h.len() == 6 && (forall|i: int| 0 <= i < 6 ==> #[trigger] is_hex_char(h[i])) {
        Some(seq!['#'] + upper_seq(h))
    } else {
        None
    }
}

/// The colour a normalised string names.
pub open spec fn spec_hex_to_rgb(raw: Seq<char>) -> Option<[u8; 3]> {
    match spec_normalize_hex_color(raw) {
        None => None,
        Some(n) => Some(
            [
                (hex_value(n[1]) * 16 + hex_value(n[2])) as u8,
                (hex_value(n[3]) * 16 + hex_value(n[4])) as u8,
                (hex_value(n[5]) * 16 + hex_value(n[6])) as u8,
            ],
        ),
    }
}

/// `#RRGGBB` in upper case.
pub open spec fn spec_rgb_to_hex(rgb: [u8; 3]) -> Seq<char> {
    seq![
        '#',
        hex_upper(rgb@[0] as int / 16),
        hex_upper(rgb@[0] as int % 16),
        hex_upper(rgb@[1] as int / 16),
        hex_upper(rgb@[1] as int % 16),
        hex_upper(rgb@[2] as int / 16),
        hex_upper(rgb@[2] as int % 16),
    ]
}

fn is_hex_digit_char(c: char) -> (b: bool)
    ensures
        b == is_hex_char(c),
{
    ('0' <= c && c <= '9') || ('a' <= c && c <= 'f') || ('A' <= c && c <= 'F')
}

fn hex_digit_value(c: char) -> (v: u8)
    requires
        is_hex_char(c),
    ensures
        v == hex_value(c),
{
    if '0' <= c && c <= '9' {
        (c as u8) - ('0' as u8)
    } else if 'a' <= c && c <= 'f' {
        (c as u8) - ('a' as u8) + 10
    } else {
        (c as u8) - ('A' as u8) + 10
    }
}

fn upper_hex_digit(d: u8) -> (c: char)
    requires
        d < 16,
    ensures
        c == hex_upper(d as int),
{
    if d < 10 {
        (('0' as u8) + d) as char
    } else {
        (('A' as u8) + d - 10) as char
    }
}

/// Normalises a colour to `#RRGGBB` in upper case; `None` unless it holds
/// exactly six hex digits (after trimming and an optional `#`).
pub fn normalize_hex_color(raw: &str) -> (r: Option<String>)
    ensures
        match r {
            Some(s) => spec_normalize_hex_color(raw@) == Some(s@),
            None => spec_normalize_hex_color(raw@) is None,
        },
{
    let chars = chars_of(raw);
    let t = trim_chars(&chars);
    let mut start: usize = 0;
    if t.len() > 0 && t[0] == '#' {
        start = 1;
    }
    if t.len() - start != 6 {
        return None;
    }
    let ghost h = hex_body(raw@);
    assert(h =~= t@.subrange(start as int, t@.len() as int));
    let mut out: Vec<char> = Vec::new();
    out.push('#');
    let mut i: usize = 0;
    while i < 6
        invariant
            t@.len() == start + 6,
            start <= 1,
            h == hex_body(raw@),
            h == t@.subrange(start as int, t@.len() as int),
            i <= 6,
            forall|j: int| 0 <= j < i ==> #[trigger] is_hex_char(h[j]),
            out@ == seq!['#'] + upper_seq(h.subrange(0, i as int)),
        decreases 6 - i,
    {
        let c = t[start + i];
        assert(c == h[i as int]);
        if !is_hex_digit_char(c) {
            assert(!is_hex_char(h[i as int]));
            return None;
        }
        out.push(crate::text::to_ascii_upper_char(c));
        i = i + 1;
        assert(out@ =~= seq!['#'] + upper_seq(h.subrange(0, i as int)));
    }
    assert(h.subrange(0, 6) =~= h);
    Some(string_from_chars(&out))
}

/// The colour of a `#RRGGBB` string (see [`normalize_hex_color`]).
pub fn hex_to_rgb(raw: &str) -> (r: Option<[u8; 3]>)
    ensures
        r == spec_hex_to_rgb(raw@),
{
    let n = match normalize_hex_color(raw) {
        None => {
            return None;
        },
        Some(n) => n,
    };
    let cs = chars_of(n.as_str());
    let ghost h = hex_body(raw@);
    assert forall|i: int| 1 <= i < 7 implies #[trigger] is_hex_char(cs@[i]) by {
        assert(cs@[i] == upper_char(h[i - 1]));
        assert(is_hex_char(h[i - 1]));
        lemma_upper_hex(h[i - 1]);
    }
    let r = hex_digit_value(cs[1]) * 16 + hex_digit_value(cs[2]);
    let g = hex_digit_value(cs[3]) * 16 + hex_digit_value(cs[4]);
    let b = hex_digit_value(cs[5]) * 16 + hex_digit_value(cs[6]);
    Some([r, g, b])
}

/// Writes a colour as `#RRGGBB`.
pub fn rgb_to_hex(rgb: [u8; 3]) -> (s: String)
    ensures
        s@ == spec_rgb_to_hex(rgb),
{
    let mut out: Vec<char> = Vec::new();
    out.push('#');
    let mut i: usize = 0;
    while i < 3
        invariant
            i <= 3,
            out@.len() == 1 + 2 * i,
            out@[0] == '#',
            forall|j: int| 0 <= j < i ==> out@[1 + 2 * j] == #[trigger] hex_upper(rgb@[j] as int / 16) && out@[2
                + 2 * j] == hex_upper(rgb@[j] as int % 16),
        decreases 3 - i,
    {
        let v = rgb[i];
        out.push(upper_hex_digit(v / 16));
        out.push(upper_hex_digit(v % 16));
        i = i + 1;
    }
    assert(out@ =~= spec_rgb_to_hex(rgb)) by {
        assert(out@[1] == hex_upper(rgb@[0] as int / 16));
        assert(out@[3] == hex_upper(rgb@[1] as int / 16));
        assert(out@[5] == hex_upper(rgb@[2] as int / 16));
    }
    string_from_chars(&out)
}

proof fn lemma_upper_hex(c: char)
    requires
        is_hex_char(c),
    ensures
        is_hex_char(upper_char(c)),
        hex_value(upper_char(c)) == hex_value(c),
{
}

proof fn lemma_trim_no_ws(s: Seq<char>)
    requires
        s.len() > 0,
        !is_ws(s[0]),
        !is_ws(s.last()),
    ensures
        spec_trim(s) == s,
{
    reveal_with_fuel(crate::text::trim_start, 2);
    reveal_with_fuel(crate::text::trim_end, 2);
}

/// Writing a colour and reading it back gives the colour.
pub proof fn law_rgb_hex_roundtrip(rgb: [u8; 3])
    ensures
        spec_hex_to_rgb(spec_rgb_to_hex(rgb)) == Some(rgb),
{
    let s = spec_rgb_to_hex(rgb);
    lemma_trim_no_ws(s);
    let h = hex_body(s);
    assert(h =~= s.drop_first());
    assert(forall|i: int| 0 <= i < 6 ==> #[trigger] is_hex_char(h[i]));
    assert(upper_seq(h) =~= h);
    let n = seq!['#'] + upper_seq(h);
    assert(n =~= s);
    let v = spec_hex_to_rgb(s)->0;
    assert(v@ =~= rgb@);
}

/// A normalised colour normalises to itself.
pub proof fn law_normalize_idempotent(raw: Seq<char>)
    requires
        spec_normalize_hex_color(raw) is Some,
    ensures
        spec_normalize_hex_color(spec_normalize_hex_color(raw)->0) == spec_normalize_hex_color(raw),
{
    let h = hex_body(raw);
    let n = spec_normalize_hex_color(raw)->0;
    assert(n[0] == '#');
    assert(forall|i: int| 0 <= i < 6 ==> #[trigger] is_hex_char(h[i]));
    assert(is_hex_char(h[5]));
    lemma_upper_hex(h[5]);
    assert(is_hex_char(n[6]));
    lemma_trim_no_ws(n);
    let h2 = hex_body(n);
    assert(h2 =~= upper_seq(h));
    assert forall|i: int| 0 <= i < 6 implies #[trigger] is_hex_char(h2[i]) by {
        assert(is_hex_char(h[i]));
        lemma_upper_hex(h[i]);
    }
    assert(upper_seq(h2) =~= h2);
}

} // verus!
