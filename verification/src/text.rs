//! Character-level text helpers: whitespace trimming, ASCII case mapping,
//! splitting on a separator and decimal number parsing, each with a
//! specification over `Seq<char>`.
use vstd::prelude::*;

verus! {

/// Appends `c` to `s`: `String::push`, whose documentation says it appends
/// the character to the end of the string.
#[verifier::external_body]
pub(crate) fn push_char(s: &mut String, c: char)
    ensures
        final(s)@ == old(s)@.push(c),
{
    s.push(c);
}

/// Removes and returns the last character of `s`: `String::pop`, documented to
/// return `None` when the string is empty and otherwise its last character,
/// which it removes.
#[verifier::external_body]
pub(crate) fn pop_char(s: &mut String) -> (c: Option<char>)
    ensures
        old(s)@.len() == 0 ==> c is None && final(s)@ == old(s)@,
        old(s)@.len() > 0 ==> c == Some(old(s)@.last()) && final(s)@ == old(s)@.drop_last(),
{
    s.pop()
}

/// Whether `code` is a Unicode scalar value (not a surrogate, at most `0x10FFFF`).
pub open spec fn is_scalar_value(code: u32) -> bool {
    code < 0xD800 || (0xE000 <= code && code <= 0x10FFFF)
}

/// The character with code point `code`: `char::from_u32`, documented to
/// return `None` exactly when `code` is not a valid `char`.
#[verifier::external_body]
pub(crate) fn char_from_code(code: u32) -> (c: Option<char>)
    ensures
        is_scalar_value(code) ==> c == Some(code as char),
        !is_scalar_value(code) ==> c is None,
{
    char::from_u32(code)
}

/// The characters of `s`, in order.
pub fn chars_of(s: &str) -> (out: Vec<char>)
    ensures
        out@ == s@,
{
    let n = s.unicode_len();
    let mut out: Vec<char> = Vec::new();
    let mut i: usize = 0;
    while i < n
        invariant
            n == s@.len(),
            i <= n,
            out@ == s@.subrange(0, i as int),
        decreases n - i,
    {
        out.push(s.get_char(i));
        i = i + 1;
    }
    assert(out@ =~= s@);
    out
}

/// A `String` holding the characters of `v`.
pub fn string_from_chars(v: &Vec<char>) -> (s: String)
    ensures
        s@ == v@,
{
    let mut s = String::new();
    let mut i: usize = 0;
    while i < v.len()
        invariant
            i <= v@.len(),
            s@ == v@.subrange(0, i as int),
        decreases v@.len() - i,
    {
        push_char(&mut s, v[i]);
        i = i + 1;
        assert(s@ =~= v@.subrange(0, i as int));
    }
    assert(s@ =~= v@);
    s
}

/// Whether `v` holds exactly the characters of `lit`.
pub fn eq_lit(v: &Vec<char>, lit: &str) -> (b: bool)
    ensures
        b == (v@ == lit@),
{
    let w = chars_of(lit);
    if v.len() != w.len() {
        return false;
    }
    let mut i: usize = 0;
    while i < v.len()
        invariant
            v@.len() == w@.len(),
            w@ == lit@,
            i <= v@.len(),
            forall|j: int| 0 <= j < i ==> v@[j] == w@[j],
        decreases v@.len() - i,
    {
        if v[i] != w[i] {
            return false;
        }
        i = i + 1;
    }
    assert(v@ =~= w@);
    true
}

/// The Unicode `White_Space` characters, which `char::is_whitespace` recognises.
pub open spec fn is_ws(c: char) -> bool {
    let u = c as u32;
    ||| 0x09 <= u <= 0x0D
    ||| u == 0x20
    ||| u == 0x85
    ||| u == 0xA0
    ||| u == 0x1680
    ||| 0x2000 <= u <= 0x200A
    ||| u == 0x2028
    ||| u == 0x2029
    ||| u == 0x202F
    ||| u == 0x205F
    ||| u == 0x3000
}

/// Whether `c` is white space (`char::is_whitespace`).
pub fn char_is_whitespace(c: char) -> (b: bool)
    ensures
        b == is_ws(c),
{
    let u = c as u32;
    (0x09 <= u && u <= 0x0D) || u == 0x20 || u == 0x85 || u == 0xA0 || u == 0x1680 || (0x2000
        <= u && u <= 0x200A) || u == 0x2028 || u == 0x2029 || u == 0x202F || u == 0x205F || u
        == 0x3000
}

/// `s` without its leading white space.
pub open spec fn trim_start(s: Seq<char>) -> Seq<char>
    decreases s.len(),
{
    if s.len() > 0 && is_ws(s[0]) {
        trim_start(s.drop_first())
    } else {
        s
    }
}

/// `s` without its trailing white space.
pub open spec fn trim_end(s: Seq<char>) -> Seq<char>
    decreases s.len(),
{
    if s.len() > 0 && is_ws(s.last()) {
        trim_end(s.drop_last())
    } else {
        s
    }
}

/// `s` without leading and trailing white space (`str::trim`).
pub open spec fn spec_trim(s: Seq<char>) -> Seq<char> {
    trim_end(trim_start(s))
}

/// `v` without leading and trailing white space.
pub fn trim_chars(v: &Vec<char>) -> (out: Vec<char>)
    ensures
        out@ == spec_trim(v@),
{
    let n = v.len();
    let mut lo: usize = 0;
    assert(v@.subrange(0, n as int) =~= v@);
    while lo < n && char_is_whitespace(v[lo])
        invariant
            n == v@.len(),
            lo <= n,
            trim_start(v@) == trim_start(v@.subrange(lo as int, n as int)),
        decreases n - lo,
    {
        assert(v@.subrange(lo as int, n as int).drop_first() =~= v@.subrange(lo + 1, n as int));
        lo = lo + 1;
    }
    let ghost mid = v@.subrange(lo as int, n as int);
    assert(trim_start(v@) == mid);
    let mut hi: usize = n;
    while hi > lo && char_is_whitespace(v[hi - 1])
        invariant
            n == v@.len(),
            lo <= hi <= n,
            mid == v@.subrange(lo as int, n as int),
            trim_end(mid) == trim_end(v@.subrange(lo as int, hi as int)),
        decreases hi - lo,
    {
        assert(v@.subrange(lo as int, hi as int).drop_last() =~= v@.subrange(lo as int, hi - 1));
        hi = hi - 1;
    }
    let mut out: Vec<char> = Vec::new();
    let mut i: usize = lo;
    while i < hi
        invariant
            n == v@.len(),
            lo <= i <= hi <= n,
            out@ == v@.subrange(lo as int, i as int),
        decreases hi - i,
    {
        out.push(v[i]);
        i = i + 1;
        assert(out@ =~= v@.subrange(lo as int, i as int));
    }
    out
}

/// `c` with `a..=z` mapped to `A..=Z`.
pub open spec fn upper_char(c: char) -> char {
    if 'a' <= c <= 'z' {
        ((c as u32) - 32) as char
    } else {
        c
    }
}

/// `c` mapped by `char::to_ascii_uppercase`.
pub fn to_ascii_upper_char(c: char) -> (r: char)
    ensures
        r == upper_char(c),
{
    if 'a' <= c && c <= 'z' {
        let u = (c as u8) - 32;
        u as char
    } else {
        c
    }
}

pub open spec fn upper_seq(s: Seq<char>) -> Seq<char> {
    s.map_values(|c: char| upper_char(c))
}

/// `v` mapped by `str::to_ascii_uppercase`.
pub fn to_ascii_upper(v: &Vec<char>) -> (out: Vec<char>)
    ensures
        out@ == upper_seq(v@),
{
    let mut out: Vec<char> = Vec::new();
    let mut i: usize = 0;
    while i < v.len()
        invariant
            i <= v@.len(),
            out@ == upper_seq(v@.subrange(0, i as int)),
        decreases v@.len() - i,
    {
        out.push(to_ascii_upper_char(v[i]));
        i = i + 1;
        assert(out@ =~= upper_seq(v@.subrange(0, i as int)));
    }
    assert(v@.subrange(0, v@.len() as int) =~= v@);
    out
}

/// Splitting state after reading `s`: the pieces completed so far and the
/// piece still open.
pub open spec fn split_acc(s: Seq<char>, sep: char) -> (Seq<Seq<char>>, Seq<char>)
    decreases s.len(),
{
    if s.len() == 0 {
        (Seq::empty(), Seq::empty())
    } else {
        let (done, cur) = split_acc(s.drop_last(), sep);
        if s.last() == sep {
            (done.push(cur), Seq::empty())
        } else {
            (done, cur.push(s.last()))
        }
    }
}

/// The pieces of `s` between occurrences of `sep` (`str::split`): always at
/// least one piece, empty pieces kept.
pub open spec fn spec_split(s: Seq<char>, sep: char) -> Seq<Seq<char>> {
    split_acc(s, sep).0.push(split_acc(s, sep).1)
}

pub open spec fn views_of(v: Seq<Vec<char>>) -> Seq<Seq<char>> {
    v.map_values(|t: Vec<char>| t@)
}

/// The pieces of `v` between occurrences of `sep`.
pub fn split_chars(v: &Vec<char>, sep: char) -> (out: Vec<Vec<char>>)
    ensures
        views_of(out@) == spec_split(v@, sep),
{
    let mut done: Vec<Vec<char>> = Vec::new();
    let mut cur: Vec<char> = Vec::new();
    let mut i: usize = 0;
    while i < v.len()
        invariant
            i <= v@.len(),
            views_of(done@) == split_acc(v@.subrange(0, i as int), sep).0,
            cur@ == split_acc(v@.subrange(0, i as int), sep).1,
        decreases v@.len() - i,
    {
        let c = v[i];
        assert(v@.subrange(0, i + 1).drop_last() =~= v@.subrange(0, i as int));
        if c == sep {
            let piece = cur;
            done.push(piece);
            cur = Vec::new();
            assert(views_of(done@) =~= split_acc(v@.subrange(0, i + 1), sep).0);
        } else {
            cur.push(c);
        }
        i = i + 1;
    }
    assert(v@.subrange(0, v@.len() as int) =~= v@);
    let ghost before = done@;
    done.push(cur);
    assert(views_of(done@) =~= views_of(before).push(cur@));
    done
}

pub open spec fn is_digit(c: char) -> bool {
    '0' <= c <= '9'
}

/// Value of a string of decimal digits.
pub open spec fn digits_value(s: Seq<char>) -> int
    decreases s.len(),
{
    if s.len() == 0 {
        0
    } else {
        digits_value(s.drop_last()) * 10 + ((s.last() as u32) - ('0' as u32))
    }
}

pub open spec fn all_digits(s: Seq<char>) -> bool {
    forall|i: int| 0 <= i < s.len() ==> is_digit(#[trigger] s[i])
}

/// What `str::parse::<u32>` returns: an optional `+`, then at least one ASCII
/// digit, and a value that fits in `u32`.
pub open spec fn spec_parse_u32(s: Seq<char>) -> Option<u32> {
    let body = if s.len() > 0 && s[0] == '+' {
        s.drop_first()
    } else {
        s
    };
    if body.len() > 0 && all_digits(body) && digits_value(body) <= u32::MAX {
        Some(digits_value(body) as u32)
    } else {
        None
    }
}

proof fn lemma_digits_value_nonneg(s: Seq<char>)
    requires
        all_digits(s),
    ensures
        digits_value(s) >= 0,
    decreases s.len(),
{
    if s.len() > 0 {
        assert(is_digit(s[s.len() - 1]));
        assert(all_digits(s.drop_last())) by {
            assert forall|i: int| 0 <= i < s.drop_last().len() implies is_digit(
                #[trigger] s.drop_last()[i],
            ) by {
                assert(s.drop_last()[i] == s[i]);
            }
        }
        lemma_digits_value_nonneg(s.drop_last());
    }
}

/// `v[start..]` parsed as `str::parse::<u32>` does.
pub fn parse_u32_from(v: &Vec<char>, start: usize) -> (r: Option<u32>)
    requires
        start <= v@.len(),
    ensures
        r == spec_parse_u32(v@.subrange(start as int, v@.len() as int)),
{
    let ghost s = v@.subrange(start as int, v@.len() as int);
    let n = v.len();
    let mut i = start;
    if i < n && v[i] == '+' {
        i = i + 1;
    }
    let ghost body = v@.subrange(i as int, n as int);
    assert(body =~= (if s.len() > 0 && s[0] == '+' {
        s.drop_first()
    } else {
        s
    }));
    if i >= n {
        return None;
    }
    let body_start = i;
    let mut acc: u64 = 0;
    let mut overflow = false;
    while i < n
        invariant
            n == v@.len(),
            body_start <= i <= n,
            body == v@.subrange(body_start as int, n as int),
            s == v@.subrange(start as int, v@.len() as int),
            body == (if s.len() > 0 && s[0] == '+' {
                s.drop_first()
            } else {
                s
            }),
            all_digits(v@.subrange(body_start as int, i as int)),
            overflow <==> digits_value(v@.subrange(body_start as int, i as int)) > u32::MAX,
            !overflow ==> acc == digits_value(v@.subrange(body_start as int, i as int)),
            acc <= u32::MAX,
        decreases n - i,
    {
        let c = v[i];
        if !('0' <= c && c <= '9') {
            assert(body[i - body_start] == c);
            assert(!is_digit(body[i - body_start]));
            assert(!all_digits(body));
            return None;
        }
        let ghost prev = v@.subrange(body_start as int, i as int);
        let ghost next = v@.subrange(body_start as int, i + 1);
        assert(next.drop_last() =~= prev);
        assert(next.last() == c);
        assert(all_digits(next)) by {
            assert forall|j: int| 0 <= j < next.len() implies is_digit(#[trigger] next[j]) by {
                if j < prev.len() {
                    assert(next[j] == prev[j]);
                }
            }
        }
        proof {
            lemma_digits_value_nonneg(prev);
        }
        let d = (c as u64) - ('0' as u64);
        if !overflow {
            let t = acc * 10 + d;
            if t > 0xFFFF_FFFF {
                overflow = true;
                acc = 0;
            } else {
                acc = t;
            }
        }
        i = i + 1;
    }
    assert(v@.subrange(body_start as int, i as int) =~= body);
    if overflow {
        None
    } else {
        Some(acc as u32)
    }
}

/// What `str::parse::<u64>` returns: an optional `+`, then at least one ASCII
/// digit, and a value that fits in `u64`.
pub open spec fn spec_parse_u64(s: Seq<char>) -> Option<u64> {
    let body = if s.len() > 0 && s[0] == '+' {
        s.drop_first()
    } else {
        s
    };
    if body.len() > 0 && all_digits(body) && digits_value(body) <= u64::MAX {
        Some(digits_value(body) as u64)
    } else {
        None
    }
}

/// `v[start..]` parsed as `str::parse::<u64>` does.
pub fn parse_u64_from(v: &Vec<char>, start: usize) -> (r: Option<u64>)
    requires
        start <= v@.len(),
    ensures
        r == spec_parse_u64(v@.subrange(start as int, v@.len() as int)),
{
    let ghost s = v@.subrange(start as int, v@.len() as int);
    let n = v.len();
    let mut i = start;
    if i < n && v[i] == '+' {
        i = i + 1;
    }
    let ghost body = v@.subrange(i as int, n as int);
    assert(body =~= (if s.len() > 0 && s[0] == '+' {
        s.drop_first()
    } else {
        s
    }));
    if i >= n {
        return None;
    }
    let body_start = i;
    let mut acc: u128 = 0;
    let mut overflow = false;
    while i < n
        invariant
            n == v@.len(),
            body_start <= i <= n,
            body == v@.subrange(body_start as int, n as int),
            s == v@.subrange(start as int, v@.len() as int),
            body == (if s.len() > 0 && s[0] == '+' {
                s.drop_first()
            } else {
                s
            }),
            all_digits(v@.subrange(body_start as int, i as int)),
            overflow <==> digits_value(v@.subrange(body_start as int, i as int)) > u64::MAX,
            !overflow ==> acc == digits_value(v@.subrange(body_start as int, i as int)),
            acc <= u64::MAX,
        decreases n - i,
    {
        let c = v[i];
        if !('0' <= c && c <= '9') {
            assert(body[i - body_start] == c);
            assert(!is_digit(body[i - body_start]));
            assert(!all_digits(body));
            return None;
        }
        let ghost prev = v@.subrange(body_start as int, i as int);
        let ghost next = v@.subrange(body_start as int, i + 1);
        assert(next.drop_last() =~= prev);
        assert(next.last() == c);
        assert(all_digits(next)) by {
            assert forall|j: int| 0 <= j < next.len() implies is_digit(#[trigger] next[j]) by {
                if j < prev.len() {
                    assert(next[j] == prev[j]);
                }
            }
        }
        proof {
            lemma_digits_value_nonneg(prev);
        }
        let d = (c as u128) - ('0' as u128);
        if !overflow {
            let t = acc * 10 + d;
            if t > 0xFFFF_FFFF_FFFF_FFFF {
                overflow = true;
                acc = 0;
            } else {
                acc = t;
            }
        }
        i = i + 1;
    }
    assert(v@.subrange(body_start as int, i as int) =~= body);
    if overflow {
        None
    } else {
        Some(acc as u64)
    }
}

/// Every character of a trimmed string meets a property that every
/// character of the string meets.
pub proof fn lemma_trim_preserves(s: Seq<char>, p: spec_fn(char) -> bool)
    requires
        forall|i: int| 0 <= i < s.len() ==> p(#[trigger] s[i]),
    ensures
        forall|j: int| 0 <= j < spec_trim(s).len() ==> p(#[trigger] spec_trim(s)[j]),
{
    lemma_trim_start_preserves(s, p);
    lemma_trim_end_preserves(trim_start(s), p);
}

proof fn lemma_trim_start_preserves(s: Seq<char>, p: spec_fn(char) -> bool)
    requires
        forall|i: int| 0 <= i < s.len() ==> p(#[trigger] s[i]),
    ensures
        forall|j: int| 0 <= j < trim_start(s).len() ==> p(#[trigger] trim_start(s)[j]),
    decreases s.len(),
{
    if s.len() > 0 && is_ws(s[0]) {
        let d = s.drop_first();
        assert forall|i: int| 0 <= i < d.len() implies p(#[trigger] d[i]) by {
            assert(d[i] == s[i + 1]);
        }
        lemma_trim_start_preserves(d, p);
        assert(trim_start(s) == trim_start(d));
    } else {
        assert(trim_start(s) == s);
    }
}

proof fn lemma_trim_end_preserves(s: Seq<char>, p: spec_fn(char) -> bool)
    requires
        forall|i: int| 0 <= i < s.len() ==> p(#[trigger] s[i]),
    ensures
        forall|j: int| 0 <= j < trim_end(s).len() ==> p(#[trigger] trim_end(s)[j]),
    decreases s.len(),
{
    if s.len() > 0 && is_ws(s.last()) {
        let d = s.drop_last();
        assert forall|i: int| 0 <= i < d.len() implies p(#[trigger] d[i]) by {
            assert(d[i] == s[i]);
        }
        lemma_trim_end_preserves(d, p);
        assert(trim_end(s) == trim_end(d));
    } else {
        assert(trim_end(s) == s);
    }
}

/// Whether a code unit stands for a character by itself (it is no surrogate).
pub open spec fn is_plain_unit(u: u16) -> bool {
    u < 0xD800 || 0xE000 <= u
}

/// UTF-16 decoded with each unpaired surrogate replaced by U+FFFD: a plain
/// unit is its own character, a high surrogate (D800 to DBFF) followed by a
/// low one (DC00 to DFFF) is the character they encode together, and any
/// other surrogate is a replacement character, decoding going on with the
/// next unit.
pub open spec fn utf16_lossy(units: Seq<u16>) -> Seq<char>
    decreases units.len(),
{
    if units.len() == 0 {
        Seq::empty()
    } else if is_plain_unit(units[0]) {
        seq![units[0] as char] + utf16_lossy(units.drop_first())
    } else if units[0] < 0xDC00 && units.len() >= 2 && 0xDC00 <= units[1] < 0xE000 {
        seq![(0x10000 + (units[0] - 0xD800) * 0x400 + (units[1] - 0xDC00)) as char] + utf16_lossy(
            units.subrange(2, units.len() as int),
        )
    } else {
        seq!['\u{FFFD}'] + utf16_lossy(units.drop_first())
    }
}

/// Decodes UTF-16 with `String::from_utf16_lossy`, which the standard
/// library documents as decoding the units and replacing invalid data (an
/// unpaired surrogate) with U+FFFD.
#[verifier::external_body]
fn decode_utf16_lossy(units: &[u16]) -> (s: String)
    ensures
        s@ == utf16_lossy(units@),
{
    String::from_utf16_lossy(units)
}

/// Code units that are no surrogates decode one for one to the characters
/// with those values.
pub proof fn law_plain_units_decode_one_for_one(units: Seq<u16>)
    requires
        forall|i: int| 0 <= i < units.len() ==> is_plain_unit(#[trigger] units[i]),
    ensures
        utf16_lossy(units) == units.map_values(|u: u16| u as char),
    decreases units.len(),
{
    if units.len() > 0 {
        let rest = units.drop_first();
        assert forall|i: int| 0 <= i < rest.len() implies is_plain_unit(#[trigger] rest[i]) by {
            assert(rest[i] == units[i + 1]);
        }
        law_plain_units_decode_one_for_one(rest);
        assert(utf16_lossy(units) =~= units.map_values(|u: u16| u as char));
    }
}

/// How many code units come before the first NUL (all of them when there is
/// none).
pub open spec fn nul_end(s: Seq<u16>) -> nat
    decreases s.len(),
{
    if s.len() == 0 || s[0] == 0 {
        0
    } else {
        1 + nul_end(s.drop_first())
    }
}

proof fn lemma_nul_end_bound(s: Seq<u16>)
    ensures
        nul_end(s) <= s.len(),
    decreases s.len(),
{
    if s.len() > 0 && s[0] != 0 {
        lemma_nul_end_bound(s.drop_first());
    }
}

/// A NUL-terminated UTF-16 buffer as a string: the code units before the
/// first NUL, decoded with invalid units replaced.
pub fn utf16_to_string(chars: &[u16]) -> (s: String)
    ensures
        nul_end(chars@) <= chars@.len(),
        s@ == utf16_lossy(chars@.subrange(0, nul_end(chars@) as int)),
{
    let n = chars.len();
    let mut end: usize = 0;
    assert(chars@.subrange(0, n as int) =~= chars@);
    while end < n && chars[end] != 0
        invariant
            n == chars@.len(),
            end <= n,
            nul_end(chars@) == end + nul_end(chars@.subrange(end as int, n as int)),
        decreases n - end,
    {
        let ghost rest = chars@.subrange(end as int, n as int);
        assert(rest.drop_first() =~= chars@.subrange(end + 1, n as int));
        end = end + 1;
    }
    proof {
        if end < n {
            assert(chars@.subrange(end as int, n as int)[0] == 0);
        }
        lemma_nul_end_bound(chars@);
    }
    decode_utf16_lossy(&chars[0..end])
}

} // verus!
