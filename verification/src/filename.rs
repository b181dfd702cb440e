//! File names for saved captures: expanding `%`-patterns with the date and
//! time, and turning the result into a name Windows accepts.
use vstd::prelude::*;
use crate::shortcuts::{dec_digits, push_dec, push_str_chars};
use crate::text::{chars_of, eq_lit, spec_trim, string_from_chars, trim_chars, upper_seq};

verus! {

/// The calendar and clock fields a file name pattern can use.
#[derive(Clone, Copy, Debug, PartialEq, Eq, Structural)]
pub struct DateTimeParts {
    pub year: i32,
    /// 1 to 12.
    pub month: u8,
    pub day: u8,
    pub hour: u8,
    pub minute: u8,
    pub second: u8,
    /// Day of the year, from 1.
    pub ordinal: u16,
    /// Monday is 1, Sunday 7.
    pub weekday_from_monday: u8,
    /// ISO 8601 week number.
    pub iso_week: u8,
}

/// The weekday of January 1st of `year` in the proleptic Gregorian calendar,
/// counted from Sunday (0) to Saturday (6) (Gauss's rule: each year moves
/// January 1st one weekday on, each leap year one more).
pub open spec fn jan1_weekday(year: i32) -> u8 {
    let y = year - 1;
    ((1 + 5 * (y % 4) + 4 * (y % 100) + 6 * (y % 400)) % 7) as u8
}

/// Weekday of January 1st: builds that date with
/// `time::Date::from_calendar_date(year, January, 1)`, which succeeds for
/// the years -9999 to 9999 of the proleptic Gregorian calendar, and reads
/// `weekday().number_days_from_sunday()` of it, Sunday being 0.
#[verifier::external_body]
fn first_weekday_of_year(year: i32) -> (w: u8)
    requires
        -9999 <= year <= 9999,
    ensures
        w == jan1_weekday(year),
        w < 7,
{
    match time::Date::from_calendar_date(year, time::Month::January, 1) {
        Ok(date) => date.weekday().number_days_from_sunday(),
        Err(_) => 0,
    }
}

/// Week of the year with weeks starting on Sunday (`%U`): 0 before the
/// first Sunday, then 1, 2, ... (kept to a byte by the callers); `jan1` is the weekday of January 1st from Sunday.
pub open spec fn spec_week_from_jan1(jan1: int, ordinal: int) -> int {
    let first_sunday = if jan1 == 0 { 1 } else { 8 - jan1 };
    if ordinal < first_sunday {
        0
    } else {
        (ordinal - first_sunday) / 7 + 1
    }
}

/// The `%U` week number of the day `ordinal` of a year starting on weekday `jan1`.
pub fn week_number_from_jan1(jan1: u8, ordinal: u16) -> (w: u8)
    requires
        jan1 < 7,
    ensures
        w == spec_week_from_jan1(jan1 as int, ordinal as int) as u8,
{
    let first_sunday: u16 = if jan1 == 0 { 1 } else { 8 - jan1 as u16 };
    if ordinal < first_sunday {
        return 0;
    }
    #[verifier::truncate]
    ((((ordinal - first_sunday) / 7) + 1) as u8)
}

/// Weekday of the first day of the year as the week number uses it: that of
/// January 1st, or, for a year the calendar crate does not hold, that of the
/// day itself.
pub open spec fn year_start_weekday(now: DateTimeParts) -> int {
    if -9999 <= now.year <= 9999 {
        jan1_weekday(now.year) as int
    } else {
        now.weekday_from_monday as int % 7
    }
}

/// The `%U` week number of `now`.
pub fn week_number_sunday_start(now: DateTimeParts) -> (w: u8)
    requires
        now.weekday_from_monday <= 7,
    ensures
        0 <= year_start_weekday(now) < 7,
        w == spec_week_from_jan1(year_start_weekday(now), now.ordinal as int) as u8,
        now.ordinal <= 366 ==> w as int == spec_week_from_jan1(year_start_weekday(now), now.ordinal as int),
        now.ordinal <= 366 ==> w <= 53,
{
    let jan1 = if -9999 <= now.year && now.year <= 9999 {
        first_weekday_of_year(now.year)
    } else {
        now.weekday_from_monday % 7
    };
    let w = week_number_from_jan1(jan1, now.ordinal);
    proof {
        let j = year_start_weekday(now);
        let first_sunday = if j == 0 { 1int } else { 8 - j };
        if now.ordinal <= 366 && now.ordinal >= first_sunday {
            assert((now.ordinal - first_sunday) / 7 <= 52);
        }
    }
    w
}

/// `n` in decimal, zero-padded to `width` characters, a minus sign counting
/// toward the width (as `{:0width}` writes it).
pub open spec fn padded(n: int, width: int) -> Seq<char> {
    if n < 0 {
        seq!['-'] + zero_pad(dec_digits((-n) as nat), width - 1)
    } else {
        zero_pad(dec_digits(n as nat), width)
    }
}

pub open spec fn zero_pad(digits: Seq<char>, width: int) -> Seq<char> {
    if digits.len() >= width {
        digits
    } else {
        Seq::new((width - digits.len()) as nat, |i: int| '0') + digits
    }
}

/// The text a pattern character after `%` stands for.
pub open spec fn expand(c: char, now: DateTimeParts) -> Seq<char> {
    if c == '%' {
        seq!['%']
    } else if c == 'Y' {
        padded(now.year as int, 4)
    } else if c == 'y' {
        padded((now.year as int) % 100, 2)
    } else if c == 'C' {
        padded((now.year as int) / 100, 2)
    } else if c == 'm' {
        padded(now.month as int, 2)
    } else if c == 'd' {
        padded(now.day as int, 2)
    } else if c == 'e' {
        dec_digits(now.day as nat)
    } else if c == 'H' {
        padded(now.hour as int, 2)
    } else if c == 'I' {
        padded(if now.hour % 12 == 0 { 12 } else { (now.hour % 12) as int }, 2)
    } else if c == 'M' {
        padded(now.minute as int, 2)
    } else if c == 'S' {
        padded(now.second as int, 2)
    } else if c == 'j' {
        padded(now.ordinal as int, 3)
    } else if c == 'u' {
        dec_digits(now.weekday_from_monday as nat)
    } else if c == 'V' {
        padded(now.iso_week as int, 2)
    } else if c == 'U' {
        padded((spec_week_from_jan1(year_start_weekday(now), now.ordinal as int) as u8) as int, 2)
    } else if c == 'F' {
        padded(now.year as int, 4) + seq!['-'] + padded(now.month as int, 2) + seq!['-'] + padded(now.day as int, 2)
    } else {
        seq!['%', c]
    }
}

/// A pattern with each `%x` replaced by what it stands for; a `%` at the
/// very end stays.
pub open spec fn render(t: Seq<char>, now: DateTimeParts) -> Seq<char>
    decreases t.len(),
{
    if t.len() == 0 {
        Seq::empty()
    } else if t[0] != '%' {
        seq![t[0]] + render(t.drop_first(), now)
    } else if t.len() == 1 {
        seq!['%']
    } else {
        expand(t[1], now) + render(t.subrange(2, t.len() as int), now)
    }
}

/// `%I` writes the hour on the 12-hour clock: two digits of a value from 1
/// to 12 that agrees with the hour modulo 12 (midnight and noon read 12).
pub proof fn law_twelve_hour_clock(now: DateTimeParts, rest: Seq<char>)
    ensures
        exists|v: int|
            1 <= v <= 12 && v % 12 == now.hour % 12 && #[trigger] expand('I', now) == padded(v, 2),
        render(seq!['%', 'I'] + rest, now) == expand('I', now) + render(rest, now),
{
    let v = if now.hour % 12 == 0 { 12int } else { (now.hour % 12) as int };
    assert(expand('I', now) == padded(v, 2));
    let t = seq!['%', 'I'] + rest;
    assert(t.subrange(2, t.len() as int) =~= rest);
}

/// The expanded pattern, or `capture` when it is blank.
pub open spec fn spec_render_filename_template(t: Seq<char>, now: DateTimeParts) -> Seq<char> {
    if spec_trim(render(t, now)).len() == 0 {
        "capture"@
    } else {
        render(t, now)
    }
}

fn push_padded(out: &mut Vec<char>, n: i64, width: usize)
    requires
        -0xFFFF_FFFF <= n <= 0xFFFF_FFFF,
        1 <= width <= 4,
    ensures
        final(out)@ == old(out)@ + padded(n as int, width as int),
{
    let mut digits: Vec<char> = Vec::new();
    let magnitude: u32 = if n < 0 { (-n) as u32 } else { n as u32 };
    push_dec(&mut digits, magnitude);
    assert(digits@ =~= dec_digits(magnitude as nat));
    let w = if n < 0 {
        out.push('-');
        width - 1
    } else {
        width
    };
    let ghost before = out@;
    if digits.len() < w {
        let mut k: usize = 0;
        let fill = w - digits.len();
        while k < fill
            invariant
                k <= fill,
                out@ == before + Seq::new(k as nat, |i: int| '0'),
            decreases fill - k,
        {
            out.push('0');
            k = k + 1;
            assert(out@ =~= before + Seq::new(k as nat, |i: int| '0'));
        }
    }
    let mut j: usize = 0;
    let ghost mid = out@;
    while j < digits.len()
        invariant
            j <= digits@.len(),
            out@ == mid + digits@.subrange(0, j as int),
        decreases digits@.len() - j,
    {
        out.push(digits[j]);
        j = j + 1;
        assert(out@ =~= mid + digits@.subrange(0, j as int));
    }
    assert(digits@.subrange(0, digits@.len() as int) =~= digits@);
    assert(final(out)@ =~= old(out)@ + padded(n as int, width as int));
}

fn push_expansion(out: &mut Vec<char>, c: char, now: DateTimeParts)
    requires
        now.weekday_from_monday <= 7,
    ensures
        final(out)@ == old(out)@ + expand(c, now),
{
    if c == '%' {
        out.push('%');
        assert(final(out)@ =~= old(out)@ + expand(c, now));
    } else if c == 'Y' {
        push_padded(out, now.year as i64, 4);
    } else if c == 'y' {
        let shifted = now.year as i64 + 3_000_000_000;
        let r = shifted % 100;
        assert(r == (now.year as int) % 100) by (nonlinear_arith)
            requires
                shifted == now.year + 3_000_000_000,
                shifted >= 0,
                r == shifted % 100,
        ;
        push_padded(out, r, 2);
    } else if c == 'C' {
        let shifted = now.year as i64 + 3_000_000_000;
        let q = shifted / 100 - 30_000_000;
        assert(q == (now.year as int) / 100) by (nonlinear_arith)
            requires
                shifted == now.year + 3_000_000_000,
                shifted >= 0,
                q == shifted / 100 - 30_000_000,
        ;
        push_padded(out, q, 2);
    } else if c == 'm' {
        push_padded(out, now.month as i64, 2);
    } else if c == 'd' {
        push_padded(out, now.day as i64, 2);
    } else if c == 'e' {
        push_dec(out, now.day as u32);
    } else if c == 'H' {
        push_padded(out, now.hour as i64, 2);
    } else if c == 'I' {
        let h = if now.hour % 12 == 0 { 12 } else { now.hour % 12 };
        push_padded(out, h as i64, 2);
    } else if c == 'M' {
        push_padded(out, now.minute as i64, 2);
    } else if c == 'S' {
        push_padded(out, now.second as i64, 2);
    } else if c == 'j' {
        push_padded(out, now.ordinal as i64, 3);
    } else if c == 'u' {
        push_dec(out, now.weekday_from_monday as u32);
    } else if c == 'V' {
        push_padded(out, now.iso_week as i64, 2);
    } else if c == 'U' {
        let w = week_number_sunday_start(now);
        push_padded(out, w as i64, 2);
    } else if c == 'F' {
        let ghost o0 = out@;
        push_padded(out, now.year as i64, 4);
        out.push('-');
        push_padded(out, now.month as i64, 2);
        out.push('-');
        push_padded(out, now.day as i64, 2);
        assert(final(out)@ =~= o0 + expand(c, now));
    } else {
        out.push('%');
        out.push(c);
        assert(final(out)@ =~= old(out)@ + expand(c, now));
    }
}

/// Expands a file name pattern: `%Y %y %C %m %d %e %H %I %M %S %j %u %V %U %F`
/// and `%%` as `strftime` does; other `%x` stay as written. A blank result
/// becomes `capture`.
pub fn render_filename_template(template: &str, now: DateTimeParts) -> (s: String)
    requires
        now.weekday_from_monday <= 7,
    ensures
        s@ == spec_render_filename_template(template@, now),
{
    let t = chars_of(template);
    let n = t.len();
    let mut out: Vec<char> = Vec::new();
    let mut i: usize = 0;
    assert(t@.subrange(0, n as int) =~= t@);
    while i < n
        invariant
            n == t@.len(),
            i <= n,
            t@ == template@,
            now.weekday_from_monday <= 7,
            render(t@, now) == out@ + render(t@.subrange(i as int, n as int), now),
        decreases n - i,
    {
        let ghost rest = t@.subrange(i as int, n as int);
        let ch = t[i];
        if ch != '%' {
            assert(rest.drop_first() =~= t@.subrange(i + 1, n as int));
            out.push(ch);
            i = i + 1;
            assert(render(t@, now) =~= out@ + render(t@.subrange(i as int, n as int), now));
        } else if i + 1 >= n {
            out.push('%');
            i = i + 1;
            assert(render(t@, now) =~= out@ + render(t@.subrange(i as int, n as int), now));
        } else {
            assert(rest.subrange(2, rest.len() as int) =~= t@.subrange(i + 2, n as int));
            push_expansion(&mut out, t[i + 1], now);
            i = i + 2;
            assert(render(t@, now) =~= out@ + render(t@.subrange(i as int, n as int), now));
        }
    }
    assert(out@ =~= render(t@, now));
    let trimmed = trim_chars(&out);
    if trimmed.len() == 0 {
        return String::from_str("capture");
    }
    string_from_chars(&out)
}


/// A character Windows does not accept in a file name: a control character
/// or one of `< > : " / \\ | ? *`.
pub open spec fn is_invalid_name_char(c: char) -> bool {
    let u = c as u32;
    u <= 0x1F || (0x7F <= u <= 0x9F) || c == '<' || c == '>' || c == ':' || c == '"' || c == '/' || c == '\\'
        || c == '|' || c == '?' || c == '*'
}

/// `s` without trailing spaces and dots.
pub open spec fn strip_trailing_dots(s: Seq<char>) -> Seq<char>
    decreases s.len(),
{
    if s.len() > 0 && (s.last() == ' ' || s.last() == '.') {
        strip_trailing_dots(s.drop_last())
    } else {
        s
    }
}

/// Index of the last `.` in `s`, or -1.
pub open spec fn last_dot(s: Seq<char>) -> int
    decreases s.len(),
{
    if s.len() == 0 {
        -1
    } else if s.last() == '.' {
        s.len() - 1
    } else {
        last_dot(s.drop_last())
    }
}

/// The part of a file name before its extension, as `Path::file_stem` gives it
/// (a name without a dot, or whose only dot leads, is its own stem).
pub open spec fn file_stem(s: Seq<char>) -> Seq<char> {
    if s == ".."@ || last_dot(s) <= 0 {
        s
    } else {
        s.subrange(0, last_dot(s))
    }
}

/// A file name with no path separator or drive colon.
pub open spec fn plain_name(s: Seq<char>) -> bool {
    forall|i: int| 0 <= i < s.len() ==> #[trigger] s[i] != '/' && s[i] != '\\' && s[i] != ':'
}

/// Whether the stem of a name is a device name Windows reserves (`CON`, `COM1`, ...).
pub open spec fn spec_is_reserved(s: Seq<char>) -> bool {
    let u = upper_seq(file_stem(s));
    u == "CON"@ || u == "PRN"@ || u == "AUX"@ || u == "NUL"@ || u == "COM1"@ || u == "COM2"@ || u == "COM3"@ || u == "COM4"@ || u == "COM5"@ || u == "COM6"@ || u == "COM7"@ || u == "COM8"@ || u == "COM9"@ || u == "LPT1"@ || u == "LPT2"@ || u == "LPT3"@ || u == "LPT4"@ || u == "LPT5"@ || u == "LPT6"@ || u == "LPT7"@ || u == "LPT8"@ || u == "LPT9"@
}

proof fn lemma_last_dot_range(s: Seq<char>)
    ensures
        -1 <= last_dot(s) < s.len(),
        last_dot(s) >= 0 ==> s[last_dot(s)] == '.',
    decreases s.len(),
{
    if s.len() > 0 && s.last() != '.' {
        lemma_last_dot_range(s.drop_last());
    }
}

fn find_last_dot(v: &Vec<char>) -> (r: Option<usize>)
    ensures
        match r {
            Some(k) => last_dot(v@) == k,
            None => last_dot(v@) == -1,
        },
{
    let mut i: usize = v.len();
    assert(v@.subrange(0, i as int) =~= v@);
    while i > 0
        invariant
            i <= v@.len(),
            last_dot(v@) == last_dot(v@.subrange(0, i as int)),
        decreases i,
    {
        assert(v@.subrange(0, i as int).drop_last() =~= v@.subrange(0, i - 1));
        assert(v@.subrange(0, i as int).last() == v@[i - 1]);
        if v[i - 1] == '.' {
            return Some(i - 1);
        }
        i = i - 1;
    }
    None
}

/// Whether a file name is reserved on Windows (its stem, in any case, is
/// `CON`, `PRN`, `AUX`, `NUL`, `COM1`..`COM9` or `LPT1`..`LPT9`).
pub fn is_reserved_windows_name(input: &str) -> (b: bool)
    requires
        plain_name(input@),
    ensures
        b == spec_is_reserved(input@),
{
    let v = chars_of(input);
    assert(v@.subrange(0, v@.len() as int) =~= v@);
    let found = find_last_dot(&v);
    proof {
        lemma_last_dot_range(v@);
        reveal_strlit("..");
    }
    let dots = crate::text::eq_lit(&v, "..");
    let d: usize = match found {
        Some(k) => k,
        None => 0,
    };
    let stem = if dots || d == 0 {
        v
    } else {
        let mut out: Vec<char> = Vec::new();
        let mut i: usize = 0;
        while i < d
            invariant
                0 < d < v@.len(),
                i <= d,
                out@ == v@.subrange(0, i as int),
            decreases d - i,
        {
            out.push(v[i]);
            i = i + 1;
        }
        out
    };
    assert(stem@ == file_stem(input@));
    let u = crate::text::to_ascii_upper(&stem);
    use_reserved_list(&u)
}

fn use_reserved_list(u: &Vec<char>) -> (b: bool)
    ensures
        b == { let u = u@; u == "CON"@ || u == "PRN"@ || u == "AUX"@ || u == "NUL"@ || u == "COM1"@ || u == "COM2"@ || u == "COM3"@ || u == "COM4"@ || u == "COM5"@ || u == "COM6"@ || u == "COM7"@ || u == "COM8"@ || u == "COM9"@ || u == "LPT1"@ || u == "LPT2"@ || u == "LPT3"@ || u == "LPT4"@ || u == "LPT5"@ || u == "LPT6"@ || u == "LPT7"@ || u == "LPT8"@ || u == "LPT9"@ },
{
    let u = u;
    eq_lit(u, "CON") || eq_lit(u, "PRN") || eq_lit(u, "AUX") || eq_lit(u, "NUL") || eq_lit(u, "COM1") || eq_lit(u, "COM2") || eq_lit(u, "COM3") || eq_lit(u, "COM4") || eq_lit(u, "COM5") || eq_lit(u, "COM6") || eq_lit(u, "COM7") || eq_lit(u, "COM8") || eq_lit(u, "COM9") || eq_lit(u, "LPT1") || eq_lit(u, "LPT2") || eq_lit(u, "LPT3") || eq_lit(u, "LPT4") || eq_lit(u, "LPT5") || eq_lit(u, "LPT6") || eq_lit(u, "LPT7") || eq_lit(u, "LPT8") || eq_lit(u, "LPT9")
}

/// The name after cleaning: invalid characters become `_`, surrounding
/// white space and trailing spaces and dots go, a blank name becomes
/// `capture`, and a reserved name gets a `_` appended.
pub open spec fn spec_sanitize_filename(input: Seq<char>) -> Seq<char> {
    let mapped = input.map_values(|c: char| if is_invalid_name_char(c) { '_' } else { c });
    let t = strip_trailing_dots(spec_trim(mapped));
    let u = if t.len() == 0 { "capture"@ } else { t };
    if spec_is_reserved(u) {
        u.push('_')
    } else {
        u
    }
}

proof fn lemma_strip_keeps_plain(s: Seq<char>)
    requires
        plain_name(s),
    ensures
        plain_name(strip_trailing_dots(s)),
        strip_trailing_dots(s).len() <= s.len(),
        strip_trailing_dots(s) == s.subrange(0, strip_trailing_dots(s).len() as int),
    decreases s.len(),
{
    if s.len() > 0 && (s.last() == ' ' || s.last() == '.') {
        assert(plain_name(s.drop_last())) by {
            assert forall|i: int| 0 <= i < s.drop_last().len() implies #[trigger] s.drop_last()[i] != '/' && s.drop_last()[i] != '\\' && s.drop_last()[i] != ':' by {
                assert(s.drop_last()[i] == s[i]);
            }
        }
        lemma_strip_keeps_plain(s.drop_last());
        let r = strip_trailing_dots(s.drop_last());
        assert(r =~= s.subrange(0, r.len() as int));
    } else {
        assert(s.subrange(0, s.len() as int) =~= s);
    }
}

/// Turns a rendered pattern into a file name Windows accepts.
pub fn sanitize_filename(input: &str) -> (s: String)
    ensures
        s@ == spec_sanitize_filename(input@),
        plain_name(s@),
{
    let v = chars_of(input);
    let mut mapped: Vec<char> = Vec::new();
    let mut i: usize = 0;
    let ghost m = input@.map_values(|c: char| if is_invalid_name_char(c) { '_' } else { c });
    while i < v.len()
        invariant
            v@ == input@,
            i <= v@.len(),
            mapped@ == m.subrange(0, i as int),
            m == input@.map_values(|c: char| if is_invalid_name_char(c) { '_' } else { c }),
            m.len() == input@.len(),
        decreases v@.len() - i,
    {
        let c = v[i];
        let u = c as u32;
        let bad = u <= 0x1F || (0x7F <= u && u <= 0x9F) || c == '<' || c == '>' || c == ':' || c == '"' || c == '/'
            || c == '\\' || c == '|' || c == '?' || c == '*';
        assert(bad == is_invalid_name_char(c));
        assert(m[i as int] == (if is_invalid_name_char(c) { '_' } else { c }));
        mapped.push(if bad { '_' } else { c });
        i = i + 1;
        assert(mapped@ =~= m.subrange(0, i as int));
    }
    assert(mapped@ =~= m);
    let trimmed = trim_chars(&mapped);
    let mut end: usize = trimmed.len();
    assert(trimmed@.subrange(0, end as int) =~= trimmed@);
    while end > 0 && (trimmed[end - 1] == ' ' || trimmed[end - 1] == '.')
        invariant
            end <= trimmed@.len(),
            strip_trailing_dots(trimmed@) == strip_trailing_dots(trimmed@.subrange(0, end as int)),
        decreases end,
    {
        assert(trimmed@.subrange(0, end as int).drop_last() =~= trimmed@.subrange(0, end - 1));
        end = end - 1;
    }
    let mut kept: Vec<char> = Vec::new();
    let mut k: usize = 0;
    while k < end
        invariant
            end <= trimmed@.len(),
            k <= end,
            kept@ == trimmed@.subrange(0, k as int),
        decreases end - k,
    {
        kept.push(trimmed[k]);
        k = k + 1;
    }
    assert(kept@ == strip_trailing_dots(trimmed@));
    let mut cleaned = if kept.len() == 0 {
        String::from_str("capture")
    } else {
        string_from_chars(&kept)
    };
    proof {
        reveal_strlit("capture");
        let plain_char = |c: char| c != '/' && c != '\\' && c != ':';
        assert forall|i: int| 0 <= i < m.len() implies plain_char(#[trigger] m[i]) by {
            assert(m[i] == (if is_invalid_name_char(input@[i]) { '_' } else { input@[i] }));
        }
        crate::text::lemma_trim_preserves(m, plain_char);
        assert(plain_name(spec_trim(m))) by {
            assert forall|j: int| 0 <= j < spec_trim(m).len() implies #[trigger] spec_trim(m)[j] != '/' && spec_trim(m)[j] != '\\' && spec_trim(m)[j] != ':' by {
                assert(plain_char(spec_trim(m)[j]));
            }
        }
        lemma_strip_keeps_plain(spec_trim(m));
        assert(plain_name("capture"@));
    }
    let ghost before = cleaned@;
    if is_reserved_windows_name(cleaned.as_str()) {
        crate::text::push_char(&mut cleaned, '_');
        assert forall|j: int| 0 <= j < cleaned@.len() implies #[trigger] cleaned@[j] != '/' && cleaned@[j] != '\\' && cleaned@[j] != ':' by {
            if j < before.len() {
                assert(cleaned@[j] == before[j]);
            }
        }
    }
    cleaned
}

/// Whether a file name has an extension (`Path::extension`): a dot that
/// does not lead the name.
pub open spec fn spec_has_extension(s: Seq<char>) -> bool {
    s != ".."@ && last_dot(s) > 0
}

fn has_extension(v: &Vec<char>) -> (b: bool)
    ensures
        b == spec_has_extension(v@),
{
    proof {
        reveal_strlit("..");
    }
    if eq_lit(v, "..") {
        return false;
    }
    match find_last_dot(v) {
        Some(k) => k > 0,
        None => false,
    }
}

/// The file name a pattern gives at `now`: expanded, cleaned, and given a
/// `.png` extension when it has none.
pub open spec fn spec_preview_filename(template: Seq<char>, now: DateTimeParts) -> Seq<char> {
    let s = spec_sanitize_filename(spec_render_filename_template(template, now));
    if spec_has_extension(s) {
        s
    } else {
        s + ".png"@
    }
}

/// The file name a pattern gives at `now`.
pub fn preview_filename(template: &str, now: DateTimeParts) -> (s: String)
    requires
        now.weekday_from_monday <= 7,
    ensures
        s@ == spec_preview_filename(template@, now),
{
    let rendered = render_filename_template(template, now);
    let mut sanitized = sanitize_filename(rendered.as_str());
    let v = chars_of(sanitized.as_str());
    if !has_extension(&v) {
        sanitized.append(".png");
    }
    sanitized
}

/// Checks the file name pattern field: it must not be blank and must give a
/// non-blank name at `now`; the trimmed pattern is returned.
pub fn validate_filename_template(value: &str, now: DateTimeParts) -> (r: Result<String, String>)
    requires
        now.weekday_from_monday <= 7,
    ensures
        spec_trim(value@).len() == 0 ==> (r matches Err(m) && m@ == "Filename pattern cannot be empty."@),
        spec_trim(value@).len() > 0 && spec_trim(spec_preview_filename(spec_trim(value@), now)).len() == 0 ==> (r matches Err(
            m,
        ) && m@ == "Filename pattern produced an empty name."@),
        spec_trim(value@).len() > 0 && spec_trim(spec_preview_filename(spec_trim(value@), now)).len() > 0 ==> (r matches Ok(
            t,
        ) && t@ == spec_trim(value@)),
{
    let template = match crate::settings::read_required("Filename pattern", value) {
        Ok(t) => t,
        Err(m) => {
            proof {
                reveal_strlit("Filename pattern");
                reveal_strlit(" cannot be empty.");
                reveal_strlit("Filename pattern cannot be empty.");
                assert(m@ =~= "Filename pattern cannot be empty."@);
            }
            return Err(m);
        },
    };
    let preview = preview_filename(template.as_str(), now);
    let trimmed = trim_chars(&chars_of(preview.as_str()));
    if trimmed.len() == 0 {
        return Err(String::from_str("Filename pattern produced an empty name."));
    }
    Ok(template)
}

} // verus!
