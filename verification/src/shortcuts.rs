//! Region editor keyboard shortcuts: parsing strings such as `Ctrl+Shift+S`
//! into key chords and writing chords back as text.
use vstd::prelude::*;
use crate::text::{
    chars_of, eq_lit, is_digit, parse_u32_from, spec_parse_u32, spec_split, spec_trim, split_chars,
    string_from_chars, to_ascii_upper, trim_chars, upper_seq, views_of,
};

verus! {

/// Virtual-key code of Delete.
pub const VK_DELETE: u32 = 0x2E;

/// Virtual-key code of Enter.
pub const VK_RETURN: u32 = 0x0D;

/// Virtual-key code of Escape.
pub const VK_ESCAPE: u32 = 0x1B;

/// A key together with the modifiers held with it.
#[derive(Clone, Copy, Debug, PartialEq, Eq, Structural)]
pub struct KeyChord {
    pub key: u32,
    pub ctrl: bool,
    pub shift: bool,
    pub alt: bool,
}

impl KeyChord {
    /// Whether a key press with these modifiers is this chord.
    pub fn matches(self, key: u32, ctrl: bool, shift: bool, alt: bool) -> (b: bool)
        ensures
            b == (self == KeyChord { key, ctrl, shift, alt }),
    {
        self.key == key && self.ctrl == ctrl && self.shift == shift && self.alt == alt
    }
}

/// Why a shortcut string was rejected.
#[derive(Debug)]
pub enum ShortcutError {
    EmptyToken,
    MultipleKeys,
    /// The (upper-cased) token that names no supported key.
    UnsupportedKey(String),
    MissingKey,
}

/// The content of a [`ShortcutError`].
pub enum ShortcutErrorView {
    EmptyToken,
    MultipleKeys,
    UnsupportedKey(Seq<char>),
    MissingKey,
}

impl View for ShortcutError {
    type V = ShortcutErrorView;

    open spec fn view(&self) -> ShortcutErrorView {
        match self {
            ShortcutError::EmptyToken => ShortcutErrorView::EmptyToken,
            ShortcutError::MultipleKeys => ShortcutErrorView::MultipleKeys,
            ShortcutError::UnsupportedKey(t) => ShortcutErrorView::UnsupportedKey(t@),
            ShortcutError::MissingKey => ShortcutErrorView::MissingKey,
        }
    }
}

pub open spec fn spec_shortcut_message(e: ShortcutErrorView) -> Seq<char> {
    match e {
        ShortcutErrorView::EmptyToken => "shortcut token cannot be empty"@,
        ShortcutErrorView::MultipleKeys => "shortcut must include exactly one non-modifier key"@,
        ShortcutErrorView::UnsupportedKey(t) => "unsupported key `"@ + t + "`"@,
        ShortcutErrorView::MissingKey => "shortcut must include a key"@,
    }
}

impl ShortcutError {
    /// The text that describes this error.
    pub fn message(&self) -> (m: String)
        ensures
            m@ == spec_shortcut_message(self@),
    {
        match self {
            ShortcutError::EmptyToken => String::from_str("shortcut token cannot be empty"),
            ShortcutError::MultipleKeys => String::from_str(
                "shortcut must include exactly one non-modifier key",
            ),
            ShortcutError::UnsupportedKey(t) => {
                let mut m = String::from_str("unsupported key `");
                m.append(t.as_str());
                m.append("`");
                m
            },
            ShortcutError::MissingKey => String::from_str("shortcut must include a key"),
        }
    }
}

pub open spec fn is_ascii_alpha(c: char) -> bool {
    ('A' <= c <= 'Z') || ('a' <= c <= 'z')
}

/// Key code of a one-character punctuation key name.
pub open spec fn spec_punct_key(c: char) -> Option<u32> {
    if c == '[' {
        Some(0xDBu32)
    } else if c == ']' {
        Some(0xDDu32)
    } else if c == ';' {
        Some(0xBAu32)
    } else if c == '\'' {
        Some(0xDEu32)
    } else if c == ',' {
        Some(0xBCu32)
    } else if c == '.' {
        Some(0xBEu32)
    } else if c == '/' {
        Some(0xBFu32)
    } else if c == '-' {
        Some(0xBDu32)
    } else if c == '=' {
        Some(0xBBu32)
    } else if c == '`' {
        Some(0xC0u32)
    } else if c == '\\' {
        Some(0xDCu32)
    } else {
        None
    }
}

fn punct_key(c: char) -> (r: Option<u32>)
    ensures
        r == spec_punct_key(c),
{
    if c == '[' {
        Some(0xDB)
    } else if c == ']' {
        Some(0xDD)
    } else if c == ';' {
        Some(0xBA)
    } else if c == '\'' {
        Some(0xDE)
    } else if c == ',' {
        Some(0xBC)
    } else if c == '.' {
        Some(0xBE)
    } else if c == '/' {
        Some(0xBF)
    } else if c == '-' {
        Some(0xBD)
    } else if c == '=' {
        Some(0xBB)
    } else if c == '`' {
        Some(0xC0)
    } else if c == '\\' {
        Some(0xDC)
    } else {
        None
    }
}

/// Key code that an upper-cased shortcut token names.
pub open spec fn spec_shortcut_key(t: Seq<char>) -> Option<u32> {
    if t.len() == 1 {
        if is_ascii_alpha(t[0]) {
            Some(crate::text::upper_char(t[0]) as u32)
        } else if is_digit(t[0]) {
            Some(t[0] as u32)
        } else {
            spec_punct_key(t[0])
        }
    } else if t.len() >= 1 && t[0] == 'F' && spec_parse_u32(t.drop_first()) is Some && 1
        <= spec_parse_u32(t.drop_first())->0 <= 24 {
        Some((111 + spec_parse_u32(t.drop_first())->0) as u32)
    } else if t == "DELETE"@ || t == "DEL"@ {
        Some(VK_DELETE)
    } else if t == "ENTER"@ || t == "RETURN"@ {
        Some(VK_RETURN)
    } else if t == "ESC"@ || t == "ESCAPE"@ {
        Some(VK_ESCAPE)
    } else if t == "SPACE"@ {
        Some(0x20u32)
    } else if t == "TAB"@ {
        Some(0x09u32)
    } else if t == "BACKSPACE"@ || t == "BKSP"@ {
        Some(0x08u32)
    } else if t == "LEFTBRACKET"@ || t == "LBRACKET"@ {
        Some(0xDBu32)
    } else if t == "RIGHTBRACKET"@ || t == "RBRACKET"@ {
        Some(0xDDu32)
    } else {
        None
    }
}

/// The key code that an upper-cased token names.
pub fn parse_editor_shortcut_key(token: &Vec<char>) -> (r: Option<u32>)
    ensures
        r == spec_shortcut_key(token@),
{
    let n = token.len();
    if n == 1 {
        let ch = token[0];
        if ('A' <= ch && ch <= 'Z') || ('a' <= ch && ch <= 'z') {
            return Some(crate::text::to_ascii_upper_char(ch) as u32);
        }
        if '0' <= ch && ch <= '9' {
            return Some(ch as u32);
        }
        return punct_key(ch);
    }
    if n >= 1 && token[0] == 'F' {
        let parsed = parse_u32_from(token, 1);
        assert(token@.subrange(1, n as int) =~= token@.drop_first());
        if let Some(value) = parsed {
            if 1 <= value && value <= 24 {
                return Some(111 + value);
            }
        }
    }
    if eq_lit(token, "DELETE") || eq_lit(token, "DEL") {
        Some(VK_DELETE)
    } else if eq_lit(token, "ENTER") || eq_lit(token, "RETURN") {
        Some(VK_RETURN)
    } else if eq_lit(token, "ESC") || eq_lit(token, "ESCAPE") {
        Some(VK_ESCAPE)
    } else if eq_lit(token, "SPACE") {
        Some(0x20)
    } else if eq_lit(token, "TAB") {
        Some(0x09)
    } else if eq_lit(token, "BACKSPACE") || eq_lit(token, "BKSP") {
        Some(0x08)
    } else if eq_lit(token, "LEFTBRACKET") || eq_lit(token, "LBRACKET") {
        Some(0xDB)
    } else if eq_lit(token, "RIGHTBRACKET") || eq_lit(token, "RBRACKET") {
        Some(0xDD)
    } else {
        None
    }
}

/// Modifiers and key read so far from the tokens of a shortcut.
#[derive(Clone, Copy, Debug, PartialEq, Eq, Structural)]
pub struct ChordState {
    pub ctrl: bool,
    pub shift: bool,
    pub alt: bool,
    pub key: Option<u32>,
}

/// One token of a shortcut applied to the state read so far.
pub open spec fn shortcut_token(st: ChordState, raw: Seq<char>) -> Result<ChordState, ShortcutErrorView> {
    let t = spec_trim(raw);
    let u = upper_seq(t);
    if t.len() == 0 {
        Err(ShortcutErrorView::EmptyToken)
    } else if u == "CTRL"@ || u == "CONTROL"@ {
        Ok(ChordState { ctrl: true, ..st })
    } else if u == "SHIFT"@ {
        Ok(ChordState { shift: true, ..st })
    } else if u == "ALT"@ {
        Ok(ChordState { alt: true, ..st })
    } else if st.key is Some {
        Err(ShortcutErrorView::MultipleKeys)
    } else {
        match spec_shortcut_key(u) {
            Some(k) => Ok(ChordState { key: Some(k), ..st }),
            None => Err(ShortcutErrorView::UnsupportedKey(u)),
        }
    }
}

pub open spec fn empty_chord_state() -> ChordState {
    ChordState { ctrl: false, shift: false, alt: false, key: None }
}

/// The tokens applied in order; the first error stops the reading.
pub open spec fn shortcut_fold(tokens: Seq<Seq<char>>) -> Result<ChordState, ShortcutErrorView>
    decreases tokens.len(),
{
    if tokens.len() == 0 {
        Ok(empty_chord_state())
    } else {
        match shortcut_fold(tokens.drop_last()) {
            Err(e) => Err(e),
            Ok(st) => shortcut_token(st, tokens.last()),
        }
    }
}

/// The chord that a shortcut string names, or why it names none.
pub open spec fn spec_parse_shortcut(s: Seq<char>) -> Result<KeyChord, ShortcutErrorView> {
    match shortcut_fold(spec_split(s, '+')) {
        Err(e) => Err(e),
        Ok(st) => match st.key {
            None => Err(ShortcutErrorView::MissingKey),
            Some(k) => Ok(KeyChord { key: k, ctrl: st.ctrl, shift: st.shift, alt: st.alt }),
        },
    }
}

proof fn lemma_shortcut_fold_err(ts: Seq<Seq<char>>, k: int, e: ShortcutErrorView)
    requires
        0 <= k <= ts.len(),
        shortcut_fold(ts.subrange(0, k)) == Err::<ChordState, ShortcutErrorView>(e),
    ensures
        shortcut_fold(ts) == Err::<ChordState, ShortcutErrorView>(e),
    decreases ts.len() - k,
{
    if k < ts.len() {
        assert(ts.subrange(0, k + 1).drop_last() =~= ts.subrange(0, k));
        lemma_shortcut_fold_err(ts, k + 1, e);
    } else {
        assert(ts.subrange(0, k) =~= ts);
    }
}

/// Parses an editor shortcut such as `Ctrl+Z`, `Shift+[` or `Delete`.
///
/// Tokens are separated by `+`, trimmed and compared without regard to ASCII
/// case; `Ctrl`/`Control`, `Shift` and `Alt` are modifiers and exactly one
/// other token names the key.
pub fn parse_editor_shortcut(value: &str) -> (r: Result<KeyChord, ShortcutError>)
    ensures
        match r {
            Ok(c) => spec_parse_shortcut(value@) == Ok::<KeyChord, ShortcutErrorView>(c),
            Err(e) => spec_parse_shortcut(value@) == Err::<KeyChord, ShortcutErrorView>(e@),
        },
{
    let chars = chars_of(value);
    let tokens = split_chars(&chars, '+');
    let ghost ts = spec_split(value@, '+');
    let mut st = ChordState { ctrl: false, shift: false, alt: false, key: None };
    let mut i: usize = 0;
    while i < tokens.len()
        invariant
            views_of(tokens@) == ts,
            ts == spec_split(value@, '+'),
            i <= tokens@.len(),
            shortcut_fold(ts.subrange(0, i as int)) == Ok::<ChordState, ShortcutErrorView>(st),
        decreases tokens@.len() - i,
    {
        let ghost raw = tokens@[i as int]@;
        assert(ts[i as int] == raw);
        assert(ts.subrange(0, i + 1).drop_last() =~= ts.subrange(0, i as int));
        assert(ts.subrange(0, i + 1).last() == raw);
        let token = trim_chars(&tokens[i]);
        if token.len() == 0 {
            proof {
                lemma_shortcut_fold_err(ts, i + 1, ShortcutErrorView::EmptyToken);
            }
            return Err(ShortcutError::EmptyToken);
        }
        let upper = to_ascii_upper(&token);
        if eq_lit(&upper, "CTRL") || eq_lit(&upper, "CONTROL") {
            st.ctrl = true;
        } else if eq_lit(&upper, "SHIFT") {
            st.shift = true;
        } else if eq_lit(&upper, "ALT") {
            st.alt = true;
        } else {
            if st.key.is_some() {
                proof {
                    lemma_shortcut_fold_err(ts, i + 1, ShortcutErrorView::MultipleKeys);
                }
                return Err(ShortcutError::MultipleKeys);
            }
            match parse_editor_shortcut_key(&upper) {
                Some(k) => {
                    st.key = Some(k);
                },
                None => {
                    proof {
                        lemma_shortcut_fold_err(
                            ts,
                            i + 1,
                            ShortcutErrorView::UnsupportedKey(upper@),
                        );
                    }
                    return Err(ShortcutError::UnsupportedKey(string_from_chars(&upper)));
                },
            }
        }
        i = i + 1;
    }
    assert(ts.subrange(0, ts.len() as int) =~= ts);
    match st.key {
        None => Err(ShortcutError::MissingKey),
        Some(k) => Ok(KeyChord { key: k, ctrl: st.ctrl, shift: st.shift, alt: st.alt }),
    }
}

/// An upper-case hexadecimal digit.
pub open spec fn hex_digit(d: int) -> char {
    if d < 10 {
        (('0' as int) + d) as char
    } else {
        (('A' as int) + d - 10) as char
    }
}

/// Upper-case hexadecimal digits of `n`, without leading zeros.
pub open spec fn hex_digits(n: nat) -> Seq<char>
    decreases n,
{
    if n < 16 {
        seq![hex_digit(n as int)]
    } else {
        hex_digits(n / 16).push(hex_digit((n % 16) as int))
    }
}

/// Decimal digits of `n`, without leading zeros.
pub open spec fn dec_digits(n: nat) -> Seq<char>
    decreases n,
{
    if n < 10 {
        seq![(('0' as int) + n) as char]
    } else {
        dec_digits(n / 10).push((('0' as int) + (n % 10)) as char)
    }
}

fn push_hex(out: &mut Vec<char>, n: u32)
    ensures
        final(out)@ == old(out)@ + hex_digits(n as nat),
    decreases n,
{
    if n >= 16 {
        push_hex(out, n / 16);
    }
    let d = n % 16;
    let c = if d < 10 {
        (('0' as u32) + d) as u8 as char
    } else {
        (('A' as u32) + d - 10) as u8 as char
    };
    out.push(c);
    assert(final(out)@ =~= old(out)@ + hex_digits(n as nat));
}

pub(crate) fn push_dec(out: &mut Vec<char>, n: u32)
    ensures
        final(out)@ == old(out)@ + dec_digits(n as nat),
    decreases n,
{
    if n >= 10 {
        push_dec(out, n / 10);
    }
    let d = n % 10;
    let c = (('0' as u32) + d) as u8 as char;
    out.push(c);
    assert(final(out)@ =~= old(out)@ + dec_digits(n as nat));
}

/// How the editor writes a key code: the letter or digit itself, `F1`..`F24`,
/// the punctuation character, a key name, or `VK_0x..` for any other code.
pub open spec fn spec_key_label(key: u32) -> Seq<char> {
    if ('A' as u32) <= key <= ('Z' as u32) || ('0' as u32) <= key <= ('9' as u32) {
        seq![key as char]
    } else if 112 <= key <= 135 {
        seq!['F'] + dec_digits((key - 111) as nat)
    } else if key == 0xDB {
        "["@
    } else if key == 0xDD {
        "]"@
    } else if key == 0xBA {
        ";"@
    } else if key == 0xDE {
        "'"@
    } else if key == 0xBC {
        ","@
    } else if key == 0xBE {
        "."@
    } else if key == 0xBF {
        "/"@
    } else if key == 0xBD {
        "-"@
    } else if key == 0xBB {
        "="@
    } else if key == 0xC0 {
        "`"@
    } else if key == 0xDC {
        "\\"@
    } else if key == VK_DELETE {
        "Delete"@
    } else if key == VK_RETURN {
        "Enter"@
    } else if key == VK_ESCAPE {
        "Esc"@
    } else if key == 0x20 {
        "Space"@
    } else if key == 0x09 {
        "Tab"@
    } else if key == 0x08 {
        "Backspace"@
    } else {
        "VK_0x"@ + hex_digits(key as nat)
    }
}

pub(crate) fn push_str_chars(out: &mut Vec<char>, s: &str)
    ensures
        final(out)@ == old(out)@ + s@,
{
    let cs = chars_of(s);
    let mut i: usize = 0;
    while i < cs.len()
        invariant
            cs@ == s@,
            i <= cs@.len(),
            out@ == old(out)@ + cs@.subrange(0, i as int),
        decreases cs@.len() - i,
    {
        out.push(cs[i]);
        i = i + 1;
        assert(out@ =~= old(out)@ + cs@.subrange(0, i as int));
    }
    assert(cs@.subrange(0, cs@.len() as int) =~= cs@);
}

/// Appends the editor's label for `key`.
fn push_key_label(out: &mut Vec<char>, key: u32)
    ensures
        final(out)@ == old(out)@ + spec_key_label(key),
{
    if (('A' as u32) <= key && key <= ('Z' as u32)) || (('0' as u32) <= key && key <= ('9' as u32)) {
        out.push(key as u8 as char);
        assert(final(out)@ =~= old(out)@ + seq![key as char]);
    } else if 112 <= key && key <= 135 {
        out.push('F');
        push_dec(out, key - 111);
        assert(final(out)@ =~= old(out)@ + (seq!['F'] + dec_digits((key - 111) as nat)));
    } else if key == 0xDB {
        push_str_chars(out, "[");
    } else if key == 0xDD {
        push_str_chars(out, "]");
    } else if key == 0xBA {
        push_str_chars(out, ";");
    } else if key == 0xDE {
        push_str_chars(out, "'");
    } else if key == 0xBC {
        push_str_chars(out, ",");
    } else if key == 0xBE {
        push_str_chars(out, ".");
    } else if key == 0xBF {
        push_str_chars(out, "/");
    } else if key == 0xBD {
        push_str_chars(out, "-");
    } else if key == 0xBB {
        push_str_chars(out, "=");
    } else if key == 0xC0 {
        push_str_chars(out, "`");
    } else if key == 0xDC {
        push_str_chars(out, "\\");
    } else if key == VK_DELETE {
        push_str_chars(out, "Delete");
    } else if key == VK_RETURN {
        push_str_chars(out, "Enter");
    } else if key == VK_ESCAPE {
        push_str_chars(out, "Esc");
    } else if key == 0x20 {
        push_str_chars(out, "Space");
    } else if key == 0x09 {
        push_str_chars(out, "Tab");
    } else if key == 0x08 {
        push_str_chars(out, "Backspace");
    } else {
        push_str_chars(out, "VK_0x");
        let ghost mid = out@;
        push_hex(out, key);
        assert(final(out)@ =~= old(out)@ + ("VK_0x"@ + hex_digits(key as nat)));
    }
}

/// The editor's label for a key code.
pub fn key_code_label(key: u32) -> (s: String)
    ensures
        s@ == spec_key_label(key),
{
    let mut out: Vec<char> = Vec::new();
    push_key_label(&mut out, key);
    assert(out@ =~= spec_key_label(key));
    string_from_chars(&out)
}

/// A chord as text: the held modifiers in the order Ctrl, Shift, Alt, then the key.
pub open spec fn spec_format_chord(c: KeyChord) -> Seq<char> {
    (if c.ctrl {
        "Ctrl+"@
    } else {
        Seq::empty()
    }) + (if c.shift {
        "Shift+"@
    } else {
        Seq::empty()
    }) + (if c.alt {
        "Alt+"@
    } else {
        Seq::empty()
    }) + spec_key_label(c.key)
}

/// Writes a chord as the editor shows it, such as `Ctrl+Shift+S`.
pub fn format_key_chord(chord: KeyChord) -> (s: String)
    ensures
        s@ == spec_format_chord(chord),
{
    let mut out: Vec<char> = Vec::new();
    if chord.ctrl {
        push_str_chars(&mut out, "Ctrl+");
    }
    let ghost a = out@;
    if chord.shift {
        push_str_chars(&mut out, "Shift+");
    }
    let ghost b = out@;
    if chord.alt {
        push_str_chars(&mut out, "Alt+");
    }
    let ghost c = out@;
    push_key_label(&mut out, chord.key);
    assert(out@ =~= spec_format_chord(chord));
    string_from_chars(&out)
}


/// Key codes whose editor label the shortcut parser reads back.
pub open spec fn label_parses(key: u32) -> bool {
    ||| ('A' as u32) <= key <= ('Z' as u32)
    ||| ('0' as u32) <= key <= ('9' as u32)
    ||| 112 <= key <= 135
    ||| key == 0xDB || key == 0xDD || key == 0xBA || key == 0xDE || key == 0xBC
    ||| key == 0xBE || key == 0xBF || key == 0xBD || key == 0xBB || key == 0xC0 || key == 0xDC
    ||| key == VK_DELETE || key == VK_RETURN || key == VK_ESCAPE
    ||| key == 0x20 || key == 0x09 || key == 0x08
}

/// `parts` joined with `+` between them.
pub open spec fn join_plus(parts: Seq<Seq<char>>) -> Seq<char>
    decreases parts.len(),
{
    if parts.len() <= 1 {
        if parts.len() == 1 {
            parts[0]
        } else {
            Seq::empty()
        }
    } else {
        parts[0] + seq!['+'] + join_plus(parts.drop_first())
    }
}

pub open spec fn no_plus(s: Seq<char>) -> bool {
    forall|i: int| 0 <= i < s.len() ==> s[i] != '+'
}

proof fn lemma_split_acc_no_sep(x: Seq<char>, y: Seq<char>)
    requires
        no_plus(y),
    ensures
        crate::text::split_acc(x + y, '+') == (crate::text::split_acc(x, '+').0, crate::text::split_acc(x, '+').1 + y),
    decreases y.len(),
{
    if y.len() == 0 {
        assert(x + y =~= x);
        assert(crate::text::split_acc(x, '+').1 + y =~= crate::text::split_acc(x, '+').1);
    } else {
        let y2 = y.drop_last();
        assert(no_plus(y2)) by {
            assert forall|i: int| 0 <= i < y2.len() implies y2[i] != '+' by {
                assert(y2[i] == y[i]);
            }
        }
        lemma_split_acc_no_sep(x, y2);
        assert((x + y).drop_last() =~= x + y2);
        assert((x + y).last() == y[y.len() - 1]);
        assert(crate::text::split_acc(x, '+').1 + y2 + seq![y.last()] =~= crate::text::split_acc(
            x,
            '+',
        ).1 + y);
        assert(crate::text::split_acc(x, '+').1 + y2 + seq![y.last()] =~= (crate::text::split_acc(
            x,
            '+',
        ).1 + y2).push(y.last()));
    }
}

proof fn lemma_split_single(p: Seq<char>)
    requires
        no_plus(p),
    ensures
        spec_split(p, '+') == seq![p],
{
    lemma_split_acc_no_sep(Seq::empty(), p);
    assert(Seq::<char>::empty() + p =~= p);
    assert(crate::text::split_acc(Seq::<char>::empty(), '+') == (
        Seq::<Seq<char>>::empty(),
        Seq::<char>::empty(),
    ));
    assert(Seq::<char>::empty() + p =~= p);
    assert(Seq::<Seq<char>>::empty().push(p) =~= seq![p]);
}

proof fn lemma_split_prefix(p: Seq<char>, rest: Seq<char>)
    requires
        no_plus(p),
    ensures
        spec_split(p + seq!['+'] + rest, '+') == seq![p] + spec_split(rest, '+'),
    decreases rest.len(),
{
    let head = p + seq!['+'];
    if rest.len() == 0 {
        assert(head + rest =~= head);
        assert(head.drop_last() =~= p);
        lemma_split_single(p);
        assert(crate::text::split_acc(p, '+').0.push(crate::text::split_acc(p, '+').1) == seq![p]);
        assert(crate::text::split_acc(p, '+').0 =~= seq![p].drop_last());
        assert(crate::text::split_acc(head, '+') == (seq![p], Seq::<char>::empty()));
        assert(spec_split(rest, '+') =~= seq![Seq::<char>::empty()]);
        assert(seq![p].push(Seq::<char>::empty()) =~= seq![p] + seq![Seq::<char>::empty()]);
    } else {
        let r2 = rest.drop_last();
        let c = rest.last();
        lemma_split_prefix(p, r2);
        let whole = head + rest;
        assert(whole.drop_last() =~= head + r2);
        assert(whole.last() == c);
        assert(rest.drop_last() == r2);
        let a = crate::text::split_acc(head + r2, '+');
        let b = crate::text::split_acc(r2, '+');
        assert(a.0.push(a.1) == seq![p] + b.0.push(b.1));
        assert(a.0 =~= (a.0.push(a.1)).drop_last());
        assert((seq![p] + b.0.push(b.1)).drop_last() =~= seq![p] + b.0);
        assert(a.0 == seq![p] + b.0);
        assert(a.1 == (a.0.push(a.1)).last());
        assert(a.1 == b.1);
        if c == '+' {
            assert(spec_split(whole, '+') =~= (seq![p] + b.0.push(b.1)).push(Seq::<char>::empty()));
            assert(spec_split(rest, '+') =~= b.0.push(b.1).push(Seq::<char>::empty()));
        } else {
            assert(spec_split(whole, '+') =~= (seq![p] + b.0).push(b.1.push(c)));
            assert(spec_split(rest, '+') =~= b.0.push(b.1.push(c)));
        }
    }
}

/// Joining parts that hold no `+` and splitting the result gives the parts back.
pub proof fn lemma_split_join(parts: Seq<Seq<char>>)
    requires
        parts.len() >= 1,
        forall|i: int| 0 <= i < parts.len() ==> no_plus(#[trigger] parts[i]),
    ensures
        spec_split(join_plus(parts), '+') == parts,
    decreases parts.len(),
{
    if parts.len() == 1 {
        lemma_split_single(parts[0]);
        assert(seq![parts[0]] =~= parts);
    } else {
        let rest = parts.drop_first();
        assert forall|i: int| 0 <= i < rest.len() implies no_plus(#[trigger] rest[i]) by {
            assert(rest[i] == parts[i + 1]);
        }
        lemma_split_join(rest);
        assert(no_plus(parts[0]));
        lemma_split_prefix(parts[0], join_plus(rest));
        assert(seq![parts[0]] + rest =~= parts);
    }
}

proof fn lemma_trim_noop(s: Seq<char>)
    requires
        s.len() > 0,
        !crate::text::is_ws(s[0]),
        !crate::text::is_ws(s.last()),
    ensures
        spec_trim(s) == s,
{
    assert(crate::text::trim_start(s) == s);
    assert(crate::text::trim_end(s) == s);
}

proof fn lemma_dec_small(n: nat)
    requires
        1 <= n <= 24,
    ensures
        dec_digits(n).len() >= 1,
        crate::text::all_digits(dec_digits(n)),
        crate::text::digits_value(dec_digits(n)) == n,
        dec_digits(n)[0] != '+',
{
    if n < 10 {
        assert(dec_digits(n) == seq![(('0' as int) + n) as char]);
        assert(seq![(('0' as int) + n) as char].drop_last() =~= Seq::<char>::empty());
        assert(((('0' as int) + n) as char) as u32 == 48 + n);
        assert(crate::text::digits_value(Seq::<char>::empty()) == 0);
        assert(crate::text::digits_value(dec_digits(n)) == n);
    } else {
        assert(((('0' as int) + n / 10) as char) as u32 == 48 + n / 10);
        assert(((('0' as int) + n % 10) as char) as u32 == 48 + n % 10);
        let hi = n / 10;
        assert(dec_digits(hi) == seq![(('0' as int) + hi) as char]);
        let s = dec_digits(n);
        assert(s =~= seq![(('0' as int) + hi) as char, (('0' as int) + (n % 10)) as char]);
        assert(s.drop_last() =~= seq![(('0' as int) + hi) as char]);
        assert(s.drop_last().drop_last() =~= Seq::<char>::empty());
        assert(crate::text::digits_value(Seq::<char>::empty()) == 0);
        assert(crate::text::digits_value(s.drop_last()) == hi);
        assert(crate::text::digits_value(s) == hi * 10 + n % 10);
    }
}

/// The parse of an editor label, trimmed and upper-cased as a token is.
proof fn lemma_label_token(k: u32)
    requires
        label_parses(k),
    ensures
        spec_key_label(k).len() > 0,
        no_plus(spec_key_label(k)),
        spec_trim(spec_key_label(k)) == spec_key_label(k),
        spec_shortcut_key(upper_seq(spec_key_label(k))) == Some(k),
        upper_seq(spec_key_label(k)) != "CTRL"@,
        upper_seq(spec_key_label(k)) != "CONTROL"@,
        upper_seq(spec_key_label(k)) != "SHIFT"@,
        upper_seq(spec_key_label(k)) != "ALT"@,
{
    reveal_strlit("CTRL");
    reveal_strlit("CONTROL");
    reveal_strlit("SHIFT");
    reveal_strlit("ALT");
    reveal_strlit("[");
    reveal_strlit("]");
    reveal_strlit(";");
    reveal_strlit("'");
    reveal_strlit(",");
    reveal_strlit(".");
    reveal_strlit("/");
    reveal_strlit("-");
    reveal_strlit("=");
    reveal_strlit("`");
    reveal_strlit("\\");
    reveal_strlit("Delete");
    reveal_strlit("Enter");
    reveal_strlit("Esc");
    reveal_strlit("Space");
    reveal_strlit("Tab");
    reveal_strlit("Backspace");
    reveal_strlit("DELETE");
    reveal_strlit("DEL");
    reveal_strlit("ENTER");
    reveal_strlit("RETURN");
    reveal_strlit("ESC");
    reveal_strlit("ESCAPE");
    reveal_strlit("SPACE");
    reveal_strlit("TAB");
    reveal_strlit("BACKSPACE");
    reveal_strlit("BKSP");
    reveal_strlit("LEFTBRACKET");
    reveal_strlit("LBRACKET");
    reveal_strlit("RIGHTBRACKET");
    reveal_strlit("RBRACKET");
    let l = spec_key_label(k);
    let u = upper_seq(l);
    if ('A' as u32) <= k <= ('Z' as u32) || ('0' as u32) <= k <= ('9' as u32) {
        assert(l == seq![k as char]);
        assert(u =~= seq![k as char]);
        lemma_trim_noop(l);
    } else if 112 <= k <= 135 {
        let n = (k - 111) as nat;
        lemma_dec_small(n);
        let d = dec_digits(n);
        assert(l == seq!['F'] + d);
        assert forall|i: int| 0 <= i < d.len() implies crate::text::is_digit(#[trigger] d[i]) by {}
        assert(u =~= l) by {
            assert forall|i: int| 0 <= i < l.len() implies #[trigger] u[i] == l[i] by {
                if i > 0 {
                    assert(l[i] == d[i - 1]);
                    assert(crate::text::is_digit(d[i - 1]));
                }
            }
        }
        assert(l.drop_first() =~= d);
        assert(no_plus(l)) by {
            assert forall|i: int| 0 <= i < l.len() implies l[i] != '+' by {
                if i > 0 {
                    assert(l[i] == d[i - 1]);
                    assert(crate::text::is_digit(d[i - 1]));
                }
            }
        }
        assert(l.last() == d[d.len() - 1]);
        assert(crate::text::is_digit(d[d.len() - 1]));
        lemma_trim_noop(l);
        assert(crate::text::spec_parse_u32(d) == Some(n as u32));
    } else {
        assert(l.len() > 0);
        assert(u =~= crate::text::upper_seq(l));
        if k == 0xDB || k == 0xDD || k == 0xBA || k == 0xDE || k == 0xBC || k == 0xBE || k == 0xBF
            || k == 0xBD || k == 0xBB || k == 0xC0 || k == 0xDC {
            assert(l.len() == 1);
            assert(u =~= l);
            lemma_trim_noop(l);
        } else if k == VK_DELETE {
            assert(u =~= "DELETE"@);
            lemma_trim_noop(l);
        } else if k == VK_RETURN {
            assert(u =~= "ENTER"@);
            lemma_trim_noop(l);
        } else if k == VK_ESCAPE {
            assert(u =~= "ESC"@);
            lemma_trim_noop(l);
        } else if k == 0x20 {
            assert(u =~= "SPACE"@);
            lemma_trim_noop(l);
        } else if k == 0x09 {
            assert(u =~= "TAB"@);
            lemma_trim_noop(l);
        } else {
            assert(u =~= "BACKSPACE"@);
            lemma_trim_noop(l);
        }
    }
}

proof fn lemma_join_cons(a: Seq<char>, rest: Seq<Seq<char>>)
    requires
        rest.len() >= 1,
    ensures
        join_plus(seq![a] + rest) == a + seq!['+'] + join_plus(rest),
{
    let p = seq![a] + rest;
    assert(p.len() >= 2);
    assert(p[0] == a);
    assert(p.drop_first() =~= rest);
}

proof fn lemma_mod_tokens(st: ChordState)
    ensures
        shortcut_token(st, "Ctrl"@) == Ok::<ChordState, ShortcutErrorView>(ChordState { ctrl: true, ..st }),
        shortcut_token(st, "Shift"@) == Ok::<ChordState, ShortcutErrorView>(ChordState { shift: true, ..st }),
        shortcut_token(st, "Alt"@) == Ok::<ChordState, ShortcutErrorView>(ChordState { alt: true, ..st }),
        no_plus("Ctrl"@),
        no_plus("Shift"@),
        no_plus("Alt"@),
        "Ctrl+"@ == "Ctrl"@ + seq!['+'],
        "Shift+"@ == "Shift"@ + seq!['+'],
        "Alt+"@ == "Alt"@ + seq!['+'],
{
    reveal_strlit("Ctrl");
    reveal_strlit("Shift");
    reveal_strlit("Alt");
    reveal_strlit("Ctrl+");
    reveal_strlit("Shift+");
    reveal_strlit("Alt+");
    reveal_strlit("CTRL");
    reveal_strlit("CONTROL");
    reveal_strlit("SHIFT");
    reveal_strlit("ALT");
    lemma_trim_noop("Ctrl"@);
    lemma_trim_noop("Shift"@);
    lemma_trim_noop("Alt"@);
    assert(upper_seq("Ctrl"@) =~= "CTRL"@);
    assert(upper_seq("Shift"@) =~= "SHIFT"@);
    assert(upper_seq("Alt"@) =~= "ALT"@);
    assert("Ctrl+"@ =~= "Ctrl"@ + seq!['+']);
    assert("Shift+"@ =~= "Shift"@ + seq!['+']);
    assert("Alt+"@ =~= "Alt"@ + seq!['+']);
}

proof fn lemma_key_token(st: ChordState, k: u32)
    requires
        label_parses(k),
        st.key is None,
    ensures
        shortcut_token(st, spec_key_label(k)) == Ok::<ChordState, ShortcutErrorView>(ChordState { key: Some(k), ..st }),
{
    lemma_label_token(k);
}

/// Every key the shortcut parser returns is one whose label it reads back.
pub proof fn lemma_parsed_key_labelled(t: Seq<char>, k: u32)
    requires
        spec_shortcut_key(t) == Some(k),
    ensures
        label_parses(k),
{
}

proof fn lemma_fold_keys_labelled(ts: Seq<Seq<char>>)
    ensures
        shortcut_fold(ts) matches Ok(st) ==> (st.key matches Some(k) ==> label_parses(k)),
    decreases ts.len(),
{
    if ts.len() > 0 {
        lemma_fold_keys_labelled(ts.drop_last());
        match shortcut_fold(ts.drop_last()) {
            Ok(st) => {
                let u = upper_seq(spec_trim(ts.last()));
                if let Some(k) = spec_shortcut_key(u) {
                    lemma_parsed_key_labelled(u, k);
                }
            },
            Err(_) => {},
        }
    }
}

/// Writing a chord as text and reading the text back gives the chord, for
/// every key whose label the parser reads.
pub proof fn lemma_format_parse(c: KeyChord)
    requires
        label_parses(c.key),
    ensures
        spec_parse_shortcut(spec_format_chord(c)) == Ok::<KeyChord, ShortcutErrorView>(c),
{
    let l = spec_key_label(c.key);
    lemma_label_token(c.key);
    lemma_mod_tokens(empty_chord_state());
    let e = Seq::<char>::empty();
    let ctrl = if c.ctrl { seq!["Ctrl"@] } else { Seq::<Seq<char>>::empty() };
    let shift = if c.shift { seq!["Shift"@] } else { Seq::<Seq<char>>::empty() };
    let alt = if c.alt { seq!["Alt"@] } else { Seq::<Seq<char>>::empty() };
    let r3 = seq![l];
    let r2 = alt + r3;
    let r1 = shift + r2;
    let tokens = ctrl + r1;
    assert(join_plus(r3) == l);
    let ap = if c.alt { "Alt+"@ } else { e };
    let sp = if c.shift { "Shift+"@ } else { e };
    let cp = if c.ctrl { "Ctrl+"@ } else { e };
    assert(join_plus(r2) =~= ap + l) by {
        if c.alt {
            lemma_join_cons("Alt"@, r3);
            assert(r2 =~= seq!["Alt"@] + r3);
        } else {
            assert(r2 =~= r3);
        }
    }
    assert(join_plus(r1) =~= sp + (ap + l)) by {
        if c.shift {
            lemma_join_cons("Shift"@, r2);
            assert(r1 =~= seq!["Shift"@] + r2);
        } else {
            assert(r1 =~= r2);
        }
    }
    assert(join_plus(tokens) =~= cp + (sp + (ap + l))) by {
        if c.ctrl {
            lemma_join_cons("Ctrl"@, r1);
            assert(tokens =~= seq!["Ctrl"@] + r1);
        } else {
            assert(tokens =~= r1);
        }
    }
    assert(cp + (sp + (ap + l)) =~= spec_format_chord(c));
    assert(tokens =~= ctrl + shift + alt + seq![l]);
    assert forall|i: int| 0 <= i < tokens.len() implies no_plus(#[trigger] tokens[i]) by {
        if i == tokens.len() - 1 {
            assert(tokens[i] == l);
        }
    }
    lemma_split_join(tokens);
    // Reading the tokens one by one.
    let s0 = empty_chord_state();
    let s1 = ChordState { ctrl: c.ctrl, ..s0 };
    let s2 = ChordState { shift: c.shift, ..s1 };
    let s3 = ChordState { alt: c.alt, ..s2 };
    lemma_mod_tokens(s0);
    lemma_mod_tokens(s1);
    lemma_mod_tokens(s2);
    lemma_key_token(s3, c.key);
    let p1 = ctrl;
    let p2 = ctrl + shift;
    let p3 = ctrl + shift + alt;
    assert(shortcut_fold(Seq::<Seq<char>>::empty()) == Ok::<ChordState, ShortcutErrorView>(s0));
    assert(shortcut_fold(p1) == Ok::<ChordState, ShortcutErrorView>(s1)) by {
        if c.ctrl {
            assert(p1.drop_last() =~= Seq::<Seq<char>>::empty());
        }
    }
    assert(shortcut_fold(p2) == Ok::<ChordState, ShortcutErrorView>(s2)) by {
        if c.shift {
            assert(p2.drop_last() =~= p1);
        } else {
            assert(p2 =~= p1);
        }
    }
    assert(shortcut_fold(p3) == Ok::<ChordState, ShortcutErrorView>(s3)) by {
        if c.alt {
            assert(p3.drop_last() =~= p2);
        } else {
            assert(p3 =~= p2);
        }
    }
    assert(tokens.drop_last() =~= p3);
    assert(shortcut_fold(tokens) == Ok::<ChordState, ShortcutErrorView>(ChordState { key: Some(c.key), ..s3 }));
}

/// Law: a chord that the parser produced, written back as text, parses to the
/// same chord. (The settings window stores recorded chords as text that the
/// editor parses again.)
pub proof fn law_shortcut_text_roundtrip(s: Seq<char>, c: KeyChord)
    requires
        spec_parse_shortcut(s) == Ok::<KeyChord, ShortcutErrorView>(c),
    ensures
        spec_parse_shortcut(spec_format_chord(c)) == Ok::<KeyChord, ShortcutErrorView>(c),
{
    lemma_fold_keys_labelled(spec_split(s, '+'));
    lemma_format_parse(c);
}

} // verus!
