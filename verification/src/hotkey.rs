//! The global capture hotkey: parsing strings such as `Alt+Shift+S` into the
//! modifier flags and virtual-key code that the system hotkey API takes.
use vstd::prelude::*;
use crate::text::{
    all_digits, chars_of, digits_value, eq_lit, is_digit, parse_u32_from, spec_parse_u32, spec_split,
    spec_trim, split_chars, string_from_chars, to_ascii_upper, trim_chars, upper_seq, views_of,
};

verus! {

/// `MOD_ALT` of the Win32 hotkey API.
pub const MOD_ALT: u32 = 0x0001;

/// `MOD_CONTROL` of the Win32 hotkey API.
pub const MOD_CONTROL: u32 = 0x0002;

/// `MOD_SHIFT` of the Win32 hotkey API.
pub const MOD_SHIFT: u32 = 0x0004;

/// `MOD_WIN` of the Win32 hotkey API.
pub const MOD_WIN: u32 = 0x0008;

/// `MOD_NOREPEAT` of the Win32 hotkey API.
pub const MOD_NOREPEAT: u32 = 0x4000;

/// Virtual-key code of the PrintScreen key (`VK_SNAPSHOT`).
pub const VK_SNAPSHOT: u32 = 0x2C;

/// A parsed global hotkey.
#[derive(Clone, Copy, Debug, PartialEq, Eq, Structural)]
pub struct Hotkey {
    pub modifiers: u32,
    pub vk: u32,
}

/// Why a hotkey string was rejected.
#[derive(Debug)]
pub enum HotkeyError {
    EmptyToken,
    MultipleKeys,
    /// The (upper-cased) token that names no supported key.
    UnsupportedKey(String),
    MissingKey,
    MissingModifier,
}

/// The content of a [`HotkeyError`].
pub enum HotkeyErrorView {
    EmptyToken,
    MultipleKeys,
    UnsupportedKey(Seq<char>),
    MissingKey,
    MissingModifier,
}

impl View for HotkeyError {
    type V = HotkeyErrorView;

    open spec fn view(&self) -> HotkeyErrorView {
        match self {
            HotkeyError::EmptyToken => HotkeyErrorView::EmptyToken,
            HotkeyError::MultipleKeys => HotkeyErrorView::MultipleKeys,
            HotkeyError::UnsupportedKey(t) => HotkeyErrorView::UnsupportedKey(t@),
            HotkeyError::MissingKey => HotkeyErrorView::MissingKey,
            HotkeyError::MissingModifier => HotkeyErrorView::MissingModifier,
        }
    }
}

pub open spec fn spec_hotkey_message(e: HotkeyErrorView) -> Seq<char> {
    match e {
        HotkeyErrorView::EmptyToken => "hotkey token cannot be empty"@,
        HotkeyErrorView::MultipleKeys => "hotkey must include exactly one non-modifier key"@,
        HotkeyErrorView::UnsupportedKey(t) => "unsupported key `"@ + t + "`"@,
        HotkeyErrorView::MissingKey => "hotkey missing key"@,
        HotkeyErrorView::MissingModifier => "hotkey must include at least one modifier (except PrintScreen)"@,
    }
}

impl HotkeyError {
    /// The text that describes this error.
    pub fn message(&self) -> (m: String)
        ensures
            m@ == spec_hotkey_message(self@),
    {
        match self {
            HotkeyError::EmptyToken => String::from_str("hotkey token cannot be empty"),
            HotkeyError::MultipleKeys => String::from_str(
                "hotkey must include exactly one non-modifier key",
            ),
            HotkeyError::UnsupportedKey(t) => {
                let mut m = String::from_str("unsupported key `");
                m.append(t.as_str());
                m.append("`");
                m
            },
            HotkeyError::MissingKey => String::from_str("hotkey missing key"),
            HotkeyError::MissingModifier => String::from_str(
                "hotkey must include at least one modifier (except PrintScreen)",
            ),
        }
    }
}

/// Modifier flags and key seen so far while reading the tokens of a hotkey.
#[derive(Clone, Copy, Debug, PartialEq, Eq, Structural)]
pub struct ModState {
    pub alt: bool,
    pub ctrl: bool,
    pub shift: bool,
    pub win: bool,
    pub key: Option<u32>,
}

pub open spec fn is_ascii_upper(c: char) -> bool {
    'A' <= c <= 'Z'
}

/// Key code named by an upper-cased hotkey token.
pub open spec fn spec_virtual_key(t: Seq<char>) -> Option<u32> {
    if t.len() == 1 && (is_ascii_upper(t[0]) || is_digit(t[0])) {
        Some(t[0] as u32)
    } else if t.len() >= 1 && t[0] == 'F' && spec_parse_u32(t.drop_first()) is Some && 1
        <= spec_parse_u32(t.drop_first())->0 <= 24 {
        Some((111 + spec_parse_u32(t.drop_first())->0) as u32)
    } else if t == "PRINTSCREEN"@ || t == "PRTSC"@ || t == "PRTSCN"@ || t == "SNAPSHOT"@ {
        Some(VK_SNAPSHOT)
    } else {
        None
    }
}

/// One token of a hotkey applied to the state read so far.
pub open spec fn hotkey_token(st: ModState, raw: Seq<char>) -> Result<ModState, HotkeyErrorView> {
    let t = spec_trim(raw);
    let u = upper_seq(t);
    if t.len() == 0 {
        Err(HotkeyErrorView::EmptyToken)
    } else if u == "ALT"@ {
        Ok(ModState { alt: true, ..st })
    } else if u == "CTRL"@ || u == "CONTROL"@ {
        Ok(ModState { ctrl: true, ..st })
    } else if u == "SHIFT"@ {
        Ok(ModState { shift: true, ..st })
    } else if u == "WIN"@ || u == "WINDOWS"@ || u == "META"@ {
        Ok(ModState { win: true, ..st })
    } else if st.key is Some {
        Err(HotkeyErrorView::MultipleKeys)
    } else {
        match spec_virtual_key(u) {
            Some(k) => Ok(ModState { key: Some(k), ..st }),
            None => Err(HotkeyErrorView::UnsupportedKey(u)),
        }
    }
}

pub open spec fn no_mods() -> ModState {
    ModState { alt: false, ctrl: false, shift: false, win: false, key: None }
}

/// The tokens applied in order; the first error stops the reading.
pub open spec fn hotkey_fold(tokens: Seq<Seq<char>>) -> Result<ModState, HotkeyErrorView>
    decreases tokens.len(),
{
    if tokens.len() == 0 {
        Ok(no_mods())
    } else {
        match hotkey_fold(tokens.drop_last()) {
            Err(e) => Err(e),
            Ok(st) => hotkey_token(st, tokens.last()),
        }
    }
}

/// Once reading stops at an error, the later tokens do not change the result.
proof fn lemma_hotkey_fold_err(ts: Seq<Seq<char>>, k: int, e: HotkeyErrorView)
    requires
        0 <= k <= ts.len(),
        hotkey_fold(ts.subrange(0, k)) == Err::<ModState, HotkeyErrorView>(e),
    ensures
        hotkey_fold(ts) == Err::<ModState, HotkeyErrorView>(e),
    decreases ts.len() - k,
{
    if k < ts.len() {
        assert(ts.subrange(0, k + 1).drop_last() =~= ts.subrange(0, k));
        lemma_hotkey_fold_err(ts, k + 1, e);
    } else {
        assert(ts.subrange(0, k) =~= ts);
    }
}

/// The modifier flags of a state, each flag its own bit.
pub open spec fn mod_bits(st: ModState) -> u32 {
    ((if st.alt {
        MOD_ALT
    } else {
        0
    }) + (if st.ctrl {
        MOD_CONTROL
    } else {
        0
    }) + (if st.shift {
        MOD_SHIFT
    } else {
        0
    }) + (if st.win {
        MOD_WIN
    } else {
        0
    })) as u32
}

/// The hotkey that a string names, or why it names none.
pub open spec fn spec_parse_hotkey(s: Seq<char>) -> Result<Hotkey, HotkeyErrorView> {
    match hotkey_fold(spec_split(s, '+')) {
        Err(e) => Err(e),
        Ok(st) => match st.key {
            None => Err(HotkeyErrorView::MissingKey),
            Some(vk) => if mod_bits(st) == 0 && vk != VK_SNAPSHOT {
                Err(HotkeyErrorView::MissingModifier)
            } else {
                Ok(Hotkey { modifiers: (mod_bits(st) + MOD_NOREPEAT) as u32, vk })
            },
        },
    }
}

/// Whether some token of `ts`, trimmed and upper-cased, is `u`.
pub open spec fn has_token(ts: Seq<Seq<char>>, u: Seq<char>) -> bool {
    exists|i: int| 0 <= i < ts.len() && upper_seq(spec_trim(ts[i])) == u
}

proof fn lemma_has_token_push(ts: Seq<Seq<char>>, u: Seq<char>)
    requires
        ts.len() > 0,
    ensures
        has_token(ts, u) == (has_token(ts.drop_last(), u) || upper_seq(spec_trim(ts.last())) == u),
{
    let d = ts.drop_last();
    if has_token(ts, u) {
        let i = choose|i: int| 0 <= i < ts.len() && upper_seq(spec_trim(ts[i])) == u;
        if i < ts.len() - 1 {
            assert(d[i] == ts[i]);
        }
    }
    if has_token(d, u) {
        let i = choose|i: int| 0 <= i < d.len() && upper_seq(spec_trim(d[i])) == u;
        assert(d[i] == ts[i]);
    }
    if upper_seq(spec_trim(ts.last())) == u {
        assert(upper_seq(spec_trim(ts[ts.len() - 1])) == u);
    }
}

/// A successful reading sets each modifier flag exactly when a token names it.
proof fn lemma_fold_flags(ts: Seq<Seq<char>>)
    requires
        hotkey_fold(ts) is Ok,
    ensures
        hotkey_fold(ts)->Ok_0.alt == has_token(ts, "ALT"@),
        hotkey_fold(ts)->Ok_0.ctrl == (has_token(ts, "CTRL"@) || has_token(ts, "CONTROL"@)),
        hotkey_fold(ts)->Ok_0.shift == has_token(ts, "SHIFT"@),
        hotkey_fold(ts)->Ok_0.win == (has_token(ts, "WIN"@) || has_token(ts, "WINDOWS"@) || has_token(ts, "META"@)),
    decreases ts.len(),
{
    reveal_strlit("ALT");
    reveal_strlit("CTRL");
    reveal_strlit("CONTROL");
    reveal_strlit("SHIFT");
    reveal_strlit("WIN");
    reveal_strlit("WINDOWS");
    reveal_strlit("META");
    if ts.len() > 0 {
        let d = ts.drop_last();
        lemma_fold_flags(d);
        lemma_has_token_push(ts, "ALT"@);
        lemma_has_token_push(ts, "CTRL"@);
        lemma_has_token_push(ts, "CONTROL"@);
        lemma_has_token_push(ts, "SHIFT"@);
        lemma_has_token_push(ts, "WIN"@);
        lemma_has_token_push(ts, "WINDOWS"@);
        lemma_has_token_push(ts, "META"@);
    }
}

proof fn lemma_bits(x: u32, a: u32, c: u32, sh: u32, w: u32)
    by (bit_vector)
    requires
        a <= 1,
        c <= 1,
        sh <= 1,
        w <= 1,
        x == a + 2 * c + 4 * sh + 8 * w + 0x4000,
    ensures
        (x & 0x0001 != 0) == (a == 1),
        (x & 0x0002 != 0) == (c == 1),
        (x & 0x0004 != 0) == (sh == 1),
        (x & 0x0008 != 0) == (w == 1),
        x & 0x4000 != 0,
        x & !0x400Fu32 == 0,
{
}

/// Each modifier token sets its own Win32 flag: a parsed hotkey has
/// `MOD_ALT` exactly when a token is ALT, `MOD_CONTROL` when one is CTRL or
/// CONTROL, `MOD_SHIFT` when one is SHIFT and `MOD_WIN` when one is WIN,
/// WINDOWS or META; `MOD_NOREPEAT` is always set and no other bit is.
pub proof fn law_modifier_tokens_set_their_flags(s: Seq<char>)
    requires
        spec_parse_hotkey(s) is Ok,
    ensures
        ({
            let m = spec_parse_hotkey(s)->Ok_0.modifiers;
            let ts = spec_split(s, '+');
            &&& (m & MOD_ALT != 0) == has_token(ts, "ALT"@)
            &&& (m & MOD_CONTROL != 0) == (has_token(ts, "CTRL"@) || has_token(ts, "CONTROL"@))
            &&& (m & MOD_SHIFT != 0) == has_token(ts, "SHIFT"@)
            &&& (m & MOD_WIN != 0) == (has_token(ts, "WIN"@) || has_token(ts, "WINDOWS"@) || has_token(ts, "META"@))
            &&& m & MOD_NOREPEAT != 0
            &&& m & !0x400Fu32 == 0
        }),
{
    let ts = spec_split(s, '+');
    lemma_fold_flags(ts);
    let st = hotkey_fold(ts)->Ok_0;
    let a: u32 = if st.alt { 1 } else { 0 };
    let c: u32 = if st.ctrl { 1 } else { 0 };
    let sh: u32 = if st.shift { 1 } else { 0 };
    let w: u32 = if st.win { 1 } else { 0 };
    let m = spec_parse_hotkey(s)->Ok_0.modifiers;
    assert(m == a + 2 * c + 4 * sh + 8 * w + 0x4000);
    lemma_bits(m, a, c, sh, w);
}

/// The key code that an upper-cased token names.
fn parse_virtual_key(token: &Vec<char>) -> (r: Option<u32>)
    ensures
        r == spec_virtual_key(token@),
{
    let n = token.len();
    if n == 1 {
        let ch = token[0];
        if ('A' <= ch && ch <= 'Z') || ('0' <= ch && ch <= '9') {
            return Some(ch as u32);
        }
    }
    if n >= 1 && token[0] == 'F' {
        let parsed = parse_u32_from(token, 1);
        assert(token@.subrange(1, n as int) =~= token@.drop_first());
        if let Some(value) = parsed {
            if 1 <= value && value <= 24 {
                return Some(111 + value);
            }
        }
    }
    if eq_lit(token, "PRINTSCREEN") || eq_lit(token, "PRTSC") || eq_lit(token, "PRTSCN") || eq_lit(
        token,
        "SNAPSHOT",
    ) {
        return Some(VK_SNAPSHOT);
    }
    None
}

/// Parses a hotkey such as `Alt+Shift+S`, `Ctrl+F12` or `PrintScreen`.
///
/// Tokens are separated by `+`, trimmed and compared without regard to ASCII
/// case. `Alt`, `Ctrl`/`Control`, `Shift` and `Win`/`Windows`/`Meta` are
/// modifiers; exactly one other token names the key. A hotkey without a
/// modifier is accepted only for PrintScreen. `MOD_NOREPEAT` is always added.
pub fn parse_hotkey(input: &str) -> (r: Result<Hotkey, HotkeyError>)
    ensures
        match r {
            Ok(h) => spec_parse_hotkey(input@) == Ok::<Hotkey, HotkeyErrorView>(h),
            Err(e) => spec_parse_hotkey(input@) == Err::<Hotkey, HotkeyErrorView>(e@),
        },
{
    let chars = chars_of(input);
    let tokens = split_chars(&chars, '+');
    let ghost ts = spec_split(input@, '+');
    let mut st = ModState { alt: false, ctrl: false, shift: false, win: false, key: None };
    let mut i: usize = 0;
    while i < tokens.len()
        invariant
            views_of(tokens@) == ts,
            ts == spec_split(input@, '+'),
            i <= tokens@.len(),
            hotkey_fold(ts.subrange(0, i as int)) == Ok::<ModState, HotkeyErrorView>(st),
        decreases tokens@.len() - i,
    {
        let ghost raw = tokens@[i as int]@;
        assert(ts[i as int] == raw);
        assert(ts.subrange(0, i + 1).drop_last() =~= ts.subrange(0, i as int));
        assert(ts.subrange(0, i + 1).last() == raw);
        let token = trim_chars(&tokens[i]);
        if token.len() == 0 {
            proof {
                lemma_hotkey_fold_err(ts, i + 1, HotkeyErrorView::EmptyToken);
            }
            return Err(HotkeyError::EmptyToken);
        }
        let upper = to_ascii_upper(&token);
        if eq_lit(&upper, "ALT") {
            st.alt = true;
        } else if eq_lit(&upper, "CTRL") || eq_lit(&upper, "CONTROL") {
            st.ctrl = true;
        } else if eq_lit(&upper, "SHIFT") {
            st.shift = true;
        } else if eq_lit(&upper, "WIN") || eq_lit(&upper, "WINDOWS") || eq_lit(&upper, "META") {
            st.win = true;
        } else {
            if st.key.is_some() {
                proof {
                    lemma_hotkey_fold_err(ts, i + 1, HotkeyErrorView::MultipleKeys);
                }
                return Err(HotkeyError::MultipleKeys);
            }
            match parse_virtual_key(&upper) {
                Some(k) => {
                    st.key = Some(k);
                },
                None => {
                    proof {
                        lemma_hotkey_fold_err(ts, i + 1, HotkeyErrorView::UnsupportedKey(upper@));
                    }
                    return Err(HotkeyError::UnsupportedKey(string_from_chars(&upper)));
                },
            }
        }
        i = i + 1;
    }
    assert(ts.subrange(0, ts.len() as int) =~= ts);
    let vk = match st.key {
        None => {
            return Err(HotkeyError::MissingKey);
        },
        Some(k) => k,
    };
    let bits: u32 = (if st.alt {
        MOD_ALT
    } else {
        0
    }) + (if st.ctrl {
        MOD_CONTROL
    } else {
        0
    }) + (if st.shift {
        MOD_SHIFT
    } else {
        0
    }) + (if st.win {
        MOD_WIN
    } else {
        0
    });
    if bits == 0 && vk != VK_SNAPSHOT {
        return Err(HotkeyError::MissingModifier);
    }
    Ok(Hotkey { modifiers: bits + MOD_NOREPEAT, vk })
}

} // verus!
