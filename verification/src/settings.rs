//! The logic of the settings window: the shortcut fields and their
//! recorder, validation of every field, and the capture target list.
use vstd::prelude::*;
use crate::config::{spec_capture_target_name, CaptureTarget, EditorShortcutConfig};
use crate::keybindings::{all_distinct, parsed_chords, shortcuts_valid};
use crate::hotkey::{
    hotkey_fold, hotkey_token, mod_bits, spec_parse_hotkey, spec_virtual_key, HotkeyError, HotkeyErrorView, ModState,
    VK_SNAPSHOT,
};
use crate::shortcuts::{
    spec_format_chord, spec_key_label, spec_parse_shortcut, KeyChord, ShortcutErrorView,
};
use crate::text::{
    chars_of, eq_lit, is_digit, parse_u32_from, spec_parse_u32, spec_split, spec_trim, split_chars,
    string_from_chars, to_ascii_upper, trim_chars, upper_seq, views_of,
};

verus! {

/// The shortcut fields of the settings window, with their ids.
#[derive(Clone, Copy, Debug, PartialEq, Eq, Structural)]
pub enum ShortcutField {
    CaptureHotkey,
    Select,
    Rectangle,
    Ellipse,
    Line,
    Arrow,
    Marker,
    Text,
    Pixelate,
    Blur,
    Copy,
    Save,
    CopyAndSave,
    Undo,
    Redo,
    DeleteSelected,
}

/// The field with id `id` (0 is the capture hotkey, 1 to 15 the editor
/// shortcuts in binding order).
pub open spec fn spec_field_of(id: int) -> Option<ShortcutField> {
    if id == 0 {
        Some(ShortcutField::CaptureHotkey)
    } else if id == 1 {
        Some(ShortcutField::Select)
    } else if id == 2 {
        Some(ShortcutField::Rectangle)
    } else if id == 3 {
        Some(ShortcutField::Ellipse)
    } else if id == 4 {
        Some(ShortcutField::Line)
    } else if id == 5 {
        Some(ShortcutField::Arrow)
    } else if id == 6 {
        Some(ShortcutField::Marker)
    } else if id == 7 {
        Some(ShortcutField::Text)
    } else if id == 8 {
        Some(ShortcutField::Pixelate)
    } else if id == 9 {
        Some(ShortcutField::Blur)
    } else if id == 10 {
        Some(ShortcutField::Copy)
    } else if id == 11 {
        Some(ShortcutField::Save)
    } else if id == 12 {
        Some(ShortcutField::CopyAndSave)
    } else if id == 13 {
        Some(ShortcutField::Undo)
    } else if id == 14 {
        Some(ShortcutField::Redo)
    } else if id == 15 {
        Some(ShortcutField::DeleteSelected)
    } else {
        None
    }
}

pub open spec fn spec_field_id(f: ShortcutField) -> i32 {
    match f {
        ShortcutField::CaptureHotkey => 0,
        ShortcutField::Select => 1,
        ShortcutField::Rectangle => 2,
        ShortcutField::Ellipse => 3,
        ShortcutField::Line => 4,
        ShortcutField::Arrow => 5,
        ShortcutField::Marker => 6,
        ShortcutField::Text => 7,
        ShortcutField::Pixelate => 8,
        ShortcutField::Blur => 9,
        ShortcutField::Copy => 10,
        ShortcutField::Save => 11,
        ShortcutField::CopyAndSave => 12,
        ShortcutField::Undo => 13,
        ShortcutField::Redo => 14,
        ShortcutField::DeleteSelected => 15,
    }
}

pub open spec fn spec_field_label(f: ShortcutField) -> Seq<char> {
    match f {
        ShortcutField::CaptureHotkey => "Capture Hotkey"@,
        ShortcutField::Select => "Select"@,
        ShortcutField::Rectangle => "Rectangle"@,
        ShortcutField::Ellipse => "Ellipse"@,
        ShortcutField::Line => "Line"@,
        ShortcutField::Arrow => "Arrow"@,
        ShortcutField::Marker => "Marker"@,
        ShortcutField::Text => "Text"@,
        ShortcutField::Pixelate => "Pixelate"@,
        ShortcutField::Blur => "Blur"@,
        ShortcutField::Copy => "Copy"@,
        ShortcutField::Save => "Save"@,
        ShortcutField::CopyAndSave => "Copy+Save"@,
        ShortcutField::Undo => "Undo"@,
        ShortcutField::Redo => "Redo"@,
        ShortcutField::DeleteSelected => "Delete Selected"@,
    }
}

impl ShortcutField {
    /// The field with id `id`, if any.
    pub fn from_id(id: i32) -> (f: Option<Self>)
        ensures
            f == spec_field_of(id as int),
    {
        match id {
            0 => Some(ShortcutField::CaptureHotkey),
            1 => Some(ShortcutField::Select),
            2 => Some(ShortcutField::Rectangle),
            3 => Some(ShortcutField::Ellipse),
            4 => Some(ShortcutField::Line),
            5 => Some(ShortcutField::Arrow),
            6 => Some(ShortcutField::Marker),
            7 => Some(ShortcutField::Text),
            8 => Some(ShortcutField::Pixelate),
            9 => Some(ShortcutField::Blur),
            10 => Some(ShortcutField::Copy),
            11 => Some(ShortcutField::Save),
            12 => Some(ShortcutField::CopyAndSave),
            13 => Some(ShortcutField::Undo),
            14 => Some(ShortcutField::Redo),
            15 => Some(ShortcutField::DeleteSelected),
            _ => None,
        }
    }

    /// The id of the field.
    pub fn id(self) -> (id: i32)
        ensures
            id == spec_field_id(self),
    {
        match self {
            ShortcutField::CaptureHotkey => 0,
            ShortcutField::Select => 1,
            ShortcutField::Rectangle => 2,
            ShortcutField::Ellipse => 3,
            ShortcutField::Line => 4,
            ShortcutField::Arrow => 5,
            ShortcutField::Marker => 6,
            ShortcutField::Text => 7,
            ShortcutField::Pixelate => 8,
            ShortcutField::Blur => 9,
            ShortcutField::Copy => 10,
            ShortcutField::Save => 11,
            ShortcutField::CopyAndSave => 12,
            ShortcutField::Undo => 13,
            ShortcutField::Redo => 14,
            ShortcutField::DeleteSelected => 15,
        }
    }

    /// The name the window shows for the field.
    pub fn label(self) -> (s: &'static str)
        ensures
            s@ == spec_field_label(self),
    {
        match self {
            ShortcutField::CaptureHotkey => "Capture Hotkey",
            ShortcutField::Select => "Select",
            ShortcutField::Rectangle => "Rectangle",
            ShortcutField::Ellipse => "Ellipse",
            ShortcutField::Line => "Line",
            ShortcutField::Arrow => "Arrow",
            ShortcutField::Marker => "Marker",
            ShortcutField::Text => "Text",
            ShortcutField::Pixelate => "Pixelate",
            ShortcutField::Blur => "Blur",
            ShortcutField::Copy => "Copy",
            ShortcutField::Save => "Save",
            ShortcutField::CopyAndSave => "Copy+Save",
            ShortcutField::Undo => "Undo",
            ShortcutField::Redo => "Redo",
            ShortcutField::DeleteSelected => "Delete Selected",
        }
    }

    /// Whether this is the global capture hotkey field.
    pub fn is_capture_hotkey(self) -> (b: bool)
        ensures
            b == (self == ShortcutField::CaptureHotkey),
    {
        match self {
            ShortcutField::CaptureHotkey => true,
            _ => false,
        }
    }

    /// Whether this is one of the editor's shortcut fields.
    pub fn is_editor_shortcut(self) -> (b: bool)
        ensures
            b == (self != ShortcutField::CaptureHotkey),
    {
        !self.is_capture_hotkey()
    }

    /// The editor's shortcut fields, in binding order (ids 1 to 15).
    pub fn editor_fields() -> (v: Vec<ShortcutField>)
        ensures
            v@.len() == 15,
            forall|i: int| 0 <= i < 15 ==> Some(#[trigger] v@[i]) == spec_field_of(i + 1),
    {
        let mut v: Vec<ShortcutField> = Vec::new();
        v.push(ShortcutField::Select);
        v.push(ShortcutField::Rectangle);
        v.push(ShortcutField::Ellipse);
        v.push(ShortcutField::Line);
        v.push(ShortcutField::Arrow);
        v.push(ShortcutField::Marker);
        v.push(ShortcutField::Text);
        v.push(ShortcutField::Pixelate);
        v.push(ShortcutField::Blur);
        v.push(ShortcutField::Copy);
        v.push(ShortcutField::Save);
        v.push(ShortcutField::CopyAndSave);
        v.push(ShortcutField::Undo);
        v.push(ShortcutField::Redo);
        v.push(ShortcutField::DeleteSelected);
        v
    }
}

/// A field's id names that field again, and every id names a field whose id it is.
pub proof fn law_field_id_roundtrip(f: ShortcutField, id: i32)
    ensures
        spec_field_of(spec_field_id(f) as int) == Some(f),
        spec_field_of(id as int) matches Some(g) ==> spec_field_id(g) == id,
{
}

/// A chord that may serve as the capture hotkey: one with a modifier, or PrintScreen.
pub open spec fn spec_capture_chord_valid(c: KeyChord) -> bool {
    c.ctrl || c.shift || c.alt || c.key == VK_SNAPSHOT
}

/// Whether `chord` may serve as the capture hotkey.
pub fn capture_hotkey_chord_valid(chord: KeyChord) -> (b: bool)
    ensures
        b == spec_capture_chord_valid(chord),
{
    (chord.ctrl || chord.shift || chord.alt) || chord.key == VK_SNAPSHOT
}

/// How the settings window writes a key code: as the editor does, with
/// `PrintScreen` for the PrintScreen key.
pub open spec fn spec_settings_key_label(key: u32) -> Seq<char> {
    if key == VK_SNAPSHOT {
        "PrintScreen"@
    } else {
        spec_key_label(key)
    }
}

/// The settings window's label for a key code.
pub fn format_key_code(key: u32) -> (s: String)
    ensures
        s@ == spec_settings_key_label(key),
{
    if key == VK_SNAPSHOT {
        String::from_str("PrintScreen")
    } else {
        crate::shortcuts::key_code_label(key)
    }
}

/// A chord as the settings window writes it: held modifiers in the order
/// Ctrl, Shift, Alt, then the key.
pub open spec fn spec_settings_chord(c: KeyChord) -> Seq<char> {
    (if c.ctrl { "Ctrl+"@ } else { Seq::empty() }) + (if c.shift { "Shift+"@ } else { Seq::empty() }) + (if c.alt {
        "Alt+"@
    } else {
        Seq::empty()
    }) + spec_settings_key_label(c.key)
}

/// Writes a chord such as `Ctrl+Shift+PrintScreen`.
pub fn format_key_chord(chord: KeyChord) -> (s: String)
    ensures
        s@ == spec_settings_chord(chord),
{
    let mut s = String::new();
    proof {
        assert(s@ =~= Seq::<char>::empty());
    }
    if chord.ctrl {
        s.append("Ctrl+");
    }
    if chord.shift {
        s.append("Shift+");
    }
    if chord.alt {
        s.append("Alt+");
    }
    let k = format_key_code(chord.key);
    s.append(k.as_str());
    assert(s@ =~= spec_settings_chord(chord));
    s
}

/// The key named by an upper-cased capture hotkey token in the settings
/// window: a letter or digit, `F1`..`F24`, or a PrintScreen alias.
pub open spec fn spec_settings_hotkey_key(t: Seq<char>) -> Option<u32> {
    if t.len() == 1 && (('A' <= t[0] <= 'Z') || is_digit(t[0])) {
        Some(t[0] as u32)
    } else if t.len() >= 1 && t[0] == 'F' && spec_parse_u32(t.drop_first()) is Some && 1
        <= spec_parse_u32(t.drop_first())->0 <= 24 {
        Some((111 + spec_parse_u32(t.drop_first())->0) as u32)
    } else if t == "PRINTSCREEN"@ || t == "PRTSC"@ || t == "PRTSCN"@ || t == "SNAPSHOT"@ || t == "SYSRQ"@
        || t == "SYSREQ"@ || t == "PRINT"@ {
        Some(VK_SNAPSHOT)
    } else {
        None
    }
}

/// The key code an upper-cased capture hotkey token names.
pub fn parse_hotkey_key(token: &Vec<char>) -> (r: Option<u32>)
    ensures
        r == spec_settings_hotkey_key(token@),
{
    let n = token.len();
    if n == 1 {
        let ch = token[0];
        if ('A' <= ch && ch <= 'Z') || ('0' <= ch && ch <= '9') {
            return Some(ch as u32);
        }
    }
    if n >= 1 && token[0] == 'F' {
        let parsed = parse_u32_from(token, 1);
        assert(token@.subrange(1, n as int) =~= token@.drop_first());
        if let Some(value) = parsed {
            if 1 <= value && value <= 24 {
                return Some(111 + value);
            }
        }
    }
    if eq_lit(token, "PRINTSCREEN") || eq_lit(token, "PRTSC") || eq_lit(token, "PRTSCN") || eq_lit(
        token,
        "SNAPSHOT",
    ) || eq_lit(token, "SYSRQ") || eq_lit(token, "SYSREQ") || eq_lit(token, "PRINT") {
        return Some(VK_SNAPSHOT);
    }
    None
}

/// One token of a capture hotkey applied to the state read so far.
pub open spec fn settings_hotkey_token(st: ModState, raw: Seq<char>) -> Result<ModState, HotkeyErrorView> {
    let t = spec_trim(raw);
    let u = upper_seq(t);
    if t.len() == 0 {
        Err(HotkeyErrorView::EmptyToken)
    } else if u == "CTRL"@ || u == "CONTROL"@ {
        Ok(ModState { ctrl: true, ..st })
    } else if u == "SHIFT"@ {
        Ok(ModState { shift: true, ..st })
    } else if u == "ALT"@ {
        Ok(ModState { alt: true, ..st })
    } else if u == "WIN"@ || u == "WINDOWS"@ || u == "META"@ {
        Ok(ModState { win: true, ..st })
    } else if st.key is Some {
        Err(HotkeyErrorView::MultipleKeys)
    } else {
        match spec_settings_hotkey_key(u) {
            Some(k) => Ok(ModState { key: Some(k), ..st }),
            None => Err(HotkeyErrorView::UnsupportedKey(u)),
        }
    }
}

pub open spec fn settings_hotkey_fold(tokens: Seq<Seq<char>>) -> Result<ModState, HotkeyErrorView>
    decreases tokens.len(),
{
    if tokens.len() == 0 {
        Ok(crate::hotkey::no_mods())
    } else {
        match settings_hotkey_fold(tokens.drop_last()) {
            Err(e) => Err(e),
            Ok(st) => settings_hotkey_token(st, tokens.last()),
        }
    }
}

/// The chord a capture hotkey string names in the settings window (the
/// Windows key counts as a modifier but is not kept), or why it names none.
pub open spec fn spec_settings_hotkey(s: Seq<char>) -> Result<KeyChord, HotkeyErrorView> {
    match settings_hotkey_fold(spec_split(s, '+')) {
        Err(e) => Err(e),
        Ok(st) => match st.key {
            None => Err(HotkeyErrorView::MissingKey),
            Some(key) => if !(st.ctrl || st.shift || st.alt || st.win) && key != VK_SNAPSHOT {
                Err(HotkeyErrorView::MissingModifier)
            } else {
                Ok(KeyChord { key, ctrl: st.ctrl, shift: st.shift, alt: st.alt })
            },
        },
    }
}

/// A key token only the settings window reads as PrintScreen.
pub open spec fn is_print_alias(u: Seq<char>) -> bool {
    u == "SYSRQ"@ || u == "SYSREQ"@ || u == "PRINT"@
}

/// No token of the hotkey text is such an alias.
pub open spec fn no_print_alias(s: Seq<char>) -> bool {
    forall|i: int| 0 <= i < spec_split(s, '+').len() ==> !is_print_alias(#[trigger] upper_seq(spec_trim(spec_split(s, '+')[i])))
}

proof fn lemma_token_agrees(st: ModState, raw: Seq<char>)
    requires
        !is_print_alias(upper_seq(spec_trim(raw))),
    ensures
        settings_hotkey_token(st, raw) == hotkey_token(st, raw),
{
    let u = upper_seq(spec_trim(raw));
    reveal_strlit("ALT");
    reveal_strlit("CTRL");
    reveal_strlit("CONTROL");
    reveal_strlit("SHIFT");
    assert(spec_settings_hotkey_key(u) == spec_virtual_key(u));
}

proof fn lemma_fold_agrees(ts: Seq<Seq<char>>)
    requires
        forall|i: int| 0 <= i < ts.len() ==> !is_print_alias(#[trigger] upper_seq(spec_trim(ts[i]))),
    ensures
        settings_hotkey_fold(ts) == hotkey_fold(ts),
    decreases ts.len(),
{
    if ts.len() > 0 {
        let d = ts.drop_last();
        assert forall|i: int| 0 <= i < d.len() implies !is_print_alias(#[trigger] upper_seq(spec_trim(d[i]))) by {
            assert(d[i] == ts[i]);
        }
        lemma_fold_agrees(d);
        assert(!is_print_alias(upper_seq(spec_trim(ts[ts.len() - 1]))));
        match hotkey_fold(d) {
            Ok(st) => lemma_token_agrees(st, ts.last()),
            Err(_) => {},
        }
    }
}

/// A capture hotkey the settings window accepts is one the tray app parses
/// and registers, with the same key and modifiers, unless it names the key
/// with one of the settings window's own PrintScreen aliases (SYSRQ, SYSREQ,
/// PRINT), which the tray app does not read.
pub proof fn law_accepted_capture_hotkey_registers(s: Seq<char>)
    requires
        no_print_alias(s),
        spec_settings_hotkey(s) is Ok,
    ensures
        spec_parse_hotkey(s) is Ok,
        spec_parse_hotkey(s)->Ok_0.vk == spec_settings_hotkey(s)->Ok_0.key,
{
    lemma_fold_agrees(spec_split(s, '+'));
    let st = hotkey_fold(spec_split(s, '+'))->Ok_0;
    if mod_bits(st) == 0 {
        assert(!(st.ctrl || st.shift || st.alt || st.win));
    }
}

proof fn lemma_settings_fold_err(ts: Seq<Seq<char>>, k: int, e: HotkeyErrorView)
    requires
        0 <= k <= ts.len(),
        settings_hotkey_fold(ts.subrange(0, k)) == Err::<ModState, HotkeyErrorView>(e),
    ensures
        settings_hotkey_fold(ts) == Err::<ModState, HotkeyErrorView>(e),
    decreases ts.len() - k,
{
    if k < ts.len() {
        assert(ts.subrange(0, k + 1).drop_last() =~= ts.subrange(0, k));
        lemma_settings_fold_err(ts, k + 1, e);
    } else {
        assert(ts.subrange(0, k) =~= ts);
    }
}

/// Parses the capture hotkey as the settings window checks it.
pub fn parse_hotkey(value: &str) -> (r: Result<KeyChord, HotkeyError>)
    ensures
        match r {
            Ok(c) => spec_settings_hotkey(value@) == Ok::<KeyChord, HotkeyErrorView>(c),
            Err(e) => spec_settings_hotkey(value@) == Err::<KeyChord, HotkeyErrorView>(e@),
        },
{
    let chars = chars_of(value);
    let tokens = split_chars(&chars, '+');
    let ghost ts = spec_split(value@, '+');
    let mut st = ModState { alt: false, ctrl: false, shift: false, win: false, key: None };
    let mut i: usize = 0;
    while i < tokens.len()
        invariant
            views_of(tokens@) == ts,
            ts == spec_split(value@, '+'),
            i <= tokens@.len(),
            settings_hotkey_fold(ts.subrange(0, i as int)) == Ok::<ModState, HotkeyErrorView>(st),
        decreases tokens@.len() - i,
    {
        let ghost raw = tokens@[i as int]@;
        assert(ts[i as int] == raw);
        assert(ts.subrange(0, i + 1).drop_last() =~= ts.subrange(0, i as int));
        assert(ts.subrange(0, i + 1).last() == raw);
        let token = trim_chars(&tokens[i]);
        if token.len() == 0 {
            proof {
                lemma_settings_fold_err(ts, i + 1, HotkeyErrorView::EmptyToken);
            }
            return Err(HotkeyError::EmptyToken);
        }
        let upper = to_ascii_upper(&token);
        if eq_lit(&upper, "CTRL") || eq_lit(&upper, "CONTROL") {
            st.ctrl = true;
        } else if eq_lit(&upper, "SHIFT") {
            st.shift = true;
        } else if eq_lit(&upper, "ALT") {
            st.alt = true;
        } else if eq_lit(&upper, "WIN") || eq_lit(&upper, "WINDOWS") || eq_lit(&upper, "META") {
            st.win = true;
        } else {
            if st.key.is_some() {
                proof {
                    lemma_settings_fold_err(ts, i + 1, HotkeyErrorView::MultipleKeys);
                }
                return Err(HotkeyError::MultipleKeys);
            }
            match parse_hotkey_key(&upper) {
                Some(k) => {
                    st.key = Some(k);
                },
                None => {
                    proof {
                        lemma_settings_fold_err(ts, i + 1, HotkeyErrorView::UnsupportedKey(upper@));
                    }
                    return Err(HotkeyError::UnsupportedKey(string_from_chars(&upper)));
                },
            }
        }
        i = i + 1;
    }
    assert(ts.subrange(0, ts.len() as int) =~= ts);
    let key = match st.key {
        None => {
            return Err(HotkeyError::MissingKey);
        },
        Some(k) => k,
    };
    if !(st.ctrl || st.shift || st.alt || st.win) && key != VK_SNAPSHOT {
        return Err(HotkeyError::MissingModifier);
    }
    Ok(KeyChord { key, ctrl: st.ctrl, shift: st.shift, alt: st.alt })
}

/// Checks the capture hotkey field.
pub fn validate_capture_hotkey(value: &str) -> (r: Result<(), HotkeyError>)
    ensures
        match r {
            Ok(()) => spec_settings_hotkey(value@) is Ok,
            Err(e) => spec_settings_hotkey(value@) == Err::<KeyChord, HotkeyErrorView>(e@),
        },
{
    match parse_hotkey(value) {
        Ok(_) => Ok(()),
        Err(e) => Err(e),
    }
}

/// The index of a capture target in the settings window's list.
pub open spec fn spec_target_index(t: CaptureTarget) -> i32 {
    match t {
        CaptureTarget::Region => 0,
        CaptureTarget::Primary => 1,
        CaptureTarget::AllDisplays => 2,
    }
}

/// The list index of a capture target.
pub fn target_to_index(target: CaptureTarget) -> (i: i32)
    ensures
        i == spec_target_index(target),
{
    match target {
        CaptureTarget::Region => 0,
        CaptureTarget::Primary => 1,
        CaptureTarget::AllDisplays => 2,
    }
}

/// The capture target at a list index; an error for any other index.
pub fn index_to_target(index: i32) -> (r: Result<CaptureTarget, String>)
    ensures
        0 <= index <= 2 ==> (r matches Ok(t) && spec_target_index(t) == index),
        !(0 <= index <= 2) ==> (r matches Err(m) && m@ == "Default target selection is invalid."@),
{
    match index {
        0 => Ok(CaptureTarget::Region),
        1 => Ok(CaptureTarget::Primary),
        2 => Ok(CaptureTarget::AllDisplays),
        _ => Err(String::from_str("Default target selection is invalid.")),
    }
}

/// A target's index gives the target back.
pub proof fn law_target_index_roundtrip(t: CaptureTarget)
    ensures
        0 <= spec_target_index(t) <= 2,
        forall|u: CaptureTarget| spec_target_index(u) == spec_target_index(t) ==> u == t,
{
}

/// The entries of the settings window's default-target list, top to bottom,
/// as the configuration names the targets.
pub open spec fn target_list_entries() -> Seq<Seq<char>> {
    seq!["region"@, "primary"@, "all-displays"@]
}

/// The list shows each target at its own entry: the entry at a target's
/// index carries that target's configuration name, and the target read back
/// from an index is the one named by the entry there.
pub proof fn law_target_list_order(t: CaptureTarget, index: int)
    ensures
        target_list_entries()[spec_target_index(t) as int] == spec_capture_target_name(t),
        0 <= index <= 2 && spec_target_index(t) == index ==> spec_capture_target_name(t) == target_list_entries()[index],
{
}

/// A required text field: its trimmed value, or an error naming it when empty.
pub fn read_required(label: &str, value: &str) -> (r: Result<String, String>)
    ensures
        spec_trim(value@).len() == 0 ==> (r matches Err(m) && m@ == label@ + " cannot be empty."@),
        spec_trim(value@).len() > 0 ==> (r matches Ok(s) && s@ == spec_trim(value@)),
{
    let cs = chars_of(value);
    let t = trim_chars(&cs);
    if t.len() == 0 {
        let mut m = String::from_str(label);
        m.append(" cannot be empty.");
        return Err(m);
    }
    Ok(string_from_chars(&t))
}


/// The label of the editor shortcut at `i` in binding order.
pub open spec fn binding_label(i: int) -> Seq<char> {
    spec_field_label(spec_field_of(i + 1)->0)
}

/// The first of the values (in order) that is not a valid shortcut.
pub open spec fn first_invalid(vals: Seq<Seq<char>>) -> Option<int>
    decreases vals.len(),
{
    if vals.len() == 0 {
        None
    } else {
        match first_invalid(vals.drop_last()) {
            Some(i) => Some(i),
            None => if spec_parse_shortcut(vals.last()) is Err {
                Some(vals.len() - 1)
            } else {
                None
            },
        }
    }
}

/// The latest binding before `j`, counting down from `i`, with the chord of binding `j`.
pub open spec fn last_before(cs: Seq<KeyChord>, j: int, i: int) -> Option<int>
    decreases i + 1,
{
    if i < 0 {
        None
    } else if cs[i] == cs[j] {
        Some(i)
    } else {
        last_before(cs, j, i - 1)
    }
}

/// The text of a clash between bindings `i` and `j`.
pub open spec fn conflict_entry(cs: Seq<KeyChord>, i: int, j: int) -> Seq<char> {
    binding_label(i) + " + "@ + binding_label(j) + " => `"@ + spec_settings_chord(cs[j]) + "`"@
}

/// The clashes among the first `n` bindings: each binding whose chord an
/// earlier one has, paired with the latest such earlier binding.
pub open spec fn conflicts_upto(cs: Seq<KeyChord>, n: int) -> Seq<Seq<char>>
    decreases n,
{
    if n <= 0 {
        Seq::empty()
    } else {
        let prev = conflicts_upto(cs, n - 1);
        match last_before(cs, n - 1, n - 2) {
            Some(i) => prev.push(conflict_entry(cs, i, n - 1)),
            None => prev,
        }
    }
}

/// The parts joined with `sep` between them.
pub open spec fn join_with(parts: Seq<Seq<char>>, sep: Seq<char>) -> Seq<char>
    decreases parts.len(),
{
    if parts.len() == 0 {
        Seq::empty()
    } else if parts.len() == 1 {
        parts[0]
    } else {
        join_with(parts.drop_last(), sep) + sep + parts.last()
    }
}

/// The chords of values that all parse.
pub open spec fn parsed_all(vals: Seq<Seq<char>>) -> Seq<KeyChord> {
    vals.map_values(|v: Seq<char>| spec_parse_shortcut(v)->Ok_0)
}

/// What the settings window says of the editor shortcuts: the first invalid
/// one, else every clash, else nothing.
pub open spec fn spec_validate_editor_shortcuts(vals: Seq<Seq<char>>) -> Result<(), Seq<char>> {
    match first_invalid(vals) {
        Some(i) => Err(
            binding_label(i) + " shortcut is invalid: "@ + crate::shortcuts::spec_shortcut_message(
                spec_parse_shortcut(vals[i])->Err_0,
            ),
        ),
        None => {
            let c = conflicts_upto(parsed_all(vals), vals.len() as int);
            if c.len() == 0 {
                Ok(())
            } else {
                Err("Shortcut conflicts detected: "@ + join_with(c, " | "@) + "."@)
            }
        },
    }
}

proof fn lemma_first_invalid_prefix(vals: Seq<Seq<char>>, k: int)
    requires
        0 <= k <= vals.len(),
        first_invalid(vals.subrange(0, k)) is Some,
    ensures
        first_invalid(vals) == first_invalid(vals.subrange(0, k)),
    decreases vals.len() - k,
{
    if k < vals.len() {
        assert(vals.subrange(0, k + 1).drop_last() =~= vals.subrange(0, k));
        lemma_first_invalid_prefix(vals, k + 1);
    } else {
        assert(vals.subrange(0, k) =~= vals);
    }
}

proof fn lemma_conflicts_prefix(cs: Seq<KeyChord>, ds: Seq<KeyChord>, n: int)
    requires
        0 <= n <= cs.len(),
        n <= ds.len(),
        forall|k: int| 0 <= k < n ==> cs[k] == ds[k],
    ensures
        conflicts_upto(cs, n) == conflicts_upto(ds, n),
    decreases n,
{
    if n > 0 {
        lemma_conflicts_prefix(cs, ds, n - 1);
        lemma_last_before_same(cs, ds, n - 1, n - 2);
    }
}

proof fn lemma_last_before_same(cs: Seq<KeyChord>, ds: Seq<KeyChord>, j: int, i: int)
    requires
        0 <= j < cs.len(),
        j < ds.len(),
        i < j,
        forall|k: int| 0 <= k <= j ==> cs[k] == ds[k],
    ensures
        last_before(cs, j, i) == last_before(ds, j, i),
    decreases i + 1,
{
    if i >= 0 {
        lemma_last_before_same(cs, ds, j, i - 1);
    }
}

proof fn lemma_last_before_range(cs: Seq<KeyChord>, j: int, i: int)
    ensures
        last_before(cs, j, i) matches Some(p) ==> 0 <= p <= i,
    decreases i + 1,
{
    if i >= 0 {
        lemma_last_before_range(cs, j, i - 1);
    }
}

/// The latest binding before `j` with the chord of binding `j`.
fn find_last_before(chords: &Vec<KeyChord>, j: usize) -> (r: Option<usize>)
    requires
        j < chords@.len(),
    ensures
        match r {
            Some(p) => last_before(chords@, j as int, j - 1) == Some(p as int),
            None => last_before(chords@, j as int, j - 1) is None,
        },
{
    let c = chords[j];
    let mut k: usize = j;
    while k > 0
        invariant
            k <= j,
            j < chords@.len(),
            c == chords@[j as int],
            last_before(chords@, j as int, j - 1) == last_before(chords@, j as int, k - 1),
        decreases k,
    {
        if chords[k - 1] == c {
            return Some(k - 1);
        }
        k = k - 1;
    }
    None
}

fn parse_all_shortcuts(shortcuts: &EditorShortcutConfig) -> (r: Result<Vec<KeyChord>, String>)
    ensures
        match r {
            Ok(chords) => first_invalid(crate::config::shortcut_values(shortcuts)) is None && chords@ == parsed_all(
                crate::config::shortcut_values(shortcuts),
            ),
            Err(m) => first_invalid(crate::config::shortcut_values(shortcuts)) is Some && spec_validate_editor_shortcuts(
                crate::config::shortcut_values(shortcuts),
            ) == Err::<(), Seq<char>>(m@),
        },
{
    let ghost vals = crate::config::shortcut_values(shortcuts);
    let fields = ShortcutField::editor_fields();
    let mut chords: Vec<KeyChord> = Vec::new();
    let mut i: usize = 0;
    while i < 15
        invariant
            vals == crate::config::shortcut_values(shortcuts),
            vals.len() == 15,
            fields@.len() == 15,
            forall|k: int| 0 <= k < 15 ==> Some(#[trigger] fields@[k]) == spec_field_of(k + 1),
            i <= 15,
            chords@.len() == i,
            first_invalid(vals.subrange(0, i as int)) is None,
            forall|k: int| 0 <= k < i ==> spec_parse_shortcut(#[trigger] vals[k]) == Ok::<KeyChord, ShortcutErrorView>(chords@[k]),
        decreases 15 - i,
    {
        let value = crate::keybindings::shortcut_at(shortcuts, i);
        assert(vals.subrange(0, i + 1).drop_last() =~= vals.subrange(0, i as int));
        match crate::shortcuts::parse_editor_shortcut(value.as_str()) {
            Ok(c) => {
                chords.push(c);
            },
            Err(e) => {
                proof {
                    lemma_first_invalid_prefix(vals, i + 1);
                }
                let mut m = String::from_str(fields[i].label());
                m.append(" shortcut is invalid: ");
                let msg = e.message();
                m.append(msg.as_str());
                return Err(m);
            },
        }
        i = i + 1;
    }
    assert(vals.subrange(0, 15) =~= vals);
    assert(parsed_all(vals) =~= chords@);
    Ok(chords)
}

fn collect_conflicts(chords: &Vec<KeyChord>) -> (entries: Vec<String>)
    requires
        chords@.len() == 15,
    ensures
        entries@.len() == conflicts_upto(chords@, 15).len(),
        forall|k: int| 0 <= k < entries@.len() ==> #[trigger] entries@[k]@ == conflicts_upto(chords@, 15)[k],
{
    let ghost cs = chords@;
    let fields = ShortcutField::editor_fields();
    let mut entries: Vec<String> = Vec::new();
    let mut j: usize = 0;
    while j < 15
        invariant
            cs == chords@,
            chords@.len() == 15,
            fields@.len() == 15,
            forall|k: int| 0 <= k < 15 ==> Some(#[trigger] fields@[k]) == spec_field_of(k + 1),
            j <= 15,
            entries@.len() == conflicts_upto(cs, j as int).len(),
            forall|k: int| 0 <= k < entries@.len() ==> #[trigger] entries@[k]@ == conflicts_upto(cs, j as int)[k],
        decreases 15 - j,
    {
        let c = chords[j];
        let found = find_last_before(chords, j);
        proof {
            lemma_last_before_range(chords@, j as int, j - 1);
        }
        let ghost prev_entries = entries@;
        match found {
            Some(p) => {
                let mut m = String::from_str(fields[p].label());
                m.append(" + ");
                m.append(fields[j].label());
                m.append(" => `");
                let f = format_key_chord(c);
                m.append(f.as_str());
                m.append("`");
                assert(fields@[p as int] == spec_field_of(p + 1)->0);
                assert(fields@[j as int] == spec_field_of(j + 1)->0);
                assert(m@ =~= conflict_entry(cs, p as int, j as int));
                entries.push(m);
            },
            None => {},
        }
        j = j + 1;
        proof {
            assert(conflicts_upto(cs, j as int) == match last_before(cs, j - 1, j - 2) {
                Some(i) => conflicts_upto(cs, j - 1).push(conflict_entry(cs, i, j - 1)),
                None => conflicts_upto(cs, j - 1),
            });
            assert forall|k: int| 0 <= k < entries@.len() implies #[trigger] entries@[k]@ == conflicts_upto(cs, j as int)[k] by {
                if k < prev_entries.len() {
                    assert(entries@[k] == prev_entries[k]);
                }
            }
        }
    }
    entries
}

fn join_conflicts(entries: &Vec<String>, Ghost(c): Ghost<Seq<Seq<char>>>) -> (out: String)
    requires
        entries@.len() == c.len(),
        c.len() > 0,
        forall|k: int| 0 <= k < entries@.len() ==> #[trigger] entries@[k]@ == c[k],
    ensures
        out@ == "Shortcut conflicts detected: "@ + join_with(c, " | "@) + "."@,
{
    let mut out = String::from_str("Shortcut conflicts detected: ");
    let mut t: usize = 0;
    while t < entries.len()
        invariant
            entries@.len() == c.len(),
            c.len() > 0,
            forall|k: int| 0 <= k < entries@.len() ==> #[trigger] entries@[k]@ == c[k],
            t <= entries@.len(),
            t == 0 ==> out@ == "Shortcut conflicts detected: "@,
            t > 0 ==> out@ == "Shortcut conflicts detected: "@ + join_with(c.subrange(0, t as int), " | "@),
        decreases entries@.len() - t,
    {
        if t > 0 {
            out.append(" | ");
        }
        out.append(entries[t].as_str());
        t = t + 1;
        proof {
            let sub = c.subrange(0, t as int);
            assert(sub.drop_last() =~= c.subrange(0, t - 1));
            if t == 1 {
                assert(join_with(sub, " | "@) == sub[0]);
                assert(out@ =~= "Shortcut conflicts detected: "@ + join_with(sub, " | "@));
            } else {
                assert(out@ =~= "Shortcut conflicts detected: "@ + join_with(sub, " | "@));
            }
        }
    }
    assert(c.subrange(0, c.len() as int) =~= c);
    out.append(".");
    out
}

proof fn lemma_first_invalid_none(vals: Seq<Seq<char>>)
    ensures
        first_invalid(vals) is None <==> forall|i: int| 0 <= i < vals.len() ==> spec_parse_shortcut(#[trigger] vals[i]) is Ok,
    decreases vals.len(),
{
    if vals.len() > 0 {
        lemma_first_invalid_none(vals.drop_last());
        if first_invalid(vals.drop_last()) is None && spec_parse_shortcut(vals.last()) is Ok {
            assert forall|i: int| 0 <= i < vals.len() implies spec_parse_shortcut(#[trigger] vals[i]) is Ok by {
                if i < vals.len() - 1 {
                    assert(vals[i] == vals.drop_last()[i]);
                }
            }
        }
        if first_invalid(vals.drop_last()) is Some {
            assert(!(forall|i: int| 0 <= i < vals.len() - 1 ==> spec_parse_shortcut(#[trigger] vals.drop_last()[i]) is Ok));
            let k = choose|i: int| 0 <= i < vals.len() - 1 && !(spec_parse_shortcut(#[trigger] vals.drop_last()[i]) is Ok);
            assert(vals[k] == vals.drop_last()[k]);
        }
    }
}

proof fn lemma_last_before_none(cs: Seq<KeyChord>, j: int, i: int)
    ensures
        last_before(cs, j, i) is None <==> forall|k: int| 0 <= k <= i ==> cs[k] != cs[j],
    decreases i + 1,
{
    if i >= 0 {
        lemma_last_before_none(cs, j, i - 1);
    }
}

proof fn lemma_conflicts_empty(cs: Seq<KeyChord>, n: int)
    requires
        0 <= n <= cs.len(),
    ensures
        conflicts_upto(cs, n).len() == 0 <==> forall|i: int, j: int| 0 <= i < j < n ==> cs[i] != cs[j],
    decreases n,
{
    if n > 0 {
        lemma_conflicts_empty(cs, n - 1);
        lemma_last_before_none(cs, n - 1, n - 2);
        if conflicts_upto(cs, n).len() == 0 {
            assert forall|i: int, j: int| 0 <= i < j < n implies cs[i] != cs[j] by {
                if j == n - 1 {
                    assert(cs[i] != cs[n - 1]);
                }
            }
        } else {
            if conflicts_upto(cs, n - 1).len() == 0 {
                let k = choose|k: int| 0 <= k <= n - 2 && #[trigger] cs[k] == cs[n - 1];
                assert(cs[k] == cs[n - 1]);
            }
        }
    }
}

/// The settings window accepts exactly the editor shortcuts the editor's
/// keybindings accept: every one parses and no two share a chord.
pub proof fn law_settings_accept_what_editor_accepts(vals: Seq<Seq<char>>)
    ensures
        spec_validate_editor_shortcuts(vals) is Ok <==> shortcuts_valid(vals),
{
    lemma_first_invalid_none(vals);
    lemma_conflicts_empty(parsed_all(vals), vals.len() as int);
    assert(parsed_all(vals) =~= parsed_chords(vals));
}

/// Checks the editor shortcuts of the settings window: each must parse and
/// no two may share a chord.
pub fn validate_editor_shortcuts(shortcuts: &EditorShortcutConfig) -> (r: Result<(), String>)
    ensures
        match r {
            Ok(()) => spec_validate_editor_shortcuts(crate::config::shortcut_values(shortcuts)) is Ok,
            Err(m) => spec_validate_editor_shortcuts(crate::config::shortcut_values(shortcuts)) == Err::<
                (),
                Seq<char>,
            >(m@),
        },
{
    let chords = match parse_all_shortcuts(shortcuts) {
        Ok(c) => c,
        Err(m) => {
            return Err(m);
        },
    };
    let entries = collect_conflicts(&chords);
    if entries.len() == 0 {
        return Ok(());
    }
    let out = join_conflicts(&entries, Ghost(conflicts_upto(chords@, 15)));
    Err(out)
}

/// The key code of a toolkit private-use character for a special key.
pub open spec fn spec_special_key(code: u32) -> Option<u32> {
    if code == 0xf700 {
        Some(0x26)
    } else if code == 0xf701 {
        Some(0x28)
    } else if code == 0xf702 {
        Some(0x25)
    } else if code == 0xf703 {
        Some(0x27)
    } else if 0xF704 <= code <= 0xF71B {
        Some((112 + (code - 0xF704)) as u32)
    } else if code == 0xf727 {
        Some(0x2d)
    } else if code == 0xf729 {
        Some(0x24)
    } else if code == 0xf72b {
        Some(0x23)
    } else if code == 0xf72c {
        Some(0x21)
    } else if code == 0xf72d {
        Some(0x22)
    } else if code == 0xf72e {
        Some(VK_SNAPSHOT)
    } else if code == 0xf72f {
        Some(0x91)
    } else if code == 0xf730 {
        Some(0x13)
    } else if code == 0xf731 {
        Some(VK_SNAPSHOT)
    } else if code == 0xf735 {
        Some(0x5d)
    } else {
        None
    }
}

/// The virtual-key code of a special key that the UI toolkit reports as a
/// private-use character (arrows, F1..F24, navigation keys, PrintScreen).
pub fn map_slint_special_key_code(code: u32) -> (r: Option<u32>)
    ensures
        r == spec_special_key(code),
{
    if code == 0xf700 {
        Some(0x26)
    } else if code == 0xf701 {
        Some(0x28)
    } else if code == 0xf702 {
        Some(0x25)
    } else if code == 0xf703 {
        Some(0x27)
    } else if 0xF704 <= code && code <= 0xF71B {
        Some(112 + (code - 0xF704))
    } else if code == 0xf727 {
        Some(0x2d)
    } else if code == 0xf729 {
        Some(0x24)
    } else if code == 0xf72b {
        Some(0x23)
    } else if code == 0xf72c {
        Some(0x21)
    } else if code == 0xf72d {
        Some(0x22)
    } else if code == 0xf72e {
        Some(VK_SNAPSHOT)
    } else if code == 0xf72f {
        Some(0x91)
    } else if code == 0xf730 {
        Some(0x13)
    } else if code == 0xf731 {
        Some(VK_SNAPSHOT)
    } else if code == 0xf735 {
        Some(0x5d)
    } else {
        None
    }
}

/// The key that a shifted symbol is typed with on a US layout.
pub open spec fn spec_shifted_symbol_key(ch: char) -> Option<u32> {
    if ch == '!' {
        Some(('1' as u32) as u32)
    } else if ch == '@' {
        Some(('2' as u32) as u32)
    } else if ch == '#' {
        Some(('3' as u32) as u32)
    } else if ch == '$' {
        Some(('4' as u32) as u32)
    } else if ch == '%' {
        Some(('5' as u32) as u32)
    } else if ch == '^' {
        Some(('6' as u32) as u32)
    } else if ch == '&' {
        Some(('7' as u32) as u32)
    } else if ch == '*' {
        Some(('8' as u32) as u32)
    } else if ch == '(' {
        Some(('9' as u32) as u32)
    } else if ch == ')' {
        Some(('0' as u32) as u32)
    } else if ch == '_' {
        Some((0xBD) as u32)
    } else if ch == '+' {
        Some((0xBB) as u32)
    } else if ch == '{' {
        Some((0xDB) as u32)
    } else if ch == '}' {
        Some((0xDD) as u32)
    } else if ch == ':' {
        Some((0xBA) as u32)
    } else if ch == '"' {
        Some((0xDE) as u32)
    } else if ch == '<' {
        Some((0xBC) as u32)
    } else if ch == '>' {
        Some((0xBE) as u32)
    } else if ch == '?' {
        Some((0xBF) as u32)
    } else if ch == '|' {
        Some((0xDC) as u32)
    } else if ch == '~' {
        Some((0xC0) as u32)
    } else {
        None
    }
}

/// The key that a shifted symbol is typed with (`!` is `1`, `{` is `[`).
pub fn map_shifted_symbol_key(ch: char) -> (r: Option<u32>)
    ensures
        r == spec_shifted_symbol_key(ch),
{
    if ch == '!' {
        Some('1' as u32)
    } else if ch == '@' {
        Some('2' as u32)
    } else if ch == '#' {
        Some('3' as u32)
    } else if ch == '$' {
        Some('4' as u32)
    } else if ch == '%' {
        Some('5' as u32)
    } else if ch == '^' {
        Some('6' as u32)
    } else if ch == '&' {
        Some('7' as u32)
    } else if ch == '*' {
        Some('8' as u32)
    } else if ch == '(' {
        Some('9' as u32)
    } else if ch == ')' {
        Some('0' as u32)
    } else if ch == '_' {
        Some(0xBD)
    } else if ch == '+' {
        Some(0xBB)
    } else if ch == '{' {
        Some(0xDB)
    } else if ch == '}' {
        Some(0xDD)
    } else if ch == ':' {
        Some(0xBA)
    } else if ch == '"' {
        Some(0xDE)
    } else if ch == '<' {
        Some(0xBC)
    } else if ch == '>' {
        Some(0xBE)
    } else if ch == '?' {
        Some(0xBF)
    } else if ch == '|' {
        Some(0xDC)
    } else if ch == '~' {
        Some(0xC0)
    } else {
        None
    }
}

/// Whether an upper-cased key name is a modifier key on its own.
pub open spec fn is_modifier_name(u: Seq<char>) -> bool {
    u == "CTRL"@ || u == "CONTROL"@ || u == "SHIFT"@ || u == "ALT"@ || u == "META"@ || u == "WIN"@ || u
        == "WINDOWS"@ || u == "LEFTSHIFT"@ || u == "RIGHTSHIFT"@ || u == "LEFTCONTROL"@ || u
        == "RIGHTCONTROL"@ || u == "LEFTALT"@ || u == "RIGHTALT"@
}

/// The key of a one-character key text: a toolkit special key, a control
/// character that Ctrl produces, a named control key, or a shifted symbol.
pub open spec fn spec_single_char_key(ch: char, ctrl: bool) -> Option<u32> {
    let code = ch as u32;
    if spec_special_key(code) is Some {
        spec_special_key(code)
    } else if ctrl && 1 <= code <= 26 {
        Some((code + 64) as u32)
    } else if ctrl && code == 0x1C {
        Some('4' as u32)
    } else if ctrl && code == 0x1D {
        Some('5' as u32)
    } else if ctrl && code == 0x1E {
        Some('6' as u32)
    } else if ctrl && code == 0x1F {
        Some(0xBDu32)
    } else if code == 0x08 || code == 0x09 || code == 0x0D || code == 0x1B || code == 0x20 {
        Some(code)
    } else if code == 0x7F {
        Some(0x2Eu32)
    } else {
        spec_shifted_symbol_key(ch)
    }
}

/// The key code of the text the UI toolkit reports for a key press while a
/// shortcut is recorded; `None` for modifiers alone and unknown keys.
pub open spec fn spec_recorded_key(raw: Seq<char>, ctrl: bool) -> Option<u32> {
    let token = spec_trim(raw);
    let upper = upper_seq(token);
    if token.len() == 0 {
        None
    } else if token.len() == 1 && spec_single_char_key(token[0], ctrl) is Some {
        spec_single_char_key(token[0], ctrl)
    } else if is_modifier_name(upper) {
        None
    } else if upper == "PLUS"@ || upper == "ADD"@ {
        Some(0xBBu32)
    } else if upper == "MINUS"@ {
        Some(0xBDu32)
    } else if upper == "PRINTSCREEN"@ || upper == "PRTSC"@ || upper == "PRTSCN"@ || upper == "SNAPSHOT"@
        || upper == "SYSRQ"@ || upper == "SYSREQ"@ || upper == "PRINT"@ {
        Some(VK_SNAPSHOT)
    } else {
        crate::shortcuts::spec_shortcut_key(upper)
    }
}

fn single_char_key(ch: char, ctrl: bool) -> (r: Option<u32>)
    ensures
        r == spec_single_char_key(ch, ctrl),
{
    let code = ch as u32;
    let special = map_slint_special_key_code(code);
    if special.is_some() {
        return special;
    }
    if ctrl && 1 <= code && code <= 26 {
        return Some(code + 64);
    }
    if ctrl {
        if code == 0x1C {
            return Some('4' as u32);
        }
        if code == 0x1D {
            return Some('5' as u32);
        }
        if code == 0x1E {
            return Some('6' as u32);
        }
        if code == 0x1F {
            return Some(0xBD);
        }
    }
    if code == 0x08 || code == 0x09 || code == 0x0D || code == 0x1B || code == 0x20 {
        return Some(code);
    }
    if code == 0x7F {
        return Some(0x2E);
    }
    map_shifted_symbol_key(ch)
}

/// The key code of a recorded key text; see [`spec_recorded_key`].
pub fn parse_recorded_key_text(raw: &str, ctrl: bool) -> (r: Option<u32>)
    ensures
        r == spec_recorded_key(raw@, ctrl),
{
    let cs = chars_of(raw);
    let token = trim_chars(&cs);
    if token.len() == 0 {
        return None;
    }
    if token.len() == 1 {
        let k = single_char_key(token[0], ctrl);
        if k.is_some() {
            return k;
        }
    }
    let upper = to_ascii_upper(&token);
    if eq_lit(&upper, "CTRL") || eq_lit(&upper, "CONTROL") || eq_lit(&upper, "SHIFT") || eq_lit(&upper, "ALT")
        || eq_lit(&upper, "META") || eq_lit(&upper, "WIN") || eq_lit(&upper, "WINDOWS") || eq_lit(
        &upper,
        "LEFTSHIFT",
    ) || eq_lit(&upper, "RIGHTSHIFT") || eq_lit(&upper, "LEFTCONTROL") || eq_lit(&upper, "RIGHTCONTROL")
        || eq_lit(&upper, "LEFTALT") || eq_lit(&upper, "RIGHTALT") {
        return None;
    }
    if eq_lit(&upper, "PLUS") || eq_lit(&upper, "ADD") {
        return Some(0xBB);
    }
    if eq_lit(&upper, "MINUS") {
        return Some(0xBD);
    }
    if eq_lit(&upper, "PRINTSCREEN") || eq_lit(&upper, "PRTSC") || eq_lit(&upper, "PRTSCN") || eq_lit(
        &upper,
        "SNAPSHOT",
    ) || eq_lit(&upper, "SYSRQ") || eq_lit(&upper, "SYSREQ") || eq_lit(&upper, "PRINT") {
        return Some(VK_SNAPSHOT);
    }
    crate::shortcuts::parse_editor_shortcut_key(&upper)
}

/// The shortcut fields as the settings window holds them.
#[derive(Debug)]
pub struct ShortcutForm {
    pub capture_hotkey: String,
    pub shortcuts: EditorShortcutConfig,
}

/// The sixteen field values, indexed by field id.
pub open spec fn form_values(form: &ShortcutForm) -> Seq<Seq<char>> {
    seq![form.capture_hotkey@] + crate::config::shortcut_values(&form.shortcuts)
}

/// The value of a field.
pub fn get_shortcut_field_value(form: &ShortcutForm, field: ShortcutField) -> (s: &String)
    ensures
        s@ == form_values(form)[spec_field_id(field) as int],
{
    let id = field.id();
    if id == 0 {
        &form.capture_hotkey
    } else {
        crate::keybindings::shortcut_at(&form.shortcuts, (id - 1) as usize)
    }
}

/// A value written to a field reads back from it, and the other fields keep
/// theirs.
pub proof fn law_field_write_read(form: &ShortcutForm, f: ShortcutField, g: ShortcutField, v: Seq<char>)
    ensures
        ({
            let after = form_values(form).update(spec_field_id(f) as int, v);
            &&& after[spec_field_id(f) as int] == v
            &&& f != g ==> after[spec_field_id(g) as int] == form_values(form)[spec_field_id(g) as int]
        }),
{
    assert(form_values(form).len() == 16);
}

/// Sets the value of a field.
pub fn set_shortcut_field_value(form: &mut ShortcutForm, field: ShortcutField, value: &str)
    ensures
        form_values(final(form)) == form_values(old(form)).update(spec_field_id(field) as int, value@),
{
    let v = string_from_chars(&chars_of(value));
    match field {
        ShortcutField::CaptureHotkey => form.capture_hotkey = v,
        ShortcutField::Select => form.shortcuts.select = v,
        ShortcutField::Rectangle => form.shortcuts.rectangle = v,
        ShortcutField::Ellipse => form.shortcuts.ellipse = v,
        ShortcutField::Line => form.shortcuts.line = v,
        ShortcutField::Arrow => form.shortcuts.arrow = v,
        ShortcutField::Marker => form.shortcuts.marker = v,
        ShortcutField::Text => form.shortcuts.text = v,
        ShortcutField::Pixelate => form.shortcuts.pixelate = v,
        ShortcutField::Blur => form.shortcuts.blur = v,
        ShortcutField::Copy => form.shortcuts.copy = v,
        ShortcutField::Save => form.shortcuts.save = v,
        ShortcutField::CopyAndSave => form.shortcuts.copy_and_save = v,
        ShortcutField::Undo => form.shortcuts.undo = v,
        ShortcutField::Redo => form.shortcuts.redo = v,
        ShortcutField::DeleteSelected => form.shortcuts.delete_selected = v,
    }
    assert(form_values(final(form)) =~= form_values(old(form)).update(spec_field_id(field) as int, value@));
}

/// The first editor field (in binding order, from `k` on, other than
/// `field`) whose trimmed value parses to `chord`.
pub open spec fn conflict_from(vals: Seq<Seq<char>>, field: ShortcutField, chord: KeyChord, k: int) -> Option<int>
    decreases 15 - k,
{
    if k >= 15 || k < 0 {
        None
    } else if spec_field_of(k + 1) != Some(field) && spec_parse_shortcut(spec_trim(vals[k + 1]))
        == Ok::<KeyChord, ShortcutErrorView>(chord) {
        Some(k)
    } else {
        conflict_from(vals, field, chord, k + 1)
    }
}

/// The label of the other editor shortcut that already has `chord`, if any.
pub fn find_editor_shortcut_conflict(form: &ShortcutForm, field: ShortcutField, chord: KeyChord) -> (r: Option<&'static str>)
    ensures
        match conflict_from(form_values(form), field, chord, 0) {
            Some(k) => r matches Some(l) && l@ == binding_label(k),
            None => r is None,
        },
{
    let fields = ShortcutField::editor_fields();
    let mut k: usize = 0;
    while k < 15
        invariant
            fields@.len() == 15,
            forall|j: int| 0 <= j < 15 ==> Some(#[trigger] fields@[j]) == spec_field_of(j + 1),
            k <= 15,
            conflict_from(form_values(form), field, chord, 0) == conflict_from(form_values(form), field, chord, k as int),
        decreases 15 - k,
    {
        let other = fields[k];
        if other != field {
            let raw = get_shortcut_field_value(form, other);
            assert(spec_field_id(other) == k + 1);
            let trimmed = string_from_chars(&trim_chars(&chars_of(raw.as_str())));
            match crate::shortcuts::parse_editor_shortcut(trimmed.as_str()) {
                Ok(existing) => {
                    if existing == chord {
                        return Some(other.label());
                    }
                },
                Err(_) => {},
            }
        }
        k = k + 1;
    }
    None
}

/// The state of the shortcut recorder: the field being recorded and the
/// chord waiting for Enter.
#[derive(Clone, Copy, Debug, PartialEq, Eq, Structural)]
pub struct ShortcutRecorderState {
    pub active: Option<ShortcutField>,
    pub pending: Option<KeyChord>,
}

/// The recorder after it stops.
pub open spec fn recorder_cleared() -> ShortcutRecorderState {
    ShortcutRecorderState { active: None, pending: None }
}

/// Stops recording.
pub fn clear_shortcut_recorder(state: &mut ShortcutRecorderState)
    ensures
        *final(state) == recorder_cleared(),
{
    state.active = None;
    state.pending = None;
}

/// What committing a recorded shortcut did.
#[derive(Debug)]
pub enum CommitOutcome {
    /// No field was being recorded; the recorder stopped.
    NoField,
    /// No chord was pressed yet.
    NothingPending(ShortcutField),
    /// The chord `value` is already the shortcut of `with`; it was dropped.
    Conflict { field: ShortcutField, with: &'static str, value: String },
    /// The field now holds `value`; the recorder stopped.
    Updated { field: ShortcutField, value: String },
}

/// What committing does: with no field recorded the recorder stops; with
/// no chord pressed nothing changes; a chord another editor shortcut has is
/// dropped; otherwise the field takes the chord's text and the recorder stops.
pub open spec fn commit_spec(
    st: ShortcutRecorderState,
    vals: Seq<Seq<char>>,
    new_st: ShortcutRecorderState,
    new_vals: Seq<Seq<char>>,
    r: CommitOutcome,
) -> bool {
    match st.active {
            None => r is NoField && new_st == recorder_cleared() && new_vals == vals,
            Some(field) => match st.pending {
                None => r == CommitOutcome::NothingPending(field) && new_st == st
                    && new_vals == vals,
                Some(chord) => if field != ShortcutField::CaptureHotkey && conflict_from(vals, field, chord, 0) is Some {
                    &&& r matches CommitOutcome::Conflict { field: f, with, value } && f == field
                        && with@ == binding_label(conflict_from(vals, field, chord, 0)->0)
                        && value@ == spec_settings_chord(chord)
                    &&& new_st == (ShortcutRecorderState { pending: None, ..st })
                    &&& new_vals == vals
                } else {
                    &&& r matches CommitOutcome::Updated { field: f, value } && f == field && value@ == spec_settings_chord(chord)
                    &&& new_st == recorder_cleared()
                    &&& new_vals == vals.update(
                        spec_field_id(field) as int,
                        spec_settings_chord(chord),
                    )
                },
            },
        }
}

/// Commits the pending chord to the recorded field unless another editor
/// shortcut already uses it.
pub fn commit_shortcut_recording(state: &mut ShortcutRecorderState, form: &mut ShortcutForm) -> (r: CommitOutcome)
    ensures
        commit_spec(*old(state), form_values(old(form)), *final(state), form_values(final(form)), r),
{
    let field = match state.active {
        None => {
            clear_shortcut_recorder(state);
            return CommitOutcome::NoField;
        },
        Some(f) => f,
    };
    let chord = match state.pending {
        None => {
            return CommitOutcome::NothingPending(field);
        },
        Some(c) => c,
    };
    let value = format_key_chord(chord);
    if field.is_editor_shortcut() {
        match find_editor_shortcut_conflict(form, field, chord) {
            Some(with) => {
                state.pending = None;
                return CommitOutcome::Conflict { field, with, value };
            },
            None => {},
        }
    }
    set_shortcut_field_value(form, field, value.as_str());
    clear_shortcut_recorder(state);
    CommitOutcome::Updated { field, value }
}

/// How a status line is shown.
#[derive(Clone, Copy, Debug, PartialEq, Eq, Structural)]
pub enum StatusKind {
    Neutral,
    Success,
    Error,
    Warning,
}

/// What happens to the error shown under a shortcut field.
#[derive(Debug)]
pub enum FieldErrorUpdate {
    /// The shown error stays as it is.
    Keep,
    /// The field with id `field_id` shows `message`.
    Show { field_id: i32, message: String },
    /// No field shows an error.
    Clear,
}

/// What the settings window shows after a commit: the field error and the
/// status line.
#[derive(Debug)]
pub struct CommitFeedback {
    pub field_error: FieldErrorUpdate,
    pub status: Option<(String, StatusKind)>,
}

/// The messages a commit outcome shows: a prompt to press a shortcut when
/// none was pressed, "Already used by ..." on the field when the chord is
/// taken, and on success the field error cleared and the update announced.
pub fn commit_feedback(outcome: &CommitOutcome) -> (fb: CommitFeedback)
    ensures
        match outcome {
            CommitOutcome::NoField => fb.field_error is Keep && fb.status is None,
            CommitOutcome::NothingPending(f) => {
                &&& fb.field_error matches FieldErrorUpdate::Show { field_id, message } && field_id == spec_field_id(*f)
                    && message@ == "Press a shortcut, then Enter to commit."@
                &&& fb.status matches Some((m, k)) && m@ == "Press a shortcut first, then press Enter to commit."@
                    && k == StatusKind::Warning
            },
            CommitOutcome::Conflict { field, with, value } => {
                &&& fb.field_error matches FieldErrorUpdate::Show { field_id, message } && field_id == spec_field_id(*field)
                    && message@ == "Already used by "@ + with@ + "."@
                &&& fb.status matches Some((m, k)) && m@ == "`"@ + value@ + "` is already used by "@ + with@
                    + ". Choose a different shortcut."@ && k == StatusKind::Warning
            },
            CommitOutcome::Updated { field, value } => {
                &&& fb.field_error is Clear
                &&& fb.status matches Some((m, k)) && m@ == "Updated "@ + spec_field_label(*field) + " to `"@ + value@
                    + "`. Click Save to persist."@ && k == StatusKind::Neutral
            },
        },
{
    match outcome {
        CommitOutcome::NoField => CommitFeedback { field_error: FieldErrorUpdate::Keep, status: None },
        CommitOutcome::NothingPending(f) => CommitFeedback {
            field_error: FieldErrorUpdate::Show {
                field_id: f.id(),
                message: String::from_str("Press a shortcut, then Enter to commit."),
            },
            status: Some((String::from_str("Press a shortcut first, then press Enter to commit."), StatusKind::Warning)),
        },
        CommitOutcome::Conflict { field, with, value } => {
            let mut message = String::from_str("Already used by ");
            message.append(with);
            message.append(".");
            let mut status = String::from_str("`");
            status.append(value.as_str());
            status.append("` is already used by ");
            status.append(with);
            status.append(". Choose a different shortcut.");
            CommitFeedback {
                field_error: FieldErrorUpdate::Show { field_id: field.id(), message },
                status: Some((status, StatusKind::Warning)),
            }
        },
        CommitOutcome::Updated { field, value } => {
            let mut status = String::from_str("Updated ");
            status.append(field.label());
            status.append(" to `");
            status.append(value.as_str());
            status.append("`. Click Save to persist.");
            CommitFeedback { field_error: FieldErrorUpdate::Clear, status: Some((status, StatusKind::Neutral)) }
        },
    }
}

/// What a key press did to the shortcut recorder.
#[derive(Debug)]
pub enum RecordOutcome {
    /// The press was not for the recorder.
    Ignored,
    /// No field was being recorded; the recorder stopped.
    Cleared,
    /// Escape: recording stopped without a change.
    Canceled,
    /// Enter: the pending chord was committed.
    Committed(CommitOutcome),
    /// The chord cannot be the capture hotkey (it needs a modifier or PrintScreen).
    RejectedCapture(KeyChord),
    /// The chord waits for Enter.
    Candidate(KeyChord),
}

/// Whether a trimmed key text, upper-cased, is one of two names.
pub open spec fn names_either(t: Seq<char>, a: Seq<char>, b: Seq<char>) -> bool {
    upper_seq(spec_trim(t)) == a || upper_seq(spec_trim(t)) == b
}

/// Handles a key press while the settings window records a shortcut:
/// Escape cancels, Enter commits, any other key (with its modifiers) becomes
/// the pending chord, unless it cannot serve as the capture hotkey.
pub fn handle_shortcut_record_key_event(
    state: &mut ShortcutRecorderState,
    form: &mut ShortcutForm,
    recording_active: bool,
    key_text: &str,
    ctrl: bool,
    shift: bool,
    alt: bool,
) -> (r: RecordOutcome)
    ensures
        !recording_active ==> r is Ignored && *final(state) == *old(state) && form_values(final(form)) == form_values(old(form)),
        recording_active && old(state).active is None ==> r is Cleared && *final(state) == recorder_cleared()
            && form_values(final(form)) == form_values(old(form)),
        recording_active && old(state).active is Some && names_either(key_text@, "ESC"@, "ESCAPE"@) ==> r is Canceled
            && *final(state) == recorder_cleared() && form_values(final(form)) == form_values(old(form)),
        recording_active && old(state).active is Some && !names_either(key_text@, "ESC"@, "ESCAPE"@) && names_either(
            key_text@,
            "ENTER"@,
            "RETURN"@,
        ) ==> (r matches RecordOutcome::Committed(c) && commit_spec(
            *old(state),
            form_values(old(form)),
            *final(state),
            form_values(final(form)),
            c,
        )),
        recording_active && old(state).active is Some && !names_either(key_text@, "ESC"@, "ESCAPE"@) && !names_either(
            key_text@,
            "ENTER"@,
            "RETURN"@,
        ) ==> form_values(final(form)) == form_values(old(form)) && match spec_recorded_key(spec_trim(key_text@), ctrl) {
            None => r is Ignored && *final(state) == *old(state),
            Some(key) => {
                let chord = KeyChord { key, ctrl, shift, alt };
                if old(state).active == Some(ShortcutField::CaptureHotkey) && !spec_capture_chord_valid(chord) {
                    r == RecordOutcome::RejectedCapture(chord) && *final(state) == (ShortcutRecorderState {
                        pending: None,
                        ..*old(state)
                    })
                } else {
                    r == RecordOutcome::Candidate(chord) && *final(state) == (ShortcutRecorderState {
                        pending: Some(chord),
                        ..*old(state)
                    })
                }
            },
        },
{
    if !recording_active {
        return RecordOutcome::Ignored;
    }
    let field = match state.active {
        None => {
            clear_shortcut_recorder(state);
            return RecordOutcome::Cleared;
        },
        Some(f) => f,
    };
    let cs = chars_of(key_text);
    let normalized = trim_chars(&cs);
    let upper = to_ascii_upper(&normalized);
    if eq_lit(&upper, "ESC") || eq_lit(&upper, "ESCAPE") {
        clear_shortcut_recorder(state);
        return RecordOutcome::Canceled;
    }
    if eq_lit(&upper, "ENTER") || eq_lit(&upper, "RETURN") {
        return RecordOutcome::Committed(commit_shortcut_recording(state, form));
    }
    let text = string_from_chars(&normalized);
    let key = match parse_recorded_key_text(text.as_str(), ctrl) {
        None => {
            return RecordOutcome::Ignored;
        },
        Some(k) => k,
    };
    let chord = KeyChord { key, ctrl, shift, alt };
    if field.is_capture_hotkey() && !capture_hotkey_chord_valid(chord) {
        state.pending = None;
        return RecordOutcome::RejectedCapture(chord);
    }
    state.pending = Some(chord);
    RecordOutcome::Candidate(chord)
}


/// The default capture delay field: empty means 0, otherwise a non-negative integer.
pub fn parse_delay(value: &str) -> (r: Result<u64, String>)
    ensures
        spec_trim(value@).len() == 0 ==> r == Ok::<u64, String>(0),
        spec_trim(value@).len() > 0 ==> match crate::text::spec_parse_u64(spec_trim(value@)) {
            Some(v) => r == Ok::<u64, String>(v),
            None => r matches Err(m) && m@ == "Default delay (ms) must be a non-negative integer."@,
        },
{
    let cs = chars_of(value);
    let t = trim_chars(&cs);
    if t.len() == 0 {
        return Ok(0);
    }
    let parsed = crate::text::parse_u64_from(&t, 0);
    assert(t@.subrange(0, t@.len() as int) =~= t@);
    match parsed {
        Some(v) => Ok(v),
        None => Err(String::from_str("Default delay (ms) must be a non-negative integer.")),
    }
}

/// The text commit feedback colour field, normalised to `#RRGGBB`.
pub fn validate_color(value: &str) -> (r: Result<String, String>)
    ensures
        match crate::colors::spec_normalize_hex_color(spec_trim(value@)) {
            Some(n) => r matches Ok(s) && s@ == n,
            None => r matches Err(m) && m@ == "Text commit feedback color must be #RRGGBB."@,
        },
{
    let t = string_from_chars(&trim_chars(&chars_of(value)));
    match crate::colors::normalize_hex_color(t.as_str()) {
        Some(n) => Ok(n),
        None => Err(String::from_str("Text commit feedback color must be #RRGGBB.")),
    }
}

} // verus!
