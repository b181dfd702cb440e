//! The editor's key bindings: fifteen shortcuts read from the configuration,
//! checked to be pairwise distinct, and looked up on each key press.
use vstd::prelude::*;
use crate::config::{shortcut_values, EditorShortcutConfig};
use crate::shortcuts::{
    spec_shortcut_message,
    format_key_chord, parse_editor_shortcut, spec_format_chord, spec_parse_shortcut, KeyChord,
    ShortcutError, ShortcutErrorView,
};

verus! {

/// Drawing tools of the region editor.
#[derive(Clone, Copy, Debug, PartialEq, Eq, Structural)]
pub enum Tool {
    Select,
    Rectangle,
    Ellipse,
    Line,
    Arrow,
    Marker,
    Text,
    Pixelate,
    Blur,
}

/// What to do with the edited capture when the editor closes.
#[derive(Clone, Copy, Debug, PartialEq, Eq, Structural)]
pub enum EditorOutputAction {
    Copy,
    Save,
    CopyAndSave,
    Pin,
}

/// A parsed shortcut together with its label.
#[derive(Debug)]
pub struct BoundShortcut {
    pub chord: KeyChord,
    pub label: String,
}

/// Why a set of editor shortcuts was rejected.
#[derive(Debug)]
pub enum KeybindingError {
    /// The shortcut at `field` (in binding order) did not parse.
    Invalid { field: usize, value: String, cause: ShortcutError },
    /// The shortcut at `field` repeats the chord of an earlier one.
    Conflict { field: usize, label: String },
}

/// The content of a [`KeybindingError`].
pub enum KeybindingErrorView {
    Invalid { field: int, value: Seq<char>, cause: ShortcutErrorView },
    Conflict { field: int, label: Seq<char> },
}

impl View for KeybindingError {
    type V = KeybindingErrorView;

    open spec fn view(&self) -> KeybindingErrorView {
        match self {
            KeybindingError::Invalid { field, value, cause } => KeybindingErrorView::Invalid {
                field: *field as int,
                value: value@,
                cause: cause@,
            },
            KeybindingError::Conflict { field, label } => KeybindingErrorView::Conflict {
                field: *field as int,
                label: label@,
            },
        }
    }
}

/// Names of the bindings, in binding order.
pub open spec fn spec_binding_name(i: int) -> Seq<char> {
    if i == 0 {
        "select"@
    } else if i == 1 {
        "rectangle"@
    } else if i == 2 {
        "ellipse"@
    } else if i == 3 {
        "line"@
    } else if i == 4 {
        "arrow"@
    } else if i == 5 {
        "marker"@
    } else if i == 6 {
        "text"@
    } else if i == 7 {
        "pixelate"@
    } else if i == 8 {
        "blur"@
    } else if i == 9 {
        "copy"@
    } else if i == 10 {
        "save"@
    } else if i == 11 {
        "copy_and_save"@
    } else if i == 12 {
        "undo"@
    } else if i == 13 {
        "redo"@
    } else {
        "delete_selected"@
    }
}

/// The configuration key of the binding at `i` (`select` is binding 0).
pub fn binding_name(i: usize) -> (s: &'static str)
    requires
        i < 15,
    ensures
        s@ == spec_binding_name(i as int),
{
    if i == 0 {
        "select"
    } else if i == 1 {
        "rectangle"
    } else if i == 2 {
        "ellipse"
    } else if i == 3 {
        "line"
    } else if i == 4 {
        "arrow"
    } else if i == 5 {
        "marker"
    } else if i == 6 {
        "text"
    } else if i == 7 {
        "pixelate"
    } else if i == 8 {
        "blur"
    } else if i == 9 {
        "copy"
    } else if i == 10 {
        "save"
    } else if i == 11 {
        "copy_and_save"
    } else if i == 12 {
        "undo"
    } else if i == 13 {
        "redo"
    } else {
        "delete_selected"
    }
}

/// The configuration key of binding `f`, empty for an index past the last.
pub open spec fn field_name(f: int) -> Seq<char> {
    if 0 <= f < 15 {
        spec_binding_name(f)
    } else {
        Seq::empty()
    }
}

/// The text of a keybinding error: the binding, the offending value or
/// label, and for a parse failure the shortcut error's own text.
pub open spec fn spec_keybinding_message(e: KeybindingErrorView) -> Seq<char> {
    match e {
        KeybindingErrorView::Invalid { field, value, cause } => "invalid `editor.shortcuts."@ + field_name(field)
            + "` shortcut `"@ + value + "`: "@ + spec_shortcut_message(cause),
        KeybindingErrorView::Conflict { field, label } => "shortcut `"@ + label + "` for `"@ + field_name(field)
            + "` conflicts with another editor shortcut"@,
    }
}

impl KeybindingError {
    /// The text that describes this error.
    pub fn message(&self) -> (m: String)
        ensures
            m@ == spec_keybinding_message(self@),
    {
        match self {
            KeybindingError::Invalid { field, value, cause } => {
                let mut m = String::from_str("invalid `editor.shortcuts.");
                if *field < 15 {
                    m.append(binding_name(*field));
                }
                m.append("` shortcut `");
                m.append(value.as_str());
                m.append("`: ");
                let c = cause.message();
                m.append(c.as_str());
                m
            },
            KeybindingError::Conflict { field, label } => {
                let mut m = String::from_str("shortcut `");
                m.append(label.as_str());
                m.append("` for `");
                if *field < 15 {
                    m.append(binding_name(*field));
                }
                m.append("` conflicts with another editor shortcut");
                m
            },
        }
    }
}

impl BoundShortcut {
    /// Parses `value` and keeps its canonical label.
    pub fn parse(value: &str) -> (r: Result<Self, ShortcutError>)
        ensures
            match r {
                Ok(b) => spec_parse_shortcut(value@) == Ok::<KeyChord, ShortcutErrorView>(b.chord)
                    && b.label@ == spec_format_chord(b.chord),
                Err(e) => spec_parse_shortcut(value@) == Err::<KeyChord, ShortcutErrorView>(e@),
            },
    {
        let chord = parse_editor_shortcut(value)?;
        Ok(BoundShortcut { chord, label: format_key_chord(chord) })
    }

    fn from_chord(chord: KeyChord) -> (b: Self)
        ensures
            b.chord == chord,
            b.label@ == spec_format_chord(chord),
    {
        BoundShortcut { chord, label: format_key_chord(chord) }
    }

    /// Whether a key press with these modifiers triggers this shortcut.
    pub fn matches(&self, key: u32, ctrl: bool, shift: bool, alt: bool) -> (b: bool)
        ensures
            b == (self.chord == KeyChord { key, ctrl, shift, alt }),
    {
        self.chord.matches(key, ctrl, shift, alt)
    }
}

/// All editor shortcuts, each distinct from the others.
#[derive(Debug)]
pub struct EditorKeybindings {
    pub select: BoundShortcut,
    pub rectangle: BoundShortcut,
    pub ellipse: BoundShortcut,
    pub line: BoundShortcut,
    pub arrow: BoundShortcut,
    pub marker: BoundShortcut,
    pub text: BoundShortcut,
    pub pixelate: BoundShortcut,
    pub blur: BoundShortcut,
    pub copy: BoundShortcut,
    pub save: BoundShortcut,
    pub copy_and_save: BoundShortcut,
    pub undo: BoundShortcut,
    pub redo: BoundShortcut,
    pub delete_selected: BoundShortcut,
}

/// Whether some binding before `j` has the chord of binding `j`.
pub open spec fn repeats_earlier(s: Seq<KeyChord>, j: int) -> bool {
    exists|i: int| 0 <= i < j && s[i] == s[j]
}

/// Index of the first binding that repeats an earlier chord.
pub open spec fn first_repeat(s: Seq<KeyChord>) -> Option<int>
    decreases s.len(),
{
    if s.len() == 0 {
        None
    } else {
        match first_repeat(s.drop_last()) {
            Some(j) => Some(j),
            None => if repeats_earlier(s, s.len() - 1) {
                Some(s.len() - 1)
            } else {
                None
            },
        }
    }
}

pub open spec fn all_distinct(s: Seq<KeyChord>) -> bool {
    forall|i: int, j: int| 0 <= i < j < s.len() ==> s[i] != s[j]
}

/// Every shortcut parses and no two of them name the same chord.
pub open spec fn shortcuts_valid(vals: Seq<Seq<char>>) -> bool {
    &&& forall|i: int| 0 <= i < vals.len() ==> spec_parse_shortcut(#[trigger] vals[i]) is Ok
    &&& all_distinct(parsed_chords(vals))
}

impl EditorKeybindings {
    /// The chords in binding order.
    pub open spec fn chords(&self) -> Seq<KeyChord> {
        seq![
            self.select.chord,
            self.rectangle.chord,
            self.ellipse.chord,
            self.line.chord,
            self.arrow.chord,
            self.marker.chord,
            self.text.chord,
            self.pixelate.chord,
            self.blur.chord,
            self.copy.chord,
            self.save.chord,
            self.copy_and_save.chord,
            self.undo.chord,
            self.redo.chord,
            self.delete_selected.chord,
        ]
    }

    /// The labels in binding order.
    pub open spec fn labels(&self) -> Seq<Seq<char>> {
        seq![
            self.select.label@,
            self.rectangle.label@,
            self.ellipse.label@,
            self.line.label@,
            self.arrow.label@,
            self.marker.label@,
            self.text.label@,
            self.pixelate.label@,
            self.blur.label@,
            self.copy.label@,
            self.save.label@,
            self.copy_and_save.label@,
            self.undo.label@,
            self.redo.label@,
            self.delete_selected.label@,
        ]
    }

    fn chord_at(&self, i: usize) -> (c: KeyChord)
        requires
            i < 15,
        ensures
            c == self.chords()[i as int],
    {
        if i == 0 {
            self.select.chord
        } else if i == 1 {
            self.rectangle.chord
        } else if i == 2 {
            self.ellipse.chord
        } else if i == 3 {
            self.line.chord
        } else if i == 4 {
            self.arrow.chord
        } else if i == 5 {
            self.marker.chord
        } else if i == 6 {
            self.text.chord
        } else if i == 7 {
            self.pixelate.chord
        } else if i == 8 {
            self.blur.chord
        } else if i == 9 {
            self.copy.chord
        } else if i == 10 {
            self.save.chord
        } else if i == 11 {
            self.copy_and_save.chord
        } else if i == 12 {
            self.undo.chord
        } else if i == 13 {
            self.redo.chord
        } else {
            self.delete_selected.chord
        }
    }

    /// Checks that no two bindings share a chord; on a clash names the first
    /// binding (in binding order) whose chord an earlier binding already has.
    pub fn ensure_unique(&self) -> (r: Result<(), KeybindingError>)
        requires
            forall|i: int| 0 <= i < 15 ==> #[trigger] self.labels()[i] == spec_format_chord(self.chords()[i]),
        ensures
            match r {
                Ok(()) => first_repeat(self.chords()) is None,
                Err(e) => first_repeat(self.chords()) matches Some(j) && e@ == (KeybindingErrorView::Conflict {
                    field: j,
                    label: spec_format_chord(self.chords()[j]),
                }),
            },
    {
        let ghost cs = self.chords();
        let mut seen: Vec<KeyChord> = Vec::new();
        let mut j: usize = 0;
        while j < 15
            invariant
                cs == self.chords(),
                j <= 15,
                seen@ == cs.subrange(0, j as int),
                first_repeat(cs.subrange(0, j as int)) is None,
            decreases 15 - j,
        {
            let c = self.chord_at(j);
            let ghost pre = cs.subrange(0, j as int);
            let ghost next = cs.subrange(0, j + 1);
            assert(next.drop_last() =~= pre);
            match find_chord(&seen, c) {
                Some(k) => {
                    assert(next[k as int] == next[j as int]);
                    assert(repeats_earlier(next, j as int));
                    proof {
                        lemma_first_repeat_extends(cs, j as int + 1);
                    }
                    let label = format_key_chord(c);
                    return Err(KeybindingError::Conflict { field: j, label });
                },
                None => {},
            }
            assert(!repeats_earlier(next, j as int)) by {
                assert forall|i: int| 0 <= i < j implies next[i] != next[j as int] by {
                    assert(seen@[i] == next[i]);
                }
            }
            seen.push(c);
            assert(seen@ =~= next);
            j = j + 1;
        }
        assert(cs.subrange(0, 15) =~= cs);
        Ok(())
    }

    /// Reads the fifteen shortcuts in binding order and checks that they are
    /// distinct. The first shortcut that does not parse, or else the first
    /// that repeats an earlier chord, is reported.
    pub fn from_config(config: &EditorShortcutConfig) -> (r: Result<Self, KeybindingError>)
        ensures
            r is Ok <==> shortcuts_valid(shortcut_values(config)),
            match r {
                Ok(kb) => {
                    &&& forall|i: int|
                        0 <= i < 15 ==> spec_parse_shortcut(#[trigger] shortcut_values(config)[i])
                            == Ok::<KeyChord, ShortcutErrorView>(kb.chords()[i])
                    &&& forall|i: int| 0 <= i < 15 ==> #[trigger] kb.labels()[i] == spec_format_chord(kb.chords()[i])
                    &&& all_distinct(kb.chords())
                },
                Err(KeybindingError::Invalid { field, value, cause }) => {
                    &&& field < 15
                    &&& value@ == shortcut_values(config)[field as int]
                    &&& spec_parse_shortcut(value@) == Err::<KeyChord, ShortcutErrorView>(cause@)
                    &&& forall|i: int| 0 <= i < field ==> spec_parse_shortcut(#[trigger] shortcut_values(config)[i]) is Ok
                },
                Err(KeybindingError::Conflict { field, label }) => {
                    &&& forall|i: int| 0 <= i < 15 ==> spec_parse_shortcut(#[trigger] shortcut_values(config)[i]) is Ok
                    &&& first_repeat(parsed_chords(shortcut_values(config))) == Some(field as int)
                    &&& label@ == spec_format_chord(parsed_chords(shortcut_values(config))[field as int])
                },
            },
    {
        let ghost vals = shortcut_values(config);
        let mut chords: Vec<KeyChord> = Vec::new();
        let mut i: usize = 0;
        while i < 15
            invariant
                vals == shortcut_values(config),
                i <= 15,
                chords@.len() == i,
                forall|k: int| 0 <= k < i ==> spec_parse_shortcut(#[trigger] vals[k]) == Ok::<KeyChord, ShortcutErrorView>(chords@[k]),
            decreases 15 - i,
        {
            let value = shortcut_at(config, i);
            match parse_editor_shortcut(value.as_str()) {
                Ok(c) => {
                    chords.push(c);
                },
                Err(cause) => {
                    assert(!shortcuts_valid(vals)) by {
                        assert(spec_parse_shortcut(vals[i as int]) is Err);
                    }
                    let v = crate::text::string_from_chars(&crate::text::chars_of(value.as_str()));
                    return Err(KeybindingError::Invalid { field: i, value: v, cause });
                },
            }
            i = i + 1;
        }
        let kb = EditorKeybindings::from_chords(&chords);
        assert(kb.chords() =~= chords@);
        assert(parsed_chords(vals) =~= chords@) by {
            assert forall|k: int| 0 <= k < 15 implies #[trigger] parsed_chords(vals)[k] == chords@[k] by {
                assert(spec_parse_shortcut(vals[k]) == Ok::<KeyChord, ShortcutErrorView>(chords@[k]));
            }
        }
        match kb.ensure_unique() {
            Ok(()) => {
                proof {
                    lemma_no_repeat_distinct(kb.chords());
                }
                Ok(kb)
            },
            Err(e) => {
                proof {
                    lemma_repeat_not_distinct(kb.chords());
                }
                Err(e)
            },
        }
    }

    fn from_chords(chords: &Vec<KeyChord>) -> (kb: Self)
        requires
            chords@.len() == 15,
        ensures
            kb.chords() == chords@,
            forall|i: int| 0 <= i < 15 ==> #[trigger] kb.labels()[i] == spec_format_chord(kb.chords()[i]),
    {
        let kb = EditorKeybindings {
            select: BoundShortcut::from_chord(chords[0]),
            rectangle: BoundShortcut::from_chord(chords[1]),
            ellipse: BoundShortcut::from_chord(chords[2]),
            line: BoundShortcut::from_chord(chords[3]),
            arrow: BoundShortcut::from_chord(chords[4]),
            marker: BoundShortcut::from_chord(chords[5]),
            text: BoundShortcut::from_chord(chords[6]),
            pixelate: BoundShortcut::from_chord(chords[7]),
            blur: BoundShortcut::from_chord(chords[8]),
            copy: BoundShortcut::from_chord(chords[9]),
            save: BoundShortcut::from_chord(chords[10]),
            copy_and_save: BoundShortcut::from_chord(chords[11]),
            undo: BoundShortcut::from_chord(chords[12]),
            redo: BoundShortcut::from_chord(chords[13]),
            delete_selected: BoundShortcut::from_chord(chords[14]),
        };
        assert(kb.chords() =~= chords@);
        kb
    }

    /// The tool whose shortcut a key press triggers (the first in binding order).
    pub fn tool_for_key(&self, key: u32, ctrl: bool, shift: bool, alt: bool) -> (t: Option<Tool>)
        ensures
            t == spec_tool_for_chord(self.chords(), KeyChord { key, ctrl, shift, alt }),
    {
        if self.select.matches(key, ctrl, shift, alt) {
            return Some(Tool::Select);
        }
        if self.rectangle.matches(key, ctrl, shift, alt) {
            return Some(Tool::Rectangle);
        }
        if self.ellipse.matches(key, ctrl, shift, alt) {
            return Some(Tool::Ellipse);
        }
        if self.line.matches(key, ctrl, shift, alt) {
            return Some(Tool::Line);
        }
        if self.arrow.matches(key, ctrl, shift, alt) {
            return Some(Tool::Arrow);
        }
        if self.marker.matches(key, ctrl, shift, alt) {
            return Some(Tool::Marker);
        }
        if self.text.matches(key, ctrl, shift, alt) {
            return Some(Tool::Text);
        }
        if self.pixelate.matches(key, ctrl, shift, alt) {
            return Some(Tool::Pixelate);
        }
        if self.blur.matches(key, ctrl, shift, alt) {
            return Some(Tool::Blur);
        }
        None
    }

    /// The output action whose shortcut a key press triggers.
    pub fn output_action_for_key(&self, key: u32, ctrl: bool, shift: bool, alt: bool) -> (a: Option<
        EditorOutputAction,
    >)
        ensures
            a == spec_action_for_chord(self.chords(), KeyChord { key, ctrl, shift, alt }),
    {
        if self.copy.matches(key, ctrl, shift, alt) {
            return Some(EditorOutputAction::Copy);
        }
        if self.save.matches(key, ctrl, shift, alt) {
            return Some(EditorOutputAction::Save);
        }
        if self.copy_and_save.matches(key, ctrl, shift, alt) {
            return Some(EditorOutputAction::CopyAndSave);
        }
        None
    }
}

/// Position of `c` in `seen`, if it occurs there.
fn find_chord(seen: &Vec<KeyChord>, c: KeyChord) -> (r: Option<usize>)
    ensures
        match r {
            Some(k) => k < seen@.len() && seen@[k as int] == c,
            None => forall|i: int| 0 <= i < seen@.len() ==> seen@[i] != c,
        },
{
    let mut k: usize = 0;
    while k < seen.len()
        invariant
            k <= seen@.len(),
            forall|i: int| 0 <= i < k ==> seen@[i] != c,
        decreases seen@.len() - k,
    {
        if seen[k] == c {
            return Some(k);
        }
        k = k + 1;
    }
    None
}

/// The chords of values that all parse.
pub open spec fn parsed_chords(vals: Seq<Seq<char>>) -> Seq<KeyChord> {
    Seq::new(vals.len(), |i: int| spec_parse_shortcut(vals[i])->Ok_0)
}

/// The tool of the first tool binding (bindings 0 to 8) with chord `c`.
pub open spec fn spec_tool_for_chord(s: Seq<KeyChord>, c: KeyChord) -> Option<Tool> {
    if s[0] == c {
        Some(Tool::Select)
    } else if s[1] == c {
        Some(Tool::Rectangle)
    } else if s[2] == c {
        Some(Tool::Ellipse)
    } else if s[3] == c {
        Some(Tool::Line)
    } else if s[4] == c {
        Some(Tool::Arrow)
    } else if s[5] == c {
        Some(Tool::Marker)
    } else if s[6] == c {
        Some(Tool::Text)
    } else if s[7] == c {
        Some(Tool::Pixelate)
    } else if s[8] == c {
        Some(Tool::Blur)
    } else {
        None
    }
}

/// The action of the first output binding (bindings 9 to 11) with chord `c`.
pub open spec fn spec_action_for_chord(s: Seq<KeyChord>, c: KeyChord) -> Option<EditorOutputAction> {
    if s[9] == c {
        Some(EditorOutputAction::Copy)
    } else if s[10] == c {
        Some(EditorOutputAction::Save)
    } else if s[11] == c {
        Some(EditorOutputAction::CopyAndSave)
    } else {
        None
    }
}

/// The tool of binding `i`: bindings 0 to 8 are the tools in toolbar order.
pub open spec fn binding_tool(i: int) -> Option<Tool> {
    if i == 0 {
        Some(Tool::Select)
    } else if i == 1 {
        Some(Tool::Rectangle)
    } else if i == 2 {
        Some(Tool::Ellipse)
    } else if i == 3 {
        Some(Tool::Line)
    } else if i == 4 {
        Some(Tool::Arrow)
    } else if i == 5 {
        Some(Tool::Marker)
    } else if i == 6 {
        Some(Tool::Text)
    } else if i == 7 {
        Some(Tool::Pixelate)
    } else if i == 8 {
        Some(Tool::Blur)
    } else {
        None
    }
}

/// The output action of binding `i`: bindings 9 to 11 copy, save, and do both.
pub open spec fn binding_action(i: int) -> Option<EditorOutputAction> {
    if i == 9 {
        Some(EditorOutputAction::Copy)
    } else if i == 10 {
        Some(EditorOutputAction::Save)
    } else if i == 11 {
        Some(EditorOutputAction::CopyAndSave)
    } else {
        None
    }
}

/// With distinct chords (as keybindings built from a configuration have
/// them), pressing the chord of a binding selects that binding's tool and
/// triggers that binding's output action, and nothing else.
pub proof fn law_bound_chord_looks_up_its_binding(kb: EditorKeybindings, i: int)
    requires
        all_distinct(kb.chords()),
        0 <= i < 15,
    ensures
        spec_tool_for_chord(kb.chords(), kb.chords()[i]) == binding_tool(i),
        spec_action_for_chord(kb.chords(), kb.chords()[i]) == binding_action(i),
{
    let s = kb.chords();
    assert(s.len() == 15);
    assert forall|k: int| 0 <= k < 15 && k != i implies s[k] != s[i] by {
        if k < i {
            assert(s[k] != s[i]);
        } else {
            assert(s[i] != s[k]);
        }
    }
}

/// Keybindings that `from_config` built (every shortcut parses to its
/// binding's chord, and they are all valid) look each bound chord up as its
/// own binding: the chord of a tool field selects that tool, the chord of
/// copy, save or copy-and-save triggers that action.
#[verifier::rlimit(50)]
pub proof fn law_from_config_lookups(config: &EditorShortcutConfig, kb: EditorKeybindings, i: int)
    requires
        shortcuts_valid(shortcut_values(config)),
        forall|k: int|
            0 <= k < 15 ==> spec_parse_shortcut(#[trigger] shortcut_values(config)[k]) == Ok::<
                KeyChord,
                ShortcutErrorView,
            >(kb.chords()[k]),
        0 <= i < 15,
    ensures
        spec_tool_for_chord(kb.chords(), kb.chords()[i]) == binding_tool(i),
        spec_action_for_chord(kb.chords(), kb.chords()[i]) == binding_action(i),
{
    let vals = shortcut_values(config);
    assert(all_distinct(kb.chords())) by {
        assert(vals.len() == 15);
        let p = parsed_chords(vals);
        assert forall|a: int, b: int| 0 <= a < b < 15 implies kb.chords()[a] != kb.chords()[b] by {
            assert(p[a] == kb.chords()[a]);
            assert(p[b] == kb.chords()[b]);
        }
    }
    law_bound_chord_looks_up_its_binding(kb, i);
}

/// The shortcut string at `i` in binding order.
pub fn shortcut_at(config: &EditorShortcutConfig, i: usize) -> (s: &String)
    requires
        i < 15,
    ensures
        s@ == shortcut_values(config)[i as int],
{
    if i == 0 {
        &config.select
    } else if i == 1 {
        &config.rectangle
    } else if i == 2 {
        &config.ellipse
    } else if i == 3 {
        &config.line
    } else if i == 4 {
        &config.arrow
    } else if i == 5 {
        &config.marker
    } else if i == 6 {
        &config.text
    } else if i == 7 {
        &config.pixelate
    } else if i == 8 {
        &config.blur
    } else if i == 9 {
        &config.copy
    } else if i == 10 {
        &config.save
    } else if i == 11 {
        &config.copy_and_save
    } else if i == 12 {
        &config.undo
    } else if i == 13 {
        &config.redo
    } else {
        &config.delete_selected
    }
}

proof fn lemma_first_repeat_extends(s: Seq<KeyChord>, k: int)
    requires
        0 < k <= s.len(),
        first_repeat(s.subrange(0, k - 1)) is None,
        repeats_earlier(s.subrange(0, k), k - 1),
    ensures
        first_repeat(s) == Some(k - 1),
    decreases s.len() - k,
{
    assert(s.subrange(0, k).drop_last() =~= s.subrange(0, k - 1));
    assert(first_repeat(s.subrange(0, k)) == Some(k - 1));
    lemma_first_repeat_prefix(s, k);
}

proof fn lemma_first_repeat_prefix(s: Seq<KeyChord>, k: int)
    requires
        0 <= k <= s.len(),
        first_repeat(s.subrange(0, k)) is Some,
    ensures
        first_repeat(s) == first_repeat(s.subrange(0, k)),
    decreases s.len() - k,
{
    if k < s.len() {
        assert(s.subrange(0, k + 1).drop_last() =~= s.subrange(0, k));
        lemma_first_repeat_prefix(s, k + 1);
    } else {
        assert(s.subrange(0, k) =~= s);
    }
}

proof fn lemma_repeat_not_distinct(s: Seq<KeyChord>)
    requires
        first_repeat(s) is Some,
    ensures
        !all_distinct(s),
    decreases s.len(),
{
    let t = s.drop_last();
    if first_repeat(t) is Some {
        lemma_repeat_not_distinct(t);
        let (i, j) = choose|i: int, j: int| 0 <= i < j < t.len() && t[i] == t[j];
        assert(s[i] == t[i] && s[j] == t[j]);
    } else {
        assert(repeats_earlier(s, s.len() - 1));
        let i = choose|i: int| 0 <= i < s.len() - 1 && #[trigger] s[i] == s[s.len() - 1];
        assert(s[i] == s[s.len() - 1]);
    }
}

proof fn lemma_no_repeat_distinct(s: Seq<KeyChord>)
    requires
        first_repeat(s) is None,
    ensures
        all_distinct(s),
    decreases s.len(),
{
    if s.len() > 0 {
        lemma_no_repeat_distinct(s.drop_last());
        assert forall|i: int, j: int| 0 <= i < j < s.len() implies s[i] != s[j] by {
            if j < s.len() - 1 {
                assert(s.drop_last()[i] == s[i] && s.drop_last()[j] == s[j]);
            } else {
                assert(!repeats_earlier(s, s.len() - 1));
            }
        }
    }
}

} // verus!
