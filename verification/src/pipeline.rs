//! What a capture does once taken: the editor options read from the
//! configuration, and the outputs (copy, save, pin) a capture goes to.
use vstd::prelude::*;
use crate::colors::{hex_value, is_hex_char};
use crate::config::{AppConfig, CaptureTarget, RadialMenuAnimationSpeed};
use crate::hotkey::{parse_hotkey, spec_parse_hotkey, Hotkey, HotkeyError};
use crate::config::shortcut_values;
use crate::keybindings::{
    parsed_chords, shortcuts_valid, EditorKeybindings, EditorOutputAction, KeybindingError,
};
use crate::shortcuts::{spec_parse_shortcut, KeyChord, ShortcutErrorView};
use crate::text::{chars_of, spec_trim, trim_chars};
use crate::tray::{spec_action_from_code, TrayAction};

verus! {

/// Number of UTF-8 bytes of a character.
pub open spec fn utf8_len(c: char) -> int {
    let u = c as u32;
    if u < 0x80 {
        1
    } else if u < 0x800 {
        2
    } else if u < 0x10000 {
        3
    } else {
        4
    }
}

/// Number of UTF-8 bytes of a string.
pub open spec fn byte_len(s: Seq<char>) -> int
    decreases s.len(),
{
    if s.len() == 0 {
        0
    } else {
        utf8_len(s[0]) + byte_len(s.drop_first())
    }
}

/// The string splits into two-byte pieces at character boundaries: each
/// piece is two ASCII characters or one two-byte character.
pub open spec fn well_split(h: Seq<char>) -> bool
    decreases h.len(),
{
    if h.len() == 0 {
        true
    } else if utf8_len(h[0]) == 2 {
        well_split(h.drop_first())
    } else if utf8_len(h[0]) == 1 {
        h.len() >= 2 && utf8_len(h[1]) == 1 && well_split(h.subrange(2, h.len() as int))
    } else {
        false
    }
}

/// A channel from two characters as `u8::from_str_radix(_, 16)` reads them:
/// two hex digits, or `+` and one hex digit.
pub open spec fn pair_value(a: char, b: char) -> Option<u8> {
    if a == '+' {
        if is_hex_char(b) { Some(hex_value(b) as u8) } else { None }
    } else if is_hex_char(a) && is_hex_char(b) {
        Some((hex_value(a) * 16 + hex_value(b)) as u8)
    } else {
        None
    }
}

/// The channels of the two-byte pieces; a two-byte character is no channel.
pub open spec fn channel_values(h: Seq<char>) -> Seq<Option<u8>>
    decreases h.len(),
{
    if h.len() == 0 {
        Seq::empty()
    } else if utf8_len(h[0]) != 1 || h.len() < 2 {
        seq![None::<u8>] + channel_values(h.drop_first())
    } else {
        seq![pair_value(h[0], h[1])] + channel_values(h.subrange(2, h.len() as int))
    }
}

/// Why a `#RRGGBB` colour was rejected.
#[derive(Clone, Copy, Debug, PartialEq, Eq, Structural)]
pub enum HexColorError {
    /// Not six bytes after trimming and an optional `#`.
    Format,
    Red,
    Green,
    Blue,
}

impl HexColorError {
    /// The text that describes this error.
    pub fn message(&self) -> (m: &'static str)
        ensures
            m@ == spec_hex_color_message(*self),
    {
        match self {
            HexColorError::Format => "expected hex color in #RRGGBB format",
            HexColorError::Red => "invalid red channel",
            HexColorError::Green => "invalid green channel",
            HexColorError::Blue => "invalid blue channel",
        }
    }
}

pub open spec fn spec_hex_color_message(e: HexColorError) -> Seq<char> {
    match e {
        HexColorError::Format => "expected hex color in #RRGGBB format"@,
        HexColorError::Red => "invalid red channel"@,
        HexColorError::Green => "invalid green channel"@,
        HexColorError::Blue => "invalid blue channel"@,
    }
}

/// `value` trimmed, without one leading `#`.
pub open spec fn hex_part(value: Seq<char>) -> Seq<char> {
    let t = spec_trim(value);
    if t.len() > 0 && t[0] == '#' {
        t.drop_first()
    } else {
        t
    }
}

/// The colour of a `#RRGGBB` (or `RRGGBB`) string, read channel by channel.
pub open spec fn spec_parse_hex_rgb(value: Seq<char>) -> Result<[u8; 3], HexColorError> {
    let h = hex_part(value);
    if byte_len(h) != 6 {
        Err(HexColorError::Format)
    } else {
        let cv = channel_values(h);
        if cv[0] is None {
            Err(HexColorError::Red)
        } else if cv[1] is None {
            Err(HexColorError::Green)
        } else if cv[2] is None {
            Err(HexColorError::Blue)
        } else {
            Ok([cv[0]->0, cv[1]->0, cv[2]->0])
        }
    }
}

/// The inputs on which reading a colour is defined: a six-byte value must
/// split into its channels at character boundaries.
pub open spec fn hex_rgb_pre(value: Seq<char>) -> bool {
    byte_len(hex_part(value)) == 6 ==> well_split(hex_part(value))
}

proof fn lemma_byte_len_nonneg(s: Seq<char>)
    ensures
        byte_len(s) >= s.len(),
    decreases s.len(),
{
    if s.len() > 0 {
        lemma_byte_len_nonneg(s.drop_first());
    }
}

proof fn lemma_channels_len(h: Seq<char>)
    requires
        well_split(h),
    ensures
        2 * channel_values(h).len() == byte_len(h),
    decreases h.len(),
{
    if h.len() > 0 {
        if utf8_len(h[0]) == 2 {
            lemma_channels_len(h.drop_first());
        } else {
            let rest = h.subrange(2, h.len() as int);
            assert(h.drop_first().drop_first() =~= rest);
            assert(byte_len(h.drop_first()) == utf8_len(h[1]) + byte_len(rest));
            lemma_channels_len(rest);
        }
    }
}

fn char_utf8_len(c: char) -> (n: usize)
    ensures
        n == utf8_len(c),
{
    let u = c as u32;
    if u < 0x80 {
        1
    } else if u < 0x800 {
        2
    } else if u < 0x10000 {
        3
    } else {
        4
    }
}

fn hex_digit_val(c: char) -> (v: u8)
    requires
        is_hex_char(c),
    ensures
        v == hex_value(c),
{
    if '0' <= c && c <= '9' {
        (c as u8) - ('0' as u8)
    } else if 'a' <= c && c <= 'f' {
        (c as u8) - ('a' as u8) + 10
    } else {
        (c as u8) - ('A' as u8) + 10
    }
}

fn pair_channel(a: char, b: char) -> (r: Option<u8>)
    ensures
        r == pair_value(a, b),
{
    let bh = ('0' <= b && b <= '9') || ('a' <= b && b <= 'f') || ('A' <= b && b <= 'F');
    if a == '+' {
        if bh {
            return Some(hex_digit_val(b));
        }
        return None;
    }
    let ah = ('0' <= a && a <= '9') || ('a' <= a && a <= 'f') || ('A' <= a && a <= 'F');
    if ah && bh {
        Some(hex_digit_val(a) * 16 + hex_digit_val(b))
    } else {
        None
    }
}

/// Reads a `#RRGGBB` colour, naming the first channel that is not hex.
pub fn parse_hex_rgb_color(value: &str) -> (r: Result<[u8; 3], HexColorError>)
    requires
        hex_rgb_pre(value@),
    ensures
        r == spec_parse_hex_rgb(value@),
{
    let t = trim_chars(&chars_of(value));
    let start: usize = if t.len() > 0 && t[0] == '#' { 1 } else { 0 };
    let ghost h = hex_part(value@);
    assert(h =~= t@.subrange(start as int, t@.len() as int));
    let n = t.len();
    let mut bytes: usize = 0;
    let mut i: usize = start;
    while i < n
        invariant
            start <= i <= n,
            n == t@.len(),
            h == t@.subrange(start as int, n as int),
            h == hex_part(value@),
            bytes <= 4 * (i - start),
            bytes + byte_len(t@.subrange(i as int, n as int)) == byte_len(h),
        decreases n - i,
    {
        assert(t@.subrange(i as int, n as int).drop_first() =~= t@.subrange(i + 1, n as int));
        if bytes > 6 {
            proof {
                lemma_byte_len_nonneg(t@.subrange(i as int, n as int));
            }
            return Err(HexColorError::Format);
        }
        bytes = bytes + char_utf8_len(t[i]);
        i = i + 1;
    }
    assert(t@.subrange(n as int, n as int) =~= Seq::<char>::empty());
    if bytes != 6 {
        return Err(HexColorError::Format);
    }
    proof {
        lemma_channels_len(h);
    }
    let mut channels: Vec<Option<u8>> = Vec::new();
    let mut k: usize = start;
    while k < n
        invariant
            start <= k <= n,
            n == t@.len(),
            h == t@.subrange(start as int, n as int),
            h == hex_part(value@),
            well_split(t@.subrange(k as int, n as int)),
            channels@ + channel_values(t@.subrange(k as int, n as int)) == channel_values(h),
            channels@.len() <= k - start,
        decreases n - k,
    {
        let ghost rest = t@.subrange(k as int, n as int);
        let c = t[k];
        if char_utf8_len(c) != 1 {
            assert(rest.drop_first() =~= t@.subrange(k + 1, n as int));
            channels.push(None);
            k = k + 1;
            assert(channels@ + channel_values(t@.subrange(k as int, n as int)) =~= channel_values(h));
        } else {
            assert(rest.subrange(2, rest.len() as int) =~= t@.subrange(k + 2, n as int));
            let v = pair_channel(c, t[k + 1]);
            channels.push(v);
            k = k + 2;
            assert(channels@ + channel_values(t@.subrange(k as int, n as int)) =~= channel_values(h));
        }
    }
    assert(t@.subrange(n as int, n as int) =~= Seq::<char>::empty());
    assert(channels@ =~= channel_values(h));
    let red = match channels[0] {
        Some(v) => v,
        None => {
            return Err(HexColorError::Red);
        },
    };
    let green = match channels[1] {
        Some(v) => v,
        None => {
            return Err(HexColorError::Green);
        },
    };
    let blue = match channels[2] {
        Some(v) => v,
        None => {
            return Err(HexColorError::Blue);
        },
    };
    Ok([red, green, blue])
}

/// `std::path::PathBuf`, carried through as an opaque value: only whether an
/// output path was given matters here.
#[verifier::external_type_specification]
#[verifier::external_body]
pub struct ExPathBuf(std::path::PathBuf);

/// Where a finished capture goes: the clipboard, a PNG file, a pinned window.
#[derive(Clone, Copy, Debug, PartialEq, Eq, Structural)]
pub struct OutputPlan {
    pub copy: bool,
    pub save: bool,
    pub pin: bool,
}

/// The outputs of a capture. Without an editor action the clipboard setting
/// decides, and a file is written when a path was given or nothing is copied.
/// An editor action overrides that; copying and pinning still write a file
/// when a path was given.
pub open spec fn spec_output_plan(
    should_copy: bool,
    output_given: bool,
    action: Option<EditorOutputAction>,
) -> OutputPlan {
    match action {
        None => OutputPlan { copy: should_copy, save: output_given || !should_copy, pin: false },
        Some(EditorOutputAction::Copy) => OutputPlan { copy: true, save: output_given, pin: false },
        Some(EditorOutputAction::Save) => OutputPlan { copy: false, save: true, pin: false },
        Some(EditorOutputAction::CopyAndSave) => OutputPlan { copy: true, save: true, pin: false },
        Some(EditorOutputAction::Pin) => OutputPlan { copy: false, save: output_given, pin: true },
    }
}

/// Decides the outputs of a capture from the clipboard setting, an explicit
/// output path and the action the editor was closed with.
pub fn resolve_output_plan(
    should_copy: bool,
    output: Option<&std::path::PathBuf>,
    editor_action: Option<EditorOutputAction>,
) -> (plan: OutputPlan)
    ensures
        plan == spec_output_plan(should_copy, output is Some, editor_action),
{
    let output_given = output.is_some();
    match editor_action {
        None => OutputPlan { copy: should_copy, save: output_given || !should_copy, pin: false },
        Some(EditorOutputAction::Copy) => OutputPlan { copy: true, save: output_given, pin: false },
        Some(EditorOutputAction::Save) => OutputPlan { copy: false, save: true, pin: false },
        Some(EditorOutputAction::CopyAndSave) => OutputPlan { copy: true, save: true, pin: false },
        Some(EditorOutputAction::Pin) => OutputPlan { copy: false, save: output_given, pin: true },
    }
}

/// A palette colour that could not be read, with its place in the palette.
#[derive(Clone, Copy, Debug, PartialEq, Eq, Structural)]
pub struct PaletteColorError {
    pub index: usize,
    pub cause: HexColorError,
}

/// An opaque RGBA palette entry of a colour.
pub open spec fn palette_entry(rgb: [u8; 3]) -> [u8; 4] {
    [rgb@[0], rgb@[1], rgb@[2], 255u8]
}

/// The palette colours that the reader accepts.
pub open spec fn palette_pre(palette: Seq<String>) -> bool {
    forall|i: int| 0 <= i < palette.len() ==> hex_rgb_pre(#[trigger] palette[i]@)
}

/// Every palette colour reads.
pub open spec fn palette_reads(palette: Seq<String>) -> bool {
    forall|i: int| 0 <= i < palette.len() ==> spec_parse_hex_rgb(#[trigger] palette[i]@) is Ok
}

/// What the palette reader returns: every entry opaque, or the first colour
/// that does not read, with its error.
pub open spec fn palette_result(palette: Seq<String>, r: Result<[[u8; 4]; 8], PaletteColorError>) -> bool {
    match r {
        Ok(p) => {
            &&& palette_reads(palette)
            &&& forall|i: int|
                0 <= i < 8 ==> #[trigger] p@[i] == palette_entry(spec_parse_hex_rgb(palette[i]@)->Ok_0)
        },
        Err(e) => {
            &&& e.index < 8
            &&& spec_parse_hex_rgb(palette[e.index as int]@) == Err::<[u8; 3], HexColorError>(e.cause)
            &&& forall|j: int| 0 <= j < e.index ==> spec_parse_hex_rgb(#[trigger] palette[j]@) is Ok
        },
    }
}

/// Reads the eight palette colours of the editor configuration in order.
pub fn parse_annotation_palette(config: &AppConfig) -> (r: Result<[[u8; 4]; 8], PaletteColorError>)
    requires
        palette_pre(config.editor.annotation_palette@),
    ensures
        palette_result(config.editor.annotation_palette@, r),
        r is Ok <==> palette_reads(config.editor.annotation_palette@),
{
    let ghost raw = config.editor.annotation_palette@;
    let mut palette: [[u8; 4]; 8] = [[0u8; 4]; 8];
    let mut idx: usize = 0;
    while idx < 8
        invariant
            raw == config.editor.annotation_palette@,
            raw.len() == 8,
            palette_pre(raw),
            idx <= 8,
            forall|j: int| 0 <= j < idx ==> spec_parse_hex_rgb(#[trigger] raw[j]@) is Ok,
            forall|j: int|
                0 <= j < idx ==> #[trigger] palette@[j] == palette_entry(spec_parse_hex_rgb(raw[j]@)->Ok_0),
        decreases 8 - idx,
    {
        let text = &config.editor.annotation_palette[idx];
        assert(hex_rgb_pre(raw[idx as int]@));
        match parse_hex_rgb_color(text.as_str()) {
            Ok(rgb) => {
                palette.set(idx, [rgb[0], rgb[1], rgb[2], 255]);
            },
            Err(cause) => {
                assert(!palette_reads(raw)) by {
                    assert(spec_parse_hex_rgb(raw[idx as int]@) is Err);
                }
                return Err(PaletteColorError { index: idx, cause });
            },
        }
        idx = idx + 1;
    }
    Ok(palette)
}

/// The editor settings a capture session runs with, read from the configuration.
pub struct EditorRuntimeOptions {
    pub keybindings: EditorKeybindings,
    pub text_commit_feedback_color: [u8; 3],
    pub radial_menu_animation_speed: RadialMenuAnimationSpeed,
    pub annotation_palette: [[u8; 4]; 8],
}

/// Why the editor settings of a configuration were refused.
pub enum EditorOptionsError {
    Shortcuts(KeybindingError),
    FeedbackColor(HexColorError),
    Palette(PaletteColorError),
}

/// The colour strings of a configuration that the readers accept.
pub open spec fn editor_options_pre(config: AppConfig) -> bool {
    &&& hex_rgb_pre(config.editor.text_commit_feedback_color@)
    &&& palette_pre(config.editor.annotation_palette@)
}

/// Reads the editor settings: the shortcuts, then the text feedback colour,
/// then the palette; the first that fails is reported.
#[verifier::rlimit(40)]
pub fn resolve_editor_options_from_data(config: &AppConfig) -> (r: Result<EditorRuntimeOptions, EditorOptionsError>)
    requires
        editor_options_pre(*config),
    ensures
        ({
            let vals = shortcut_values(&config.editor.shortcuts);
            let feedback = spec_parse_hex_rgb(config.editor.text_commit_feedback_color@);
            let palette = config.editor.annotation_palette@;
            match r {
                Ok(o) => {
                    &&& shortcuts_valid(vals)
                    &&& o.keybindings.chords() == parsed_chords(vals)
                    &&& feedback == Ok::<[u8; 3], HexColorError>(o.text_commit_feedback_color)
                    &&& o.radial_menu_animation_speed == config.editor.radial_menu_animation_speed
                    &&& palette_result(palette, Ok(o.annotation_palette))
                },
                Err(EditorOptionsError::Shortcuts(_)) => !shortcuts_valid(vals),
                Err(EditorOptionsError::FeedbackColor(e)) => {
                    &&& shortcuts_valid(vals)
                    &&& feedback == Err::<[u8; 3], HexColorError>(e)
                },
                Err(EditorOptionsError::Palette(e)) => {
                    &&& shortcuts_valid(vals)
                    &&& feedback is Ok
                    &&& palette_result(palette, Err(e))
                },
            }
        }),
{
    let keybindings = match EditorKeybindings::from_config(&config.editor.shortcuts) {
        Ok(kb) => kb,
        Err(e) => {
            return Err(EditorOptionsError::Shortcuts(e));
        },
    };
    let ghost vals = shortcut_values(&config.editor.shortcuts);
    assert(keybindings.chords() =~= parsed_chords(vals)) by {
        assert forall|k: int| 0 <= k < 15 implies #[trigger] parsed_chords(vals)[k] == keybindings.chords()[k] by {
            assert(spec_parse_shortcut(vals[k]) == Ok::<KeyChord, ShortcutErrorView>(keybindings.chords()[k]));
        }
    }
    let text_commit_feedback_color = match parse_hex_rgb_color(config.editor.text_commit_feedback_color.as_str()) {
        Ok(c) => c,
        Err(e) => {
            return Err(EditorOptionsError::FeedbackColor(e));
        },
    };
    let annotation_palette = match parse_annotation_palette(config) {
        Ok(p) => p,
        Err(e) => {
            return Err(EditorOptionsError::Palette(e));
        },
    };
    Ok(EditorRuntimeOptions {
        keybindings,
        text_commit_feedback_color,
        radial_menu_animation_speed: config.editor.radial_menu_animation_speed,
        annotation_palette,
    })
}

/// What the application is doing.
#[derive(Clone, Copy, Debug, PartialEq, Eq, Structural)]
pub enum AppMode {
    Idle,
    Capture,
    Edit,
}

/// The application's state between captures.
pub struct AppState {
    pub mode: AppMode,
}

/// Moves the application to `mode`.
pub fn transition_mode(state: &mut AppState, mode: AppMode)
    ensures
        final(state).mode == mode,
{
    state.mode = mode;
}

/// The options of a `capture` command line.
#[derive(Clone, Copy, Debug, PartialEq, Eq, Structural)]
pub struct CaptureRequest {
    pub target: Option<CaptureTarget>,
    pub delay_ms: Option<u64>,
    pub clipboard: bool,
    pub no_clipboard: bool,
    pub edit: bool,
    pub no_edit: bool,
}

/// What a capture will do once its options are read.
#[derive(Clone, Copy, Debug, PartialEq, Eq, Structural)]
pub struct CaptureSettings {
    pub target: CaptureTarget,
    pub delay_ms: u64,
    pub should_copy: bool,
    /// The region editor opens (only for a region capture).
    pub should_region_edit: bool,
}

/// Options of a capture command that contradict each other.
#[derive(Clone, Copy, Debug, PartialEq, Eq, Structural)]
pub enum CaptureRequestError {
    ClipboardConflict,
    EditConflict,
}

impl CaptureRequestError {
    /// The text that describes this error.
    pub fn message(&self) -> (m: &'static str)
        ensures
            *self == CaptureRequestError::ClipboardConflict ==> m@ == "cannot use --clipboard and --no-clipboard together"@,
            *self == CaptureRequestError::EditConflict ==> m@ == "cannot use --edit and --no-edit together"@,
    {
        match self {
            CaptureRequestError::ClipboardConflict => "cannot use --clipboard and --no-clipboard together",
            CaptureRequestError::EditConflict => "cannot use --edit and --no-edit together",
        }
    }
}

/// A flag pair over a configured default: the flag that is set wins.
pub open spec fn flag_over(on: bool, off: bool, default: bool) -> bool {
    if on {
        true
    } else if off {
        false
    } else {
        default
    }
}

/// The capture settings of a command line: flags and options override the
/// configuration; the editor opens only for a region capture.
pub open spec fn spec_capture_settings(req: CaptureRequest, config: AppConfig) -> Result<CaptureSettings, CaptureRequestError> {
    if req.clipboard && req.no_clipboard {
        Err(CaptureRequestError::ClipboardConflict)
    } else if req.edit && req.no_edit {
        Err(CaptureRequestError::EditConflict)
    } else {
        let target = match req.target {
            Some(t) => t,
            None => config.default_target,
        };
        Ok(CaptureSettings {
            target,
            delay_ms: match req.delay_ms {
                Some(d) => d,
                None => config.default_delay_ms,
            },
            should_copy: flag_over(req.clipboard, req.no_clipboard, config.copy_to_clipboard),
            should_region_edit: flag_over(req.edit, req.no_edit, config.open_editor) && target == CaptureTarget::Region,
        })
    }
}

/// Reads the options of a `capture` command against the configuration.
pub fn resolve_capture_request(req: CaptureRequest, config: &AppConfig) -> (r: Result<CaptureSettings, CaptureRequestError>)
    ensures
        r == spec_capture_settings(req, *config),
{
    if req.clipboard && req.no_clipboard {
        return Err(CaptureRequestError::ClipboardConflict);
    }
    if req.edit && req.no_edit {
        return Err(CaptureRequestError::EditConflict);
    }
    let target = match req.target {
        Some(t) => t,
        None => config.default_target,
    };
    let delay_ms = match req.delay_ms {
        Some(d) => d,
        None => config.default_delay_ms,
    };
    let should_copy = if req.clipboard {
        true
    } else if req.no_clipboard {
        false
    } else {
        config.copy_to_clipboard
    };
    let should_edit = if req.edit {
        true
    } else if req.no_edit {
        false
    } else {
        config.open_editor
    };
    let is_region = match target {
        CaptureTarget::Region => true,
        _ => false,
    };
    Ok(CaptureSettings { target, delay_ms, should_copy, should_region_edit: should_edit && is_region })
}

/// Whether a capture started from the hotkey or the tray opens the editor:
/// when the configuration says so and the target is a region.
pub fn should_region_edit(config: &AppConfig, target: CaptureTarget) -> (b: bool)
    ensures
        b == (config.open_editor && target == CaptureTarget::Region),
{
    let is_region = match target {
        CaptureTarget::Region => true,
        _ => false,
    };
    config.open_editor && is_region
}

/// What reloading the configuration does to the registered hotkey.
#[derive(Debug)]
pub enum HotkeyUpdate {
    /// The hotkey text did not change.
    Unchanged,
    /// The new text names the hotkey already registered.
    SameHotkey,
    /// The new hotkey is to be registered in place of the old one.
    Register(Hotkey),
    /// The new text names no hotkey; the old one stays.
    Invalid(HotkeyError),
}

/// Decides what a reloaded configuration does to the global hotkey.
pub fn hotkey_update(current_text: &str, next_text: &str, registered: Hotkey) -> (u: HotkeyUpdate)
    ensures
        current_text@ == next_text@ ==> u is Unchanged,
        current_text@ != next_text@ ==> match spec_parse_hotkey(next_text@) {
            Ok(h) => if h == registered {
                u is SameHotkey
            } else {
                u == HotkeyUpdate::Register(h)
            },
            Err(e) => u matches HotkeyUpdate::Invalid(err) && err@ == e,
        },
{
    if crate::text::eq_lit(&chars_of(current_text), next_text) {
        return HotkeyUpdate::Unchanged;
    }
    match parse_hotkey(next_text) {
        Ok(h) => {
            if h == registered {
                HotkeyUpdate::SameHotkey
            } else {
                HotkeyUpdate::Register(h)
            }
        },
        Err(e) => HotkeyUpdate::Invalid(e),
    }
}

/// What reaches the tray listener's message loop.
#[derive(Clone, Copy, Debug, PartialEq, Eq, Structural)]
pub enum ListenerEvent {
    /// The global capture hotkey was pressed.
    Hotkey,
    /// The settings window saved the configuration and asks for a reload.
    Reload,
    /// The tray menu posted the action with this code.
    Tray(usize),
}

/// What the listener does about an event.
#[derive(Clone, Copy, Debug, PartialEq, Eq, Structural)]
pub enum ListenerAction {
    /// Re-read the configuration (and re-register a changed hotkey).
    Reload,
    /// Re-read the configuration, then capture this target; `None` is the
    /// refreshed configuration's default target.
    RefreshThenCapture(Option<CaptureTarget>),
    /// Open the settings window, without re-reading the configuration.
    OpenSettings,
    /// Leave the message loop; the listener then ends without error.
    Quit,
    /// Nothing: a tray code that names no action.
    Ignore,
}

/// The listener's answer to each event: a hotkey press or "capture" in the
/// tray captures the default target, the other capture entries their own
/// target, each after a reload of the configuration; a reload message only
/// reloads; settings opens the settings window and quit ends the loop.
pub open spec fn spec_listener_action(e: ListenerEvent) -> ListenerAction {
    match e {
        ListenerEvent::Hotkey => ListenerAction::RefreshThenCapture(None),
        ListenerEvent::Reload => ListenerAction::Reload,
        ListenerEvent::Tray(code) => match spec_action_from_code(code) {
            Some(TrayAction::CaptureDefault) => ListenerAction::RefreshThenCapture(None),
            Some(TrayAction::CapturePrimary) => ListenerAction::RefreshThenCapture(Some(CaptureTarget::Primary)),
            Some(TrayAction::CaptureRegion) => ListenerAction::RefreshThenCapture(Some(CaptureTarget::Region)),
            Some(TrayAction::CaptureAllDisplays) => ListenerAction::RefreshThenCapture(
                Some(CaptureTarget::AllDisplays),
            ),
            Some(TrayAction::Settings) => ListenerAction::OpenSettings,
            Some(TrayAction::Quit) => ListenerAction::Quit,
            None => ListenerAction::Ignore,
        },
    }
}

/// Decides what the tray listener does about one event.
pub fn listener_action(e: ListenerEvent) -> (a: ListenerAction)
    ensures
        a == spec_listener_action(e),
{
    match e {
        ListenerEvent::Hotkey => ListenerAction::RefreshThenCapture(None),
        ListenerEvent::Reload => ListenerAction::Reload,
        ListenerEvent::Tray(code) => match TrayAction::from_code(code) {
            Some(TrayAction::CaptureDefault) => ListenerAction::RefreshThenCapture(None),
            Some(TrayAction::CapturePrimary) => ListenerAction::RefreshThenCapture(Some(CaptureTarget::Primary)),
            Some(TrayAction::CaptureRegion) => ListenerAction::RefreshThenCapture(Some(CaptureTarget::Region)),
            Some(TrayAction::CaptureAllDisplays) => ListenerAction::RefreshThenCapture(Some(CaptureTarget::AllDisplays)),
            Some(TrayAction::Settings) => ListenerAction::OpenSettings,
            Some(TrayAction::Quit) => ListenerAction::Quit,
            None => ListenerAction::Ignore,
        },
    }
}

} // verus!
