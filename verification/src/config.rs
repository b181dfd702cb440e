//! The settings that `config.toml` holds, with their default values.
use vstd::prelude::*;

verus! {

/// Number of colours in the annotation palette.
pub const ANNOTATION_PALETTE_SIZE: usize = 8;

/// What a capture takes a picture of.
#[derive(Clone, Copy, Debug, PartialEq, Eq, Structural)]
pub enum CaptureTarget {
    Primary,
    Region,
    AllDisplays,
}

impl Default for CaptureTarget {
    fn default() -> (t: Self)
        ensures
            t == CaptureTarget::AllDisplays,
    {
        CaptureTarget::AllDisplays
    }
}

pub open spec fn spec_capture_target_name(t: CaptureTarget) -> Seq<char> {
    match t {
        CaptureTarget::Primary => "primary"@,
        CaptureTarget::Region => "region"@,
        CaptureTarget::AllDisplays => "all-displays"@,
    }
}

impl CaptureTarget {
    /// The name the command line and the configuration file use.
    pub fn name(self) -> (s: &'static str)
        ensures
            s@ == spec_capture_target_name(self),
    {
        match self {
            CaptureTarget::Primary => "primary",
            CaptureTarget::Region => "region",
            CaptureTarget::AllDisplays => "all-displays",
        }
    }
}

/// How long the radial colour menu takes to open and close.
#[derive(Clone, Copy, Debug, PartialEq, Eq, Structural)]
pub enum RadialMenuAnimationSpeed {
    Instant,
    Fast,
    Normal,
    Slow,
    Slower,
}

impl Default for RadialMenuAnimationSpeed {
    fn default() -> (s: Self)
        ensures
            s == RadialMenuAnimationSpeed::Normal,
    {
        RadialMenuAnimationSpeed::Normal
    }
}

pub open spec fn spec_duration_ms(s: RadialMenuAnimationSpeed) -> u32 {
    match s {
        RadialMenuAnimationSpeed::Instant => 0,
        RadialMenuAnimationSpeed::Fast => 150,
        RadialMenuAnimationSpeed::Normal => 250,
        RadialMenuAnimationSpeed::Slow => 350,
        RadialMenuAnimationSpeed::Slower => 500,
    }
}

impl RadialMenuAnimationSpeed {
    /// Length of the open and close animation, in milliseconds.
    pub fn duration_ms(self) -> (ms: u32)
        ensures
            ms == spec_duration_ms(self),
    {
        match self {
            RadialMenuAnimationSpeed::Instant => 0,
            RadialMenuAnimationSpeed::Fast => 150,
            RadialMenuAnimationSpeed::Normal => 250,
            RadialMenuAnimationSpeed::Slow => 350,
            RadialMenuAnimationSpeed::Slower => 500,
        }
    }
}

/// Editor shortcut strings, one per action.
#[derive(Debug)]
pub struct EditorShortcutConfig {
    pub select: String,
    pub rectangle: String,
    pub ellipse: String,
    pub line: String,
    pub arrow: String,
    pub marker: String,
    pub text: String,
    pub pixelate: String,
    pub blur: String,
    pub copy: String,
    pub save: String,
    pub copy_and_save: String,
    pub undo: String,
    pub redo: String,
    pub delete_selected: String,
}

/// The shortcut strings in the order the editor binds and checks them.
pub open spec fn shortcut_values(c: &EditorShortcutConfig) -> Seq<Seq<char>> {
    seq![
        c.select@,
        c.rectangle@,
        c.ellipse@,
        c.line@,
        c.arrow@,
        c.marker@,
        c.text@,
        c.pixelate@,
        c.blur@,
        c.copy@,
        c.save@,
        c.copy_and_save@,
        c.undo@,
        c.redo@,
        c.delete_selected@,
    ]
}

/// Settings of the region editor.
#[derive(Debug)]
pub struct EditorConfig {
    pub shortcuts: EditorShortcutConfig,
    pub text_commit_feedback_color: String,
    pub radial_menu_animation_speed: RadialMenuAnimationSpeed,
    pub annotation_palette: [String; 8],
}

/// All settings of the application.
#[derive(Debug)]
pub struct AppConfig {
    pub capture_hotkey: String,
    pub default_target: CaptureTarget,
    pub default_delay_ms: u64,
    pub copy_to_clipboard: bool,
    pub open_editor: bool,
    pub save_dir: String,
    pub filename_template: String,
    pub editor: EditorConfig,
}

/// Settings together with the file they were read from.
#[derive(Debug)]
pub struct LoadedConfig {
    pub path: String,
    pub data: AppConfig,
}

pub fn default_hotkey() -> (s: String)
    ensures
        s@ == "PrintScreen"@,
{
    String::from_str("PrintScreen")
}

pub fn default_capture_target() -> (t: CaptureTarget)
    ensures
        t == CaptureTarget::Region,
{
    CaptureTarget::Region
}

pub fn default_copy_to_clipboard() -> (b: bool)
    ensures
        b,
{
    true
}

pub fn default_open_editor() -> (b: bool)
    ensures
        b,
{
    true
}

pub fn default_filename_template() -> (s: String)
    ensures
        s@ == "pyro-%Y%m%d-%H%M%S"@,
{
    String::from_str("pyro-%Y%m%d-%H%M%S")
}

pub fn default_text_commit_feedback_color() -> (s: String)
    ensures
        s@ == "#48B4FF"@,
{
    String::from_str("#48B4FF")
}

pub open spec fn spec_default_palette() -> Seq<Seq<char>> {
    seq![
        "#FF5E5E"@,
        "#FFAA43"@,
        "#FFE256"@,
        "#5FD382"@,
        "#48B4FF"@,
        "#5A80FF"@,
        "#B67AFF"@,
        "#FFFFFF"@,
    ]
}

/// The eight annotation colours offered before the user picks their own.
pub fn default_annotation_palette() -> (p: [String; 8])
    ensures
        forall|i: int| 0 <= i < 8 ==> #[trigger] p@[i]@ == spec_default_palette()[i],
{
    [
        String::from_str("#FF5E5E"),
        String::from_str("#FFAA43"),
        String::from_str("#FFE256"),
        String::from_str("#5FD382"),
        String::from_str("#48B4FF"),
        String::from_str("#5A80FF"),
        String::from_str("#B67AFF"),
        String::from_str("#FFFFFF"),
    ]
}

pub fn default_shortcut_select() -> (s: String)
    ensures
        s@ == "S"@,
{
    String::from_str("S")
}

pub fn default_shortcut_rectangle() -> (s: String)
    ensures
        s@ == "R"@,
{
    String::from_str("R")
}

pub fn default_shortcut_ellipse() -> (s: String)
    ensures
        s@ == "E"@,
{
    String::from_str("E")
}

pub fn default_shortcut_line() -> (s: String)
    ensures
        s@ == "L"@,
{
    String::from_str("L")
}

pub fn default_shortcut_arrow() -> (s: String)
    ensures
        s@ == "A"@,
{
    String::from_str("A")
}

pub fn default_shortcut_marker() -> (s: String)
    ensures
        s@ == "M"@,
{
    String::from_str("M")
}

pub fn default_shortcut_text() -> (s: String)
    ensures
        s@ == "T"@,
{
    String::from_str("T")
}

pub fn default_shortcut_pixelate() -> (s: String)
    ensures
        s@ == "P"@,
{
    String::from_str("P")
}

pub fn default_shortcut_blur() -> (s: String)
    ensures
        s@ == "B"@,
{
    String::from_str("B")
}

pub fn default_shortcut_copy() -> (s: String)
    ensures
        s@ == "Ctrl+C"@,
{
    String::from_str("Ctrl+C")
}

pub fn default_shortcut_save() -> (s: String)
    ensures
        s@ == "Ctrl+S"@,
{
    String::from_str("Ctrl+S")
}

pub fn default_shortcut_copy_save() -> (s: String)
    ensures
        s@ == "Ctrl+Shift+S"@,
{
    String::from_str("Ctrl+Shift+S")
}

pub fn default_shortcut_undo() -> (s: String)
    ensures
        s@ == "Ctrl+Z"@,
{
    String::from_str("Ctrl+Z")
}

pub fn default_shortcut_redo() -> (s: String)
    ensures
        s@ == "Ctrl+Y"@,
{
    String::from_str("Ctrl+Y")
}

pub fn default_shortcut_delete() -> (s: String)
    ensures
        s@ == "Delete"@,
{
    String::from_str("Delete")
}

pub open spec fn spec_default_shortcuts() -> Seq<Seq<char>> {
    seq![
        "S"@,
        "R"@,
        "E"@,
        "L"@,
        "A"@,
        "M"@,
        "T"@,
        "P"@,
        "B"@,
        "Ctrl+C"@,
        "Ctrl+S"@,
        "Ctrl+Shift+S"@,
        "Ctrl+Z"@,
        "Ctrl+Y"@,
        "Delete"@,
    ]
}

impl EditorShortcutConfig {
    /// The default shortcuts.
    pub fn default_shortcuts() -> (c: Self)
        ensures
            shortcut_values(&c) == spec_default_shortcuts(),
    {
        let c = EditorShortcutConfig {
            select: default_shortcut_select(),
            rectangle: default_shortcut_rectangle(),
            ellipse: default_shortcut_ellipse(),
            line: default_shortcut_line(),
            arrow: default_shortcut_arrow(),
            marker: default_shortcut_marker(),
            text: default_shortcut_text(),
            pixelate: default_shortcut_pixelate(),
            blur: default_shortcut_blur(),
            copy: default_shortcut_copy(),
            save: default_shortcut_save(),
            copy_and_save: default_shortcut_copy_save(),
            undo: default_shortcut_undo(),
            redo: default_shortcut_redo(),
            delete_selected: default_shortcut_delete(),
        };
        assert(shortcut_values(&c) =~= spec_default_shortcuts());
        c
    }
}

impl EditorConfig {
    /// The default editor settings.
    pub fn default_editor() -> (c: Self)
        ensures
            shortcut_values(&c.shortcuts) == spec_default_shortcuts(),
            c.text_commit_feedback_color@ == "#48B4FF"@,
            c.radial_menu_animation_speed == RadialMenuAnimationSpeed::Normal,
            forall|i: int| 0 <= i < 8 ==> #[trigger] c.annotation_palette@[i]@ == spec_default_palette()[i],
    {
        EditorConfig {
            shortcuts: EditorShortcutConfig::default_shortcuts(),
            text_commit_feedback_color: default_text_commit_feedback_color(),
            radial_menu_animation_speed: RadialMenuAnimationSpeed::Normal,
            annotation_palette: default_annotation_palette(),
        }
    }
}

impl AppConfig {
    /// The default settings, saving into `save_dir` (which depends on the
    /// user's picture folder and is found by the caller).
    pub fn default_with_save_dir(save_dir: String) -> (c: Self)
        ensures
            c.capture_hotkey@ == "PrintScreen"@,
            c.default_target == CaptureTarget::Region,
            c.default_delay_ms == 0,
            c.copy_to_clipboard,
            c.open_editor,
            c.save_dir@ == save_dir@,
            c.filename_template@ == "pyro-%Y%m%d-%H%M%S"@,
            shortcut_values(&c.editor.shortcuts) == spec_default_shortcuts(),
            c.editor.text_commit_feedback_color@ == "#48B4FF"@,
            c.editor.radial_menu_animation_speed == RadialMenuAnimationSpeed::Normal,
            forall|i: int| 0 <= i < 8 ==> #[trigger] c.editor.annotation_palette@[i]@ == spec_default_palette()[i],
    {
        AppConfig {
            capture_hotkey: default_hotkey(),
            default_target: default_capture_target(),
            default_delay_ms: 0,
            copy_to_clipboard: default_copy_to_clipboard(),
            open_editor: default_open_editor(),
            save_dir,
            filename_template: default_filename_template(),
            editor: EditorConfig::default_editor(),
        }
    }
}

} // verus!
