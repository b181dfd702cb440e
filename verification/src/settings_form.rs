//! The settings window's form as a whole: the configuration it is filled
//! from and the configuration it saves, field by field.
use vstd::prelude::*;
use crate::colors::{normalize_hex_color, spec_normalize_hex_color};
use crate::config::{
    default_annotation_palette, shortcut_values, spec_default_palette, AppConfig, CaptureTarget,
    EditorConfig, EditorShortcutConfig, RadialMenuAnimationSpeed,
};
use crate::filename::{spec_preview_filename, validate_filename_template, DateTimeParts};
use crate::hotkey::spec_hotkey_message;
use crate::keybindings::shortcut_at;
use crate::settings::{
    binding_label, index_to_target, parse_delay, read_required, spec_settings_hotkey, spec_target_index,
    spec_validate_editor_shortcuts, validate_capture_hotkey, validate_color, validate_editor_shortcuts,
    ShortcutField,
};
use crate::text::{chars_of, spec_parse_u64, spec_trim, string_from_chars, trim_chars};

verus! {

/// The step of the animation speed slider (0 to 4).
pub open spec fn spec_speed_step(s: RadialMenuAnimationSpeed) -> i32 {
    match s {
        RadialMenuAnimationSpeed::Instant => 0,
        RadialMenuAnimationSpeed::Fast => 1,
        RadialMenuAnimationSpeed::Normal => 2,
        RadialMenuAnimationSpeed::Slow => 3,
        RadialMenuAnimationSpeed::Slower => 4,
    }
}

/// The speed a slider step names; any step but 0, 1, 3 and 4 is `Normal`.
pub open spec fn spec_speed_of_step(step: i32) -> RadialMenuAnimationSpeed {
    if step == 0 {
        RadialMenuAnimationSpeed::Instant
    } else if step == 1 {
        RadialMenuAnimationSpeed::Fast
    } else if step == 3 {
        RadialMenuAnimationSpeed::Slow
    } else if step == 4 {
        RadialMenuAnimationSpeed::Slower
    } else {
        RadialMenuAnimationSpeed::Normal
    }
}

/// The slider step of an animation speed.
pub fn speed_to_slider_index(speed: RadialMenuAnimationSpeed) -> (i: i32)
    ensures
        i == spec_speed_step(speed),
{
    match speed {
        RadialMenuAnimationSpeed::Instant => 0,
        RadialMenuAnimationSpeed::Fast => 1,
        RadialMenuAnimationSpeed::Normal => 2,
        RadialMenuAnimationSpeed::Slow => 3,
        RadialMenuAnimationSpeed::Slower => 4,
    }
}

/// The animation speed of a (rounded) slider step.
pub fn slider_index_to_speed(step: i32) -> (s: RadialMenuAnimationSpeed)
    ensures
        s == spec_speed_of_step(step),
{
    if step == 0 {
        RadialMenuAnimationSpeed::Instant
    } else if step == 1 {
        RadialMenuAnimationSpeed::Fast
    } else if step == 3 {
        RadialMenuAnimationSpeed::Slow
    } else if step == 4 {
        RadialMenuAnimationSpeed::Slower
    } else {
        RadialMenuAnimationSpeed::Normal
    }
}

/// A speed shown on the slider reads back as that speed.
pub proof fn law_speed_index_roundtrip(s: RadialMenuAnimationSpeed)
    ensures
        spec_speed_of_step(spec_speed_step(s)) == s,
        0 <= spec_speed_step(s) <= 4,
{
}

/// The palette the settings window edits: each colour normalised to
/// `#RRGGBB`, a colour that is not one replaced by the default in its place.
pub open spec fn spec_sanitized_color(raw: Seq<char>, i: int) -> Seq<char> {
    match spec_normalize_hex_color(raw) {
        Some(n) => n,
        None => spec_default_palette()[i],
    }
}

pub fn sanitize_palette(colors: &[String; 8]) -> (p: [String; 8])
    ensures
        forall|i: int| 0 <= i < 8 ==> #[trigger] p@[i]@ == spec_sanitized_color(colors@[i]@, i),
{
    let mut p = default_annotation_palette();
    let mut i: usize = 0;
    while i < 8
        invariant
            i <= 8,
            forall|k: int| 0 <= k < i ==> #[trigger] p@[k]@ == spec_sanitized_color(colors@[k]@, k),
            forall|k: int| i <= k < 8 ==> #[trigger] p@[k]@ == spec_default_palette()[k],
        decreases 8 - i,
    {
        match normalize_hex_color(colors[i].as_str()) {
            Some(n) => {
                p.set(i, n);
            },
            None => {},
        }
        i = i + 1;
    }
    p
}

/// The fields of the settings form, as the window holds them.
pub struct SettingsForm {
    pub capture_hotkey: String,
    pub default_target_index: i32,
    pub default_delay_ms: String,
    pub save_dir: String,
    pub filename_template: String,
    pub text_commit_feedback_color: String,
    /// The animation speed slider, rounded to a step.
    pub radial_speed_index: i32,
    pub copy_to_clipboard: bool,
    pub open_editor: bool,
    pub shortcuts: EditorShortcutConfig,
}

/// The first shortcut (in binding order) that is blank.
pub open spec fn first_blank(vals: Seq<Seq<char>>) -> Option<int>
    decreases vals.len(),
{
    if vals.len() == 0 {
        None
    } else {
        match first_blank(vals.drop_last()) {
            Some(i) => Some(i),
            None => if spec_trim(vals.last()).len() == 0 {
                Some(vals.len() - 1)
            } else {
                None
            },
        }
    }
}

/// Each shortcut trimmed.
pub open spec fn trimmed(vals: Seq<Seq<char>>) -> Seq<Seq<char>> {
    vals.map_values(|v: Seq<char>| spec_trim(v))
}

/// The first field of the form that is refused, with its message, checked
/// in the order the window reads them: the hotkey is required, the target
/// must be listed, the delay a number, the folder and the file name pattern
/// given (and the pattern must give a name), the colour `#RRGGBB`, every
/// shortcut given; then the hotkey and the shortcuts must parse, and no two
/// shortcuts may share a chord.
pub open spec fn spec_form_error(f: SettingsForm, now: DateTimeParts) -> Option<Seq<char>> {
    let vals = shortcut_values(&f.shortcuts);
    if spec_trim(f.capture_hotkey@).len() == 0 {
        Some("Capture hotkey cannot be empty."@)
    } else if !(0 <= f.default_target_index <= 2) {
        Some("Default target selection is invalid."@)
    } else if spec_trim(f.default_delay_ms@).len() > 0 && spec_parse_u64(spec_trim(f.default_delay_ms@)) is None {
        Some("Default delay (ms) must be a non-negative integer."@)
    } else if spec_trim(f.save_dir@).len() == 0 {
        Some("Save directory cannot be empty."@)
    } else if spec_trim(f.filename_template@).len() == 0 {
        Some("Filename pattern cannot be empty."@)
    } else if spec_trim(spec_preview_filename(spec_trim(f.filename_template@), now)).len() == 0 {
        Some("Filename pattern produced an empty name."@)
    } else if spec_normalize_hex_color(spec_trim(f.text_commit_feedback_color@)) is None {
        Some("Text commit feedback color must be #RRGGBB."@)
    } else if first_blank(vals) is Some {
        Some("Shortcut "@ + binding_label(first_blank(vals)->0) + " cannot be empty."@)
    } else if spec_settings_hotkey(spec_trim(f.capture_hotkey@)) is Err {
        Some(spec_hotkey_message(spec_settings_hotkey(spec_trim(f.capture_hotkey@))->Err_0))
    } else if spec_validate_editor_shortcuts(trimmed(vals)) is Err {
        Some(spec_validate_editor_shortcuts(trimmed(vals))->Err_0)
    } else {
        None
    }
}

proof fn lemma_first_blank_extends(vals: Seq<Seq<char>>, i: int)
    requires
        0 <= i < vals.len(),
        first_blank(vals.subrange(0, i)) is None,
    ensures
        spec_trim(vals[i]).len() == 0 ==> first_blank(vals.subrange(0, i + 1)) == Some(i),
        spec_trim(vals[i]).len() > 0 ==> first_blank(vals.subrange(0, i + 1)) is None,
{
    assert(vals.subrange(0, i + 1).drop_last() =~= vals.subrange(0, i));
}

proof fn lemma_first_blank_prefix(vals: Seq<Seq<char>>, k: int)
    requires
        0 <= k <= vals.len(),
        first_blank(vals.subrange(0, k)) is Some,
    ensures
        first_blank(vals) == first_blank(vals.subrange(0, k)),
    decreases vals.len() - k,
{
    if k < vals.len() {
        assert(vals.subrange(0, k + 1).drop_last() =~= vals.subrange(0, k));
        lemma_first_blank_prefix(vals, k + 1);
    } else {
        assert(vals.subrange(0, k) =~= vals);
    }
}

/// The shortcut at binding index `i`, trimmed and required.
fn read_shortcut(shortcuts: &EditorShortcutConfig, i: usize) -> (r: Result<String, String>)
    requires
        i < 15,
    ensures
        spec_trim(shortcut_values(shortcuts)[i as int]).len() == 0 ==> (r matches Err(m) && m@ == "Shortcut "@
            + binding_label(i as int) + " cannot be empty."@),
        spec_trim(shortcut_values(shortcuts)[i as int]).len() > 0 ==> (r matches Ok(s) && s@ == spec_trim(
            shortcut_values(shortcuts)[i as int],
        )),
{
    let field = match ShortcutField::from_id((i + 1) as i32) {
        Some(f) => f,
        None => ShortcutField::Select,
    };
    let raw = shortcut_at(shortcuts, i);
    let t = trim_chars(&chars_of(raw.as_str()));
    if t.len() == 0 {
        let mut m = String::from_str("Shortcut ");
        m.append(field.label());
        m.append(" cannot be empty.");
        return Err(m);
    }
    Ok(string_from_chars(&t))
}

/// All shortcuts trimmed; the first blank one is refused.
fn read_shortcuts(shortcuts: &EditorShortcutConfig) -> (r: Result<EditorShortcutConfig, String>)
    ensures
        match r {
            Ok(c) => first_blank(shortcut_values(shortcuts)) is None && shortcut_values(&c) == trimmed(shortcut_values(shortcuts)),
            Err(m) => first_blank(shortcut_values(shortcuts)) matches Some(i) && m@ == "Shortcut "@ + binding_label(i)
                + " cannot be empty."@,
        },
{
    let ghost vals = shortcut_values(shortcuts);
    let mut out: Vec<String> = Vec::new();
    let mut i: usize = 0;
    while i < 15
        invariant
            vals == shortcut_values(shortcuts),
            vals.len() == 15,
            i <= 15,
            out@.len() == i,
            first_blank(vals.subrange(0, i as int)) is None,
            forall|k: int| 0 <= k < i ==> #[trigger] out@[k]@ == spec_trim(vals[k]),
        decreases 15 - i,
    {
        proof {
            lemma_first_blank_extends(vals, i as int);
        }
        match read_shortcut(shortcuts, i) {
            Ok(s) => {
                out.push(s);
            },
            Err(m) => {
                proof {
                    lemma_first_blank_prefix(vals, i + 1);
                }
                return Err(m);
            },
        }
        i = i + 1;
    }
    assert(vals.subrange(0, 15) =~= vals);
    let c = EditorShortcutConfig {
        select: out[0].clone(),
        rectangle: out[1].clone(),
        ellipse: out[2].clone(),
        line: out[3].clone(),
        arrow: out[4].clone(),
        marker: out[5].clone(),
        text: out[6].clone(),
        pixelate: out[7].clone(),
        blur: out[8].clone(),
        copy: out[9].clone(),
        save: out[10].clone(),
        copy_and_save: out[11].clone(),
        undo: out[12].clone(),
        redo: out[13].clone(),
        delete_selected: out[14].clone(),
    };
    assert(shortcut_values(&c) =~= trimmed(vals));
    Ok(c)
}

/// The configuration the form saves, or the message of the first field it
/// refuses (see [`spec_form_error`]); the palette is taken as it is.
pub fn config_from_form(form: &SettingsForm, palette: &[String; 8], now: DateTimeParts) -> (r: Result<AppConfig, String>)
    requires
        now.weekday_from_monday <= 7,
    ensures
        match r {
            Err(m) => spec_form_error(*form, now) == Some(m@),
            Ok(c) => {
                &&& spec_form_error(*form, now) is None
                &&& c.capture_hotkey@ == spec_trim(form.capture_hotkey@)
                &&& spec_target_index(c.default_target) == form.default_target_index
                &&& c.default_delay_ms == (if spec_trim(form.default_delay_ms@).len() == 0 {
                    0
                } else {
                    spec_parse_u64(spec_trim(form.default_delay_ms@))->0
                })
                &&& c.copy_to_clipboard == form.copy_to_clipboard
                &&& c.open_editor == form.open_editor
                &&& c.save_dir@ == spec_trim(form.save_dir@)
                &&& c.filename_template@ == spec_trim(form.filename_template@)
                &&& Some(c.editor.text_commit_feedback_color@) == spec_normalize_hex_color(spec_trim(form.text_commit_feedback_color@))
                &&& c.editor.radial_menu_animation_speed == spec_speed_of_step(form.radial_speed_index)
                &&& shortcut_values(&c.editor.shortcuts) == trimmed(shortcut_values(&form.shortcuts))
                &&& forall|i: int| 0 <= i < 8 ==> #[trigger] c.editor.annotation_palette@[i]@ == palette@[i]@
            },
        },
{
    let capture_hotkey = match read_required("Capture hotkey", form.capture_hotkey.as_str()) {
        Ok(s) => s,
        Err(m) => {
            proof {
                reveal_strlit("Capture hotkey");
                reveal_strlit(" cannot be empty.");
                reveal_strlit("Capture hotkey cannot be empty.");
                assert(m@ =~= "Capture hotkey cannot be empty."@);
            }
            return Err(m);
        },
    };
    let default_target = match index_to_target(form.default_target_index) {
        Ok(t) => t,
        Err(m) => {
            return Err(m);
        },
    };
    let default_delay_ms = match parse_delay(form.default_delay_ms.as_str()) {
        Ok(d) => d,
        Err(m) => {
            return Err(m);
        },
    };
    let save_dir = match read_required("Save directory", form.save_dir.as_str()) {
        Ok(s) => s,
        Err(m) => {
            proof {
                reveal_strlit("Save directory");
                reveal_strlit(" cannot be empty.");
                reveal_strlit("Save directory cannot be empty.");
                assert(m@ =~= "Save directory cannot be empty."@);
            }
            return Err(m);
        },
    };
    let filename_template = match validate_filename_template(form.filename_template.as_str(), now) {
        Ok(t) => t,
        Err(m) => {
            return Err(m);
        },
    };
    let text_commit_feedback_color = match validate_color(form.text_commit_feedback_color.as_str()) {
        Ok(c) => c,
        Err(m) => {
            return Err(m);
        },
    };
    let radial_menu_animation_speed = slider_index_to_speed(form.radial_speed_index);
    let shortcuts = match read_shortcuts(&form.shortcuts) {
        Ok(s) => s,
        Err(m) => {
            return Err(m);
        },
    };
    match validate_capture_hotkey(capture_hotkey.as_str()) {
        Ok(()) => {},
        Err(e) => {
            return Err(e.message());
        },
    }
    match validate_editor_shortcuts(&shortcuts) {
        Ok(()) => {},
        Err(m) => {
            return Err(m);
        },
    }
    let annotation_palette = [
        palette[0].clone(),
        palette[1].clone(),
        palette[2].clone(),
        palette[3].clone(),
        palette[4].clone(),
        palette[5].clone(),
        palette[6].clone(),
        palette[7].clone(),
    ];
    Ok(AppConfig {
        capture_hotkey,
        default_target,
        default_delay_ms,
        copy_to_clipboard: form.copy_to_clipboard,
        open_editor: form.open_editor,
        save_dir,
        filename_template,
        editor: EditorConfig {
            shortcuts,
            text_commit_feedback_color,
            radial_menu_animation_speed,
            annotation_palette,
        },
    })
}

} // verus!
