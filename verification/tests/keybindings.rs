use pyro::config::EditorShortcutConfig;
use pyro::keybindings::{EditorKeybindings, EditorOutputAction, KeybindingError, Tool};

#[test]
fn default_keybindings_load() {
    let kb = EditorKeybindings::from_config(&EditorShortcutConfig::default_shortcuts()).expect("defaults are valid");
    assert_eq!(kb.tool_for_key('R' as u32, false, false, false), Some(Tool::Rectangle));
    assert_eq!(kb.tool_for_key('E' as u32, false, false, false), Some(Tool::Ellipse));
    assert_eq!(kb.tool_for_key('R' as u32, true, false, false), None);
    assert_eq!(kb.output_action_for_key('C' as u32, true, false, false), Some(EditorOutputAction::Copy));
    assert_eq!(kb.output_action_for_key('S' as u32, true, true, false), Some(EditorOutputAction::CopyAndSave));
    assert_eq!(kb.output_action_for_key('S' as u32, true, false, false), Some(EditorOutputAction::Save));
    assert_eq!(kb.undo.label, "Ctrl+Z");
    assert_eq!(kb.delete_selected.label, "Delete");
}

#[test]
fn invalid_shortcut_is_reported_with_its_field() {
    let mut cfg = EditorShortcutConfig::default_shortcuts();
    cfg.line = "Ctrl+".to_string();
    match EditorKeybindings::from_config(&cfg) {
        Err(KeybindingError::Invalid { field, value, .. }) => {
            assert_eq!(field, 3);
            assert_eq!(value, "Ctrl+");
        }
        other => panic!("unexpected {:?}", other.is_ok()),
    }
}

#[test]
fn conflicting_shortcuts_name_the_later_binding() {
    let mut cfg = EditorShortcutConfig::default_shortcuts();
    cfg.blur = "r".to_string();
    match EditorKeybindings::from_config(&cfg) {
        Err(KeybindingError::Conflict { field, label }) => {
            assert_eq!(field, 8);
            assert_eq!(label, "R");
        }
        other => panic!("unexpected {:?}", other.is_ok()),
    }
}

#[test]
fn keybinding_error_message_names_the_setting() {
    let mut cfg = EditorShortcutConfig::default_shortcuts();
    cfg.redo = "Ctrl+Z".to_string();
    let err = EditorKeybindings::from_config(&cfg).err().expect("conflict");
    assert!(err.message().contains("redo"));
}

#[test]
fn every_bound_chord_looks_up_its_own_binding() {
    let kb = EditorKeybindings::from_config(&EditorShortcutConfig::default_shortcuts()).expect("defaults are valid");
    let tools = [
        (&kb.select, Tool::Select),
        (&kb.rectangle, Tool::Rectangle),
        (&kb.ellipse, Tool::Ellipse),
        (&kb.line, Tool::Line),
        (&kb.arrow, Tool::Arrow),
        (&kb.marker, Tool::Marker),
        (&kb.text, Tool::Text),
        (&kb.pixelate, Tool::Pixelate),
        (&kb.blur, Tool::Blur),
    ];
    for (b, t) in tools {
        let c = b.chord;
        assert_eq!(kb.tool_for_key(c.key, c.ctrl, c.shift, c.alt), Some(t));
        assert_eq!(kb.output_action_for_key(c.key, c.ctrl, c.shift, c.alt), None);
    }
    for (b, a) in [
        (&kb.copy, EditorOutputAction::Copy),
        (&kb.save, EditorOutputAction::Save),
        (&kb.copy_and_save, EditorOutputAction::CopyAndSave),
    ] {
        let c = b.chord;
        assert_eq!(kb.output_action_for_key(c.key, c.ctrl, c.shift, c.alt), Some(a));
        assert_eq!(kb.tool_for_key(c.key, c.ctrl, c.shift, c.alt), None);
    }
}
