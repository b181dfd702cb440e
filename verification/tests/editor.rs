use pyro::annotation::Annotation;
use pyro::config::{EditorShortcutConfig, RadialMenuAnimationSpeed};
use pyro::editor::{EditError, EditorState, KeyOutcome, RegionEditOutcome, ToolbarHit};
use pyro::geometry::{Point, RectPx};
use pyro::keybindings::{EditorKeybindings, EditorOutputAction, Tool};

fn palette() -> [[u8; 4]; 8] {
    [
        [255, 94, 94, 255],
        [255, 170, 67, 255],
        [255, 226, 86, 255],
        [95, 211, 130, 255],
        [72, 180, 255, 255],
        [90, 128, 255, 255],
        [182, 122, 255, 255],
        [255, 255, 255, 255],
    ]
}

fn editor() -> EditorState {
    let kb = EditorKeybindings::from_config(&EditorShortcutConfig::default_shortcuts()).ok().unwrap();
    EditorState::new(
        RectPx { left: 100, top: 100, right: 500, bottom: 400 },
        RectPx { left: 0, top: 0, right: 1000, bottom: 800 },
        kb,
        [72, 180, 255],
        RadialMenuAnimationSpeed::Normal,
        palette(),
    )
}

fn p(x: i32, y: i32) -> Point {
    Point { x, y }
}

fn any_rect() -> RectPx {
    RectPx { left: 0, top: 0, right: 10, bottom: 10 }
}

#[test]
fn new_editor_defaults() {
    let e = editor();
    assert_eq!(e.selection, RectPx { left: 100, top: 100, right: 500, bottom: 400 });
    assert_eq!(e.tool, Tool::Select);
    assert_eq!(e.radial_animation_duration_ms, 250);
    assert_eq!(e.stroke_color(), [255, 94, 94, 255]);
    assert!(e.annotations.is_empty());
}

#[test]
fn initial_selection_is_clamped_to_the_desktop() {
    let kb = EditorKeybindings::from_config(&EditorShortcutConfig::default_shortcuts()).ok().unwrap();
    let e = EditorState::new(
        RectPx { left: -50, top: 700, right: 300, bottom: 900 },
        RectPx { left: 0, top: 0, right: 1000, bottom: 800 },
        kb,
        [0, 0, 0],
        RadialMenuAnimationSpeed::Instant,
        palette(),
    );
    assert_eq!(e.selection, RectPx { left: 0, top: 700, right: 300, bottom: 800 });
}

#[test]
fn drawing_a_rectangle_and_undoing_it() {
    let mut e = editor();
    assert_eq!(e.handle_key('R' as u32, false, false, false, false), KeyOutcome::ToolChanged { previous: Tool::Select });
    let press = e.press(p(150, 150), None, None, false);
    assert!(press.capture);
    let rel = e.release(p(250, 220), false, p(250, 220), any_rect());
    assert!(rel.finalized);
    assert_eq!(e.annotations.len(), 1);
    match &e.annotations[0] {
        Annotation::Rectangle(r) => {
            assert_eq!(r.rect_abs, RectPx { left: 150, top: 150, right: 250, bottom: 220 });
            assert_eq!(r.color, [255, 94, 94, 255]);
        }
        other => panic!("unexpected {:?}", other),
    }
    assert!(e.undo());
    assert_eq!(e.annotations.len(), 0);
    assert_eq!(e.redo.len(), 1);
    assert!(e.redo());
    assert_eq!(e.annotations.len(), 1);
    assert!(!e.redo());
    assert_eq!(e.handle_key('Z' as u32, true, false, false, false), KeyOutcome::LayersChanged);
    assert_eq!(e.annotations.len(), 0);
}

#[test]
fn tiny_drawings_are_dropped() {
    let mut e = editor();
    e.handle_key('R' as u32, false, false, false, false);
    e.press(p(150, 150), None, None, false);
    let rel = e.release(p(151, 151), false, p(151, 151), any_rect());
    assert!(!rel.finalized);
    assert!(e.annotations.is_empty());
    assert!(e.drag.is_none());
}

#[test]
fn colour_and_thickness_keys() {
    let mut e = editor();
    assert!(e.set_stroke_color(3));
    assert_eq!(e.stroke_color(), [95, 211, 130, 255]);
    let before = e.stroke_thickness();
    e.handle_key('E' as u32, false, false, false, false);
    assert!(e.wheel(120));
    assert!(e.stroke_thickness() > before);
    assert!(e.wheel(-240));
    assert!(e.stroke_thickness() < before);
    assert!(!e.adjust_stroke_thickness(-10) || e.stroke_thickness_idx == 0);
}

#[test]
fn output_shortcuts_finish_the_edit() {
    let mut e = editor();
    e.handle_key('S' as u32, true, true, false, false);
    assert!(e.done);
    assert_eq!(e.output_action, Some(EditorOutputAction::CopyAndSave));
    match e.into_outcome() {
        Ok(RegionEditOutcome::Apply(res)) => {
            assert_eq!(res.bounds(), RectPx { left: 100, top: 100, right: 500, bottom: 400 });
            assert_eq!(res.output_action(), Some(EditorOutputAction::CopyAndSave));
        }
        _ => panic!("expected a result"),
    }
}

#[test]
fn escape_cancels() {
    let mut e = editor();
    assert_eq!(e.handle_key(0x1B, false, false, false, false), KeyOutcome::Cancel);
    assert!(matches!(e.into_outcome(), Ok(RegionEditOutcome::Cancel)));
}

#[test]
fn small_selection_is_an_error() {
    let mut e = editor();
    e.set_selection(RectPx { left: 10, top: 10, right: 11, bottom: 11 });
    e.done = true;
    assert_eq!(e.into_outcome().err(), Some(EditError::SelectionTooSmall));
    assert_eq!(EditError::SelectionTooSmall.message(), "selected region is too small");
}

#[test]
fn toolbar_buttons_pick_tools_and_outputs() {
    let mut e = editor();
    let out = e.press(p(0, 0), Some(ToolbarHit::Blur), None, false);
    assert!(out.toolbar);
    assert_eq!(e.tool, Tool::Blur);
    e.release(p(0, 0), false, p(0, 0), any_rect());
    e.press(p(0, 0), Some(ToolbarHit::Pin), None, false);
    e.release(p(0, 0), false, p(0, 0), any_rect());
    assert!(e.done);
    assert_eq!(e.output_action, Some(EditorOutputAction::Pin));
}

#[test]
fn typing_text_and_backspace() {
    let mut e = editor();
    e.handle_key('T' as u32, false, false, false, false);
    e.press(p(200, 200), None, None, false);
    e.release(p(200, 200), false, p(200, 200), any_rect());
    assert!(e.editing_text.is_some());
    assert!(e.type_char('h' as u32));
    assert!(e.type_char('i' as u32));
    match &e.annotations[e.editing_text.unwrap()] {
        Annotation::Text(t) => assert_eq!(t.text, "hi"),
        other => panic!("unexpected {:?}", other),
    }
    assert!(e.type_char(0x08));
    match &e.annotations[e.editing_text.unwrap()] {
        Annotation::Text(t) => assert_eq!(t.text, "h"),
        other => panic!("unexpected {:?}", other),
    }
    assert!(matches!(e.handle_key(0x0D, false, false, false, false), KeyOutcome::TextFinished { kept: Some(_) }));
    assert!(e.editing_text.is_none());
}

#[test]
fn moving_an_annotation_keeps_it_in_the_selection() {
    let mut e = editor();
    e.handle_key('R' as u32, false, false, false, false);
    e.press(p(150, 150), None, None, false);
    e.release(p(250, 220), false, p(250, 220), any_rect());
    assert!(e.move_annotation(0, 1000, 1000));
    match &e.annotations[0] {
        Annotation::Rectangle(r) => assert_eq!(r.rect_abs, RectPx { left: 400, top: 330, right: 500, bottom: 400 }),
        other => panic!("unexpected {:?}", other),
    }
    e.selected_annotation = Some(0);
    assert!(e.delete_selected_annotation());
    assert!(e.annotations.is_empty());
}

fn open_over(desktop: RectPx) -> Result<EditorState, EditError> {
    let kb = EditorKeybindings::from_config(&EditorShortcutConfig::default_shortcuts()).ok().unwrap();
    EditorState::open(
        RectPx { left: 0, top: 0, right: 50, bottom: 50 },
        desktop,
        kb,
        [72, 180, 255],
        RadialMenuAnimationSpeed::Normal,
        palette(),
    )
}

#[test]
fn empty_desktop_is_refused() {
    assert_eq!(open_over(RectPx { left: 0, top: 0, right: 0, bottom: 800 }).err(), Some(EditError::InvalidDesktop));
    assert_eq!(open_over(RectPx { left: 10, top: 0, right: 5, bottom: 800 }).err(), Some(EditError::InvalidDesktop));
    assert_eq!(EditError::InvalidDesktop.message(), "invalid virtual desktop size");
}

#[test]
fn one_pixel_desktop_leaves_too_small_a_selection() {
    assert_eq!(open_over(RectPx { left: 0, top: 0, right: 1, bottom: 800 }).err(), Some(EditError::SelectionTooSmall));
}

#[test]
fn desktop_with_room_opens_the_editor() {
    let e = open_over(RectPx { left: 0, top: 0, right: 1000, bottom: 800 }).ok().unwrap();
    assert_eq!(e.selection, RectPx { left: 0, top: 0, right: 50, bottom: 50 });
}
