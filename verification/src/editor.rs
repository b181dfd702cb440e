//! The state of the region editor and every change a pointer or key event
//! makes to it: selection moves and resizes, drawing, editing and removing
//! annotations, undo and redo, and finishing the edit.
use vstd::prelude::*;
use crate::annotation::{
    ann_ok, box_ok, default_text_rect_at, loose_point_ok, moved_bounds_within, spec_annotation_bounds,
    spec_default_text_rect_at, spec_resize_rect, spec_translate_ann, spec_with_rect, translate_annotation,
    annotation_bounds_abs, set_annotation_resize_rect, AnnView, Annotation, LineEndpoint, MIN_RECT,
};
use crate::config::{spec_duration_ms, RadialMenuAnimationSpeed};
use crate::geometry::{
    clamp_i32, point_ok, rect_normalized, rect_ok, rect_within, spec_clamp, Point, RectPx, ResizeHandle,
    MIN_SELECTION,
};
use crate::keybindings::{EditorKeybindings, EditorOutputAction, Tool};

verus! {

/// Palette entry selected when the editor opens.
pub const DEFAULT_COLOR_INDEX: usize = 0;
/// Thickness step selected when the editor opens.
pub const DEFAULT_THICKNESS_INDEX: usize = 1;
/// Number of thickness steps.
pub const THICKNESS_STEP_COUNT: usize = 5;
/// Alpha of the highlighter colour.
pub const MARKER_ALPHA: u8 = 112;
/// Highlighter strokes are this many times thicker than other strokes.
pub const MARKER_THICKNESS_SCALE: i32 = 3;
/// Thinnest highlighter stroke.
pub const MARKER_MIN_THICKNESS: i32 = 8;

/// Stroke thickness of each step.
pub open spec fn spec_thickness_step(i: int) -> i32 {
    if i == 0 {
        2
    } else if i == 1 {
        4
    } else if i == 2 {
        6
    } else if i == 3 {
        8
    } else {
        12
    }
}

/// Pixelation block size of each step.
pub open spec fn spec_pixelate_step(i: int) -> i32 {
    if i == 0 {
        4
    } else if i == 1 {
        8
    } else if i == 2 {
        12
    } else if i == 3 {
        16
    } else {
        24
    }
}

/// Blur radius of each step.
pub open spec fn spec_blur_step(i: int) -> i32 {
    if i == 0 {
        1
    } else if i == 1 {
        2
    } else if i == 2 {
        3
    } else if i == 3 {
        4
    } else {
        6
    }
}

/// What the pointer is doing while a button is held.
#[derive(Clone, Copy, Debug, PartialEq, Eq, Structural)]
pub enum Drag {
    /// Moving the selection; the offsets are from the pointer to its corner.
    Move { offset_x: i32, offset_y: i32, width: i32, height: i32 },
    /// Dragging a handle of the selection.
    Resize { handle: ResizeHandle, start_rect: RectPx, start_point: Point },
    /// Dragging a handle of the boxed annotation at `index`.
    ResizeAnnotation { index: usize, handle: ResizeHandle, start_rect: RectPx, start_point: Point },
    /// Spanning a new selection from `start`.
    NewSelection { start: Point },
    DrawRect { start: Point, current: Point },
    DrawEllipse { start: Point, current: Point },
    DrawLine { start: Point, current: Point, arrow: bool },
    DrawMarker { start: Point, current: Point },
    DrawText { start: Point, current: Point },
    DrawPixelate { start: Point, current: Point },
    DrawBlur { start: Point, current: Point },
    MoveLineEndpoint { index: usize, endpoint: LineEndpoint },
    MoveMarkerEndpoint { index: usize, endpoint: LineEndpoint },
    /// Moving the annotation at `index`; `last_point` is where the pointer was.
    MoveAnnotation { index: usize, last_point: Point },
}

/// The toolbar element under the pointer.
#[derive(Clone, Copy, Debug, PartialEq, Eq, Structural)]
pub enum ToolbarHit {
    Select,
    Rect,
    Ellipse,
    Line,
    Arrow,
    Marker,
    Text,
    Pixelate,
    Blur,
    Copy,
    Save,
    CopyAndSave,
    Pin,
    Panel,
}

/// A handle of the selected annotation under the pointer.
#[derive(Clone, Copy, Debug, PartialEq, Eq, Structural)]
pub enum AnnotationHandleHit {
    Resize { index: usize, bounds: RectPx, handle: ResizeHandle },
    LineEndpoint { index: usize, endpoint: LineEndpoint },
    MarkerEndpoint { index: usize, endpoint: LineEndpoint },
}

/// Everything the region editor knows while it is open.
pub struct EditorState {
    /// The desktop the editor covers.
    pub virtual_rect: RectPx,
    /// The captured area.
    pub selection: RectPx,
    pub keybindings: EditorKeybindings,
    pub text_commit_feedback_color: [u8; 3],
    pub radial_animation_duration_ms: u32,
    pub annotation_colors: [[u8; 4]; 8],
    pub drag: Option<Drag>,
    pub tool: Tool,
    /// Annotations, oldest first.
    pub annotations: Vec<Annotation>,
    /// Undone annotations; the last one is redone first.
    pub redo: Vec<Annotation>,
    pub selected_annotation: Option<usize>,
    pub text_commit_feedback: Option<usize>,
    pub editing_text: Option<usize>,
    pub toolbar_hover: Option<ToolbarHit>,
    pub toolbar_pressed: Option<ToolbarHit>,
    pub stroke_color_idx: usize,
    pub stroke_thickness_idx: usize,
    pub output_action: Option<EditorOutputAction>,
    pub done: bool,
    pub canceled: bool,
    /// Whether the picture of the selection taken for drawing is current.
    pub snapshot_valid: bool,
}

/// The content of an [`EditorState`], with annotations by their content.
pub struct EditorView {
    pub virtual_rect: RectPx,
    pub selection: RectPx,
    pub keybindings: EditorKeybindings,
    pub text_commit_feedback_color: [u8; 3],
    pub radial_animation_duration_ms: u32,
    pub annotation_colors: [[u8; 4]; 8],
    pub drag: Option<Drag>,
    pub tool: Tool,
    pub annotations: Seq<AnnView>,
    pub redo: Seq<AnnView>,
    pub selected_annotation: Option<usize>,
    pub text_commit_feedback: Option<usize>,
    pub editing_text: Option<usize>,
    pub toolbar_hover: Option<ToolbarHit>,
    pub toolbar_pressed: Option<ToolbarHit>,
    pub stroke_color_idx: usize,
    pub stroke_thickness_idx: usize,
    pub output_action: Option<EditorOutputAction>,
    pub done: bool,
    pub canceled: bool,
    pub snapshot_valid: bool,
}

pub open spec fn ann_views(v: Seq<Annotation>) -> Seq<AnnView> {
    v.map_values(|a: Annotation| a@)
}

impl View for EditorState {
    type V = EditorView;

    open spec fn view(&self) -> EditorView {
        EditorView {
            virtual_rect: self.virtual_rect,
            selection: self.selection,
            keybindings: self.keybindings,
            text_commit_feedback_color: self.text_commit_feedback_color,
            radial_animation_duration_ms: self.radial_animation_duration_ms,
            annotation_colors: self.annotation_colors,
            drag: self.drag,
            tool: self.tool,
            annotations: ann_views(self.annotations@),
            redo: ann_views(self.redo@),
            selected_annotation: self.selected_annotation,
            text_commit_feedback: self.text_commit_feedback,
            editing_text: self.editing_text,
            toolbar_hover: self.toolbar_hover,
            toolbar_pressed: self.toolbar_pressed,
            stroke_color_idx: self.stroke_color_idx,
            stroke_thickness_idx: self.stroke_thickness_idx,
            output_action: self.output_action,
            done: self.done,
            canceled: self.canceled,
            snapshot_valid: self.snapshot_valid,
        }
    }
}

pub open spec fn anns_ok(s: Seq<AnnView>) -> bool {
    forall|i: int| 0 <= i < s.len() ==> #[trigger] ann_ok(s[i])
}

/// The points a drag holds are screen points (the corner an equal-axes drag
/// reaches may lie further off).
pub open spec fn drag_ok(d: Option<Drag>, virtual_rect: RectPx) -> bool {
    match d {
        None => true,
        Some(Drag::Move { offset_x, offset_y, width, height }) => {
            &&& -0x2000_0000 <= offset_x <= 0x2000_0000
            &&& -0x2000_0000 <= offset_y <= 0x2000_0000
            &&& 0 <= width <= virtual_rect.right - virtual_rect.left
            &&& 0 <= height <= virtual_rect.bottom - virtual_rect.top
        },
        Some(Drag::Resize { start_rect, start_point, .. }) => {
            &&& box_ok(start_rect)
            &&& rect_within(start_rect, virtual_rect)
            &&& point_ok(start_point)
        },
        Some(Drag::ResizeAnnotation { start_rect, start_point, .. }) => box_ok(start_rect) && point_ok(
            start_point,
        ),
        Some(Drag::NewSelection { start }) => point_ok(start),
        Some(Drag::DrawRect { start, current }) => point_ok(start) && loose_point_ok(current),
        Some(Drag::DrawEllipse { start, current }) => point_ok(start) && loose_point_ok(current),
        Some(Drag::DrawLine { start, current, .. }) => point_ok(start) && point_ok(current),
        Some(Drag::DrawMarker { start, current }) => point_ok(start) && point_ok(current),
        Some(Drag::DrawText { start, current }) => point_ok(start) && loose_point_ok(current),
        Some(Drag::DrawPixelate { start, current }) => point_ok(start) && loose_point_ok(current),
        Some(Drag::DrawBlur { start, current }) => point_ok(start) && loose_point_ok(current),
        Some(Drag::MoveLineEndpoint { .. }) => true,
        Some(Drag::MoveMarkerEndpoint { .. }) => true,
        Some(Drag::MoveAnnotation { last_point, .. }) => point_ok(last_point),
    }
}

/// The invariant of the editor state.
pub open spec fn editor_wf(s: EditorView) -> bool {
    &&& box_ok(s.virtual_rect)
    &&& s.virtual_rect.right - s.virtual_rect.left >= MIN_SELECTION
    &&& s.virtual_rect.bottom - s.virtual_rect.top >= MIN_SELECTION
    &&& rect_normalized(s.selection)
    &&& rect_within(s.selection, s.virtual_rect)
    &&& s.stroke_color_idx < 8
    &&& s.stroke_thickness_idx < THICKNESS_STEP_COUNT
    &&& anns_ok(s.annotations)
    &&& anns_ok(s.redo)
    &&& drag_ok(s.drag, s.virtual_rect)
}

/// `selection` clamped into `virtual_rect`, as the editor opens with it.
pub open spec fn spec_initial_selection(initial: RectPx, virtual_rect: RectPx) -> RectPx {
    crate::annotation::spec_clamp_rect(initial, virtual_rect)
}

impl EditorState {
    pub open spec fn wf(&self) -> bool {
        editor_wf(self@)
    }

    /// A fresh editor over `virtual_rect` with `initial` (clamped into it) selected,
    /// the select tool, no annotations, the first colour and the second thickness.
    pub fn new(
        initial: RectPx,
        virtual_rect: RectPx,
        keybindings: EditorKeybindings,
        text_commit_feedback_color: [u8; 3],
        radial_menu_animation_speed: RadialMenuAnimationSpeed,
        annotation_palette: [[u8; 4]; 8],
    ) -> (s: Self)
        requires
            box_ok(virtual_rect),
            virtual_rect.right - virtual_rect.left >= MIN_SELECTION,
            virtual_rect.bottom - virtual_rect.top >= MIN_SELECTION,
        ensures
            s.wf(),
            s@.virtual_rect == virtual_rect,
            s@.selection == spec_initial_selection(initial, virtual_rect),
            s@.keybindings == keybindings,
            s@.text_commit_feedback_color == text_commit_feedback_color,
            s@.radial_animation_duration_ms == spec_duration_ms(radial_menu_animation_speed),
            s@.annotation_colors == annotation_palette,
            s@.drag is None,
            s@.tool == Tool::Select,
            s@.annotations.len() == 0,
            s@.redo.len() == 0,
            s@.selected_annotation is None,
            s@.text_commit_feedback is None,
            s@.editing_text is None,
            s@.toolbar_hover is None,
            s@.toolbar_pressed is None,
            s@.stroke_color_idx == DEFAULT_COLOR_INDEX,
            s@.stroke_thickness_idx == DEFAULT_THICKNESS_INDEX,
            s@.output_action is None,
            !s@.done,
            !s@.canceled,
            !s@.snapshot_valid,
    {
        let selection = crate::annotation::clamp_rect(initial, virtual_rect);
        let s = EditorState {
            virtual_rect,
            selection,
            keybindings,
            text_commit_feedback_color,
            radial_animation_duration_ms: radial_menu_animation_speed.duration_ms(),
            annotation_colors: annotation_palette,
            drag: None,
            tool: Tool::Select,
            annotations: Vec::new(),
            redo: Vec::new(),
            selected_annotation: None,
            text_commit_feedback: None,
            editing_text: None,
            toolbar_hover: None,
            toolbar_pressed: None,
            stroke_color_idx: DEFAULT_COLOR_INDEX,
            stroke_thickness_idx: DEFAULT_THICKNESS_INDEX,
            output_action: None,
            done: false,
            canceled: false,
            snapshot_valid: false,
        };
        assert(s@.annotations =~= Seq::<AnnView>::empty());
        assert(s@.redo =~= Seq::<AnnView>::empty());
        s
    }

    /// Opens the editor over the desktop `virtual_rect`: an error when the
    /// desktop has no width or height, and a selection too small to edit when
    /// it is narrower or lower than `MIN_SELECTION`; otherwise the editor
    /// [`EditorState::new`] makes.
    pub fn open(
        initial: RectPx,
        virtual_rect: RectPx,
        keybindings: EditorKeybindings,
        text_commit_feedback_color: [u8; 3],
        radial_menu_animation_speed: RadialMenuAnimationSpeed,
        annotation_palette: [[u8; 4]; 8],
    ) -> (r: Result<Self, EditError>)
        requires
            rect_ok(virtual_rect),
        ensures
            (virtual_rect.right - virtual_rect.left <= 0 || virtual_rect.bottom - virtual_rect.top <= 0) <==> r
                == Err::<Self, EditError>(EditError::InvalidDesktop),
            (0 < virtual_rect.right - virtual_rect.left && 0 < virtual_rect.bottom - virtual_rect.top && (
            virtual_rect.right - virtual_rect.left < MIN_SELECTION || virtual_rect.bottom - virtual_rect.top
                < MIN_SELECTION)) <==> r == Err::<Self, EditError>(EditError::SelectionTooSmall),
            r matches Ok(s) ==> {
                &&& s.wf()
                &&& s@.virtual_rect == virtual_rect
                &&& s@.selection == spec_initial_selection(initial, virtual_rect)
                &&& s@.keybindings == keybindings
                &&& s@.text_commit_feedback_color == text_commit_feedback_color
                &&& s@.radial_animation_duration_ms == spec_duration_ms(radial_menu_animation_speed)
                &&& s@.annotation_colors == annotation_palette
                &&& s@.drag is None
                &&& s@.tool == Tool::Select
                &&& s@.annotations.len() == 0
                &&& s@.redo.len() == 0
                &&& s@.selected_annotation is None
                &&& s@.text_commit_feedback is None
                &&& s@.editing_text is None
                &&& s@.toolbar_hover is None
                &&& s@.toolbar_pressed is None
                &&& s@.stroke_color_idx == DEFAULT_COLOR_INDEX
                &&& s@.stroke_thickness_idx == DEFAULT_THICKNESS_INDEX
                &&& s@.output_action is None
                &&& !s@.done
                &&& !s@.canceled
                &&& !s@.snapshot_valid
            },
    {
        let w = virtual_rect.right - virtual_rect.left;
        let h = virtual_rect.bottom - virtual_rect.top;
        if w <= 0 || h <= 0 {
            return Err(EditError::InvalidDesktop);
        }
        if w < MIN_SELECTION || h < MIN_SELECTION {
            return Err(EditError::SelectionTooSmall);
        }
        Ok(
            Self::new(
                initial,
                virtual_rect,
                keybindings,
                text_commit_feedback_color,
                radial_menu_animation_speed,
                annotation_palette,
            ),
        )
    }

    /// The colour new strokes get.
    pub fn stroke_color(&self) -> (c: [u8; 4])
        requires
            self.wf(),
        ensures
            c == self.annotation_colors@[self.stroke_color_idx as int],
    {
        self.annotation_colors[self.stroke_color_idx]
    }

    /// The thickness new strokes get.
    pub fn stroke_thickness(&self) -> (t: i32)
        requires
            self.wf(),
        ensures
            t == spec_thickness_step(self.stroke_thickness_idx as int),
    {
        thickness_step(self.stroke_thickness_idx)
    }

    /// The stroke colour made translucent for the highlighter.
    pub fn marker_color(&self) -> (c: [u8; 4])
        requires
            self.wf(),
        ensures
            c@ == seq![
                self.annotation_colors@[self.stroke_color_idx as int]@[0],
                self.annotation_colors@[self.stroke_color_idx as int]@[1],
                self.annotation_colors@[self.stroke_color_idx as int]@[2],
                MARKER_ALPHA,
            ],
    {
        let base = self.stroke_color();
        let c = [base[0], base[1], base[2], MARKER_ALPHA];
        assert(c@ =~= seq![base@[0], base@[1], base@[2], MARKER_ALPHA]);
        c
    }

    /// Highlighter thickness: three times the stroke thickness, at least 8.
    pub fn marker_thickness(&self) -> (t: i32)
        requires
            self.wf(),
        ensures
            t == spec_marker_thickness(self.stroke_thickness_idx as int),
    {
        let scaled = self.stroke_thickness() * MARKER_THICKNESS_SCALE;
        if scaled >= MARKER_MIN_THICKNESS {
            scaled
        } else {
            MARKER_MIN_THICKNESS
        }
    }

    /// Block size of new pixelated areas.
    pub fn pixelate_block_size(&self) -> (b: i32)
        requires
            self.wf(),
        ensures
            b == spec_pixelate_step(self.stroke_thickness_idx as int),
    {
        pixelate_step(self.stroke_thickness_idx)
    }

    /// Radius of new blurred areas.
    pub fn blur_radius(&self) -> (r: i32)
        requires
            self.wf(),
        ensures
            r == spec_blur_step(self.stroke_thickness_idx as int),
    {
        blur_step(self.stroke_thickness_idx)
    }

    /// Selects palette entry `idx`; false, and nothing changed, when `idx` is
    /// out of the palette or already selected.
    pub fn set_stroke_color(&mut self, idx: usize) -> (changed: bool)
        requires
            old(self).wf(),
        ensures
            final(self).wf(),
            (final(self)@, changed) == spec_set_stroke_color(old(self)@, idx),
    {
        if idx >= 8 || self.stroke_color_idx == idx {
            return false;
        }
        self.stroke_color_idx = idx;
        true
    }

    /// Moves the thickness step by `delta`, staying within the steps; false
    /// when the step stays the same.
    pub fn adjust_stroke_thickness(&mut self, delta: i32) -> (changed: bool)
        requires
            old(self).wf(),
            old(self).stroke_thickness_idx + delta <= i32::MAX,
        ensures
            final(self).wf(),
            (final(self)@, changed) == spec_adjust_stroke_thickness(old(self)@, delta as int),
    {
        let current = self.stroke_thickness_idx as i32;
        let next = clamp_i32(current + delta, 0, THICKNESS_STEP_COUNT as i32 - 1);
        if next == current {
            return false;
        }
        self.stroke_thickness_idx = next as usize;
        true
    }
}

/// Selecting palette entry `idx`, when it exists and is not selected yet.
pub open spec fn spec_set_stroke_color(s: EditorView, idx: usize) -> (EditorView, bool) {
    if idx < 8 && idx != s.stroke_color_idx {
        (EditorView { stroke_color_idx: idx, ..s }, true)
    } else {
        (s, false)
    }
}

/// Moving the thickness step by `delta`, kept within the steps.
pub open spec fn spec_adjust_stroke_thickness(s: EditorView, delta: int) -> (EditorView, bool) {
    let next = spec_clamp(s.stroke_thickness_idx + delta, 0, THICKNESS_STEP_COUNT - 1);
    if next != s.stroke_thickness_idx {
        (EditorView { stroke_thickness_idx: next as usize, ..s }, true)
    } else {
        (s, false)
    }
}

pub open spec fn spec_marker_thickness(i: int) -> i32 {
    if spec_thickness_step(i) * MARKER_THICKNESS_SCALE >= MARKER_MIN_THICKNESS {
        (spec_thickness_step(i) * MARKER_THICKNESS_SCALE) as i32
    } else {
        MARKER_MIN_THICKNESS
    }
}

fn thickness_step(i: usize) -> (t: i32)
    ensures
        t == spec_thickness_step(i as int),
{
    if i == 0 {
        2
    } else if i == 1 {
        4
    } else if i == 2 {
        6
    } else if i == 3 {
        8
    } else {
        12
    }
}

fn pixelate_step(i: usize) -> (t: i32)
    ensures
        t == spec_pixelate_step(i as int),
{
    if i == 0 {
        4
    } else if i == 1 {
        8
    } else if i == 2 {
        12
    } else if i == 3 {
        16
    } else {
        24
    }
}

fn blur_step(i: usize) -> (t: i32)
    ensures
        t == spec_blur_step(i as int),
{
    if i == 0 {
        1
    } else if i == 1 {
        2
    } else if i == 2 {
        3
    } else if i == 3 {
        4
    } else {
        6
    }
}


/// An index into the annotations after the one at `idx` was removed: gone
/// when it pointed at `idx`, one less when it pointed past it.
pub open spec fn shift_after_remove(o: Option<usize>, idx: usize) -> Option<usize> {
    match o {
        Some(x) => if x == idx {
            None
        } else if x > idx {
            Some((x - 1) as usize)
        } else {
            Some(x)
        },
        None => None,
    }
}

fn shift_index(o: Option<usize>, idx: usize) -> (r: Option<usize>)
    ensures
        r == shift_after_remove(o, idx),
{
    match o {
        Some(x) => if x == idx {
            None
        } else if x > idx {
            Some(x - 1)
        } else {
            Some(x)
        },
        None => None,
    }
}

/// Selecting `next`: a new selection drops every annotation, the redo
/// history, the annotation selection, text editing and the snapshot.
pub open spec fn spec_set_selection(s: EditorView, next: RectPx) -> (EditorView, bool) {
    if s.selection == next {
        (s, false)
    } else {
        (
            EditorView {
                selection: next,
                snapshot_valid: false,
                selected_annotation: None,
                text_commit_feedback: None,
                editing_text: None,
                annotations: Seq::empty(),
                redo: Seq::empty(),
                ..s
            },
            true,
        )
    }
}

/// Undo: the newest annotation moves onto the redo history.
pub open spec fn spec_undo(s: EditorView) -> (EditorView, bool) {
    if s.annotations.len() == 0 {
        (s, false)
    } else {
        (
            EditorView {
                annotations: s.annotations.drop_last(),
                redo: s.redo.push(s.annotations.last()),
                selected_annotation: None,
                editing_text: None,
                ..s
            },
            true,
        )
    }
}

/// Redo: the newest undone annotation comes back.
pub open spec fn spec_redo(s: EditorView) -> (EditorView, bool) {
    if s.redo.len() == 0 {
        (s, false)
    } else {
        (
            EditorView {
                annotations: s.annotations.push(s.redo.last()),
                redo: s.redo.drop_last(),
                selected_annotation: None,
                editing_text: None,
                ..s
            },
            true,
        )
    }
}

/// Removing the annotation at `idx` (nothing when there is none) clears the
/// redo history and keeps the other indices pointing at the same annotations.
pub open spec fn spec_remove_annotation_at(s: EditorView, idx: usize) -> EditorView {
    if idx >= s.annotations.len() {
        s
    } else {
        EditorView {
            annotations: s.annotations.remove(idx as int),
            redo: Seq::empty(),
            selected_annotation: shift_after_remove(s.selected_annotation, idx),
            text_commit_feedback: shift_after_remove(s.text_commit_feedback, idx),
            editing_text: shift_after_remove(s.editing_text, idx),
            ..s
        }
    }
}

/// Deleting the selected annotation.
pub open spec fn spec_delete_selected(s: EditorView) -> (EditorView, bool) {
    match s.selected_annotation {
        None => (s, false),
        Some(idx) => if idx >= s.annotations.len() {
            (EditorView { selected_annotation: None, ..s }, false)
        } else {
            (spec_remove_annotation_at(s, idx), true)
        },
    }
}

/// Whether the annotation is a text box whose text is blank.
pub open spec fn is_blank_text(a: AnnView) -> bool {
    a matches AnnView::Text { text, .. } && crate::text::spec_trim(text).len() == 0
}

/// Ending text editing: a blank text box is removed, any other annotation
/// being edited becomes the selected one and is returned.
#[verifier::opaque]
pub open spec fn spec_finish_text_edit(s: EditorView) -> (EditorView, Option<usize>) {
    match s.editing_text {
        None => (s, None),
        Some(idx) => {
            let s1 = EditorView { editing_text: None, ..s };
            if idx >= s.annotations.len() {
                (s1, None)
            } else if is_blank_text(s.annotations[idx as int]) {
                (spec_remove_annotation_at(s1, idx), None)
            } else {
                (EditorView { selected_annotation: Some(idx), ..s1 }, Some(idx))
            }
        },
    }
}

proof fn lemma_views_push(v: Seq<Annotation>, a: Annotation)
    ensures
        ann_views(v.push(a)) == ann_views(v).push(a@),
{
    assert(ann_views(v.push(a)) =~= ann_views(v).push(a@));
}

proof fn lemma_views_drop_last(v: Seq<Annotation>)
    requires
        v.len() > 0,
    ensures
        ann_views(v.drop_last()) == ann_views(v).drop_last(),
        ann_views(v).last() == v.last()@,
{
    assert(ann_views(v.drop_last()) =~= ann_views(v).drop_last());
}

proof fn lemma_views_remove(v: Seq<Annotation>, i: int)
    requires
        0 <= i < v.len(),
    ensures
        ann_views(v.remove(i)) == ann_views(v).remove(i),
{
    assert(ann_views(v.remove(i)) =~= ann_views(v).remove(i));
}

proof fn lemma_views_update(v: Seq<Annotation>, i: int, a: Annotation)
    requires
        0 <= i < v.len(),
    ensures
        ann_views(v.update(i, a)) == ann_views(v).update(i, a@),
{
    assert(ann_views(v.update(i, a)) =~= ann_views(v).update(i, a@));
}

impl EditorState {
    /// Makes `next` the selection; false, and nothing changed, when it already is.
    pub fn set_selection(&mut self, next: RectPx) -> (changed: bool)
        requires
            old(self).wf(),
            rect_normalized(next),
            rect_within(next, old(self).virtual_rect),
        ensures
            final(self).wf(),
            (final(self)@, changed) == spec_set_selection(old(self)@, next),
    {
        if !crate::geometry::rect_changed(self.selection, next) {
            return false;
        }
        self.selection = next;
        self.snapshot_valid = false;
        self.selected_annotation = None;
        self.text_commit_feedback = None;
        self.editing_text = None;
        self.annotations.clear();
        self.redo.clear();
        assert(self@.annotations =~= Seq::<AnnView>::empty());
        assert(self@.redo =~= Seq::<AnnView>::empty());
        true
    }

    /// Moves the newest annotation onto the redo history.
    pub fn undo(&mut self) -> (changed: bool)
        requires
            old(self).wf(),
        ensures
            final(self).wf(),
            (final(self)@, changed) == spec_undo(old(self)@),
    {
        match self.annotations.pop() {
            None => false,
            Some(last) => {
                proof {
                    lemma_views_drop_last(old(self).annotations@);
                    lemma_views_push(old(self).redo@, last);
                    assert(old(self).annotations@.drop_last() =~= self.annotations@);
                }
                self.redo.push(last);
                self.selected_annotation = None;
                self.editing_text = None;
                true
            },
        }
    }

    /// Brings back the newest undone annotation.
    pub fn redo(&mut self) -> (changed: bool)
        requires
            old(self).wf(),
        ensures
            final(self).wf(),
            (final(self)@, changed) == spec_redo(old(self)@),
    {
        match self.redo.pop() {
            None => false,
            Some(next) => {
                proof {
                    lemma_views_drop_last(old(self).redo@);
                    lemma_views_push(old(self).annotations@, next);
                    assert(old(self).redo@.drop_last() =~= self.redo@);
                }
                self.annotations.push(next);
                self.selected_annotation = None;
                self.editing_text = None;
                true
            },
        }
    }

    /// Ends the current drag.
    pub fn clear_drag_state(&mut self)
        requires
            old(self).wf(),
        ensures
            final(self).wf(),
            final(self)@ == (EditorView { drag: None, ..old(self)@ }),
    {
        self.drag = None;
    }

    /// Removes the annotation at `idx`, if there is one.
    pub fn remove_annotation_at(&mut self, idx: usize)
        requires
            old(self).wf(),
        ensures
            final(self).wf(),
            final(self)@ == spec_remove_annotation_at(old(self)@, idx),
    {
        if idx >= self.annotations.len() {
            return;
        }
        self.annotations.remove(idx);
        proof {
            lemma_views_remove(old(self).annotations@, idx as int);
        }
        self.redo.clear();
        self.selected_annotation = shift_index(self.selected_annotation, idx);
        self.text_commit_feedback = shift_index(self.text_commit_feedback, idx);
        self.editing_text = shift_index(self.editing_text, idx);
        assert(self@.redo =~= Seq::<AnnView>::empty());
        assert(anns_ok(self@.annotations)) by {
            assert forall|i: int| 0 <= i < self@.annotations.len() implies #[trigger] ann_ok(self@.annotations[i]) by {
                if i < idx {
                    assert(self@.annotations[i] == old(self)@.annotations[i]);
                } else {
                    assert(self@.annotations[i] == old(self)@.annotations[i + 1]);
                }
            }
        }
    }

    /// Removes the selected annotation; false when none is selected.
    pub fn delete_selected_annotation(&mut self) -> (changed: bool)
        requires
            old(self).wf(),
        ensures
            final(self).wf(),
            (final(self)@, changed) == spec_delete_selected(old(self)@),
    {
        let idx = match self.selected_annotation {
            None => {
                return false;
            },
            Some(idx) => idx,
        };
        if idx >= self.annotations.len() {
            self.selected_annotation = None;
            return false;
        }
        self.remove_annotation_at(idx);
        true
    }

    /// Ends text editing; returns the index of the text box kept, if any.
    pub fn finish_text_edit(&mut self) -> (kept: Option<usize>)
        requires
            old(self).wf(),
        ensures
            final(self).wf(),
            (final(self)@, kept) == spec_finish_text_edit(old(self)@),
    {
        reveal(spec_finish_text_edit);
        let idx = match self.editing_text {
            None => {
                return None;
            },
            Some(idx) => idx,
        };
        self.editing_text = None;
        if idx >= self.annotations.len() {
            return None;
        }
        let blank = match &self.annotations[idx] {
            Annotation::Text(t) => {
                let chars = crate::text::chars_of(t.text.as_str());
                let trimmed = crate::text::trim_chars(&chars);
                trimmed.len() == 0
            },
            _ => false,
        };
        if blank {
            self.remove_annotation_at(idx);
            None
        } else {
            self.selected_annotation = Some(idx);
            Some(idx)
        }
    }
}


/// Moving the annotation at `index` is defined: its bounds fit in the selection.
pub open spec fn move_pre(s: EditorView, index: usize) -> bool {
    index < s.annotations.len() ==> (spec_annotation_bounds(s.annotations[index as int]) matches Some(b) ==> {
        &&& s.selection.left - b.left <= s.selection.right - b.right
        &&& s.selection.top - b.top <= s.selection.bottom - b.bottom
    })
}

/// Moving the annotation at `index` by `(raw_dx, raw_dy)`, cut short so that
/// its bounds stay inside the selection; nothing when it does not move.
pub open spec fn spec_move_annotation(s: EditorView, index: usize, raw_dx: int, raw_dy: int) -> (EditorView, bool) {
    if index >= s.annotations.len() {
        (s, false)
    } else {
        match spec_annotation_bounds(s.annotations[index as int]) {
            None => (s, false),
            Some(b) => {
                let dx = spec_clamp(raw_dx, s.selection.left - b.left, s.selection.right - b.right);
                let dy = spec_clamp(raw_dy, s.selection.top - b.top, s.selection.bottom - b.bottom);
                if dx == 0 && dy == 0 {
                    (s, false)
                } else {
                    (
                        EditorView {
                            annotations: s.annotations.update(
                                index as int,
                                spec_translate_ann(s.annotations[index as int], dx, dy),
                            ),
                            ..s
                        },
                        true,
                    )
                }
            },
        }
    }
}

/// Resizing the boxed annotation at `index` to `next` (the rectangle the
/// handle drag makes, or its aspect-kept form): refused when `next` is
/// smaller than the minimum or the annotation has no box or already has it;
/// otherwise the drag continues from the same start.
pub open spec fn spec_resize_annotation(
    s: EditorView,
    index: usize,
    handle: ResizeHandle,
    start_rect: RectPx,
    start_point: Point,
    next: RectPx,
) -> (EditorView, bool) {
    if index >= s.annotations.len() {
        (s, false)
    } else if next.right - next.left < MIN_RECT || next.bottom - next.top < MIN_RECT {
        (s, false)
    } else if !(spec_resize_rect(s.annotations[index as int]) matches Some(r) && r != next) {
        (s, false)
    } else {
        (
            EditorView {
                annotations: s.annotations.update(index as int, spec_with_rect(s.annotations[index as int], next)),
                drag: Some(Drag::ResizeAnnotation { index, handle, start_rect, start_point }),
                ..s
            },
            true,
        )
    }
}

/// Moving an end of the line at `index` to `point` clamped into the selection.
pub open spec fn spec_move_line_endpoint(s: EditorView, index: usize, endpoint: LineEndpoint, point: Point) -> (
    EditorView,
    bool,
) {
    if index >= s.annotations.len() {
        (s, false)
    } else {
        match s.annotations[index as int] {
            AnnView::Line { start, end, color, thickness, arrow } => {
                let clamped = crate::geometry::spec_clamp_point(point, s.selection);
                let old_pt = if endpoint == LineEndpoint::Start { start } else { end };
                if old_pt == clamped {
                    (s, false)
                } else {
                    let line = if endpoint == LineEndpoint::Start {
                        AnnView::Line { start: clamped, end, color, thickness, arrow }
                    } else {
                        AnnView::Line { start, end: clamped, color, thickness, arrow }
                    };
                    (
                        EditorView {
                            annotations: s.annotations.update(index as int, line),
                            drag: Some(Drag::MoveLineEndpoint { index, endpoint }),
                            ..s
                        },
                        true,
                    )
                }
            },
            _ => (s, false),
        }
    }
}

/// Moving the first or last point of the marker at `index` to `point`
/// clamped into the selection.
pub open spec fn spec_move_marker_endpoint(s: EditorView, index: usize, endpoint: LineEndpoint, point: Point) -> (
    EditorView,
    bool,
) {
    if index >= s.annotations.len() {
        (s, false)
    } else {
        match s.annotations[index as int] {
            AnnView::Marker { points, color, thickness } => {
                if points.len() == 0 {
                    (s, false)
                } else {
                    let clamped = crate::geometry::spec_clamp_point(point, s.selection);
                    let target = if endpoint == LineEndpoint::Start { 0 } else { points.len() - 1 };
                    if points[target] == clamped {
                        (s, false)
                    } else {
                        (
                            EditorView {
                                annotations: s.annotations.update(
                                    index as int,
                                    AnnView::Marker { points: points.update(target, clamped), color, thickness },
                                ),
                                drag: Some(Drag::MoveMarkerEndpoint { index, endpoint }),
                                ..s
                            },
                            true,
                        )
                    }
                }
            },
            _ => (s, false),
        }
    }
}

proof fn lemma_update_anns_ok(s: Seq<AnnView>, i: int, a: AnnView)
    requires
        anns_ok(s),
        ann_ok(a),
        0 <= i < s.len(),
    ensures
        anns_ok(s.update(i, a)),
{
    assert forall|j: int| 0 <= j < s.update(i, a).len() implies #[trigger] ann_ok(s.update(i, a)[j]) by {
        if j != i {
            assert(s.update(i, a)[j] == s[j]);
        }
    }
}

impl EditorState {
    /// Takes the annotation at `index` out, leaving a stand-in in its place.
    fn take_annotation(&mut self, index: usize) -> (a: Annotation)
        requires
            index < old(self).annotations@.len(),
        ensures
            a == old(self).annotations@[index as int],
            final(self).annotations@ == old(self).annotations@.update(index as int, final(self).annotations@[index as int]),
            final(self).annotations@.len() == old(self).annotations@.len(),
            final(self).redo == old(self).redo,
            final(self)@ == (EditorView { annotations: final(self)@.annotations, ..old(self)@ }),
    {
        let mut a = crate::annotation::placeholder_annotation();
        self.annotations.set_and_swap(index, &mut a);
        a
    }

    /// Moves the annotation at `index`, keeping its bounds in the selection.
    pub fn move_annotation(&mut self, index: usize, raw_dx: i32, raw_dy: i32) -> (changed: bool)
        requires
            old(self).wf(),
            move_pre(old(self)@, index),
        ensures
            final(self).wf(),
            (final(self)@, changed) == spec_move_annotation(old(self)@, index, raw_dx as int, raw_dy as int),
    {
        if index >= self.annotations.len() {
            return false;
        }
        proof {
            assert(ann_ok(self@.annotations[index as int]));
            crate::annotation::lemma_bounds_range(self@.annotations[index as int]);
        }
        let bounds = match annotation_bounds_abs(&self.annotations[index]) {
            None => {
                return false;
            },
            Some(b) => b,
        };
        let dx = clamp_i32(raw_dx, self.selection.left - bounds.left, self.selection.right - bounds.right);
        let dy = clamp_i32(raw_dy, self.selection.top - bounds.top, self.selection.bottom - bounds.bottom);
        if dx == 0 && dy == 0 {
            return false;
        }
        let ghost before = self@;
        let mut a = self.take_annotation(index);
        translate_annotation(&mut a, dx, dy, self.selection);
        self.annotations.set(index, a);
        proof {
            lemma_views_update(old(self).annotations@, index as int, a);
            assert(self.annotations@ =~= old(self).annotations@.update(index as int, a));
            lemma_update_anns_ok(before.annotations, index as int, a@);
        }
        true
    }

    /// Gives the boxed annotation at `index` the box that dragging `handle`
    /// from `start_point` to `current` makes of `start_rect`; when
    /// `preserve_aspect` is set, `aspect_rect` (that box brought to the
    /// proportions of `start_rect`) is used instead.
    pub fn resize_annotation(
        &mut self,
        index: usize,
        handle: ResizeHandle,
        start_rect: RectPx,
        start_point: Point,
        current: Point,
        preserve_aspect: bool,
        aspect_rect: RectPx,
    ) -> (changed: bool)
        requires
            old(self).wf(),
            box_ok(start_rect),
            point_ok(start_point),
            point_ok(current),
            rect_ok(aspect_rect),
            index < old(self)@.annotations.len() ==> crate::annotation::resize_pre(handle, start_rect, old(self).selection),
        ensures
            final(self).wf(),
            (final(self)@, changed) == spec_resize_annotation(
                old(self)@,
                index,
                handle,
                start_rect,
                start_point,
                if preserve_aspect {
                    aspect_rect
                } else {
                    crate::annotation::spec_resize_selection(handle, start_rect, start_point, current, old(self).selection)
                },
            ),
    {
        if index >= self.annotations.len() {
            return false;
        }
        let mut next = crate::annotation::resize_selection(handle, start_rect, start_point, current, self.selection);
        if preserve_aspect {
            next = aspect_rect;
        }
        if next.right - next.left < MIN_RECT || next.bottom - next.top < MIN_RECT {
            return false;
        }
        let ghost before = self@;
        let mut a = self.take_annotation(index);
        let changed = set_annotation_resize_rect(&mut a, next);
        self.annotations.set(index, a);
        proof {
            lemma_views_update(old(self).annotations@, index as int, a);
            assert(self.annotations@ =~= old(self).annotations@.update(index as int, a));
            assert(ann_ok(before.annotations[index as int]));
            if changed {
                lemma_update_anns_ok(before.annotations, index as int, a@);
            } else {
                assert(self@.annotations =~= before.annotations);
            }
        }
        if !changed {
            return false;
        }
        self.drag = Some(Drag::ResizeAnnotation { index, handle, start_rect, start_point });
        true
    }

    /// Moves an end of the line at `index`; false when there is no line
    /// there or the end is already at the clamped point.
    pub fn move_line_endpoint(&mut self, index: usize, endpoint: LineEndpoint, point: Point) -> (changed: bool)
        requires
            old(self).wf(),
        ensures
            final(self).wf(),
            (final(self)@, changed) == spec_move_line_endpoint(old(self)@, index, endpoint, point),
    {
        if index >= self.annotations.len() {
            return false;
        }
        let is_line = match &self.annotations[index] {
            Annotation::Line(_) => true,
            _ => false,
        };
        if !is_line {
            return false;
        }
        let clamped = crate::geometry::clamp_point(point, self.selection);
        let ghost before = self@;
        let mut a = self.take_annotation(index);
        let mut changed = false;
        match &mut a {
            Annotation::Line(line) => {
                match endpoint {
                    LineEndpoint::Start => {
                        if !(line.start_abs.x == clamped.x && line.start_abs.y == clamped.y) {
                            line.start_abs = clamped;
                            changed = true;
                        }
                    },
                    LineEndpoint::End => {
                        if !(line.end_abs.x == clamped.x && line.end_abs.y == clamped.y) {
                            line.end_abs = clamped;
                            changed = true;
                        }
                    },
                }
            },
            _ => {},
        }
        self.annotations.set(index, a);
        proof {
            lemma_views_update(old(self).annotations@, index as int, a);
            assert(self.annotations@ =~= old(self).annotations@.update(index as int, a));
            assert(ann_ok(before.annotations[index as int]));
            if changed {
                lemma_update_anns_ok(before.annotations, index as int, a@);
            } else {
                assert(self@.annotations =~= before.annotations);
            }
        }
        if !changed {
            return false;
        }
        self.drag = Some(Drag::MoveLineEndpoint { index, endpoint });
        true
    }

    /// Moves the first or last point of the marker at `index`.
    pub fn move_marker_endpoint(&mut self, index: usize, endpoint: LineEndpoint, point: Point) -> (changed: bool)
        requires
            old(self).wf(),
        ensures
            final(self).wf(),
            (final(self)@, changed) == spec_move_marker_endpoint(old(self)@, index, endpoint, point),
    {
        if index >= self.annotations.len() {
            return false;
        }
        let count = match &self.annotations[index] {
            Annotation::Marker(m) => m.points_abs.len(),
            _ => 0,
        };
        if count == 0 {
            return false;
        }
        let clamped = crate::geometry::clamp_point(point, self.selection);
        let target: usize = match endpoint {
            LineEndpoint::Start => 0,
            LineEndpoint::End => count - 1,
        };
        let ghost before = self@;
        let mut a = self.take_annotation(index);
        let mut changed = false;
        match &mut a {
            Annotation::Marker(marker) => {
                let current = marker.points_abs[target];
                if !(current.x == clamped.x && current.y == clamped.y) {
                    marker.points_abs.set(target, clamped);
                    changed = true;
                }
            },
            _ => {},
        }
        self.annotations.set(index, a);
        proof {
            lemma_views_update(old(self).annotations@, index as int, a);
            assert(self.annotations@ =~= old(self).annotations@.update(index as int, a));
            assert(ann_ok(before.annotations[index as int]));
            if changed {
                if let AnnView::Marker { points, .. } = a@ {
                    assert forall|i: int| 0 <= i < points.len() implies #[trigger] point_ok(points[i]) by {
                        if let AnnView::Marker { points: p0, .. } = before.annotations[index as int] {
                            if i != target {
                                assert(points[i] == p0[i]);
                            }
                        }
                    }
                }
                lemma_update_anns_ok(before.annotations, index as int, a@);
            } else {
                assert(self@.annotations =~= before.annotations);
            }
        }
        if !changed {
            return false;
        }
        self.drag = Some(Drag::MoveMarkerEndpoint { index, endpoint });
        true
    }
}


/// The colour of a new highlighter stroke: the stroke colour with the marker alpha.
pub open spec fn spec_marker_color(s: EditorView) -> [u8; 4] {
    let c = s.annotation_colors@[s.stroke_color_idx as int];
    [c@[0], c@[1], c@[2], MARKER_ALPHA]
}

pub open spec fn spec_stroke_color(s: EditorView) -> [u8; 4] {
    s.annotation_colors@[s.stroke_color_idx as int]
}

/// When a pointer move during a drag is defined: the pointer and the
/// points computed for it are screen points, and the drag's own conditions
/// (room for a resized edge, an annotation that fits its selection) hold.
pub open spec fn update_drag_pre(s: EditorView, abs: Point, snapped: Point, aspect_rect: RectPx) -> bool {
    &&& point_ok(abs)
    &&& point_ok(snapped)
    &&& rect_ok(aspect_rect)
    &&& match s.drag {
        Some(Drag::Resize { handle, start_rect, .. }) => crate::annotation::resize_pre(handle, start_rect, s.virtual_rect),
        Some(Drag::ResizeAnnotation { index, handle, start_rect, .. }) => index < s.annotations.len()
            ==> crate::annotation::resize_pre(handle, start_rect, s.selection),
        Some(Drag::MoveAnnotation { index, .. }) => move_pre(s, index),
        _ => true,
    }
}

/// The selection a move drag puts the pointer's corner at, kept on the desktop.
pub open spec fn spec_moved_selection(s: EditorView, abs: Point, offset_x: i32, offset_y: i32, width: i32, height: i32) -> RectPx {
    let w = crate::geometry::spec_max(width as int, MIN_SELECTION as int);
    let h = crate::geometry::spec_max(height as int, MIN_SELECTION as int);
    let left = spec_clamp(abs.x - offset_x, s.virtual_rect.left as int, s.virtual_rect.right - w);
    let top = spec_clamp(abs.y - offset_y, s.virtual_rect.top as int, s.virtual_rect.bottom - h);
    RectPx { left: left as i32, top: top as i32, right: (left + w) as i32, bottom: (top + h) as i32 }
}

/// The drag state with its moving point set to `p`, if `p` differs from the old one.
pub open spec fn with_current(s: EditorView, d: Drag, current: Point, p: Point) -> (EditorView, bool) {
    if current == p {
        (s, false)
    } else {
        (EditorView { drag: Some(d), ..s }, true)
    }
}

/// A pointer move to `abs` during the drag. With shift held, lines and
/// highlighter strokes go to `snapped` (the pointer snapped to an angle
/// step), ellipses become circles, and annotation resizes use
/// `aspect_rect`. The flag says whether anything changed.
#[verifier::opaque]
pub open spec fn spec_update_drag(s: EditorView, abs: Point, shift_down: bool, snapped: Point, aspect_rect: RectPx) -> (
    EditorView,
    bool,
) {
    match s.drag {
        None => (s, false),
        Some(Drag::Move { offset_x, offset_y, width, height }) => spec_set_selection(
            s,
            spec_moved_selection(s, abs, offset_x, offset_y, width, height),
        ),
        Some(Drag::Resize { handle, start_rect, start_point }) => spec_set_selection(
            s,
            crate::annotation::spec_resize_selection(handle, start_rect, start_point, abs, s.virtual_rect),
        ),
        Some(Drag::ResizeAnnotation { index, handle, start_rect, start_point }) => spec_resize_annotation(
            s,
            index,
            handle,
            start_rect,
            start_point,
            if shift_down {
                aspect_rect
            } else {
                crate::annotation::spec_resize_selection(handle, start_rect, start_point, abs, s.selection)
            },
        ),
        Some(Drag::NewSelection { start }) => spec_set_selection(
            s,
            crate::geometry::spec_normalize_abs(start, abs, s.virtual_rect),
        ),
        Some(Drag::DrawRect { start, current }) => with_current(s, Drag::DrawRect { start, current: abs }, current, abs),
        Some(Drag::DrawEllipse { start, current }) => {
            let next = if shift_down {
                crate::annotation::spec_constrain_equal_axes(start, abs, current)
            } else {
                abs
            };
            with_current(s, Drag::DrawEllipse { start, current: next }, current, next)
        },
        Some(Drag::DrawLine { start, current, arrow }) => {
            let next = if shift_down { snapped } else { abs };
            with_current(s, Drag::DrawLine { start, current: next, arrow }, current, next)
        },
        Some(Drag::DrawMarker { start, current }) => {
            let next = if shift_down { snapped } else { abs };
            with_current(s, Drag::DrawMarker { start, current: next }, current, next)
        },
        Some(Drag::DrawText { start, current }) => with_current(s, Drag::DrawText { start, current: abs }, current, abs),
        Some(Drag::DrawPixelate { start, current }) => with_current(
            s,
            Drag::DrawPixelate { start, current: abs },
            current,
            abs,
        ),
        Some(Drag::DrawBlur { start, current }) => with_current(s, Drag::DrawBlur { start, current: abs }, current, abs),
        Some(Drag::MoveLineEndpoint { index, endpoint }) => spec_move_line_endpoint(s, index, endpoint, abs),
        Some(Drag::MoveMarkerEndpoint { index, endpoint }) => spec_move_marker_endpoint(s, index, endpoint, abs),
        Some(Drag::MoveAnnotation { index, last_point }) => {
            let dx = abs.x - last_point.x;
            let dy = abs.y - last_point.y;
            if dx == 0 && dy == 0 {
                (s, false)
            } else {
                let (m, moved) = spec_move_annotation(s, index, dx, dy);
                if !moved {
                    (s, false)
                } else {
                    (EditorView { drag: Some(Drag::MoveAnnotation { index, last_point: abs }), ..m }, true)
                }
            }
        },
    }
}

/// `s` with `a` added as the newest, selected annotation and the redo history cleared.
pub open spec fn with_new_annotation(s: EditorView, a: AnnView) -> EditorView {
    EditorView {
        annotations: s.annotations.push(a),
        redo: Seq::empty(),
        selected_annotation: Some(s.annotations.len() as usize),
        ..s
    }
}

pub open spec fn rect_big_enough(r: RectPx) -> bool {
    r.right - r.left >= MIN_RECT && r.bottom - r.top >= MIN_RECT
}

/// Releasing the pointer ends the drag; a drawing drag that spans enough
/// (boxes at least `MIN_RECT` on each side, strokes of distinct ends) adds
/// its annotation in the current colour and thickness. Selection drags are
/// left in place for the caller; the flag says whether an annotation was added.
#[verifier::opaque]
pub open spec fn spec_finalize_draw(s: EditorView) -> (EditorView, bool) {
    let s0 = EditorView { drag: None, ..s };
    let thickness = spec_thickness_step(s.stroke_thickness_idx as int);
    match s.drag {
        Some(Drag::DrawRect { start, current }) => {
            let r = crate::geometry::spec_normalize_abs(start, current, s.selection);
            if !rect_big_enough(r) {
                (s0, false)
            } else {
                (with_new_annotation(s0, AnnView::Rectangle { rect: r, color: spec_stroke_color(s), thickness }), true)
            }
        },
        Some(Drag::DrawEllipse { start, current }) => {
            let r = crate::geometry::spec_normalize_abs(start, current, s.selection);
            if !rect_big_enough(r) {
                (s0, false)
            } else {
                (with_new_annotation(s0, AnnView::Ellipse { rect: r, color: spec_stroke_color(s), thickness }), true)
            }
        },
        Some(Drag::DrawLine { start, current, arrow }) => {
            if start == current {
                (s0, false)
            } else {
                (
                    with_new_annotation(
                        s0,
                        AnnView::Line { start, end: current, color: spec_stroke_color(s), thickness, arrow },
                    ),
                    true,
                )
            }
        },
        Some(Drag::DrawMarker { start, current }) => {
            if start == current {
                (s0, false)
            } else {
                (
                    with_new_annotation(
                        s0,
                        AnnView::Marker {
                            points: seq![start, current],
                            color: spec_marker_color(s),
                            thickness: spec_marker_thickness(s.stroke_thickness_idx as int),
                        },
                    ),
                    true,
                )
            }
        },
        Some(Drag::DrawText { start, current }) => {
            let r = crate::geometry::spec_normalize_abs(start, current, s.selection);
            if !rect_big_enough(r) {
                (s0, false)
            } else {
                let t = with_new_annotation(
                    s0,
                    AnnView::Text { rect: r, text: Seq::empty(), color: spec_stroke_color(s) },
                );
                (EditorView { editing_text: Some(s.annotations.len() as usize), ..t }, true)
            }
        },
        Some(Drag::DrawPixelate { start, current }) => {
            let r = crate::geometry::spec_normalize_abs(start, current, s.selection);
            if !rect_big_enough(r) {
                (s0, false)
            } else {
                (
                    with_new_annotation(
                        s0,
                        AnnView::Pixelate { rect: r, block: spec_pixelate_step(s.stroke_thickness_idx as int) },
                    ),
                    true,
                )
            }
        },
        Some(Drag::DrawBlur { start, current }) => {
            let r = crate::geometry::spec_normalize_abs(start, current, s.selection);
            if !rect_big_enough(r) {
                (s0, false)
            } else {
                (
                    with_new_annotation(
                        s0,
                        AnnView::Blur { rect: r, radius: spec_blur_step(s.stroke_thickness_idx as int) },
                    ),
                    true,
                )
            }
        },
        Some(Drag::MoveAnnotation { .. }) | Some(Drag::ResizeAnnotation { .. }) | Some(
            Drag::MoveLineEndpoint { .. },
        ) | Some(Drag::MoveMarkerEndpoint { .. }) => (s0, false),
        _ => (s, false),
    }
}


impl EditorState {
    /// Follows a pointer move to `abs` during the current drag; see
    /// [`spec_update_drag`]. Returns whether anything changed.
    pub fn update_drag(&mut self, abs: Point, shift_down: bool, snapped: Point, aspect_rect: RectPx) -> (changed: bool)
        requires
            old(self).wf(),
            update_drag_pre(old(self)@, abs, snapped, aspect_rect),
        ensures
            final(self).wf(),
            (final(self)@, changed) == spec_update_drag(old(self)@, abs, shift_down, snapped, aspect_rect),
            final(self)@.annotations.len() <= old(self)@.annotations.len(),
    {
        let drag = match self.drag {
            None => {
                proof {
                    reveal(spec_update_drag);
                }
                return false;
            },
            Some(d) => d,
        };
        match drag {
            Drag::Move { .. } | Drag::Resize { .. } | Drag::NewSelection { .. } => {
                self.drag_selection(drag, abs, shift_down, snapped, aspect_rect)
            },
            Drag::ResizeAnnotation { .. } | Drag::MoveLineEndpoint { .. } | Drag::MoveMarkerEndpoint { .. }
            | Drag::MoveAnnotation { .. } => self.drag_annotation(drag, abs, shift_down, snapped, aspect_rect),
            _ => self.drag_drawing(drag, abs, shift_down, snapped, aspect_rect),
        }
    }

    #[verifier::rlimit(40)]
    fn drag_selection(&mut self, drag: Drag, abs: Point, shift_down: bool, snapped: Point, aspect_rect: RectPx) -> (changed: bool)
        requires
            old(self).wf(),
            old(self).drag == Some(drag),
            drag is Move || drag is Resize || drag is NewSelection,
            update_drag_pre(old(self)@, abs, snapped, aspect_rect),
        ensures
            final(self).wf(),
            (final(self)@, changed) == spec_update_drag(old(self)@, abs, shift_down, snapped, aspect_rect),
            final(self)@.annotations.len() <= old(self)@.annotations.len(),
    {
        reveal(spec_update_drag);
        match drag {
            Drag::Move { offset_x, offset_y, width, height } => {
                let width = crate::geometry::max_i32(width, MIN_SELECTION);
                let height = crate::geometry::max_i32(height, MIN_SELECTION);
                let left = clamp_i32(abs.x - offset_x, self.virtual_rect.left, self.virtual_rect.right - width);
                let top = clamp_i32(abs.y - offset_y, self.virtual_rect.top, self.virtual_rect.bottom - height);
                self.set_selection(RectPx { left, top, right: left + width, bottom: top + height })
            },
            Drag::Resize { handle, start_rect, start_point } => {
                let next = crate::annotation::resize_selection(handle, start_rect, start_point, abs, self.virtual_rect);
                self.set_selection(next)
            },
            _ => {
                let start = match drag {
                    Drag::NewSelection { start } => start,
                    _ => abs,
                };
                let next = crate::geometry::normalize_abs(start, abs, self.virtual_rect);
                self.set_selection(next)
            },
        }
    }

    #[verifier::rlimit(40)]
    fn drag_annotation(&mut self, drag: Drag, abs: Point, shift_down: bool, snapped: Point, aspect_rect: RectPx) -> (changed: bool)
        requires
            old(self).wf(),
            old(self).drag == Some(drag),
            drag is ResizeAnnotation || drag is MoveLineEndpoint || drag is MoveMarkerEndpoint || drag is MoveAnnotation,
            update_drag_pre(old(self)@, abs, snapped, aspect_rect),
        ensures
            final(self).wf(),
            (final(self)@, changed) == spec_update_drag(old(self)@, abs, shift_down, snapped, aspect_rect),
            final(self)@.annotations.len() <= old(self)@.annotations.len(),
    {
        reveal(spec_update_drag);
        match drag {
            Drag::ResizeAnnotation { index, handle, start_rect, start_point } => {
                self.resize_annotation(index, handle, start_rect, start_point, abs, shift_down, aspect_rect)
            },
            Drag::MoveLineEndpoint { index, endpoint } => self.move_line_endpoint(index, endpoint, abs),
            Drag::MoveMarkerEndpoint { index, endpoint } => self.move_marker_endpoint(index, endpoint, abs),
            Drag::MoveAnnotation { index, last_point } => {
                let dx = abs.x - last_point.x;
                let dy = abs.y - last_point.y;
                if dx == 0 && dy == 0 {
                    return false;
                }
                if !self.move_annotation(index, dx, dy) {
                    return false;
                }
                self.drag = Some(Drag::MoveAnnotation { index, last_point: abs });
                true
            },
            _ => false,
        }
    }

    #[verifier::rlimit(40)]
    fn drag_drawing(&mut self, drag: Drag, abs: Point, shift_down: bool, snapped: Point, aspect_rect: RectPx) -> (changed: bool)
        requires
            old(self).wf(),
            old(self).drag == Some(drag),
            !(drag is Move || drag is Resize || drag is NewSelection || drag is ResizeAnnotation
                || drag is MoveLineEndpoint || drag is MoveMarkerEndpoint || drag is MoveAnnotation),
            update_drag_pre(old(self)@, abs, snapped, aspect_rect),
        ensures
            final(self).wf(),
            (final(self)@, changed) == spec_update_drag(old(self)@, abs, shift_down, snapped, aspect_rect),
            final(self)@.annotations.len() <= old(self)@.annotations.len(),
    {
        reveal(spec_update_drag);
        match drag {
            Drag::DrawRect { start, current } => {
                if current.x == abs.x && current.y == abs.y {
                    return false;
                }
                self.drag = Some(Drag::DrawRect { start, current: abs });
                true
            },
            Drag::DrawEllipse { start, current } => {
                let next = if shift_down {
                    crate::annotation::constrain_equal_axes(start, abs, current)
                } else {
                    abs
                };
                if current.x == next.x && current.y == next.y {
                    return false;
                }
                self.drag = Some(Drag::DrawEllipse { start, current: next });
                true
            },
            Drag::DrawLine { start, current, arrow } => {
                let next = if shift_down {
                    snapped
                } else {
                    abs
                };
                if current.x == next.x && current.y == next.y {
                    return false;
                }
                self.drag = Some(Drag::DrawLine { start, current: next, arrow });
                true
            },
            Drag::DrawMarker { start, current } => {
                let next = if shift_down {
                    snapped
                } else {
                    abs
                };
                if next.x == current.x && next.y == current.y {
                    return false;
                }
                self.drag = Some(Drag::DrawMarker { start, current: next });
                true
            },
            Drag::DrawText { start, current } => {
                if current.x == abs.x && current.y == abs.y {
                    return false;
                }
                self.drag = Some(Drag::DrawText { start, current: abs });
                true
            },
            Drag::DrawPixelate { start, current } => {
                if current.x == abs.x && current.y == abs.y {
                    return false;
                }
                self.drag = Some(Drag::DrawPixelate { start, current: abs });
                true
            },
            Drag::DrawBlur { start, current } => {
                if current.x == abs.x && current.y == abs.y {
                    return false;
                }
                self.drag = Some(Drag::DrawBlur { start, current: abs });
                true
            },
            _ => false,
        }
    }

    /// The rectangle being drawn, clamped to the selection.
    pub fn pending_rect(&self) -> (r: Option<RectPx>)
        requires
            self.wf(),
        ensures
            r == match self.drag {
                Some(Drag::DrawRect { start, current }) => Some(
                    crate::geometry::spec_normalize_abs(start, current, self.selection),
                ),
                _ => None,
            },
    {
        match self.drag {
            Some(Drag::DrawRect { start, current }) => Some(crate::geometry::normalize_abs(start, current, self.selection)),
            _ => None,
        }
    }

    /// The ellipse box being drawn, clamped to the selection.
    pub fn pending_ellipse(&self) -> (r: Option<RectPx>)
        requires
            self.wf(),
        ensures
            r == match self.drag {
                Some(Drag::DrawEllipse { start, current }) => Some(
                    crate::geometry::spec_normalize_abs(start, current, self.selection),
                ),
                _ => None,
            },
    {
        match self.drag {
            Some(Drag::DrawEllipse { start, current }) => Some(
                crate::geometry::normalize_abs(start, current, self.selection),
            ),
            _ => None,
        }
    }

    /// The line being drawn: its ends and whether it has an arrow head.
    pub fn pending_line(&self) -> (r: Option<(Point, Point, bool)>)
        ensures
            r == match self.drag {
                Some(Drag::DrawLine { start, current, arrow }) => Some((start, current, arrow)),
                _ => None,
            },
    {
        match self.drag {
            Some(Drag::DrawLine { start, current, arrow }) => Some((start, current, arrow)),
            _ => None,
        }
    }

    /// The highlighter stroke being drawn, once its ends differ.
    pub fn pending_marker(&self) -> (r: Option<(Point, Point)>)
        ensures
            r == match self.drag {
                Some(Drag::DrawMarker { start, current }) => if start == current {
                    None
                } else {
                    Some((start, current))
                },
                _ => None,
            },
    {
        match self.drag {
            Some(Drag::DrawMarker { start, current }) => {
                if start.x == current.x && start.y == current.y {
                    None
                } else {
                    Some((start, current))
                }
            },
            _ => None,
        }
    }

    /// The text box being drawn, clamped to the selection.
    pub fn pending_text(&self) -> (r: Option<RectPx>)
        requires
            self.wf(),
        ensures
            r == match self.drag {
                Some(Drag::DrawText { start, current }) => Some(
                    crate::geometry::spec_normalize_abs(start, current, self.selection),
                ),
                _ => None,
            },
    {
        match self.drag {
            Some(Drag::DrawText { start, current }) => Some(crate::geometry::normalize_abs(start, current, self.selection)),
            _ => None,
        }
    }

    /// The area being pixelated, clamped to the selection.
    pub fn pending_pixelate(&self) -> (r: Option<RectPx>)
        requires
            self.wf(),
        ensures
            r == match self.drag {
                Some(Drag::DrawPixelate { start, current }) => Some(
                    crate::geometry::spec_normalize_abs(start, current, self.selection),
                ),
                _ => None,
            },
    {
        match self.drag {
            Some(Drag::DrawPixelate { start, current }) => Some(
                crate::geometry::normalize_abs(start, current, self.selection),
            ),
            _ => None,
        }
    }

    /// The area being blurred, clamped to the selection.
    pub fn pending_blur(&self) -> (r: Option<RectPx>)
        requires
            self.wf(),
        ensures
            r == match self.drag {
                Some(Drag::DrawBlur { start, current }) => Some(
                    crate::geometry::spec_normalize_abs(start, current, self.selection),
                ),
                _ => None,
            },
    {
        match self.drag {
            Some(Drag::DrawBlur { start, current }) => Some(crate::geometry::normalize_abs(start, current, self.selection)),
            _ => None,
        }
    }

    /// Adds `a` as the newest, selected annotation and clears the redo history.
    fn push_annotation(&mut self, a: Annotation)
        requires
            old(self).wf(),
            ann_ok(a@),
            old(self).annotations@.len() < usize::MAX,
        ensures
            final(self).wf(),
            final(self)@ == with_new_annotation(old(self)@, a@),
    {
        let ghost before = self@;
        self.annotations.push(a);
        proof {
            lemma_views_push(old(self).annotations@, a);
        }
        self.redo.clear();
        self.selected_annotation = Some(self.annotations.len() - 1);
        assert(self@.redo =~= Seq::<AnnView>::empty());
        assert(anns_ok(self@.annotations)) by {
            assert forall|i: int| 0 <= i < self@.annotations.len() implies #[trigger] ann_ok(self@.annotations[i]) by {
                if i < before.annotations.len() {
                    assert(self@.annotations[i] == before.annotations[i]);
                }
            }
        }
    }

    /// Ends the drag and adds the annotation it drew, if any; see [`spec_finalize_draw`].
    #[verifier::rlimit(40)]
    pub fn finalize_draw(&mut self) -> (added: bool)
        requires
            old(self).wf(),
            old(self).annotations@.len() < usize::MAX,
        ensures
            final(self).wf(),
            (final(self)@, added) == spec_finalize_draw(old(self)@),
    {
        reveal(spec_finalize_draw);
        let stroke_color = self.stroke_color();
        let stroke_thickness = self.stroke_thickness();
        let drag = self.drag;
        self.drag = None;
        let next_index = self.annotations.len();
        assert(self@ == EditorView { drag: None, ..old(self)@ });
        assert(box_ok(self.selection));
        match drag {
            Some(Drag::DrawRect { start, current }) => {
                let rect = crate::geometry::normalize_abs(start, current, self.selection);
                if rect.right - rect.left < MIN_RECT || rect.bottom - rect.top < MIN_RECT {
                    return false;
                }
                self.push_annotation(
                    Annotation::Rectangle(crate::annotation::RectAnn { rect_abs: rect, color: stroke_color, thickness: stroke_thickness }),
                );
                true
            },
            Some(Drag::DrawEllipse { start, current }) => {
                let rect = crate::geometry::normalize_abs(start, current, self.selection);
                if rect.right - rect.left < MIN_RECT || rect.bottom - rect.top < MIN_RECT {
                    return false;
                }
                self.push_annotation(
                    Annotation::Ellipse(crate::annotation::EllipseAnn { rect_abs: rect, color: stroke_color, thickness: stroke_thickness }),
                );
                true
            },
            Some(Drag::DrawLine { start, current, arrow }) => {
                if start.x == current.x && start.y == current.y {
                    return false;
                }
                self.push_annotation(
                    Annotation::Line(
                        crate::annotation::LineAnn {
                            start_abs: start,
                            end_abs: current,
                            color: stroke_color,
                            thickness: stroke_thickness,
                            arrow,
                        },
                    ),
                );
                true
            },
            Some(Drag::DrawMarker { start, current }) => {
                if start.x == current.x && start.y == current.y {
                    return false;
                }
                let marker_color = self.marker_color();
                let marker_thickness = self.marker_thickness();
                let mut points: Vec<Point> = Vec::new();
                points.push(start);
                points.push(current);
                assert(points@ =~= seq![start, current]);
                assert(marker_color == spec_marker_color(old(self)@));
                self.push_annotation(
                    Annotation::Marker(
                        crate::annotation::MarkerAnn { points_abs: points, color: marker_color, thickness: marker_thickness },
                    ),
                );
                true
            },
            Some(Drag::DrawText { start, current }) => {
                let rect = crate::geometry::normalize_abs(start, current, self.selection);
                if rect.right - rect.left < MIN_RECT || rect.bottom - rect.top < MIN_RECT {
                    return false;
                }
                let text = String::new();
                assert(text@ =~= Seq::<char>::empty());
                self.push_annotation(
                    Annotation::Text(crate::annotation::TextAnn { rect_abs: rect, text, color: stroke_color }),
                );
                self.editing_text = Some(next_index);
                true
            },
            Some(Drag::DrawPixelate { start, current }) => {
                let rect = crate::geometry::normalize_abs(start, current, self.selection);
                if rect.right - rect.left < MIN_RECT || rect.bottom - rect.top < MIN_RECT {
                    return false;
                }
                let block = self.pixelate_block_size();
                self.push_annotation(Annotation::Pixelate(crate::annotation::PixelateAnn { rect_abs: rect, block }));
                true
            },
            Some(Drag::DrawBlur { start, current }) => {
                let rect = crate::geometry::normalize_abs(start, current, self.selection);
                if rect.right - rect.left < MIN_RECT || rect.bottom - rect.top < MIN_RECT {
                    return false;
                }
                let radius = self.blur_radius();
                self.push_annotation(Annotation::Blur(crate::annotation::BlurAnn { rect_abs: rect, radius }));
                true
            },
            Some(Drag::MoveAnnotation { .. }) | Some(Drag::ResizeAnnotation { .. }) | Some(
                Drag::MoveLineEndpoint { .. },
            ) | Some(Drag::MoveMarkerEndpoint { .. }) => false,
            other => {
                self.drag = other;
                false
            },
        }
    }
}


/// The box a text needs inside the selection, when its current box is too
/// small: grown to the required size (at most the selection's), then moved
/// back inside the selection. `None` when the box is already big enough.
pub open spec fn spec_text_fit_rect(rect: RectPx, text: Seq<char>, sel: RectPx) -> Option<RectPx> {
    let need = crate::glyph::spec_text_required_size(text);
    let cw = rect.right - rect.left;
    let ch = rect.bottom - rect.top;
    if cw >= need.0 && ch >= need.1 {
        None
    } else {
        let tw = crate::geometry::spec_min(crate::geometry::spec_max(cw, need.0), sel.right - sel.left);
        let th = crate::geometry::spec_min(crate::geometry::spec_max(ch, need.1), sel.bottom - sel.top);
        let left0 = if rect.left + tw > sel.right { sel.right - tw } else { rect.left as int };
        let top0 = if rect.top + th > sel.bottom { sel.bottom - th } else { rect.top as int };
        let left = spec_clamp(left0, sel.left as int, sel.right - tw);
        let top = spec_clamp(top0, sel.top as int, sel.bottom - th);
        Some(RectPx { left: left as i32, top: top as i32, right: (left + tw) as i32, bottom: (top + th) as i32 })
    }
}

/// Growing the text box at `idx` to fit its text.
pub open spec fn spec_ensure_text_bounds(s: EditorView, idx: usize) -> EditorView {
    if idx < s.annotations.len() {
        match s.annotations[idx as int] {
            AnnView::Text { rect, text, color } => match spec_text_fit_rect(rect, text, s.selection) {
                Some(r) => EditorView { annotations: s.annotations.update(idx as int, AnnView::Text { rect: r, text, color }), ..s },
                None => s,
            },
            _ => s,
        }
    } else {
        s
    }
}

/// The text box being edited has room for one more character.
pub open spec fn typing_room(s: EditorView) -> bool {
    match s.editing_text {
        Some(idx) => idx < s.annotations.len() ==> match s.annotations[idx as int] {
            AnnView::Text { text, .. } => text.len() < crate::glyph::TEXT_CHARS_LIMIT,
            _ => true,
        },
        None => true,
    }
}

/// A character typed while a text box is edited: backspace (8) removes the
/// last character, any other code from 0x20 up (but DEL, 0x7F) that is a
/// character is appended; the box then grows to fit. The flag says whether
/// the text changed.
pub open spec fn spec_type_char(s: EditorView, code: u32) -> (EditorView, bool) {
    match s.editing_text {
        Some(idx) => if idx < s.annotations.len() {
            match s.annotations[idx as int] {
                AnnView::Text { rect, text, color } => if code == 8 {
                    if text.len() > 0 {
                        (
                            spec_ensure_text_bounds(
                                EditorView {
                                    annotations: s.annotations.update(
                                        idx as int,
                                        AnnView::Text { rect, text: text.drop_last(), color },
                                    ),
                                    ..s
                                },
                                idx,
                            ),
                            true,
                        )
                    } else {
                        (s, false)
                    }
                } else if code >= 0x20 && code != 0x7F && crate::text::is_scalar_value(code) {
                    (
                        spec_ensure_text_bounds(
                            EditorView {
                                annotations: s.annotations.update(
                                    idx as int,
                                    AnnView::Text { rect, text: text.push(code as char), color },
                                ),
                                ..s
                            },
                            idx,
                        ),
                        true,
                    )
                } else {
                    (s, false)
                },
                _ => (s, false),
            }
        } else {
            (s, false)
        },
        None => (s, false),
    }
}

impl EditorState {
    /// Grows the text box at `idx` so that its text fits, keeping it in the selection.
    pub fn ensure_text_bounds(&mut self, idx: usize)
        requires
            old(self).wf(),
        ensures
            final(self).wf(),
            final(self)@ == spec_ensure_text_bounds(old(self)@, idx),
    {
        if idx >= self.annotations.len() {
            return;
        }
        let (rect, is_text) = match &self.annotations[idx] {
            Annotation::Text(t) => (t.rect_abs, true),
            _ => (RectPx { left: 0, top: 0, right: 0, bottom: 0 }, false),
        };
        if !is_text {
            return;
        }
        proof {
            assert(ann_ok(self@.annotations[idx as int]));
        }
        let (need_w, need_h) = match &self.annotations[idx] {
            Annotation::Text(t) => crate::glyph::text_required_size(t.text.as_str()),
            _ => (0, 0),
        };
        let current_w = rect.right - rect.left;
        let current_h = rect.bottom - rect.top;
        if current_w >= need_w && current_h >= need_h {
            return;
        }
        let sel = self.selection;
        let target_w = crate::geometry::min_i32(crate::geometry::max_i32(current_w, need_w), sel.right - sel.left);
        let target_h = crate::geometry::min_i32(crate::geometry::max_i32(current_h, need_h), sel.bottom - sel.top);
        let mut left = rect.left;
        let mut top = rect.top;
        if left + target_w > sel.right {
            left = sel.right - target_w;
        }
        if top + target_h > sel.bottom {
            top = sel.bottom - target_h;
        }
        left = clamp_i32(left, sel.left, sel.right - target_w);
        top = clamp_i32(top, sel.top, sel.bottom - target_h);
        let next = RectPx { left, top, right: left + target_w, bottom: top + target_h };
        let ghost before = self@;
        let mut a = self.take_annotation(idx);
        match &mut a {
            Annotation::Text(t) => {
                t.rect_abs = next;
            },
            _ => {},
        }
        self.annotations.set(idx, a);
        proof {
            lemma_views_update(old(self).annotations@, idx as int, a);
            assert(self.annotations@ =~= old(self).annotations@.update(idx as int, a));
            lemma_update_anns_ok(before.annotations, idx as int, a@);
        }
    }

    /// Whether the text box being edited can take another character.
    pub fn has_typing_room(&self) -> (b: bool)
        ensures
            b == typing_room(self@),
    {
        match self.editing_text {
            Some(idx) => {
                if idx < self.annotations.len() {
                    match &self.annotations[idx] {
                        Annotation::Text(t) => t.text.as_str().unicode_len() < crate::glyph::TEXT_CHARS_LIMIT,
                        _ => true,
                    }
                } else {
                    true
                }
            },
            None => true,
        }
    }

    /// Applies a typed character to the text box being edited; see [`spec_type_char`].
    pub fn type_char(&mut self, code: u32) -> (changed: bool)
        requires
            old(self).wf(),
            typing_room(old(self)@),
        ensures
            final(self).wf(),
            (final(self)@, changed) == spec_type_char(old(self)@, code),
    {
        let idx = match self.editing_text {
            None => {
                return false;
            },
            Some(idx) => idx,
        };
        if idx >= self.annotations.len() {
            return false;
        }
        let is_text = match &self.annotations[idx] {
            Annotation::Text(_) => true,
            _ => false,
        };
        if !is_text {
            return false;
        }
        let ch = if code == 8 {
            None
        } else if code >= 0x20 && code != 0x7F {
            crate::text::char_from_code(code)
        } else {
            None
        };
        if code != 8 && ch.is_none() {
            return false;
        }
        let ghost before = self@;
        proof {
            assert(ann_ok(before.annotations[idx as int]));
        }
        let mut a = self.take_annotation(idx);
        let mut changed = false;
        match &mut a {
            Annotation::Text(t) => {
                match ch {
                    Some(c) => {
                        crate::text::push_char(&mut t.text, c);
                        changed = true;
                    },
                    None => {
                        let popped = crate::text::pop_char(&mut t.text);
                        changed = popped.is_some();
                    },
                }
            },
            _ => {},
        }
        self.annotations.set(idx, a);
        proof {
            lemma_views_update(old(self).annotations@, idx as int, a);
            assert(self.annotations@ =~= old(self).annotations@.update(idx as int, a));
            if changed {
                lemma_update_anns_ok(before.annotations, idx as int, a@);
            } else {
                assert(self@.annotations =~= before.annotations);
            }
        }
        if changed {
            self.ensure_text_bounds(idx);
        }
        changed
    }
}


/// What the window has to do after a key press.
#[derive(Clone, Copy, Debug, PartialEq, Eq, Structural)]
pub enum KeyOutcome {
    /// The editor does not use the key.
    Unhandled,
    /// The key was used; nothing to repaint.
    Consumed,
    /// The key changed what is drawn.
    Repaint,
    /// Text editing ended; `kept` is the text box that stays, if any.
    TextFinished { kept: Option<usize> },
    /// Escape while the radial colour menu is shown: close the menu.
    ClosePicker,
    /// Escape: abandon the edit.
    Cancel,
    /// The annotations changed (undo, redo, delete).
    LayersChanged,
    /// The tool changed; `previous` is the tool before.
    ToolChanged { previous: Tool },
}

/// Palette entry chosen by a digit key `1`..`8` (top row or numeric pad).
pub open spec fn spec_color_key(key: u32) -> Option<usize> {
    if 0x31 <= key <= 0x38 {
        Some((key - 0x31) as usize)
    } else if 0x61 <= key <= 0x68 {
        Some((key - 0x61) as usize)
    } else {
        None
    }
}

fn color_key(key: u32) -> (r: Option<usize>)
    ensures
        r == spec_color_key(key),
{
    if 0x31 <= key && key <= 0x38 {
        Some((key - 0x31) as usize)
    } else if 0x61 <= key && key <= 0x68 {
        Some((key - 0x61) as usize)
    } else {
        None
    }
}

/// A line break typed into the text box being edited (shift+Enter).
pub open spec fn spec_insert_newline(s: EditorView) -> (EditorView, bool) {
    match s.editing_text {
        Some(idx) => if idx < s.annotations.len() {
            match s.annotations[idx as int] {
                AnnView::Text { rect, text, color } => (
                    spec_ensure_text_bounds(
                        EditorView {
                            annotations: s.annotations.update(idx as int, AnnView::Text { rect, text: text.push('\n'), color }),
                            ..s
                        },
                        idx,
                    ),
                    true,
                ),
                _ => (s, false),
            }
        } else {
            (s, false)
        },
        None => (s, false),
    }
}

pub open spec fn selection_big_enough(s: EditorView) -> bool {
    s.selection.right - s.selection.left >= MIN_SELECTION && s.selection.bottom - s.selection.top >= MIN_SELECTION
}

/// Keys for the tool shortcuts, and Enter to finish without an output action.
pub open spec fn spec_key_tool(s: EditorView, key: u32, ctrl: bool, shift: bool, alt: bool) -> (EditorView, KeyOutcome) {
    let chord = crate::shortcuts::KeyChord { key, ctrl, shift, alt };
    match crate::keybindings::spec_tool_for_chord(s.keybindings.chords(), chord) {
        Some(t) if t != s.tool => (EditorView { tool: t, drag: None, ..s }, KeyOutcome::ToolChanged { previous: s.tool }),
        _ => if key == crate::shortcuts::VK_RETURN {
            if selection_big_enough(s) {
                (EditorView { output_action: None, done: true, ..s }, KeyOutcome::Consumed)
            } else {
                (s, KeyOutcome::Consumed)
            }
        } else {
            (s, KeyOutcome::Unhandled)
        },
    }
}

/// `[` and `]` change the thickness, digits the colour (without Ctrl or Alt);
/// a key that changes nothing there goes on to the tool shortcuts.
pub open spec fn spec_key_style(s: EditorView, key: u32, ctrl: bool, shift: bool, alt: bool) -> (EditorView, KeyOutcome) {
    let plain = !ctrl && !alt;
    if plain && key == 0xDB && spec_adjust_stroke_thickness(s, -1).1 {
        (spec_adjust_stroke_thickness(s, -1).0, KeyOutcome::Repaint)
    } else if plain && key == 0xDD && spec_adjust_stroke_thickness(s, 1).1 {
        (spec_adjust_stroke_thickness(s, 1).0, KeyOutcome::Repaint)
    } else if plain && spec_color_key(key) is Some && spec_set_stroke_color(s, spec_color_key(key)->0).1 {
        (spec_set_stroke_color(s, spec_color_key(key)->0).0, KeyOutcome::Repaint)
    } else {
        spec_key_tool(s, key, ctrl, shift, alt)
    }
}

/// The editor's shortcuts, in the order they are tried: undo, redo, delete,
/// the output actions (which finish the edit when the selection is big
/// enough), then thickness, colour and tools.
pub open spec fn spec_key_command(s: EditorView, key: u32, ctrl: bool, shift: bool, alt: bool) -> (EditorView, KeyOutcome) {
    let chord = crate::shortcuts::KeyChord { key, ctrl, shift, alt };
    let chords = s.keybindings.chords();
    if chords[12] == chord {
        let (u, c) = spec_undo(s);
        (u, if c { KeyOutcome::LayersChanged } else { KeyOutcome::Consumed })
    } else if chords[13] == chord {
        let (r, c) = spec_redo(s);
        (r, if c { KeyOutcome::LayersChanged } else { KeyOutcome::Consumed })
    } else if chords[14] == chord {
        let (d, c) = spec_delete_selected(s);
        (d, if c { KeyOutcome::LayersChanged } else { KeyOutcome::Consumed })
    } else if crate::keybindings::spec_action_for_chord(chords, chord) is Some {
        if selection_big_enough(s) {
            (
                EditorView {
                    output_action: crate::keybindings::spec_action_for_chord(chords, chord),
                    done: true,
                    ..s
                },
                KeyOutcome::Consumed,
            )
        } else {
            (s, KeyOutcome::Consumed)
        }
    } else {
        spec_key_style(s, key, ctrl, shift, alt)
    }
}

/// Abandoning the edit.
pub open spec fn spec_cancel(s: EditorView) -> EditorView {
    EditorView { canceled: true, done: true, drag: None, ..s }
}

/// A key press. While text is edited only Enter (shift+Enter for a line
/// break) and Escape act; otherwise Escape closes the colour menu or
/// abandons the edit, and the shortcuts apply.
pub open spec fn spec_handle_key(s: EditorView, key: u32, ctrl: bool, shift: bool, alt: bool, picker_shown: bool) -> (
    EditorView,
    KeyOutcome,
) {
    if s.editing_text is Some {
        if key == crate::shortcuts::VK_RETURN && shift {
            let (t, c) = spec_insert_newline(s);
            (t, if c { KeyOutcome::Repaint } else { KeyOutcome::Consumed })
        } else if key == crate::shortcuts::VK_RETURN || key == crate::shortcuts::VK_ESCAPE {
            let (f, kept) = spec_finish_text_edit(s);
            (f, KeyOutcome::TextFinished { kept })
        } else {
            (s, KeyOutcome::Consumed)
        }
    } else if key == crate::shortcuts::VK_ESCAPE && picker_shown {
        (s, KeyOutcome::ClosePicker)
    } else if key == crate::shortcuts::VK_ESCAPE {
        (spec_cancel(s), KeyOutcome::Cancel)
    } else {
        spec_key_command(s, key, ctrl, shift, alt)
    }
}

impl EditorState {
    /// Abandons the edit: the editor closes without output.
    pub fn cancel(&mut self)
        requires
            old(self).wf(),
        ensures
            final(self).wf(),
            final(self)@ == spec_cancel(old(self)@),
    {
        self.canceled = true;
        self.done = true;
        self.drag = None;
    }

    fn insert_newline(&mut self) -> (changed: bool)
        requires
            old(self).wf(),
            typing_room(old(self)@),
        ensures
            final(self).wf(),
            (final(self)@, changed) == spec_insert_newline(old(self)@),
    {
        let idx = match self.editing_text {
            None => {
                return false;
            },
            Some(idx) => idx,
        };
        if idx >= self.annotations.len() {
            return false;
        }
        let is_text = match &self.annotations[idx] {
            Annotation::Text(_) => true,
            _ => false,
        };
        if !is_text {
            return false;
        }
        let ghost before = self@;
        proof {
            assert(ann_ok(before.annotations[idx as int]));
        }
        let mut a = self.take_annotation(idx);
        match &mut a {
            Annotation::Text(t) => {
                crate::text::push_char(&mut t.text, '\n');
            },
            _ => {},
        }
        self.annotations.set(idx, a);
        proof {
            lemma_views_update(old(self).annotations@, idx as int, a);
            assert(self.annotations@ =~= old(self).annotations@.update(idx as int, a));
            lemma_update_anns_ok(before.annotations, idx as int, a@);
        }
        self.ensure_text_bounds(idx);
        true
    }

    fn selection_is_big_enough(&self) -> (b: bool)
        requires
            self.wf(),
        ensures
            b == selection_big_enough(self@),
    {
        self.selection.right - self.selection.left >= MIN_SELECTION && self.selection.bottom - self.selection.top
            >= MIN_SELECTION
    }

    fn key_tool(&mut self, key: u32, ctrl: bool, shift: bool, alt: bool) -> (outcome: KeyOutcome)
        requires
            old(self).wf(),
        ensures
            final(self).wf(),
            (final(self)@, outcome) == spec_key_tool(old(self)@, key, ctrl, shift, alt),
    {
        match self.keybindings.tool_for_key(key, ctrl, shift, alt) {
            Some(tool) => {
                if tool != self.tool {
                    let previous = self.tool;
                    self.tool = tool;
                    self.drag = None;
                    return KeyOutcome::ToolChanged { previous };
                }
            },
            None => {},
        }
        if key == crate::shortcuts::VK_RETURN {
            if self.selection_is_big_enough() {
                self.output_action = None;
                self.done = true;
            }
            return KeyOutcome::Consumed;
        }
        KeyOutcome::Unhandled
    }

    fn key_style(&mut self, key: u32, ctrl: bool, shift: bool, alt: bool) -> (outcome: KeyOutcome)
        requires
            old(self).wf(),
        ensures
            final(self).wf(),
            (final(self)@, outcome) == spec_key_style(old(self)@, key, ctrl, shift, alt),
    {
        if !ctrl && !alt {
            if key == 0xDB && self.adjust_stroke_thickness(-1) {
                return KeyOutcome::Repaint;
            }
            if key == 0xDD && self.adjust_stroke_thickness(1) {
                return KeyOutcome::Repaint;
            }
            match color_key(key) {
                Some(idx) => {
                    if self.set_stroke_color(idx) {
                        return KeyOutcome::Repaint;
                    }
                },
                None => {},
            }
        }
        self.key_tool(key, ctrl, shift, alt)
    }

    fn key_command(&mut self, key: u32, ctrl: bool, shift: bool, alt: bool) -> (outcome: KeyOutcome)
        requires
            old(self).wf(),
        ensures
            final(self).wf(),
            (final(self)@, outcome) == spec_key_command(old(self)@, key, ctrl, shift, alt),
    {
        if self.keybindings.undo.matches(key, ctrl, shift, alt) {
            return if self.undo() {
                KeyOutcome::LayersChanged
            } else {
                KeyOutcome::Consumed
            };
        }
        if self.keybindings.redo.matches(key, ctrl, shift, alt) {
            return if self.redo() {
                KeyOutcome::LayersChanged
            } else {
                KeyOutcome::Consumed
            };
        }
        if self.keybindings.delete_selected.matches(key, ctrl, shift, alt) {
            return if self.delete_selected_annotation() {
                KeyOutcome::LayersChanged
            } else {
                KeyOutcome::Consumed
            };
        }
        match self.keybindings.output_action_for_key(key, ctrl, shift, alt) {
            Some(action) => {
                if self.selection_is_big_enough() {
                    self.output_action = Some(action);
                    self.done = true;
                }
                return KeyOutcome::Consumed;
            },
            None => {},
        }
        self.key_style(key, ctrl, shift, alt)
    }

    /// Handles a key press; see [`spec_handle_key`]. `picker_shown` says
    /// whether the radial colour menu is on screen.
    pub fn handle_key(&mut self, key: u32, ctrl: bool, shift: bool, alt: bool, picker_shown: bool) -> (outcome: KeyOutcome)
        requires
            old(self).wf(),
            typing_room(old(self)@),
        ensures
            final(self).wf(),
            (final(self)@, outcome) == spec_handle_key(old(self)@, key, ctrl, shift, alt, picker_shown),
    {
        if self.editing_text.is_some() {
            if key == crate::shortcuts::VK_RETURN && shift {
                return if self.insert_newline() {
                    KeyOutcome::Repaint
                } else {
                    KeyOutcome::Consumed
                };
            }
            if key == crate::shortcuts::VK_RETURN || key == crate::shortcuts::VK_ESCAPE {
                let kept = self.finish_text_edit();
                return KeyOutcome::TextFinished { kept };
            }
            return KeyOutcome::Consumed;
        }
        if key == crate::shortcuts::VK_ESCAPE {
            if picker_shown {
                return KeyOutcome::ClosePicker;
            }
            self.cancel();
            return KeyOutcome::Cancel;
        }
        self.key_command(key, ctrl, shift, alt)
    }
}


/// `abs` in the client coordinates of the editor window.
pub open spec fn to_client(p: Point, vr: RectPx) -> Point {
    crate::geometry::spec_translate_point(p, -(vr.left as int), -(vr.top as int))
}

/// Whether `client` lies on the handle square centred on the screen point `p`.
pub open spec fn on_point_handle(client: Point, p: Point, vr: RectPx) -> bool {
    crate::geometry::spec_point_in(client, crate::geometry::spec_handle_rect(to_client(p, vr).x as int, to_client(p, vr).y as int))
}

/// The handle of the selected annotation under `client`: a resize handle of
/// its box first, else the end, then the start, of a line or highlighter stroke.
pub open spec fn spec_selected_handle_hit(s: EditorView, client: Point) -> Option<AnnotationHandleHit> {
    match s.selected_annotation {
        None => None,
        Some(idx) => if idx >= s.annotations.len() {
            None
        } else {
            let a = s.annotations[idx as int];
            let vr = s.virtual_rect;
            let resize = match spec_resize_rect(a) {
                Some(b) => match crate::geometry::spec_hit_handle(
                    crate::geometry::spec_translate_rect(b, -(vr.left as int), -(vr.top as int)),
                    client,
                ) {
                    Some(handle) => Some(AnnotationHandleHit::Resize { index: idx, bounds: b, handle }),
                    None => None,
                },
                None => None,
            };
            if resize is Some {
                resize
            } else {
                match a {
                    AnnView::Line { start, end, .. } => if on_point_handle(client, end, vr) {
                        Some(AnnotationHandleHit::LineEndpoint { index: idx, endpoint: LineEndpoint::End })
                    } else if on_point_handle(client, start, vr) {
                        Some(AnnotationHandleHit::LineEndpoint { index: idx, endpoint: LineEndpoint::Start })
                    } else {
                        None
                    },
                    AnnView::Marker { points, .. } => if points.len() == 0 {
                        None
                    } else if on_point_handle(client, points.last(), vr) {
                        Some(AnnotationHandleHit::MarkerEndpoint { index: idx, endpoint: LineEndpoint::End })
                    } else if on_point_handle(client, points[0], vr) {
                        Some(AnnotationHandleHit::MarkerEndpoint { index: idx, endpoint: LineEndpoint::Start })
                    } else {
                        None
                    },
                    _ => None,
                }
            }
        },
    }
}

impl EditorState {
    fn client_point_of(&self, p: Point) -> (r: Point)
        requires
            self.wf(),
            point_ok(p),
        ensures
            r == to_client(p, self.virtual_rect),
            crate::geometry::wide_point_ok(r),
    {
        crate::geometry::to_client_point(p, self.virtual_rect)
    }

    /// The handle of the selected annotation under the client point `client`.
    pub fn selected_annotation_handle_hit(&self, client: Point) -> (h: Option<AnnotationHandleHit>)
        requires
            self.wf(),
        ensures
            h == spec_selected_handle_hit(self@, client),
    {
        let idx = match self.selected_annotation {
            None => {
                return None;
            },
            Some(idx) => idx,
        };
        if idx >= self.annotations.len() {
            return None;
        }
        proof {
            assert(ann_ok(self@.annotations[idx as int]));
        }
        let ann = &self.annotations[idx];
        match crate::annotation::annotation_resize_rect_abs(ann) {
            Some(bounds) => {
                let client_rect = crate::geometry::to_client_rect(bounds, self.virtual_rect);
                match crate::geometry::hit_handle(client_rect, client) {
                    Some(handle) => {
                        return Some(AnnotationHandleHit::Resize { index: idx, bounds, handle });
                    },
                    None => {},
                }
            },
            None => {},
        }
        match ann {
            Annotation::Line(line) => {
                let end = self.client_point_of(line.end_abs);
                if crate::geometry::point_in(client, crate::geometry::handle_rect(end.x, end.y)) {
                    return Some(AnnotationHandleHit::LineEndpoint { index: idx, endpoint: LineEndpoint::End });
                }
                let start = self.client_point_of(line.start_abs);
                if crate::geometry::point_in(client, crate::geometry::handle_rect(start.x, start.y)) {
                    return Some(AnnotationHandleHit::LineEndpoint { index: idx, endpoint: LineEndpoint::Start });
                }
                None
            },
            Annotation::Marker(marker) => {
                let n = marker.points_abs.len();
                if n == 0 {
                    return None;
                }
                assert(point_ok(marker.points_abs@[n - 1]) && point_ok(marker.points_abs@[0]));
                let end = self.client_point_of(marker.points_abs[n - 1]);
                if crate::geometry::point_in(client, crate::geometry::handle_rect(end.x, end.y)) {
                    return Some(AnnotationHandleHit::MarkerEndpoint { index: idx, endpoint: LineEndpoint::End });
                }
                let start = self.client_point_of(marker.points_abs[0]);
                if crate::geometry::point_in(client, crate::geometry::handle_rect(start.x, start.y)) {
                    return Some(AnnotationHandleHit::MarkerEndpoint { index: idx, endpoint: LineEndpoint::Start });
                }
                None
            },
            _ => None,
        }
    }
}


/// What the window has to do after a pointer press.
#[derive(Clone, Copy, Debug, PartialEq, Eq, Structural)]
pub struct PressOutcome {
    /// The press hit the toolbar.
    pub toolbar: bool,
    /// Text editing ended and this text box stays (it flashes).
    pub text_kept: Option<usize>,
    /// The tool changed; this was the tool before.
    pub previous_tool: Option<Tool>,
    /// Repaint the whole editor.
    pub repaint: bool,
    /// Repaint the toolbar.
    pub repaint_chrome: bool,
    /// A drag began: capture the pointer.
    pub capture: bool,
    /// The selection was replaced: update the window layering.
    pub sync_layers: bool,
}

/// The tool a toolbar button selects.
pub open spec fn tool_of_hit(hit: ToolbarHit) -> Option<Tool> {
    match hit {
        ToolbarHit::Select => Some(Tool::Select),
        ToolbarHit::Rect => Some(Tool::Rectangle),
        ToolbarHit::Ellipse => Some(Tool::Ellipse),
        ToolbarHit::Line => Some(Tool::Line),
        ToolbarHit::Arrow => Some(Tool::Arrow),
        ToolbarHit::Marker => Some(Tool::Marker),
        ToolbarHit::Text => Some(Tool::Text),
        ToolbarHit::Pixelate => Some(Tool::Pixelate),
        ToolbarHit::Blur => Some(Tool::Blur),
        _ => None,
    }
}

/// The output action a toolbar button finishes the edit with.
pub open spec fn action_of_hit(hit: ToolbarHit) -> Option<EditorOutputAction> {
    match hit {
        ToolbarHit::Copy => Some(EditorOutputAction::Copy),
        ToolbarHit::Save => Some(EditorOutputAction::Save),
        ToolbarHit::CopyAndSave => Some(EditorOutputAction::CopyAndSave),
        ToolbarHit::Pin => Some(EditorOutputAction::Pin),
        _ => None,
    }
}

fn hit_tool(hit: ToolbarHit) -> (t: Option<Tool>)
    ensures
        t == tool_of_hit(hit),
{
    match hit {
        ToolbarHit::Select => Some(Tool::Select),
        ToolbarHit::Rect => Some(Tool::Rectangle),
        ToolbarHit::Ellipse => Some(Tool::Ellipse),
        ToolbarHit::Line => Some(Tool::Line),
        ToolbarHit::Arrow => Some(Tool::Arrow),
        ToolbarHit::Marker => Some(Tool::Marker),
        ToolbarHit::Text => Some(Tool::Text),
        ToolbarHit::Pixelate => Some(Tool::Pixelate),
        ToolbarHit::Blur => Some(Tool::Blur),
        _ => None,
    }
}

fn hit_action(hit: ToolbarHit) -> (a: Option<EditorOutputAction>)
    ensures
        a == action_of_hit(hit),
{
    match hit {
        ToolbarHit::Copy => Some(EditorOutputAction::Copy),
        ToolbarHit::Save => Some(EditorOutputAction::Save),
        ToolbarHit::CopyAndSave => Some(EditorOutputAction::CopyAndSave),
        ToolbarHit::Pin => Some(EditorOutputAction::Pin),
        _ => None,
    }
}

/// The toolbar element that shows as hovered or pressed (the panel does not).
pub open spec fn spec_hoverable(hit: Option<ToolbarHit>) -> Option<ToolbarHit> {
    match hit {
        Some(ToolbarHit::Panel) | None => None,
        _ => hit,
    }
}

/// The toolbar element that shows as hovered or pressed.
pub fn hoverable_toolbar_hit(hit: Option<ToolbarHit>) -> (r: Option<ToolbarHit>)
    ensures
        r == spec_hoverable(hit),
{
    match hit {
        Some(ToolbarHit::Panel) | None => None,
        _ => hit,
    }
}

/// A press on toolbar element `hit`: ends text editing, switches tool or
/// finishes the edit with an output action, and ends any drag.
pub open spec fn spec_finish_if_editing(s: EditorView) -> (EditorView, Option<usize>) {
    if s.editing_text is Some {
        spec_finish_text_edit(s)
    } else {
        (s, None)
    }
}

/// A toolbar button's own effect: switch tool, or finish with an output
/// action; any drag ends. The flag says whether the tool changed.
pub open spec fn spec_apply_toolbar_hit(s: EditorView, hit: ToolbarHit) -> (EditorView, bool) {
    let tool_changed = tool_of_hit(hit) matches Some(t) && t != s.tool;
    let s1 = if tool_changed {
        EditorView { tool: tool_of_hit(hit)->0, ..s }
    } else if action_of_hit(hit) is Some {
        EditorView { output_action: action_of_hit(hit), done: true, ..s }
    } else {
        s
    };
    (EditorView { drag: None, ..s1 }, tool_changed)
}

/// A press on toolbar element `hit`: ends text editing, switches tool or
/// finishes the edit with an output action, and ends any drag.
pub open spec fn spec_toolbar_press(s: EditorView, hit: ToolbarHit) -> (EditorView, PressOutcome) {
    let visual = spec_hoverable(Some(hit));
    let s1 = EditorView { toolbar_pressed: visual, toolbar_hover: visual, ..s };
    let (s2, kept) = spec_finish_if_editing(s1);
    let (s3, tool_changed) = spec_apply_toolbar_hit(s2, hit);
    let changed = s.editing_text is Some || tool_changed;
    (
        s3,
        PressOutcome {
            toolbar: true,
            text_kept: kept,
            previous_tool: if tool_changed { Some(s.tool) } else { None },
            repaint: changed,
            repaint_chrome: !changed && visual is Some,
            capture: false,
            sync_layers: false,
        },
    )
}

/// The drag a drawing tool starts at `abs`.
pub open spec fn draw_drag_for(tool: Tool, abs: Point) -> Option<Drag> {
    match tool {
        Tool::Rectangle => Some(Drag::DrawRect { start: abs, current: abs }),
        Tool::Ellipse => Some(Drag::DrawEllipse { start: abs, current: abs }),
        Tool::Line => Some(Drag::DrawLine { start: abs, current: abs, arrow: false }),
        Tool::Arrow => Some(Drag::DrawLine { start: abs, current: abs, arrow: true }),
        Tool::Marker => Some(Drag::DrawMarker { start: abs, current: abs }),
        Tool::Pixelate => Some(Drag::DrawPixelate { start: abs, current: abs }),
        Tool::Blur => Some(Drag::DrawBlur { start: abs, current: abs }),
        _ => None,
    }
}

/// The selection in client coordinates.
pub open spec fn selection_client(s: EditorView) -> RectPx {
    crate::geometry::spec_translate_rect(s.selection, -(s.virtual_rect.left as int), -(s.virtual_rect.top as int))
}

/// A press on the picture with the current tool, at client point `client`
/// (screen point `abs`); `under` is the annotation under the pointer. The
/// flags say whether a drag started and whether the selection was replaced.
#[verifier::opaque]
pub open spec fn spec_tool_press(s: EditorView, client: Point, abs: Point, under: Option<usize>, shift: bool) -> (
    EditorView,
    bool,
    bool,
) {
    let inside = crate::geometry::spec_point_in(client, selection_client(s));
    match s.tool {
        Tool::Select => match spec_selected_handle_hit(s, client) {
            Some(AnnotationHandleHit::Resize { index, bounds, handle }) => (
                EditorView {
                    drag: Some(Drag::ResizeAnnotation { index, handle, start_rect: bounds, start_point: abs }),
                    ..s
                },
                true,
                false,
            ),
            Some(AnnotationHandleHit::LineEndpoint { index, endpoint }) => (
                EditorView { drag: Some(Drag::MoveLineEndpoint { index, endpoint }), ..s },
                true,
                false,
            ),
            Some(AnnotationHandleHit::MarkerEndpoint { index, endpoint }) => (
                EditorView { drag: Some(Drag::MoveMarkerEndpoint { index, endpoint }), ..s },
                true,
                false,
            ),
            None => match crate::geometry::spec_hit_handle(selection_client(s), client) {
                Some(handle) => (
                    EditorView {
                        drag: Some(Drag::Resize { handle, start_rect: s.selection, start_point: abs }),
                        ..s
                    },
                    true,
                    false,
                ),
                None => match under {
                    Some(idx) => (
                        EditorView {
                            selected_annotation: Some(idx),
                            drag: Some(Drag::MoveAnnotation { index: idx, last_point: abs }),
                            ..s
                        },
                        true,
                        false,
                    ),
                    None => if inside {
                        (
                            EditorView {
                                selected_annotation: None,
                                drag: Some(
                                    Drag::Move {
                                        offset_x: (abs.x - s.selection.left) as i32,
                                        offset_y: (abs.y - s.selection.top) as i32,
                                        width: (s.selection.right - s.selection.left) as i32,
                                        height: (s.selection.bottom - s.selection.top) as i32,
                                    },
                                ),
                                ..s
                            },
                            true,
                            false,
                        )
                    } else {
                        let s2 = EditorView { selected_annotation: None, drag: Some(Drag::NewSelection { start: abs }), ..s };
                        (spec_set_selection(s2, crate::geometry::spec_normalize_abs(abs, abs, s.virtual_rect)).0, true, true)
                    },
                },
            },
        },
        Tool::Text => if !inside {
            (s, false, false)
        } else if shift {
            (
                EditorView { selected_annotation: None, drag: Some(Drag::DrawText { start: abs, current: abs }), ..s },
                true,
                false,
            )
        } else {
            let s2 = EditorView { selected_annotation: None, ..s };
            let idx = s2.annotations.len() as usize;
            let s3 = with_new_annotation(
                s2,
                AnnView::Text {
                    rect: spec_default_text_rect_at(abs, s.selection),
                    text: Seq::empty(),
                    color: spec_stroke_color(s),
                },
            );
            (
                EditorView { editing_text: Some(idx), drag: Some(Drag::MoveAnnotation { index: idx, last_point: abs }), ..s3 },
                true,
                false,
            )
        },
        _ => if inside {
            (EditorView { selected_annotation: None, drag: draw_drag_for(s.tool, abs), ..s }, true, false)
        } else {
            (s, false, false)
        },
    }
}

/// The screen point under the client point `client`, clamped to the desktop.
pub open spec fn abs_of_client(client: Point, vr: RectPx) -> Point {
    crate::geometry::spec_clamp_point(crate::geometry::spec_translate_point(client, vr.left as int, vr.top as int), vr)
}

/// Dropping the toolbar's pressed look, or else its hovered look.
pub open spec fn spec_clear_toolbar_look(s: EditorView) -> (EditorView, bool) {
    if s.toolbar_pressed is Some {
        (EditorView { toolbar_pressed: None, ..s }, true)
    } else if s.toolbar_hover is Some {
        (EditorView { toolbar_hover: None, ..s }, true)
    } else {
        (s, false)
    }
}

/// A press at `abs` inside the text box `e` being edited keeps it in editing.
pub open spec fn keeps_editing(s: EditorView, e: usize, abs: Point) -> bool {
    e < s.annotations.len() && (s.annotations[e as int] matches AnnView::Text { rect, .. }
        && crate::geometry::spec_point_in(abs, rect))
}

/// A press outside the toolbar: the toolbar's pressed (or else hovered)
/// look is dropped; while text is edited the press only ends editing when
/// it falls outside the text box; otherwise the current tool acts.
pub open spec fn spec_canvas_press(s: EditorView, client: Point, under: Option<usize>, shift: bool) -> (
    EditorView,
    PressOutcome,
) {
    let (s1, chrome) = spec_clear_toolbar_look(s);
    let abs = abs_of_client(client, s.virtual_rect);
    let none = PressOutcome {
        toolbar: false,
        text_kept: None,
        previous_tool: None,
        repaint: false,
        repaint_chrome: chrome,
        capture: false,
        sync_layers: false,
    };
    match s1.editing_text {
        Some(e) => {
            if keeps_editing(s1, e, abs) {
                (s1, none)
            } else {
                let (f, kept) = spec_finish_text_edit(s1);
                (f, PressOutcome { text_kept: kept, repaint: true, ..none })
            }
        },
        None => {
            let (t, started, sync) = spec_tool_press(s1, client, abs, under, shift);
            (t, PressOutcome { repaint: true, capture: started, sync_layers: sync, ..none })
        },
    }
}

/// A primary-button press at `client`; `toolbar` is the toolbar element
/// under the pointer and `under` the annotation under it, if any.
pub open spec fn spec_press(s: EditorView, client: Point, toolbar: Option<ToolbarHit>, under: Option<usize>, shift: bool) -> (
    EditorView,
    PressOutcome,
) {
    match toolbar {
        Some(hit) => spec_toolbar_press(s, hit),
        None => spec_canvas_press(s, client, under, shift),
    }
}

/// When a press is defined: a click that places a text box needs a
/// selection at least `MIN_RECT` on each side.
pub open spec fn press_pre(s: EditorView, client: Point, toolbar: Option<ToolbarHit>, shift: bool) -> bool {
    &&& point_ok(client)
    &&& s.annotations.len() < usize::MAX
    &&& (toolbar is None && s.editing_text is None && s.tool == Tool::Text && !shift
        && crate::geometry::spec_point_in(client, selection_client(s))) ==> {
        &&& s.selection.right - s.selection.left >= MIN_RECT
        &&& s.selection.bottom - s.selection.top >= MIN_RECT
    }
}

impl EditorState {
    fn finish_if_editing(&mut self) -> (kept: Option<usize>)
        requires
            old(self).wf(),
        ensures
            final(self).wf(),
            (final(self)@, kept) == spec_finish_if_editing(old(self)@),
    {
        if self.editing_text.is_some() {
            self.finish_text_edit()
        } else {
            None
        }
    }

    fn apply_toolbar_hit(&mut self, hit: ToolbarHit) -> (tool_changed: bool)
        requires
            old(self).wf(),
        ensures
            final(self).wf(),
            (final(self)@, tool_changed) == spec_apply_toolbar_hit(old(self)@, hit),
    {
        let mut tool_changed = false;
        match hit_tool(hit) {
            Some(t) => {
                if self.tool != t {
                    self.tool = t;
                    tool_changed = true;
                }
            },
            None => match hit_action(hit) {
                Some(a) => {
                    self.output_action = Some(a);
                    self.done = true;
                },
                None => {},
            },
        }
        self.drag = None;
        tool_changed
    }

    fn toolbar_press(&mut self, hit: ToolbarHit) -> (outcome: PressOutcome)
        requires
            old(self).wf(),
        ensures
            final(self).wf(),
            (final(self)@, outcome) == spec_toolbar_press(old(self)@, hit),
    {
        let visual = hoverable_toolbar_hit(Some(hit));
        self.toolbar_pressed = visual;
        self.toolbar_hover = visual;
        let previous = self.tool;
        let edited = self.editing_text.is_some();
        let kept = self.finish_if_editing();
        let tool_changed = self.apply_toolbar_hit(hit);
        let changed = edited || tool_changed;
        PressOutcome {
            toolbar: true,
            text_kept: kept,
            previous_tool: if tool_changed {
                Some(previous)
            } else {
                None
            },
            repaint: changed,
            repaint_chrome: !changed && visual.is_some(),
            capture: false,
            sync_layers: false,
        }
    }

    fn draw_drag(tool: Tool, abs: Point) -> (d: Option<Drag>)
        ensures
            d == draw_drag_for(tool, abs),
    {
        match tool {
            Tool::Rectangle => Some(Drag::DrawRect { start: abs, current: abs }),
            Tool::Ellipse => Some(Drag::DrawEllipse { start: abs, current: abs }),
            Tool::Line => Some(Drag::DrawLine { start: abs, current: abs, arrow: false }),
            Tool::Arrow => Some(Drag::DrawLine { start: abs, current: abs, arrow: true }),
            Tool::Marker => Some(Drag::DrawMarker { start: abs, current: abs }),
            Tool::Pixelate => Some(Drag::DrawPixelate { start: abs, current: abs }),
            Tool::Blur => Some(Drag::DrawBlur { start: abs, current: abs }),
            _ => None,
        }
    }

    #[verifier::rlimit(40)]
    fn tool_press(&mut self, client: Point, abs: Point, under: Option<usize>, shift: bool) -> (r: (bool, bool))
        requires
            old(self).wf(),
            point_ok(client),
            abs == abs_of_client(client, old(self).virtual_rect),
            old(self)@.annotations.len() < usize::MAX,
            (old(self).tool == Tool::Text && !shift && crate::geometry::spec_point_in(client, selection_client(old(self)@)))
                ==> old(self).selection.right - old(self).selection.left >= MIN_RECT
                && old(self).selection.bottom - old(self).selection.top >= MIN_RECT,
        ensures
            final(self).wf(),
            (final(self)@, r.0, r.1) == spec_tool_press(old(self)@, client, abs, under, shift),
    {
        reveal(spec_tool_press);
        let sel_client = crate::geometry::to_client_rect(self.selection, self.virtual_rect);
        let inside = crate::geometry::point_in(client, sel_client);
        match self.tool {
            Tool::Select => {
                match self.selected_annotation_handle_hit(client) {
                    Some(AnnotationHandleHit::Resize { index, bounds, handle }) => {
                        proof {
                            assert(ann_ok(self@.annotations[index as int]));
                        }
                        self.drag = Some(Drag::ResizeAnnotation { index, handle, start_rect: bounds, start_point: abs });
                        return (true, false);
                    },
                    Some(AnnotationHandleHit::LineEndpoint { index, endpoint }) => {
                        self.drag = Some(Drag::MoveLineEndpoint { index, endpoint });
                        return (true, false);
                    },
                    Some(AnnotationHandleHit::MarkerEndpoint { index, endpoint }) => {
                        self.drag = Some(Drag::MoveMarkerEndpoint { index, endpoint });
                        return (true, false);
                    },
                    None => {},
                }
                match crate::geometry::hit_handle(sel_client, client) {
                    Some(handle) => {
                        self.drag = Some(Drag::Resize { handle, start_rect: self.selection, start_point: abs });
                        return (true, false);
                    },
                    None => {},
                }
                match under {
                    Some(idx) => {
                        self.selected_annotation = Some(idx);
                        self.drag = Some(Drag::MoveAnnotation { index: idx, last_point: abs });
                        return (true, false);
                    },
                    None => {},
                }
                if inside {
                    self.selected_annotation = None;
                    self.drag = Some(
                        Drag::Move {
                            offset_x: abs.x - self.selection.left,
                            offset_y: abs.y - self.selection.top,
                            width: self.selection.right - self.selection.left,
                            height: self.selection.bottom - self.selection.top,
                        },
                    );
                    (true, false)
                } else {
                    self.selected_annotation = None;
                    self.drag = Some(Drag::NewSelection { start: abs });
                    let next = crate::geometry::normalize_abs(abs, abs, self.virtual_rect);
                    self.set_selection(next);
                    (true, true)
                }
            },
            Tool::Text => {
                if !inside {
                    return (false, false);
                }
                self.selected_annotation = None;
                if shift {
                    self.drag = Some(Drag::DrawText { start: abs, current: abs });
                } else {
                    let rect = default_text_rect_at(abs, self.selection);
                    let color = self.stroke_color();
                    let text = String::new();
                    assert(text@ =~= Seq::<char>::empty());
                    let index = self.annotations.len();
                    self.push_annotation(Annotation::Text(crate::annotation::TextAnn { rect_abs: rect, text, color }));
                    self.editing_text = Some(index);
                    self.drag = Some(Drag::MoveAnnotation { index, last_point: abs });
                }
                (true, false)
            },
            _ => {
                if !inside {
                    return (false, false);
                }
                self.selected_annotation = None;
                self.drag = Self::draw_drag(self.tool, abs);
                (true, false)
            },
        }
    }

    /// Handles a primary-button press; see [`spec_press`].
    pub fn press(&mut self, client: Point, toolbar: Option<ToolbarHit>, under: Option<usize>, shift: bool) -> (outcome: PressOutcome)
        requires
            old(self).wf(),
            press_pre(old(self)@, client, toolbar, shift),
        ensures
            final(self).wf(),
            (final(self)@, outcome) == spec_press(old(self)@, client, toolbar, under, shift),
    {
        match toolbar {
            Some(hit) => {
                return self.toolbar_press(hit);
            },
            None => {},
        }
        self.canvas_press(client, under, shift)
    }

    fn clear_toolbar_look(&mut self) -> (chrome: bool)
        requires
            old(self).wf(),
        ensures
            final(self).wf(),
            (final(self)@, chrome) == spec_clear_toolbar_look(old(self)@),
    {
        if self.toolbar_pressed.is_some() {
            self.toolbar_pressed = None;
            true
        } else if self.toolbar_hover.is_some() {
            self.toolbar_hover = None;
            true
        } else {
            false
        }
    }

    fn click_keeps_editing(&self, e: usize, abs: Point) -> (b: bool)
        ensures
            b == keeps_editing(self@, e, abs),
    {
        if e < self.annotations.len() {
            match &self.annotations[e] {
                Annotation::Text(t) => crate::geometry::point_in(abs, t.rect_abs),
                _ => false,
            }
        } else {
            false
        }
    }

    fn canvas_press(&mut self, client: Point, under: Option<usize>, shift: bool) -> (outcome: PressOutcome)
        requires
            old(self).wf(),
            press_pre(old(self)@, client, None, shift),
        ensures
            final(self).wf(),
            (final(self)@, outcome) == spec_canvas_press(old(self)@, client, under, shift),
    {
        let chrome = self.clear_toolbar_look();
        let abs = crate::geometry::clamp_point(
            crate::geometry::client_to_abs(client, self.virtual_rect),
            self.virtual_rect,
        );
        let none = PressOutcome {
            toolbar: false,
            text_kept: None,
            previous_tool: None,
            repaint: false,
            repaint_chrome: chrome,
            capture: false,
            sync_layers: false,
        };
        match self.editing_text {
            Some(e) => {
                if self.click_keeps_editing(e, abs) {
                    return none;
                }
                let kept = self.finish_text_edit();
                PressOutcome { text_kept: kept, repaint: true, ..none }
            },
            None => {
                let (started, sync) = self.tool_press(client, abs, under, shift);
                PressOutcome { repaint: true, capture: started, sync_layers: sync, ..none }
            },
        }
    }
}


/// What the window has to do after the primary button is released.
#[derive(Clone, Copy, Debug, PartialEq, Eq, Structural)]
pub struct ReleaseOutcome {
    /// Something changed: repaint (everything when `finalized`).
    pub repaint: bool,
    /// A drawn annotation was added.
    pub finalized: bool,
    /// The toolbar lost its pressed look.
    pub repaint_chrome: bool,
    /// The selection changed under the select tool: take its picture again.
    pub refresh_snapshot: bool,
    /// The tool the drag was made with.
    pub tool: Tool,
}

/// Releasing the primary button at `abs`: the drag follows the pointer a
/// last time, a drawing is added, and the drag ends.
pub open spec fn spec_release(s: EditorView, abs: Point, shift: bool, snapped: Point, aspect_rect: RectPx) -> (
    EditorView,
    ReleaseOutcome,
) {
    let chrome = s.toolbar_pressed is Some;
    let s1 = EditorView { toolbar_pressed: None, ..s };
    if s1.drag is None {
        (
            s1,
            ReleaseOutcome {
                repaint: false,
                finalized: false,
                repaint_chrome: chrome,
                refresh_snapshot: false,
                tool: s.tool,
            },
        )
    } else {
        let sizing = s1.drag matches Some(Drag::NewSelection { .. }) || s1.drag matches Some(Drag::Resize { .. });
        let (s2, moved) = spec_update_drag(s1, abs, shift, snapped, aspect_rect);
        let (s3, finalized) = spec_finalize_draw(s2);
        let s4 = if finalized { s3 } else { EditorView { drag: None, ..s3 } };
        let repaint = moved || finalized || sizing;
        (
            s4,
            ReleaseOutcome {
                repaint,
                finalized,
                repaint_chrome: chrome,
                refresh_snapshot: s.tool == Tool::Select && repaint && !finalized,
                tool: s.tool,
            },
        )
    }
}

/// What the window has to do after a pointer move.
#[derive(Clone, Copy, Debug, PartialEq, Eq, Structural)]
pub struct MoveOutcome {
    /// The hovered toolbar element changed.
    pub repaint_chrome: bool,
    /// The drag changed something.
    pub changed: bool,
    /// The selection changed under the select tool: update the window layering.
    pub refresh_layer: bool,
}

/// A pointer move: the toolbar's hover follows `hover_hit`, and a drag follows `abs`.
pub open spec fn spec_pointer_move(
    s: EditorView,
    hover_hit: Option<ToolbarHit>,
    abs: Point,
    shift: bool,
    snapped: Point,
    aspect_rect: RectPx,
) -> (EditorView, MoveOutcome) {
    let next = spec_hoverable(hover_hit);
    let s1 = EditorView { toolbar_hover: next, ..s };
    let hover_changed = s.toolbar_hover != next;
    if s1.drag is Some {
        let (s2, changed) = spec_update_drag(s1, abs, shift, snapped, aspect_rect);
        (s2, MoveOutcome { repaint_chrome: hover_changed, changed, refresh_layer: changed && s.tool == Tool::Select })
    } else {
        (s1, MoveOutcome { repaint_chrome: hover_changed, changed: false, refresh_layer: false })
    }
}

/// Number of thickness steps a wheel turn of `delta` makes (at least one).
pub open spec fn wheel_steps(delta: i16) -> int {
    let a = if delta < 0 { -delta } else { delta as int };
    crate::geometry::spec_max(a / 120, 1)
}

/// A wheel turn changes the thickness by one step per notch, in the
/// direction of the turn, except with the select tool.
pub open spec fn spec_wheel(s: EditorView, delta: i16) -> (EditorView, bool) {
    if delta == 0 || s.tool == Tool::Select {
        (s, false)
    } else {
        let target = if delta > 0 {
            s.stroke_thickness_idx + wheel_steps(delta)
        } else {
            s.stroke_thickness_idx - wheel_steps(delta)
        };
        spec_adjust_stroke_thickness(s, target - s.stroke_thickness_idx)
    }
}

impl EditorState {
    /// Handles the release of the primary button; see [`spec_release`].
    #[verifier::rlimit(40)]
    pub fn release(&mut self, abs: Point, shift: bool, snapped: Point, aspect_rect: RectPx) -> (outcome: ReleaseOutcome)
        requires
            old(self).wf(),
            update_drag_pre(old(self)@, abs, snapped, aspect_rect),
            old(self)@.annotations.len() < usize::MAX - 1,
        ensures
            final(self).wf(),
            (final(self)@, outcome) == spec_release(old(self)@, abs, shift, snapped, aspect_rect),
    {
        let chrome = self.toolbar_pressed.is_some();
        self.toolbar_pressed = None;
        let tool = self.tool;
        if self.drag.is_none() {
            return ReleaseOutcome { repaint: false, finalized: false, repaint_chrome: chrome, refresh_snapshot: false, tool };
        }
        let sizing = match self.drag {
            Some(Drag::NewSelection { .. }) | Some(Drag::Resize { .. }) => true,
            _ => false,
        };
        let moved = self.update_drag(abs, shift, snapped, aspect_rect);
        let finalized = self.finalize_draw();
        if !finalized {
            self.clear_drag_state();
        }
        let repaint = moved || finalized || sizing;
        let refresh_snapshot = match tool {
            Tool::Select => repaint && !finalized,
            _ => false,
        };
        ReleaseOutcome { repaint, finalized, repaint_chrome: chrome, refresh_snapshot, tool }
    }

    /// Handles a pointer move; see [`spec_pointer_move`].
    pub fn pointer_move(
        &mut self,
        hover_hit: Option<ToolbarHit>,
        abs: Point,
        shift: bool,
        snapped: Point,
        aspect_rect: RectPx,
    ) -> (outcome: MoveOutcome)
        requires
            old(self).wf(),
            update_drag_pre(old(self)@, abs, snapped, aspect_rect),
        ensures
            final(self).wf(),
            (final(self)@, outcome) == spec_pointer_move(old(self)@, hover_hit, abs, shift, snapped, aspect_rect),
    {
        let next = hoverable_toolbar_hit(hover_hit);
        let hover_changed = self.toolbar_hover != next;
        self.toolbar_hover = next;
        if self.drag.is_some() {
            let tool = self.tool;
            let changed = self.update_drag(abs, shift, snapped, aspect_rect);
            let refresh_layer = match tool {
                Tool::Select => changed,
                _ => false,
            };
            MoveOutcome { repaint_chrome: hover_changed, changed, refresh_layer }
        } else {
            MoveOutcome { repaint_chrome: hover_changed, changed: false, refresh_layer: false }
        }
    }

    /// Handles a wheel turn of `delta`; see [`spec_wheel`].
    pub fn wheel(&mut self, delta: i16) -> (changed: bool)
        requires
            old(self).wf(),
        ensures
            final(self).wf(),
            (final(self)@, changed) == spec_wheel(old(self)@, delta),
    {
        if delta == 0 {
            return false;
        }
        if self.tool == Tool::Select {
            return false;
        }
        let direction: i32 = if delta > 0 { 1 } else { -1 };
        let d = delta as i32;
        let magnitude: i32 = if d < 0 { -d } else { d };
        let steps: i32 = if magnitude / 120 >= 1 { magnitude / 120 } else { 1 };
        let ghost s0 = self@;
        assert(steps == wheel_steps(delta));
        let mut changed = false;
        let mut k: i32 = 0;
        while k < steps
            invariant
                0 <= k <= steps,
                steps <= 300,
                direction == (if delta > 0 { 1int } else { -1int }),
                self.wf(),
                self@ == (EditorView { stroke_thickness_idx: self@.stroke_thickness_idx, ..s0 }),
                self@.stroke_thickness_idx == spec_clamp(
                    if delta > 0 { s0.stroke_thickness_idx + k } else { s0.stroke_thickness_idx - k },
                    0,
                    THICKNESS_STEP_COUNT - 1,
                ),
                changed == (self@.stroke_thickness_idx != s0.stroke_thickness_idx),
                s0.stroke_thickness_idx < THICKNESS_STEP_COUNT,
            decreases steps - k,
        {
            let c = self.adjust_stroke_thickness(direction);
            changed = c || changed;
            k = k + 1;
        }
        changed
    }
}


/// No undo, redo, delete or output shortcut is bound to `key` pressed
/// without Ctrl or Alt.
pub open spec fn key_free_of_commands(s: EditorView, key: u32, shift: bool) -> bool {
    forall|k: int|
        9 <= k < 15 ==> s.keybindings.chords()[k] != (crate::shortcuts::KeyChord { key, ctrl: false, shift, alt: false })
}

/// `[` makes strokes thinner and `]` thicker, one step at a time: outside
/// text editing, with neither key bound to a command, `[` lowers the
/// thickness step by one (to a thinner stroke) unless it is already the
/// thinnest, and `]` raises it by one (to a thicker stroke) unless it is
/// already the thickest; neither ever moves the other way.
pub proof fn law_brackets_step_thickness(s: EditorView, shift: bool, picker_shown: bool)
    requires
        editor_wf(s),
        s.editing_text is None,
        key_free_of_commands(s, 0xDB, shift),
        key_free_of_commands(s, 0xDD, shift),
    ensures
        ({
            let (t, o) = spec_handle_key(s, 0xDB, false, shift, false, picker_shown);
            &&& s.stroke_thickness_idx > 0 ==> t.stroke_thickness_idx == s.stroke_thickness_idx - 1 && o
                == KeyOutcome::Repaint && spec_thickness_step(t.stroke_thickness_idx as int) < spec_thickness_step(
                s.stroke_thickness_idx as int,
            )
            &&& t.stroke_thickness_idx <= s.stroke_thickness_idx
        }),
        ({
            let (t, o) = spec_handle_key(s, 0xDD, false, shift, false, picker_shown);
            &&& s.stroke_thickness_idx < THICKNESS_STEP_COUNT - 1 ==> t.stroke_thickness_idx == s.stroke_thickness_idx
                + 1 && o == KeyOutcome::Repaint && spec_thickness_step(t.stroke_thickness_idx as int)
                > spec_thickness_step(s.stroke_thickness_idx as int)
            &&& t.stroke_thickness_idx >= s.stroke_thickness_idx
        }),
{
    let chords = s.keybindings.chords();
    let down = crate::shortcuts::KeyChord { key: 0xDB, ctrl: false, shift, alt: false };
    let up = crate::shortcuts::KeyChord { key: 0xDD, ctrl: false, shift, alt: false };
    assert(chords[9] != down && chords[10] != down && chords[11] != down);
    assert(chords[12] != down && chords[13] != down && chords[14] != down);
    assert(chords[9] != up && chords[10] != up && chords[11] != up);
    assert(chords[12] != up && chords[13] != up && chords[14] != up);
}

/// Redo right after undo gives back the annotations and the redo history.
pub proof fn law_redo_restores_undo(s: EditorView)
    requires
        s.annotations.len() > 0,
    ensures
        spec_undo(s).1,
        spec_redo(spec_undo(s).0).1,
        spec_redo(spec_undo(s).0).0.annotations == s.annotations,
        spec_redo(spec_undo(s).0).0.redo == s.redo,
{
    assert(s.annotations.drop_last().push(s.annotations.last()) =~= s.annotations);
    assert(s.redo.push(s.annotations.last()).drop_last() =~= s.redo);
}

/// Undo right after redo gives back the annotations and the redo history.
pub proof fn law_undo_restores_redo(s: EditorView)
    requires
        s.redo.len() > 0,
    ensures
        spec_redo(s).1,
        spec_undo(spec_redo(s).0).1,
        spec_undo(spec_redo(s).0).0.annotations == s.annotations,
        spec_undo(spec_redo(s).0).0.redo == s.redo,
{
    assert(s.annotations.push(s.redo.last()).drop_last() =~= s.annotations);
    assert(s.redo.drop_last().push(s.redo.last()) =~= s.redo);
}

/// An annotation that moves ends up with its bounds inside the selection.
pub proof fn law_moved_annotation_stays_in_selection(s: EditorView, index: usize, raw_dx: int, raw_dy: int)
    requires
        editor_wf(s),
        move_pre(s, index),
        spec_move_annotation(s, index, raw_dx, raw_dy).1,
    ensures
        ({
            let b = spec_annotation_bounds(spec_move_annotation(s, index, raw_dx, raw_dy).0.annotations[index as int])->0;
            &&& s.selection.left <= b.left
            &&& b.right <= s.selection.right
            &&& s.selection.top <= b.top
            &&& b.bottom <= s.selection.bottom
        }),
{
    let a = s.annotations[index as int];
    assert(ann_ok(a));
    let b = spec_annotation_bounds(a)->0;
    crate::annotation::lemma_bounds_range(a);
    let dx = spec_clamp(raw_dx, s.selection.left - b.left, s.selection.right - b.right);
    let dy = spec_clamp(raw_dy, s.selection.top - b.top, s.selection.bottom - b.bottom);
    crate::annotation::lemma_translate_bounds(a, dx, dy, s.selection);
}

/// Typing a character and then backspace gives the edited text back.
pub proof fn law_backspace_undoes_typing(s: EditorView, code: u32)
    requires
        editor_wf(s),
        s.editing_text matches Some(idx) && idx < s.annotations.len() && s.annotations[idx as int] is Text,
        code >= 0x20,
        code != 0x7F,
        crate::text::is_scalar_value(code),
    ensures
        ({
            let idx = s.editing_text->0;
            let t1 = spec_type_char(s, code).0;
            let t2 = spec_type_char(t1, 8).0;
            &&& spec_type_char(s, code).1
            &&& spec_type_char(t1, 8).1
            &&& t2.annotations[idx as int]->Text_text == s.annotations[idx as int]->Text_text
        }),
{
    let idx = s.editing_text->0;
    let a = s.annotations[idx as int];
    let text = a->Text_text;
    assert(text.push(code as char).drop_last() =~= text);
}


/// The pointer shapes the editor uses.
#[derive(Clone, Copy, Debug, PartialEq, Eq, Structural)]
pub enum CursorKind {
    Arrow,
    Hand,
    Cross,
    SizeAll,
    SizeNwse,
    SizeNesw,
    SizeNs,
    SizeWe,
}

pub open spec fn spec_cursor_for_handle(handle: ResizeHandle) -> CursorKind {
    match handle {
        ResizeHandle::NW | ResizeHandle::SE => CursorKind::SizeNwse,
        ResizeHandle::NE | ResizeHandle::SW => CursorKind::SizeNesw,
        ResizeHandle::N | ResizeHandle::S => CursorKind::SizeNs,
        ResizeHandle::W | ResizeHandle::E => CursorKind::SizeWe,
    }
}

/// The resize arrow that points along a handle's direction.
pub fn cursor_for_handle(handle: ResizeHandle) -> (c: CursorKind)
    ensures
        c == spec_cursor_for_handle(handle),
{
    match handle {
        ResizeHandle::NW | ResizeHandle::SE => CursorKind::SizeNwse,
        ResizeHandle::NE | ResizeHandle::SW => CursorKind::SizeNesw,
        ResizeHandle::N | ResizeHandle::S => CursorKind::SizeNs,
        ResizeHandle::W | ResizeHandle::E => CursorKind::SizeWe,
    }
}

/// The pointer shape over `client` with the select tool: the handle being
/// dragged or hovered (of the selected annotation first, then of the
/// selection), a move arrow inside the selection or during a move, else a cross.
pub open spec fn spec_select_cursor(s: EditorView, client: Point) -> CursorKind {
    let annotation_cursor = match s.drag {
        Some(Drag::ResizeAnnotation { handle, .. }) => Some(spec_cursor_for_handle(handle)),
        Some(Drag::MoveLineEndpoint { .. }) => Some(CursorKind::SizeAll),
        Some(Drag::MoveMarkerEndpoint { .. }) => Some(CursorKind::SizeAll),
        _ => match spec_selected_handle_hit(s, client) {
            Some(AnnotationHandleHit::Resize { handle, .. }) => Some(spec_cursor_for_handle(handle)),
            Some(_) => Some(CursorKind::SizeAll),
            None => None,
        },
    };
    let selection_handle = match s.drag {
        Some(Drag::Resize { handle, .. }) => Some(handle),
        _ => crate::geometry::spec_hit_handle(selection_client(s), client),
    };
    if annotation_cursor is Some {
        annotation_cursor->0
    } else if selection_handle is Some {
        spec_cursor_for_handle(selection_handle->0)
    } else if s.drag matches Some(Drag::Move { .. }) || s.drag matches Some(Drag::MoveAnnotation { .. })
        || crate::geometry::spec_point_in(client, selection_client(s)) {
        CursorKind::SizeAll
    } else {
        CursorKind::Cross
    }
}

/// The pointer shape at `client` when the colour menu is not shown;
/// `toolbar` is the toolbar element under the pointer.
pub open spec fn spec_cursor_kind(s: EditorView, client: Point, toolbar: Option<ToolbarHit>) -> CursorKind {
    match toolbar {
        Some(ToolbarHit::Panel) => CursorKind::Arrow,
        Some(_) => CursorKind::Hand,
        None => if s.tool == Tool::Select {
            spec_select_cursor(s, client)
        } else if crate::geometry::spec_point_in(client, selection_client(s)) {
            CursorKind::Cross
        } else {
            CursorKind::Arrow
        },
    }
}

impl EditorState {
    fn select_cursor(&self, client: Point) -> (c: CursorKind)
        requires
            self.wf(),
        ensures
            c == spec_select_cursor(self@, client),
    {
        let selection = crate::geometry::to_client_rect(self.selection, self.virtual_rect);
        let annotation_cursor = match self.drag {
            Some(Drag::ResizeAnnotation { handle, .. }) => Some(cursor_for_handle(handle)),
            Some(Drag::MoveLineEndpoint { .. }) => Some(CursorKind::SizeAll),
            Some(Drag::MoveMarkerEndpoint { .. }) => Some(CursorKind::SizeAll),
            _ => match self.selected_annotation_handle_hit(client) {
                Some(AnnotationHandleHit::Resize { handle, .. }) => Some(cursor_for_handle(handle)),
                Some(_) => Some(CursorKind::SizeAll),
                None => None,
            },
        };
        match annotation_cursor {
            Some(c) => {
                return c;
            },
            None => {},
        }
        let selection_handle = match self.drag {
            Some(Drag::Resize { handle, .. }) => Some(handle),
            _ => crate::geometry::hit_handle(selection, client),
        };
        match selection_handle {
            Some(h) => {
                return cursor_for_handle(h);
            },
            None => {},
        }
        let moving = match self.drag {
            Some(Drag::Move { .. }) | Some(Drag::MoveAnnotation { .. }) => true,
            _ => false,
        };
        if moving || crate::geometry::point_in(client, selection) {
            CursorKind::SizeAll
        } else {
            CursorKind::Cross
        }
    }

    /// The pointer shape at `client`; see [`spec_cursor_kind`].
    pub fn cursor_kind(&self, client: Point, toolbar: Option<ToolbarHit>) -> (c: CursorKind)
        requires
            self.wf(),
        ensures
            c == spec_cursor_kind(self@, client, toolbar),
    {
        match toolbar {
            Some(ToolbarHit::Panel) => CursorKind::Arrow,
            Some(_) => CursorKind::Hand,
            None => {
                match self.tool {
                    Tool::Select => self.select_cursor(client),
                    _ => {
                        let selection = crate::geometry::to_client_rect(self.selection, self.virtual_rect);
                        if crate::geometry::point_in(client, selection) {
                            CursorKind::Cross
                        } else {
                            CursorKind::Arrow
                        }
                    },
                }
            },
        }
    }
}

/// The finished edit: the selected area, its annotations and what to do with it.
#[derive(Debug)]
pub struct RegionEditResult {
    pub bounds: RectPx,
    pub annotations: Vec<Annotation>,
    pub output_action: Option<EditorOutputAction>,
}

impl RegionEditResult {
    /// The selected area.
    pub fn bounds(&self) -> (r: RectPx)
        ensures
            r == self.bounds,
    {
        self.bounds
    }

    /// The output action chosen, if any (none when the edit ended with Enter).
    pub fn output_action(&self) -> (a: Option<EditorOutputAction>)
        ensures
            a == self.output_action,
    {
        self.output_action
    }
}

/// How the editor ended.
#[derive(Debug)]
pub enum RegionEditOutcome {
    Apply(RegionEditResult),
    Cancel,
}

/// Why a finished edit produced no result.
#[derive(Clone, Copy, Debug, PartialEq, Eq, Structural)]
pub enum EditError {
    /// The selection is smaller than `MIN_SELECTION` on a side.
    SelectionTooSmall,
    /// The desktop has no width or no height.
    InvalidDesktop,
}

impl EditError {
    /// The text that describes this error.
    pub fn message(&self) -> (m: &'static str)
        ensures
            *self == EditError::SelectionTooSmall ==> m@ == "selected region is too small"@,
            *self == EditError::InvalidDesktop ==> m@ == "invalid virtual desktop size"@,
    {
        match self {
            EditError::SelectionTooSmall => "selected region is too small",
            EditError::InvalidDesktop => "invalid virtual desktop size",
        }
    }
}

impl EditorState {
    /// The outcome of the finished edit: cancelled, or the selection with its
    /// annotations and output action; an error when the selection is too small.
    pub fn into_outcome(self) -> (r: Result<RegionEditOutcome, EditError>)
        requires
            self.wf(),
        ensures
            self.canceled ==> r matches Ok(RegionEditOutcome::Cancel),
            !self.canceled && !selection_big_enough(self@) ==> r == Err::<RegionEditOutcome, EditError>(
                EditError::SelectionTooSmall,
            ),
            !self.canceled && selection_big_enough(self@) ==> (r matches Ok(RegionEditOutcome::Apply(res)) && {
                &&& res.bounds == self.selection
                &&& ann_views(res.annotations@) == self@.annotations
                &&& res.output_action == self.output_action
            }),
    {
        if self.canceled {
            return Ok(RegionEditOutcome::Cancel);
        }
        if !self.selection_is_big_enough() {
            return Err(EditError::SelectionTooSmall);
        }
        Ok(
            RegionEditOutcome::Apply(
                RegionEditResult { bounds: self.selection, annotations: self.annotations, output_action: self.output_action },
            ),
        )
    }
}

} // verus!
