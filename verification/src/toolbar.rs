//! The editor's toolbar: which button a point is on, the toolbar moved with
//! its window, the footer text, and where the radial colour menu may open.
use vstd::prelude::*;
use crate::annotation::{AnnView, Annotation};
use crate::editor::{EditorState, ToolbarHit};
use crate::geometry::{clamp_i32, max_i32, point_in, rect_ok, spec_clamp, spec_max, spec_point_in, Point, RectPx};
use crate::keybindings::Tool;
use crate::shortcuts::{dec_digits, push_dec, push_str_chars};
use crate::text::string_from_chars;

verus! {

pub const RADIAL_MENU_RADIUS: i32 = 54;
pub const RADIAL_SWATCH_RADIUS: i32 = 13;
pub const RADIAL_MARGIN: i32 = 71;

/// The boxes of the toolbar's parts, in client pixels.
#[derive(Clone, Copy, Debug, PartialEq, Eq, Structural)]
pub struct ToolbarLayout {
    pub panel: RectPx,
    pub lcars_cap: RectPx,
    pub cap_footer: RectPx,
    pub top_band: RectPx,
    pub readout: RectPx,
    pub tools_group: RectPx,
    pub tools_tag: RectPx,
    pub actions_group: RectPx,
    pub actions_tag: RectPx,
    pub select_btn: RectPx,
    pub rect_btn: RectPx,
    pub ellipse_btn: RectPx,
    pub line_btn: RectPx,
    pub arrow_btn: RectPx,
    pub marker_btn: RectPx,
    pub text_btn: RectPx,
    pub pixelate_btn: RectPx,
    pub blur_btn: RectPx,
    pub copy_btn: RectPx,
    pub save_btn: RectPx,
    pub copy_save_btn: RectPx,
    pub pin_btn: RectPx,
}

/// The button under `p`, in the order the buttons are tested (tools, then
/// actions), else the panel, else nothing.
pub open spec fn spec_toolbar_hit(l: ToolbarLayout, p: Point) -> Option<ToolbarHit> {
    if spec_point_in(p, l.select_btn) {
        Some(ToolbarHit::Select)
    } else if spec_point_in(p, l.rect_btn) {
        Some(ToolbarHit::Rect)
    } else if spec_point_in(p, l.ellipse_btn) {
        Some(ToolbarHit::Ellipse)
    } else if spec_point_in(p, l.line_btn) {
        Some(ToolbarHit::Line)
    } else if spec_point_in(p, l.arrow_btn) {
        Some(ToolbarHit::Arrow)
    } else if spec_point_in(p, l.marker_btn) {
        Some(ToolbarHit::Marker)
    } else if spec_point_in(p, l.text_btn) {
        Some(ToolbarHit::Text)
    } else if spec_point_in(p, l.pixelate_btn) {
        Some(ToolbarHit::Pixelate)
    } else if spec_point_in(p, l.blur_btn) {
        Some(ToolbarHit::Blur)
    } else if spec_point_in(p, l.copy_btn) {
        Some(ToolbarHit::Copy)
    } else if spec_point_in(p, l.save_btn) {
        Some(ToolbarHit::Save)
    } else if spec_point_in(p, l.copy_save_btn) {
        Some(ToolbarHit::CopyAndSave)
    } else if spec_point_in(p, l.pin_btn) {
        Some(ToolbarHit::Pin)
    } else if spec_point_in(p, l.panel) {
        Some(ToolbarHit::Panel)
    } else {
        None
    }
}

/// The toolbar element under a client point.
pub fn toolbar_hit(layout: ToolbarLayout, p: Point) -> (h: Option<ToolbarHit>)
    ensures
        h == spec_toolbar_hit(layout, p),
{
    if point_in(p, layout.select_btn) {
        return Some(ToolbarHit::Select);
    }
    if point_in(p, layout.rect_btn) {
        return Some(ToolbarHit::Rect);
    }
    if point_in(p, layout.ellipse_btn) {
        return Some(ToolbarHit::Ellipse);
    }
    if point_in(p, layout.line_btn) {
        return Some(ToolbarHit::Line);
    }
    if point_in(p, layout.arrow_btn) {
        return Some(ToolbarHit::Arrow);
    }
    if point_in(p, layout.marker_btn) {
        return Some(ToolbarHit::Marker);
    }
    if point_in(p, layout.text_btn) {
        return Some(ToolbarHit::Text);
    }
    if point_in(p, layout.pixelate_btn) {
        return Some(ToolbarHit::Pixelate);
    }
    if point_in(p, layout.blur_btn) {
        return Some(ToolbarHit::Blur);
    }
    if point_in(p, layout.copy_btn) {
        return Some(ToolbarHit::Copy);
    }
    if point_in(p, layout.save_btn) {
        return Some(ToolbarHit::Save);
    }
    if point_in(p, layout.copy_save_btn) {
        return Some(ToolbarHit::CopyAndSave);
    }
    if point_in(p, layout.pin_btn) {
        return Some(ToolbarHit::Pin);
    }
    if point_in(p, layout.panel) {
        return Some(ToolbarHit::Panel);
    }
    None
}

/// `r` moved by `(dx, dy)`.
pub open spec fn shifted(r: RectPx, dx: int, dy: int) -> RectPx {
    RectPx {
        left: (r.left + dx) as i32,
        top: (r.top + dy) as i32,
        right: (r.right + dx) as i32,
        bottom: (r.bottom + dy) as i32,
    }
}

/// Moving `r` by `(dx, dy)` stays within the 32-bit range.
pub open spec fn shift_fits(r: RectPx, dx: int, dy: int) -> bool {
    &&& i32::MIN <= r.left + dx <= i32::MAX
    &&& i32::MIN <= r.top + dy <= i32::MAX
    &&& i32::MIN <= r.right + dx <= i32::MAX
    &&& i32::MIN <= r.bottom + dy <= i32::MAX
}

fn shift_rect(r: RectPx, dx: i32, dy: i32) -> (s: RectPx)
    requires
        shift_fits(r, dx as int, dy as int),
    ensures
        s == shifted(r, dx as int, dy as int),
{
    RectPx { left: r.left + dx, top: r.top + dy, right: r.right + dx, bottom: r.bottom + dy }
}

/// Every box of a layout is a rectangle on the screen.
pub open spec fn layout_ok(l: ToolbarLayout) -> bool {
    &&& rect_ok(l.panel) && rect_ok(l.lcars_cap) && rect_ok(l.cap_footer) && rect_ok(l.top_band)
    &&& rect_ok(l.readout) && rect_ok(l.tools_group) && rect_ok(l.tools_tag) && rect_ok(l.actions_group)
    &&& rect_ok(l.actions_tag) && rect_ok(l.select_btn) && rect_ok(l.rect_btn) && rect_ok(l.ellipse_btn)
    &&& rect_ok(l.line_btn) && rect_ok(l.arrow_btn) && rect_ok(l.marker_btn) && rect_ok(l.text_btn)
    &&& rect_ok(l.pixelate_btn) && rect_ok(l.blur_btn) && rect_ok(l.copy_btn) && rect_ok(l.save_btn)
    &&& rect_ok(l.copy_save_btn) && rect_ok(l.pin_btn)
}

/// Every box of the layout moved by `(dx, dy)`.
pub open spec fn spec_offset_layout(l: ToolbarLayout, dx: int, dy: int) -> ToolbarLayout {
    ToolbarLayout {
        panel: shifted(l.panel, dx, dy),
        lcars_cap: shifted(l.lcars_cap, dx, dy),
        cap_footer: shifted(l.cap_footer, dx, dy),
        top_band: shifted(l.top_band, dx, dy),
        readout: shifted(l.readout, dx, dy),
        tools_group: shifted(l.tools_group, dx, dy),
        tools_tag: shifted(l.tools_tag, dx, dy),
        actions_group: shifted(l.actions_group, dx, dy),
        actions_tag: shifted(l.actions_tag, dx, dy),
        select_btn: shifted(l.select_btn, dx, dy),
        rect_btn: shifted(l.rect_btn, dx, dy),
        ellipse_btn: shifted(l.ellipse_btn, dx, dy),
        line_btn: shifted(l.line_btn, dx, dy),
        arrow_btn: shifted(l.arrow_btn, dx, dy),
        marker_btn: shifted(l.marker_btn, dx, dy),
        text_btn: shifted(l.text_btn, dx, dy),
        pixelate_btn: shifted(l.pixelate_btn, dx, dy),
        blur_btn: shifted(l.blur_btn, dx, dy),
        copy_btn: shifted(l.copy_btn, dx, dy),
        save_btn: shifted(l.save_btn, dx, dy),
        copy_save_btn: shifted(l.copy_save_btn, dx, dy),
        pin_btn: shifted(l.pin_btn, dx, dy),
    }
}

/// The layout moved by `(offset_x, offset_y)` (into another window's coordinates).
pub fn offset_toolbar_layout(layout: ToolbarLayout, offset_x: i32, offset_y: i32) -> (r: ToolbarLayout)
    requires
        layout_ok(layout),
        -0x1000_0000 <= offset_x <= 0x1000_0000,
        -0x1000_0000 <= offset_y <= 0x1000_0000,
    ensures
        r == spec_offset_layout(layout, offset_x as int, offset_y as int),
{
    ToolbarLayout {
        panel: shift_rect(layout.panel, offset_x, offset_y),
        lcars_cap: shift_rect(layout.lcars_cap, offset_x, offset_y),
        cap_footer: shift_rect(layout.cap_footer, offset_x, offset_y),
        top_band: shift_rect(layout.top_band, offset_x, offset_y),
        readout: shift_rect(layout.readout, offset_x, offset_y),
        tools_group: shift_rect(layout.tools_group, offset_x, offset_y),
        tools_tag: shift_rect(layout.tools_tag, offset_x, offset_y),
        actions_group: shift_rect(layout.actions_group, offset_x, offset_y),
        actions_tag: shift_rect(layout.actions_tag, offset_x, offset_y),
        select_btn: shift_rect(layout.select_btn, offset_x, offset_y),
        rect_btn: shift_rect(layout.rect_btn, offset_x, offset_y),
        ellipse_btn: shift_rect(layout.ellipse_btn, offset_x, offset_y),
        line_btn: shift_rect(layout.line_btn, offset_x, offset_y),
        arrow_btn: shift_rect(layout.arrow_btn, offset_x, offset_y),
        marker_btn: shift_rect(layout.marker_btn, offset_x, offset_y),
        text_btn: shift_rect(layout.text_btn, offset_x, offset_y),
        pixelate_btn: shift_rect(layout.pixelate_btn, offset_x, offset_y),
        blur_btn: shift_rect(layout.blur_btn, offset_x, offset_y),
        copy_btn: shift_rect(layout.copy_btn, offset_x, offset_y),
        save_btn: shift_rect(layout.save_btn, offset_x, offset_y),
        copy_save_btn: shift_rect(layout.copy_save_btn, offset_x, offset_y),
        pin_btn: shift_rect(layout.pin_btn, offset_x, offset_y),
    }
}

/// A point hits a moved layout exactly where the point moved back hits the
/// layout.
pub proof fn law_offset_layout_hit(l: ToolbarLayout, dx: int, dy: int, p: Point)
    requires
        layout_ok(l),
        -0x1000_0000 <= dx <= 0x1000_0000,
        -0x1000_0000 <= dy <= 0x1000_0000,
        i32::MIN <= p.x - dx <= i32::MAX,
        i32::MIN <= p.y - dy <= i32::MAX,
    ensures
        spec_toolbar_hit(spec_offset_layout(l, dx, dy), p) == spec_toolbar_hit(
            l,
            Point { x: (p.x - dx) as i32, y: (p.y - dy) as i32 },
        ),
{
}

/// Where the radial colour menu opens for a click at `p`: kept far enough
/// inside the client area for the whole menu to show.
pub open spec fn spec_clamp_radial_center(p: Point, client: RectPx) -> Point {
    let min_x = client.left + RADIAL_MARGIN;
    let max_x = spec_max(client.right - RADIAL_MARGIN - 1, min_x);
    let min_y = client.top + RADIAL_MARGIN;
    let max_y = spec_max(client.bottom - RADIAL_MARGIN - 1, min_y);
    Point { x: spec_clamp(p.x as int, min_x, max_x) as i32, y: spec_clamp(p.y as int, min_y, max_y) as i32 }
}

pub fn clamp_radial_center(point: Point, client: RectPx) -> (r: Point)
    requires
        rect_ok(client),
    ensures
        r == spec_clamp_radial_center(point, client),
{
    let min_x = client.left + RADIAL_MARGIN;
    let max_x = max_i32(client.right - RADIAL_MARGIN - 1, min_x);
    let min_y = client.top + RADIAL_MARGIN;
    let max_y = max_i32(client.bottom - RADIAL_MARGIN - 1, min_y);
    Point { x: clamp_i32(point.x, min_x, max_x), y: clamp_i32(point.y, min_y, max_y) }
}

/// The toolbar's name for a tool.
pub open spec fn spec_tool_display_name(tool: Tool) -> Seq<char> {
    match tool {
        Tool::Select => "SELECT"@,
        Tool::Rectangle => "RECT"@,
        Tool::Ellipse => "CIRCLE"@,
        Tool::Line => "LINE"@,
        Tool::Arrow => "ARROW"@,
        Tool::Marker => "MARKER"@,
        Tool::Text => "TEXT"@,
        Tool::Pixelate => "CENSOR"@,
        Tool::Blur => "BLUR"@,
    }
}

pub fn tool_display_name(tool: Tool) -> (s: &'static str)
    ensures
        s@ == spec_tool_display_name(tool),
{
    match tool {
        Tool::Select => "SELECT",
        Tool::Rectangle => "RECT",
        Tool::Ellipse => "CIRCLE",
        Tool::Line => "LINE",
        Tool::Arrow => "ARROW",
        Tool::Marker => "MARKER",
        Tool::Text => "TEXT",
        Tool::Pixelate => "CENSOR",
        Tool::Blur => "BLUR",
    }
}

/// The toolbar footer: the tool's name and the selection's size, as
/// `RECT / 640 x 480`.
pub open spec fn spec_footer_text(tool: Tool, w: nat, h: nat) -> Seq<char> {
    spec_tool_display_name(tool) + " / "@ + dec_digits(w) + " x "@ + dec_digits(h)
}

pub fn toolbar_footer_text(state: &EditorState) -> (s: String)
    requires
        state.wf(),
    ensures
        s@ == spec_footer_text(
            state.tool,
            (state.selection.right - state.selection.left) as nat,
            (state.selection.bottom - state.selection.top) as nat,
        ),
{
    let w = (state.selection.right - state.selection.left) as u32;
    let h = (state.selection.bottom - state.selection.top) as u32;
    let mut out: Vec<char> = Vec::new();
    push_str_chars(&mut out, tool_display_name(state.tool));
    push_str_chars(&mut out, " / ");
    push_dec(&mut out, w);
    push_str_chars(&mut out, " x ");
    push_dec(&mut out, h);
    assert(out@ =~= spec_footer_text(state.tool, w as nat, h as nat));
    string_from_chars(&out)
}

/// Whether any annotation is a highlighter stroke.
pub open spec fn has_marker(anns: Seq<AnnView>) -> bool {
    exists|i: int| 0 <= i < anns.len() && #[trigger] anns[i] is Marker
}

/// A highlighter stroke is being drawn and has left its first point.
pub open spec fn drawing_marker(d: Option<crate::editor::Drag>) -> bool {
    d matches Some(crate::editor::Drag::DrawMarker { start, current }) && start != current
}

/// The selection is painted with the toolbar window (rather than under it)
/// when a frozen desktop and a picture of the selection exist and no
/// highlighter stroke, finished or in progress, needs the layered window.
pub fn should_render_selection_in_chrome(state: &EditorState, has_frozen_desktop: bool, has_selection_snapshot: bool) -> (b: bool)
    ensures
        b == (has_frozen_desktop && has_selection_snapshot && state@.tool != Tool::Marker && !drawing_marker(state@.drag)
            && !has_marker(state@.annotations)),
{
    if !has_frozen_desktop || !has_selection_snapshot {
        return false;
    }
    if state.tool == Tool::Marker || state.pending_marker().is_some() {
        return false;
    }
    let n = state.annotations.len();
    let mut i: usize = 0;
    while i < n
        invariant
            n == state.annotations@.len(),
            i <= n,
            forall|k: int| 0 <= k < i ==> !(#[trigger] state@.annotations[k] is Marker),
        decreases n - i,
    {
        assert(state@.annotations[i as int] == state.annotations@[i as int]@);
        match &state.annotations[i] {
            Annotation::Marker(_) => {
                return false;
            },
            _ => {},
        }
        i = i + 1;
    }
    true
}

pub const UI_BUTTON_ORANGE_RGB: [u8; 3] = [255, 162, 109];
pub const UI_BUTTON_BLUE_RGB: [u8; 3] = [173, 170, 243];
pub const UI_BUTTON_PINK_RGB: [u8; 3] = [214, 166, 216];

/// The base colour of a toolbar button: orange, blue or pink by button, and
/// black for the panel behind them.
pub open spec fn spec_button_base_rgb(hit: ToolbarHit) -> [u8; 3] {
    match hit {
        ToolbarHit::Select | ToolbarHit::Ellipse | ToolbarHit::Line | ToolbarHit::Save | ToolbarHit::CopyAndSave => [
            255u8,
            162u8,
            109u8,
        ],
        ToolbarHit::Rect | ToolbarHit::Arrow | ToolbarHit::Blur | ToolbarHit::Copy => [173u8, 170u8, 243u8],
        ToolbarHit::Marker | ToolbarHit::Text | ToolbarHit::Pixelate | ToolbarHit::Pin => [214u8, 166u8, 216u8],
        ToolbarHit::Panel => [0u8, 0u8, 0u8],
    }
}

pub fn toolbar_button_base_rgb(hit: ToolbarHit) -> (c: [u8; 3])
    ensures
        c == spec_button_base_rgb(hit),
{
    match hit {
        ToolbarHit::Select => UI_BUTTON_ORANGE_RGB,
        ToolbarHit::Rect => UI_BUTTON_BLUE_RGB,
        ToolbarHit::Ellipse => UI_BUTTON_ORANGE_RGB,
        ToolbarHit::Line => UI_BUTTON_ORANGE_RGB,
        ToolbarHit::Arrow => UI_BUTTON_BLUE_RGB,
        ToolbarHit::Marker => UI_BUTTON_PINK_RGB,
        ToolbarHit::Text => UI_BUTTON_PINK_RGB,
        ToolbarHit::Pixelate => UI_BUTTON_PINK_RGB,
        ToolbarHit::Blur => UI_BUTTON_BLUE_RGB,
        ToolbarHit::Copy => UI_BUTTON_BLUE_RGB,
        ToolbarHit::Save => UI_BUTTON_ORANGE_RGB,
        ToolbarHit::CopyAndSave => UI_BUTTON_ORANGE_RGB,
        ToolbarHit::Pin => UI_BUTTON_PINK_RGB,
        ToolbarHit::Panel => [0, 0, 0],
    }
}

/// Whether the editor window keys out a colour while `tool` is active. No
/// tool does: the layered window always blends by alpha.
pub fn should_use_color_key(tool: Tool, has_annotations: bool) -> (b: bool)
    ensures
        !b,
{
    let _ = (tool, has_annotations);
    false
}

/// Whether switching tools must repaint before the switch: only when the
/// old tool keyed a colour out and the new one does not.
pub fn tool_switch_needs_prepaint(from: Tool, to: Tool, has_annotations: bool) -> (b: bool)
    ensures
        !b,
{
    should_use_color_key(from, has_annotations) && !should_use_color_key(to, has_annotations)
}

/// A toolbar icon as an alpha mask of `width` x `height` pixels.
pub struct IconMask {
    pub width: i32,
    pub height: i32,
    pub alpha: Vec<u8>,
}

/// Channel `v` scaled by coverage `a` (premultiplied), rounded down.
pub open spec fn premultiplied(v: u8, a: u8) -> u8 {
    ((v as int * a as int) / 255) as u8
}

/// Byte `k` of pixel `i` of the tinted icon: premultiplied blue, green,
/// red, then the mask's alpha; zero past the end of the mask.
pub open spec fn tinted_byte(alpha: Seq<u8>, rgb: [u8; 3], i: int, k: int) -> u8 {
    if i >= alpha.len() {
        0u8
    } else if k == 0 {
        premultiplied(rgb[2], alpha[i])
    } else if k == 1 {
        premultiplied(rgb[1], alpha[i])
    } else if k == 2 {
        premultiplied(rgb[0], alpha[i])
    } else {
        alpha[i]
    }
}

/// The icon tinted with `rgb` as premultiplied BGRA pixels ready for an
/// alpha blit; an empty icon gives nothing.
pub fn icon_mask_bgra(icon: &IconMask, rgb: [u8; 3]) -> (out: Vec<u8>)
    requires
        icon.width <= 0 || icon.height <= 0 || icon.width * icon.height * 4 <= usize::MAX,
    ensures
        icon.width <= 0 || icon.height <= 0 || icon.alpha@.len() == 0 ==> out@.len() == 0,
        !(icon.width <= 0 || icon.height <= 0 || icon.alpha@.len() == 0) ==> {
            &&& out@.len() == icon.width * icon.height * 4
            &&& forall|i: int, k: int|
                0 <= i < icon.width * icon.height && 0 <= k < 4 ==> #[trigger] out@[i * 4 + k] == tinted_byte(
                    icon.alpha@,
                    rgb,
                    i,
                    k,
                )
        },
{
    let mut out: Vec<u8> = Vec::new();
    if icon.width <= 0 || icon.height <= 0 || icon.alpha.len() == 0 {
        return out;
    }
    let count = icon.width as usize * icon.height as usize;
    let n = icon.alpha.len();
    let mut i: usize = 0;
    while i < count
        invariant
            count == icon.width * icon.height,
            count * 4 <= usize::MAX,
            n == icon.alpha@.len(),
            i <= count,
            out@.len() == i * 4,
            forall|j: int, k: int| 0 <= j < i && 0 <= k < 4 ==> #[trigger] out@[j * 4 + k] == tinted_byte(icon.alpha@, rgb, j, k),
        decreases count - i,
    {
        let ghost before = out@;
        if i < n {
            let a = icon.alpha[i] as u16;
            assert(rgb[2] as u16 * a <= 65025) by (nonlinear_arith)
                requires
                    a <= 255,
            ;
            assert(rgb[1] as u16 * a <= 65025) by (nonlinear_arith)
                requires
                    a <= 255,
            ;
            assert(rgb[0] as u16 * a <= 65025) by (nonlinear_arith)
                requires
                    a <= 255,
            ;
            out.push(((rgb[2] as u16 * a) / 255) as u8);
            out.push(((rgb[1] as u16 * a) / 255) as u8);
            out.push(((rgb[0] as u16 * a) / 255) as u8);
            out.push(icon.alpha[i]);
        } else {
            out.push(0);
            out.push(0);
            out.push(0);
            out.push(0);
        }
        assert forall|j: int, k: int| 0 <= j < i + 1 && 0 <= k < 4 implies #[trigger] out@[j * 4 + k] == tinted_byte(
            icon.alpha@,
            rgb,
            j,
            k,
        ) by {
            if j < i {
                assert(out@[j * 4 + k] == before[j * 4 + k]);
            }
        }
        i = i + 1;
    }
    out
}

/// Where an icon of `width` x `height` is drawn to sit centred in `rect`
/// (at its left or top edge when it does not fit).
pub fn icon_origin(rect: RectPx, width: i32, height: i32) -> (p: Point)
    requires
        rect_ok(rect),
        0 <= width <= i32::MAX / 2,
        0 <= height <= i32::MAX / 2,
    ensures
        p.x == rect.left + spec_max(rect.right - rect.left - width, 0) / 2,
        p.y == rect.top + spec_max(rect.bottom - rect.top - height, 0) / 2,
{
    let x = rect.left + max_i32(rect.right - rect.left - width, 0) / 2;
    let y = rect.top + max_i32(rect.bottom - rect.top - height, 0) / 2;
    Point { x, y }
}

} // verus!
