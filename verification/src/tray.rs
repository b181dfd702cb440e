//! The tray icon's popup menu: its rows, which row a point falls on, and the
//! action codes posted back to the main loop.
use vstd::prelude::*;
use crate::geometry::{point_in, spec_point_in, Point, RectPx};

verus! {

pub const ACTION_CAPTURE_DEFAULT: usize = 1;
pub const ACTION_CAPTURE_PRIMARY: usize = 2;
pub const ACTION_CAPTURE_REGION: usize = 3;
pub const ACTION_CAPTURE_ALL: usize = 4;
pub const ACTION_SETTINGS: usize = 5;
pub const ACTION_QUIT: usize = 6;

pub const POPUP_WIDTH: i32 = 268;
pub const POPUP_OUTER_PADDING_Y: i32 = 8;
pub const POPUP_ROW_HEIGHT: i32 = 36;
pub const POPUP_SEPARATOR_HEIGHT: i32 = 10;
pub const POPUP_ROW_MARGIN_X: i32 = 8;

/// What the tray menu asks the application to do.
#[derive(Clone, Copy, Debug, PartialEq, Eq, Structural)]
pub enum TrayAction {
    CaptureDefault,
    CapturePrimary,
    CaptureRegion,
    CaptureAllDisplays,
    Settings,
    Quit,
}

/// The message code of each action.
pub open spec fn spec_action_code(a: TrayAction) -> usize {
    match a {
        TrayAction::CaptureDefault => ACTION_CAPTURE_DEFAULT,
        TrayAction::CapturePrimary => ACTION_CAPTURE_PRIMARY,
        TrayAction::CaptureRegion => ACTION_CAPTURE_REGION,
        TrayAction::CaptureAllDisplays => ACTION_CAPTURE_ALL,
        TrayAction::Settings => ACTION_SETTINGS,
        TrayAction::Quit => ACTION_QUIT,
    }
}

/// The action a message code names, if any.
pub open spec fn spec_action_from_code(code: usize) -> Option<TrayAction> {
    if code == ACTION_CAPTURE_DEFAULT {
        Some(TrayAction::CaptureDefault)
    } else if code == ACTION_CAPTURE_PRIMARY {
        Some(TrayAction::CapturePrimary)
    } else if code == ACTION_CAPTURE_REGION {
        Some(TrayAction::CaptureRegion)
    } else if code == ACTION_CAPTURE_ALL {
        Some(TrayAction::CaptureAllDisplays)
    } else if code == ACTION_SETTINGS {
        Some(TrayAction::Settings)
    } else if code == ACTION_QUIT {
        Some(TrayAction::Quit)
    } else {
        None
    }
}

impl TrayAction {
    /// The action a message code names; `None` for any other code.
    pub fn from_code(code: usize) -> (a: Option<Self>)
        ensures
            a == spec_action_from_code(code),
    {
        if code == ACTION_CAPTURE_DEFAULT {
            Some(TrayAction::CaptureDefault)
        } else if code == ACTION_CAPTURE_PRIMARY {
            Some(TrayAction::CapturePrimary)
        } else if code == ACTION_CAPTURE_REGION {
            Some(TrayAction::CaptureRegion)
        } else if code == ACTION_CAPTURE_ALL {
            Some(TrayAction::CaptureAllDisplays)
        } else if code == ACTION_SETTINGS {
            Some(TrayAction::Settings)
        } else if code == ACTION_QUIT {
            Some(TrayAction::Quit)
        } else {
            None
        }
    }

    /// The message code posted for this action.
    pub fn code(self) -> (c: usize)
        ensures
            c == spec_action_code(self),
    {
        match self {
            TrayAction::CaptureDefault => ACTION_CAPTURE_DEFAULT,
            TrayAction::CapturePrimary => ACTION_CAPTURE_PRIMARY,
            TrayAction::CaptureRegion => ACTION_CAPTURE_REGION,
            TrayAction::CaptureAllDisplays => ACTION_CAPTURE_ALL,
            TrayAction::Settings => ACTION_SETTINGS,
            TrayAction::Quit => ACTION_QUIT,
        }
    }
}

/// A code posted for an action reads back as that action, and a code that
/// reads as an action is that action's code.
pub proof fn law_action_code_roundtrip(a: TrayAction, code: usize)
    ensures
        spec_action_from_code(spec_action_code(a)) == Some(a),
        spec_action_from_code(code) == Some(a) ==> spec_action_code(a) == code,
{
}

/// A row of the tray popup: an action with its label, or a separator.
#[derive(Clone, Copy)]
pub enum PopupRow {
    Action(&'static str, TrayAction),
    Separator,
}

/// The popup's rows as plain values: the action of each row, `None` for a separator.
pub open spec fn spec_popup_actions() -> Seq<Option<TrayAction>> {
    seq![
        Some(TrayAction::CaptureRegion),
        Some(TrayAction::CapturePrimary),
        Some(TrayAction::CaptureAllDisplays),
        None,
        Some(TrayAction::Settings),
        None,
        Some(TrayAction::Quit),
    ]
}

pub open spec fn row_action(r: PopupRow) -> Option<TrayAction> {
    match r {
        PopupRow::Action(_, a) => Some(a),
        PopupRow::Separator => None,
    }
}

/// The label that names an action in the popup; the default capture, which
/// a click on the icon itself starts, has no row.
pub open spec fn action_label(a: TrayAction) -> Option<Seq<char>> {
    match a {
        TrayAction::CaptureDefault => None,
        TrayAction::CaptureRegion => Some("Capture Region"@),
        TrayAction::CapturePrimary => Some("Capture Primary"@),
        TrayAction::CaptureAllDisplays => Some("Capture All Displays"@),
        TrayAction::Settings => Some("Settings..."@),
        TrayAction::Quit => Some("Quit"@),
    }
}

/// The label a row shows, `None` for a separator.
pub open spec fn row_label(r: PopupRow) -> Option<Seq<char>> {
    match r {
        PopupRow::Action(l, _) => Some(l@),
        PopupRow::Separator => None,
    }
}

/// The labels of the popup's rows as the menu shows them, top to bottom.
pub open spec fn spec_popup_labels() -> Seq<Option<Seq<char>>> {
    seq![
        Some("Capture Region"@),
        Some("Capture Primary"@),
        Some("Capture All Displays"@),
        None,
        Some("Settings..."@),
        None,
        Some("Quit"@),
    ]
}

/// Each action row of the popup does what its label says: the row shown
/// as "Capture Region" captures a region, "Capture Primary" the primary
/// display, "Capture All Displays" every display, "Settings..." opens the
/// settings and "Quit" quits; separators carry no action.
pub proof fn law_popup_rows_do_what_they_say(i: int)
    requires
        0 <= i < 7,
    ensures
        spec_popup_actions()[i] is Some <==> spec_popup_labels()[i] is Some,
        spec_popup_actions()[i] matches Some(a) ==> spec_popup_labels()[i] == action_label(a),
{
}

/// The rows of the tray popup, top to bottom.
pub fn popup_rows() -> (rows: [PopupRow; 7])
    ensures
        forall|i: int| 0 <= i < 7 ==> #[trigger] row_action(rows@[i]) == spec_popup_actions()[i],
        forall|i: int| 0 <= i < 7 ==> #[trigger] row_label(rows@[i]) == spec_popup_labels()[i],
{
    [
        PopupRow::Action("Capture Region", TrayAction::CaptureRegion),
        PopupRow::Action("Capture Primary", TrayAction::CapturePrimary),
        PopupRow::Action("Capture All Displays", TrayAction::CaptureAllDisplays),
        PopupRow::Separator,
        PopupRow::Action("Settings...", TrayAction::Settings),
        PopupRow::Separator,
        PopupRow::Action("Quit", TrayAction::Quit),
    ]
}

/// The height of a popup row.
pub open spec fn row_height(a: Option<TrayAction>) -> int {
    match a {
        Some(_) => POPUP_ROW_HEIGHT as int,
        None => POPUP_SEPARATOR_HEIGHT as int,
    }
}

/// The total height of the first `n` rows.
pub open spec fn rows_height(n: int) -> int
    decreases n,
{
    if n <= 0 {
        0
    } else {
        rows_height(n - 1) + row_height(spec_popup_actions()[n - 1])
    }
}

/// The top edge of row `i`.
pub open spec fn row_top(i: int) -> int {
    POPUP_OUTER_PADDING_Y + rows_height(i)
}

/// The box of an action row.
pub open spec fn row_rect(i: int) -> RectPx {
    RectPx {
        left: POPUP_ROW_MARGIN_X,
        top: row_top(i) as i32,
        right: (POPUP_WIDTH - POPUP_ROW_MARGIN_X) as i32,
        bottom: (row_top(i) + POPUP_ROW_HEIGHT) as i32,
    }
}

/// Whether row `i` is an action row under `p`.
pub open spec fn row_hit(p: Point, i: int) -> bool {
    &&& 0 <= i < 7
    &&& spec_popup_actions()[i] is Some
    &&& spec_point_in(p, row_rect(i))
}

/// The action row under a point, if any.
pub open spec fn spec_hover_row(p: Point) -> Option<usize> {
    if exists|i: int| row_hit(p, i) {
        Some((choose|i: int| row_hit(p, i)) as usize)
    } else {
        None
    }
}

/// The popup's full height: padding above and below and every row.
pub fn popup_height() -> (h: i32)
    ensures
        h == 2 * POPUP_OUTER_PADDING_Y + rows_height(7),
{
    let rows = popup_rows();
    let mut total: i32 = 0;
    let mut i: usize = 0;
    while i < 7
        invariant
            i <= 7,
            forall|k: int| 0 <= k < 7 ==> #[trigger] row_action(rows@[k]) == spec_popup_actions()[k],
            total == rows_height(i as int),
            0 <= total <= 36 * i,
        decreases 7 - i,
    {
        assert(row_action(rows@[i as int]) == spec_popup_actions()[i as int]);
        match rows[i] {
            PopupRow::Action(_, _) => {
                total = total + POPUP_ROW_HEIGHT;
            },
            PopupRow::Separator => {
                total = total + POPUP_SEPARATOR_HEIGHT;
            },
        }
        i = i + 1;
    }
    POPUP_OUTER_PADDING_Y * 2 + total
}

proof fn lemma_rows_height_monotone(a: int, b: int)
    requires
        0 <= a <= b <= 7,
    ensures
        rows_height(a) + POPUP_SEPARATOR_HEIGHT * (b - a) <= rows_height(b) <= rows_height(a) + POPUP_ROW_HEIGHT * (b - a),
    decreases b - a,
{
    if a < b {
        lemma_rows_height_monotone(a, b - 1);
    }
}

/// The action row under a point, top to bottom; `None` off every action row.
pub fn hover_row_at_point(point: Point) -> (r: Option<usize>)
    ensures
        r == spec_hover_row(point),
{
    let rows = popup_rows();
    let mut current_y: i32 = POPUP_OUTER_PADDING_Y;
    let mut index: usize = 0;
    while index < 7
        invariant
            index <= 7,
            forall|k: int| 0 <= k < 7 ==> #[trigger] row_action(rows@[k]) == spec_popup_actions()[k],
            current_y == row_top(index as int),
            current_y <= 8 + 36 * index,
            forall|k: int| 0 <= k < index ==> !#[trigger] row_hit(point, k),
        decreases 7 - index,
    {
        assert(row_action(rows@[index as int]) == spec_popup_actions()[index as int]);
        match rows[index] {
            PopupRow::Separator => {
                current_y = current_y + POPUP_SEPARATOR_HEIGHT;
            },
            PopupRow::Action(_, _) => {
                let rect = RectPx {
                    left: POPUP_ROW_MARGIN_X,
                    top: current_y,
                    right: POPUP_WIDTH - POPUP_ROW_MARGIN_X,
                    bottom: current_y + POPUP_ROW_HEIGHT,
                };
                assert(rect == row_rect(index as int));
                if point_in(point, rect) {
                    assert(row_hit(point, index as int));
                    proof {
                        lemma_one_row_hit(point, index as int);
                    }
                    return Some(index);
                }
                current_y = current_y + POPUP_ROW_HEIGHT;
            },
        }
        index = index + 1;
    }
    None
}

/// Action rows do not overlap, so at most one is under a point.
proof fn lemma_one_row_hit(p: Point, i: int)
    requires
        row_hit(p, i),
    ensures
        forall|j: int| #[trigger] row_hit(p, j) ==> j == i,
{
    assert forall|j: int| #[trigger] row_hit(p, j) implies j == i by {
        if j < i {
            lemma_rows_height_monotone(j + 1, i);
        } else if i < j {
            lemma_rows_height_monotone(i + 1, j);
        }
        lemma_rows_height_monotone(0, i);
        lemma_rows_height_monotone(0, j);
    }
}

/// The action of the row under a point; `None` off the action rows.
pub fn action_at_point(point: Point) -> (a: Option<TrayAction>)
    ensures
        a == (match spec_hover_row(point) {
            Some(i) => spec_popup_actions()[i as int],
            None => None,
        }),
{
    let hovered = match hover_row_at_point(point) {
        Some(i) => i,
        None => {
            return None;
        },
    };
    let rows = popup_rows();
    if hovered >= 7 {
        return None;
    }
    assert(row_action(rows@[hovered as int]) == spec_popup_actions()[hovered as int]);
    match rows[hovered] {
        PopupRow::Action(_, action) => Some(action),
        PopupRow::Separator => None,
    }
}

/// The low sixteen bits of a word as a signed coordinate.
pub open spec fn signed_low16(raw: u32) -> int {
    let lo = raw % 65536;
    if lo >= 32768 {
        lo - 65536
    } else {
        lo as int
    }
}

fn low16_signed(raw: u32) -> (v: i32)
    ensures
        v == signed_low16(raw),
{
    let lo = raw & 0xFFFF;
    assert(raw & 0xFFFF == raw % 65536) by (bit_vector);
    if lo >= 32768 {
        (lo as i32) - 65536
    } else {
        lo as i32
    }
}

/// The client point packed into a mouse message: x in the low word, y in the
/// high word of the low 32 bits, each sign-extended.
pub fn point_from_lparam(lparam: isize) -> (p: Point)
    ensures
        p.x == signed_low16(lparam as u32),
        p.y == signed_low16((lparam as u32) / 65536),
{
    let raw = #[verifier::truncate] (lparam as u32);
    let high = raw >> 16;
    assert(raw >> 16 == raw / 65536) by (bit_vector);
    Point { x: low16_signed(raw), y: low16_signed(high) }
}

/// Whether a notification code is the expected event, either whole or in its
/// low word.
pub fn matches_notify_event(raw: u32, expected: u32) -> (b: bool)
    ensures
        b == (raw == expected || raw % 65536 == expected),
{
    let lo = raw & 0xFFFF;
    assert(raw & 0xFFFF == raw % 65536) by (bit_vector);
    raw == expected || lo == expected
}

/// A colour as Windows packs it: red in the low byte, then green, then blue.
pub open spec fn spec_rgb(red: u8, green: u8, blue: u8) -> u32 {
    (red + green * 256 + blue * 65536) as u32
}

pub fn rgb(red: u8, green: u8, blue: u8) -> (c: u32)
    ensures
        c == spec_rgb(red, green, blue),
{
    (red as u32) + (green as u32) * 256 + (blue as u32) * 65536
}

/// The popup's colours for the light or dark theme.
#[derive(Clone, Copy, Debug, PartialEq, Eq, Structural)]
pub struct PopupPalette {
    pub background: u32,
    pub border: u32,
    pub hover: u32,
    pub separator: u32,
    pub text: u32,
}

impl PopupPalette {
    pub fn from_dark_mode(dark_mode: bool) -> (p: Self)
        ensures
            dark_mode ==> p == (PopupPalette {
                background: spec_rgb(32, 32, 32),
                border: spec_rgb(58, 58, 58),
                hover: spec_rgb(62, 62, 62),
                separator: spec_rgb(77, 77, 77),
                text: spec_rgb(240, 240, 240),
            }),
            !dark_mode ==> p == (PopupPalette {
                background: spec_rgb(248, 248, 248),
                border: spec_rgb(216, 216, 216),
                hover: spec_rgb(232, 232, 232),
                separator: spec_rgb(224, 224, 224),
                text: spec_rgb(26, 26, 26),
            }),
    {
        if dark_mode {
            PopupPalette {
                background: rgb(32, 32, 32),
                border: rgb(58, 58, 58),
                hover: rgb(62, 62, 62),
                separator: rgb(77, 77, 77),
                text: rgb(240, 240, 240),
            }
        } else {
            PopupPalette {
                background: rgb(248, 248, 248),
                border: rgb(216, 216, 216),
                hover: rgb(232, 232, 232),
                separator: rgb(224, 224, 224),
                text: rgb(26, 26, 26),
            }
        }
    }
}

} // verus!
