//! The panel windows: display modes and the window that shows each, the
//! visible/always-on-top state, what a tray click does, and where a panel is
//! placed on screen.
use crate::text::str_eq;
use vstd::prelude::*;
use vstd::string::*;

verus! {

/// The label of the window that shows the small and large panels.
pub const MAIN_WINDOW_LABEL: &'static str = "main";

/// The label of the window that shows the ring.
pub const RING_WINDOW_LABEL: &'static str = "ring";

pub open spec fn spec_normalize_mode(mode: Seq<char>) -> Seq<char> {
    if mode == "large"@ {
        "large"@
    } else if mode == "ring"@ {
        "ring"@
    } else {
        "small"@
    }
}

pub open spec fn spec_window_label_for_mode(mode: Seq<char>) -> Seq<char> {
    if mode == "ring"@ {
        "ring"@
    } else {
        "main"@
    }
}

/// The display mode a request stands for: `large` and `ring` are kept, any
/// other mode is `small`.
pub fn normalize_mode(mode: &str) -> (r: &'static str)
    ensures
        r@ == spec_normalize_mode(mode@),
{
    if str_eq(mode, "large") {
        "large"
    } else if str_eq(mode, "ring") {
        "ring"
    } else {
        "small"
    }
}

/// The window that shows a mode: the ring has a window of its own, the small
/// and large panels share the main window.
pub fn window_label_for_mode(mode: &str) -> (r: &'static str)
    ensures
        r@ == spec_window_label_for_mode(mode@),
{
    if str_eq(mode, "ring") {
        "ring"
    } else {
        "main"
    }
}

proof fn lemma_mode_literals()
    ensures
        "large"@ != "ring"@,
        "large"@ != "small"@,
        "ring"@ != "small"@,
        "ring"@ != "main"@,
{
    reveal_strlit("large");
    reveal_strlit("ring");
    reveal_strlit("small");
    reveal_strlit("main");
    assert("large"@.len() != "ring"@.len());
    assert("ring"@.len() != "small"@.len());
    assert("large"@[0] != "small"@[0]);
    assert("ring"@[0] != "main"@[0]);
}

/// Normalising a mode twice changes nothing, and every mode maps to one of the
/// two windows.
pub proof fn lemma_normalize_mode_idempotent(mode: Seq<char>)
    ensures
        spec_normalize_mode(spec_normalize_mode(mode)) == spec_normalize_mode(mode),
        spec_window_label_for_mode(mode) == "ring"@ || spec_window_label_for_mode(mode)
            == "main"@,
        spec_window_label_for_mode(spec_normalize_mode(mode)) == spec_window_label_for_mode(mode),
{
    lemma_mode_literals();
}

/// The state of the panel windows that the front end reads.
pub struct WindowState {
    pub mode: String,
    pub always_on_top: bool,
    pub visible: bool,
}

impl Default for WindowState {
    /// A hidden small panel that stays on top.
    fn default() -> (r: WindowState)
        ensures
            r.mode@ == "small"@,
            r.always_on_top,
            !r.visible,
    {
        WindowState { mode: String::from_str("small"), always_on_top: true, visible: false }
    }
}

/// A position on screen, in physical pixels.
#[derive(Clone, Copy, Debug, PartialEq, Eq, Structural)]
pub struct WindowPosition {
    pub x: i32,
    pub y: i32,
}

/// A size, in physical pixels.
#[derive(Clone, Copy, Debug, PartialEq, Eq, Structural)]
pub struct PanelSize {
    pub width: u32,
    pub height: u32,
}

/// A monitor's work area (the screen minus task bars), in physical pixels.
#[derive(Clone, Copy, Debug, PartialEq, Eq, Structural)]
pub struct WorkArea {
    pub x: i32,
    pub y: i32,
    pub width: u32,
    pub height: u32,
}

/// The tray icon's rectangle, in physical pixels.
#[derive(Clone, Copy, Debug, PartialEq, Eq, Structural)]
pub struct TrayRect {
    pub x: i32,
    pub y: i32,
    pub width: u32,
    pub height: u32,
}

/// The gap kept between a panel and the edges of the work area.
pub const SCREEN_MARGIN: i32 = 8;

/// What the panel logic keeps between events: the mode, whether the panel is
/// on top and shown, the last remembered position, and the revision of the
/// latest request to save the state.
pub struct PanelState {
    pub mode: String,
    pub always_on_top: bool,
    pub visible: bool,
    pub position: Option<WindowPosition>,
    pub persist_revision: u64,
}

/// A point lies in a work area, edges included.
pub open spec fn area_contains(m: WorkArea, p: WindowPosition) -> bool {
    m.x <= p.x <= m.x + m.width && m.y <= p.y <= m.y + m.height
}

/// A work area whose extent can be computed in `i32`.
pub open spec fn area_fits(m: WorkArea) -> bool {
    &&& m.width <= i32::MAX
    &&& m.height <= i32::MAX
    &&& m.x + m.width <= i32::MAX
    &&& m.y + m.height <= i32::MAX
}

/// The work area a position is clamped to: the first that contains it, or the
/// first of all when none does.
pub open spec fn spec_target_monitor(ms: Seq<WorkArea>, p: WindowPosition) -> int {
    if exists|i: int| 0 <= i < ms.len() && #[trigger] area_contains(ms[i], p) {
        choose|i: int|
            0 <= i < ms.len() && area_contains(ms[i], p) && forall|j: int|
                0 <= j < i ==> !#[trigger] area_contains(ms[j], p)
    } else {
        0
    }
}

pub open spec fn clamp_min_x(m: WorkArea) -> int {
    m.x + SCREEN_MARGIN
}

pub open spec fn clamp_min_y(m: WorkArea) -> int {
    m.y + SCREEN_MARGIN
}

pub open spec fn clamp_max_x(m: WorkArea, s: PanelSize) -> int {
    m.x + m.width - s.width - SCREEN_MARGIN
}

pub open spec fn clamp_max_y(m: WorkArea, s: PanelSize) -> int {
    m.y + m.height - s.height - SCREEN_MARGIN
}

pub open spec fn clamp_int(v: int, lo: int, hi: int) -> int {
    if v < lo {
        lo
    } else if v > hi {
        hi
    } else {
        v
    }
}

/// The inputs on which clamping neither overflows nor meets an empty range
/// (`i32::clamp` panics when its lower bound is above its upper bound).
pub open spec fn clamp_inputs_ok(p: WindowPosition, s: PanelSize, ms: Seq<WorkArea>) -> bool {
    &&& forall|i: int| 0 <= i < ms.len() ==> area_fits(#[trigger] ms[i])
    &&& s.width <= i32::MAX
    &&& s.height <= i32::MAX
    &&& ms.len() > 0 ==> {
        let m = ms[spec_target_monitor(ms, p)];
        &&& clamp_min_x(m) <= clamp_max_x(m, s)
        &&& clamp_min_y(m) <= clamp_max_y(m, s)
    }
}

/// Where `clamp_position_to_work_area` puts a panel.
pub open spec fn spec_clamp_position(p: WindowPosition, s: PanelSize, ms: Seq<WorkArea>) -> WindowPosition {
    if ms.len() == 0 {
        p
    } else {
        let m = ms[spec_target_monitor(ms, p)];
        WindowPosition {
            x: clamp_int(p.x as int, clamp_min_x(m), clamp_max_x(m, s)) as i32,
            y: clamp_int(p.y as int, clamp_min_y(m), clamp_max_y(m, s)) as i32,
        }
    }
}

/// The index of the work area a position is clamped to.
fn target_monitor(p: WindowPosition, ms: &Vec<WorkArea>) -> (r: usize)
    requires
        ms.len() > 0,
        forall|i: int| 0 <= i < ms.len() ==> area_fits(#[trigger] ms@[i]),
    ensures
        r == spec_target_monitor(ms@, p),
        r < ms.len(),
{
    let mut i: usize = 0;
    while i < ms.len()
        invariant
            i <= ms.len(),
            forall|k: int| 0 <= k < ms.len() ==> area_fits(#[trigger] ms@[k]),
            forall|j: int| 0 <= j < i ==> !#[trigger] area_contains(ms@[j], p),
        decreases ms.len() - i,
    {
        let m = ms[i];
        assert(area_fits(ms@[i as int]));
        if p.x >= m.x && p.x <= m.x + m.width as i32 && p.y >= m.y && p.y <= m.y + m.height as i32 {
            proof {
                assert(area_contains(ms@[i as int], p));
                let c = choose|c: int|
                    0 <= c < ms@.len() && area_contains(ms@[c], p) && forall|j: int|
                        0 <= j < c ==> !#[trigger] area_contains(ms@[j], p);
                assert(0 <= c < ms@.len() && area_contains(ms@[c], p) && forall|j: int|
                    0 <= j < c ==> !#[trigger] area_contains(ms@[j], p));
                if c < i {
                } else if c > i {
                    assert(!area_contains(ms@[i as int], p));
                }
            }
            return i;
        }
        i = i + 1;
    }
    proof {
        assert(!(exists|k: int| 0 <= k < ms@.len() && #[trigger] area_contains(ms@[k], p)));
    }
    0
}

/// Whether a position can be clamped without overflow or an empty range.
pub fn can_clamp_position(position: WindowPosition, size: PanelSize, monitors: &Vec<WorkArea>) -> (r: bool)
    ensures
        r == clamp_inputs_ok(position, size, monitors@),
{
    let mut i: usize = 0;
    while i < monitors.len()
        invariant
            i <= monitors.len(),
            forall|k: int| 0 <= k < i ==> area_fits(#[trigger] monitors@[k]),
        decreases monitors.len() - i,
    {
        let m = monitors[i];
        let ok = m.width <= i32::MAX as u32 && m.height <= i32::MAX as u32 && m.x as i64 + m.width as i64
            <= i32::MAX as i64 && m.y as i64 + m.height as i64 <= i32::MAX as i64;
        if !ok {
            assert(!area_fits(monitors@[i as int]));
            return false;
        }
        i = i + 1;
    }
    if size.width > i32::MAX as u32 || size.height > i32::MAX as u32 {
        return false;
    }
    if monitors.len() == 0 {
        return true;
    }
    let t = target_monitor(position, monitors);
    let m = monitors[t];
    let min_x = m.x as i64 + SCREEN_MARGIN as i64;
    let min_y = m.y as i64 + SCREEN_MARGIN as i64;
    let max_x = m.x as i64 + m.width as i64 - size.width as i64 - SCREEN_MARGIN as i64;
    let max_y = m.y as i64 + m.height as i64 - size.height as i64 - SCREEN_MARGIN as i64;
    min_x <= max_x && min_y <= max_y
}

/// Keeps a panel inside the work area of the monitor that holds its
/// position (or of the first monitor), at least 8 pixels from every edge.
/// Without monitors the position is kept as it is.
pub fn clamp_position_to_work_area(
    position: WindowPosition,
    size: PanelSize,
    monitors: &Vec<WorkArea>,
) -> (r: WindowPosition)
    requires
        clamp_inputs_ok(position, size, monitors@),
    ensures
        r == spec_clamp_position(position, size, monitors@),
{
    if monitors.len() == 0 {
        return position;
    }
    let t = target_monitor(position, monitors);
    let m = monitors[t];
    let min_x = m.x + SCREEN_MARGIN;
    let min_y = m.y + SCREEN_MARGIN;
    let max_x = m.x + m.width as i32 - size.width as i32 - SCREEN_MARGIN;
    let max_y = m.y + m.height as i32 - size.height as i32 - SCREEN_MARGIN;
    let x = if position.x < min_x {
        min_x
    } else if position.x > max_x {
        max_x
    } else {
        position.x
    };
    let y = if position.y < min_y {
        min_y
    } else if position.y > max_y {
        max_y
    } else {
        position.y
    };
    WindowPosition { x, y }
}

/// A clamped panel lies inside the margins of its work area.
pub proof fn lemma_clamped_inside(p: WindowPosition, s: PanelSize, ms: Seq<WorkArea>)
    requires
        clamp_inputs_ok(p, s, ms),
        ms.len() > 0,
    ensures
        ({
            let m = ms[spec_target_monitor(ms, p)];
            let r = spec_clamp_position(p, s, ms);
            &&& clamp_min_x(m) <= r.x <= clamp_max_x(m, s)
            &&& clamp_min_y(m) <= r.y <= clamp_max_y(m, s)
        }),
{
    lemma_target_in_range(ms, p);
}

/// Clamping a position that is already inside the margins leaves it alone.
pub proof fn lemma_clamp_keeps_inside(p: WindowPosition, s: PanelSize, ms: Seq<WorkArea>)
    requires
        clamp_inputs_ok(p, s, ms),
        ms.len() > 0,
        ({
            let m = ms[spec_target_monitor(ms, p)];
            &&& clamp_min_x(m) <= p.x <= clamp_max_x(m, s)
            &&& clamp_min_y(m) <= p.y <= clamp_max_y(m, s)
        }),
    ensures
        spec_clamp_position(p, s, ms) == p,
{
}

/// A panel is clamped to a monitor whose work area holds its position in both
/// coordinates whenever some monitor does (the first such), and a position
/// that lies inside the margins of every work area holding it stays where it
/// is.
pub proof fn lemma_clamp_respects_the_holding_monitor(
    p: WindowPosition,
    s: PanelSize,
    ms: Seq<WorkArea>,
)
    requires
        clamp_inputs_ok(p, s, ms),
    ensures
        (exists|i: int|
            0 <= i < ms.len() && #[trigger] ms[i].x <= p.x <= ms[i].x + ms[i].width && ms[i].y <= p.y
                <= ms[i].y + ms[i].height) ==> ({
            let t = spec_target_monitor(ms, p);
            &&& 0 <= t < ms.len()
            &&& ms[t].x <= p.x <= ms[t].x + ms[t].width
            &&& ms[t].y <= p.y <= ms[t].y + ms[t].height
            &&& forall|j: int|
                0 <= j < t ==> !(#[trigger] ms[j].x <= p.x <= ms[j].x + ms[j].width && ms[j].y <= p.y
                    <= ms[j].y + ms[j].height)
        }),
        ((exists|i: int|
            0 <= i < ms.len() && #[trigger] ms[i].x <= p.x <= ms[i].x + ms[i].width && ms[i].y <= p.y
                <= ms[i].y + ms[i].height) && (forall|i: int|
            0 <= i < ms.len() && #[trigger] ms[i].x <= p.x <= ms[i].x + ms[i].width && ms[i].y <= p.y
                <= ms[i].y + ms[i].height ==> ms[i].x + 8 <= p.x <= ms[i].x + ms[i].width - s.width - 8
                && ms[i].y + 8 <= p.y <= ms[i].y + ms[i].height - s.height - 8)) ==> spec_clamp_position(
            p,
            s,
            ms,
        ) == p,
{
    if exists|i: int|
        0 <= i < ms.len() && #[trigger] ms[i].x <= p.x <= ms[i].x + ms[i].width && ms[i].y <= p.y
            <= ms[i].y + ms[i].height {
        let i = choose|i: int|
            0 <= i < ms.len() && #[trigger] ms[i].x <= p.x <= ms[i].x + ms[i].width && ms[i].y <= p.y
                <= ms[i].y + ms[i].height;
        assert(area_contains(ms[i], p));
        lemma_first_containing_exists(ms, p, ms.len() as int);
        let t = spec_target_monitor(ms, p);
        assert(area_contains(ms[t], p));
        assert forall|j: int| 0 <= j < t implies !(#[trigger] ms[j].x <= p.x <= ms[j].x + ms[j].width
            && ms[j].y <= p.y <= ms[j].y + ms[j].height) by {
            assert(!area_contains(ms[j], p));
        }
    }
}

proof fn lemma_target_in_range(ms: Seq<WorkArea>, p: WindowPosition)
    requires
        ms.len() > 0,
    ensures
        0 <= spec_target_monitor(ms, p) < ms.len(),
{
    if exists|i: int| 0 <= i < ms.len() && #[trigger] area_contains(ms[i], p) {
        lemma_first_containing_exists(ms, p, ms.len() as int);
    }
}

proof fn lemma_first_containing_exists(ms: Seq<WorkArea>, p: WindowPosition, n: int)
    requires
        0 <= n <= ms.len(),
        exists|i: int| 0 <= i < n && #[trigger] area_contains(ms[i], p),
    ensures
        exists|i: int|
            0 <= i < ms.len() && area_contains(ms[i], p) && forall|j: int|
                0 <= j < i ==> !#[trigger] area_contains(ms[j], p),
    decreases n,
{
    if exists|i: int| 0 <= i < n - 1 && #[trigger] area_contains(ms[i], p) {
        lemma_first_containing_exists(ms, p, n - 1);
    } else {
        let i = n - 1;
        assert(area_contains(ms[i], p));
        assert forall|j: int| 0 <= j < i implies !#[trigger] area_contains(ms[j], p) by {}
    }
}

/// The position a panel would take before clamping: the remembered one, else
/// right-aligned just above the tray icon, else 16 pixels in from the bottom
/// right corner of the primary work area, else (200, 200).
pub open spec fn spec_panel_anchor(
    saved: Option<WindowPosition>,
    tray: Option<TrayRect>,
    primary: Option<WorkArea>,
    size: PanelSize,
) -> WindowPosition {
    match saved {
        Some(p) => p,
        None => match tray {
            Some(t) => WindowPosition {
                x: (t.x + t.width - size.width) as i32,
                y: (t.y - size.height - 8) as i32,
            },
            None => match primary {
                Some(w) => WindowPosition {
                    x: (w.x + w.width - size.width - 16) as i32,
                    y: (w.y + w.height - size.height - 16) as i32,
                },
                None => WindowPosition { x: 200, y: 200 },
            },
        },
    }
}

/// The inputs on which the anchor can be computed in `i32`.
pub open spec fn anchor_inputs_ok(
    saved: Option<WindowPosition>,
    tray: Option<TrayRect>,
    primary: Option<WorkArea>,
    size: PanelSize,
) -> bool {
    &&& size.width <= i32::MAX
    &&& size.height <= i32::MAX
    &&& saved is None ==> match tray {
        Some(t) => {
            &&& t.width <= i32::MAX
            &&& t.x + t.width <= i32::MAX
            &&& i32::MIN <= t.x + t.width - size.width
            &&& i32::MIN <= t.y - size.height - 8
        },
        None => match primary {
            Some(w) => {
                &&& area_fits(w)
                &&& i32::MIN <= w.x + w.width - size.width - 16
                &&& i32::MIN <= w.y + w.height - size.height - 16
            },
            None => true,
        },
    }
}

/// The position a panel takes before clamping.
pub fn panel_anchor(
    saved: Option<WindowPosition>,
    tray: Option<TrayRect>,
    primary: Option<WorkArea>,
    size: PanelSize,
) -> (r: WindowPosition)
    requires
        anchor_inputs_ok(saved, tray, primary, size),
    ensures
        r == spec_panel_anchor(saved, tray, primary, size),
{
    match saved {
        Some(p) => p,
        None => match tray {
            Some(t) => WindowPosition {
                x: t.x + t.width as i32 - size.width as i32,
                y: t.y - size.height as i32 - 8,
            },
            None => match primary {
                Some(w) => WindowPosition {
                    x: w.x + w.width as i32 - size.width as i32 - 16,
                    y: w.y + w.height as i32 - size.height as i32 - 16,
                },
                None => WindowPosition { x: 200, y: 200 },
            },
        },
    }
}

/// Where a panel goes when it is shown: its anchor, clamped to a work area.
pub fn preferred_position(
    saved: Option<WindowPosition>,
    tray: Option<TrayRect>,
    primary: Option<WorkArea>,
    monitors: &Vec<WorkArea>,
    size: PanelSize,
) -> (r: WindowPosition)
    requires
        anchor_inputs_ok(saved, tray, primary, size),
        clamp_inputs_ok(spec_panel_anchor(saved, tray, primary, size), size, monitors@),
    ensures
        r == spec_clamp_position(spec_panel_anchor(saved, tray, primary, size), size, monitors@),
{
    let anchor = panel_anchor(saved, tray, primary, size);
    clamp_position_to_work_area(anchor, size, monitors)
}

/// Whether the anchor of a panel can be computed without overflow.
pub fn can_anchor(
    saved: Option<WindowPosition>,
    tray: Option<TrayRect>,
    primary: Option<WorkArea>,
    size: PanelSize,
) -> (r: bool)
    ensures
        r == anchor_inputs_ok(saved, tray, primary, size),
{
    if size.width > i32::MAX as u32 || size.height > i32::MAX as u32 {
        return false;
    }
    if saved.is_some() {
        return true;
    }
    match tray {
        Some(t) => t.width <= i32::MAX as u32 && t.x as i64 + t.width as i64 <= i32::MAX as i64 && t.x as i64
            + t.width as i64 - size.width as i64 >= i32::MIN as i64 && t.y as i64 - size.height as i64
            - 8 >= i32::MIN as i64,
        None => match primary {
            Some(w) => w.width <= i32::MAX as u32 && w.height <= i32::MAX as u32 && w.x as i64
                + w.width as i64 <= i32::MAX as i64 && w.y as i64 + w.height as i64 <= i32::MAX as i64
                && w.x as i64 + w.width as i64 - size.width as i64 - 16 >= i32::MIN as i64 && w.y as i64
                + w.height as i64 - size.height as i64 - 16 >= i32::MIN as i64,
            None => true,
        },
    }
}

/// What a left click on the tray icon does.
#[derive(Clone, Copy, Debug, PartialEq, Eq, Structural)]
pub enum TrayClickAction {
    /// Hide the shown, always-on-top panel.
    Hide,
    /// Raise the shown panel that is not on top.
    BringToFront,
    /// Show the hidden panel next to the tray icon in its mode.
    Show,
}

pub open spec fn spec_tray_click_action(visible: bool, always_on_top: bool) -> TrayClickAction {
    if visible && always_on_top {
        TrayClickAction::Hide
    } else if visible {
        TrayClickAction::BringToFront
    } else {
        TrayClickAction::Show
    }
}

/// How `show_panel_near_tray` goes about showing a mode.
pub struct ShowPanelPlan {
    /// The normalised mode being shown.
    pub mode: &'static str,
    /// The window that shows it.
    pub label: &'static str,
    /// The window whose size and position are remembered first, when the mode
    /// changes.
    pub capture_label: Option<&'static str>,
    /// The other window, which is hidden.
    pub hide_label: &'static str,
    /// Whether the mode is the ring.
    pub ring: bool,
}

pub open spec fn opt_str_view(o: Option<&'static str>) -> Option<Seq<char>> {
    match o {
        Some(s) => Some(s@),
        None => None,
    }
}

/// Plans how to show `requested` when `previous` is the current mode.
pub fn show_panel_plan(previous: &str, requested: &str) -> (r: ShowPanelPlan)
    ensures
        r.mode@ == spec_normalize_mode(requested@),
        r.label@ == spec_window_label_for_mode(r.mode@),
        opt_str_view(r.capture_label) == if previous@ != r.mode@ {
            Some(spec_window_label_for_mode(previous@))
        } else {
            None::<Seq<char>>
        },
        r.ring == (r.mode@ == "ring"@),
        r.hide_label@ == if r.ring {
            "main"@
        } else {
            "ring"@
        },
{
    let mode = normalize_mode(requested);
    let capture_label = if !str_eq(previous, mode) {
        Some(window_label_for_mode(previous))
    } else {
        None
    };
    let ring = str_eq(mode, "ring");
    ShowPanelPlan {
        mode,
        label: window_label_for_mode(mode),
        capture_label,
        hide_label: if ring {
            "main"
        } else {
            "ring"
        },
        ring,
    }
}

/// Which remembered size a captured window updates.
#[derive(Clone, Copy, Debug, PartialEq, Eq, Structural)]
pub enum SizeSlot {
    Large,
    Ring,
    Neither,
}

pub open spec fn spec_capture_slot(label: Seq<char>, mode: Seq<char>) -> SizeSlot {
    if label == "main"@ && mode == "large"@ {
        SizeSlot::Large
    } else if label == "ring"@ && mode == "ring"@ {
        SizeSlot::Ring
    } else {
        SizeSlot::Neither
    }
}

/// The remembered size that capturing window `label` in `mode` updates: the
/// main window's size only in the large mode, the ring window's only in the
/// ring mode.
pub fn capture_slot(label: &str, mode: &str) -> (r: SizeSlot)
    ensures
        r == spec_capture_slot(label@, mode@),
{
    if str_eq(label, "main") && str_eq(mode, "large") {
        SizeSlot::Large
    } else if str_eq(label, "ring") && str_eq(mode, "ring") {
        SizeSlot::Ring
    } else {
        SizeSlot::Neither
    }
}

impl PanelState {
    /// The state at start-up: the saved mode normalised (small when none was
    /// saved), the saved always-on-top flag (on when none was saved), hidden,
    /// at the saved position.
    pub fn from_saved(
        mode: Option<&str>,
        always_on_top: Option<bool>,
        position: Option<WindowPosition>,
    ) -> (r: PanelState)
        ensures
            r.mode@ == match mode {
                Some(m) => spec_normalize_mode(m@),
                None => "small"@,
            },
            r.always_on_top == match always_on_top {
                Some(b) => b,
                None => true,
            },
            !r.visible,
            r.position == position,
            r.persist_revision == 0,
    {
        let m = match mode {
            Some(m) => normalize_mode(m),
            None => "small",
        };
        PanelState {
            mode: String::from_str(m),
            always_on_top: match always_on_top {
                Some(b) => b,
                None => true,
            },
            visible: false,
            position,
            persist_revision: 0,
        }
    }

    /// The part of the state the front end reads.
    pub fn window_state(&self) -> (r: WindowState)
        ensures
            r.mode@ == self.mode@,
            r.always_on_top == self.always_on_top,
            r.visible == self.visible,
    {
        WindowState {
            mode: self.mode.clone(),
            always_on_top: self.always_on_top,
            visible: self.visible,
        }
    }

    /// The window that shows the current mode.
    pub fn active_window_label(&self) -> (r: &'static str)
        ensures
            r@ == spec_window_label_for_mode(self.mode@),
    {
        window_label_for_mode(self.mode.as_str())
    }

    /// What a left click on the tray icon does in this state.
    pub fn tray_click_action(&self) -> (r: TrayClickAction)
        ensures
            r == spec_tray_click_action(self.visible, self.always_on_top),
    {
        if self.visible && self.always_on_top {
            TrayClickAction::Hide
        } else if self.visible {
            TrayClickAction::BringToFront
        } else {
            TrayClickAction::Show
        }
    }

    /// Records that a panel in `mode` is shown.
    pub fn mark_shown(&mut self, mode: &'static str)
        ensures
            final(self).mode@ == mode@,
            final(self).visible,
            final(self).always_on_top == old(self).always_on_top,
            final(self).position == old(self).position,
            final(self).persist_revision == old(self).persist_revision,
    {
        self.mode = String::from_str(mode);
        self.visible = true;
    }

    /// Records that the panels are hidden.
    pub fn mark_hidden(&mut self)
        ensures
            final(self).mode@ == old(self).mode@,
            !final(self).visible,
            final(self).always_on_top == old(self).always_on_top,
            final(self).position == old(self).position,
            final(self).persist_revision == old(self).persist_revision,
    {
        self.visible = false;
    }

    /// Flips the always-on-top flag and returns its new value.
    pub fn toggle_topmost(&mut self) -> (r: bool)
        ensures
            r == !old(self).always_on_top,
            final(self).always_on_top == r,
            final(self).mode@ == old(self).mode@,
            final(self).visible == old(self).visible,
            final(self).position == old(self).position,
            final(self).persist_revision == old(self).persist_revision,
    {
        self.always_on_top = !self.always_on_top;
        self.always_on_top
    }

    /// Remembers where the panel was when it was captured.
    pub fn remember_position(&mut self, position: Option<WindowPosition>)
        ensures
            final(self).position == match position {
                Some(p) => Some(p),
                None => old(self).position,
            },
            final(self).mode@ == old(self).mode@,
            final(self).visible == old(self).visible,
            final(self).always_on_top == old(self).always_on_top,
            final(self).persist_revision == old(self).persist_revision,
    {
        match position {
            Some(p) => {
                self.position = Some(p);
            },
            None => {},
        }
    }

    /// Whether raising the panel has to put it on top for a moment (it is
    /// not kept on top).
    pub fn needs_temporary_topmost(&self) -> (r: bool)
        ensures
            r == !self.always_on_top,
    {
        !self.always_on_top
    }

    /// Whether collapsing or expanding the small panel's actions resizes the
    /// window: only in the small mode.
    pub fn resizes_small_actions(&self) -> (r: bool)
        ensures
            r == (self.mode@ == "small"@),
    {
        str_eq(self.mode.as_str(), "small")
    }

    /// Whether a change of window `label` concerns the shown mode.
    pub fn is_active_window(&self, label: &str) -> (r: bool)
        ensures
            r == (spec_window_label_for_mode(self.mode@) == label@),
    {
        str_eq(self.active_window_label(), label)
    }

    /// Starts a new request to save the state and returns its revision; the
    /// revision wraps around.
    pub fn next_persist_revision(&mut self) -> (r: u64)
        ensures
            r == (if old(self).persist_revision == u64::MAX {
                0
            } else {
                old(self).persist_revision + 1
            }),
            final(self).persist_revision == r,
            final(self).mode@ == old(self).mode@,
            final(self).visible == old(self).visible,
            final(self).always_on_top == old(self).always_on_top,
            final(self).position == old(self).position,
    {
        self.persist_revision = self.persist_revision.wrapping_add(1);
        self.persist_revision
    }

    /// Whether a delayed save is still the latest one requested.
    pub fn is_latest_revision(&self, revision: u64) -> (r: bool)
        ensures
            r == (self.persist_revision == revision),
    {
        self.persist_revision == revision
    }
}

/// A tray click on a shown, always-on-top panel hides it, on a hidden panel
/// shows it, and otherwise raises the panel.
pub proof fn lemma_tray_click_cases(visible: bool, always_on_top: bool)
    ensures
        spec_tray_click_action(visible, always_on_top) == TrayClickAction::Hide <==> visible
            && always_on_top,
        spec_tray_click_action(visible, always_on_top) == TrayClickAction::Show <==> !visible,
        spec_tray_click_action(visible, always_on_top) == TrayClickAction::BringToFront <==> visible
            && !always_on_top,
{
}

} // verus!
