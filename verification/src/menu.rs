//! The tray's state (menu settings, last quota reading, update status), the
//! context menu it shows, and what a click on a menu item does to it.
use crate::text::{decimal, has_prefix, push_str, str_eq};
use crate::tray::{
    auto_refresh_item_id, auto_refresh_label, auto_refresh_prefix, auto_refresh_preset_label,
    color_scheme_item_id, color_scheme_prefix, color_schemes, display_version, is_opacity_preset,
    is_opacity_value, make_tooltip, opacity_item_id, opacity_label, opacity_preset_label,
    opacity_prefix, parse_auto_refresh_menu_id, parse_opacity_menu_id, pick_quota_color,
    pick_tray_palette, scheme_label, scheme_name, scheme_named, spec_display_version,
    spec_make_tooltip, spec_parse_auto_refresh_menu_id, spec_parse_color_scheme_menu_id,
    spec_parse_opacity_menu_id, spec_quota_color, Color, ColorScheme, TrayPalette,
    auto_refresh_presets, auto_refresh_labels, opacity_presets, opacity_labels,
    lemma_auto_refresh_id_roundtrip, lemma_color_scheme_id_roundtrip, lemma_opacity_id_roundtrip,
    parse_color_scheme_menu_id,
};
use vstd::prelude::*;
use vstd::string::*;

verus! {

/// What the tray remembers: the menu settings, the last quota reading shown in
/// the icon, and what the last update check found.
pub struct TrayState {
    autostart: bool,
    auto_refresh_seconds: u32,
    color_scheme: ColorScheme,
    dark_mode: bool,
    opacity: u32,
    primary_remaining: Option<i64>,
    secondary_remaining: Option<i64>,
    status: String,
    update_available: bool,
    update_checked: bool,
    latest_version: Option<String>,
}

pub struct TrayStateView {
    pub autostart: bool,
    pub auto_refresh_seconds: u32,
    pub color_scheme: ColorScheme,
    pub dark_mode: bool,
    pub opacity: u32,
    pub primary_remaining: Option<i64>,
    pub secondary_remaining: Option<i64>,
    pub status: Seq<char>,
    pub update_available: bool,
    pub update_checked: bool,
    pub latest_version: Option<Seq<char>>,
}

pub open spec fn opt_view(o: Option<String>) -> Option<Seq<char>> {
    match o {
        Some(s) => Some(s@),
        None => None,
    }
}

impl View for TrayState {
    type V = TrayStateView;

    closed spec fn view(&self) -> TrayStateView {
        TrayStateView {
            autostart: self.autostart,
            auto_refresh_seconds: self.auto_refresh_seconds,
            color_scheme: self.color_scheme,
            dark_mode: self.dark_mode,
            opacity: self.opacity,
            primary_remaining: self.primary_remaining,
            secondary_remaining: self.secondary_remaining,
            status: self.status@,
            update_available: self.update_available,
            update_checked: self.update_checked,
            latest_version: opt_view(self.latest_version),
        }
    }
}

/// The state a fresh tray starts in.
pub open spec fn initial_tray_state() -> TrayStateView {
    TrayStateView {
        autostart: false,
        auto_refresh_seconds: 30,
        color_scheme: ColorScheme::Blue,
        dark_mode: false,
        opacity: 90,
        primary_remaining: None,
        secondary_remaining: None,
        status: "idle"@,
        update_available: false,
        update_checked: false,
        latest_version: None,
    }
}

/// The appearance after a request to change it: an unknown scheme name and
/// an opacity that is no preset leave those settings as they were.
pub open spec fn appearance_after(
    st: TrayStateView,
    color_scheme: Seq<char>,
    dark_mode: bool,
    opacity: u32,
) -> TrayStateView {
    TrayStateView {
        color_scheme: match scheme_named(color_scheme) {
            Some(c) => c,
            None => st.color_scheme,
        },
        dark_mode,
        opacity: if is_opacity_value(opacity) {
            opacity
        } else {
            st.opacity
        },
        ..st
    }
}

/// The latest version remembered after an update check: only when an update is
/// available, and only when it has a name.
pub open spec fn remembered_latest(available: bool, latest: Option<Seq<char>>) -> Option<
    Seq<char>,
> {
    if available {
        let v = match latest {
            Some(s) => s,
            None => Seq::<char>::empty(),
        };
        if v.len() > 0 {
            Some(v)
        } else {
            None
        }
    } else {
        None
    }
}

/// The text of the menu's version item.
pub open spec fn spec_version_label(st: TrayStateView, app_version: Seq<char>) -> Seq<char> {
    let dv = spec_display_version(app_version);
    if st.update_available {
        match st.latest_version {
            Some(v) => "更新"@ + dv + " » "@ + v,
            None => "更新到最新版本"@,
        }
    } else if st.update_checked {
        "版本 "@ + dv + "（最新）"@
    } else {
        "版本 "@ + dv
    }
}

/// A check item of the menu.
pub struct MenuCheck {
    pub id: String,
    pub label: String,
    pub checked: bool,
}

pub struct MenuCheckView {
    pub id: Seq<char>,
    pub label: Seq<char>,
    pub checked: bool,
}

impl View for MenuCheck {
    type V = MenuCheckView;

    open spec fn view(&self) -> MenuCheckView {
        MenuCheckView { id: self.id@, label: self.label@, checked: self.checked }
    }
}

/// One entry of the context menu.
pub enum MenuEntry {
    Item { id: String, label: String },
    Check(MenuCheck),
    Submenu { label: String, items: Vec<MenuCheck> },
    Separator,
}

pub enum MenuEntryView {
    Item { id: Seq<char>, label: Seq<char> },
    Check(MenuCheckView),
    Submenu { label: Seq<char>, items: Seq<MenuCheckView> },
    Separator,
}

pub open spec fn checks_view(items: Seq<MenuCheck>) -> Seq<MenuCheckView> {
    items.map_values(|c: MenuCheck| c@)
}

impl View for MenuEntry {
    type V = MenuEntryView;

    open spec fn view(&self) -> MenuEntryView {
        match self {
            MenuEntry::Item { id, label } => MenuEntryView::Item { id: id@, label: label@ },
            MenuEntry::Check(c) => MenuEntryView::Check(c@),
            MenuEntry::Submenu { label, items } => MenuEntryView::Submenu {
                label: label@,
                items: checks_view(items@),
            },
            MenuEntry::Separator => MenuEntryView::Separator,
        }
    }
}

pub open spec fn entries_view(entries: Seq<MenuEntry>) -> Seq<MenuEntryView> {
    entries.map_values(|e: MenuEntry| e@)
}

pub open spec fn item(id: Seq<char>, label: Seq<char>) -> MenuEntryView {
    MenuEntryView::Item { id, label }
}

pub open spec fn check(id: Seq<char>, label: Seq<char>, checked: bool) -> MenuEntryView {
    MenuEntryView::Check(MenuCheckView { id, label, checked })
}

/// The nine colour-scheme items; the current scheme is checked.
pub open spec fn color_scheme_items(current: ColorScheme) -> Seq<MenuCheckView> {
    Seq::new(
        9,
        |i: int|
            MenuCheckView {
                id: color_scheme_prefix() + scheme_name(color_schemes()[i]),
                label: scheme_label(color_schemes()[i]),
                checked: color_schemes()[i] == current,
            },
    )
}

/// The ten opacity items; the current opacity is checked.
pub open spec fn opacity_items(current: u32) -> Seq<MenuCheckView> {
    Seq::new(
        10,
        |i: int|
            MenuCheckView {
                id: opacity_prefix() + decimal(opacity_presets()[i] as nat),
                label: opacity_labels()[i],
                checked: opacity_presets()[i] == current,
            },
    )
}

/// The seven auto-refresh items; the current interval is checked.
pub open spec fn auto_refresh_items(current: u32) -> Seq<MenuCheckView> {
    Seq::new(
        7,
        |i: int|
            MenuCheckView {
                id: auto_refresh_prefix() + decimal(auto_refresh_presets()[i] as nat),
                label: auto_refresh_labels()[i],
                checked: auto_refresh_presets()[i] == current,
            },
    )
}

pub open spec fn opacity_menu_label(opacity: u32) -> Seq<char> {
    "透明度 "@ + match opacity_preset_label(opacity) {
        Some(l) => l,
        None => "90%"@,
    }
}

pub open spec fn auto_refresh_menu_label(seconds: u32) -> Seq<char> {
    "自动刷新 "@ + match auto_refresh_preset_label(seconds) {
        Some(l) => l,
        None => "30s"@,
    }
}

/// The whole context menu for a tray state and the window's always-on-top flag.
pub open spec fn spec_tray_menu(
    st: TrayStateView,
    always_on_top: bool,
    app_version: Seq<char>,
) -> Seq<MenuEntryView> {
    seq![
        item("small"@, "打开小窗"@),
        item("large"@, "打开大窗"@),
        check("topmost"@, "置顶窗口"@, always_on_top),
        MenuEntryView::Separator,
        MenuEntryView::Submenu {
            label: "主题色："@ + scheme_label(st.color_scheme),
            items: color_scheme_items(st.color_scheme),
        },
        check("dark-mode"@, "深色模式"@, st.dark_mode),
        MenuEntryView::Submenu {
            label: opacity_menu_label(st.opacity),
            items: opacity_items(st.opacity),
        },
        MenuEntryView::Separator,
        MenuEntryView::Submenu {
            label: auto_refresh_menu_label(st.auto_refresh_seconds),
            items: auto_refresh_items(st.auto_refresh_seconds),
        },
        MenuEntryView::Separator,
        check("autostart"@, "开机自启动"@, st.autostart),
        item("restart"@, "重启"@),
        item("quit"@, "退出"@),
        MenuEntryView::Separator,
        item("version"@, spec_version_label(st, app_version)),
    ]
}

/// What a click on a menu item asks for.
#[derive(Clone, Copy, Debug, PartialEq, Eq, Structural)]
pub enum MenuCommand {
    ShowSmall,
    ShowLarge,
    ToggleTopmost,
    ToggleAutostart,
    SetAutoRefresh(u32),
    SetColorScheme(ColorScheme),
    ToggleDarkMode,
    SetOpacity(u32),
    DownloadUpdate,
    CheckUpdate,
    Restart,
    Quit,
    Ignore,
}

/// The command of a menu id, matched in the order the menu handler tries.
pub open spec fn spec_menu_command(id: Seq<char>, update_available: bool) -> MenuCommand {
    if id == "small"@ {
        MenuCommand::ShowSmall
    } else if id == "large"@ {
        MenuCommand::ShowLarge
    } else if id == "topmost"@ {
        MenuCommand::ToggleTopmost
    } else if id == "autostart"@ {
        MenuCommand::ToggleAutostart
    } else if has_prefix(id, auto_refresh_prefix()) {
        match spec_parse_auto_refresh_menu_id(id) {
            Some(s) => MenuCommand::SetAutoRefresh(s),
            None => MenuCommand::Ignore,
        }
    } else if has_prefix(id, color_scheme_prefix()) {
        match spec_parse_color_scheme_menu_id(id) {
            Some(c) => MenuCommand::SetColorScheme(c),
            None => MenuCommand::Ignore,
        }
    } else if id == "dark-mode"@ {
        MenuCommand::ToggleDarkMode
    } else if has_prefix(id, opacity_prefix()) {
        match spec_parse_opacity_menu_id(id) {
            Some(o) => MenuCommand::SetOpacity(o),
            None => MenuCommand::Ignore,
        }
    } else if id == "version"@ {
        if update_available {
            MenuCommand::DownloadUpdate
        } else {
            MenuCommand::CheckUpdate
        }
    } else if id == "restart"@ {
        MenuCommand::Restart
    } else if id == "quit"@ {
        MenuCommand::Quit
    } else {
        MenuCommand::Ignore
    }
}

/// The tray state after the menu handler has carried out a command: interval,
/// scheme, dark mode and opacity changes are kept here; the other commands
/// act on windows and the application and leave the tray state alone.
pub open spec fn state_after_command(st: TrayStateView, cmd: MenuCommand) -> TrayStateView {
    match cmd {
        MenuCommand::SetAutoRefresh(s) => TrayStateView { auto_refresh_seconds: s, ..st },
        MenuCommand::SetColorScheme(c) => TrayStateView { color_scheme: c, ..st },
        MenuCommand::ToggleDarkMode => TrayStateView { dark_mode: !st.dark_mode, ..st },
        MenuCommand::SetOpacity(o) => TrayStateView { opacity: o, ..st },
        _ => st,
    }
}

/// The colours of the tray icon for the current reading.
pub struct TrayIconColors {
    pub palette: TrayPalette,
    pub primary: Color,
    pub secondary: Color,
    pub update_badge: bool,
}

fn color_scheme_at(i: usize) -> (r: ColorScheme)
    requires
        i < 9,
    ensures
        r == color_schemes()[i as int],
{
    if i == 0 {
        ColorScheme::Red
    } else if i == 1 {
        ColorScheme::Orange
    } else if i == 2 {
        ColorScheme::Yellow
    } else if i == 3 {
        ColorScheme::Green
    } else if i == 4 {
        ColorScheme::Cyan
    } else if i == 5 {
        ColorScheme::Blue
    } else if i == 6 {
        ColorScheme::Purple
    } else if i == 7 {
        ColorScheme::Black
    } else {
        ColorScheme::White
    }
}

fn opacity_at(i: usize) -> (r: (u32, &'static str))
    requires
        i < 10,
    ensures
        r.0 == opacity_presets()[i as int],
        r.1@ == opacity_labels()[i as int],
{
    if i == 0 {
        (100, "100%")
    } else if i == 1 {
        (90, "90%")
    } else if i == 2 {
        (80, "80%")
    } else if i == 3 {
        (70, "70%")
    } else if i == 4 {
        (60, "60%")
    } else if i == 5 {
        (50, "50%")
    } else if i == 6 {
        (40, "40%")
    } else if i == 7 {
        (30, "30%")
    } else if i == 8 {
        (20, "20%")
    } else {
        (10, "10%")
    }
}

fn auto_refresh_at(i: usize) -> (r: (u32, &'static str))
    requires
        i < 7,
    ensures
        r.0 == auto_refresh_presets()[i as int],
        r.1@ == auto_refresh_labels()[i as int],
{
    if i == 0 {
        (30, "30s")
    } else if i == 1 {
        (60, "1min")
    } else if i == 2 {
        (300, "5min")
    } else if i == 3 {
        (600, "10min")
    } else if i == 4 {
        (1200, "20min")
    } else if i == 5 {
        (1800, "30min")
    } else {
        (3600, "60min")
    }
}

fn menu_item(id: &str, label: &str) -> (r: MenuEntry)
    ensures
        r@ == item(id@, label@),
{
    MenuEntry::Item { id: String::from_str(id), label: String::from_str(label) }
}

fn menu_check(id: &str, label: &str, checked: bool) -> (r: MenuEntry)
    ensures
        r@ == check(id@, label@, checked),
{
    MenuEntry::Check(MenuCheck { id: String::from_str(id), label: String::from_str(label), checked })
}

fn color_scheme_checks(current: ColorScheme) -> (r: Vec<MenuCheck>)
    ensures
        checks_view(r@) == color_scheme_items(current),
{
    let mut items: Vec<MenuCheck> = Vec::new();
    let mut i: usize = 0;
    while i < 9
        invariant
            i <= 9,
            checks_view(items@) == color_scheme_items(current).take(i as int),
        decreases 9 - i,
    {
        let c = color_scheme_at(i);
        let entry = MenuCheck {
            id: color_scheme_item_id(c),
            label: String::from_str(c.label()),
            checked: c == current,
        };
        let ghost before = items@;
        items.push(entry);
        proof {
            assert(checks_view(items@) =~= checks_view(before).push(entry@));
            assert(color_scheme_items(current).take(i + 1) =~= color_scheme_items(current).take(i as int).push(
                color_scheme_items(current)[i as int],
            ));
        }
        i = i + 1;
    }
    assert(color_scheme_items(current).take(9) =~= color_scheme_items(current));
    items
}

fn opacity_checks(current: u32) -> (r: Vec<MenuCheck>)
    ensures
        checks_view(r@) == opacity_items(current),
{
    let mut items: Vec<MenuCheck> = Vec::new();
    let mut i: usize = 0;
    while i < 10
        invariant
            i <= 10,
            checks_view(items@) == opacity_items(current).take(i as int),
        decreases 10 - i,
    {
        let (o, l) = opacity_at(i);
        let entry = MenuCheck { id: opacity_item_id(o), label: String::from_str(l), checked: o == current };
        let ghost before = items@;
        items.push(entry);
        proof {
            assert(checks_view(items@) =~= checks_view(before).push(entry@));
            assert(opacity_items(current).take(i + 1) =~= opacity_items(current).take(i as int).push(
                opacity_items(current)[i as int],
            ));
        }
        i = i + 1;
    }
    assert(opacity_items(current).take(10) =~= opacity_items(current));
    items
}

fn auto_refresh_checks(current: u32) -> (r: Vec<MenuCheck>)
    ensures
        checks_view(r@) == auto_refresh_items(current),
{
    let mut items: Vec<MenuCheck> = Vec::new();
    let mut i: usize = 0;
    while i < 7
        invariant
            i <= 7,
            checks_view(items@) == auto_refresh_items(current).take(i as int),
        decreases 7 - i,
    {
        let (s, l) = auto_refresh_at(i);
        let entry = MenuCheck {
            id: auto_refresh_item_id(s),
            label: String::from_str(l),
            checked: s == current,
        };
        let ghost before = items@;
        items.push(entry);
        proof {
            assert(checks_view(items@) =~= checks_view(before).push(entry@));
            assert(auto_refresh_items(current).take(i + 1) =~= auto_refresh_items(current).take(i as int).push(
                auto_refresh_items(current)[i as int],
            ));
        }
        i = i + 1;
    }
    assert(auto_refresh_items(current).take(7) =~= auto_refresh_items(current));
    items
}

fn clone_opt_string(o: &Option<String>) -> (r: Option<String>)
    ensures
        opt_view(r) == opt_view(*o),
{
    match o {
        Some(s) => Some(s.clone()),
        None => None,
    }
}

impl TrayState {
    #[verifier::type_invariant]
    closed spec fn inv(self) -> bool {
        is_opacity_value(self.opacity)
    }

    /// The settings a tray starts with: blue, light, 90% opaque, refreshing
    /// every 30 seconds, idle and without update information.
    pub fn new() -> (r: TrayState)
        ensures
            r@ == initial_tray_state(),
    {
        TrayState {
            autostart: false,
            auto_refresh_seconds: 30,
            color_scheme: ColorScheme::Blue,
            dark_mode: false,
            opacity: 90,
            primary_remaining: None,
            secondary_remaining: None,
            status: String::from_str("idle"),
            update_available: false,
            update_checked: false,
            latest_version: None,
        }
    }

    pub fn autostart_checked(&self) -> (r: bool)
        ensures
            r == self@.autostart,
    {
        self.autostart
    }

    pub fn auto_refresh_seconds(&self) -> (r: u32)
        ensures
            r == self@.auto_refresh_seconds,
    {
        self.auto_refresh_seconds
    }

    /// The current colour scheme's name.
    pub fn color_scheme(&self) -> (r: String)
        ensures
            r@ == scheme_name(self@.color_scheme),
    {
        String::from_str(self.color_scheme.name())
    }

    pub fn scheme(&self) -> (r: ColorScheme)
        ensures
            r == self@.color_scheme,
    {
        self.color_scheme
    }

    pub fn dark_mode_checked(&self) -> (r: bool)
        ensures
            r == self@.dark_mode,
    {
        self.dark_mode
    }

    /// The current opacity, always a preset.
    pub fn opacity(&self) -> (r: u32)
        ensures
            r == self@.opacity,
            is_opacity_value(r),
    {
        proof {
            use_type_invariant(self);
        }
        self.opacity
    }

    pub fn update_available(&self) -> (r: bool)
        ensures
            r == self@.update_available,
    {
        self.update_available
    }

    pub fn update_checked(&self) -> (r: bool)
        ensures
            r == self@.update_checked,
    {
        self.update_checked
    }

    pub fn latest_version(&self) -> (r: Option<String>)
        ensures
            opt_view(r) == self@.latest_version,
    {
        clone_opt_string(&self.latest_version)
    }

    pub fn set_autostart_checked(&mut self, checked: bool)
        ensures
            final(self)@ == (TrayStateView { autostart: checked, ..old(self)@ }),
    {
        proof {
            use_type_invariant(&*self);
        }
        self.autostart = checked;
    }

    /// Records the auto-refresh interval; any value is kept, and one that is
    /// no preset shows as `30s` in the menu.
    pub fn set_auto_refresh_seconds(&mut self, seconds: u32)
        ensures
            final(self)@ == (TrayStateView { auto_refresh_seconds: seconds, ..old(self)@ }),
    {
        proof {
            use_type_invariant(&*self);
        }
        self.auto_refresh_seconds = seconds;
    }

    /// Records the appearance: the dark-mode flag always, the scheme only when
    /// it names one, the opacity only when it is a preset.
    pub fn set_appearance(&mut self, color_scheme: &str, dark_mode: bool, opacity: u32)
        ensures
            final(self)@ == appearance_after(old(self)@, color_scheme@, dark_mode, opacity),
    {
        proof {
            use_type_invariant(&*self);
        }
        match ColorScheme::from_name(color_scheme) {
            Some(c) => {
                self.color_scheme = c;
            },
            None => {},
        }
        self.dark_mode = dark_mode;
        if is_opacity_preset(opacity) {
            self.opacity = opacity;
        }
    }

    /// Records the result of an update check: the check happened, whether an
    /// update is available, and its version when one is available and named.
    pub fn set_update_available(&mut self, available: bool, latest_version: Option<String>)
        ensures
            final(self)@ == (TrayStateView {
                update_available: available,
                update_checked: true,
                latest_version: remembered_latest(available, opt_view(latest_version)),
                ..old(self)@
            }),
    {
        proof {
            use_type_invariant(&*self);
        }
        self.update_available = available;
        self.update_checked = true;
        let remembered = if available {
            let v = match latest_version {
                Some(s) => s,
                None => String::new(),
            };
            if v.as_str().unicode_len() > 0 {
                Some(v)
            } else {
                None
            }
        } else {
            None
        };
        self.latest_version = remembered;
    }

    /// Records the quota reading that the icon and tooltip show.
    pub fn update_quota(
        &mut self,
        primary_remaining: Option<i64>,
        secondary_remaining: Option<i64>,
        status: &str,
    )
        ensures
            final(self)@ == (TrayStateView {
                primary_remaining,
                secondary_remaining,
                status: status@,
                ..old(self)@
            }),
    {
        proof {
            use_type_invariant(&*self);
        }
        self.primary_remaining = primary_remaining;
        self.secondary_remaining = secondary_remaining;
        self.status = String::from_str(status);
    }

    /// The tooltip for the recorded reading.
    pub fn tooltip(&self) -> (r: String)
        ensures
            r@ == spec_make_tooltip(
                self@.primary_remaining,
                self@.secondary_remaining,
                self@.status,
                self@.update_available,
            ),
    {
        make_tooltip(
            self.primary_remaining,
            self.secondary_remaining,
            self.status.as_str(),
            self.update_available,
        )
    }

    /// The colours of the tray icon for the recorded reading, and whether it
    /// carries the update badge.
    pub fn icon_colors(&self) -> (r: TrayIconColors)
        ensures
            r.primary@ == spec_quota_color(self@.primary_remaining, self@.status, r.palette.dim@),
            r.secondary@ == spec_quota_color(
                self@.secondary_remaining,
                self@.status,
                r.palette.dim@,
            ),
            r.update_badge == self@.update_available,
            r.palette.dim@ == pick_palette_dim(self@.status),
    {
        let palette = pick_tray_palette(self.status.as_str());
        let primary = pick_quota_color(self.primary_remaining, self.status.as_str(), palette.dim);
        let secondary = pick_quota_color(
            self.secondary_remaining,
            self.status.as_str(),
            palette.dim,
        );
        TrayIconColors { palette, primary, secondary, update_badge: self.update_available }
    }

    /// The text of the version item: the pending update, or the running
    /// version marked as the latest once a check found nothing newer.
    pub fn version_label(&self, app_version: &str) -> (r: String)
        ensures
            r@ == spec_version_label(self@, app_version@),
    {
        let dv = display_version(app_version);
        if self.update_available {
            match &self.latest_version {
                Some(v) => {
                    let mut s = String::from_str("更新");
                    push_str(&mut s, dv.as_str());
                    push_str(&mut s, " » ");
                    push_str(&mut s, v.as_str());
                    s
                },
                None => String::from_str("更新到最新版本"),
            }
        } else if self.update_checked {
            let mut s = String::from_str("版本 ");
            push_str(&mut s, dv.as_str());
            push_str(&mut s, "（最新）");
            s
        } else {
            let mut s = String::from_str("版本 ");
            push_str(&mut s, dv.as_str());
            s
        }
    }

    /// The context menu for this state and the window's always-on-top flag.
    pub fn menu(&self, always_on_top: bool, app_version: &str) -> (r: Vec<MenuEntry>)
        ensures
            entries_view(r@) == spec_tray_menu(self@, always_on_top, app_version@),
    {
        let mut m: Vec<MenuEntry> = Vec::new();
        m.push(menu_item("small", "打开小窗"));
        m.push(menu_item("large", "打开大窗"));
        m.push(menu_check("topmost", "置顶窗口", always_on_top));
        m.push(MenuEntry::Separator);
        let mut scheme_title = String::from_str("主题色：");
        push_str(&mut scheme_title, self.color_scheme.label());
        m.push(
            MenuEntry::Submenu {
                label: scheme_title,
                items: color_scheme_checks(self.color_scheme),
            },
        );
        m.push(menu_check("dark-mode", "深色模式", self.dark_mode));
        let mut opacity_title = String::from_str("透明度 ");
        let ol = opacity_label(self.opacity);
        push_str(&mut opacity_title, ol.as_str());
        m.push(MenuEntry::Submenu { label: opacity_title, items: opacity_checks(self.opacity) });
        m.push(MenuEntry::Separator);
        let mut refresh_title = String::from_str("自动刷新 ");
        let al = auto_refresh_label(self.auto_refresh_seconds);
        push_str(&mut refresh_title, al.as_str());
        m.push(
            MenuEntry::Submenu {
                label: refresh_title,
                items: auto_refresh_checks(self.auto_refresh_seconds),
            },
        );
        m.push(MenuEntry::Separator);
        m.push(menu_check("autostart", "开机自启动", self.autostart));
        m.push(menu_item("restart", "重启"));
        m.push(menu_item("quit", "退出"));
        m.push(MenuEntry::Separator);
        let vl = self.version_label(app_version);
        m.push(MenuEntry::Item { id: String::from_str("version"), label: vl });
        assert(entries_view(m@) =~= spec_tray_menu(self@, always_on_top, app_version@));
        m
    }

    /// Handles a click on a menu item: works out the command, records the
    /// setting it changes, and hands the command back for the window and
    /// application side.
    pub fn handle_menu_event(&mut self, id: &str) -> (r: MenuCommand)
        ensures
            r == spec_menu_command(id@, old(self)@.update_available),
            final(self)@ == state_after_command(old(self)@, r),
    {
        proof {
            use_type_invariant(&*self);
        }
        let cmd = menu_command(id, self.update_available);
        match cmd {
            MenuCommand::SetAutoRefresh(s) => {
                self.auto_refresh_seconds = s;
            },
            MenuCommand::SetColorScheme(c) => {
                self.color_scheme = c;
            },
            MenuCommand::ToggleDarkMode => {
                self.dark_mode = !self.dark_mode;
            },
            MenuCommand::SetOpacity(o) => {
                self.opacity = o;
            },
            _ => {},
        }
        cmd
    }
}

pub open spec fn pick_palette_dim(status: Seq<char>) -> Seq<u8> {
    if crate::tray::is_dim_alert_status(status) {
        crate::tray::rgba(239, 68, 68, 255)
    } else {
        crate::tray::rgba(70, 78, 90, 255)
    }
}

/// Works out what a menu id asks for; `version` downloads the pending update
/// when there is one and checks for updates otherwise.
pub fn menu_command(id: &str, update_available: bool) -> (r: MenuCommand)
    ensures
        r == spec_menu_command(id@, update_available),
        r matches MenuCommand::SetOpacity(o) ==> is_opacity_value(o),
{
    if str_eq(id, "small") {
        MenuCommand::ShowSmall
    } else if str_eq(id, "large") {
        MenuCommand::ShowLarge
    } else if str_eq(id, "topmost") {
        MenuCommand::ToggleTopmost
    } else if str_eq(id, "autostart") {
        MenuCommand::ToggleAutostart
    } else if has_prefix_str(id, "auto-refresh-") {
        match parse_auto_refresh_menu_id(id) {
            Some(s) => MenuCommand::SetAutoRefresh(s),
            None => MenuCommand::Ignore,
        }
    } else if has_prefix_str(id, "color-scheme-") {
        match parse_color_scheme_menu_id(id) {
            Some(name) => match ColorScheme::from_name(name) {
                Some(c) => {
                    proof {
                        let sc = spec_parse_color_scheme_menu_id(id@)->0;
                        crate::tray::lemma_scheme_name_roundtrip(sc);
                    }
                    MenuCommand::SetColorScheme(c)
                },
                None => MenuCommand::Ignore,
            },
            None => MenuCommand::Ignore,
        }
    } else if str_eq(id, "dark-mode") {
        MenuCommand::ToggleDarkMode
    } else if has_prefix_str(id, "opacity-") {
        match parse_opacity_menu_id(id) {
            Some(o) => MenuCommand::SetOpacity(o),
            None => MenuCommand::Ignore,
        }
    } else if str_eq(id, "version") {
        if update_available {
            MenuCommand::DownloadUpdate
        } else {
            MenuCommand::CheckUpdate
        }
    } else if str_eq(id, "restart") {
        MenuCommand::Restart
    } else if str_eq(id, "quit") {
        MenuCommand::Quit
    } else {
        MenuCommand::Ignore
    }
}

fn has_prefix_str(s: &str, p: &str) -> (r: bool)
    ensures
        r == has_prefix(s@, p@),
{
    let v = crate::text::chars_of(s);
    let q = crate::text::chars_of(p);
    crate::text::starts_with(&v, &q)
}

/// Clicking the dark-mode item twice leaves the tray state as it was.
pub proof fn lemma_dark_mode_toggle_twice(st: TrayStateView)
    ensures
        state_after_command(state_after_command(st, MenuCommand::ToggleDarkMode), MenuCommand::ToggleDarkMode) == st,
{
}

/// Choosing a colour scheme from the menu makes it the current scheme, and the
/// rebuilt menu checks exactly that scheme.
pub proof fn lemma_scheme_choice_is_checked(st: TrayStateView, c: ColorScheme, i: int)
    requires
        0 <= i < 9,
    ensures
        state_after_command(st, MenuCommand::SetColorScheme(c)).color_scheme == c,
        color_scheme_items(c)[i].checked <==> color_schemes()[i] == c,
        spec_menu_command(color_scheme_items(c)[i].id, st.update_available)
            == MenuCommand::SetColorScheme(color_schemes()[i]),
{
    let s = color_schemes()[i];
    lemma_color_scheme_id_roundtrip(s);
    lemma_prefixed_id_not_exact(color_scheme_prefix() + scheme_name(s));
    assert(!has_prefix(color_scheme_prefix() + scheme_name(s), auto_refresh_prefix())) by {
        reveal_strlit("auto-refresh-");
        reveal_strlit("color-scheme-");
        let id = color_scheme_prefix() + scheme_name(s);
        assert(id[0] == 'c');
        assert(auto_refresh_prefix()[0] == 'a');
        if has_prefix(id, auto_refresh_prefix()) {
            assert(id.subrange(0, auto_refresh_prefix().len() as int)[0] == id[0]);
        }
    }
}

/// A menu id made of a preset prefix and more is none of the plain ids that
/// the handler tests before the prefixes.
pub proof fn lemma_prefixed_id_not_exact(id: Seq<char>)
    requires
        has_prefix(id, color_scheme_prefix()),
    ensures
        id != "small"@,
        id != "large"@,
        id != "topmost"@,
        id != "autostart"@,
{
    reveal_strlit("color-scheme-");
    reveal_strlit("small");
    reveal_strlit("large");
    reveal_strlit("topmost");
    reveal_strlit("autostart");
    assert(id.subrange(0, 13)[0] == id[0]);
    assert(id[0] == 'c');
}

/// An id whose first character differs from a prefix's first does not start
/// with that prefix.
proof fn lemma_first_char_excludes(id: Seq<char>, p: Seq<char>)
    requires
        id.len() > 0,
        p.len() > 0,
        id[0] != p[0],
    ensures
        !has_prefix(id, p),
{
    if has_prefix(id, p) {
        assert(id.subrange(0, p.len() as int)[0] == id[0]);
    }
}

/// Choosing an opacity from the menu dispatches exactly that opacity, makes
/// it the current one, and the rebuilt menu checks exactly that item.
pub proof fn lemma_opacity_choice_dispatches(st: TrayStateView, o: u32, i: int)
    requires
        0 <= i < 10,
    ensures
        spec_menu_command(opacity_items(o)[i].id, st.update_available) == MenuCommand::SetOpacity(
            opacity_presets()[i],
        ),
        state_after_command(st, MenuCommand::SetOpacity(opacity_presets()[i])).opacity
            == opacity_presets()[i],
        opacity_items(o)[i].checked <==> opacity_presets()[i] == o,
{
    let v = opacity_presets()[i];
    let id = opacity_prefix() + decimal(v as nat);
    assert(opacity_items(o)[i].id == id);
    assert(is_opacity_value(v));
    lemma_opacity_id_roundtrip(v);
    reveal_strlit("opacity-");
    reveal_strlit("small");
    reveal_strlit("large");
    reveal_strlit("topmost");
    reveal_strlit("autostart");
    reveal_strlit("auto-refresh-");
    reveal_strlit("color-scheme-");
    reveal_strlit("dark-mode");
    assert(id[0] == 'o');
    assert(id != "small"@ && id != "large"@ && id != "topmost"@ && id != "autostart"@
        && id != "dark-mode"@);
    lemma_first_char_excludes(id, auto_refresh_prefix());
    lemma_first_char_excludes(id, color_scheme_prefix());
    assert(has_prefix(id, opacity_prefix())) by {
        assert(id.subrange(0, opacity_prefix().len() as int) =~= opacity_prefix());
    }
}

/// Choosing an auto-refresh interval from the menu dispatches exactly that
/// interval, makes it the current one, and the rebuilt menu checks exactly
/// that item.
pub proof fn lemma_auto_refresh_choice_dispatches(st: TrayStateView, seconds: u32, i: int)
    requires
        0 <= i < 7,
    ensures
        spec_menu_command(auto_refresh_items(seconds)[i].id, st.update_available)
            == MenuCommand::SetAutoRefresh(auto_refresh_presets()[i]),
        state_after_command(st, MenuCommand::SetAutoRefresh(auto_refresh_presets()[i])).auto_refresh_seconds
            == auto_refresh_presets()[i],
        auto_refresh_items(seconds)[i].checked <==> auto_refresh_presets()[i] == seconds,
{
    let v = auto_refresh_presets()[i];
    let id = auto_refresh_prefix() + decimal(v as nat);
    assert(auto_refresh_items(seconds)[i].id == id);
    assert(auto_refresh_preset_label(v) is Some);
    lemma_auto_refresh_id_roundtrip(v);
    reveal_strlit("auto-refresh-");
    reveal_strlit("small");
    reveal_strlit("large");
    reveal_strlit("topmost");
    reveal_strlit("autostart");
    assert(id[0] == 'a' && id[4] == '-');
    assert("autostart"@[4] == 's');
    assert(id != "small"@ && id != "large"@ && id != "topmost"@ && id != "autostart"@);
    assert(has_prefix(id, auto_refresh_prefix())) by {
        assert(id.subrange(0, auto_refresh_prefix().len() as int) =~= auto_refresh_prefix());
    }
}

/// The label that names an action in the menu, for the actions that have a
/// fixed one.
pub open spec fn action_label(cmd: MenuCommand) -> Option<Seq<char>> {
    match cmd {
        MenuCommand::ShowSmall => Some("打开小窗"@),
        MenuCommand::ShowLarge => Some("打开大窗"@),
        MenuCommand::ToggleTopmost => Some("置顶窗口"@),
        MenuCommand::ToggleAutostart => Some("开机自启动"@),
        MenuCommand::ToggleDarkMode => Some("深色模式"@),
        MenuCommand::Restart => Some("重启"@),
        MenuCommand::Quit => Some("退出"@),
        _ => None,
    }
}

/// The id and label of a top-level item or check item.
pub open spec fn entry_id_label(e: MenuEntryView) -> Option<(Seq<char>, Seq<char>)> {
    match e {
        MenuEntryView::Item { id, label } => Some((id, label)),
        MenuEntryView::Check(c) => Some((c.id, c.label)),
        _ => None,
    }
}

/// The commands of the plain menu ids.
proof fn lemma_plain_commands(u: bool)
    ensures
        spec_menu_command("small"@, u) == MenuCommand::ShowSmall,
        spec_menu_command("large"@, u) == MenuCommand::ShowLarge,
        spec_menu_command("topmost"@, u) == MenuCommand::ToggleTopmost,
        spec_menu_command("autostart"@, u) == MenuCommand::ToggleAutostart,
        spec_menu_command("dark-mode"@, u) == MenuCommand::ToggleDarkMode,
        spec_menu_command("restart"@, u) == MenuCommand::Restart,
        spec_menu_command("quit"@, u) == MenuCommand::Quit,
{
    reveal_strlit("small");
    reveal_strlit("large");
    reveal_strlit("topmost");
    reveal_strlit("autostart");
    reveal_strlit("dark-mode");
    reveal_strlit("restart");
    reveal_strlit("quit");
    reveal_strlit("version");
    reveal_strlit("auto-refresh-");
    reveal_strlit("color-scheme-");
    reveal_strlit("opacity-");
    assert("large"@[0] != "small"@[0]);
    assert("topmost"@[0] != "small"@[0] && "topmost"@[0] != "large"@[0]);
    assert("autostart"@[0] != "small"@[0] && "autostart"@[0] != "large"@[0] && "autostart"@[0]
        != "topmost"@[0]);
    let d = "dark-mode"@;
    assert(d[0] != "small"@[0] && d[0] != "large"@[0] && d[0] != "topmost"@[0] && d[0]
        != "autostart"@[0]);
    lemma_first_char_excludes(d, auto_refresh_prefix());
    lemma_first_char_excludes(d, color_scheme_prefix());
    let r = "restart"@;
    assert(r[0] != "small"@[0] && r[0] != "large"@[0] && r[0] != "topmost"@[0] && r[0]
        != "autostart"@[0] && r[0] != d[0] && r[0] != "version"@[0]);
    lemma_first_char_excludes(r, auto_refresh_prefix());
    lemma_first_char_excludes(r, color_scheme_prefix());
    lemma_first_char_excludes(r, opacity_prefix());
    let q = "quit"@;
    assert(q[0] != "small"@[0] && q[0] != "large"@[0] && q[0] != "topmost"@[0] && q[0]
        != "autostart"@[0] && q[0] != d[0] && q[0] != "version"@[0] && q[0] != r[0]);
    lemma_first_char_excludes(q, auto_refresh_prefix());
    lemma_first_char_excludes(q, color_scheme_prefix());
    lemma_first_char_excludes(q, opacity_prefix());
}

/// What every item of the menu says is what clicking it does: each top-level
/// item and check item other than the version item shows the label of the
/// action its id dispatches.
pub proof fn lemma_menu_labels_name_their_actions(
    st: TrayStateView,
    always_on_top: bool,
    app_version: Seq<char>,
)
    ensures
        forall|i: int|
            0 <= i < spec_tray_menu(st, always_on_top, app_version).len() ==> match entry_id_label(
                #[trigger] spec_tray_menu(st, always_on_top, app_version)[i],
            ) {
                Some((id, label)) => id == "version"@ || action_label(
                    spec_menu_command(id, st.update_available),
                ) == Some(label),
                None => true,
            },
{
    lemma_plain_commands(st.update_available);
    let m = spec_tray_menu(st, always_on_top, app_version);
    assert forall|i: int| 0 <= i < m.len() implies match entry_id_label(#[trigger] m[i]) {
        Some((id, label)) => id == "version"@ || action_label(
            spec_menu_command(id, st.update_available),
        ) == Some(label),
        None => true,
    } by {
        assert(m.len() == 15);
    }
}

} // verus!
