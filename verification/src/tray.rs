//! The tray icon's logic: the preset tables behind the context menu, menu ids
//! and their parsing, the tooltip text, and the colours of the tray icon.
use crate::text::{
    all_digits, chars_of, contains_seq, decimal, has_prefix, has_suffix, lemma_decimal,
    lemma_parse_decimal, parse_u32, parse_u32_range,
    push_char, push_decimal, push_signed_decimal, push_str, signed_decimal, starts_with, str_eq,
    string_of,
};
use vstd::prelude::*;
use vstd::string::*;

verus! {

/// The auto-refresh intervals the menu offers, in seconds, in menu order.
pub open spec fn auto_refresh_presets() -> Seq<u32> {
    seq![30u32, 60u32, 300u32, 600u32, 1200u32, 1800u32, 3600u32]
}

pub open spec fn auto_refresh_labels() -> Seq<Seq<char>> {
    seq!["30s"@, "1min"@, "5min"@, "10min"@, "20min"@, "30min"@, "60min"@]
}

/// The label of an auto-refresh preset, if `seconds` is one.
pub open spec fn auto_refresh_preset_label(seconds: u32) -> Option<Seq<char>> {
    if seconds == 30 {
        Some("30s"@)
    } else if seconds == 60 {
        Some("1min"@)
    } else if seconds == 300 {
        Some("5min"@)
    } else if seconds == 600 {
        Some("10min"@)
    } else if seconds == 1200 {
        Some("20min"@)
    } else if seconds == 1800 {
        Some("30min"@)
    } else if seconds == 3600 {
        Some("60min"@)
    } else {
        None
    }
}

/// The opacities the menu offers, in percent, in menu order.
pub open spec fn opacity_presets() -> Seq<u32> {
    seq![100u32, 90u32, 80u32, 70u32, 60u32, 50u32, 40u32, 30u32, 20u32, 10u32]
}

pub open spec fn opacity_labels() -> Seq<Seq<char>> {
    seq!["100%"@, "90%"@, "80%"@, "70%"@, "60%"@, "50%"@, "40%"@, "30%"@, "20%"@, "10%"@]
}

pub open spec fn opacity_preset_label(opacity: u32) -> Option<Seq<char>> {
    if opacity == 100 {
        Some("100%"@)
    } else if opacity == 90 {
        Some("90%"@)
    } else if opacity == 80 {
        Some("80%"@)
    } else if opacity == 70 {
        Some("70%"@)
    } else if opacity == 60 {
        Some("60%"@)
    } else if opacity == 50 {
        Some("50%"@)
    } else if opacity == 40 {
        Some("40%"@)
    } else if opacity == 30 {
        Some("30%"@)
    } else if opacity == 20 {
        Some("20%"@)
    } else if opacity == 10 {
        Some("10%"@)
    } else {
        None
    }
}

pub open spec fn is_opacity_value(opacity: u32) -> bool {
    opacity_preset_label(opacity) is Some
}

/// The nine colour schemes of the panel and tray menu.
#[derive(Clone, Copy, Debug, PartialEq, Eq, Structural)]
pub enum ColorScheme {
    Red,
    Orange,
    Yellow,
    Green,
    Cyan,
    Blue,
    Purple,
    Black,
    White,
}

/// The schemes in menu order.
pub open spec fn color_schemes() -> Seq<ColorScheme> {
    seq![
        ColorScheme::Red,
        ColorScheme::Orange,
        ColorScheme::Yellow,
        ColorScheme::Green,
        ColorScheme::Cyan,
        ColorScheme::Blue,
        ColorScheme::Purple,
        ColorScheme::Black,
        ColorScheme::White,
    ]
}

/// The name a scheme goes by in menu ids, events and the front end.
pub open spec fn scheme_name(c: ColorScheme) -> Seq<char> {
    match c {
        ColorScheme::Red => "red"@,
        ColorScheme::Orange => "orange"@,
        ColorScheme::Yellow => "yellow"@,
        ColorScheme::Green => "green"@,
        ColorScheme::Cyan => "cyan"@,
        ColorScheme::Blue => "blue"@,
        ColorScheme::Purple => "purple"@,
        ColorScheme::Black => "black"@,
        ColorScheme::White => "white"@,
    }
}

/// The label a scheme has in the menu.
pub open spec fn scheme_label(c: ColorScheme) -> Seq<char> {
    match c {
        ColorScheme::Red => "红"@,
        ColorScheme::Orange => "橙"@,
        ColorScheme::Yellow => "黄"@,
        ColorScheme::Green => "绿"@,
        ColorScheme::Cyan => "青"@,
        ColorScheme::Blue => "蓝"@,
        ColorScheme::Purple => "紫"@,
        ColorScheme::Black => "黑"@,
        ColorScheme::White => "白"@,
    }
}

/// The scheme with the given name, looked up in menu order.
pub open spec fn scheme_named(s: Seq<char>) -> Option<ColorScheme> {
    if s == "red"@ {
        Some(ColorScheme::Red)
    } else if s == "orange"@ {
        Some(ColorScheme::Orange)
    } else if s == "yellow"@ {
        Some(ColorScheme::Yellow)
    } else if s == "green"@ {
        Some(ColorScheme::Green)
    } else if s == "cyan"@ {
        Some(ColorScheme::Cyan)
    } else if s == "blue"@ {
        Some(ColorScheme::Blue)
    } else if s == "purple"@ {
        Some(ColorScheme::Purple)
    } else if s == "black"@ {
        Some(ColorScheme::Black)
    } else if s == "white"@ {
        Some(ColorScheme::White)
    } else {
        None
    }
}

impl ColorScheme {
    /// The scheme's name (`"red"`, `"orange"`, ...).
    pub fn name(&self) -> (r: &'static str)
        ensures
            r@ == scheme_name(*self),
    {
        match self {
            ColorScheme::Red => "red",
            ColorScheme::Orange => "orange",
            ColorScheme::Yellow => "yellow",
            ColorScheme::Green => "green",
            ColorScheme::Cyan => "cyan",
            ColorScheme::Blue => "blue",
            ColorScheme::Purple => "purple",
            ColorScheme::Black => "black",
            ColorScheme::White => "white",
        }
    }

    /// The scheme's menu label.
    pub fn label(&self) -> (r: &'static str)
        ensures
            r@ == scheme_label(*self),
    {
        match self {
            ColorScheme::Red => "红",
            ColorScheme::Orange => "橙",
            ColorScheme::Yellow => "黄",
            ColorScheme::Green => "绿",
            ColorScheme::Cyan => "青",
            ColorScheme::Blue => "蓝",
            ColorScheme::Purple => "紫",
            ColorScheme::Black => "黑",
            ColorScheme::White => "白",
        }
    }

    /// The scheme called `name`, if there is one.
    pub fn from_name(name: &str) -> (r: Option<ColorScheme>)
        ensures
            r == scheme_named(name@),
    {
        if str_eq(name, "red") {
            Some(ColorScheme::Red)
        } else if str_eq(name, "orange") {
            Some(ColorScheme::Orange)
        } else if str_eq(name, "yellow") {
            Some(ColorScheme::Yellow)
        } else if str_eq(name, "green") {
            Some(ColorScheme::Green)
        } else if str_eq(name, "cyan") {
            Some(ColorScheme::Cyan)
        } else if str_eq(name, "blue") {
            Some(ColorScheme::Blue)
        } else if str_eq(name, "purple") {
            Some(ColorScheme::Purple)
        } else if str_eq(name, "black") {
            Some(ColorScheme::Black)
        } else if str_eq(name, "white") {
            Some(ColorScheme::White)
        } else {
            None
        }
    }
}

/// A scheme's name looks the scheme up again.
pub proof fn lemma_scheme_name_roundtrip(c: ColorScheme)
    ensures
        scheme_named(scheme_name(c)) == Some(c),
{
    reveal_strlit("red");
    reveal_strlit("orange");
    reveal_strlit("yellow");
    reveal_strlit("green");
    reveal_strlit("cyan");
    reveal_strlit("blue");
    reveal_strlit("purple");
    reveal_strlit("black");
    reveal_strlit("white");
    assert("red"@[0] == 'r' && "red"@.len() == 3);
    assert("orange"@[0] == 'o');
    assert("yellow"@[0] == 'y');
    assert("green"@[0] == 'g');
    assert("cyan"@[0] == 'c');
    assert("blue"@[0] == 'b' && "blue"@.len() == 4);
    assert("purple"@[0] == 'p');
    assert("black"@[0] == 'b' && "black"@.len() == 5);
    assert("white"@[0] == 'w');
}

/// The menu-id prefixes of the three preset groups.
pub open spec fn auto_refresh_prefix() -> Seq<char> {
    "auto-refresh-"@
}

pub open spec fn color_scheme_prefix() -> Seq<char> {
    "color-scheme-"@
}

pub open spec fn opacity_prefix() -> Seq<char> {
    "opacity-"@
}

/// What `parse_auto_refresh_menu_id` returns.
pub open spec fn spec_parse_auto_refresh_menu_id(id: Seq<char>) -> Option<u32> {
    let p = auto_refresh_prefix();
    if has_prefix(id, p) {
        match parse_u32(id.subrange(p.len() as int, id.len() as int)) {
            Some(n) => if auto_refresh_preset_label(n) is Some {
                Some(n)
            } else {
                None
            },
            None => None,
        }
    } else {
        None
    }
}

/// What `parse_opacity_menu_id` returns.
pub open spec fn spec_parse_opacity_menu_id(id: Seq<char>) -> Option<u32> {
    let p = opacity_prefix();
    if has_prefix(id, p) {
        match parse_u32(id.subrange(p.len() as int, id.len() as int)) {
            Some(n) => if is_opacity_value(n) {
                Some(n)
            } else {
                None
            },
            None => None,
        }
    } else {
        None
    }
}

/// What `parse_color_scheme_menu_id` finds: the scheme named after the prefix.
pub open spec fn spec_parse_color_scheme_menu_id(id: Seq<char>) -> Option<ColorScheme> {
    let p = color_scheme_prefix();
    if has_prefix(id, p) {
        scheme_named(id.subrange(p.len() as int, id.len() as int))
    } else {
        None
    }
}

/// The label of an auto-refresh preset.
pub fn auto_refresh_preset_label_of(seconds: u32) -> (r: Option<&'static str>)
    ensures
        match r {
            Some(l) => auto_refresh_preset_label(seconds) == Some(l@),
            None => auto_refresh_preset_label(seconds) is None,
        },
{
    if seconds == 30 {
        Some("30s")
    } else if seconds == 60 {
        Some("1min")
    } else if seconds == 300 {
        Some("5min")
    } else if seconds == 600 {
        Some("10min")
    } else if seconds == 1200 {
        Some("20min")
    } else if seconds == 1800 {
        Some("30min")
    } else if seconds == 3600 {
        Some("60min")
    } else {
        None
    }
}

/// The label of an opacity preset.
pub fn opacity_preset_label_of(opacity: u32) -> (r: Option<&'static str>)
    ensures
        match r {
            Some(l) => opacity_preset_label(opacity) == Some(l@),
            None => opacity_preset_label(opacity) is None,
        },
{
    if opacity == 100 {
        Some("100%")
    } else if opacity == 90 {
        Some("90%")
    } else if opacity == 80 {
        Some("80%")
    } else if opacity == 70 {
        Some("70%")
    } else if opacity == 60 {
        Some("60%")
    } else if opacity == 50 {
        Some("50%")
    } else if opacity == 40 {
        Some("40%")
    } else if opacity == 30 {
        Some("30%")
    } else if opacity == 20 {
        Some("20%")
    } else if opacity == 10 {
        Some("10%")
    } else {
        None
    }
}

/// Reads the auto-refresh interval out of a menu id such as
/// `auto-refresh-300`; only the preset intervals are accepted.
pub fn parse_auto_refresh_menu_id(id: &str) -> (r: Option<u32>)
    ensures
        r == spec_parse_auto_refresh_menu_id(id@),
{
    let v = chars_of(id);
    let p = chars_of("auto-refresh-");
    if !starts_with(&v, &p) {
        return None;
    }
    match parse_u32_range(&v, p.len(), v.len()) {
        Some(n) => match auto_refresh_preset_label_of(n) {
            Some(_) => Some(n),
            None => None,
        },
        None => None,
    }
}

/// The label of an auto-refresh interval; intervals that are no preset show
/// as `30s`.
pub fn auto_refresh_label(seconds: u32) -> (r: String)
    ensures
        r@ == match auto_refresh_preset_label(seconds) {
            Some(l) => l,
            None => "30s"@,
        },
{
    match auto_refresh_preset_label_of(seconds) {
        Some(l) => String::from_str(l),
        None => String::from_str("30s"),
    }
}

/// Reads the colour scheme out of a menu id such as `color-scheme-red`.
pub fn parse_color_scheme_menu_id(id: &str) -> (r: Option<&'static str>)
    ensures
        match r {
            Some(name) => spec_parse_color_scheme_menu_id(id@) matches Some(c) && name@
                == scheme_name(c),
            None => spec_parse_color_scheme_menu_id(id@) is None,
        },
{
    let v = chars_of(id);
    let p = chars_of("color-scheme-");
    if !starts_with(&v, &p) {
        return None;
    }
    let rest = string_of(&v, p.len(), v.len());
    match ColorScheme::from_name(rest.as_str()) {
        Some(c) => Some(c.name()),
        None => None,
    }
}

/// The menu label of a colour scheme name; unknown names show as blue's.
pub fn color_scheme_label(scheme: &str) -> (r: &'static str)
    ensures
        r@ == match scheme_named(scheme@) {
            Some(c) => scheme_label(c),
            None => "蓝"@,
        },
{
    match ColorScheme::from_name(scheme) {
        Some(c) => c.label(),
        None => "蓝",
    }
}

/// Whether `scheme` names one of the colour schemes.
pub fn is_color_scheme(scheme: &str) -> (r: bool)
    ensures
        r == (scheme_named(scheme@) is Some),
{
    ColorScheme::from_name(scheme).is_some()
}

/// Reads the opacity out of a menu id such as `opacity-80`; only the preset
/// opacities are accepted.
pub fn parse_opacity_menu_id(id: &str) -> (r: Option<u32>)
    ensures
        r == spec_parse_opacity_menu_id(id@),
{
    let v = chars_of(id);
    let p = chars_of("opacity-");
    if !starts_with(&v, &p) {
        return None;
    }
    match parse_u32_range(&v, p.len(), v.len()) {
        Some(n) => if is_opacity_preset(n) {
            Some(n)
        } else {
            None
        },
        None => None,
    }
}

/// The label of an opacity; values that are no preset show as `90%`.
pub fn opacity_label(opacity: u32) -> (r: String)
    ensures
        r@ == match opacity_preset_label(opacity) {
            Some(l) => l,
            None => "90%"@,
        },
{
    match opacity_preset_label_of(opacity) {
        Some(l) => String::from_str(l),
        None => String::from_str("90%"),
    }
}

/// Whether `opacity` is one of the preset opacities.
pub fn is_opacity_preset(opacity: u32) -> (r: bool)
    ensures
        r == is_opacity_value(opacity),
{
    opacity_preset_label_of(opacity).is_some()
}

/// The menu id of an auto-refresh preset.
pub fn auto_refresh_item_id(seconds: u32) -> (r: String)
    ensures
        r@ == auto_refresh_prefix() + decimal(seconds as nat),
{
    let mut s = String::from_str("auto-refresh-");
    push_decimal(&mut s, seconds as u64);
    s
}

/// The menu id of an opacity preset.
pub fn opacity_item_id(opacity: u32) -> (r: String)
    ensures
        r@ == opacity_prefix() + decimal(opacity as nat),
{
    let mut s = String::from_str("opacity-");
    push_decimal(&mut s, opacity as u64);
    s
}

/// The menu id of a colour scheme.
pub fn color_scheme_item_id(scheme: ColorScheme) -> (r: String)
    ensures
        r@ == color_scheme_prefix() + scheme_name(scheme),
{
    let mut s = String::from_str("color-scheme-");
    push_str(&mut s, scheme.name());
    s
}

/// The menu id of every auto-refresh preset reads back as that preset.
pub proof fn lemma_auto_refresh_id_roundtrip(seconds: u32)
    requires
        auto_refresh_preset_label(seconds) is Some,
    ensures
        spec_parse_auto_refresh_menu_id(auto_refresh_prefix() + decimal(seconds as nat)) == Some(
            seconds,
        ),
{
    let p = auto_refresh_prefix();
    let id = p + decimal(seconds as nat);
    assert(id.subrange(0, p.len() as int) =~= p);
    assert(id.subrange(p.len() as int, id.len() as int) =~= decimal(seconds as nat));
    lemma_parse_decimal(seconds);
}

/// The menu id of every opacity preset reads back as that preset.
pub proof fn lemma_opacity_id_roundtrip(opacity: u32)
    requires
        is_opacity_value(opacity),
    ensures
        spec_parse_opacity_menu_id(opacity_prefix() + decimal(opacity as nat)) == Some(opacity),
{
    let p = opacity_prefix();
    let id = p + decimal(opacity as nat);
    assert(id.subrange(0, p.len() as int) =~= p);
    assert(id.subrange(p.len() as int, id.len() as int) =~= decimal(opacity as nat));
    lemma_parse_decimal(opacity);
}

/// The menu id of every colour scheme reads back as that scheme.
pub proof fn lemma_color_scheme_id_roundtrip(scheme: ColorScheme)
    ensures
        spec_parse_color_scheme_menu_id(color_scheme_prefix() + scheme_name(scheme)) == Some(
            scheme,
        ),
{
    let p = color_scheme_prefix();
    let id = p + scheme_name(scheme);
    assert(id.subrange(0, p.len() as int) =~= p);
    assert(id.subrange(p.len() as int, id.len() as int) =~= scheme_name(scheme));
    lemma_scheme_name_roundtrip(scheme);
}

/// The version shown to the user: a trailing `.0` is dropped.
pub open spec fn spec_display_version(version: Seq<char>) -> Seq<char> {
    if has_suffix(version, ".0"@) {
        version.subrange(0, version.len() - 2)
    } else {
        version
    }
}

/// Shortens a version for display by dropping a trailing `.0`.
pub fn display_version(version: &str) -> (r: String)
    ensures
        r@ == spec_display_version(version@),
{
    let v = chars_of(version);
    let n = v.len();
    proof {
        reveal_strlit(".0");
    }
    if n >= 2 && v[n - 2] == '.' && v[n - 1] == '0' {
        assert(v@.subrange(n - 2, n as int) =~= ".0"@);
        string_of(&v, 0, n - 2)
    } else {
        proof {
            if has_suffix(v@, ".0"@) {
                assert(v@.subrange(n - 2, n as int)[0] == v@[n - 2]);
                assert(v@.subrange(n - 2, n as int)[1] == v@[n - 1]);
            }
        }
        assert(v@.subrange(0, n as int) =~= v@);
        string_of(&v, 0, n)
    }
}

/// The tray tooltip for the given quota reading.
pub open spec fn spec_make_tooltip(
    primary_remaining: Option<i64>,
    secondary_remaining: Option<i64>,
    status: Seq<char>,
    update_available: bool,
) -> Seq<char> {
    let update_text = if update_available {
        " · 有新版本"@
    } else {
        Seq::<char>::empty()
    };
    if status == "error"@ {
        "Codex 额度暂时无法获取"@ + update_text
    } else {
        match primary_remaining {
            Some(primary) => {
                let weekly = match secondary_remaining {
                    Some(secondary) => " / 周 "@ + signed_decimal(secondary as int) + "%"@,
                    None => Seq::<char>::empty(),
                };
                "Codex 剩余: 5小时 "@ + signed_decimal(primary as int) + "%"@ + weekly + update_text
            },
            None => "正在读取 Codex 额度"@ + update_text,
        }
    }
}

/// Builds the tray tooltip: an error notice, the remaining 5-hour and weekly
/// quota in percent, or a loading notice, each followed by an update hint when
/// a newer version is out.
pub fn make_tooltip(
    primary_remaining: Option<i64>,
    secondary_remaining: Option<i64>,
    status: &str,
    update_available: bool,
) -> (r: String)
    ensures
        r@ == spec_make_tooltip(primary_remaining, secondary_remaining, status@, update_available),
{
    let update_text = if update_available {
        " · 有新版本"
    } else {
        ""
    };
    proof {
        reveal_strlit("");
    }
    let mut s = String::new();
    if str_eq(status, "error") {
        push_str(&mut s, "Codex 额度暂时无法获取");
        push_str(&mut s, update_text);
        return s;
    }
    match primary_remaining {
        Some(primary) => {
            push_str(&mut s, "Codex 剩余: 5小时 ");
            push_signed_decimal(&mut s, primary);
            push_str(&mut s, "%");
            match secondary_remaining {
                Some(secondary) => {
                    push_str(&mut s, " / 周 ");
                    push_signed_decimal(&mut s, secondary);
                    push_str(&mut s, "%");
                },
                None => {},
            }
            push_str(&mut s, update_text);
            proof {
                let weekly = match secondary_remaining {
                    Some(secondary) => " / 周 "@ + signed_decimal(secondary as int) + "%"@,
                    None => Seq::<char>::empty(),
                };
                assert(s@ =~= "Codex 剩余: 5小时 "@ + signed_decimal(primary as int) + "%"@ + weekly
                    + update_text@);
            }
        },
        None => {
            push_str(&mut s, "正在读取 Codex 额度");
            push_str(&mut s, update_text);
        },
    }
    s
}

/// An RGBA colour.
pub type Color = [u8; 4];

pub open spec fn rgba(r: u8, g: u8, b: u8, a: u8) -> Seq<u8> {
    seq![r, g, b, a]
}

/// No character of `t` is `c`.
pub open spec fn free_of(t: Seq<char>, c: char) -> bool {
    forall|k: int| 0 <= k < t.len() ==> #[trigger] t[k] != c
}

proof fn lemma_free_of_concat(a: Seq<char>, b: Seq<char>, c: char)
    requires
        free_of(a, c),
        free_of(b, c),
    ensures
        free_of(a + b, c),
{
    assert forall|k: int| 0 <= k < (a + b).len() implies #[trigger] (a + b)[k] != c by {
        if k >= a.len() {
            assert((a + b)[k] == b[k - a.len()]);
        }
    }
}

proof fn lemma_signed_decimal_free(i: int)
    ensures
        free_of(signed_decimal(i), '有'),
{
    let d = decimal(if i < 0 { (-i) as nat } else { i as nat });
    lemma_decimal(if i < 0 { (-i) as nat } else { i as nat });
    assert(all_digits(d));
    assert(free_of(d, '有'));
    if i < 0 {
        lemma_free_of_concat(seq!['-'], d, '有');
    }
}

/// The tooltip reports every reading it has: with a 5-hour reading and no
/// status error it shows that percentage, a weekly reading of any value adds
/// ` / 周 ` and its percentage after it, and the update flag adds its suffix
/// last; on an error the readings do not matter.
pub proof fn lemma_tooltip_shows_the_readings(
    primary: i64,
    secondary: i64,
    status: Seq<char>,
    update_available: bool,
)
    ensures
        status != "error"@ ==> spec_make_tooltip(Some(primary), None, status, false) == "Codex 剩余: 5小时 "@
            + signed_decimal(primary as int) + "%"@,
        status != "error"@ ==> spec_make_tooltip(Some(primary), Some(secondary), status, update_available)
            == spec_make_tooltip(Some(primary), None, status, false) + " / 周 "@ + signed_decimal(
            secondary as int,
        ) + "%"@ + spec_make_tooltip(None, None, "error"@, update_available).subrange(
            "Codex 额度暂时无法获取"@.len() as int,
            spec_make_tooltip(None, None, "error"@, update_available).len() as int,
        ),
        status == "error"@ ==> spec_make_tooltip(Some(primary), Some(secondary), status, update_available)
            == spec_make_tooltip(None, None, status, update_available),
{
    let e = Seq::<char>::empty();
    let sfx = if update_available { " · 有新版本"@ } else { e };
    let err = spec_make_tooltip(None, None, "error"@, update_available);
    assert(err == "Codex 额度暂时无法获取"@ + sfx);
    assert(err.subrange("Codex 额度暂时无法获取"@.len() as int, err.len() as int) =~= sfx);
    if status != "error"@ {
        assert(spec_make_tooltip(Some(primary), None, status, false) == "Codex 剩余: 5小时 "@
            + signed_decimal(primary as int) + "%"@ + e + e);
        assert(("Codex 剩余: 5小时 "@ + signed_decimal(primary as int) + "%"@ + e + e) =~= (
        "Codex 剩余: 5小时 "@ + signed_decimal(primary as int) + "%"@));
        assert(spec_make_tooltip(Some(primary), Some(secondary), status, update_available) =~= (
        "Codex 剩余: 5小时 "@ + signed_decimal(primary as int) + "%"@) + " / 周 "@ + signed_decimal(
            secondary as int,
        ) + "%"@ + sfx);
    }
}

/// The update flag only appends ` · 有新版本` to the tooltip, and the tooltip
/// without it never mentions a new version.
pub proof fn lemma_tooltip_update_suffix(
    primary_remaining: Option<i64>,
    secondary_remaining: Option<i64>,
    status: Seq<char>,
)
    ensures
        spec_make_tooltip(primary_remaining, secondary_remaining, status, true) == spec_make_tooltip(
            primary_remaining,
            secondary_remaining,
            status,
            false,
        ) + " · 有新版本"@,
        !contains_seq(
            spec_make_tooltip(primary_remaining, secondary_remaining, status, false),
            "有新版本"@,
        ),
{
    reveal_strlit(" · 有新版本");
    reveal_strlit("有新版本");
    reveal_strlit("Codex 额度暂时无法获取");
    reveal_strlit("Codex 剩余: 5小时 ");
    reveal_strlit("%");
    reveal_strlit(" / 周 ");
    reveal_strlit("正在读取 Codex 额度");
    let e = Seq::<char>::empty();
    assert(free_of(e, '有'));
    let t = spec_make_tooltip(primary_remaining, secondary_remaining, status, false);
    assert(free_of("Codex 额度暂时无法获取"@, '有'));
    assert(free_of("Codex 剩余: 5小时 "@, '有'));
    assert(free_of("%"@, '有'));
    assert(free_of(" / 周 "@, '有'));
    assert(free_of("正在读取 Codex 额度"@, '有'));
    if status == "error"@ {
        assert(t == "Codex 额度暂时无法获取"@ + e);
        lemma_free_of_concat("Codex 额度暂时无法获取"@, e, '有');
    } else {
        match primary_remaining {
            Some(p) => {
                let weekly = match secondary_remaining {
                    Some(q) => " / 周 "@ + signed_decimal(q as int) + "%"@,
                    None => e,
                };
                if let Some(q) = secondary_remaining {
                    lemma_signed_decimal_free(q as int);
                    lemma_free_of_concat(" / 周 "@, signed_decimal(q as int), '有');
                    lemma_free_of_concat(" / 周 "@ + signed_decimal(q as int), "%"@, '有');
                }
                assert(free_of(weekly, '有'));
                lemma_signed_decimal_free(p as int);
                let a = "Codex 剩余: 5小时 "@ + signed_decimal(p as int);
                lemma_free_of_concat("Codex 剩余: 5小时 "@, signed_decimal(p as int), '有');
                lemma_free_of_concat(a, "%"@, '有');
                lemma_free_of_concat(a + "%"@, weekly, '有');
                lemma_free_of_concat(a + "%"@ + weekly, e, '有');
            },
            None => {
                lemma_free_of_concat("正在读取 Codex 额度"@, e, '有');
            },
        }
    }
    assert(free_of(t, '有'));
    if contains_seq(t, "有新版本"@) {
        let i = choose|i: int|
            0 <= i <= t.len() - "有新版本"@.len() && #[trigger] t.subrange(i, i + "有新版本"@.len())
                == "有新版本"@;
        assert(t.subrange(i, i + 4)[0] == t[i]);
        assert(t[i] == '有');
    }
    assert(spec_make_tooltip(primary_remaining, secondary_remaining, status, true) =~= t + " · 有新版本"@);
}

/// The colours of the tray icon's cloud mark.
pub struct TrayPalette {
    pub dim: Color,
    pub border: Color,
    pub background: Color,
    pub track: Color,
}

pub open spec fn is_dim_alert_status(status: Seq<char>) -> bool {
    status == "error"@ || status == "idle"@ || status == "loading"@
}

/// The tray palette: bars without data are red while loading, idle or failing,
/// slate grey otherwise.
pub fn pick_tray_palette(status: &str) -> (r: TrayPalette)
    ensures
        r.dim@ == if is_dim_alert_status(status@) {
            rgba(239, 68, 68, 255)
        } else {
            rgba(70, 78, 90, 255)
        },
        r.border@ == rgba(0, 0, 0, 255),
        r.background@ == rgba(8, 10, 14, 255),
        r.track@ == rgba(45, 50, 60, 255),
{
    let dim = if str_eq(status, "error") || str_eq(status, "idle") || str_eq(status, "loading") {
        [239, 68, 68, 255]
    } else {
        [70, 78, 90, 255]
    };
    let r = TrayPalette {
        dim,
        border: [0, 0, 0, 255],
        background: [8, 10, 14, 255],
        track: [45, 50, 60, 255],
    };
    assert(r.dim@ =~= if is_dim_alert_status(status@) {
        rgba(239, 68, 68, 255)
    } else {
        rgba(70, 78, 90, 255)
    });
    assert(r.border@ =~= rgba(0, 0, 0, 255));
    assert(r.background@ =~= rgba(8, 10, 14, 255));
    assert(r.track@ =~= rgba(45, 50, 60, 255));
    r
}

/// The colour of a quota bar.
pub open spec fn spec_quota_color(percent: Option<i64>, status: Seq<char>, fallback: Seq<u8>) -> Seq<
    u8,
> {
    if status == "error"@ {
        rgba(239, 68, 68, 255)
    } else {
        match percent {
            None => fallback,
            Some(value) => if value <= 20 {
                rgba(239, 68, 68, 255)
            } else if value <= 50 {
                rgba(245, 158, 11, 255)
            } else {
                rgba(34, 197, 94, 255)
            },
        }
    }
}

/// The colour of a quota bar: red on error or at 20% or less, amber up to 50%,
/// green above; the fallback while there is no reading.
pub fn pick_quota_color(percent: Option<i64>, status: &str, fallback: Color) -> (r: Color)
    ensures
        r@ == spec_quota_color(percent, status@, fallback@),
{
    let r: Color = if str_eq(status, "error") {
        [239, 68, 68, 255]
    } else {
        match percent {
            None => fallback,
            Some(value) => if value <= 20 {
                [239, 68, 68, 255]
            } else if value <= 50 {
                [245, 158, 11, 255]
            } else {
                [34, 197, 94, 255]
            },
        }
    };
    assert(r@ =~= spec_quota_color(percent, status@, fallback@));
    r
}

/// A lower reading never gets a colour that signals more headroom: the colour
/// bands only change at 20% and 50%.
pub proof fn lemma_quota_color_bands(a: i64, b: i64, status: Seq<char>, fallback: Seq<u8>)
    requires
        a <= b,
    ensures
        spec_quota_color(Some(b), status, fallback) == rgba(239, 68, 68, 255) ==> spec_quota_color(
            Some(a),
            status,
            fallback,
        ) == rgba(239, 68, 68, 255),
        spec_quota_color(Some(a), status, fallback) == rgba(34, 197, 94, 255) ==> spec_quota_color(
            Some(b),
            status,
            fallback,
        ) == rgba(34, 197, 94, 255),
{
    reveal_strlit("error");
    assert(rgba(239, 68, 68, 255)[1] != rgba(34, 197, 94, 255)[1]);
    assert(rgba(245, 158, 11, 255)[1] != rgba(34, 197, 94, 255)[1]);
    assert(rgba(245, 158, 11, 255)[1] != rgba(239, 68, 68, 255)[1]);
}

/// The byte index of pixel (x, y) in a square RGBA canvas.
pub open spec fn pixel_index(canvas_size: int, x: int, y: int) -> int {
    (y * canvas_size + x) * 4
}

/// What `set_pixel` leaves in the canvas.
pub open spec fn spec_set_pixel(
    rgba: Seq<u8>,
    canvas_size: int,
    x: int,
    y: int,
    color: Seq<u8>,
) -> Seq<u8> {
    if x >= canvas_size || y >= canvas_size {
        rgba
    } else {
        let i = pixel_index(canvas_size, x, y);
        rgba.update(i, color[0]).update(i + 1, color[1]).update(i + 2, color[2]).update(
            i + 3,
            color[3],
        )
    }
}

/// Paints pixel (x, y) of a square RGBA canvas; pixels outside the canvas
/// are ignored.
pub fn set_pixel(rgba: &mut Vec<u8>, canvas_size: usize, x: usize, y: usize, color: Color)
    requires
        x < canvas_size && y < canvas_size ==> pixel_index(canvas_size as int, x as int, y as int)
            + 3 < old(rgba).len(),
    ensures
        final(rgba)@ == spec_set_pixel(
            old(rgba)@,
            canvas_size as int,
            x as int,
            y as int,
            color@,
        ),
{
    if x >= canvas_size || y >= canvas_size {
        return ;
    }
    assert(y * canvas_size + x <= (y + 1) * canvas_size) by (nonlinear_arith)
        requires
            x < canvas_size,
    ;
    let index = (y * canvas_size + x) * 4;
    rgba.set(index, color[0]);
    rgba.set(index + 1, color[1]);
    rgba.set(index + 2, color[2]);
    rgba.set(index + 3, color[3]);
}

} // verus!
