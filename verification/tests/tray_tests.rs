use codex_quota::tray::{
    auto_refresh_item_id, auto_refresh_label, color_scheme_item_id, color_scheme_label,
    display_version, is_color_scheme, is_opacity_preset, make_tooltip, opacity_item_id,
    opacity_label, parse_auto_refresh_menu_id, parse_color_scheme_menu_id, parse_opacity_menu_id,
    pick_quota_color, pick_tray_palette, set_pixel, ColorScheme,
};

#[test]
fn auto_refresh_ids_parse_only_presets() {
    assert_eq!(parse_auto_refresh_menu_id("auto-refresh-300"), Some(300));
    assert_eq!(parse_auto_refresh_menu_id("auto-refresh-3600"), Some(3600));
    assert_eq!(parse_auto_refresh_menu_id("auto-refresh-+60"), Some(60));
    assert_eq!(parse_auto_refresh_menu_id("auto-refresh-030"), Some(30));
    assert_eq!(parse_auto_refresh_menu_id("auto-refresh-45"), None);
    assert_eq!(parse_auto_refresh_menu_id("auto-refresh-"), None);
    assert_eq!(parse_auto_refresh_menu_id("auto-refresh--30"), None);
    assert_eq!(parse_auto_refresh_menu_id("auto-refresh-99999999999"), None);
    assert_eq!(parse_auto_refresh_menu_id("opacity-30"), None);
}

#[test]
fn auto_refresh_labels_fall_back_to_30s() {
    assert_eq!(auto_refresh_label(30), "30s");
    assert_eq!(auto_refresh_label(60), "1min");
    assert_eq!(auto_refresh_label(3600), "60min");
    assert_eq!(auto_refresh_label(45), "30s");
}

#[test]
fn color_scheme_ids_and_labels() {
    assert_eq!(parse_color_scheme_menu_id("color-scheme-red"), Some("red"));
    assert_eq!(parse_color_scheme_menu_id("color-scheme-white"), Some("white"));
    assert_eq!(parse_color_scheme_menu_id("color-scheme-pink"), None);
    assert_eq!(parse_color_scheme_menu_id("color-scheme-"), None);
    assert_eq!(parse_color_scheme_menu_id("colour-scheme-red"), None);
    assert_eq!(color_scheme_label("green"), "绿");
    assert_eq!(color_scheme_label("black"), "黑");
    assert_eq!(color_scheme_label("nope"), "蓝");
    assert!(is_color_scheme("cyan"));
    assert!(!is_color_scheme("Cyan"));
    assert_eq!(ColorScheme::from_name("purple"), Some(ColorScheme::Purple));
    assert_eq!(ColorScheme::Orange.name(), "orange");
}

#[test]
fn opacity_ids_and_labels() {
    assert_eq!(parse_opacity_menu_id("opacity-80"), Some(80));
    assert_eq!(parse_opacity_menu_id("opacity-10"), Some(10));
    assert_eq!(parse_opacity_menu_id("opacity-85"), None);
    assert_eq!(parse_opacity_menu_id("opacity-0"), None);
    assert_eq!(parse_opacity_menu_id("opacity-x"), None);
    assert_eq!(opacity_label(100), "100%");
    assert_eq!(opacity_label(55), "90%");
    assert!(is_opacity_preset(40));
    assert!(!is_opacity_preset(45));
}

#[test]
fn menu_ids_read_back_as_their_preset() {
    for s in [30u32, 60, 300, 600, 1200, 1800, 3600] {
        assert_eq!(parse_auto_refresh_menu_id(&auto_refresh_item_id(s)), Some(s));
    }
    for o in [100u32, 90, 80, 70, 60, 50, 40, 30, 20, 10] {
        assert_eq!(parse_opacity_menu_id(&opacity_item_id(o)), Some(o));
    }
    assert_eq!(auto_refresh_item_id(1200), "auto-refresh-1200");
    assert_eq!(opacity_item_id(70), "opacity-70");
    assert_eq!(color_scheme_item_id(ColorScheme::Yellow), "color-scheme-yellow");
    assert_eq!(parse_color_scheme_menu_id(&color_scheme_item_id(ColorScheme::Blue)), Some("blue"));
}

#[test]
fn display_version_drops_a_trailing_zero_part() {
    assert_eq!(display_version("2.6.0"), "2.6");
    assert_eq!(display_version("2.6.9"), "2.6.9");
    assert_eq!(display_version("2.0.0"), "2.0");
    assert_eq!(display_version(".0"), "");
    assert_eq!(display_version("10"), "10");
}

#[test]
fn tooltip_texts() {
    assert_eq!(make_tooltip(Some(80), Some(55), "ready", false), "Codex 剩余: 5小时 80% / 周 55%");
    assert_eq!(make_tooltip(Some(-3), None, "ready", true), "Codex 剩余: 5小时 -3% · 有新版本");
    assert_eq!(make_tooltip(None, Some(10), "loading", false), "正在读取 Codex 额度");
    assert_eq!(make_tooltip(Some(80), Some(55), "error", true), "Codex 额度暂时无法获取 · 有新版本");
    assert_eq!(
        make_tooltip(Some(i64::MIN), None, "ready", false),
        "Codex 剩余: 5小时 -9223372036854775808%"
    );
}

#[test]
fn palette_and_quota_colors() {
    let p = pick_tray_palette("idle");
    assert_eq!(p.dim, [239, 68, 68, 255]);
    assert_eq!(p.border, [0, 0, 0, 255]);
    assert_eq!(p.background, [8, 10, 14, 255]);
    assert_eq!(p.track, [45, 50, 60, 255]);
    assert_eq!(pick_tray_palette("ready").dim, [70, 78, 90, 255]);
    assert_eq!(pick_quota_color(Some(90), "error", [1, 2, 3, 4]), [239, 68, 68, 255]);
    assert_eq!(pick_quota_color(None, "ready", [1, 2, 3, 4]), [1, 2, 3, 4]);
    assert_eq!(pick_quota_color(Some(20), "ready", [1, 2, 3, 4]), [239, 68, 68, 255]);
    assert_eq!(pick_quota_color(Some(21), "ready", [1, 2, 3, 4]), [245, 158, 11, 255]);
    assert_eq!(pick_quota_color(Some(50), "ready", [1, 2, 3, 4]), [245, 158, 11, 255]);
    assert_eq!(pick_quota_color(Some(51), "ready", [1, 2, 3, 4]), [34, 197, 94, 255]);
}

#[test]
fn set_pixel_paints_one_pixel_and_ignores_outside_points() {
    let mut rgba = vec![0u8; 2 * 2 * 4];
    set_pixel(&mut rgba, 2, 1, 1, [9, 8, 7, 6]);
    assert_eq!(&rgba[12..16], &[9, 8, 7, 6]);
    assert_eq!(&rgba[0..12], &[0u8; 12]);
    set_pixel(&mut rgba, 2, 2, 0, [1, 1, 1, 1]);
    set_pixel(&mut rgba, 2, 0, 5, [1, 1, 1, 1]);
    assert_eq!(&rgba[0..12], &[0u8; 12]);
}

#[test]
fn update_flag_only_appends_the_new_version_suffix() {
    for (p, s, st) in [
        (Some(80), Some(-5), "ready"),
        (None, Some(1), "loading"),
        (Some(0), None, "error"),
        (Some(i64::MIN), Some(i64::MAX), "idle"),
    ] {
        let plain = make_tooltip(p, s, st, false);
        assert_eq!(make_tooltip(p, s, st, true), format!("{plain} · 有新版本"));
        assert!(!plain.contains("有新版本"));
    }
}
