use codex_quota::menu::{menu_command, MenuCommand, MenuEntry, TrayState};
use codex_quota::tray::ColorScheme;

#[test]
fn a_new_tray_starts_with_the_defaults() {
    let st = TrayState::new();
    assert!(!st.autostart_checked());
    assert_eq!(st.auto_refresh_seconds(), 30);
    assert_eq!(st.color_scheme(), "blue");
    assert!(!st.dark_mode_checked());
    assert_eq!(st.opacity(), 90);
    assert!(!st.update_available());
    assert!(!st.update_checked());
    assert_eq!(st.latest_version(), None);
    assert_eq!(st.tooltip(), "正在读取 Codex 额度");
}

#[test]
fn appearance_ignores_unknown_schemes_and_opacities() {
    let mut st = TrayState::new();
    st.set_appearance("pink", true, 55);
    assert_eq!(st.color_scheme(), "blue");
    assert!(st.dark_mode_checked());
    assert_eq!(st.opacity(), 90);
    st.set_appearance("green", false, 40);
    assert_eq!(st.color_scheme(), "green");
    assert!(!st.dark_mode_checked());
    assert_eq!(st.opacity(), 40);
}

#[test]
fn update_status_keeps_only_named_available_versions() {
    let mut st = TrayState::new();
    st.set_update_available(true, Some("2.7.0".to_string()));
    assert!(st.update_available());
    assert!(st.update_checked());
    assert_eq!(st.latest_version(), Some("2.7.0".to_string()));
    assert_eq!(st.version_label("2.6.0"), "更新2.6 » 2.7.0");
    st.set_update_available(true, Some(String::new()));
    assert_eq!(st.latest_version(), None);
    assert_eq!(st.version_label("2.6.0"), "更新到最新版本");
    st.set_update_available(false, Some("2.7.0".to_string()));
    assert_eq!(st.latest_version(), None);
    assert_eq!(st.version_label("2.6.9"), "版本 2.6.9（最新）");
    assert_eq!(TrayState::new().version_label("2.6.9"), "版本 2.6.9");
}

#[test]
fn quota_reading_drives_tooltip_and_colors() {
    let mut st = TrayState::new();
    st.update_quota(Some(15), Some(70), "ready");
    assert_eq!(st.tooltip(), "Codex 剩余: 5小时 15% / 周 70%");
    let c = st.icon_colors();
    assert_eq!(c.primary, [239, 68, 68, 255]);
    assert_eq!(c.secondary, [34, 197, 94, 255]);
    assert!(!c.update_badge);
    st.update_quota(None, None, "loading");
    let c = st.icon_colors();
    assert_eq!(c.primary, [239, 68, 68, 255]);
    st.set_update_available(true, None);
    assert!(st.icon_colors().update_badge);
}

fn check_items(entry: &MenuEntry) -> Vec<(String, String, bool)> {
    match entry {
        MenuEntry::Submenu { items, .. } => {
            items.iter().map(|c| (c.id.clone(), c.label.clone(), c.checked)).collect()
        }
        _ => panic!("not a submenu"),
    }
}

#[test]
fn menu_lists_the_items_in_order() {
    let mut st = TrayState::new();
    st.set_auto_refresh_seconds(600);
    st.set_appearance("red", true, 70);
    let menu = st.menu(true, "2.6.0");
    assert_eq!(menu.len(), 15);
    match &menu[0] {
        MenuEntry::Item { id, label } => {
            assert_eq!(id, "small");
            assert_eq!(label, "打开小窗");
        }
        _ => panic!("small"),
    }
    match &menu[2] {
        MenuEntry::Check(c) => {
            assert_eq!(c.id, "topmost");
            assert!(c.checked);
        }
        _ => panic!("topmost"),
    }
    assert!(matches!(menu[3], MenuEntry::Separator));
    match &menu[4] {
        MenuEntry::Submenu { label, items } => {
            assert_eq!(label, "主题色：红");
            assert_eq!(items.len(), 9);
        }
        _ => panic!("schemes"),
    }
    let schemes = check_items(&menu[4]);
    assert_eq!(schemes[0], ("color-scheme-red".to_string(), "红".to_string(), true));
    assert_eq!(schemes[5], ("color-scheme-blue".to_string(), "蓝".to_string(), false));
    match &menu[5] {
        MenuEntry::Check(c) => {
            assert_eq!(c.id, "dark-mode");
            assert!(c.checked);
        }
        _ => panic!("dark mode"),
    }
    match &menu[6] {
        MenuEntry::Submenu { label, .. } => assert_eq!(label, "透明度 70%"),
        _ => panic!("opacity"),
    }
    let opacities = check_items(&menu[6]);
    assert_eq!(opacities.len(), 10);
    assert_eq!(opacities.iter().filter(|c| c.2).count(), 1);
    assert_eq!(opacities[3], ("opacity-70".to_string(), "70%".to_string(), true));
    match &menu[8] {
        MenuEntry::Submenu { label, .. } => assert_eq!(label, "自动刷新 10min"),
        _ => panic!("refresh"),
    }
    let refresh = check_items(&menu[8]);
    assert_eq!(refresh.len(), 7);
    assert_eq!(refresh[3], ("auto-refresh-600".to_string(), "10min".to_string(), true));
    match &menu[10] {
        MenuEntry::Check(c) => {
            assert_eq!(c.id, "autostart");
            assert_eq!(c.label, "开机自启动");
            assert!(!c.checked);
        }
        _ => panic!("autostart"),
    }
    match &menu[14] {
        MenuEntry::Item { id, label } => {
            assert_eq!(id, "version");
            assert_eq!(label, "版本 2.6");
        }
        _ => panic!("version"),
    }
}

#[test]
fn unknown_refresh_interval_shows_30s_and_checks_nothing() {
    let mut st = TrayState::new();
    st.set_auto_refresh_seconds(45);
    let menu = st.menu(false, "1.0.0");
    match &menu[8] {
        MenuEntry::Submenu { label, items } => {
            assert_eq!(label, "自动刷新 30s");
            assert!(items.iter().all(|c| !c.checked));
        }
        _ => panic!("refresh"),
    }
}

#[test]
fn menu_commands_follow_the_ids() {
    assert_eq!(menu_command("small", false), MenuCommand::ShowSmall);
    assert_eq!(menu_command("large", false), MenuCommand::ShowLarge);
    assert_eq!(menu_command("topmost", false), MenuCommand::ToggleTopmost);
    assert_eq!(menu_command("autostart", false), MenuCommand::ToggleAutostart);
    assert_eq!(menu_command("auto-refresh-60", false), MenuCommand::SetAutoRefresh(60));
    assert_eq!(menu_command("auto-refresh-61", false), MenuCommand::Ignore);
    assert_eq!(
        menu_command("color-scheme-cyan", false),
        MenuCommand::SetColorScheme(ColorScheme::Cyan)
    );
    assert_eq!(menu_command("color-scheme-x", false), MenuCommand::Ignore);
    assert_eq!(menu_command("dark-mode", false), MenuCommand::ToggleDarkMode);
    assert_eq!(menu_command("opacity-20", false), MenuCommand::SetOpacity(20));
    assert_eq!(menu_command("version", true), MenuCommand::DownloadUpdate);
    assert_eq!(menu_command("version", false), MenuCommand::CheckUpdate);
    assert_eq!(menu_command("restart", false), MenuCommand::Restart);
    assert_eq!(menu_command("quit", false), MenuCommand::Quit);
    assert_eq!(menu_command("something", false), MenuCommand::Ignore);
}

#[test]
fn menu_events_update_the_settings() {
    let mut st = TrayState::new();
    assert_eq!(st.handle_menu_event("dark-mode"), MenuCommand::ToggleDarkMode);
    assert!(st.dark_mode_checked());
    st.handle_menu_event("dark-mode");
    assert!(!st.dark_mode_checked());
    st.handle_menu_event("color-scheme-purple");
    assert_eq!(st.color_scheme(), "purple");
    st.handle_menu_event("opacity-30");
    assert_eq!(st.opacity(), 30);
    st.handle_menu_event("auto-refresh-1800");
    assert_eq!(st.auto_refresh_seconds(), 1800);
    st.handle_menu_event("quit");
    assert_eq!(st.auto_refresh_seconds(), 1800);
    assert_eq!(st.color_scheme(), "purple");
}

#[test]
fn every_submenu_item_dispatches_and_checks_itself() {
    let st = TrayState::new();
    let menu = st.menu(false, "2.6.9");
    for (id, _, _) in check_items(&menu[6]) {
        let mut clicked = TrayState::new();
        match clicked.handle_menu_event(&id) {
            MenuCommand::SetOpacity(o) => {
                assert_eq!(format!("opacity-{o}"), id);
                assert_eq!(clicked.opacity(), o);
                let rebuilt = clicked.menu(false, "2.6.9");
                let checked: Vec<String> = check_items(&rebuilt[6])
                    .into_iter()
                    .filter(|(_, _, c)| *c)
                    .map(|(i, _, _)| i)
                    .collect();
                assert_eq!(checked, vec![id.clone()]);
            }
            other => panic!("unexpected command {other:?}"),
        }
    }
    for (id, _, _) in check_items(&menu[8]) {
        let mut clicked = TrayState::new();
        match clicked.handle_menu_event(&id) {
            MenuCommand::SetAutoRefresh(s) => {
                assert_eq!(format!("auto-refresh-{s}"), id);
                assert_eq!(clicked.auto_refresh_seconds(), s);
                let rebuilt = clicked.menu(false, "2.6.9");
                let checked: Vec<String> = check_items(&rebuilt[8])
                    .into_iter()
                    .filter(|(_, _, c)| *c)
                    .map(|(i, _, _)| i)
                    .collect();
                assert_eq!(checked, vec![id.clone()]);
            }
            other => panic!("unexpected command {other:?}"),
        }
    }
}
