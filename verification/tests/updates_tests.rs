use codex_quota::installer_updates::{
    installer_file_name, package_kind_for_exe_name, package_kind_for_exe_path, update_info_from_release as installer_info,
    PackageKind,
};
use codex_quota::release::{find_asset, latest_version, Release, ReleaseAsset};
use codex_quota::updates::{
    create_shortcut_script, desktop_from_output, download_name_candidate, eq_ignore_ascii_case, file_name_or_fallback, is_portable_runtime,
    is_stable_portable_path, plan_shortcut, progress_total, safe_file_name,
    portable_path_migrates, portable_update_version, second_instance_portable_path,
    second_instance_update_version, should_migrate_versioned_portable, strip_quotes,
    update_info_from_release, update_message, updater_arguments, url_last_segment, ShortcutState,
    UpdaterArg,
};

fn asset(name: &str, size: Option<u64>) -> ReleaseAsset {
    ReleaseAsset {
        name: name.to_string(),
        browser_download_url: format!("https://example.invalid/{name}"),
        size,
    }
}

fn release(tag: &str, assets: Vec<ReleaseAsset>) -> Release {
    Release { tag_name: tag.to_string(), html_url: "https://example.invalid/r".to_string(), assets }
}

#[test]
fn find_asset_matches_lower_cased_suffix() {
    let assets = vec![
        asset("Codex Quota Monitor 2.7.0 Setup.exe", None),
        asset("Codex Quota Monitor 2.7.0 Portable.EXE", Some(8)),
        asset("other-portable.exe", None),
    ];
    assert_eq!(find_asset(&assets, "portable.exe"), Some(1));
    assert_eq!(find_asset(&assets, "setup.exe"), Some(0));
    assert_eq!(find_asset(&assets, "Portable.exe"), None);
    assert_eq!(find_asset(&assets, "zip"), None);
}

#[test]
fn latest_version_prefers_tag_then_assets_then_current() {
    let r = release("v2.7.1", vec![asset("x 9.9.9 y", None)]);
    assert_eq!(latest_version(&r, "2.6.9"), "2.7.1");
    let r = release("latest", vec![asset("readme.txt", None), asset("Monitor 2.8.0 Portable.exe", None)]);
    assert_eq!(latest_version(&r, "2.6.9"), "2.8.0");
    let r = release("latest", vec![asset("readme.txt", None)]);
    assert_eq!(latest_version(&r, "2.6.9"), "2.6.9");
}

#[test]
fn update_info_reports_a_newer_portable_release() {
    let r = release(
        "v2.7.0",
        vec![asset("Monitor 2.7.0 Setup.exe", None), asset("Monitor 2.7.0 Portable.exe", Some(42))],
    );
    let info = update_info_from_release(&r, "2.6.9");
    assert!(info.available);
    assert_eq!(info.current_version, "2.6.9");
    assert_eq!(info.latest_version, "2.7.0");
    assert_eq!(info.release_url, "https://example.invalid/r");
    assert_eq!(
        info.portable_asset_url.as_deref(),
        Some("https://example.invalid/Monitor 2.7.0 Portable.exe")
    );
    assert_eq!(info.portable_file_name.as_deref(), Some("Monitor 2.7.0 Portable.exe"));
    assert_eq!(info.portable_asset_size, Some(42));
    assert_eq!(info.message, "发现新版本 2.7.0");
}

#[test]
fn update_info_reports_up_to_date() {
    let r = release("2.6.9", vec![]);
    let info = update_info_from_release(&r, "2.6.9");
    assert!(!info.available);
    assert_eq!(info.portable_asset_url, None);
    assert_eq!(info.portable_file_name, None);
    assert_eq!(info.portable_asset_size, None);
    assert_eq!(info.message, "当前已是最新版本 2.6.9");
    assert_eq!(update_message(true, "3.0.0", "2.0.0"), "发现新版本 3.0.0");
}

#[test]
fn installer_update_info_reports_both_packages() {
    let r = release(
        "v3.1.0",
        vec![asset("Monitor 3.1.0 Portable.exe", None), asset("Monitor 3.1.0 Setup.exe", None)],
    );
    let info = installer_info(&r, "3.0.0", PackageKind::Installer);
    assert!(info.available);
    assert_eq!(info.setup_file_name.as_deref(), Some("Monitor 3.1.0 Setup.exe"));
    assert_eq!(
        info.setup_asset_url.as_deref(),
        Some("https://example.invalid/Monitor 3.1.0 Setup.exe")
    );
    assert_eq!(info.portable_file_name.as_deref(), Some("Monitor 3.1.0 Portable.exe"));
    assert_eq!(info.package_kind, PackageKind::Installer);
    assert_eq!(info.message, "发现新版本 3.1.0");
}

#[test]
fn package_kind_follows_the_exe_name() {
    assert_eq!(package_kind_for_exe_name("Codex Quota Monitor 2.6.9 Portable.exe"), PackageKind::Portable);
    assert_eq!(package_kind_for_exe_name("codex-PORTABLE"), PackageKind::Portable);
    assert_eq!(package_kind_for_exe_name("Codex Quota Monitor.exe"), PackageKind::Installer);
    assert_eq!(package_kind_for_exe_name(""), PackageKind::Installer);
}

#[test]
fn installer_file_names() {
    assert_eq!(installer_file_name("https://x.invalid/a/Setup 1.exe"), "Setup 1.exe");
    assert_eq!(installer_file_name("https://x.invalid/a/"), "Codex-Quota-Update-Setup.exe");
    assert_eq!(installer_file_name("https://x.invalid/a/  "), "Codex-Quota-Update-Setup.exe");
    assert_eq!(installer_file_name("plain.exe"), "plain.exe");
    assert_eq!(installer_file_name("https://x.invalid/ b.exe "), " b.exe ");
}

#[test]
fn url_segments_and_file_names() {
    assert_eq!(url_last_segment("https://a.invalid/b/c.exe"), "c.exe");
    assert_eq!(url_last_segment("c.exe"), "c.exe");
    assert_eq!(url_last_segment("https://a.invalid/"), "");
    assert_eq!(file_name_or_fallback(Some("  x.exe ".to_string()), "f"), "x.exe");
    assert_eq!(file_name_or_fallback(Some("   ".to_string()), "f"), "f");
    assert_eq!(file_name_or_fallback(None, "f"), "f");
}

#[test]
fn safe_file_name_picks_name_then_url_then_fallback() {
    assert_eq!(safe_file_name(Some("Update.exe"), "https://a.invalid/b.exe", "fb.exe"), "Update.exe");
    assert_eq!(safe_file_name(None, "https://a.invalid/dl/b.exe", "fb.exe"), "b.exe");
    assert_eq!(safe_file_name(None, "https://a.invalid/dl/", "fb.exe"), "fb.exe");
    assert_eq!(safe_file_name(Some("dir/inner.exe"), "u", "fb.exe"), "inner.exe");
    assert_eq!(safe_file_name(Some(".."), "u", "fb.exe"), "fb.exe");
}

#[test]
fn progress_total_prefers_the_response_length() {
    assert_eq!(progress_total(Some(10), Some(20)), Some(10));
    assert_eq!(progress_total(None, Some(20)), Some(20));
    assert_eq!(progress_total(None, Some(0)), None);
    assert_eq!(progress_total(None, None), None);
}

#[test]
fn stable_path_and_migration() {
    let stable = Some("C:\\Users\\a\\AppData\\Local\\Programs\\Codex Quota Monitor\\Codex Quota Monitor.exe");
    assert!(eq_ignore_ascii_case("ABC-é", "abc-é"));
    assert!(!eq_ignore_ascii_case("abc", "abcd"));
    assert!(is_stable_portable_path(
        "c:\\users\\a\\appdata\\local\\programs\\codex quota monitor\\codex quota monitor.exe",
        stable
    ));
    assert!(!is_stable_portable_path("anything", None));
    assert!(is_portable_runtime(stable.unwrap(), stable));
    assert!(should_migrate_versioned_portable(
        Some("Codex Quota Monitor 2.6.9 Portable.exe"),
        "D:\\Downloads\\Codex Quota Monitor 2.6.9 Portable.exe",
        stable
    ));
    assert!(!should_migrate_versioned_portable(Some("Codex Quota Monitor.exe"), "D:\\x.exe", stable));
    assert!(!should_migrate_versioned_portable(None, "D:\\x", stable));
    assert!(!should_migrate_versioned_portable(Some("portable.exe"), "p", Some("P")));
}

#[test]
fn second_instance_hands_over_only_newer_copies() {
    assert_eq!(strip_quotes("\"C:\\a b\\x.exe\""), "C:\\a b\\x.exe");
    assert_eq!(strip_quotes("\"\"x\""), "x");
    assert_eq!(strip_quotes("plain"), "plain");
    assert_eq!(
        second_instance_update_version("Codex Quota Monitor 2.7.0 Portable.exe", "2.6.9"),
        Some("2.7.0".to_string())
    );
    assert_eq!(second_instance_update_version("Codex Quota Monitor 2.6.9 Portable.exe", "2.6.9"), None);
    assert_eq!(second_instance_update_version("Portable.exe", "2.6.9"), None);
}

#[test]
fn shortcut_plans() {
    let fresh = ShortcutState::default();
    let plan = plan_shortcut(&fresh, false, "2.6.9");
    assert!(plan.create);
    assert_eq!(plan.state.last_shortcut_version.as_deref(), Some("2.6.9"));
    assert_eq!(plan.state.shortcut_missing_after_version, None);

    let removed = plan_shortcut(&plan.state, false, "2.6.9");
    assert!(!removed.create);
    assert_eq!(removed.state.last_shortcut_version.as_deref(), Some("2.6.9"));
    assert_eq!(removed.state.shortcut_missing_after_version.as_deref(), Some("2.6.9"));

    let upgraded = plan_shortcut(&removed.state, false, "2.7.0");
    assert!(upgraded.create);
    assert_eq!(upgraded.state.shortcut_missing_after_version, None);

    let existing = plan_shortcut(&removed.state, true, "2.6.9");
    assert!(existing.create);
}

#[test]
fn desktop_folder_from_shell_output() {
    assert_eq!(desktop_from_output(true, " C:\\Users\\a\\Desktop\r\n"), Ok("C:\\Users\\a\\Desktop".to_string()));
    assert_eq!(desktop_from_output(true, " \r\n"), Err("桌面目录为空".to_string()));
    assert_eq!(desktop_from_output(false, "C:\\x"), Err("无法读取桌面目录".to_string()));
}

fn arg_text(a: &UpdaterArg) -> String {
    match a {
        UpdaterArg::Text(s) => s.clone(),
        UpdaterArg::ScriptPath => "<script>".to_string(),
        UpdaterArg::SourcePath => "<source>".to_string(),
        UpdaterArg::TargetPath => "<target>".to_string(),
    }
}

#[test]
fn updater_command_line() {
    let args: Vec<String> = updater_arguments(Some(1234), true).iter().map(arg_text).collect();
    assert_eq!(
        args,
        vec![
            "-NoProfile", "-ExecutionPolicy", "Bypass", "-File", "<script>", "-Source", "<source>",
            "-Target", "<target>", "-ProcessId", "1234", "-NoShortcut"
        ]
    );
    let args: Vec<String> = updater_arguments(None, false).iter().map(arg_text).collect();
    assert_eq!(args.len(), 9);
}

#[test]
fn download_name_candidate_prefers_the_given_name() {
    assert_eq!(download_name_candidate(Some("x/y.exe"), "https://a.invalid/b.exe"), "x/y.exe");
    assert_eq!(download_name_candidate(None, "https://a.invalid/dl/b.exe"), "b.exe");
    assert_eq!(download_name_candidate(None, "https://a.invalid/dl/"), "");
    assert_eq!(download_name_candidate(None, "plain"), "plain");
}

#[test]
fn shortcut_script_points_the_shortcut_at_the_target() {
    let script = create_shortcut_script();
    assert!(script.starts_with("\nparam("));
    assert!(script.contains("[Parameter(Mandatory = $true)][string]$ShortcutName"));
    assert!(script.contains("$shortcut.TargetPath = $Target"));
    assert!(script.contains("$shortcut.IconLocation = $Target"));
    assert!(script.ends_with("$shortcut.Save()\n"));
}

#[test]
fn second_instance_path_needs_a_versioned_portable_file() {
    let stable = Some("/programs/Codex Quota Monitor.exe");
    let arg = "\"/dl/Codex Quota Monitor 2.7.0 Portable.exe\"";
    assert_eq!(
        second_instance_portable_path(arg, true, stable),
        Some("/dl/Codex Quota Monitor 2.7.0 Portable.exe".to_string())
    );
    assert_eq!(second_instance_portable_path(arg, false, stable), None);
    assert_eq!(second_instance_portable_path("/dl/notes.txt", true, stable), None);
    assert_eq!(
        second_instance_portable_path("/PROGRAMS/codex quota monitor.exe", true, stable),
        None
    );
    assert_eq!(
        second_instance_portable_path("App-Portable.exe", true, None),
        Some("App-Portable.exe".to_string())
    );
}

#[test]
fn running_copies_migrate_by_their_file_name() {
    let stable = Some("/programs/Codex Quota Monitor.exe");
    assert!(portable_path_migrates("/dl/Codex Quota Monitor 2.6.9 Portable.exe", stable));
    assert!(portable_path_migrates("Codex.Quota.Monitor.2.6.9.Portable.exe", stable));
    assert!(!portable_path_migrates("/programs/Codex Quota Monitor.exe", stable));
    assert!(!portable_path_migrates("/dl/Setup.exe", stable));
    assert!(!portable_path_migrates("/dl/portable.exe/..", stable));
}

#[test]
fn handed_over_copies_carry_a_newer_version_in_their_name() {
    assert_eq!(
        portable_update_version("/dl/Codex Quota Monitor 2.7.0 Portable.exe", "2.6.9"),
        Some("2.7.0".to_string())
    );
    assert_eq!(
        portable_update_version("/dl/Codex Quota Monitor 2.6.9 Portable.exe", "2.6.9"),
        None
    );
    assert_eq!(portable_update_version("/dl/1.2.3/app.exe", "0.1.0"), None);
    assert_eq!(portable_update_version("..", "0.1.0"), None);
}

#[test]
fn save_names_with_directories_keep_their_last_segment() {
    assert_eq!(
        safe_file_name(Some("../../x 2.7.0 Portable.exe"), "https://e.x/a.exe", "fb.exe"),
        "x 2.7.0 Portable.exe"
    );
    assert_eq!(
        safe_file_name(None, "https://e.x/d/A.2.6.9.Portable.exe", "fb.exe"),
        "A.2.6.9.Portable.exe"
    );
    assert_eq!(safe_file_name(None, "https://e.x/", "fb.exe"), "fb.exe");
    assert_eq!(safe_file_name(Some("  "), "https://e.x/a.exe", "fb.exe"), "fb.exe");
    assert_eq!(safe_file_name(Some("dir/.."), "https://e.x/a.exe", "fb.exe"), "fb.exe");
}

#[test]
fn windows_style_paths_migrate_under_either_reading() {
    let stable = Some("C:\\Programs\\Codex Quota Monitor.exe");
    assert!(portable_path_migrates("C:\\dl\\Codex Quota Monitor 2.7.0 Portable.exe", stable));
    assert!(!portable_path_migrates("C:\\dl\\portable.exe\\Setup.exe", stable));
    assert!(!portable_path_migrates("c:\\programs\\codex quota monitor.exe", stable));
}

#[test]
fn package_kind_comes_from_the_executable_file_name() {
    assert_eq!(package_kind_for_exe_path("/opt/app/Codex-Portable.exe"), PackageKind::Portable);
    assert_eq!(package_kind_for_exe_path("/portable/bin/app.exe"), PackageKind::Installer);
    assert_eq!(package_kind_for_exe_path(""), PackageKind::Installer);
    assert_eq!(package_kind_for_exe_path("PORTABLE.EXE"), PackageKind::Portable);
}
