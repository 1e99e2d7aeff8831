//! Updates of the build that ships both a portable file and an installer:
//! what an update check reports, which kind of package is running, and where
//! a downloaded installer is saved.
use crate::release::{find_asset, latest_version, spec_find_asset, spec_latest_version, Release};
use crate::text::{chars_of, contains_seq, lower_contains, lower_seq, trim};
use crate::updates::{
    file_name_ok, has_no_backslash, last_url_segment, lemma_slash_before_sep, names_its_file, opt_str,
    path_file_name, sep_tail, spec_update_message, update_message, url_last_segment,
};
use crate::version::{is_newer_version, spec_is_newer_version};
use vstd::prelude::*;
use vstd::string::*;

verus! {

/// Which kind of package is running.
#[derive(Clone, Copy, Debug, PartialEq, Eq, Structural)]
pub enum PackageKind {
    Portable,
    Installer,
}

/// What an update check reports to the front end.
pub struct UpdateInfo {
    pub available: bool,
    pub current_version: String,
    pub latest_version: String,
    pub release_url: String,
    pub portable_asset_url: Option<String>,
    pub setup_asset_url: Option<String>,
    pub portable_file_name: Option<String>,
    pub setup_file_name: Option<String>,
    pub package_kind: PackageKind,
    pub message: String,
}

/// The package kind of a running executable: portable when its file name
/// contains `portable` in any ASCII case, the installed build otherwise.
pub fn package_kind_for_exe_name(exe_name: &str) -> (r: PackageKind)
    ensures
        r == if contains_seq(lower_seq(exe_name@), "portable"@) {
            PackageKind::Portable
        } else {
            PackageKind::Installer
        },
{
    let v = chars_of(exe_name);
    let p = chars_of("portable");
    if lower_contains(&v, &p) {
        PackageKind::Portable
    } else {
        PackageKind::Installer
    }
}

pub open spec fn spec_package_kind(exe_name: Seq<char>) -> PackageKind {
    if contains_seq(lower_seq(exe_name), "portable"@) {
        PackageKind::Portable
    } else {
        PackageKind::Installer
    }
}

/// The package kind for an executable's file name, when it has one; an
/// executable without a file name counts as the installed build.
pub open spec fn spec_package_kind_of(name: Option<Seq<char>>) -> PackageKind {
    match name {
        Some(n) => spec_package_kind(n),
        None => spec_package_kind(Seq::<char>::empty()),
    }
}

/// The package kind of the executable at `path`: `package_kind_for_exe_name`
/// on its final component by `Path::file_name` (none counts as no name).
pub fn package_kind_for_exe_path(path: &str) -> (r: PackageKind)
    ensures
        exists|c: Option<Seq<char>>| file_name_ok(path@, c) && r == #[trigger] spec_package_kind_of(c),
        names_its_file(path@) ==> (r == spec_package_kind(sep_tail(path@)) || r == spec_package_kind(
            last_url_segment(path@),
        )),
        names_its_file(path@) && has_no_backslash(path@) ==> r == spec_package_kind(sep_tail(path@)),
{
    proof {
        lemma_slash_before_sep(path@);
    }
    let name = path_file_name(path);
    let r = match &name {
        Some(n) => package_kind_for_exe_name(n.as_str()),
        None => package_kind_for_exe_name(""),
    };
    proof {
        reveal_strlit("");
        assert(""@ =~= Seq::<char>::empty());
    }
    assert(r == spec_package_kind_of(opt_str(name)));
    r
}

/// What an update check reports about a release: the latest version, whether it is
/// newer than `current_version`, the release page, the first assets whose
/// names end in `portable.exe` and in `setup.exe`, and the running package
/// kind.
pub fn update_info_from_release(
    release: &Release,
    current_version: &str,
    package_kind: PackageKind,
) -> (r: UpdateInfo)
    ensures
        r.latest_version@ == spec_latest_version(
            release.tag_name@,
            release.assets@,
            current_version@,
        ),
        r.available == spec_is_newer_version(r.latest_version@, current_version@),
        r.current_version@ == current_version@,
        r.release_url@ == release.html_url@,
        r.message@ == spec_update_message(r.available, r.latest_version@, current_version@),
        r.package_kind == package_kind,
        match spec_find_asset(release.assets@, "portable.exe"@) {
            Some(i) => opt_str(r.portable_asset_url) == Some(
                release.assets@[i].browser_download_url@,
            ) && opt_str(r.portable_file_name) == Some(release.assets@[i].name@),
            None => r.portable_asset_url is None && r.portable_file_name is None,
        },
        match spec_find_asset(release.assets@, "setup.exe"@) {
            Some(i) => opt_str(r.setup_asset_url) == Some(
                release.assets@[i].browser_download_url@,
            ) && opt_str(r.setup_file_name) == Some(release.assets@[i].name@),
            None => r.setup_asset_url is None && r.setup_file_name is None,
        },
{
    let latest = latest_version(release, current_version);
    let available = is_newer_version(latest.as_str(), current_version);
    let message = update_message(available, latest.as_str(), current_version);
    let (portable_url, portable_name) = match find_asset(&release.assets, "portable.exe") {
        Some(i) => (
            Some(release.assets[i].browser_download_url.clone()),
            Some(release.assets[i].name.clone()),
        ),
        None => (None, None),
    };
    let (setup_url, setup_name) = match find_asset(&release.assets, "setup.exe") {
        Some(i) => (
            Some(release.assets[i].browser_download_url.clone()),
            Some(release.assets[i].name.clone()),
        ),
        None => (None, None),
    };
    UpdateInfo {
        available,
        current_version: String::from_str(current_version),
        latest_version: latest,
        release_url: release.html_url.clone(),
        portable_asset_url: portable_url,
        setup_asset_url: setup_url,
        portable_file_name: portable_name,
        setup_file_name: setup_name,
        package_kind,
        message,
    }
}

/// The name a downloaded installer is saved under: the URL's last segment,
/// unless that is blank, in which case a fixed name.
pub open spec fn spec_installer_file_name(url: Seq<char>) -> Seq<char> {
    let seg = last_url_segment(url);
    if trim(seg).len() > 0 {
        seg
    } else {
        "Codex-Quota-Update-Setup.exe"@
    }
}

/// The file name of a downloaded installer: the URL's last segment (kept
/// as it is), or `Codex-Quota-Update-Setup.exe` when that segment is blank.
pub fn installer_file_name(url: &str) -> (r: String)
    ensures
        r@ == spec_installer_file_name(url@),
{
    let seg = url_last_segment(url);
    let v = chars_of(seg.as_str());
    let n = v.len();
    assert(v@.subrange(0, n as int) =~= v@);
    let (a, b) = crate::text::trim_bounds(&v, 0, n);
    if a < b {
        seg
    } else {
        String::from_str("Codex-Quota-Update-Setup.exe")
    }
}

} // verus!
