//! Updates of the single-file (portable) build: what an update check reports,
//! where a download is saved, when a running copy moves itself to the stable
//! entry point, when a second instance hands over a newer copy, how the
//! desktop shortcut is kept, and the updater's command line.
use crate::release::{
    asset_matches, clone_opt, find_asset, latest_version, spec_find_asset, spec_latest_version,
    Release, ReleaseAsset,
};
use crate::text::{
    chars_of, decimal, has_suffix, lemma_decimal, lower_ends_with, lower_seq, push_decimal, push_str,
    skip_char_back, skip_char_front, string_of, to_ascii_lower, trim, trim_bounds, trim_char,
};
use crate::version::{is_newer_version, spec_is_newer_version, spec_version_from_asset, version_from_asset};
use vstd::prelude::*;
use vstd::string::*;

verus! {

/// What an update check reports to the front end.
pub struct UpdateInfo {
    pub available: bool,
    pub current_version: String,
    pub latest_version: String,
    pub release_url: String,
    pub portable_asset_url: Option<String>,
    pub portable_file_name: Option<String>,
    pub portable_asset_size: Option<u64>,
    pub message: String,
}

pub open spec fn opt_str(o: Option<String>) -> Option<Seq<char>> {
    match o {
        Some(s) => Some(s@),
        None => None,
    }
}

/// The message of an update check.
pub open spec fn spec_update_message(available: bool, latest: Seq<char>, current: Seq<char>) -> Seq<
    char,
> {
    if available {
        "发现新版本 "@ + latest
    } else {
        "当前已是最新版本 "@ + current
    }
}

/// The message of an update check: the new version, or the running one.
pub fn update_message(available: bool, latest: &str, current: &str) -> (r: String)
    ensures
        r@ == spec_update_message(available, latest@, current@),
{
    if available {
        let mut s = String::from_str("发现新版本 ");
        push_str(&mut s, latest);
        s
    } else {
        let mut s = String::from_str("当前已是最新版本 ");
        push_str(&mut s, current);
        s
    }
}

/// What an update check reports about a release: the latest version it stands for,
/// whether that is newer than `current_version`, the release page, and the
/// first asset whose name ends in `portable.exe`.
pub fn update_info_from_release(release: &Release, current_version: &str) -> (r: UpdateInfo)
    ensures
        r.latest_version@ == spec_latest_version(
            release.tag_name@,
            release.assets@,
            current_version@,
        ),
        r.available == spec_is_newer_version(r.latest_version@, current_version@),
        r.current_version@ == current_version@,
        r.release_url@ == release.html_url@,
        r.message@ == spec_update_message(r.available, r.latest_version@, current_version@),
        match spec_find_asset(release.assets@, "portable.exe"@) {
            Some(i) => {
                &&& opt_str(r.portable_asset_url) == Some(
                    release.assets@[i].browser_download_url@,
                )
                &&& opt_str(r.portable_file_name) == Some(release.assets@[i].name@)
                &&& r.portable_asset_size == release.assets@[i].size
            },
            None => {
                &&& r.portable_asset_url is None
                &&& r.portable_file_name is None
                &&& r.portable_asset_size is None
            },
        },
{
    let latest = latest_version(release, current_version);
    let available = is_newer_version(latest.as_str(), current_version);
    let message = update_message(available, latest.as_str(), current_version);
    let (url, name, size) = match find_asset(&release.assets, "portable.exe") {
        Some(i) => {
            let a = &release.assets[i];
            (Some(a.browser_download_url.clone()), Some(a.name.clone()), a.size)
        },
        None => (None, None, None),
    };
    UpdateInfo {
        available,
        current_version: String::from_str(current_version),
        latest_version: latest,
        release_url: release.html_url.clone(),
        portable_asset_url: url,
        portable_file_name: name,
        portable_asset_size: size,
        message,
    }
}

/// The last index of `c` in `s`, or -1.
pub open spec fn last_index_of(s: Seq<char>, c: char) -> int
    decreases s.len(),
{
    if s.len() == 0 {
        -1
    } else if s.last() == c {
        s.len() - 1
    } else {
        last_index_of(s.drop_last(), c)
    }
}

/// What follows the last `/` of a URL (all of it when there is none), as
/// `str::rsplit('/').next()` gives it.
pub open spec fn last_url_segment(url: Seq<char>) -> Seq<char> {
    url.subrange(last_index_of(url, '/') + 1, url.len() as int)
}

proof fn lemma_last_index_range(s: Seq<char>, c: char)
    ensures
        -1 <= last_index_of(s, c) < s.len(),
    decreases s.len(),
{
    if s.len() > 0 && s.last() != c {
        lemma_last_index_range(s.drop_last(), c);
    }
}

/// The part of a URL after its last `/`.
pub fn url_last_segment(url: &str) -> (r: String)
    ensures
        r@ == last_url_segment(url@),
{
    let v = chars_of(url);
    let n = v.len();
    let mut j = n;
    assert(v@.subrange(0, n as int) =~= v@);
    while j > 0 && v[j - 1] != '/'
        invariant
            j <= n,
            n == v.len(),
            last_index_of(v@.subrange(0, j as int), '/') == last_index_of(v@, '/'),
        decreases j,
    {
        assert(v@.subrange(0, j as int).drop_last() =~= v@.subrange(0, j - 1));
        j = j - 1;
    }
    proof {
        assert(v@.subrange(0, n as int) =~= v@);
        if j > 0 {
            assert(v@.subrange(0, j as int).last() == '/');
        }
    }
    string_of(&v, j, n)
}

/// `n` occurs in `s` as a run of consecutive characters.
pub open spec fn occurs_in(n: Seq<char>, s: Seq<char>) -> bool {
    exists|i: int| 0 <= i && i + n.len() <= s.len() && #[trigger] s.subrange(i, i + n.len()) == n
}

/// The characters that separate path components on some platform.
pub open spec fn is_path_sep(c: char) -> bool {
    c == '/' || c == '\\'
}

/// The last index of a path separator in `s`, or -1.
pub open spec fn last_sep_index(s: Seq<char>) -> int
    decreases s.len(),
{
    if s.len() == 0 {
        -1
    } else if is_path_sep(s.last()) {
        s.len() - 1
    } else {
        last_sep_index(s.drop_last())
    }
}

/// What follows the last `/` or `\` of a path (all of it when there is none).
pub open spec fn sep_tail(p: Seq<char>) -> Seq<char> {
    p.subrange(last_sep_index(p) + 1, p.len() as int)
}

/// A name that no platform splits or treats specially: not empty, not `.` or
/// `..`, and without `/`, `\` or `:`.
pub open spec fn plain_component(n: Seq<char>) -> bool {
    &&& n.len() > 0
    &&& n != "."@
    &&& n != ".."@
    &&& forall|k: int| 0 <= k < n.len() ==> !is_path_sep(#[trigger] n[k]) && n[k] != ':'
}

/// A path whose final component is the same kind of thing everywhere: it
/// does not open with two separators (a UNC, device or verbatim prefix on
/// Windows) and what follows its last separator is a plain name.
pub open spec fn names_its_file(p: Seq<char>) -> bool {
    &&& !(p.len() >= 2 && is_path_sep(p[0]) && is_path_sep(p[1]))
    &&& plain_component(sep_tail(p))
}

pub open spec fn has_no_backslash(p: Seq<char>) -> bool {
    forall|k: int| 0 <= k < p.len() ==> #[trigger] p[k] != '\\'
}

/// What holds of the final component of a path on every platform: it is a
/// non-empty piece of the path and never `.` or `..`. When the path names its
/// file, the component is what follows the last `/` or `\` (where `\`
/// separates, as on Windows) or what follows the last `/` (where only `/`
/// does); without a `\` these are the same.
pub open spec fn file_name_ok(path: Seq<char>, r: Option<Seq<char>>) -> bool {
    &&& match r {
        Some(n) => n.len() > 0 && n != "."@ && n != ".."@ && occurs_in(n, path),
        None => true,
    }
    &&& names_its_file(path) ==> (r == Some(sep_tail(path)) || r == Some(last_url_segment(path)))
}

proof fn lemma_last_sep_facts(s: Seq<char>)
    ensures
        -1 <= last_sep_index(s) < s.len(),
        last_sep_index(s) >= 0 ==> is_path_sep(s[last_sep_index(s)]),
        forall|k: int| last_sep_index(s) < k < s.len() ==> !is_path_sep(#[trigger] s[k]),
    decreases s.len(),
{
    if s.len() > 0 && !is_path_sep(s.last()) {
        lemma_last_sep_facts(s.drop_last());
        assert forall|k: int| last_sep_index(s) < k < s.len() implies !is_path_sep(#[trigger] s[k]) by {
            if k < s.len() - 1 {
                assert(s[k] == s.drop_last()[k]);
            }
        }
    }
}

proof fn lemma_last_index_facts(s: Seq<char>, c: char)
    ensures
        -1 <= last_index_of(s, c) < s.len(),
        last_index_of(s, c) >= 0 ==> s[last_index_of(s, c)] == c,
        forall|k: int| last_index_of(s, c) < k < s.len() ==> #[trigger] s[k] != c,
    decreases s.len(),
{
    if s.len() > 0 && s.last() != c {
        lemma_last_index_facts(s.drop_last(), c);
        assert forall|k: int| last_index_of(s, c) < k < s.len() implies #[trigger] s[k] != c by {
            if k < s.len() - 1 {
                assert(s[k] == s.drop_last()[k]);
            }
        }
    }
}

/// The last `/` comes no later than the last separator, and they are the same
/// when there is no `\`: both readings of a final component then agree.
pub proof fn lemma_slash_before_sep(s: Seq<char>)
    ensures
        -1 <= last_index_of(s, '/') <= last_sep_index(s) < s.len(),
        has_no_backslash(s) ==> last_index_of(s, '/') == last_sep_index(s),
        has_no_backslash(s) ==> sep_tail(s) == last_url_segment(s),
{
    lemma_last_sep_facts(s);
    lemma_last_index_facts(s, '/');
    let ls = last_sep_index(s);
    let lu = last_index_of(s, '/');
    if lu > ls {
        assert(!is_path_sep(s[lu]));
    }
    if has_no_backslash(s) && ls > lu {
        assert(s[ls] != '\\');
        assert(s[ls] != '/');
    }
}

/// Whether a name ends in `portable.exe` does not depend on which of the two
/// readings of a path's final component is taken.
proof fn lemma_portable_suffix_either_reading(p: Seq<char>)
    ensures
        has_suffix(lower_seq(sep_tail(p)), "portable.exe"@) == has_suffix(
            lower_seq(last_url_segment(p)),
            "portable.exe"@,
        ),
{
    reveal_strlit("portable.exe");
    let q = "portable.exe"@;
    lemma_slash_before_sep(p);
    lemma_last_sep_facts(p);
    let ls = last_sep_index(p);
    let lu = last_index_of(p, '/');
    let a = last_url_segment(p);
    let b = sep_tail(p);
    assert(a.len() == p.len() - lu - 1);
    assert(b.len() == p.len() - ls - 1);
    if ls == lu {
        assert(a == b);
    } else if b.len() >= 12 {
        assert(lower_seq(a).subrange(a.len() - 12, a.len() as int) =~= lower_seq(b).subrange(
            b.len() - 12,
            b.len() as int,
        )) by {
            assert forall|k: int| 0 <= k < 12 implies #[trigger] lower_seq(a).subrange(
                a.len() - 12,
                a.len() as int,
            )[k] == lower_seq(b).subrange(b.len() - 12, b.len() as int)[k] by {
                assert(a[a.len() - 12 + k] == p[p.len() - 12 + k]);
                assert(b[b.len() - 12 + k] == p[p.len() - 12 + k]);
            }
        }
    } else {
        if has_suffix(lower_seq(a), q) {
            let i = a.len() - b.len() - 1;
            assert(a[i] == p[ls]);
            assert(is_path_sep(p[ls]));
            assert(lower_seq(a)[i] == p[ls]);
            let j = i - (a.len() - 12);
            assert(lower_seq(a).subrange(a.len() - 12, a.len() as int)[j] == lower_seq(a)[i]);
            assert(q[j] == lower_seq(a)[i]);
            assert(0 <= j < 12);
            assert(!is_path_sep(q[j]));
        }
    }
}

/// The final component of a path by `Path::file_name`, lossily converted to
/// a string. Which characters separate components, and which prefixes are
/// split off, depends on the platform (`\` separates on Windows, except in
/// verbatim `\\?\` paths), so the contract claims what holds everywhere
/// (`file_name_ok`): the component is a non-empty piece of the path other than
/// `.` and `..`, and a path that names its file gives what follows its last
/// separator under one of the two readings. Which reading applies is not
/// stated.
#[verifier::external_body]
pub(crate) fn path_file_name(path: &str) -> (r: Option<String>)
    ensures
        file_name_ok(path@, opt_str(r)),
{
    std::path::Path::new(path).file_name().map(|name| name.to_string_lossy().to_string())
}

/// The file name kept for a download: the trimmed name when it is not empty,
/// else the fallback.
pub open spec fn spec_file_name_or_fallback(name: Option<Seq<char>>, fallback: Seq<char>) -> Seq<
    char,
> {
    match name {
        Some(n) => if trim(n).len() > 0 {
            trim(n)
        } else {
            fallback
        },
        None => fallback,
    }
}

/// Keeps a trimmed, non-empty file name, or falls back.
pub fn file_name_or_fallback(name: Option<String>, fallback: &str) -> (r: String)
    ensures
        r@ == spec_file_name_or_fallback(opt_str(name), fallback@),
{
    match name {
        Some(n) => {
            let v = chars_of(n.as_str());
            let len = v.len();
            assert(v@.subrange(0, len as int) =~= v@);
            let (a, b) = trim_bounds(&v, 0, len);
            if a < b {
                string_of(&v, a, b)
            } else {
                String::from_str(fallback)
            }
        },
        None => String::from_str(fallback),
    }
}

pub open spec fn spec_download_name_candidate(file_name: Option<Seq<char>>, url: Seq<char>) -> Seq<
    char,
> {
    match file_name {
        Some(f) => f,
        None => last_url_segment(url),
    }
}

/// The text a download's file name is taken from: the given name, or else
/// the last `/`-separated segment of the URL.
pub fn download_name_candidate(file_name: Option<&str>, url: &str) -> (r: String)
    ensures
        r@ == spec_download_name_candidate(opt_ref(file_name), url@),
{
    match file_name {
        Some(f) => String::from_str(f),
        None => url_last_segment(url),
    }
}

/// The name a downloaded update is saved under: the final path component of
/// `download_name_candidate`, trimmed; the fallback when there is none or it
/// is blank.
pub fn safe_file_name(file_name: Option<&str>, url: &str, fallback: &str) -> (r: String)
    ensures
        exists|c: Option<Seq<char>>|
            file_name_ok(spec_download_name_candidate(opt_ref(file_name), url@), c) && r@
                == #[trigger] spec_file_name_or_fallback(c, fallback@),
        ({
            let cand = spec_download_name_candidate(opt_ref(file_name), url@);
            names_its_file(cand) ==> (r@ == spec_file_name_or_fallback(Some(sep_tail(cand)), fallback@)
                || r@ == spec_file_name_or_fallback(Some(last_url_segment(cand)), fallback@))
        }),
        ({
            let cand = spec_download_name_candidate(opt_ref(file_name), url@);
            names_its_file(cand) && has_no_backslash(cand) ==> r@ == spec_file_name_or_fallback(
                Some(sep_tail(cand)),
                fallback@,
            )
        }),
        r@ == fallback@ || (r@.len() > 0 && r@ == trim(r@)),
{
    let candidate = download_name_candidate(file_name, url);
    let component = path_file_name(candidate.as_str());
    let r = file_name_or_fallback(component, fallback);
    proof {
        lemma_slash_before_sep(candidate@);
        match opt_str(component) {
            Some(n) => {
                if trim(n).len() > 0 {
                    lemma_trim_idempotent(n);
                }
            },
            None => {},
        }
    }
    r
}

proof fn lemma_trim_start_of_trimmed_end(s: Seq<char>)
    ensures
        crate::text::trim_start_ws(crate::text::trim_end_ws(crate::text::trim_start_ws(s)))
            == crate::text::trim_end_ws(crate::text::trim_start_ws(s)),
{
    let t = crate::text::trim_start_ws(s);
    lemma_trim_start_ws_first(s);
    lemma_trim_end_ws_prefix(t);
    let u = crate::text::trim_end_ws(t);
    if u.len() > 0 {
        assert(u[0] == t[0]);
    }
}

proof fn lemma_trim_start_ws_first(s: Seq<char>)
    ensures
        crate::text::trim_start_ws(s).len() > 0 ==> !crate::text::is_ws(
            crate::text::trim_start_ws(s)[0],
        ),
    decreases s.len(),
{
    if s.len() > 0 && crate::text::is_ws(s[0]) {
        lemma_trim_start_ws_first(s.drop_first());
    }
}

proof fn lemma_trim_end_ws_prefix(s: Seq<char>)
    ensures
        crate::text::trim_end_ws(s).len() <= s.len(),
        crate::text::trim_end_ws(s) == s.subrange(0, crate::text::trim_end_ws(s).len() as int),
        crate::text::trim_end_ws(s).len() > 0 ==> !crate::text::is_ws(
            crate::text::trim_end_ws(s).last(),
        ),
    decreases s.len(),
{
    if s.len() > 0 && crate::text::is_ws(s.last()) {
        lemma_trim_end_ws_prefix(s.drop_last());
        let t = crate::text::trim_end_ws(s.drop_last());
        assert(s.drop_last().subrange(0, t.len() as int) =~= s.subrange(0, t.len() as int));
    } else {
        assert(s.subrange(0, s.len() as int) =~= s);
    }
}

/// Trimming twice trims no more than once.
pub proof fn lemma_trim_idempotent(s: Seq<char>)
    ensures
        trim(trim(s)) == trim(s),
{
    let u = trim(s);
    lemma_trim_start_of_trimmed_end(s);
    assert(crate::text::trim_start_ws(u) == u);
    lemma_trim_end_ws_prefix(crate::text::trim_start_ws(s));
    if u.len() > 0 {
        assert(!crate::text::is_ws(u.last()));
    }
    assert(crate::text::trim_end_ws(u) == u);
}

/// The total size a download's progress is measured against: the response's
/// length, else the expected size when it is positive.
pub fn progress_total(content_length: Option<u64>, expected_size: Option<u64>) -> (r: Option<u64>)
    ensures
        r == match content_length {
            Some(n) => Some(n),
            None => match expected_size {
                Some(e) => if e > 0 {
                    Some(e)
                } else {
                    None
                },
                None => None,
            },
        },
{
    match content_length {
        Some(n) => Some(n),
        None => match expected_size {
            Some(e) => if e > 0 {
                Some(e)
            } else {
                None
            },
            None => None,
        },
    }
}

/// Whether two strings are equal up to ASCII case.
pub fn eq_ignore_ascii_case(a: &str, b: &str) -> (r: bool)
    ensures
        r == (lower_seq(a@) == lower_seq(b@)),
{
    let x = chars_of(a);
    let y = chars_of(b);
    if x.len() != y.len() {
        assert(lower_seq(a@).len() != lower_seq(b@).len());
        return false;
    }
    let mut i: usize = 0;
    while i < x.len()
        invariant
            x@ == a@,
            y@ == b@,
            x.len() == y.len(),
            i <= x.len(),
            forall|k: int| 0 <= k < i ==> lower_seq(a@)[k] == lower_seq(b@)[k],
        decreases x.len() - i,
    {
        if to_ascii_lower(x[i]) != to_ascii_lower(y[i]) {
            assert(lower_seq(a@)[i as int] != lower_seq(b@)[i as int]);
            return false;
        }
        i = i + 1;
    }
    assert(lower_seq(a@) =~= lower_seq(b@));
    true
}

pub open spec fn spec_is_stable_portable_path(path: Seq<char>, stable: Option<Seq<char>>) -> bool {
    match stable {
        Some(t) => lower_seq(path) == lower_seq(t),
        None => false,
    }
}

/// Whether `path` is the stable entry point `stable` (compared up to ASCII
/// case); never when the entry point is unknown.
pub fn is_stable_portable_path(path: &str, stable: Option<&str>) -> (r: bool)
    ensures
        r == spec_is_stable_portable_path(path@, opt_ref(stable)),
{
    match stable {
        Some(t) => eq_ignore_ascii_case(path, t),
        None => false,
    }
}

pub open spec fn opt_ref(o: Option<&str>) -> Option<Seq<char>> {
    match o {
        Some(s) => Some(s@),
        None => None,
    }
}

/// Whether a running copy counts as the installed portable build: it is the
/// stable entry point.
pub fn is_portable_runtime(path: &str, stable: Option<&str>) -> (r: bool)
    ensures
        r == spec_is_stable_portable_path(path@, opt_ref(stable)),
{
    is_stable_portable_path(path, stable)
}

pub open spec fn spec_should_migrate(
    file_name: Option<Seq<char>>,
    path: Seq<char>,
    stable: Option<Seq<char>>,
) -> bool {
    &&& file_name matches Some(n) && has_suffix(lower_seq(n), "portable.exe"@)
    &&& !spec_is_stable_portable_path(path, stable)
}

/// Whether a copy should move itself to the stable entry point: its file
/// name ends in `portable.exe` (any case) and it is not already there.
pub fn should_migrate_versioned_portable(
    file_name: Option<&str>,
    path: &str,
    stable: Option<&str>,
) -> (r: bool)
    ensures
        r == spec_should_migrate(opt_ref(file_name), path@, opt_ref(stable)),
{
    let named = match file_name {
        Some(n) => {
            let v = chars_of(n);
            let p = chars_of("portable.exe");
            lower_ends_with(&v, &p)
        },
        None => false,
    };
    named && !is_stable_portable_path(path, stable)
}

/// Whether the copy running from `path` should move itself to the stable
/// entry point: the file name is the path's final component by
/// `Path::file_name`, and the decision is `should_migrate_versioned_portable`
/// on it.
pub fn portable_path_migrates(path: &str, stable: Option<&str>) -> (r: bool)
    ensures
        exists|c: Option<Seq<char>>|
            file_name_ok(path@, c) && r == #[trigger] spec_should_migrate(c, path@, opt_ref(stable)),
        names_its_file(path@) ==> r == spec_should_migrate(
            Some(sep_tail(path@)),
            path@,
            opt_ref(stable),
        ),
{
    proof {
        lemma_portable_suffix_either_reading(path@);
    }
    let name = path_file_name(path);
    let r = match &name {
        Some(n) => should_migrate_versioned_portable(Some(n.as_str()), path, stable),
        None => should_migrate_versioned_portable(None, path, stable),
    };
    assert(r == spec_should_migrate(opt_str(name), path@, opt_ref(stable)));
    r
}

/// A command-line argument without the double quotes around it.
pub fn strip_quotes(arg: &str) -> (r: String)
    ensures
        r@ == trim_char(arg@, '"'),
{
    let v = chars_of(arg);
    let n = v.len();
    assert(v@.subrange(0, n as int) =~= v@);
    let a = skip_char_front(&v, 0, n, '"');
    let b = skip_char_back(&v, a, n, '"');
    string_of(&v, a, b)
}

pub open spec fn spec_second_instance_portable_path(
    arg: Seq<char>,
    is_file: bool,
    file_name: Option<Seq<char>>,
    stable: Option<Seq<char>>,
) -> Option<Seq<char>> {
    let path = trim_char(arg, '"');
    if is_file && spec_should_migrate(file_name, path, stable) {
        Some(path)
    } else {
        None
    }
}

/// The copy a second instance was started with, read from one of its
/// arguments: the argument without its quotes, when that path is a file
/// (`is_file`) whose final component (by `Path::file_name`) makes it move to
/// the stable entry point.
pub fn second_instance_portable_path(arg: &str, is_file: bool, stable: Option<&str>) -> (r:
    Option<String>)
    ensures
        exists|c: Option<Seq<char>>|
            file_name_ok(trim_char(arg@, '"'), c) && opt_str(r)
                == #[trigger] spec_second_instance_portable_path(arg@, is_file, c, opt_ref(stable)),
        names_its_file(trim_char(arg@, '"')) ==> opt_str(r) == spec_second_instance_portable_path(
            arg@,
            is_file,
            Some(sep_tail(trim_char(arg@, '"'))),
            opt_ref(stable),
        ),
{
    proof {
        lemma_portable_suffix_either_reading(trim_char(arg@, '"'));
    }
    let path = strip_quotes(arg);
    let name = path_file_name(path.as_str());
    let migrate = match &name {
        Some(n) => should_migrate_versioned_portable(Some(n.as_str()), path.as_str(), stable),
        None => should_migrate_versioned_portable(None, path.as_str(), stable),
    };
    assert(migrate == spec_should_migrate(opt_str(name), path@, opt_ref(stable)));
    let r = if is_file && migrate {
        Some(path)
    } else {
        None
    };
    assert(opt_str(r) == spec_second_instance_portable_path(
        arg@,
        is_file,
        opt_str(name),
        opt_ref(stable),
    ));
    r
}

pub open spec fn spec_second_instance_version(file_name: Seq<char>, current: Seq<char>) -> Option<
    Seq<char>,
> {
    match spec_version_from_asset(file_name) {
        Some(v) => if spec_is_newer_version(v, current) {
            Some(v)
        } else {
            None
        },
        None => None,
    }
}

/// The version of a copy handed over by a second instance, when its file name
/// carries one and it is newer than `current`.
pub fn second_instance_update_version(file_name: &str, current: &str) -> (r: Option<String>)
    ensures
        opt_str(r) == spec_second_instance_version(file_name@, current@),
{
    match version_from_asset(file_name) {
        Some(v) => if is_newer_version(v.as_str(), current) {
            Some(v)
        } else {
            None
        },
        None => None,
    }
}

pub open spec fn spec_version_of_name(name: Option<Seq<char>>, current: Seq<char>) -> Option<
    Seq<char>,
> {
    match name {
        Some(n) => spec_second_instance_version(n, current),
        None => None,
    }
}

/// The newer version carried by the file name (by `Path::file_name`) of a
/// copy handed over by a second instance.
pub fn portable_update_version(path: &str, current: &str) -> (r: Option<String>)
    ensures
        exists|c: Option<Seq<char>>|
            file_name_ok(path@, c) && opt_str(r) == #[trigger] spec_version_of_name(c, current@),
        names_its_file(path@) ==> (opt_str(r) == spec_version_of_name(Some(sep_tail(path@)), current@)
            || opt_str(r) == spec_version_of_name(Some(last_url_segment(path@)), current@)),
        names_its_file(path@) && has_no_backslash(path@) ==> opt_str(r) == spec_version_of_name(
            Some(sep_tail(path@)),
            current@,
        ),
{
    proof {
        lemma_slash_before_sep(path@);
    }
    let name = path_file_name(path);
    let r = match &name {
        Some(n) => second_instance_update_version(n.as_str(), current),
        None => None,
    };
    assert(opt_str(r) == spec_version_of_name(opt_str(name), current@));
    r
}

/// The PowerShell script that creates or updates the desktop shortcut: it
/// takes the target executable and the shortcut's file name, and points the
/// shortcut, its working folder and its icon at the target.
pub const CREATE_SHORTCUT_SCRIPT: &'static str = r#"
param(
  [Parameter(Mandatory = $true)][string]$Target,
  [Parameter(Mandatory = $true)][string]$ShortcutName
)

$ErrorActionPreference = "Stop"
$desktop = [Environment]::GetFolderPath("Desktop")
if (-not $desktop -or -not (Test-Path -LiteralPath $desktop)) {
  throw "Desktop folder does not exist."
}
$targetDir = Split-Path -Parent $Target
$shortcutPath = Join-Path $desktop $ShortcutName
$shell = New-Object -ComObject WScript.Shell
$shortcut = $shell.CreateShortcut($shortcutPath)
$shortcut.TargetPath = $Target
$shortcut.WorkingDirectory = $targetDir
$shortcut.IconLocation = $Target
$shortcut.Save()
"#;

/// The text of the shortcut script.
pub fn create_shortcut_script() -> (r: &'static str)
    ensures
        r@ == CREATE_SHORTCUT_SCRIPT@,
{
    CREATE_SHORTCUT_SCRIPT
}

/// What is remembered about the desktop shortcut between runs.
pub struct ShortcutState {
    pub last_shortcut_version: Option<String>,
    pub shortcut_missing_after_version: Option<String>,
}

impl Default for ShortcutState {
    fn default() -> (r: ShortcutState)
        ensures
            r.last_shortcut_version is None,
            r.shortcut_missing_after_version is None,
    {
        ShortcutState { last_shortcut_version: None, shortcut_missing_after_version: None }
    }
}

/// What to do about the desktop shortcut, and the state to save afterwards.
pub struct ShortcutPlan {
    /// Create or update the shortcut before saving the state.
    pub create: bool,
    pub state: ShortcutState,
}

/// Whether the shortcut is created or refreshed: when it exists, or when no
/// shortcut was made for this version yet.
pub open spec fn spec_shortcut_create(
    last_shortcut_version: Option<Seq<char>>,
    shortcut_exists: bool,
    current: Seq<char>,
) -> bool {
    shortcut_exists || last_shortcut_version != Some(current)
}

/// After a run has seen to the shortcut, a later run of the same version
/// leaves a removed shortcut removed and still refreshes an existing one.
pub proof fn lemma_removed_shortcut_stays_removed(current: Seq<char>)
    ensures
        !spec_shortcut_create(Some(current), false, current),
        spec_shortcut_create(Some(current), true, current),
{
}

/// Decides about the desktop shortcut of the installed copy. An existing
/// shortcut is refreshed; a missing one is created, unless this version
/// already created it once, in which case the user removed it and it stays
/// removed.
pub fn plan_shortcut(state: &ShortcutState, shortcut_exists: bool, current: &str) -> (r:
    ShortcutPlan)
    ensures
        r.create == spec_shortcut_create(
            opt_str(state.last_shortcut_version),
            shortcut_exists,
            current@,
        ),
        opt_str(r.state.last_shortcut_version) == Some(current@),
        opt_str(r.state.shortcut_missing_after_version) == if r.create {
            None
        } else {
            Some(current@)
        },
{
    let same_version = match &state.last_shortcut_version {
        Some(v) => crate::text::str_eq(v.as_str(), current),
        None => false,
    };
    if shortcut_exists || !same_version {
        ShortcutPlan {
            create: true,
            state: ShortcutState {
                last_shortcut_version: Some(String::from_str(current)),
                shortcut_missing_after_version: None,
            },
        }
    } else {
        ShortcutPlan {
            create: false,
            state: ShortcutState {
                last_shortcut_version: clone_opt(&state.last_shortcut_version),
                shortcut_missing_after_version: Some(String::from_str(current)),
            },
        }
    }
}

/// The desktop folder read from the shell's output: an error when the command
/// failed or printed nothing but whitespace, else the trimmed output.
pub fn desktop_from_output(success: bool, output: &str) -> (r: Result<String, String>)
    ensures
        match r {
            Ok(d) => success && trim(output@).len() > 0 && d@ == trim(output@),
            Err(e) => (!success && e@ == "无法读取桌面目录"@) || (success && trim(output@).len()
                == 0 && e@ == "桌面目录为空"@),
        },
{
    if !success {
        return Err(String::from_str("无法读取桌面目录"));
    }
    let v = chars_of(output);
    let n = v.len();
    assert(v@.subrange(0, n as int) =~= v@);
    let (a, b) = trim_bounds(&v, 0, n);
    if a == b {
        return Err(String::from_str("桌面目录为空"));
    }
    Ok(string_of(&v, a, b))
}

/// One argument of the updater's command line: a fixed text, or one of the
/// three paths that the caller fills in.
pub enum UpdaterArg {
    Text(String),
    ScriptPath,
    SourcePath,
    TargetPath,
}

pub enum UpdaterArgView {
    Text(Seq<char>),
    ScriptPath,
    SourcePath,
    TargetPath,
}

impl View for UpdaterArg {
    type V = UpdaterArgView;

    open spec fn view(&self) -> UpdaterArgView {
        match self {
            UpdaterArg::Text(s) => UpdaterArgView::Text(s@),
            UpdaterArg::ScriptPath => UpdaterArgView::ScriptPath,
            UpdaterArg::SourcePath => UpdaterArgView::SourcePath,
            UpdaterArg::TargetPath => UpdaterArgView::TargetPath,
        }
    }
}

pub open spec fn text_arg(s: Seq<char>) -> UpdaterArgView {
    UpdaterArgView::Text(s)
}

/// The updater's command line after `powershell.exe`.
pub open spec fn spec_updater_arguments(process_id: Option<u32>, no_shortcut: bool) -> Seq<
    UpdaterArgView,
> {
    seq![
        text_arg("-NoProfile"@),
        text_arg("-ExecutionPolicy"@),
        text_arg("Bypass"@),
        text_arg("-File"@),
        UpdaterArgView::ScriptPath,
        text_arg("-Source"@),
        UpdaterArgView::SourcePath,
        text_arg("-Target"@),
        UpdaterArgView::TargetPath,
    ] + match process_id {
        Some(pid) => seq![text_arg("-ProcessId"@), text_arg(decimal(pid as nat))],
        None => Seq::<UpdaterArgView>::empty(),
    } + if no_shortcut {
        seq![text_arg("-NoShortcut"@)]
    } else {
        Seq::<UpdaterArgView>::empty()
    }
}

pub open spec fn args_view(args: Seq<UpdaterArg>) -> Seq<UpdaterArgView> {
    args.map_values(|a: UpdaterArg| a@)
}

fn text(s: &str) -> (r: UpdaterArg)
    ensures
        r@ == text_arg(s@),
{
    UpdaterArg::Text(String::from_str(s))
}

/// The command line that starts the portable updater script: the script,
/// the new copy and the target, the process to wait for, and whether to leave
/// the desktop shortcut alone.
pub fn updater_arguments(process_id: Option<u32>, no_shortcut: bool) -> (r: Vec<UpdaterArg>)
    ensures
        args_view(r@) == spec_updater_arguments(process_id, no_shortcut),
{
    let mut args: Vec<UpdaterArg> = Vec::new();
    args.push(text("-NoProfile"));
    args.push(text("-ExecutionPolicy"));
    args.push(text("Bypass"));
    args.push(text("-File"));
    args.push(UpdaterArg::ScriptPath);
    args.push(text("-Source"));
    args.push(UpdaterArg::SourcePath);
    args.push(text("-Target"));
    args.push(UpdaterArg::TargetPath);
    match process_id {
        Some(pid) => {
            args.push(text("-ProcessId"));
            let mut s = String::new();
            push_decimal(&mut s, pid as u64);
            assert(s@ =~= decimal(pid as nat));
            args.push(UpdaterArg::Text(s));
        },
        None => {},
    }
    if no_shortcut {
        args.push(text("-NoShortcut"));
    }
    assert(args_view(args@) =~= spec_updater_arguments(process_id, no_shortcut));
    args
}

/// A copy handed over by a second instance is only ever strictly newer than
/// the running version: whenever a version comes back it is the version in
/// the copy's file name and it is newer than `current`, and a copy whose
/// version is not newer gives nothing (so no older copy can replace the
/// installed one).
pub proof fn lemma_handover_only_newer(file_name: Seq<char>, current: Seq<char>)
    ensures
        match spec_second_instance_version(file_name, current) {
            Some(v) => spec_is_newer_version(v, current) && spec_version_from_asset(file_name) == Some(
                v,
            ),
            None => true,
        },
        match spec_version_from_asset(file_name) {
            Some(v) => if spec_is_newer_version(v, current) {
                spec_second_instance_version(file_name, current) == Some(v)
            } else {
                spec_second_instance_version(file_name, current) is None
            },
            None => spec_second_instance_version(file_name, current) is None,
        },
        forall|n: Option<Seq<char>>|
            match #[trigger] spec_version_of_name(n, current) {
                Some(v) => spec_is_newer_version(v, current),
                None => true,
            },
{
    assert forall|n: Option<Seq<char>>|
        match #[trigger] spec_version_of_name(n, current) {
            Some(v) => spec_is_newer_version(v, current),
            None => true,
        } by {
        match n {
            Some(x) => {
                match spec_version_from_asset(x) {
                    Some(w) => {},
                    None => {},
                }
            },
            None => {},
        }
    }
}

/// The updater always gets the script, source and target in fixed places;
/// when a process id is given, `-ProcessId` and its decimal follow right
/// after them whether or not the shortcut is left alone; `-ProcessId` appears
/// only when an id is given; and `-NoShortcut` appears exactly when asked for.
pub proof fn lemma_updater_arguments_carry_the_request(process_id: Option<u32>, no_shortcut: bool)
    ensures
        ({
            let a = spec_updater_arguments(process_id, no_shortcut);
            &&& a.len() == 9 + (if process_id is Some { 2int } else { 0int }) + (if no_shortcut {
                1int
            } else {
                0int
            })
            &&& a[0] == text_arg("-NoProfile"@)
            &&& a[3] == text_arg("-File"@) && a[4] == UpdaterArgView::ScriptPath
            &&& a[5] == text_arg("-Source"@) && a[6] == UpdaterArgView::SourcePath
            &&& a[7] == text_arg("-Target"@) && a[8] == UpdaterArgView::TargetPath
            &&& process_id matches Some(pid) ==> (a[9] == text_arg("-ProcessId"@) && a[10]
                == text_arg(decimal(pid as nat)))
            &&& (exists|i: int| 0 <= i < a.len() && a[i] == text_arg("-ProcessId"@)) <==> process_id
                is Some
            &&& (exists|i: int| 0 <= i < a.len() && a[i] == text_arg("-NoShortcut"@)) <==> no_shortcut
        }),
{
    reveal_strlit("-NoProfile");
    reveal_strlit("-ExecutionPolicy");
    reveal_strlit("Bypass");
    reveal_strlit("-File");
    reveal_strlit("-Source");
    reveal_strlit("-Target");
    reveal_strlit("-ProcessId");
    reveal_strlit("-NoShortcut");
    let a = spec_updater_arguments(process_id, no_shortcut);
    let head = seq![
        text_arg("-NoProfile"@),
        text_arg("-ExecutionPolicy"@),
        text_arg("Bypass"@),
        text_arg("-File"@),
        UpdaterArgView::ScriptPath,
        text_arg("-Source"@),
        UpdaterArgView::SourcePath,
        text_arg("-Target"@),
        UpdaterArgView::TargetPath,
    ];
    let mid = match process_id {
        Some(pid) => seq![text_arg("-ProcessId"@), text_arg(decimal(pid as nat))],
        None => Seq::<UpdaterArgView>::empty(),
    };
    let tail = if no_shortcut {
        seq![text_arg("-NoShortcut"@)]
    } else {
        Seq::<UpdaterArgView>::empty()
    };
    assert(a == head + mid + tail);
    assert("-ProcessId"@ != "-NoShortcut"@) by {
        assert("-ProcessId"@[1] != "-NoShortcut"@[1]);
    }
    // No fixed word is either flag.
    assert forall|i: int| 0 <= i < 9 implies head[i] != text_arg("-ProcessId"@) && head[i]
        != text_arg("-NoShortcut"@) by {
        assert("-NoProfile"@.len() == 10 && "-ExecutionPolicy"@.len() == 16 && "Bypass"@.len() == 6
            && "-File"@.len() == 5 && "-Source"@.len() == 7 && "-Target"@.len() == 7);
        assert("-ProcessId"@.len() == 10 && "-NoShortcut"@.len() == 11);
        assert("-NoProfile"@[3] != "-ProcessId"@[3]);
    }
    match process_id {
        Some(pid) => {
            lemma_decimal(pid as nat);
            let d = decimal(pid as nat);
            assert(d[0] != '-');
            assert(text_arg(d) != text_arg("-ProcessId"@));
            assert(text_arg(d) != text_arg("-NoShortcut"@));
            assert(a[9] == text_arg("-ProcessId"@));
        },
        None => {},
    }
    if exists|i: int| 0 <= i < a.len() && a[i] == text_arg("-ProcessId"@) {
        let i = choose|i: int| 0 <= i < a.len() && a[i] == text_arg("-ProcessId"@);
        if i < 9 {
            assert(a[i] == head[i]);
        } else if process_id is None {
            assert(a[i] == tail[i - 9]);
        }
    }
    if no_shortcut {
        assert(a[a.len() - 1] == text_arg("-NoShortcut"@));
    }
    if exists|i: int| 0 <= i < a.len() && a[i] == text_arg("-NoShortcut"@) {
        let i = choose|i: int| 0 <= i < a.len() && a[i] == text_arg("-NoShortcut"@);
        if i < 9 {
            assert(a[i] == head[i]);
        } else if i < 9 + mid.len() {
            assert(a[i] == mid[i - 9]);
        } else {
            assert(a[i] == tail[i - 9 - mid.len()]);
        }
    }
}

} // verus!
