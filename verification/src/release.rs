//! A published release as the update check reads it: its tag, page and
//! downloadable assets, and how the latest version and the package to
//! download are picked out of it.
use crate::text::{chars_of, has_suffix, lower_ends_with, lower_seq};
use crate::version::{normalize_version, spec_normalize_version, spec_version_from_asset, version_from_asset};
use vstd::prelude::*;
use vstd::string::*;

verus! {

/// A downloadable file of a release.
pub struct ReleaseAsset {
    pub name: String,
    pub browser_download_url: String,
    pub size: Option<u64>,
}

/// A published release.
pub struct Release {
    pub tag_name: String,
    pub html_url: String,
    pub assets: Vec<ReleaseAsset>,
}

/// An asset whose lower-cased name ends with `suffix`.
pub open spec fn asset_matches(a: ReleaseAsset, suffix: Seq<char>) -> bool {
    has_suffix(lower_seq(a.name@), suffix)
}

/// The first asset at or after `start` whose lower-cased name ends with `suffix`.
pub open spec fn first_asset_from(assets: Seq<ReleaseAsset>, suffix: Seq<char>, start: int) -> Option<
    int,
>
    decreases assets.len() - start,
{
    if start < 0 || start >= assets.len() {
        None
    } else if asset_matches(assets[start], suffix) {
        Some(start)
    } else {
        first_asset_from(assets, suffix, start + 1)
    }
}

pub open spec fn spec_find_asset(assets: Seq<ReleaseAsset>, suffix: Seq<char>) -> Option<int> {
    first_asset_from(assets, suffix, 0)
}

/// The version found in the first asset name, at or after `start`, that has one.
pub open spec fn first_asset_version_from(assets: Seq<ReleaseAsset>, start: int) -> Option<
    Seq<char>,
>
    decreases assets.len() - start,
{
    if start < 0 || start >= assets.len() {
        None
    } else {
        match spec_version_from_asset(assets[start].name@) {
            Some(v) => Some(v),
            None => first_asset_version_from(assets, start + 1),
        }
    }
}

/// The latest version a release stands for: its normalised tag, else the
/// version in the first asset name that has one, else the running version.
pub open spec fn spec_latest_version(
    tag: Seq<char>,
    assets: Seq<ReleaseAsset>,
    current: Seq<char>,
) -> Seq<char> {
    match spec_normalize_version(tag) {
        Some(v) => v,
        None => match first_asset_version_from(assets, 0) {
            Some(v) => v,
            None => current,
        },
    }
}

proof fn lemma_first_asset_from_nonneg(assets: Seq<ReleaseAsset>, suffix: Seq<char>, start: int)
    requires
        start >= 0,
    ensures
        first_asset_from(assets, suffix, start) matches Some(i) ==> start <= i < assets.len(),
    decreases assets.len() - start,
{
    if start < assets.len() && !asset_matches(assets[start], suffix) {
        lemma_first_asset_from_nonneg(assets, suffix, start + 1);
    }
}

/// The index of the first asset whose lower-cased name ends with `suffix`.
pub fn find_asset(assets: &Vec<ReleaseAsset>, suffix: &str) -> (r: Option<usize>)
    ensures
        r matches Some(i) ==> i < assets.len(),
        match r {
            Some(i) => spec_find_asset(assets@, suffix@) == Some(i as int),
            None => spec_find_asset(assets@, suffix@) is None,
        },
{
    let p = chars_of(suffix);
    let mut i: usize = 0;
    while i < assets.len()
        invariant
            i <= assets.len(),
            p@ == suffix@,
            first_asset_from(assets@, suffix@, i as int) == spec_find_asset(assets@, suffix@),
        decreases assets.len() - i,
    {
        let name = chars_of(assets[i].name.as_str());
        if lower_ends_with(&name, &p) {
            return Some(i);
        }
        i = i + 1;
    }
    None
}

/// The latest version a release stands for: its normalised tag, else the
/// version in the first asset name that has one, else `current`.
pub fn latest_version(release: &Release, current: &str) -> (r: String)
    ensures
        r@ == spec_latest_version(release.tag_name@, release.assets@, current@),
{
    match normalize_version(release.tag_name.as_str()) {
        Some(v) => return v,
        None => {},
    }
    let mut i: usize = 0;
    while i < release.assets.len()
        invariant
            i <= release.assets.len(),
            spec_normalize_version(release.tag_name@) is None,
            first_asset_version_from(release.assets@, i as int) == first_asset_version_from(
                release.assets@,
                0,
            ),
        decreases release.assets.len() - i,
    {
        match version_from_asset(release.assets[i].name.as_str()) {
            Some(v) => return v,
            None => {},
        }
        i = i + 1;
    }
    String::from_str(current)
}

/// Copies an optional string.
pub fn clone_opt(o: &Option<String>) -> (r: Option<String>)
    ensures
        match r {
            Some(s) => o matches Some(t) && s@ == t@,
            None => o is None,
        },
{
    match o {
        Some(s) => Some(s.clone()),
        None => None,
    }
}

} // verus!
