//! Releases: what the GitHub feed says of them, and the one that is chosen.

use crate::failure::{plain, seen, Failure, Messages};
use crate::json::Json;
use crate::outside::{json_member, json_of};
use crate::text::{after_prefix, clone_text, strip_prefix};
use vstd::prelude::*;
use vstd::string::*;

verus! {

/// One asset of a release.
#[derive(Debug, PartialEq, Eq)]
pub struct ReleaseAssetInfo {
    /// File name of the asset.
    pub name: String,
    /// GitHub's number for the asset, where the feed gives one.
    pub id: Option<u64>,
    /// Public download URL, where the feed gives one.
    pub browser_download_url: Option<String>,
}

/// What a [`ReleaseAssetInfo`] holds.
pub struct AssetView {
    pub name: Seq<char>,
    pub id: Option<u64>,
    pub browser_download_url: Option<Seq<char>>,
}

impl View for ReleaseAssetInfo {
    type V = AssetView;

    open spec fn view(&self) -> AssetView {
        AssetView {
            name: self.name@,
            id: self.id,
            browser_download_url: self.browser_download_url.deep_view(),
        }
    }
}

impl DeepView for ReleaseAssetInfo {
    type V = AssetView;

    open spec fn deep_view(&self) -> AssetView {
        self@
    }
}

impl Clone for ReleaseAssetInfo {
    fn clone(&self) -> (r: Self)
        ensures
            r@ == self@,
    {
        ReleaseAssetInfo {
            name: self.name.clone(),
            id: self.id,
            browser_download_url: clone_text(&self.browser_download_url),
        }
    }
}

/// One release of the feed.
#[derive(Debug, Clone)]
pub struct ParsedRelease {
    /// The tag.
    pub tag: String,
    /// The tag with a leading `v` stripped.
    pub version: String,
    /// The page of the release, where the feed gives it.
    pub html_url: Option<String>,
    /// The assets.
    pub assets: Vec<ReleaseAssetInfo>,
    /// Whether the release is a draft.
    pub draft: bool,
    /// Whether the release is a prerelease.
    pub prerelease: bool,
}

/// What a [`ParsedRelease`] holds.
pub struct ReleaseView {
    pub tag: Seq<char>,
    pub version: Seq<char>,
    pub html_url: Option<Seq<char>>,
    pub assets: Seq<AssetView>,
    pub draft: bool,
    pub prerelease: bool,
}

impl ReleaseView {
    /// Whether the release is published: neither a draft nor a prerelease.
    pub open spec fn published(self) -> bool {
        !self.draft && !self.prerelease
    }

    /// Whether the release has an asset of that name.
    pub open spec fn carries(self, name: Seq<char>) -> bool {
        exists|i: int| 0 <= i < self.assets.len() && (#[trigger] self.assets[i]).name == name
    }
}

impl View for ParsedRelease {
    type V = ReleaseView;

    open spec fn view(&self) -> ReleaseView {
        ReleaseView {
            tag: self.tag@,
            version: self.version@,
            html_url: self.html_url.deep_view(),
            assets: self.assets.deep_view(),
            draft: self.draft,
            prerelease: self.prerelease,
        }
    }
}

impl DeepView for ParsedRelease {
    type V = ReleaseView;

    open spec fn deep_view(&self) -> ReleaseView {
        self@
    }
}

impl ParsedRelease {
    /// Whether the release has an asset of that name.
    pub fn has_asset(&self, name: &String) -> (r: bool)
        ensures
            r == self@.carries(name@),
    {
        let mut i: usize = 0;
        while i < self.assets.len()
            invariant
                i <= self.assets@.len(),
                forall|j: int| 0 <= j < i ==> (#[trigger] self@.assets[j]).name != name@,
            decreases self.assets@.len() - i,
        {
            if self.assets[i].name == *name {
                proof {
                    assert(self@.assets[i as int].name == name@);
                }
                return true;
            }
            i = i + 1;
        }
        false
    }
}

/// A release that was passed over, because it lacks assets that the platform needs.
#[derive(Debug, PartialEq, Eq)]
pub struct SkippedRelease {
    /// The tag.
    pub tag: String,
    /// The tag with a leading `v` stripped.
    pub version: String,
    /// The names of the assets that it lacks.
    pub missing_assets: Vec<String>,
}

/// What a [`SkippedRelease`] holds.
pub struct SkippedView {
    pub tag: Seq<char>,
    pub version: Seq<char>,
    pub missing_assets: Seq<Seq<char>>,
}

impl View for SkippedRelease {
    type V = SkippedView;

    open spec fn view(&self) -> SkippedView {
        SkippedView {
            tag: self.tag@,
            version: self.version@,
            missing_assets: self.missing_assets.deep_view(),
        }
    }
}

impl DeepView for SkippedRelease {
    type V = SkippedView;

    open spec fn deep_view(&self) -> SkippedView {
        self@
    }
}

impl Clone for SkippedRelease {
    fn clone(&self) -> (r: Self)
        ensures
            r@ == self@,
    {
        let missing_assets: Vec<String> = self.missing_assets.clone();
        proof {
            assert(missing_assets.deep_view() =~= self.missing_assets.deep_view());
        }
        SkippedRelease { tag: self.tag.clone(), version: self.version.clone(), missing_assets }
    }
}

/// The release to update to: the newest published one with the assets that the platform needs.
#[derive(Debug)]
pub struct LatestReleaseInfo {
    /// The tag.
    pub tag: String,
    /// The tag with a leading `v` stripped.
    pub version: String,
    /// The page of the release, where the feed gives it.
    pub html_url: Option<String>,
    /// The names of its assets.
    pub assets: Vec<String>,
    /// Its assets.
    pub release_assets: Vec<ReleaseAssetInfo>,
    /// Whether it is newer than the running version.
    pub newer_than_current: bool,
    /// The releases that rank before it and were passed over, newest first.
    pub skipped_newer: Vec<SkippedRelease>,
    /// What to tell the user where releases were passed over.
    pub selection_note: Option<String>,
    /// What to tell the user where it may be older than the running version.
    pub downgrade_risk_note: Option<String>,
}

/// What a [`LatestReleaseInfo`] holds.
pub struct LatestView {
    pub tag: Seq<char>,
    pub version: Seq<char>,
    pub html_url: Option<Seq<char>>,
    pub assets: Seq<Seq<char>>,
    pub release_assets: Seq<AssetView>,
    pub newer_than_current: bool,
    pub skipped_newer: Seq<SkippedView>,
    pub selection_note: Option<Seq<char>>,
    pub downgrade_risk_note: Option<Seq<char>>,
}

impl View for LatestReleaseInfo {
    type V = LatestView;

    open spec fn view(&self) -> LatestView {
        LatestView {
            tag: self.tag@,
            version: self.version@,
            html_url: self.html_url.deep_view(),
            assets: self.assets.deep_view(),
            release_assets: self.release_assets.deep_view(),
            newer_than_current: self.newer_than_current,
            skipped_newer: self.skipped_newer.deep_view(),
            selection_note: self.selection_note.deep_view(),
            downgrade_risk_note: self.downgrade_risk_note.deep_view(),
        }
    }
}

impl DeepView for LatestReleaseInfo {
    type V = LatestView;

    open spec fn deep_view(&self) -> LatestView {
        self@
    }
}

impl Clone for LatestReleaseInfo {
    fn clone(&self) -> (r: Self)
        ensures
            r@ == self@,
    {
        let assets: Vec<String> = self.assets.clone();
        let release_assets: Vec<ReleaseAssetInfo> = self.release_assets.clone();
        let skipped_newer: Vec<SkippedRelease> = self.skipped_newer.clone();
        proof {
            assert(assets.deep_view() =~= self.assets.deep_view());
            assert(release_assets.deep_view() =~= self.release_assets.deep_view());
            assert(skipped_newer.deep_view() =~= self.skipped_newer.deep_view());
        }
        LatestReleaseInfo {
            tag: self.tag.clone(),
            version: self.version.clone(),
            html_url: clone_text(&self.html_url),
            assets,
            release_assets,
            newer_than_current: self.newer_than_current,
            skipped_newer,
            selection_note: clone_text(&self.selection_note),
            downgrade_risk_note: clone_text(&self.downgrade_risk_note),
        }
    }
}

/// The asset that an item of a release's asset list describes; none if it has no name.
pub open spec fn asset_in(item: Json) -> Option<AssetView> {
    match item.member_text("name"@) {
        Some(name) => Some(
            AssetView {
                name,
                id: match item.member("id"@) {
                    Some(id) => id.unsigned(),
                    None => None,
                },
                browser_download_url: item.member_text("browser_download_url"@),
            },
        ),
        None => None,
    }
}

/// The assets that the items of a release's asset list describe, in their order; those without a
/// name are left out.
pub open spec fn assets_in(items: Seq<Json>) -> Seq<AssetView>
    decreases items.len(),
{
    if items.len() == 0 {
        seq![]
    } else {
        match asset_in(items.last()) {
            Some(asset) => assets_in(items.drop_last()).push(asset),
            None => assets_in(items.drop_last()),
        }
    }
}

/// Whether the member `key` of a release is `true`.
pub open spec fn flag_in(release: Json, key: Seq<char>) -> bool {
    match release.member(key) {
        Some(value) => value.truth() == Some(true),
        None => false,
    }
}

/// The version that a tag names: the tag with a leading `v`, one, stripped.
pub open spec fn version_of(tag: Seq<char>) -> Seq<char> {
    match after_prefix(tag, "v"@) {
        Some(rest) => rest,
        None => tag,
    }
}

/// The release that a JSON value describes. It must be an object with a text as `tag_name`; all
/// else may be missing, or of another kind, and then counts as missing.
pub open spec fn release_in(value: Json) -> Result<ReleaseView, Messages> {
    match value.member_text("tag_name"@) {
        Some(tag) => Ok(
            ReleaseView {
                tag,
                version: version_of(tag),
                html_url: value.member_text("html_url"@),
                assets: match value.member("assets"@) {
                    Some(list) => match list.items() {
                        Some(items) => assets_in(items),
                        None => seq![],
                    },
                    None => seq![],
                },
                draft: flag_in(value, "draft"@),
                prerelease: flag_in(value, "prerelease"@),
            },
        ),
        None => Err(plain("github release missing tag_name"@)),
    }
}

/// The releases that JSON values describe, in their order; the first that describes none decides
/// the failure.
pub open spec fn releases_in(values: Seq<Json>) -> Result<Seq<ReleaseView>, Messages>
    decreases values.len(),
{
    if values.len() == 0 {
        Ok(seq![])
    } else {
        match releases_in(values.drop_last()) {
            Ok(releases) => match release_in(values.last()) {
                Ok(release) => Ok(releases.push(release)),
                Err(failure) => Err(failure),
            },
            Err(failure) => Err(failure),
        }
    }
}

/// The values that a feed lists. A value that is no list stands for a feed of that one release.
pub open spec fn entries_of(feed: Json) -> Seq<Json> {
    match feed.items() {
        Some(items) => items,
        None => seq![feed],
    }
}

/// The releases that a feed lists.
pub open spec fn feed_releases(feed: Json) -> Result<Seq<ReleaseView>, Messages> {
    releases_in(entries_of(feed))
}

/// The text of the member `key` of `value`.
fn member_text(value: &serde_json::Value, key: &str) -> (r: Option<String>)
    ensures
        r.deep_view() == json_of(*value).member_text(key@),
{
    match json_member(value, key) {
        Some(member) => match member.as_str() {
            Some(text) => Some(text.to_owned()),
            None => None,
        },
        None => None,
    }
}

/// Whether the member `key` of `value` is `true`.
fn flag(value: &serde_json::Value, key: &str) -> (r: bool)
    ensures
        r == flag_in(json_of(*value), key@),
{
    match json_member(value, key) {
        Some(member) => match member.as_bool() {
            Some(b) => b,
            None => false,
        },
        None => false,
    }
}

/// The asset that `item` describes.
fn parse_asset(item: &serde_json::Value) -> (r: Option<ReleaseAssetInfo>)
    ensures
        r.deep_view() == asset_in(json_of(*item)),
{
    match member_text(item, "name") {
        Some(name) => Some(
            ReleaseAssetInfo {
                name,
                id: match json_member(item, "id") {
                    Some(id) => id.as_u64(),
                    None => None,
                },
                browser_download_url: member_text(item, "browser_download_url"),
            },
        ),
        None => None,
    }
}

/// The assets that `items` describe.
fn parse_assets(items: &Vec<serde_json::Value>) -> (r: Vec<ReleaseAssetInfo>)
    ensures
        r.deep_view() == assets_in(items@.map_values(|item: serde_json::Value| json_of(item))),
{
    let ghost trees = items@.map_values(|item: serde_json::Value| json_of(item));
    let mut assets: Vec<ReleaseAssetInfo> = Vec::new();
    let mut i: usize = 0;
    proof {
        assert(assets.deep_view() =~= assets_in(trees.take(0)));
    }
    while i < items.len()
        invariant
            i <= items@.len(),
            trees == items@.map_values(|item: serde_json::Value| json_of(item)),
            assets.deep_view() == assets_in(trees.take(i as int)),
        decreases items@.len() - i,
    {
        let ghost shorter = assets.deep_view();
        proof {
            assert(trees.take(i + 1).drop_last() == trees.take(i as int));
            assert(trees.take(i + 1).last() == json_of(items@[i as int]));
        }
        if let Some(asset) = parse_asset(&items[i]) {
            assets.push(asset);
            proof {
                assert(assets.deep_view() =~= shorter.push(asset@));
            }
        }
        i = i + 1;
    }
    proof {
        assert(trees.take(items@.len() as int) == trees);
    }
    assets
}

/// The release that a JSON value describes.
pub fn parse_release(value: &serde_json::Value) -> (r: Result<ParsedRelease, Failure>)
    ensures
        seen(r) == release_in(json_of(*value)),
{
    match member_text(value, "tag_name") {
        Some(tag) => {
            let assets: Vec<ReleaseAssetInfo> = match json_member(value, "assets") {
                Some(list) => match list.as_array() {
                    Some(items) => parse_assets(items),
                    None => Vec::new(),
                },
                None => Vec::new(),
            };
            let version: String = match strip_prefix(tag.as_str(), "v") {
                Some(rest) => rest,
                None => tag.clone(),
            };
            let release = ParsedRelease {
                tag,
                version,
                html_url: member_text(value, "html_url"),
                assets,
                draft: flag(value, "draft"),
                prerelease: flag(value, "prerelease"),
            };
            proof {
                assert(release@.assets =~= release_in(json_of(*value))->Ok_0.assets);
            }
            Ok(release)
        },
        None => Err(Failure::new("github release missing tag_name".to_owned())),
    }
}

/// The releases that a feed lists: the items of an array, or else the value itself as the one
/// release that there is.
pub fn parse_releases(feed: &serde_json::Value) -> (r: Result<Vec<ParsedRelease>, Failure>)
    ensures
        seen(r) == feed_releases(json_of(*feed)),
{
    let mut releases: Vec<ParsedRelease> = Vec::new();
    match feed.as_array() {
        Some(items) => {
            let ghost trees = items@.map_values(|item: serde_json::Value| json_of(item));
            let mut i: usize = 0;
            proof {
                assert(releases.deep_view() =~= seq![]);
                assert(trees.take(0).len() == 0);
            }
            while i < items.len()
                invariant
                    i <= items@.len(),
                    trees == items@.map_values(|item: serde_json::Value| json_of(item)),
                    entries_of(json_of(*feed)) == trees,
                    releases_in(trees.take(i as int)) == Ok::<Seq<ReleaseView>, Messages>(
                        releases.deep_view(),
                    ),
                decreases items@.len() - i,
            {
                let ghost shorter = releases.deep_view();
                proof {
                    assert(trees.take(i + 1).drop_last() == trees.take(i as int));
                    assert(trees.take(i + 1).last() == json_of(items@[i as int]));
                }
                match parse_release(&items[i]) {
                    Ok(release) => {
                        releases.push(release);
                        proof {
                            assert(releases.deep_view() =~= shorter.push(release@));
                        }
                    },
                    Err(failure) => {
                        proof {
                            lemma_first_failure(trees, i + 1);
                        }
                        return Err(failure);
                    },
                }
                i = i + 1;
            }
            proof {
                assert(trees.take(items@.len() as int) == trees);
            }
        },
        None => {
            proof {
                let entries = entries_of(json_of(*feed));
                assert(entries.drop_last() =~= Seq::<Json>::empty());
                assert(releases_in(entries.drop_last()) == Ok::<Seq<ReleaseView>, Messages>(
                    seq![],
                ));
            }
            match parse_release(feed) {
                Ok(release) => {
                    releases.push(release);
                    proof {
                        assert(releases.deep_view() =~= Seq::<ReleaseView>::empty().push(release@));
                    }
                },
                Err(failure) => {
                    return Err(failure);
                },
            }
        },
    }
    Ok(releases)
}

/// A failure among the first values is the failure of all.
proof fn lemma_first_failure(values: Seq<Json>, n: int)
    requires
        0 <= n <= values.len(),
        releases_in(values.take(n)) is Err,
    ensures
        releases_in(values) == releases_in(values.take(n)),
    decreases values.len() - n,
{
    if n < values.len() {
        assert(values.take(n + 1).drop_last() == values.take(n));
        lemma_first_failure(values, n + 1);
    } else {
        assert(values.take(n) == values);
    }
}

/// Of a tag that begins with `v` the version is what follows, whatever that begins with; any other
/// tag is its own version.
pub proof fn law_one_v_is_stripped(tag: Seq<char>)
    ensures
        version_of("v"@ + tag) == tag,
        tag.len() == 0 || tag[0] != 'v' ==> version_of(tag) == tag,
{
    reveal_strlit("v");
    assert("v"@.len() == 1 && "v"@[0] == 'v');
    assert(("v"@ + tag).take(1) == "v"@);
    assert(("v"@ + tag).skip(1) == tag);
    if tag.len() > 0 {
        assert(tag.take(1)[0] == tag[0]);
    }
}

} // verus!
