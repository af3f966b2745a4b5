//! Laws of the releases that a feed lists.

use crate::failure::Messages;
use crate::json::Json;
use crate::release::{
    asset_in, assets_in, entries_of, feed_releases, flag_in, release_in, releases_in, version_of,
    AssetView, ReleaseView,
};
use vstd::prelude::*;
use vstd::string::*;

verus! {

/// A release has an asset exactly if its name is among the names of the assets.
pub proof fn law_carries(release: ReleaseView, name: Seq<char>)
    ensures
        release.carries(name) <==> release.assets.map_values(
            |asset: AssetView| asset.name,
        ).contains(name),
{
    let names = release.assets.map_values(|asset: AssetView| asset.name);
    if release.carries(name) {
        let i = choose|i: int|
            0 <= i < release.assets.len() && (#[trigger] release.assets[i]).name == name;
        assert(names[i] == name);
    }
    if names.contains(name) {
        let i = choose|i: int| 0 <= i < names.len() && names[i] == name;
        assert(release.assets[i].name == name);
    }
}

/// A release is published unless it is marked as a draft or as a prerelease.
pub proof fn law_published(release: ReleaseView)
    ensures
        release.draft || release.prerelease ==> !release.published(),
        release.published() || release.draft || release.prerelease,
{
}

/// The text of a member is there exactly if the member is a text.
pub proof fn law_member_text(value: Json, key: Seq<char>, text: Seq<char>)
    ensures
        value.member_text(key) == Some(text) <==> value.member(key) == Some(Json::Text(text)),
        value.member_text(key) is None <==> !(value.member(key) matches Some(Json::Text(_))),
{
}

/// An item of the asset list is an asset exactly if its `name` is a text, and that is its name. Its
/// number is its `id`, if that is a number, and its public address is its `browser_download_url`,
/// if that is a text.
pub proof fn law_asset(item: Json)
    ensures
        match asset_in(item) {
            Some(asset) => {
                &&& item.member("name"@) == Some(Json::Text(asset.name))
                &&& match item.member("id"@) {
                    Some(Json::Number(id)) => asset.id == id,
                    _ => asset.id is None,
                }
                &&& match item.member("browser_download_url"@) {
                    Some(Json::Text(url)) => asset.browser_download_url == Some(url),
                    _ => asset.browser_download_url is None,
                }
            },
            None => !(item.member("name"@) matches Some(Json::Text(_))),
        },
{
}

/// The assets of a list are those of its first and of its second share, one after the other, and
/// those of a list of one item are the asset that it is, if it is one.
pub proof fn law_assets(a: Seq<Json>, b: Seq<Json>, item: Json)
    ensures
        assets_in(a + b) == assets_in(a) + assets_in(b),
        asset_in(item) matches Some(asset) ==> assets_in(seq![item]) == seq![asset],
        asset_in(item) is None ==> assets_in(seq![item]).len() == 0,
    decreases b.len(),
{
    assert(seq![item].drop_last() == Seq::<Json>::empty());
    assert(assets_in(Seq::<Json>::empty()) == Seq::<AssetView>::empty());
    assert(seq![item].last() == item);
    if b.len() == 0 {
        assert(a + b == a);
        assert(assets_in(a) + assets_in(b) == assets_in(a));
    } else {
        law_assets(a, b.drop_last(), item);
        assert((a + b).drop_last() == a + b.drop_last());
        assert((a + b).last() == b.last());
        assert(assets_in(a + b) == assets_in(a) + assets_in(b));
    }
}

/// A value is a release exactly if its `tag_name` is a text. That is its tag; what else it says of
/// itself counts where it is of the right kind, and as not said where it is not.
pub proof fn law_release(value: Json)
    ensures
        match release_in(value) {
            Ok(release) => {
                &&& value.member("tag_name"@) == Some(Json::Text(release.tag))
                &&& release.version == version_of(release.tag)
                &&& match value.member("html_url"@) {
                    Some(Json::Text(url)) => release.html_url == Some(url),
                    _ => release.html_url is None,
                }
                &&& match value.member("assets"@) {
                    Some(Json::Array(items)) => release.assets == assets_in(items),
                    _ => release.assets.len() == 0,
                }
                &&& release.draft <==> value.member("draft"@) == Some(Json::Bool(true))
                &&& release.prerelease <==> value.member("prerelease"@) == Some(Json::Bool(true))
            },
            Err(why) => {
                &&& !(value.member("tag_name"@) matches Some(Json::Text(_)))
                &&& why == seq!["github release missing tag_name"@]
            },
        },
{
}

/// A flag is set exactly if its member is `true`.
pub proof fn law_flag(release: Json, key: Seq<char>)
    ensures
        flag_in(release, key) <==> release.member(key) == Some(Json::Bool(true)),
{
}

/// The releases of a list are those of its first and of its second share, one after the other. A
/// list fails if a share of it does, and the first that fails decides how. A list of one value is
/// that release, or fails as it does.
pub proof fn law_releases(a: Seq<Json>, b: Seq<Json>, value: Json)
    ensures
        match (releases_in(a), releases_in(b)) {
            (Ok(x), Ok(y)) => releases_in(a + b) == Ok::<Seq<ReleaseView>, Messages>(x + y),
            (Err(why), _) => releases_in(a + b) == Err::<Seq<ReleaseView>, Messages>(why),
            (_, Err(why)) => releases_in(a + b) == Err::<Seq<ReleaseView>, Messages>(why),
        },
        match release_in(value) {
            Ok(release) => releases_in(seq![value]) == Ok::<Seq<ReleaseView>, Messages>(
                seq![release],
            ),
            Err(why) => releases_in(seq![value]) == Err::<Seq<ReleaseView>, Messages>(why),
        },
        releases_in(seq![]) == Ok::<Seq<ReleaseView>, Messages>(seq![]),
    decreases b.len(),
{
    assert(seq![value].drop_last() == Seq::<Json>::empty());
    assert(seq![value].last() == value);
    assert(releases_in(Seq::<Json>::empty()) == Ok::<Seq<ReleaseView>, Messages>(seq![]));
    if let Ok(release) = release_in(value) {
        assert(Seq::<ReleaseView>::empty().push(release) == seq![release]);
    }
    if b.len() == 0 {
        assert(a + b == a);
        if let Ok(x) = releases_in(a) {
            assert(x + Seq::<ReleaseView>::empty() == x);
        }
    } else {
        law_releases(a, b.drop_last(), value);
        assert((a + b).drop_last() == a + b.drop_last());
        assert((a + b).last() == b.last());
        if let (Ok(x), Ok(y)) = (releases_in(a), releases_in(b)) {
            let fewer = releases_in(b.drop_last())->Ok_0;
            assert(x + fewer.push(y.last()) == (x + fewer).push(y.last()));
        }
    }
}

/// A feed lists the items of the array that it is; what is no array is a feed of that one release.
pub proof fn law_feed(feed: Json, items: Seq<Json>)
    ensures
        feed == Json::Array(items) ==> entries_of(feed) == items && feed_releases(feed)
            == releases_in(items),
        !(feed is Array) ==> entries_of(feed) == seq![feed] && match release_in(feed) {
            Ok(release) => feed_releases(feed) == Ok::<Seq<ReleaseView>, Messages>(seq![release]),
            Err(why) => feed_releases(feed) == Err::<Seq<ReleaseView>, Messages>(why),
        },
{
    law_releases(seq![], seq![], feed);
}

} // verus!
