//! Laws of the choice of a release.

use crate::config::{NamesView, UpdaterConfig};
use crate::failure::Messages;
use crate::laws::releases::law_carries;
use crate::outside::semver_key;
use crate::release::{AssetView, ReleaseView, SkippedView};
use crate::select::{
    chosen_at, comes_before, either_is_semver, ended, exhausted, fallback_note, law_newest_first,
    lemma_place_for, lemma_search_ends, missing_in, names_as_configured, newest_first,
    newest_order, passed_over, report, risk_note, selection, settled, tags_of, usable, Namer,
    SearchStepView, SearchView,
};
use crate::text::{decimal_of, joined};
use crate::version::{
    law_ranks_asymmetric, lex_less, newer_than, precedence_of, ranks_below, Precedence, VersionKey,
};
use vstd::prelude::*;
use vstd::string::*;

verus! {

/// Of two releases that are looked at, one after the other, the version of the first does not rank
/// below that of the second; and where neither ranks below the other, they are looked at in the
/// order of the feed.
pub proof fn law_newest_version_first(candidates: Seq<ReleaseView>, a: int, b: int)
    requires
        0 <= a < b < newest_first(candidates).len(),
    ensures
        ({
            let x = newest_first(candidates)[a];
            let y = newest_first(candidates)[b];
            &&& !ranks_below(semver_key(x.version), semver_key(y.version))
            &&& !ranks_below(semver_key(y.version), semver_key(x.version)) ==> exists|
                i: int,
                j: int,
            |
                0 <= i < j < candidates.len() && #[trigger] candidates[i] == x
                    && #[trigger] candidates[j] == y
        }),
{
    law_newest_first(candidates);
    let order = newest_order(candidates);
    let i = order[a];
    let j = order[b];
    assert(comes_before(candidates, i, j));
    assert(newest_first(candidates)[a] == candidates[i]);
    assert(newest_first(candidates)[b] == candidates[j]);
    law_ranks_asymmetric(semver_key(candidates[i].version), semver_key(candidates[j].version));
}

/// What is looked at are the published releases of the feed, all of them and no others, each as often
/// as the feed lists it.
pub proof fn law_all_published_are_looked_at(candidates: Seq<ReleaseView>, release: ReleaseView)
    ensures
        newest_first(candidates).contains(release) <==> candidates.contains(release)
            && !release.draft && !release.prerelease,
        newest_first(candidates).len() == candidates.filter(
            |listed: ReleaseView| !listed.draft && !listed.prerelease,
        ).len(),
{
    law_newest_first(candidates);
    let ordered = newest_first(candidates);
    let order = newest_order(candidates);
    if ordered.contains(release) {
        let k = choose|k: int| 0 <= k < ordered.len() && ordered[k] == release;
        assert(ordered[k] == candidates[order[k]]);
    }
    if candidates.contains(release) && release.published() {
        let i = choose|i: int| 0 <= i < candidates.len() && candidates[i] == release;
        assert(order.contains(i));
        let k = choose|k: int| 0 <= k < order.len() && order[k] == i;
        assert(ordered[k] == candidates[order[k]]);
    }
    lemma_as_many(candidates);
}

/// As many are looked at as are published.
proof fn lemma_as_many(candidates: Seq<ReleaseView>)
    ensures
        newest_first(candidates).len() == candidates.filter(
            |listed: ReleaseView| !listed.draft && !listed.prerelease,
        ).len(),
    decreases candidates.len(),
{
    reveal(Seq::filter);
    if candidates.len() > 0 {
        let rest = candidates.drop_last();
        lemma_as_many(rest);
        lemma_place_for(newest_first(rest), candidates.last(), 0);
    }
}

/// The names of the assets of a release.
pub open spec fn names_of(release: ReleaseView) -> Seq<Seq<char>> {
    release.assets.map_values(|asset: AssetView| asset.name)
}

/// What a release lacks are those of the two names, the archive and its checksum, that no asset of
/// it has: it lacks nothing only if it has both. The archive is listed first.
pub proof fn law_missing_assets(release: ReleaseView, names: NamesView, name: Seq<char>)
    ensures
        ({
            let missing = missing_in(release, names);
            let archive = names_of(release).contains(names.archive);
            let checksum = names_of(release).contains(names.checksum);
            &&& missing.len() == 0 <==> archive && checksum
            &&& missing.contains(name) <==> (name == names.archive || name == names.checksum)
                && !names_of(release).contains(name)
            &&& missing.len() == 1 <==> archive != checksum
            &&& missing.len() <= 2
            &&& missing.len() == 2 ==> missing[0] == names.archive && missing[1] == names.checksum
        }),
{
    law_carries(release, names.archive);
    law_carries(release, names.checksum);
    law_carries(release, name);
    let missing = missing_in(release, names);
    if !release.carries(names.archive) {
        assert(missing[0] == names.archive);
    }
    if !release.carries(names.checksum) {
        assert(missing.last() == names.checksum);
        assert(missing[missing.len() - 1] == names.checksum);
    }
}

/// One asset more takes its name from what is missing, and nothing else.
pub proof fn law_an_asset_more(
    release: ReleaseView,
    names: NamesView,
    asset: AssetView,
    name: Seq<char>,
)
    ensures
        ({
            let more = ReleaseView { assets: release.assets.push(asset), ..release };
            missing_in(more, names).contains(name) <==> missing_in(release, names).contains(name)
                && name != asset.name
        }),
{
    let more = ReleaseView { assets: release.assets.push(asset), ..release };
    law_missing_assets(release, names, name);
    law_missing_assets(more, names, name);
    let few = names_of(release);
    let many = names_of(more);
    assert(many == few.push(asset.name));
    if few.contains(name) {
        let i = choose|i: int| 0 <= i < few.len() && few[i] == name;
        assert(many[i] == name);
    }
    assert(many[few.len() as int] == asset.name);
    if many.contains(name) && name != asset.name {
        let i = choose|i: int| 0 <= i < many.len() && many[i] == name;
        assert(few[i] == name);
    }
}

/// A release can be used exactly if its assets can be named and it has both of them. One that has
/// the archive and not its checksum cannot, nor one that has the checksum and not the archive.
pub proof fn law_usable(release: ReleaseView, namer: Namer)
    ensures
        usable(release, namer) <==> (namer(release.version) matches Ok(names) && names_of(
            release,
        ).contains(names.archive) && names_of(release).contains(names.checksum)),
{
    if let Ok(names) = namer(release.version) {
        law_missing_assets(release, names, names.archive);
    }
}

/// The release that is chosen has both the archive and its checksum, by the names that its version
/// has; and each of those that are on record as passed over lacks one of the two, and what it lacks
/// is on record.
pub proof fn law_chosen_has_both_assets(
    config: UpdaterConfig,
    windows: bool,
    target: Seq<char>,
    candidates: Seq<ReleaseView>,
    namer: Namer,
)
    requires
        names_as_configured(config, windows, target, namer),
    ensures
        settled(config, windows, selection(config, windows, target, candidates), namer) matches
            SearchStepView::Found(latest) ==> {
            &&& namer(latest.version) matches Ok(names)
            &&& latest.assets.contains(names.archive)
            &&& latest.assets.contains(names.checksum)
            &&& latest.skipped_newer.len() < newest_first(candidates).len()
            &&& forall|j: int|
                0 <= j < latest.skipped_newer.len() ==> {
                    let passed = #[trigger] latest.skipped_newer[j];
                    let release = newest_first(candidates)[j];
                    &&& passed.tag == release.tag
                    &&& passed.version == release.version
                    &&& namer(release.version) matches Ok(wanted)
                    &&& !(names_of(release).contains(wanted.archive) && names_of(release).contains(
                        wanted.checksum,
                    ))
                    &&& passed.missing_assets.contains(wanted.archive) <==> !names_of(
                        release,
                    ).contains(wanted.archive)
                    &&& passed.missing_assets.contains(wanted.checksum) <==> !names_of(
                        release,
                    ).contains(wanted.checksum)
                }
        },
{
    let ordered = newest_first(candidates);
    let end = settled(config, windows, selection(config, windows, target, candidates), namer);
    if ordered.len() > 0 {
        let search = SearchView { target, ordered, position: 0, skipped: seq![] };
        lemma_search_ends(config, windows, search, namer);
        assert(ended(config, target, ordered, namer, end));
        if let SearchStepView::Found(latest) = end {
            let k = choose|k: int| #[trigger] chosen_at(config, target, ordered, namer, latest, k);
            let chosen = ordered[k];
            law_usable(chosen, namer);
            assert(latest.assets == names_of(chosen));
            assert forall|j: int| 0 <= j < latest.skipped_newer.len() implies {
                let passed = #[trigger] latest.skipped_newer[j];
                let release = newest_first(candidates)[j];
                &&& passed.tag == release.tag
                &&& passed.version == release.version
                &&& namer(release.version) matches Ok(wanted)
                &&& !(names_of(release).contains(wanted.archive) && names_of(release).contains(
                    wanted.checksum,
                ))
                &&& passed.missing_assets.contains(wanted.archive) <==> !names_of(
                    release,
                ).contains(wanted.archive)
                &&& passed.missing_assets.contains(wanted.checksum) <==> !names_of(
                    release,
                ).contains(wanted.checksum)
            } by {
                let release = ordered[j];
                let wanted = namer(release.version)->Ok_0;
                law_missing_assets(release, wanted, wanted.archive);
                law_missing_assets(release, wanted, wanted.checksum);
            }
        }
    }
}

/// A release is reported as it is, with the names of its assets in their order, and with those that
/// were passed over; a note tells of these exactly if there are any.
pub proof fn law_report(
    config: UpdaterConfig,
    target: Seq<char>,
    release: ReleaseView,
    skipped: Seq<SkippedView>,
)
    ensures
        ({
            let latest = report(config, target, release, skipped);
            &&& latest.tag == release.tag
            &&& latest.version == release.version
            &&& latest.html_url == release.html_url
            &&& latest.release_assets == release.assets
            &&& latest.assets.len() == release.assets.len()
            &&& forall|i: int|
                0 <= i < release.assets.len() ==> #[trigger] latest.assets[i]
                    == release.assets[i].name
            &&& latest.skipped_newer == skipped
            &&& latest.selection_note is Some <==> skipped.len() > 0
            &&& latest.version == config.current_version@ ==> !latest.newer_than_current
                && latest.downgrade_risk_note is None
        }),
{
    law_ranks_asymmetric(semver_key(release.version), semver_key(release.version));
}

/// The note on what was passed over names their tags, in order, with commas between, and then the
/// target that they are not for and the tag that is taken instead; it speaks of one or of many.
pub proof fn law_fallback_note(
    skipped: Seq<SkippedView>,
    target: Seq<char>,
    selected: Seq<char>,
)
    ensures
        tags_of(skipped).len() == skipped.len(),
        forall|i: int| 0 <= i < skipped.len() ==> #[trigger] tags_of(skipped)[i] == skipped[i].tag,
        ({
            let tags = joined(tags_of(skipped), ", "@);
            match fallback_note(skipped, target, selected) {
                None => skipped.len() == 0,
                Some(note) => {
                    ||| skipped.len() == 1 && note == tags + " has no "@ + target
                        + " release asset; selecting "@ + selected + " instead"@
                    ||| skipped.len() > 1 && note == tags + " have no "@ + target
                        + " release assets; selecting "@ + selected + " instead"@
                },
            }
        }),
{
}

/// The note that a version may be older than the running one is there exactly if releases were
/// passed over, neither version is a semantic one, and they differ. It names both, the one that
/// would be taken first, and what would allow it, unless it is allowed.
pub proof fn law_risk_note(
    config: UpdaterConfig,
    version: Seq<char>,
    fallback: bool,
    some_semver: bool,
)
    ensures
        ({
            let current = config.current_version@;
            let said = version + " may be older than the running "@ + current
                + ": newer releases were passed over and neither is a semantic version"@;
            match risk_note(config, version, fallback, some_semver) {
                None => !fallback || some_semver || version == current,
                Some(note) => {
                    &&& fallback
                    &&& !some_semver
                    &&& version != current
                    &&& note == if config.allow_unprovable_fallback {
                        said
                    } else {
                        said
                            + "; it is not taken unless UpdaterConfig::with_allow_unprovable_fallback allows it"@
                    }
                },
            }
        }),
{
}

/// Whether one of two versions is a semantic one does not depend on which comes first.
pub proof fn law_either_is_semver(a: Seq<char>, b: Seq<char>)
    ensures
        either_is_semver(a, b) == either_is_semver(b, a),
        !either_is_semver(a, b) <==> semver_key(a) is None && semver_key(b) is None,
{
}

/// A feed without a published release fails, and says for which repository.
pub proof fn law_nothing_published(
    config: UpdaterConfig,
    windows: bool,
    target: Seq<char>,
    candidates: Seq<ReleaseView>,
)
    requires
        forall|i: int| 0 <= i < candidates.len() ==> !(#[trigger] candidates[i]).published(),
    ensures
        selection(config, windows, target, candidates) == SearchStepView::Failed(
            seq![
                "no published GitHub releases for "@ + config.repo_slug@
                    + " yet (drafts and prereleases are ignored)"@,
            ],
        ),
{
    law_newest_first(candidates);
    if newest_first(candidates).len() > 0 {
        let i = newest_order(candidates)[0];
        assert(candidates[i].published());
    }
}

/// Where there are published releases, all can be named and none can be used, the failure names the
/// repository, how many there are, the target and the tags of all of them, newest first.
pub proof fn law_nothing_usable(
    config: UpdaterConfig,
    windows: bool,
    target: Seq<char>,
    candidates: Seq<ReleaseView>,
    namer: Namer,
)
    requires
        names_as_configured(config, windows, target, namer),
        newest_first(candidates).len() > 0,
        forall|i: int|
            0 <= i < newest_first(candidates).len() ==> namer(
                (#[trigger] newest_first(candidates)[i]).version,
            ) is Ok && !usable(newest_first(candidates)[i], namer),
    ensures
        settled(config, windows, selection(config, windows, target, candidates), namer)
            == SearchStepView::Failed(
            seq![
                "no release of "@ + config.repo_slug@ + " within the last "@ + decimal_of(
                    newest_first(candidates).len(),
                ) + " carries a "@ + target + " asset (inspected: "@ + joined(
                    newest_first(candidates).map_values(|release: ReleaseView| release.tag),
                    ", "@,
                ) + "); this platform's release pipeline is likely broken"@,
            ],
        ),
{
    let ordered = newest_first(candidates);
    let end = settled(config, windows, selection(config, windows, target, candidates), namer);
    let search = SearchView { target, ordered, position: 0, skipped: seq![] };
    lemma_search_ends(config, windows, search, namer);
    assert(ended(config, target, ordered, namer, end));
    match end {
        SearchStepView::Found(latest) => {
            let k = choose|k: int| #[trigger] chosen_at(config, target, ordered, namer, latest, k);
            assert(!usable(ordered[k], namer));
            assert(false);
        },
        SearchStepView::Failed(failure) => {
            let (k, skipped) = choose|k: int, skipped: Seq<SkippedView>|
                #[trigger] passed_over(ordered, namer, skipped, k) && 0 <= k <= ordered.len() && (
                if k == ordered.len() {
                    failure == exhausted(
                        config,
                        SearchView { target, ordered, position: k, skipped },
                    )
                } else {
                    namer(ordered[k].version) == Err::<NamesView, Messages>(failure)
                });
            if k < ordered.len() {
                assert(namer(ordered[k].version) is Ok);
                assert(false);
            }
            let tags = ordered.map_values(|release: ReleaseView| release.tag);
            assert forall|j: int| 0 <= j < k implies tags_of(skipped)[j] == tags[j] by {
                assert(skipped[j].tag == ordered[j].tag);
            }
            assert(tags_of(skipped) == tags);
        },
        SearchStepView::Ask(_) => {},
    }
}

/// Where the host program cannot name the assets of a release, and none of those before it can be
/// used, that is why the search fails.
pub proof fn law_no_names_no_release(
    config: UpdaterConfig,
    windows: bool,
    target: Seq<char>,
    candidates: Seq<ReleaseView>,
    namer: Namer,
    at: int,
    why: Messages,
)
    requires
        names_as_configured(config, windows, target, namer),
        0 <= at < newest_first(candidates).len(),
        forall|i: int|
            0 <= i < at ==> namer((#[trigger] newest_first(candidates)[i]).version) is Ok
                && !usable(newest_first(candidates)[i], namer),
        namer(newest_first(candidates)[at].version) == Err::<NamesView, Messages>(why),
    ensures
        settled(config, windows, selection(config, windows, target, candidates), namer)
            == SearchStepView::Failed(why),
{
    let ordered = newest_first(candidates);
    let end = settled(config, windows, selection(config, windows, target, candidates), namer);
    let search = SearchView { target, ordered, position: 0, skipped: seq![] };
    lemma_search_ends(config, windows, search, namer);
    assert(ended(config, target, ordered, namer, end));
    match end {
        SearchStepView::Found(latest) => {
            let k = choose|k: int| #[trigger] chosen_at(config, target, ordered, namer, latest, k);
            if k < at {
                assert(!usable(ordered[k], namer));
            } else {
                assert(namer(ordered[at].version) is Ok);
            }
            assert(false);
        },
        SearchStepView::Failed(failure) => {
            let (k, skipped) = choose|k: int, skipped: Seq<SkippedView>|
                #[trigger] passed_over(ordered, namer, skipped, k) && 0 <= k <= ordered.len() && (
                if k == ordered.len() {
                    failure == exhausted(
                        config,
                        SearchView { target, ordered, position: k, skipped },
                    )
                } else {
                    namer(ordered[k].version) == Err::<NamesView, Messages>(failure)
                });
            if k < at {
                assert(namer(ordered[k].version) is Ok);
                assert(false);
            }
            if k > at {
                assert(namer(ordered[at].version) is Ok);
                assert(false);
            }
        },
        SearchStepView::Ask(_) => {},
    }
}

/// A semantic version is newer than another exactly if that ranks below it.
pub proof fn law_newer_is_above(a: Seq<char>, b: Seq<char>)
    requires
        semver_key(a) is Some,
        semver_key(b) is Some,
    ensures
        newer_than(a, b) <==> ranks_below(semver_key(b), semver_key(a)),
        newer_than(a, b) <==> precedence_of(semver_key(a), semver_key(b)) == Precedence::Higher,
        newer_than(b, a) <==> precedence_of(semver_key(a), semver_key(b)) == Precedence::Lower,
{
    law_ranks_asymmetric(semver_key(a), semver_key(b));
}

/// Whether a key is below another is decided by the first of the major, minor and patch number in
/// which they differ; then by whether they are stable, which a key that is not is below; then by the
/// first identifier in which they differ, or by which has more of them.
pub proof fn law_first_difference_decides(a: VersionKey, b: VersionKey)
    ensures
        ({
            let below = ranks_below(Some(a), Some(b));
            let numbers = a.major == b.major && a.minor == b.minor && a.patch == b.patch;
            &&& a.major < b.major ==> below
            &&& a.major > b.major ==> !below
            &&& a.major == b.major && a.minor < b.minor ==> below
            &&& a.major == b.major && a.minor > b.minor ==> !below
            &&& a.major == b.major && a.minor == b.minor && a.patch < b.patch ==> below
            &&& a.major == b.major && a.minor == b.minor && a.patch > b.patch ==> !below
            &&& numbers && !a.stable && b.stable ==> below
            &&& numbers && a.stable && !b.stable ==> !below
            &&& numbers && a.stable == b.stable ==> (below <==> below_by_first_difference(
                a.identifiers,
                b.identifiers,
            ))
        }),
        ranks_below(None, Some(a)),
        !ranks_below(Some(a), None),
        !ranks_below(None, None),
{
    lemma_lex_less(a.identifiers, b.identifiers);
}

/// Whether, at the first place where two sequences differ, the first one is less or has ended.
pub open spec fn below_by_first_difference(a: Seq<int>, b: Seq<int>) -> bool {
    exists|n: int|
        0 <= n < b.len() && n <= a.len() && a.take(n) == #[trigger] b.take(n) && (n == a.len()
            || a[n] < b[n])
}

/// Lexicographic order goes by the first difference.
proof fn lemma_lex_less(a: Seq<int>, b: Seq<int>)
    ensures
        lex_less(a, b) <==> below_by_first_difference(a, b),
    decreases a.len(),
{
    if b.len() > 0 {
        if a.len() == 0 {
            assert(a.take(0) == b.take(0));
        } else if a[0] != b[0] {
            if a[0] < b[0] {
                assert(a.take(0) == b.take(0));
            }
            if below_by_first_difference(a, b) {
                let n = choose|n: int|
                    0 <= n < b.len() && n <= a.len() && a.take(n) == #[trigger] b.take(n) && (n
                        == a.len() || a[n] < b[n]);
                if n > 0 {
                    assert(a.take(n)[0] == b.take(n)[0]);
                }
            }
        } else {
            let x = a.drop_first();
            let y = b.drop_first();
            lemma_lex_less(x, y);
            if below_by_first_difference(x, y) {
                let n = choose|n: int|
                    0 <= n < y.len() && n <= x.len() && x.take(n) == #[trigger] y.take(n) && (n
                        == x.len() || x[n] < y[n]);
                assert(a.take(n + 1) == seq![a[0]] + x.take(n));
                assert(b.take(n + 1) == seq![b[0]] + y.take(n));
            }
            if below_by_first_difference(a, b) {
                let n = choose|n: int|
                    0 <= n < b.len() && n <= a.len() && a.take(n) == #[trigger] b.take(n) && (n
                        == a.len() || a[n] < b[n]);
                if n > 0 {
                    assert(x.take(n - 1) == a.take(n).drop_first());
                    assert(y.take(n - 1) == b.take(n).drop_first());
                }
            }
        }
    }
}

} // verus!
