//! Which release to update to: the newest published one with the assets that the platform needs.

use crate::config::{AssetNames, AssetStrategy, NamesView, UpdaterConfig};
use crate::failure::{plain, seen, Failure, Messages};
use crate::host::Host;
use crate::outside::{compare_versions, read_version, semver_key};
use crate::release::{
    AssetView, LatestReleaseInfo, LatestView, ParsedRelease, ReleaseAssetInfo, ReleaseView,
    SkippedRelease, SkippedView,
};
use crate::text::{decimal, decimal_of, join, joined, same};
use crate::version::{
    is_newer, law_ranks_asymmetric, law_ranks_transitive, newer_than, ranks_below, Precedence,
    VersionKey,
};
use vstd::prelude::*;
use vstd::string::*;

verus! {

/// What decides where a release stands among others.
pub open spec fn rank(release: ReleaseView) -> Option<VersionKey> {
    semver_key(release.version)
}

/// The first index from `i` on whose release ranks below `release`.
pub open spec fn place_for(ordered: Seq<ReleaseView>, release: ReleaseView, i: int) -> int
    decreases ordered.len() - i,
{
    if i >= ordered.len() {
        ordered.len() as int
    } else if ranks_below(rank(ordered[i]), rank(release)) {
        i
    } else {
        place_for(ordered, release, i + 1)
    }
}

/// The published ones among `candidates`, newest first; those of the same rank, and those whose
/// versions are not semantic, stay in the order of `candidates`.
pub open spec fn newest_first(candidates: Seq<ReleaseView>) -> Seq<ReleaseView>
    decreases candidates.len(),
{
    if candidates.len() == 0 {
        seq![]
    } else {
        let before = newest_first(candidates.drop_last());
        let release = candidates.last();
        if release.published() {
            before.insert(place_for(before, release, 0), release)
        } else {
            before
        }
    }
}

/// The published ones among `candidates`, newest first.
pub fn sort_newest_first(candidates: Vec<ParsedRelease>) -> (r: Vec<ParsedRelease>)
    ensures
        r.deep_view() == newest_first(candidates.deep_view()),
{
    let ghost all = candidates.deep_view();
    let mut ordered: Vec<ParsedRelease> = Vec::new();
    proof {
        assert(ordered.deep_view() =~= newest_first(all.take(0)));
    }
    for release in it: candidates
        invariant
            it.seq() == candidates@,
            all == candidates.deep_view(),
            ordered.deep_view() == newest_first(all.take(it.index() as int)),
    {
        let ghost n = it.index() as int;
        let ghost before = ordered.deep_view();
        proof {
            assert(all.take(n + 1).drop_last() == all.take(n));
            assert(all.take(n + 1).last() == release@);
        }
        if !release.draft && !release.prerelease {
            let mut i: usize = 0;
            while i < ordered.len() && !matches!(
                compare_versions(ordered[i].version.as_str(), release.version.as_str()),
                Precedence::Lower
            )
                invariant
                    i <= ordered@.len(),
                    before == ordered.deep_view(),
                    place_for(before, release@, 0) == place_for(before, release@, i as int),
                decreases ordered@.len() - i,
            {
                i = i + 1;
            }
            ordered.insert(i, release);
            proof {
                assert(ordered.deep_view() =~= before.insert(i as int, release@));
            }
        }
    }
    proof {
        assert(all.take(all.len() as int) == all);
    }
    ordered
}

/// Those of the names of the archive and the checksum that `release` has no asset of.
pub open spec fn missing_in(release: ReleaseView, names: NamesView) -> Seq<Seq<char>> {
    let archive = if release.carries(names.archive) {
        seq![]
    } else {
        seq![names.archive]
    };
    if release.carries(names.checksum) {
        archive
    } else {
        archive.push(names.checksum)
    }
}

/// Those of the names of the archive and the checksum that `release` has no asset of.
pub fn missing_assets(release: &ParsedRelease, names: &AssetNames) -> (r: Vec<String>)
    ensures
        r.deep_view() == missing_in(release@, names@),
{
    let mut missing: Vec<String> = Vec::new();
    if !release.has_asset(&names.archive) {
        missing.push(names.archive.clone());
    }
    if !release.has_asset(&names.checksum) {
        missing.push(names.checksum.clone());
    }
    proof {
        assert(missing.deep_view() =~= missing_in(release@, names@));
    }
    missing
}

/// The tags of the releases that were passed over.
pub open spec fn tags_of(skipped: Seq<SkippedView>) -> Seq<Seq<char>> {
    skipped.map_values(|release: SkippedView| release.tag)
}

/// What to tell the user where releases were passed over in favour of `selected`.
pub open spec fn fallback_note(
    skipped: Seq<SkippedView>,
    target: Seq<char>,
    selected: Seq<char>,
) -> Option<Seq<char>> {
    if skipped.len() == 0 {
        None
    } else if skipped.len() == 1 {
        Some(
            skipped[0].tag + " has no "@ + target + " release asset; selecting "@ + selected
                + " instead"@,
        )
    } else {
        Some(
            joined(tags_of(skipped), ", "@) + " have no "@ + target
                + " release assets; selecting "@ + selected + " instead"@,
        )
    }
}

/// The tags of the releases that were passed over, parted by commas.
fn join_tags(skipped: &Vec<SkippedRelease>) -> (r: String)
    ensures
        r@ == joined(tags_of(skipped.deep_view()), ", "@),
{
    let mut tags: Vec<String> = Vec::new();
    let mut i: usize = 0;
    while i < skipped.len()
        invariant
            i <= skipped@.len(),
            tags.deep_view() =~= tags_of(skipped.deep_view()).take(i as int),
        decreases skipped@.len() - i,
    {
        let ghost shorter = tags.deep_view();
        tags.push(skipped[i].tag.clone());
        proof {
            assert(tags.deep_view() =~= shorter.push(skipped@[i as int].tag@));
        }
        i = i + 1;
    }
    proof {
        assert(tags.deep_view() =~= tags_of(skipped.deep_view()));
    }
    join(&tags, ", ")
}

/// What to tell the user where releases were passed over in favour of `selected_tag`.
pub fn platform_fallback_note(
    skipped: &Vec<SkippedRelease>,
    target: &str,
    selected_tag: &str,
) -> (r: Option<String>)
    ensures
        r.deep_view() == fallback_note(skipped.deep_view(), target@, selected_tag@),
{
    if skipped.len() == 0 {
        None
    } else if skipped.len() == 1 {
        Some(
            skipped[0].tag.clone().concat(" has no ").concat(target).concat(
                " release asset; selecting ",
            ).concat(selected_tag).concat(" instead"),
        )
    } else {
        Some(
            join_tags(skipped).concat(" have no ").concat(target).concat(
                " release assets; selecting ",
            ).concat(selected_tag).concat(" instead"),
        )
    }
}

/// A search among releases that are in order, newest first: those before `position` were passed
/// over, for lack of the assets that the records in `skipped` name.
#[derive(Debug, Clone)]
pub struct Search {
    target: String,
    ordered: Vec<ParsedRelease>,
    position: usize,
    skipped: Vec<SkippedRelease>,
}

/// What a [`Search`] holds.
pub struct SearchView {
    pub target: Seq<char>,
    pub ordered: Seq<ReleaseView>,
    pub position: int,
    pub skipped: Seq<SkippedView>,
}

impl View for Search {
    type V = SearchView;

    closed spec fn view(&self) -> SearchView {
        SearchView {
            target: self.target@,
            ordered: self.ordered.deep_view(),
            position: self.position as int,
            skipped: self.skipped.deep_view(),
        }
    }
}

/// What a search has come to.
#[derive(Debug, Clone)]
pub enum SearchStep {
    /// The host program is to name the assets of the release that the search stands at.
    Ask(Search),
    /// The release to update to.
    Found(LatestReleaseInfo),
    /// There is none.
    Failed(Failure),
}

/// What a [`SearchStep`] holds.
pub enum SearchStepView {
    Ask(SearchView),
    Found(LatestView),
    Failed(Messages),
}

impl View for SearchStep {
    type V = SearchStepView;

    open spec fn view(&self) -> SearchStepView {
        match self {
            SearchStep::Ask(search) => SearchStepView::Ask(search@),
            SearchStep::Found(latest) => SearchStepView::Found(latest@),
            SearchStep::Failed(failure) => SearchStepView::Failed(failure@),
        }
    }
}

impl SearchView {
    /// Whether the search stands at a release.
    pub open spec fn open(self) -> bool {
        0 <= self.position < self.ordered.len()
    }

    /// The search once the release it stands at is passed over, for lack of `missing`.
    pub open spec fn past(self, missing: Seq<Seq<char>>) -> SearchView {
        let release = self.ordered[self.position];
        SearchView {
            position: self.position + 1,
            skipped: self.skipped.push(
                SkippedView { tag: release.tag, version: release.version, missing_assets: missing },
            ),
            ..self
        }
    }
}

/// What to tell the user where `version` is chosen and may be older than the running version:
/// newer releases were passed over (`fallback`), and neither version is a semantic one.
pub open spec fn risk_note(
    config: UpdaterConfig,
    version: Seq<char>,
    fallback: bool,
    some_semver: bool,
) -> Option<Seq<char>> {
    if !fallback || some_semver || version == config.current_version@ {
        None
    } else {
        let risk = version + " may be older than the running "@ + config.current_version@
            + ": newer releases were passed over and neither is a semantic version"@;
        if config.allow_unprovable_fallback {
            Some(risk)
        } else {
            Some(
                risk
                    + "; it is not taken unless UpdaterConfig::with_allow_unprovable_fallback allows it"@,
            )
        }
    }
}

/// What to tell the user where `version` is chosen and may be older than the running version.
pub fn downgrade_risk_note(
    config: &UpdaterConfig,
    version: &str,
    fallback: bool,
    some_semver: bool,
) -> (r: Option<String>)
    ensures
        r.deep_view() == risk_note(*config, version@, fallback, some_semver),
{
    if !fallback || some_semver || same(version, config.current_version.as_str()) {
        return None;
    }
    let risk: String = version.to_owned().concat(" may be older than the running ").concat(
        config.current_version.as_str(),
    ).concat(": newer releases were passed over and neither is a semantic version");
    if config.allow_unprovable_fallback {
        Some(risk)
    } else {
        Some(
            risk.concat(
                "; it is not taken unless UpdaterConfig::with_allow_unprovable_fallback allows it",
            ),
        )
    }
}

/// Whether at least one of two versions is a semantic one.
pub open spec fn either_is_semver(version: Seq<char>, current: Seq<char>) -> bool {
    semver_key(version) is Some || semver_key(current) is Some
}

/// The report on `release`, chosen for `target` after `skipped` were passed over.
pub open spec fn report(
    config: UpdaterConfig,
    target: Seq<char>,
    release: ReleaseView,
    skipped: Seq<SkippedView>,
) -> LatestView {
    let risk = risk_note(
        config,
        release.version,
        skipped.len() > 0,
        either_is_semver(release.version, config.current_version@),
    );
    LatestView {
        tag: release.tag,
        version: release.version,
        html_url: release.html_url,
        assets: release.assets.map_values(|asset: AssetView| asset.name),
        release_assets: release.assets,
        newer_than_current: newer_than(release.version, config.current_version@) && (risk is None
            || config.allow_unprovable_fallback),
        skipped_newer: skipped,
        selection_note: fallback_note(skipped, target, release.tag),
        downgrade_risk_note: risk,
    }
}

/// Why a search that passed over all releases fails.
pub open spec fn exhausted(config: UpdaterConfig, search: SearchView) -> Messages {
    plain(
        "no release of "@ + config.repo_slug@ + " within the last "@ + decimal_of(
            search.ordered.len(),
        ) + " carries a "@ + search.target + " asset (inspected: "@ + joined(
            tags_of(search.skipped),
            ", "@,
        ) + "); this platform's release pipeline is likely broken"@,
    )
}

/// What `search` comes to from where it stands.
pub open spec fn proceed(
    config: UpdaterConfig,
    windows: bool,
    search: SearchView,
) -> SearchStepView
    decreases search.ordered.len() - search.position, 1int,
{
    if !search.open() {
        SearchStepView::Failed(exhausted(config, search))
    } else {
        match config.asset_strategy {
            AssetStrategy::Custom => SearchStepView::Ask(search),
            AssetStrategy::TendrilStyle => examine(
                config,
                windows,
                search,
                Ok(
                    config.tendril_names(
                        windows,
                        search.ordered[search.position].version,
                        search.target,
                    ),
                ),
            ),
        }
    }
}

/// What `search` comes to once the assets of the release it stands at are known to have `names`,
/// or cannot be named.
pub open spec fn examine(
    config: UpdaterConfig,
    windows: bool,
    search: SearchView,
    names: Result<NamesView, Messages>,
) -> SearchStepView
    decreases search.ordered.len() - search.position, 0int,
{
    if !search.open() {
        SearchStepView::Failed(exhausted(config, search))
    } else {
        match names {
            Err(failure) => SearchStepView::Failed(failure),
            Ok(wanted) => {
                let release = search.ordered[search.position];
                let missing = missing_in(release, wanted);
                if missing.len() == 0 {
                    SearchStepView::Found(report(config, search.target, release, search.skipped))
                } else {
                    proceed(config, windows, search.past(missing))
                }
            },
        }
    }
}

/// What comes of the releases of a feed: the search starts at the newest published one.
pub open spec fn selection(
    config: UpdaterConfig,
    windows: bool,
    target: Seq<char>,
    candidates: Seq<ReleaseView>,
) -> SearchStepView {
    let ordered = newest_first(candidates);
    if ordered.len() == 0 {
        SearchStepView::Failed(
            plain(
                "no published GitHub releases for "@ + config.repo_slug@
                    + " yet (drafts and prereleases are ignored)"@,
            ),
        )
    } else {
        proceed(config, windows, SearchView { target, ordered, position: 0, skipped: seq![] })
    }
}

/// The names of some assets.
fn asset_names(assets: &Vec<ReleaseAssetInfo>) -> (r: Vec<String>)
    ensures
        r.deep_view() == assets.deep_view().map_values(|asset: AssetView| asset.name),
{
    let ghost all = assets.deep_view().map_values(|asset: AssetView| asset.name);
    let mut names: Vec<String> = Vec::new();
    let mut i: usize = 0;
    while i < assets.len()
        invariant
            i <= assets@.len(),
            all == assets.deep_view().map_values(|asset: AssetView| asset.name),
            names.deep_view() =~= all.take(i as int),
        decreases assets@.len() - i,
    {
        let ghost shorter = names.deep_view();
        names.push(assets[i].name.clone());
        proof {
            assert(names.deep_view() =~= shorter.push(assets@[i as int].name@));
        }
        i = i + 1;
    }
    proof {
        assert(names.deep_view() =~= all);
    }
    names
}

impl Search {
    /// The version of the release that the search stands at, if it stands at one.
    pub fn version(&self) -> (r: Option<String>)
        ensures
            r.deep_view() == (if self@.open() {
                Some(self@.ordered[self@.position].version)
            } else {
                None
            }),
    {
        if self.position < self.ordered.len() {
            Some(self.ordered[self.position].version.clone())
        } else {
            None
        }
    }

    /// The target that the search is for.
    pub fn target(&self) -> (r: String)
        ensures
            r@ == self@.target,
    {
        self.target.clone()
    }

    /// Why the search fails that passed over all releases.
    fn exhausted(&self, config: &UpdaterConfig) -> (r: Failure)
        ensures
            r@ == exhausted(*config, self@),
    {
        let head: String = "no release of ".to_owned().concat(config.repo_slug.as_str()).concat(
            " within the last ",
        ).concat(decimal(self.ordered.len() as u64).as_str()).concat(" carries a ").concat(
            self.target.as_str(),
        );
        Failure::new(
            head.concat(" asset (inspected: ").concat(join_tags(&self.skipped).as_str()).concat(
                "); this platform's release pipeline is likely broken",
            ),
        )
    }

    /// What the search comes to where the release it stands at has assets called `names`; `Ask`
    /// here only says that it was passed over and the search goes on.
    fn judge(self, config: &UpdaterConfig, names: &AssetNames) -> (r: SearchStep)
        requires
            self@.open(),
        ensures
            ({
                let missing = missing_in(self@.ordered[self@.position], names@);
                if missing.len() == 0 {
                    r@ == SearchStepView::Found(
                        report(
                            *config,
                            self@.target,
                            self@.ordered[self@.position],
                            self@.skipped,
                        ),
                    )
                } else {
                    r@ == SearchStepView::Ask(self@.past(missing))
                }
            }),
    {
        let Search { target, mut ordered, position, mut skipped } = self;
        let count: usize = ordered.len();
        proof {
            assert(position < count);
        }
        let missing: Vec<String> = missing_assets(&ordered[position], names);
        if missing.len() == 0 {
            let release: ParsedRelease = ordered.swap_remove(position);
            let selection_note: Option<String> = platform_fallback_note(
                &skipped,
                target.as_str(),
                release.tag.as_str(),
            );
            let downgrade_risk_note: Option<String> = downgrade_risk_note(
                config,
                release.version.as_str(),
                skipped.len() > 0,
                read_version(release.version.as_str()).is_some() || read_version(
                    config.current_version.as_str(),
                ).is_some(),
            );
            let newer_than_current: bool = is_newer(
                release.version.as_str(),
                config.current_version.as_str(),
            ) && (downgrade_risk_note.is_none() || config.allow_unprovable_fallback);
            SearchStep::Found(
                LatestReleaseInfo {
                    tag: release.tag,
                    version: release.version,
                    html_url: release.html_url,
                    assets: asset_names(&release.assets),
                    release_assets: release.assets,
                    newer_than_current,
                    skipped_newer: skipped,
                    selection_note,
                    downgrade_risk_note,
                },
            )
        } else {
            let ghost shorter = skipped.deep_view();
            let passed = SkippedRelease {
                tag: ordered[position].tag.clone(),
                version: ordered[position].version.clone(),
                missing_assets: missing,
            };
            skipped.push(passed);
            proof {
                assert(skipped.deep_view() =~= shorter.push(passed@));
            }
            SearchStep::Ask(Search { target, ordered, position: position + 1, skipped })
        }
    }

    /// What the search comes to from where it stands.
    pub fn proceed(self, config: &UpdaterConfig, host: &Host) -> (r: SearchStep)
        ensures
            r@ == proceed(*config, host.is_windows(), self@),
            r@ matches SearchStepView::Ask(search) ==> search.open(),
    {
        proof {
            lemma_search_advances(*config, host.is_windows(), self@);
        }
        let mut search: Search = self;
        let ghost goal = proceed(*config, host.is_windows(), self@);
        loop
            invariant
                goal == proceed(*config, host.is_windows(), self@),
                goal matches SearchStepView::Ask(later) ==> later.open(),
                goal == proceed(*config, host.is_windows(), search@),
            decreases search@.ordered.len() - search@.position,
        {
            if search.position >= search.ordered.len() {
                return SearchStep::Failed(search.exhausted(config));
            }
            let named: Option<AssetNames> = config.asset_names_for(
                host,
                search.ordered[search.position].version.as_str(),
                search.target.as_str(),
            );
            match named {
                None => {
                    return SearchStep::Ask(search);
                },
                Some(names) => {
                    match search.judge(config, &names) {
                        SearchStep::Ask(next) => {
                            search = next;
                        },
                        done => {
                            return done;
                        },
                    }
                },
            }
        }
    }

    /// What the search comes to once the host program has named the assets of the release that
    /// it stands at, or has failed to.
    pub fn resume(
        self,
        config: &UpdaterConfig,
        host: &Host,
        names: Result<AssetNames, Failure>,
    ) -> (r: SearchStep)
        ensures
            r@ == examine(*config, host.is_windows(), self@, seen(names)),
            r@ matches SearchStepView::Ask(search) ==> search.open(),
    {
        if self.position >= self.ordered.len() {
            return SearchStep::Failed(self.exhausted(config));
        }
        match names {
            Err(failure) => SearchStep::Failed(failure),
            Ok(wanted) => match self.judge(config, &wanted) {
                SearchStep::Ask(next) => next.proceed(config, host),
                done => done,
            },
        }
    }
}

/// What comes of the releases of a feed: the newest published one that has the assets for
/// `target`.
pub fn select_release(
    config: &UpdaterConfig,
    host: &Host,
    target: &str,
    candidates: Vec<ParsedRelease>,
) -> (r: SearchStep)
    ensures
        r@ == selection(*config, host.is_windows(), target@, candidates.deep_view()),
        r@ matches SearchStepView::Ask(search) ==> search.open(),
{
    let ordered: Vec<ParsedRelease> = sort_newest_first(candidates);
    if ordered.len() == 0 {
        return SearchStep::Failed(
            Failure::new(
                "no published GitHub releases for ".to_owned().concat(
                    config.repo_slug.as_str(),
                ).concat(" yet (drafts and prereleases are ignored)"),
            ),
        );
    }
    let search = Search { target: target.to_owned(), ordered, position: 0, skipped: Vec::new() };
    proof {
        assert(search@.skipped =~= seq![]);
    }
    search.proceed(config, host)
}

/// Everything from `i` up to the place for `release` ranks no lower than it, and what stands at
/// that place does.
pub proof fn lemma_place_for(ordered: Seq<ReleaseView>, release: ReleaseView, i: int)
    requires
        0 <= i <= ordered.len(),
    ensures
        i <= place_for(ordered, release, i) <= ordered.len(),
        forall|k: int|
            i <= k < place_for(ordered, release, i) ==> !ranks_below(
                rank(#[trigger] ordered[k]),
                rank(release),
            ),
        place_for(ordered, release, i) < ordered.len() ==> ranks_below(
            rank(ordered[place_for(ordered, release, i)]),
            rank(release),
        ),
    decreases ordered.len() - i,
{
    if i < ordered.len() && !ranks_below(rank(ordered[i]), rank(release)) {
        lemma_place_for(ordered, release, i + 1);
    }
}

/// The indices of the published ones among `candidates`, newest first.
pub open spec fn newest_order(candidates: Seq<ReleaseView>) -> Seq<int>
    decreases candidates.len(),
{
    if candidates.len() == 0 {
        seq![]
    } else {
        let rest = candidates.drop_last();
        let before = newest_order(rest);
        if candidates.last().published() {
            before.insert(place_for(newest_first(rest), candidates.last(), 0), rest.len() as int)
        } else {
            before
        }
    }
}

/// Whether the candidate at `i` comes before the one at `j`: it ranks higher, or as high and stands
/// first.
pub open spec fn comes_before(candidates: Seq<ReleaseView>, i: int, j: int) -> bool {
    ||| ranks_below(rank(candidates[j]), rank(candidates[i]))
    ||| !ranks_below(rank(candidates[i]), rank(candidates[j])) && i < j
}

/// `newest_first` is a stable sort of the published candidates: it holds each of them once, by its
/// index, and an earlier one ranks higher than a later one, or as high and stands first among the
/// candidates.
pub proof fn law_newest_first(candidates: Seq<ReleaseView>)
    ensures
        newest_first(candidates).len() == newest_order(candidates).len(),
        forall|k: int|
            0 <= k < newest_order(candidates).len() ==> {
                let i = #[trigger] newest_order(candidates)[k];
                &&& 0 <= i < candidates.len()
                &&& candidates[i].published()
                &&& newest_first(candidates)[k] == candidates[i]
            },
        forall|i: int|
            0 <= i < candidates.len() && (#[trigger] candidates[i]).published()
                ==> newest_order(candidates).contains(i),
        forall|a: int, b: int|
            0 <= a < b < newest_order(candidates).len() ==> comes_before(
                candidates,
                #[trigger] newest_order(candidates)[a],
                #[trigger] newest_order(candidates)[b],
            ) && newest_order(candidates)[a] != newest_order(candidates)[b],
    decreases candidates.len(),
{
    if candidates.len() > 0 {
        let rest = candidates.drop_last();
        let release = candidates.last();
        law_newest_first(rest);
        let before = newest_order(rest);
        let sorted = newest_first(rest);
        let order = newest_order(candidates);
        let last = rest.len() as int;
        assert forall|k: int| 0 <= k < before.len() implies rest[#[trigger] before[k]]
            == candidates[before[k]] by {}
        if release.published() {
            let place = place_for(sorted, release, 0);
            lemma_place_for(sorted, release, 0);
            assert(order == before.insert(place, last));
            assert forall|k: int| 0 <= k < order.len() implies ({
                let i = #[trigger] order[k];
                &&& 0 <= i < candidates.len()
                &&& candidates[i].published()
                &&& newest_first(candidates)[k] == candidates[i]
            }) by {
                if k < place {
                    assert(order[k] == before[k]);
                } else if k > place {
                    assert(order[k] == before[k - 1]);
                }
            }
            assert forall|i: int|
                0 <= i < candidates.len() && (
                #[trigger] candidates[i]).published() implies order.contains(i) by {
                if i == last {
                    assert(order[place] == last);
                } else {
                    assert(rest[i] == candidates[i]);
                    let k = choose|k: int| 0 <= k < before.len() && before[k] == i;
                    if k < place {
                        assert(order[k] == i);
                    } else {
                        assert(order[k + 1] == i);
                    }
                }
            }
            assert forall|a: int, b: int| 0 <= a < b < order.len() implies comes_before(
                candidates,
                #[trigger] order[a],
                #[trigger] order[b],
            ) && order[a] != order[b] by {
                let x = if a < place { before[a] } else { before[a - 1] };
                let y = if b < place { before[b] } else { before[b - 1] };
                if a != place && b != place {
                    assert(order[a] == x && order[b] == y);
                    assert(comes_before(rest, x, y));
                } else if b == place {
                    assert(order[a] == x && order[b] == last);
                    assert(sorted[a] == rest[x]);
                    assert(!ranks_below(rank(sorted[a]), rank(release)));
                } else {
                    assert(order[a] == last && order[b] == y);
                    assert(sorted[b - 1] == rest[y]);
                    assert(ranks_below(rank(sorted[place]), rank(release)));
                    if b - 1 > place {
                        let z = before[place];
                        assert(comes_before(rest, z, y));
                        law_ranks_asymmetric(rank(rest[y]), rank(rest[z]));
                        law_ranks_transitive(rank(rest[y]), rank(rest[z]), rank(release));
                        if !ranks_below(rank(rest[y]), rank(release)) {
                            law_ranks_transitive(rank(rest[z]), rank(rest[y]), rank(release));
                        }
                    }
                }
            }
        } else {
            assert(order == before);
            assert forall|i: int|
                0 <= i < candidates.len() && (
                #[trigger] candidates[i]).published() implies order.contains(i) by {
                assert(rest[i] == candidates[i]);
            }
            assert forall|a: int, b: int| 0 <= a < b < order.len() implies comes_before(
                candidates,
                #[trigger] order[a],
                #[trigger] order[b],
            ) && order[a] != order[b] by {
                assert(comes_before(rest, before[a], before[b]));
            }
        }
    }
}

/// What names the assets of the release of a version, or says why it cannot.
pub type Namer = spec_fn(Seq<char>) -> Result<NamesView, Messages>;

/// Whether `namer` is the one that `config` prescribes: any that the host program has, where the
/// naming is left to it.
pub open spec fn names_as_configured(
    config: UpdaterConfig,
    windows: bool,
    target: Seq<char>,
    namer: Namer,
) -> bool {
    config.asset_strategy == AssetStrategy::TendrilStyle ==> forall|version: Seq<char>|
        #[trigger] namer(version) == Ok::<NamesView, Messages>(
            config.tendril_names(windows, version, target),
        )
}

/// Whether `release` has the archive and the checksum, by the names that `namer` gives them.
pub open spec fn usable(release: ReleaseView, namer: Namer) -> bool {
    namer(release.version) matches Ok(names) && missing_in(release, names).len() == 0
}

/// Whether `step`, if it goes on with the search, goes on among the same releases from `from` on.
pub open spec fn goes_on(step: SearchStepView, ordered: Seq<ReleaseView>, from: int) -> bool {
    step matches SearchStepView::Ask(later) ==> later.open() && later.position >= from
        && later.ordered == ordered
}

/// A search that goes on has moved to a later release.
pub proof fn lemma_search_advances(config: UpdaterConfig, windows: bool, search: SearchView)
    requires
        0 <= search.position,
    ensures
        goes_on(proceed(config, windows, search), search.ordered, search.position),
        forall|names: Result<NamesView, Messages>|
            goes_on(
                #[trigger] examine(config, windows, search, names),
                search.ordered,
                search.position + 1,
            ),
    decreases search.ordered.len() - search.position,
{
    assert forall|names: Result<NamesView, Messages>|
        goes_on(
            #[trigger] examine(config, windows, search, names),
            search.ordered,
            search.position + 1,
        ) by {
        if let Ok(wanted) = names {
            let missing = missing_in(search.ordered[search.position], wanted);
            if search.open() && missing.len() > 0 {
                lemma_search_advances(config, windows, search.past(missing));
            }
        }
    }
    if search.open() && config.asset_strategy == AssetStrategy::TendrilStyle {
        let version = search.ordered[search.position].version;
        let names = config.tendril_names(windows, version, search.target);
        assert(proceed(config, windows, search) == examine(config, windows, search, Ok(names)));
    }
}

/// What `step` comes to where the host program names assets as `namer` does.
pub open spec fn settled(
    config: UpdaterConfig,
    windows: bool,
    step: SearchStepView,
    namer: Namer,
) -> SearchStepView
    decreases
            (match step {
                SearchStepView::Ask(search) => search.ordered.len() - search.position + 1,
                _ => 0,
            }),
{
    match step {
        SearchStepView::Ask(search) => if search.open() {
            let names = namer(search.ordered[search.position].version);
            proof {
                lemma_search_advances(config, windows, search);
            }
            settled(config, windows, examine(config, windows, search, names), namer)
        } else {
            step
        },
        _ => step,
    }
}

/// Whether `latest` is the report on the `k`th of `ordered`: a release that is usable, where none
/// before it is, and those are the ones on record as passed over.
pub open spec fn chosen_at(
    config: UpdaterConfig,
    target: Seq<char>,
    ordered: Seq<ReleaseView>,
    namer: Namer,
    latest: LatestView,
    k: int,
) -> bool {
    &&& 0 <= k < ordered.len()
    &&& usable(ordered[k], namer)
    &&& latest == report(config, target, ordered[k], latest.skipped_newer)
    &&& passed_over(ordered, namer, latest.skipped_newer, k)
}

/// Whether `skipped` records the first `k` of `ordered`, each of them without assets that it needs.
pub open spec fn passed_over(
    ordered: Seq<ReleaseView>,
    namer: Namer,
    skipped: Seq<SkippedView>,
    k: int,
) -> bool {
    &&& skipped.len() == k
    &&& forall|j: int|
        0 <= j < k ==> {
            let release = #[trigger] ordered[j];
            &&& namer(release.version) is Ok
            &&& skipped[j] == (SkippedView {
                tag: release.tag,
                version: release.version,
                missing_assets: missing_in(release, namer(release.version)->Ok_0),
            })
            &&& skipped[j].missing_assets.len() > 0
        }
}

/// Whether `step` is where a search among `ordered` may end: at the first usable release, or with
/// a failure, because none is, or because one before cannot be named.
pub open spec fn ended(
    config: UpdaterConfig,
    target: Seq<char>,
    ordered: Seq<ReleaseView>,
    namer: Namer,
    step: SearchStepView,
) -> bool {
    match step {
        SearchStepView::Ask(_) => false,
        SearchStepView::Found(latest) => exists|k: int|
            #[trigger] chosen_at(config, target, ordered, namer, latest, k),
        SearchStepView::Failed(failure) => exists|k: int, skipped: Seq<SkippedView>|
            #[trigger] passed_over(ordered, namer, skipped, k) && 0 <= k <= ordered.len() && (if k
                == ordered.len() {
                failure == exhausted(
                    config,
                    SearchView { target, ordered, position: k, skipped },
                )
            } else {
                namer(ordered[k].version) == Err::<NamesView, Messages>(failure)
            }),
    }
}

/// A search that passed over all releases before where it stands ends as it should.
pub proof fn lemma_search_ends(
    config: UpdaterConfig,
    windows: bool,
    search: SearchView,
    namer: Namer,
)
    requires
        names_as_configured(config, windows, search.target, namer),
        0 <= search.position <= search.ordered.len(),
        passed_over(search.ordered, namer, search.skipped, search.position),
    ensures
        ended(
            config,
            search.target,
            search.ordered,
            namer,
            settled(config, windows, proceed(config, windows, search), namer),
        ),
    decreases search.ordered.len() - search.position,
{
    let ordered = search.ordered;
    let k = search.position;
    if search.open() {
        let release = ordered[k];
        let names = namer(release.version);
        assert(settled(config, windows, proceed(config, windows, search), namer) == settled(
            config,
            windows,
            examine(config, windows, search, names),
            namer,
        ));
        if let Ok(wanted) = names {
            let missing = missing_in(release, wanted);
            if missing.len() == 0 {
                let latest = report(config, search.target, release, search.skipped);
                assert(chosen_at(config, search.target, ordered, namer, latest, k));
            } else {
                lemma_search_ends(config, windows, search.past(missing), namer);
            }
        } else {
            assert(passed_over(ordered, namer, search.skipped, k));
        }
    } else {
        assert(passed_over(ordered, namer, search.skipped, k));
    }
}

/// Where some published candidate is usable, and all of them can be named, a release is found: a
/// published one that is usable, and none that is usable comes before it. What was passed over on
/// the way to it is on record, each with what it lacks, and a note tells of it if there is any.
pub proof fn law_newest_usable_release_is_found(
    config: UpdaterConfig,
    windows: bool,
    target: Seq<char>,
    candidates: Seq<ReleaseView>,
    namer: Namer,
)
    requires
        names_as_configured(config, windows, target, namer),
        exists|i: int|
            0 <= i < candidates.len() && (#[trigger] candidates[i]).published() && usable(
                candidates[i],
                namer,
            ),
        forall|i: int|
            0 <= i < candidates.len() && candidates[i].published() ==> namer(
                (#[trigger] candidates[i]).version,
            ) is Ok,
    ensures
        ({
            let order = newest_order(candidates);
            let end = settled(
                config,
                windows,
                selection(config, windows, target, candidates),
                namer,
            );
            exists|k: int|
                0 <= k < order.len() && {
                    let chosen = candidates[#[trigger] order[k]];
                    &&& end matches SearchStepView::Found(latest)
                    &&& latest == report(config, target, chosen, latest.skipped_newer)
                    &&& chosen.published()
                    &&& usable(chosen, namer)
                    &&& passed_over(newest_first(candidates), namer, latest.skipped_newer, k)
                    &&& latest.selection_note is Some <==> k > 0
                    &&& forall|i: int|
                        0 <= i < candidates.len() && i != order[k] && (
                        #[trigger] candidates[i]).published() && usable(candidates[i], namer)
                            ==> comes_before(candidates, order[k], i)
                }
        }),
{
    law_newest_first(candidates);
    let ordered = newest_first(candidates);
    let order = newest_order(candidates);
    let some = choose|i: int|
        0 <= i < candidates.len() && (#[trigger] candidates[i]).published() && usable(
            candidates[i],
            namer,
        );
    assert(order.contains(some));
    let at = choose|k: int| 0 <= k < order.len() && order[k] == some;
    assert(ordered[at] == candidates[order[at]]);
    let search = SearchView { target, ordered, position: 0, skipped: seq![] };
    lemma_search_ends(config, windows, search, namer);
    let end = settled(config, windows, selection(config, windows, target, candidates), namer);
    assert(ended(config, target, ordered, namer, end));
    if let SearchStepView::Failed(failure) = end {
        let (k, skipped) = choose|k: int, skipped: Seq<SkippedView>|
            #[trigger] passed_over(ordered, namer, skipped, k) && 0 <= k <= ordered.len() && (if k
                == ordered.len() {
                failure == exhausted(config, SearchView { target, ordered, position: k, skipped })
            } else {
                namer(ordered[k].version) == Err::<NamesView, Messages>(failure)
            });
        if k < ordered.len() {
            assert(ordered[k] == candidates[order[k]]);
        } else {
            assert(skipped[at].missing_assets.len() > 0);
        }
        assert(false);
    }
    let latest = end->Found_0;
    let k = choose|k: int| #[trigger] chosen_at(config, target, ordered, namer, latest, k);
    let chosen = candidates[order[k]];
    assert(ordered[k] == chosen);
    assert forall|i: int|
        0 <= i < candidates.len() && i != order[k] && (
        #[trigger] candidates[i]).published() && usable(
            candidates[i],
            namer,
        ) implies comes_before(candidates, order[k], i) by {
        assert(order.contains(i));
        let j = choose|j: int| 0 <= j < order.len() && order[j] == i;
        assert(ordered[j] == candidates[order[j]]);
        if j < k {
            assert(latest.skipped_newer[j].missing_assets.len() > 0);
        } else {
            assert(comes_before(candidates, order[k], order[j]));
        }
    }
}

/// Where none of the published candidates is usable, the search fails.
pub proof fn law_no_usable_release_fails(
    config: UpdaterConfig,
    windows: bool,
    target: Seq<char>,
    candidates: Seq<ReleaseView>,
    namer: Namer,
)
    requires
        names_as_configured(config, windows, target, namer),
        forall|i: int|
            0 <= i < candidates.len() && (#[trigger] candidates[i]).published() ==> !usable(
                candidates[i],
                namer,
            ),
    ensures
        settled(config, windows, selection(config, windows, target, candidates), namer) is Failed,
{
    law_newest_first(candidates);
    let ordered = newest_first(candidates);
    let order = newest_order(candidates);
    let search = SearchView { target, ordered, position: 0, skipped: seq![] };
    lemma_search_ends(config, windows, search, namer);
    let end = settled(config, windows, selection(config, windows, target, candidates), namer);
    if ordered.len() > 0 {
        assert(ended(config, target, ordered, namer, end));
        if let SearchStepView::Found(latest) = end {
            let k = choose|k: int| #[trigger] chosen_at(config, target, ordered, namer, latest, k);
            assert(ordered[k] == candidates[order[k]]);
            assert(false);
        }
    }
}

/// A release that others were passed over for counts as newer only where that can be told, unless
/// the configuration allows otherwise; and where it cannot be told, a note says so either way.
/// Elsewhere the versions alone decide.
pub proof fn law_no_unprovable_fallback(
    config: UpdaterConfig,
    target: Seq<char>,
    release: ReleaseView,
    skipped: Seq<SkippedView>,
)
    ensures
        ({
            let current = config.current_version@;
            let latest = report(config, target, release, skipped);
            let unprovable = skipped.len() > 0 && !either_is_semver(release.version, current);
            &&& unprovable && !config.allow_unprovable_fallback ==> !latest.newer_than_current
            &&& unprovable && release.version != current ==> latest.downgrade_risk_note is Some
            &&& !unprovable || config.allow_unprovable_fallback ==> latest.newer_than_current
                == newer_than(release.version, current)
            &&& !unprovable ==> latest.downgrade_risk_note is None
        }),
{
}

/// Drafts and prereleases make no difference: what comes of a feed is what comes of the published
/// releases in it.
pub proof fn law_only_published_releases_count(
    config: UpdaterConfig,
    windows: bool,
    target: Seq<char>,
    candidates: Seq<ReleaseView>,
)
    ensures
        selection(config, windows, target, candidates) == selection(
            config,
            windows,
            target,
            candidates.filter(|release: ReleaseView| release.published()),
        ),
{
    lemma_only_published_are_ordered(candidates);
}

/// The published releases are in the order that they would be in without the others.
proof fn lemma_only_published_are_ordered(candidates: Seq<ReleaseView>)
    ensures
        newest_first(candidates.filter(|release: ReleaseView| release.published()))
            == newest_first(candidates),
    decreases candidates.len(),
{
    reveal(Seq::filter);
    let published = |release: ReleaseView| release.published();
    if candidates.len() > 0 {
        let rest = candidates.drop_last();
        lemma_only_published_are_ordered(rest);
        if candidates.last().published() {
            let kept = rest.filter(published).push(candidates.last());
            assert(candidates.filter(published) == kept);
            assert(kept.drop_last() == rest.filter(published));
        }
    }
}

/// Whether no two of the published candidates are of the same rank.
pub open spec fn distinctly_ranked(candidates: Seq<ReleaseView>) -> bool {
    forall|i: int, j: int|
        0 <= i < j < candidates.len() && (#[trigger] candidates[i]).published() && (
        #[trigger] candidates[j]).published() ==> ranks_below(
            rank(candidates[i]),
            rank(candidates[j]),
        ) || ranks_below(rank(candidates[j]), rank(candidates[i]))
}

/// The order of a feed makes no difference where no two of its published releases are of the same
/// rank: what comes of it depends on which published releases it lists.
pub proof fn law_feed_order_does_not_count(
    config: UpdaterConfig,
    windows: bool,
    target: Seq<char>,
    a: Seq<ReleaseView>,
    b: Seq<ReleaseView>,
)
    requires
        distinctly_ranked(a),
        distinctly_ranked(b),
        forall|release: ReleaseView|
            release.published() ==> (#[trigger] a.contains(release) <==> b.contains(release)),
    ensures
        selection(config, windows, target, a) == selection(config, windows, target, b),
{
    lemma_ordered_strictly(a);
    lemma_ordered_strictly(b);
    let x = newest_first(a);
    let y = newest_first(b);
    assert forall|release: ReleaseView| #[trigger] x.contains(release) == y.contains(release) by {
        assert(x.contains(release) == (release.published() && a.contains(release)));
    }
    lemma_strict_order_is_one(x, y);
}

/// Whether each release ranks above those after it.
spec fn strictly_ordered(ordered: Seq<ReleaseView>) -> bool {
    forall|i: int, j: int|
        0 <= i < j < ordered.len() ==> ranks_below(
            rank(#[trigger] ordered[j]),
            rank(#[trigger] ordered[i]),
        )
}

/// Candidates of distinct ranks are put in a strict order, and no published one is lost.
proof fn lemma_ordered_strictly(candidates: Seq<ReleaseView>)
    requires
        distinctly_ranked(candidates),
    ensures
        strictly_ordered(newest_first(candidates)),
        forall|release: ReleaseView| #[trigger]
            newest_first(candidates).contains(release) <==> release.published()
                && candidates.contains(release),
{
    law_newest_first(candidates);
    let ordered = newest_first(candidates);
    let order = newest_order(candidates);
    assert forall|i: int, j: int| 0 <= i < j < ordered.len() implies ranks_below(
        rank(#[trigger] ordered[j]),
        rank(#[trigger] ordered[i]),
    ) by {
        assert(ordered[i] == candidates[order[i]] && ordered[j] == candidates[order[j]]);
        assert(comes_before(candidates, order[i], order[j]));
        if order[i] < order[j] {
            assert(candidates[order[i]].published() && candidates[order[j]].published());
        }
    }
    assert forall|release: ReleaseView| #[trigger]
        ordered.contains(release) <==> release.published() && candidates.contains(release) by {
        if ordered.contains(release) {
            let k = choose|k: int| 0 <= k < ordered.len() && ordered[k] == release;
            assert(ordered[k] == candidates[order[k]]);
        }
        if release.published() && candidates.contains(release) {
            let i = choose|i: int| 0 <= i < candidates.len() && candidates[i] == release;
            assert(order.contains(i));
            let k = choose|k: int| 0 <= k < order.len() && order[k] == i;
            assert(ordered[k] == candidates[order[k]]);
        }
    }
}

/// There is one strict order of some releases.
proof fn lemma_strict_order_is_one(x: Seq<ReleaseView>, y: Seq<ReleaseView>)
    requires
        strictly_ordered(x),
        strictly_ordered(y),
        forall|release: ReleaseView| #[trigger] x.contains(release) == y.contains(release),
    ensures
        x == y,
    decreases x.len(),
{
    if x.len() == 0 {
        if y.len() > 0 {
            assert(y.contains(y[0]));
            assert(x.contains(y[0]));
        }
        assert(x == y);
    } else {
        assert(x.contains(x.last()));
        let j = choose|j: int| 0 <= j < y.len() && y[j] == x.last();
        assert(y.contains(y.last()));
        assert(x.contains(y.last()));
        let i = choose|i: int| 0 <= i < x.len() && x[i] == y.last();
        law_ranks_asymmetric(rank(x.last()), rank(y.last()));
        assert(x.last() == y.last());
        let fewer_x = x.drop_last();
        let fewer_y = y.drop_last();
        assert forall|release: ReleaseView| #[trigger]
            fewer_x.contains(release) == fewer_y.contains(release) by {
            law_ranks_asymmetric(rank(release), rank(release));
            if fewer_x.contains(release) {
                let k = choose|k: int| 0 <= k < fewer_x.len() && fewer_x[k] == release;
                assert(x[k] == release && ranks_below(rank(x.last()), rank(x[k])));
                assert(x.contains(release));
                let m = choose|m: int| 0 <= m < y.len() && y[m] == release;
                assert(fewer_y[m] == release);
            }
            if fewer_y.contains(release) {
                let k = choose|k: int| 0 <= k < fewer_y.len() && fewer_y[k] == release;
                assert(y[k] == release && ranks_below(rank(y.last()), rank(y[k])));
                assert(x.contains(release));
                let m = choose|m: int| 0 <= m < x.len() && x[m] == release;
                assert(fewer_x[m] == release);
            }
        }
        lemma_strict_order_is_one(fewer_x, fewer_y);
        assert(x == fewer_x.push(x.last()));
        assert(y == fewer_y.push(y.last()));
    }
}

} // verus!
