//! Laws of what a report and an update tell.

use crate::check::{check_run, CheckStepView};
use crate::config::UpdaterConfig;
use crate::effects::{ActionView, EventView, StepView};
use crate::host::{deferred_note, Host, TextsView};
use crate::release::LatestView;
use crate::text::joined;
use crate::update::{
    idle_outcome, listed, run_check, status_begun, update_note, update_outcome, update_run,
    OutcomeView, PendingView, RunPhaseView, RunStepView, StatusPhaseView, StatusStepView,
};
use vstd::prelude::*;
use vstd::string::*;

verus! {

/// Where a report stands once `events` have come back, one after the other.
pub open spec fn status_run(
    config: UpdaterConfig,
    host: Host,
    events: Seq<EventView>,
) -> StatusStepView
    decreases events.len(),
{
    if events.len() == 0 {
        status_begun(config, host)
    } else {
        match status_run(config, host, events.drop_last()) {
            StepView::Do { then, .. } => then.after(events.last()),
            done => done,
        }
    }
}

/// A report has its paths written out, then looks for the installed binary, and then for the staged
/// one. It tells what the two looks saw, each of the path that it was of.
pub proof fn law_status(
    config: UpdaterConfig,
    host: Host,
    texts: TextsView,
    installed: bool,
    staged: bool,
)
    ensures
        ({
            let none = Seq::<EventView>::empty();
            let located = none.push(EventView::Located(texts));
            let looked = located.push(EventView::Exists(installed));
            let done = looked.push(EventView::Exists(staged));
            match config.locations_on(host) {
                Err(why) => status_run(config, host, none) == StatusStepView::Done(Err(why)),
                Ok(locations) => {
                    &&& status_run(config, host, none).asks_for(ActionView::Locate(locations))
                    &&& status_run(config, host, located).asks_for(
                        ActionView::Probe(locations.installed),
                    )
                    &&& status_run(config, host, looked).asks_for(ActionView::Probe(locations.next))
                    &&& status_run(config, host, done) matches StepView::Done(Ok(status))
                    &&& status.tool == config.tool_name@
                    &&& status.current_version == config.current_version@
                    &&& status.install_dir == texts.install_dir
                    &&& status.installed_path == texts.installed
                    &&& status.installed_exists == installed
                    &&& status.next_path == texts.next
                    &&& status.next_staged == staged
                },
            }
        }),
{
    let none = Seq::<EventView>::empty();
    let located = none.push(EventView::Located(texts));
    let looked = located.push(EventView::Exists(installed));
    let done = looked.push(EventView::Exists(staged));
    assert(located.drop_last() == none);
    assert(looked.drop_last() == located);
    assert(done.drop_last() == looked);
    assert(status_run(config, host, none) == status_begun(config, host));
    if config.locations_on(host) is Ok {
        assert(status_run(config, host, located) is Do);
        assert(status_run(config, host, looked) is Do);
    }
}

/// What a report tells is what came back: how the paths are written came first, then whether there
/// is an installed binary, then whether there is a staged one.
pub proof fn law_status_tells_what_came_back(
    config: UpdaterConfig,
    host: Host,
    events: Seq<EventView>,
)
    ensures
        status_run(config, host, events) matches StepView::Done(Ok(status)) ==> {
            &&& events.len() >= 3
            &&& events[0] matches EventView::Located(texts)
            &&& status.install_dir == texts.install_dir
            &&& status.installed_path == texts.installed
            &&& status.next_path == texts.next
            &&& events[1] == EventView::Exists(status.installed_exists)
            &&& events[2] == EventView::Exists(status.next_staged)
            &&& status.tool == config.tool_name@
            &&& status.current_version == config.current_version@
        },
{
    lemma_status(config, host, events);
}

/// What a report has seen, by how far it has come.
proof fn lemma_status(config: UpdaterConfig, host: Host, events: Seq<EventView>)
    ensures
        match status_run(config, host, events) {
            StepView::Do { then, .. } => {
                &&& then.config == config
                &&& match then.phase {
                    StatusPhaseView::Locating => events.len() == 0,
                    StatusPhaseView::ProbingInstalled { texts } => events.len() == 1 && events[0]
                        == EventView::Located(texts),
                    StatusPhaseView::ProbingNext { texts, installed } => events.len() == 2
                        && events[0] == EventView::Located(texts) && events[1]
                        == EventView::Exists(installed),
                }
            },
            StepView::Done(Ok(status)) => {
                &&& events.len() >= 3
                &&& events[0] matches EventView::Located(texts)
                &&& status.install_dir == texts.install_dir
                &&& status.installed_path == texts.installed
                &&& status.next_path == texts.next
                &&& events[1] == EventView::Exists(status.installed_exists)
                &&& events[2] == EventView::Exists(status.next_staged)
                &&& status.tool == config.tool_name@
                &&& status.current_version == config.current_version@
            },
            StepView::Done(Err(_)) => true,
        },
    decreases events.len(),
{
    if events.len() > 0 {
        lemma_status(config, host, events.drop_last());
        assert(events.drop_last().len() >= 1 ==> events.drop_last()[0] == events[0]);
        assert(events.drop_last().len() >= 2 ==> events.drop_last()[1] == events[1]);
        assert(events.drop_last().len() >= 3 ==> events.drop_last()[2] == events[2]);
    }
}

/// Whether, in the course of `events`, an update whose check had found `latest` asked how its paths
/// are written, and `texts` was the answer.
#[verifier::opaque]
pub open spec fn located(
    config: UpdaterConfig,
    host: Host,
    events: Seq<EventView>,
    latest: LatestView,
    texts: TextsView,
) -> bool {
    exists|n: int|
        0 <= n < events.len() && #[trigger] events[n] == EventView::Located(texts) && check_run(
            config,
            host,
            events.take(n),
        ) == CheckStepView::Done(Ok(latest)) && update_run(
            config,
            host,
            events.take(n),
        ).asks_for(ActionView::Locate(config.locations_on(host)->Ok_0))
}

/// What was written out stays so.
proof fn lemma_still_located(
    config: UpdaterConfig,
    host: Host,
    events: Seq<EventView>,
    latest: LatestView,
    texts: TextsView,
)
    requires
        events.len() > 0,
        located(config, host, events.drop_last(), latest, texts),
    ensures
        located(config, host, events, latest, texts),
{
    reveal(located);
    let before = events.drop_last();
    let n = choose|n: int|
        0 <= n < before.len() && #[trigger] before[n] == EventView::Located(texts) && check_run(
            config,
            host,
            before.take(n),
        ) == CheckStepView::Done(Ok(latest)) && update_run(
            config,
            host,
            before.take(n),
        ).asks_for(ActionView::Locate(config.locations_on(host)->Ok_0));
    assert(events[n] == before[n]);
    assert(events.take(n) == before.take(n));
}

/// The paths that have just been written out.
proof fn lemma_now_located(
    config: UpdaterConfig,
    host: Host,
    events: Seq<EventView>,
    latest: LatestView,
    texts: TextsView,
)
    requires
        events.len() > 0,
        events.last() == EventView::Located(texts),
        check_run(config, host, events.drop_last()) == CheckStepView::Done(Ok(latest)),
        update_run(config, host, events.drop_last()).asks_for(
            ActionView::Locate(config.locations_on(host)->Ok_0),
        ),
    ensures
        located(config, host, events, latest, texts),
{
    reveal(located);
    let n = events.len() - 1;
    assert(events[n] == events.last());
    assert(events.take(n) == events.drop_last());
}

/// Whether `pending` is what there is to report of `latest` and of how the paths are written.
pub open spec fn pends(
    config: UpdaterConfig,
    host: Host,
    events: Seq<EventView>,
    pending: PendingView,
) -> bool {
    exists|latest: LatestView| #[trigger]
        located(config, host, events, latest, pending.texts) && latest.newer_than_current
            && pending.latest_version == latest.version && pending.selection_note
            == latest.selection_note && pending.downgrade_risk_note == latest.downgrade_risk_note
}

/// Whether `outcome` is the report of an update whose check found `latest`, and whose paths are
/// written as `texts`.
pub open spec fn reports(
    config: UpdaterConfig,
    latest: LatestView,
    texts: TextsView,
    outcome: OutcomeView,
) -> bool {
    &&& outcome.current_version == config.current_version@
    &&& outcome.latest_version == latest.version
    &&& outcome.installed_path == texts.installed
    &&& outcome.next_path == texts.next
    &&& outcome.staged == latest.newer_than_current
    &&& outcome.promoted ==> outcome.staged
}

/// What holds of an update that stands at `step`, given what has come back.
spec fn outcome_holds(
    config: UpdaterConfig,
    host: Host,
    events: Seq<EventView>,
    step: RunStepView,
) -> bool {
    match step {
        StepView::Do { action, then } => {
            &&& then.config == config
            &&& then.host == host
            &&& match then.phase {
                RunPhaseView::Checking(flow) => check_run(config, host, events) == (
                CheckStepView::Do { action, then: flow }),
                RunPhaseView::Locating { latest } => check_run(config, host, events)
                    == CheckStepView::Done(Ok(latest)) && action == ActionView::Locate(
                    config.locations_on(host)->Ok_0,
                ),
                RunPhaseView::Staging { pending, .. } => pends(config, host, events, pending),
                RunPhaseView::Promoting { pending, .. } => pends(config, host, events, pending),
            }
        },
        StepView::Done(Ok(outcome)) => exists|latest: LatestView, texts: TextsView| #[trigger]
            located(config, host, events, latest, texts) && reports(config, latest, texts, outcome),
        StepView::Done(Err(_)) => true,
    }
}

/// What there is to report stays so.
proof fn lemma_still_pends(
    config: UpdaterConfig,
    host: Host,
    events: Seq<EventView>,
    pending: PendingView,
)
    requires
        events.len() > 0,
        pends(config, host, events.drop_last(), pending),
    ensures
        pends(config, host, events, pending),
{
    let latest = choose|latest: LatestView| #[trigger]
        located(config, host, events.drop_last(), latest, pending.texts)
            && latest.newer_than_current && pending.latest_version == latest.version
            && pending.selection_note == latest.selection_note && pending.downgrade_risk_note
            == latest.downgrade_risk_note;
    lemma_still_located(config, host, events, latest, pending.texts);
}

/// What holds of every update.
#[verifier::spinoff_prover]
proof fn lemma_outcome(config: UpdaterConfig, host: Host, events: Seq<EventView>)
    ensures
        outcome_holds(config, host, events, update_run(config, host, events)),
    decreases events.len(),
{
    if events.len() > 0 {
        let before = events.drop_last();
        lemma_outcome(config, host, before);
        match update_run(config, host, before) {
            StepView::Do { action, then } => match then.phase {
                RunPhaseView::Checking(flow) => {
                    assert(check_run(config, host, events) == flow.after(events.last()));
                },
                RunPhaseView::Locating { latest } => {
                    if let EventView::Located(texts) = events.last() {
                        lemma_now_located(config, host, events, latest, texts);
                        if !latest.newer_than_current {
                            assert(reports(
                                config,
                                latest,
                                texts,
                                idle_outcome(config, latest, texts),
                            ));
                        }
                    }
                },
                RunPhaseView::Staging { pending, .. } => {
                    lemma_still_pends(config, host, events, pending);
                },
                RunPhaseView::Promoting { pending, .. } => {
                    lemma_still_pends(config, host, events, pending);
                    if let StepView::Done(Ok(outcome)) = update_run(config, host, events) {
                        let latest = choose|latest: LatestView| #[trigger]
                            located(config, host, events, latest, pending.texts)
                                && latest.newer_than_current && pending.latest_version
                                == latest.version && pending.selection_note
                                == latest.selection_note && pending.downgrade_risk_note
                                == latest.downgrade_risk_note;
                        assert(reports(config, latest, pending.texts, outcome));
                    }
                },
            },
            StepView::Done(Ok(outcome)) => {
                let (latest, texts) = choose|latest: LatestView, texts: TextsView| #[trigger]
                    located(config, host, before, latest, texts) && reports(
                        config,
                        latest,
                        texts,
                        outcome,
                    );
                lemma_still_located(config, host, events, latest, texts);
            },
            StepView::Done(Err(_)) => {},
        }
    }
}

/// Every outcome of an update names the running version, the version of the release that its check
/// found, and the paths of the installed and of the staged binary as they were written out when it
/// asked. It says that a binary was staged exactly if that release is newer.
pub proof fn law_outcome_tells_what_came_back(
    config: UpdaterConfig,
    host: Host,
    events: Seq<EventView>,
)
    ensures
        update_run(config, host, events) matches StepView::Done(Ok(outcome)) ==> exists|
            latest: LatestView,
            texts: TextsView,
        | #[trigger]
            located(config, host, events, latest, texts) && outcome.installed_path
                == texts.installed && outcome.next_path == texts.next && outcome.current_version
                == config.current_version@ && outcome.latest_version == latest.version
                && outcome.staged == latest.newer_than_current && (outcome.promoted
                ==> outcome.staged),
{
    lemma_outcome(config, host, events);
    if let StepView::Done(Ok(outcome)) = update_run(config, host, events) {
        let (latest, texts) = choose|latest: LatestView, texts: TextsView| #[trigger]
            located(config, host, events, latest, texts) && reports(config, latest, texts, outcome);
        assert(located(config, host, events, latest, texts));
    }
}

/// An update whose check found a release fails if there is no place to install it, and says why.
pub proof fn law_no_place_no_update(config: UpdaterConfig, host: Host, events: Seq<EventView>)
    requires
        config.locations_on(host) is Err,
    ensures
        ({
            let why = config.locations_on(host)->Err_0;
            check_run(config, host, events) matches StepView::Done(result) ==> update_run(
                config,
                host,
                events,
            ) == RunStepView::Done(
                Err(
                    match result {
                        Ok(_) => why,
                        Err(failure) => failure,
                    },
                ),
            )
        }),
{
    lemma_no_place(config, host, events);
}

/// Where there is no place to install, an update stands where its check stands.
proof fn lemma_no_place(config: UpdaterConfig, host: Host, events: Seq<EventView>)
    requires
        config.locations_on(host) is Err,
    ensures
        update_run(config, host, events) == run_check(
            config,
            host,
            check_run(config, host, events),
        ),
    decreases events.len(),
{
    if events.len() > 0 {
        lemma_no_place(config, host, events.drop_last());
    }
}

/// An update with nothing to do reports the two versions, that it staged and promoted nothing, and
/// the two paths, each as what it is.
pub proof fn law_idle_outcome(config: UpdaterConfig, latest: LatestView, texts: TextsView)
    ensures
        ({
            let outcome = idle_outcome(config, latest, texts);
            &&& outcome.current_version == config.current_version@
            &&& outcome.latest_version == latest.version
            &&& !outcome.staged
            &&& !outcome.promoted
            &&& outcome.installed_path == texts.installed
            &&& outcome.next_path == texts.next
            &&& outcome.note == Some(
                "no update needed; latest is "@ + latest.version + " and current is "@
                    + config.current_version@ + added(latest.selection_note) + added(
                    latest.downgrade_risk_note,
                ),
            )
        }),
{
    let idle = "no update needed; latest is "@ + latest.version + " and current is "@
        + config.current_version@;
    let first = seq![idle];
    lemma_listed(first, latest.selection_note);
    let second = first + listed(latest.selection_note);
    lemma_listed(second, latest.downgrade_risk_note);
    assert(joined(first, "; "@) == idle);
}

/// An update that staged a binary reports the two versions, whether it promoted it, and the two
/// paths, each as what it is. Its note is made of the note on the releases that were passed over,
/// the one on the version that may be older, and, on Windows where nothing was promoted, the one on
/// the promotion that was put off, in this order, those that there are.
pub proof fn law_update_outcome(
    config: UpdaterConfig,
    windows: bool,
    pending: PendingView,
    promoted: bool,
)
    ensures
        ({
            let outcome = update_outcome(config, windows, pending, promoted);
            let deferred = if windows && !promoted {
                Some(deferred_note(pending.texts.next, pending.texts.installed))
            } else {
                None
            };
            let all = added(pending.selection_note) + added(pending.downgrade_risk_note) + added(
                deferred,
            );
            &&& outcome.current_version == config.current_version@
            &&& outcome.latest_version == pending.latest_version
            &&& outcome.staged
            &&& outcome.promoted == promoted
            &&& outcome.installed_path == pending.texts.installed
            &&& outcome.next_path == pending.texts.next
            &&& match outcome.note {
                Some(note) => all == "; "@ + note,
                None => all.len() == 0,
            }
        }),
{
    reveal_strlit("; ");
    let deferred = if windows && !promoted {
        Some(deferred_note(pending.texts.next, pending.texts.installed))
    } else {
        None
    };
    let none = Seq::<Seq<char>>::empty();
    let one = none + listed(pending.selection_note);
    let two = one + listed(pending.downgrade_risk_note);
    let three = two + listed(deferred);
    lemma_listed(none, pending.selection_note);
    lemma_listed(one, pending.downgrade_risk_note);
    lemma_listed(two, deferred);
    assert(one == listed(pending.selection_note));
    assert(update_note(windows, pending, promoted) == if three.len() == 0 {
        None
    } else {
        Some(joined(three, "; "@))
    });
    assert(written(none) == Seq::<char>::empty());
    assert(written(three) == added(pending.selection_note) + added(pending.downgrade_risk_note)
        + added(deferred));
}

/// A note as it is added to what was said before.
pub open spec fn added(note: Option<Seq<char>>) -> Seq<char> {
    match note {
        Some(text) => "; "@ + text,
        None => Seq::empty(),
    }
}

/// Some notes as they are added to what was said before.
spec fn written(notes: Seq<Seq<char>>) -> Seq<char> {
    if notes.len() == 0 {
        Seq::empty()
    } else {
        "; "@ + joined(notes, "; "@)
    }
}

/// A note more, if there is one, is added to what was said before.
proof fn lemma_listed(notes: Seq<Seq<char>>, note: Option<Seq<char>>)
    ensures
        notes.len() > 0 ==> joined(notes + listed(note), "; "@) == joined(notes, "; "@) + added(
            note,
        ),
        written(notes + listed(note)) == written(notes) + added(note),
{
    let more = notes + listed(note);
    match note {
        None => {
            assert(more == notes);
            assert(joined(notes, "; "@) + added(note) == joined(notes, "; "@));
            assert(written(notes) + added(note) == written(notes));
        },
        Some(text) => {
            assert(more.last() == text);
            assert(more.drop_last() == notes);
            if notes.len() == 0 {
                assert(more[0] == text);
                assert(joined(more, "; "@) == text);
                assert(written(notes) + added(note) == added(note));
            } else {
                assert(joined(more, "; "@) == joined(notes, "; "@) + "; "@ + text);
                assert(joined(notes, "; "@) + "; "@ + text == joined(notes, "; "@) + ("; "@
                    + text));
                assert("; "@ + (joined(notes, "; "@) + ("; "@ + text)) == "; "@ + joined(
                    notes,
                    "; "@,
                ) + ("; "@ + text));
            }
        },
    }
}

} // verus!
