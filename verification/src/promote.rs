//! Promotion: the staged binary takes the place of the installed one.

use crate::config::UpdaterConfig;
use crate::effects::{
    out_of_turn, unexpected_answer, Action, ActionView, Event, EventView, Step, StepView,
};
use crate::failure::{in_context, Failure, Messages};
use crate::host::{Host, InstallPath, Locations, LocationsView, PathView};
use vstd::prelude::*;
use vstd::string::*;

verus! {

/// A promotion under way.
pub struct PromoteFlow<'a> {
    host: &'a Host,
    locations: Locations,
    phase: PromotePhase,
}

enum PromotePhase {
    ProbingNext,
    CreatingParent,
    ProbingInstalled,
    MarkingNext,
    Renaming,
    ExplainingRename { failure: Failure },
    MarkingInstalled,
}

/// What a [`PromoteFlow`] holds.
pub struct PromoteView {
    pub host: Host,
    pub locations: LocationsView,
    pub phase: PromotePhaseView,
}

/// What a promotion is waiting for.
pub enum PromotePhaseView {
    /// Whether there is a staged binary.
    ProbingNext,
    /// That the directory for the installed binary is there.
    CreatingParent,
    /// Whether there is an installed binary, which Windows does not let go of.
    ProbingInstalled,
    /// That the staged binary is executable.
    MarkingNext,
    /// That it is in its place.
    Renaming,
    /// How the paths are written, to say that it could not be put there.
    ExplainingRename { failure: Messages },
    /// That the installed binary is executable.
    MarkingInstalled,
}

impl View for PromotePhase {
    type V = PromotePhaseView;

    closed spec fn view(&self) -> PromotePhaseView {
        match self {
            PromotePhase::ProbingNext => PromotePhaseView::ProbingNext,
            PromotePhase::CreatingParent => PromotePhaseView::CreatingParent,
            PromotePhase::ProbingInstalled => PromotePhaseView::ProbingInstalled,
            PromotePhase::MarkingNext => PromotePhaseView::MarkingNext,
            PromotePhase::Renaming => PromotePhaseView::Renaming,
            PromotePhase::ExplainingRename { failure } => PromotePhaseView::ExplainingRename {
                failure: failure@,
            },
            PromotePhase::MarkingInstalled => PromotePhaseView::MarkingInstalled,
        }
    }
}

impl<'a> View for PromoteFlow<'a> {
    type V = PromoteView;

    closed spec fn view(&self) -> PromoteView {
        PromoteView { host: *self.host, locations: self.locations@, phase: self.phase@ }
    }
}

/// Where a promotion stands. It ends with the installed path, or with none where nothing was
/// promoted.
pub type PromoteStepView = StepView<PromoteView, Option<PathView>>;

impl PromoteView {
    /// The promotion that waits in `phase` for what comes of `action`.
    pub open spec fn doing(self, action: ActionView, phase: PromotePhaseView) -> PromoteStepView {
        StepView::Do { action, then: PromoteView { phase, ..self } }
    }

    /// The promotion once nothing keeps the staged binary from its place.
    pub open spec fn mark(self) -> PromoteStepView {
        self.doing(
            ActionView::MarkExecutable(self.locations.next),
            PromotePhaseView::MarkingNext,
        )
    }

    /// What the promotion comes to with an event.
    pub open spec fn after(self, event: EventView) -> PromoteStepView {
        match (self.phase, event) {
            (PromotePhaseView::ProbingNext, EventView::Exists(staged)) => if staged {
                self.doing(
                    ActionView::CreateParent(self.locations.installed),
                    PromotePhaseView::CreatingParent,
                )
            } else {
                StepView::Done(Ok(None))
            },
            (PromotePhaseView::CreatingParent, EventView::Failed(failure)) => StepView::Done(
                Err(failure),
            ),
            (PromotePhaseView::CreatingParent, EventView::Finished) => if self.host.is_windows() {
                self.doing(
                    ActionView::Probe(self.locations.installed),
                    PromotePhaseView::ProbingInstalled,
                )
            } else {
                self.mark()
            },
            (PromotePhaseView::ProbingInstalled, EventView::Exists(installed)) => if installed {
                StepView::Done(Ok(None))
            } else {
                self.mark()
            },
            (PromotePhaseView::MarkingNext, EventView::Failed(failure)) => StepView::Done(
                Err(failure),
            ),
            (PromotePhaseView::MarkingNext, EventView::Finished) => self.doing(
                ActionView::Rename { from: self.locations.next, to: self.locations.installed },
                PromotePhaseView::Renaming,
            ),
            (PromotePhaseView::Renaming, EventView::Failed(failure)) => self.doing(
                ActionView::Locate(self.locations),
                PromotePhaseView::ExplainingRename { failure },
            ),
            (PromotePhaseView::ExplainingRename { failure }, EventView::Located(texts)) =>
                StepView::Done(
                Err(
                    in_context(
                        "promote "@ + texts.next + " -> "@ + texts.installed,
                        failure,
                    ),
                ),
            ),
            (PromotePhaseView::Renaming, EventView::Finished) => self.doing(
                ActionView::MarkExecutable(self.locations.installed),
                PromotePhaseView::MarkingInstalled,
            ),
            (PromotePhaseView::MarkingInstalled, EventView::Failed(failure)) => StepView::Done(
                Err(failure),
            ),
            (PromotePhaseView::MarkingInstalled, EventView::Finished) => StepView::Done(
                Ok(Some(self.locations.installed)),
            ),
            _ => StepView::Done(Err(out_of_turn())),
        }
    }
}

/// A promotion at its start.
pub open spec fn promote_begun(config: UpdaterConfig, host: Host) -> PromoteStepView {
    match config.locations_on(host) {
        Err(failure) => StepView::Done(Err(failure)),
        Ok(locations) => StepView::Do {
            action: ActionView::Probe(locations.next),
            then: PromoteView { host, locations, phase: PromotePhaseView::ProbingNext },
        },
    }
}

impl<'a> PromoteFlow<'a> {
    /// A promotion at its start.
    pub fn start(config: &UpdaterConfig, host: &'a Host) -> (r: Step<
        PromoteFlow<'a>,
        Option<InstallPath>,
    >)
        ensures
            r@ == promote_begun(*config, *host),
    {
        match config.locations(host) {
            Err(failure) => Step::Done(Err(failure)),
            Ok(locations) => Step::Do {
                action: Action::Probe(locations.next.clone()),
                then: PromoteFlow { host, locations, phase: PromotePhase::ProbingNext },
            },
        }
    }

    /// The promotion that waits in `phase` for what comes of `action`.
    fn doing(self, action: Action, phase: PromotePhase) -> (r: Step<
        PromoteFlow<'a>,
        Option<InstallPath>,
    >)
        ensures
            r@ == self@.doing(action@, phase@),
    {
        Step::Do { action, then: PromoteFlow { phase, ..self } }
    }

    /// The promotion once nothing keeps the staged binary from its place.
    fn mark(self) -> (r: Step<PromoteFlow<'a>, Option<InstallPath>>)
        ensures
            r@ == self@.mark(),
    {
        let next: InstallPath = self.locations.next.clone();
        self.doing(Action::MarkExecutable(next), PromotePhase::MarkingNext)
    }

    /// What the promotion comes to with an event.
    pub fn advance(self, event: Event) -> (r: Step<PromoteFlow<'a>, Option<InstallPath>>)
        ensures
            r@ == self@.after(event@),
    {
        let PromoteFlow { host, locations, phase } = self;
        let flow = PromoteFlow { host, locations, phase: PromotePhase::ProbingNext };
        match (phase, event) {
            (PromotePhase::ProbingNext, Event::Exists(staged)) => if staged {
                let installed: InstallPath = flow.locations.installed.clone();
                flow.doing(Action::CreateParent(installed), PromotePhase::CreatingParent)
            } else {
                Step::Done(Ok(None))
            },
            (PromotePhase::CreatingParent, Event::Failed(failure)) => Step::Done(Err(failure)),
            (PromotePhase::CreatingParent, Event::Finished) => if flow.host.windows() {
                let installed: InstallPath = flow.locations.installed.clone();
                flow.doing(Action::Probe(installed), PromotePhase::ProbingInstalled)
            } else {
                flow.mark()
            },
            (PromotePhase::ProbingInstalled, Event::Exists(there)) => if there {
                Step::Done(Ok(None))
            } else {
                flow.mark()
            },
            (PromotePhase::MarkingNext, Event::Failed(failure)) => Step::Done(Err(failure)),
            (PromotePhase::MarkingNext, Event::Finished) => {
                let action = Action::Rename {
                    from: flow.locations.next.clone(),
                    to: flow.locations.installed.clone(),
                };
                flow.doing(action, PromotePhase::Renaming)
            },
            (PromotePhase::Renaming, Event::Failed(failure)) => {
                let locations: Locations = flow.locations.clone();
                flow.doing(
                    Action::Locate(locations),
                    PromotePhase::ExplainingRename { failure },
                )
            },
            (PromotePhase::ExplainingRename { failure }, Event::Located(texts)) => Step::Done(
                Err(
                    failure.context(
                        "promote ".to_owned().concat(texts.next.as_str()).concat(" -> ").concat(
                            texts.installed.as_str(),
                        ),
                    ),
                ),
            ),
            (PromotePhase::Renaming, Event::Finished) => {
                let installed: InstallPath = flow.locations.installed.clone();
                flow.doing(Action::MarkExecutable(installed), PromotePhase::MarkingInstalled)
            },
            (PromotePhase::MarkingInstalled, Event::Failed(failure)) => Step::Done(Err(failure)),
            (PromotePhase::MarkingInstalled, Event::Finished) => Step::Done(
                Ok(Some(flow.locations.installed)),
            ),
            _ => Step::Done(Err(unexpected_answer())),
        }
    }
}

/// Where a promotion stands once `events` have come back, one after the other.
pub open spec fn promote_run(
    config: UpdaterConfig,
    host: Host,
    events: Seq<EventView>,
) -> PromoteStepView
    decreases events.len(),
{
    if events.len() == 0 {
        promote_begun(config, host)
    } else {
        match promote_run(config, host, events.drop_last()) {
            StepView::Do { then, .. } => then.after(events.last()),
            done => done,
        }
    }
}

/// Whether the answer to a look at `path` has come back, and was `there`.
pub open spec fn seen_at(
    config: UpdaterConfig,
    host: Host,
    events: Seq<EventView>,
    path: PathView,
    there: bool,
) -> bool {
    exists|k: int|
        0 <= k < events.len() && #[trigger] events[k] == EventView::Exists(there) && promote_run(
            config,
            host,
            events.take(k),
        ).asks_for(ActionView::Probe(path))
}

/// More events have shown no less.
proof fn lemma_seen_grows(
    config: UpdaterConfig,
    host: Host,
    events: Seq<EventView>,
    path: PathView,
    there: bool,
)
    requires
        events.len() > 0,
        seen_at(config, host, events.drop_last(), path, there),
    ensures
        seen_at(config, host, events, path, there),
{
    let before = events.drop_last();
    let k = choose|k: int|
        0 <= k < before.len() && #[trigger] before[k] == EventView::Exists(there) && promote_run(
            config,
            host,
            before.take(k),
        ).asks_for(ActionView::Probe(path));
    assert(events[k] == before[k]);
    assert(events.take(k) == before.take(k));
}

/// What holds of every promotion.
proof fn lemma_promote_run(config: UpdaterConfig, host: Host, events: Seq<EventView>)
    ensures
        promote_run(config, host, events) matches StepView::Do { action, then } ==> {
            let locations = config.locations_on(host)->Ok_0;
            &&& config.locations_on(host) is Ok
            &&& then.host == host
            &&& then.locations == locations
            &&& then.phase is ProbingInstalled ==> action == ActionView::Probe(locations.installed)
            &&& then.phase is ProbingNext ==> action == ActionView::Probe(locations.next)
            &&& !(then.phase is ProbingNext) ==> seen_at(config, host, events, locations.next, true)
            &&& then.phase is MarkingNext || then.phase is Renaming
                || then.phase is ExplainingRename || then.phase is MarkingInstalled ==> (
            host.is_windows() ==> seen_at(config, host, events, locations.installed, false))
            &&& match action {
                ActionView::Rename { from, to } => then.phase is Renaming && from == locations.next
                    && to == locations.installed,
                ActionView::MarkExecutable(path) => {
                    ||| then.phase is MarkingNext && path == locations.next
                    ||| then.phase is MarkingInstalled && path == locations.installed
                },
                ActionView::CreateParent(path) => path == locations.installed,
                _ => action.harmless(),
            }
        },
        promote_run(config, host, events) matches StepView::Done(Ok(Some(path))) ==> {
            let locations = config.locations_on(host)->Ok_0;
            &&& path == locations.installed
            &&& seen_at(config, host, events, locations.next, true)
            &&& host.is_windows() ==> seen_at(config, host, events, locations.installed, false)
        },
    decreases events.len(),
{
    if events.len() > 0 {
        let before = events.drop_last();
        lemma_promote_run(config, host, before);
        let locations = config.locations_on(host)->Ok_0;
        let last = events.len() - 1;
        assert(events.take(last) == before);
        assert(events[last] == events.last());
        if seen_at(config, host, before, locations.next, true) {
            lemma_seen_grows(config, host, events, locations.next, true);
        }
        if seen_at(config, host, before, locations.installed, false) {
            lemma_seen_grows(config, host, events, locations.installed, false);
        }
    }
}

/// A promotion renames nothing but the staged binary, to nothing but the installed one, and only
/// where it has seen that there is a staged binary; on Windows moreover only where it has seen that
/// there is no installed one. The same holds where it succeeds.
pub proof fn law_promotion_is_safe(config: UpdaterConfig, host: Host, events: Seq<EventView>)
    ensures
        ({
            let locations = config.locations_on(host)->Ok_0;
            let safe = seen_at(config, host, events, locations.next, true) && (host.is_windows()
                ==> seen_at(config, host, events, locations.installed, false));
            match promote_run(config, host, events) {
                StepView::Do { action: ActionView::Rename { from, to }, .. } => safe && from
                    == locations.next && to == locations.installed,
                StepView::Done(Ok(Some(path))) => safe && path == locations.installed,
                _ => true,
            }
        }),
{
    lemma_promote_run(config, host, events);
}

/// On Windows a promotion that finds a staged and an installed binary ends there, with nothing
/// promoted, having changed neither: all it has done is see to the directory.
pub proof fn law_windows_promotion_is_deferred(config: UpdaterConfig, host: Host)
    requires
        host.is_windows(),
        config.locations_on(host) is Ok,
    ensures
        ({
            let locations = config.locations_on(host)->Ok_0;
            let staged = seq![EventView::Exists(true)];
            let seen_to = staged.push(EventView::Finished);
            let installed = seen_to.push(EventView::Exists(true));
            &&& promote_run(config, host, seq![]).asks_for(ActionView::Probe(locations.next))
            &&& promote_run(config, host, staged).asks_for(
                ActionView::CreateParent(locations.installed),
            )
            &&& promote_run(config, host, seen_to).asks_for(
                ActionView::Probe(locations.installed),
            )
            &&& promote_run(config, host, installed) == PromoteStepView::Done(Ok(None))
        }),
{
    let staged = seq![EventView::Exists(true)];
    let seen_to = staged.push(EventView::Finished);
    let installed = seen_to.push(EventView::Exists(true));
    assert(staged.drop_last() == Seq::<EventView>::empty());
    assert(seen_to.drop_last() == staged);
    assert(installed.drop_last() == seen_to);
    assert(promote_run(config, host, seq![]) == promote_begun(config, host));
    assert(promote_run(config, host, staged) is Do);
    assert(promote_run(config, host, seen_to) is Do);
}

/// Where there is a staged binary, a promotion on Unix ends with the installed one if the disk
/// plays along; where there is none, it ends at once with nothing promoted, on every host.
pub proof fn law_a_staged_binary_is_promoted(config: UpdaterConfig, host: Host)
    requires
        config.locations_on(host) is Ok,
    ensures
        ({
            let staged = seq![EventView::Exists(true)];
            let done = staged.push(EventView::Finished).push(EventView::Finished).push(
                EventView::Finished,
            ).push(EventView::Finished);
            &&& !host.is_windows() ==> promote_run(config, host, done) == PromoteStepView::Done(
                Ok(Some(config.locations_on(host)->Ok_0.installed)),
            )
            &&& promote_run(config, host, seq![EventView::Exists(false)]) == PromoteStepView::Done(
                Ok(None),
            )
        }),
{
    let none = Seq::<EventView>::empty();
    let absent = seq![EventView::Exists(false)];
    let staged = seq![EventView::Exists(true)];
    assert(promote_run(config, host, none) == promote_begun(config, host));
    assert(absent.drop_last() == none);
    assert(staged.drop_last() == none);
    let parent = staged.push(EventView::Finished);
    assert(parent.drop_last() == staged);
    let marked = parent.push(EventView::Finished);
    assert(marked.drop_last() == parent);
    let renamed = marked.push(EventView::Finished);
    assert(renamed.drop_last() == marked);
    let done = renamed.push(EventView::Finished);
    assert(done.drop_last() == renamed);
    if !host.is_windows() {
        assert(promote_run(config, host, staged) is Do);
        assert(promote_run(config, host, parent) is Do);
        assert(promote_run(config, host, marked) is Do);
        assert(promote_run(config, host, renamed) is Do);
    }
}

} // verus!
