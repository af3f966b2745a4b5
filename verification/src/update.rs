//! The whole update, and the report on what is installed.

use crate::check::{check_begun, check_run, CheckFlow, CheckStepView, CheckView};
use crate::config::{NamesView, UpdaterConfig};
use crate::effects::{
    out_of_turn, unexpected_answer, Action, ActionView, Event, EventView, Step, StepView,
};
use crate::host::{
    deferred_note, windows_deferred_promotion_note, Host, InstallPath, LocationTexts, Locations,
    LocationsView, TextsView,
};
use crate::promote::{promote_begun, promote_run, PromoteFlow, PromoteStepView, PromoteView};
use crate::release::{LatestReleaseInfo, LatestView};
use crate::stage::{
    law_only_vouched_archives_are_staged, law_staging_spares_the_installed_binary, stage_begun,
    stage_run, StageFlow, StageStepView, StageView, Staging,
};
use crate::text::{clone_text, join, joined};
use vstd::prelude::*;
use vstd::string::*;

verus! {

/// What is installed and what is staged.
#[derive(Debug, Clone)]
pub struct UpdateStatus {
    /// Name of the tool on disk.
    pub tool: String,
    /// Version of the running binary.
    pub current_version: String,
    /// The install directory.
    pub install_dir: String,
    /// The path of the installed binary.
    pub installed_path: String,
    /// Whether it is there.
    pub installed_exists: bool,
    /// The path of the staged binary.
    pub next_path: String,
    /// Whether it is there.
    pub next_staged: bool,
}

/// What an [`UpdateStatus`] holds.
pub struct StatusView {
    pub tool: Seq<char>,
    pub current_version: Seq<char>,
    pub install_dir: Seq<char>,
    pub installed_path: Seq<char>,
    pub installed_exists: bool,
    pub next_path: Seq<char>,
    pub next_staged: bool,
}

impl DeepView for UpdateStatus {
    type V = StatusView;

    open spec fn deep_view(&self) -> StatusView {
        StatusView {
            tool: self.tool@,
            current_version: self.current_version@,
            install_dir: self.install_dir@,
            installed_path: self.installed_path@,
            installed_exists: self.installed_exists,
            next_path: self.next_path@,
            next_staged: self.next_staged,
        }
    }
}

/// What came of an update.
#[derive(Debug, Clone)]
pub struct UpdateOutcome {
    /// Version of the running binary.
    pub current_version: String,
    /// Version of the release that was found.
    pub latest_version: String,
    /// Whether a binary was staged.
    pub staged: bool,
    /// Whether it was promoted.
    pub promoted: bool,
    /// The path of the staged binary.
    pub next_path: String,
    /// The path of the installed binary.
    pub installed_path: String,
    /// What to tell the user, if anything.
    pub note: Option<String>,
}

/// What an [`UpdateOutcome`] holds.
pub struct OutcomeView {
    pub current_version: Seq<char>,
    pub latest_version: Seq<char>,
    pub staged: bool,
    pub promoted: bool,
    pub next_path: Seq<char>,
    pub installed_path: Seq<char>,
    pub note: Option<Seq<char>>,
}

impl DeepView for UpdateOutcome {
    type V = OutcomeView;

    open spec fn deep_view(&self) -> OutcomeView {
        OutcomeView {
            current_version: self.current_version@,
            latest_version: self.latest_version@,
            staged: self.staged,
            promoted: self.promoted,
            next_path: self.next_path@,
            installed_path: self.installed_path@,
            note: self.note.deep_view(),
        }
    }
}

/// A report under way.
pub struct StatusFlow<'a> {
    config: &'a UpdaterConfig,
    locations: Locations,
    phase: StatusPhase,
}

enum StatusPhase {
    Locating,
    ProbingInstalled { texts: LocationTexts },
    ProbingNext { texts: LocationTexts, installed: bool },
}

/// What a [`StatusFlow`] holds.
pub struct StatusFlowView {
    pub config: UpdaterConfig,
    pub locations: LocationsView,
    pub phase: StatusPhaseView,
}

/// What a report is waiting for.
pub enum StatusPhaseView {
    /// How the paths are written.
    Locating,
    /// Whether there is an installed binary.
    ProbingInstalled { texts: TextsView },
    /// Whether there is a staged binary.
    ProbingNext { texts: TextsView, installed: bool },
}

impl View for StatusPhase {
    type V = StatusPhaseView;

    closed spec fn view(&self) -> StatusPhaseView {
        match self {
            StatusPhase::Locating => StatusPhaseView::Locating,
            StatusPhase::ProbingInstalled { texts } => StatusPhaseView::ProbingInstalled {
                texts: texts@,
            },
            StatusPhase::ProbingNext { texts, installed } => StatusPhaseView::ProbingNext {
                texts: texts@,
                installed: *installed,
            },
        }
    }
}

impl<'a> View for StatusFlow<'a> {
    type V = StatusFlowView;

    closed spec fn view(&self) -> StatusFlowView {
        StatusFlowView {
            config: *self.config,
            locations: self.locations@,
            phase: self.phase@,
        }
    }
}

/// Where a report stands.
pub type StatusStepView = StepView<StatusFlowView, StatusView>;

impl StatusFlowView {
    /// What the report comes to with an event.
    pub open spec fn after(self, event: EventView) -> StatusStepView {
        match (self.phase, event) {
            (StatusPhaseView::Locating, EventView::Located(texts)) => StepView::Do {
                action: ActionView::Probe(self.locations.installed),
                then: StatusFlowView {
                    phase: StatusPhaseView::ProbingInstalled { texts },
                    ..self
                },
            },
            (StatusPhaseView::ProbingInstalled { texts }, EventView::Exists(installed)) =>
                StepView::Do {
                action: ActionView::Probe(self.locations.next),
                then: StatusFlowView {
                    phase: StatusPhaseView::ProbingNext { texts, installed },
                    ..self
                },
            },
            (StatusPhaseView::ProbingNext { texts, installed }, EventView::Exists(staged)) =>
                StepView::Done(
                Ok(
                    StatusView {
                        tool: self.config.tool_name@,
                        current_version: self.config.current_version@,
                        install_dir: texts.install_dir,
                        installed_path: texts.installed,
                        installed_exists: installed,
                        next_path: texts.next,
                        next_staged: staged,
                    },
                ),
            ),
            _ => StepView::Done(Err(out_of_turn())),
        }
    }
}

/// A report at its start.
pub open spec fn status_begun(config: UpdaterConfig, host: Host) -> StatusStepView {
    match config.locations_on(host) {
        Err(failure) => StepView::Done(Err(failure)),
        Ok(locations) => StepView::Do {
            action: ActionView::Locate(locations),
            then: StatusFlowView { config, locations, phase: StatusPhaseView::Locating },
        },
    }
}

impl<'a> StatusFlow<'a> {
    /// A report at its start.
    pub fn start(config: &'a UpdaterConfig, host: &Host) -> (r: Step<StatusFlow<'a>, UpdateStatus>)
        ensures
            r@ == status_begun(*config, *host),
    {
        match config.locations(host) {
            Err(failure) => Step::Done(Err(failure)),
            Ok(locations) => Step::Do {
                action: Action::Locate(locations.clone()),
                then: StatusFlow { config, locations, phase: StatusPhase::Locating },
            },
        }
    }

    /// What the report comes to with an event.
    pub fn advance(self, event: Event) -> (r: Step<StatusFlow<'a>, UpdateStatus>)
        ensures
            r@ == self@.after(event@),
    {
        let StatusFlow { config, locations, phase } = self;
        match (phase, event) {
            (StatusPhase::Locating, Event::Located(texts)) => Step::Do {
                action: Action::Probe(locations.installed.clone()),
                then: StatusFlow {
                    config,
                    locations,
                    phase: StatusPhase::ProbingInstalled { texts },
                },
            },
            (StatusPhase::ProbingInstalled { texts }, Event::Exists(installed)) => Step::Do {
                action: Action::Probe(locations.next.clone()),
                then: StatusFlow {
                    config,
                    locations,
                    phase: StatusPhase::ProbingNext { texts, installed },
                },
            },
            (StatusPhase::ProbingNext { texts, installed }, Event::Exists(staged)) => Step::Done(
                Ok(
                    UpdateStatus {
                        tool: config.tool_name.clone(),
                        current_version: config.current_version.clone(),
                        install_dir: texts.install_dir,
                        installed_path: texts.installed,
                        installed_exists: installed,
                        next_path: texts.next,
                        next_staged: staged,
                    },
                ),
            ),
            _ => Step::Done(Err(unexpected_answer())),
        }
    }
}

/// What an update has to report once it has staged a binary.
struct Pending {
    latest_version: String,
    selection_note: Option<String>,
    downgrade_risk_note: Option<String>,
    texts: LocationTexts,
}

/// What an update has to report once it has staged a binary.
pub struct PendingView {
    pub latest_version: Seq<char>,
    pub selection_note: Option<Seq<char>>,
    pub downgrade_risk_note: Option<Seq<char>>,
    pub texts: TextsView,
}

impl View for Pending {
    type V = PendingView;

    closed spec fn view(&self) -> PendingView {
        PendingView {
            latest_version: self.latest_version@,
            selection_note: self.selection_note.deep_view(),
            downgrade_risk_note: self.downgrade_risk_note.deep_view(),
            texts: self.texts@,
        }
    }
}

/// An update under way.
pub struct RunFlow<'a> {
    config: &'a UpdaterConfig,
    host: &'a Host,
    phase: RunPhase<'a>,
}

enum RunPhase<'a> {
    Checking(CheckFlow<'a>),
    Locating { latest: LatestReleaseInfo },
    Staging { pending: Pending, flow: StageFlow<'a> },
    Promoting { pending: Pending, flow: PromoteFlow<'a> },
}

/// What a [`RunFlow`] holds.
pub struct RunView {
    pub config: UpdaterConfig,
    pub host: Host,
    pub phase: RunPhaseView,
}

/// What an update is at.
pub enum RunPhaseView {
    /// The check for a release to update to.
    Checking(CheckView),
    /// How the paths are written.
    Locating { latest: LatestView },
    /// The staging of the release.
    Staging { pending: PendingView, flow: StageView },
    /// The promotion of the staged binary.
    Promoting { pending: PendingView, flow: PromoteView },
}

impl<'a> View for RunPhase<'a> {
    type V = RunPhaseView;

    closed spec fn view(&self) -> RunPhaseView {
        match self {
            RunPhase::Checking(flow) => RunPhaseView::Checking(flow@),
            RunPhase::Locating { latest } => RunPhaseView::Locating { latest: latest@ },
            RunPhase::Staging { pending, flow } => RunPhaseView::Staging {
                pending: pending@,
                flow: flow@,
            },
            RunPhase::Promoting { pending, flow } => RunPhaseView::Promoting {
                pending: pending@,
                flow: flow@,
            },
        }
    }
}

impl<'a> View for RunFlow<'a> {
    type V = RunView;

    closed spec fn view(&self) -> RunView {
        RunView { config: *self.config, host: *self.host, phase: self.phase@ }
    }
}

/// Where an update stands.
pub type RunStepView = StepView<RunView, OutcomeView>;

/// The notes that there are.
pub open spec fn listed(note: Option<Seq<char>>) -> Seq<Seq<char>> {
    match note {
        Some(text) => seq![text],
        None => seq![],
    }
}

/// Adds a note to some others, if there is one.
fn add_note(notes: &mut Vec<String>, note: &Option<String>)
    ensures
        final(notes).deep_view() == old(notes).deep_view() + listed(note.deep_view()),
{
    let ghost before = notes.deep_view();
    if let Some(text) = note {
        notes.push(text.clone());
    }
    proof {
        assert(notes.deep_view() =~= before + listed(note.deep_view()));
    }
}

/// What an update reports that had nothing to do.
pub open spec fn idle_outcome(
    config: UpdaterConfig,
    latest: LatestView,
    texts: TextsView,
) -> OutcomeView {
    let idle = "no update needed; latest is "@ + latest.version + " and current is "@
        + config.current_version@;
    OutcomeView {
        current_version: config.current_version@,
        latest_version: latest.version,
        staged: false,
        promoted: false,
        next_path: texts.next,
        installed_path: texts.installed,
        note: Some(
            joined(
                seq![idle] + listed(latest.selection_note) + listed(latest.downgrade_risk_note),
                "; "@,
            ),
        ),
    }
}

/// What an update tells the user that has staged a binary: which releases it passed over, that it
/// may have gone back to an older version, and that Windows put the promotion off.
pub open spec fn update_note(windows: bool, pending: PendingView, promoted: bool) -> Option<
    Seq<char>,
> {
    let deferred = if windows && !promoted {
        Some(deferred_note(pending.texts.next, pending.texts.installed))
    } else {
        None
    };
    let notes = listed(pending.selection_note) + listed(pending.downgrade_risk_note) + listed(
        deferred,
    );
    if notes.len() == 0 {
        None
    } else {
        Some(joined(notes, "; "@))
    }
}

/// What an update reports that has staged a binary.
pub open spec fn update_outcome(
    config: UpdaterConfig,
    windows: bool,
    pending: PendingView,
    promoted: bool,
) -> OutcomeView {
    OutcomeView {
        current_version: config.current_version@,
        latest_version: pending.latest_version,
        staged: true,
        promoted,
        next_path: pending.texts.next,
        installed_path: pending.texts.installed,
        note: update_note(windows, pending, promoted),
    }
}

/// The update whose check stands at `step`.
pub open spec fn run_check(config: UpdaterConfig, host: Host, step: CheckStepView) -> RunStepView {
    match step {
        StepView::Do { action, then } => StepView::Do {
            action,
            then: RunView { config, host, phase: RunPhaseView::Checking(then) },
        },
        StepView::Done(Err(failure)) => StepView::Done(Err(failure)),
        StepView::Done(Ok(latest)) => match config.locations_on(host) {
            Err(failure) => StepView::Done(Err(failure)),
            Ok(locations) => StepView::Do {
                action: ActionView::Locate(locations),
                then: RunView { config, host, phase: RunPhaseView::Locating { latest } },
            },
        },
    }
}

/// The update whose staging stands at `step`.
pub open spec fn run_stage(
    config: UpdaterConfig,
    host: Host,
    pending: PendingView,
    step: StageStepView,
) -> RunStepView {
    match step {
        StepView::Do { action, then } => StepView::Do {
            action,
            then: RunView {
                config,
                host,
                phase: RunPhaseView::Staging { pending, flow: then },
            },
        },
        StepView::Done(Err(failure)) => StepView::Done(Err(failure)),
        StepView::Done(Ok(_)) => run_promote(config, host, pending, promote_begun(config, host)),
    }
}

/// The update whose promotion stands at `step`.
pub open spec fn run_promote(
    config: UpdaterConfig,
    host: Host,
    pending: PendingView,
    step: PromoteStepView,
) -> RunStepView {
    match step {
        StepView::Do { action, then } => StepView::Do {
            action,
            then: RunView {
                config,
                host,
                phase: RunPhaseView::Promoting { pending, flow: then },
            },
        },
        StepView::Done(Err(failure)) => StepView::Done(Err(failure)),
        StepView::Done(Ok(promoted)) => StepView::Done(
            Ok(update_outcome(config, host.is_windows(), pending, promoted is Some)),
        ),
    }
}

/// An update at its start.
pub open spec fn run_begun(config: UpdaterConfig, host: Host) -> RunStepView {
    run_check(config, host, check_begun(config, host))
}

impl RunView {
    /// What the update comes to with an event.
    pub open spec fn after(self, event: EventView) -> RunStepView {
        match self.phase {
            RunPhaseView::Checking(flow) => run_check(self.config, self.host, flow.after(event)),
            RunPhaseView::Locating { latest } => match event {
                EventView::Located(texts) => if latest.newer_than_current {
                    run_stage(
                        self.config,
                        self.host,
                        PendingView {
                            latest_version: latest.version,
                            selection_note: latest.selection_note,
                            downgrade_risk_note: latest.downgrade_risk_note,
                            texts,
                        },
                        stage_begun(self.config, self.host, latest),
                    )
                } else {
                    StepView::Done(Ok(idle_outcome(self.config, latest, texts)))
                },
                _ => StepView::Done(Err(out_of_turn())),
            },
            RunPhaseView::Staging { pending, flow } => run_stage(
                self.config,
                self.host,
                pending,
                flow.after(event),
            ),
            RunPhaseView::Promoting { pending, flow } => run_promote(
                self.config,
                self.host,
                pending,
                flow.after(event),
            ),
        }
    }
}

/// What an update reports that had nothing to do.
pub fn nothing_to_do(
    config: &UpdaterConfig,
    latest: &LatestReleaseInfo,
    texts: LocationTexts,
) -> (r: UpdateOutcome)
    ensures
        r.deep_view() == idle_outcome(*config, latest@, texts@),
{
    let idle: String = "no update needed; latest is ".to_owned().concat(
        latest.version.as_str(),
    ).concat(" and current is ").concat(config.current_version.as_str());
    let mut notes: Vec<String> = Vec::new();
    notes.push(idle);
    proof {
        assert(notes.deep_view() =~= seq![idle@]);
    }
    add_note(&mut notes, &latest.selection_note);
    add_note(&mut notes, &latest.downgrade_risk_note);
    UpdateOutcome {
        current_version: config.current_version.clone(),
        latest_version: latest.version.clone(),
        staged: false,
        promoted: false,
        next_path: texts.next,
        installed_path: texts.installed,
        note: Some(join(&notes, "; ")),
    }
}

impl Pending {
    /// What the update tells the user.
    fn note(&self, windows: bool, promoted: bool) -> (r: Option<String>)
        ensures
            r.deep_view() == update_note(windows, self@, promoted),
    {
        let mut notes: Vec<String> = Vec::new();
        proof {
            assert(notes.deep_view() =~= Seq::<Seq<char>>::empty());
        }
        add_note(&mut notes, &self.selection_note);
        add_note(&mut notes, &self.downgrade_risk_note);
        let deferred: Option<String> = if windows && !promoted {
            Some(
                windows_deferred_promotion_note(
                    self.texts.next.as_str(),
                    self.texts.installed.as_str(),
                ),
            )
        } else {
            None
        };
        add_note(&mut notes, &deferred);
        if notes.len() == 0 {
            None
        } else {
            Some(join(&notes, "; "))
        }
    }

    /// What the update reports.
    fn outcome(self, config: &UpdaterConfig, windows: bool, promoted: bool) -> (r: UpdateOutcome)
        ensures
            r.deep_view() == update_outcome(*config, windows, self@, promoted),
    {
        let note: Option<String> = self.note(windows, promoted);
        UpdateOutcome {
            current_version: config.current_version.clone(),
            latest_version: self.latest_version,
            staged: true,
            promoted,
            next_path: self.texts.next,
            installed_path: self.texts.installed,
            note,
        }
    }
}

impl<'a> RunFlow<'a> {
    /// The update whose check stands at `step`.
    fn check(
        config: &'a UpdaterConfig,
        host: &'a Host,
        step: Step<CheckFlow<'a>, LatestReleaseInfo>,
    ) -> (r: Step<RunFlow<'a>, UpdateOutcome>)
        ensures
            r@ == run_check(*config, *host, step@),
    {
        match step {
            Step::Do { action, then } => Step::Do {
                action,
                then: RunFlow { config, host, phase: RunPhase::Checking(then) },
            },
            Step::Done(Err(failure)) => Step::Done(Err(failure)),
            Step::Done(Ok(latest)) => match config.locations(host) {
                Err(failure) => Step::Done(Err(failure)),
                Ok(locations) => Step::Do {
                    action: Action::Locate(locations),
                    then: RunFlow { config, host, phase: RunPhase::Locating { latest } },
                },
            },
        }
    }

    /// The update whose staging stands at `step`.
    fn stage(
        config: &'a UpdaterConfig,
        host: &'a Host,
        pending: Pending,
        step: Step<StageFlow<'a>, InstallPath>,
    ) -> (r: Step<RunFlow<'a>, UpdateOutcome>)
        ensures
            r@ == run_stage(*config, *host, pending@, step@),
    {
        match step {
            Step::Do { action, then } => Step::Do {
                action,
                then: RunFlow { config, host, phase: RunPhase::Staging { pending, flow: then } },
            },
            Step::Done(Err(failure)) => Step::Done(Err(failure)),
            Step::Done(Ok(_)) => Self::promote(
                config,
                host,
                pending,
                PromoteFlow::start(config, host),
            ),
        }
    }

    /// The update whose promotion stands at `step`.
    fn promote(
        config: &'a UpdaterConfig,
        host: &'a Host,
        pending: Pending,
        step: Step<PromoteFlow<'a>, Option<InstallPath>>,
    ) -> (r: Step<RunFlow<'a>, UpdateOutcome>)
        ensures
            r@ == run_promote(*config, *host, pending@, step@),
    {
        match step {
            Step::Do { action, then } => Step::Do {
                action,
                then: RunFlow { config, host, phase: RunPhase::Promoting { pending, flow: then } },
            },
            Step::Done(Err(failure)) => Step::Done(Err(failure)),
            Step::Done(Ok(promoted)) => Step::Done(
                Ok(pending.outcome(config, host.windows(), promoted.is_some())),
            ),
        }
    }

    /// An update at its start.
    pub fn start(config: &'a UpdaterConfig, host: &'a Host) -> (r: Step<RunFlow<'a>, UpdateOutcome>)
        ensures
            r@ == run_begun(*config, *host),
    {
        Self::check(config, host, CheckFlow::start(config, host))
    }

    /// What the update comes to with an event.
    pub fn advance(self, event: Event) -> (r: Step<RunFlow<'a>, UpdateOutcome>)
        ensures
            r@ == self@.after(event@),
    {
        let RunFlow { config, host, phase } = self;
        match phase {
            RunPhase::Checking(flow) => Self::check(config, host, flow.advance(event)),
            RunPhase::Locating { latest } => match event {
                Event::Located(texts) => {
                    if latest.newer_than_current {
                        let pending = Pending {
                            latest_version: latest.version.clone(),
                            selection_note: clone_text(&latest.selection_note),
                            downgrade_risk_note: clone_text(&latest.downgrade_risk_note),
                            texts,
                        };
                        Self::stage(config, host, pending, StageFlow::start(config, host, latest))
                    } else {
                        Step::Done(Ok(nothing_to_do(config, &latest, texts)))
                    }
                },
                _ => Step::Done(Err(unexpected_answer())),
            },
            RunPhase::Staging { pending, flow } => Self::stage(
                config,
                host,
                pending,
                flow.advance(event),
            ),
            RunPhase::Promoting { pending, flow } => Self::promote(
                config,
                host,
                pending,
                flow.advance(event),
            ),
        }
    }
}

/// A report changes nothing on the host's disk, neither at its start nor with any event, and sends
/// nothing.
pub proof fn law_status_changes_nothing(
    config: UpdaterConfig,
    host: Host,
    flow: StatusFlowView,
    event: EventView,
)
    ensures
        status_begun(config, host) matches StepView::Do { action, .. } ==> action.harmless() && !(
        action is Send),
        flow.after(event) matches StepView::Do { action, .. } ==> action.harmless() && !(
        action is Send),
{
}

/// Where an update stands once `events` have come back, one after the other.
pub open spec fn update_run(config: UpdaterConfig, host: Host, events: Seq<EventView>) -> RunStepView
    decreases events.len(),
{
    if events.len() == 0 {
        run_begun(config, host)
    } else {
        match update_run(config, host, events.drop_last()) {
            StepView::Do { then, .. } => then.after(events.last()),
            done => done,
        }
    }
}

/// Whether an update has changed nothing on the host's disk so far, and is not about to.
#[verifier::opaque]
pub open spec fn harmless_so_far(config: UpdaterConfig, host: Host, events: Seq<EventView>) -> bool {
    forall|n: int|
        0 <= n <= events.len() ==> ((#[trigger] update_run(config, host, events.take(n))) matches
            StepView::Do { action, .. } ==> action.harmless())
}

/// Whether an update has looked whether there is an installed binary, and there was none.
#[verifier::opaque]
pub open spec fn nothing_installed(
    config: UpdaterConfig,
    host: Host,
    events: Seq<EventView>,
) -> bool {
    exists|k: int|
        0 <= k < events.len() && #[trigger] events[k] == EventView::Exists(false) && update_run(
            config,
            host,
            events.take(k),
        ).asks_for(ActionView::Probe(config.locations_on(host)->Ok_0.installed))
}

/// Whether the staging of `latest` began once the first `n` of `events` had come back: the check
/// had found it, and it is newer.
#[verifier::opaque]
pub open spec fn staging_begins(
    config: UpdaterConfig,
    host: Host,
    events: Seq<EventView>,
    latest: LatestView,
    n: int,
) -> bool {
    &&& 0 < n <= events.len()
    &&& events[n - 1] is Located
    &&& latest.newer_than_current
    &&& update_run(config, host, events.take(n - 1)) matches StepView::Do { then, .. }
    &&& then.phase == RunPhaseView::Locating { latest }
}

/// Whether a release of that version was staged in the course of `events`.
#[verifier::opaque]
pub open spec fn staged_in(
    config: UpdaterConfig,
    host: Host,
    events: Seq<EventView>,
    version: Seq<char>,
) -> bool {
    exists|latest: LatestView, n: int, m: int|
        #[trigger] staging_begins(config, host, events, latest, n) && n <= m <= events.len()
            && stage_run(config, host, latest, #[trigger] events.subrange(n, m)).succeeded()
            && latest.version == version
}

/// Whether a release of that version is being staged: its staging stands at `flow`, and waits for
/// what comes of `action`.
#[verifier::opaque]
spec fn stages(
    config: UpdaterConfig,
    host: Host,
    events: Seq<EventView>,
    version: Seq<char>,
    flow: StageView,
    action: ActionView,
) -> bool {
    exists|latest: LatestView, n: int|
        #[trigger] staging_begins(config, host, events, latest, n) && stage_run(
            config,
            host,
            latest,
            events.skip(n),
        ) == (StageStepView::Do { action, then: flow }) && latest.version == version
}

/// What holds of an update that promotes, given what has come back.
spec fn promotion_holds(
    config: UpdaterConfig,
    host: Host,
    events: Seq<EventView>,
    pending: PendingView,
    flow: PromoteView,
    action: ActionView,
) -> bool {
    let locations = config.locations_on(host)->Ok_0;
    &&& staged_in(config, host, events, pending.latest_version)
    &&& config.locations_on(host) is Ok
    &&& flow.host == host
    &&& flow.locations == locations
    &&& !(action is Unpack)
    &&& flow.phase is ProbingInstalled ==> action == ActionView::Probe(locations.installed)
    &&& flow.phase is MarkingNext || flow.phase is Renaming || flow.phase is ExplainingRename
        || flow.phase is MarkingInstalled ==> (host.is_windows() ==> nothing_installed(
        config,
        host,
        events,
    ))
    &&& action matches ActionView::Rename { from, to } ==> flow.phase is Renaming && from
        == locations.next && to == locations.installed
}

/// What holds of an update that stands at `step`, given what has come back.
spec fn update_holds(
    config: UpdaterConfig,
    host: Host,
    events: Seq<EventView>,
    step: RunStepView,
) -> bool {
    match step {
        StepView::Do { action, then } => {
            &&& then.config == config
            &&& then.host == host
            &&& match then.phase {
                RunPhaseView::Checking(flow) => harmless_so_far(config, host, events)
                    && action.harmless(),
                RunPhaseView::Locating { latest } => harmless_so_far(config, host, events)
                    && action.harmless(),
                RunPhaseView::Staging { pending, flow } => stages(
                    config,
                    host,
                    events,
                    pending.latest_version,
                    flow,
                    action,
                ),
                RunPhaseView::Promoting { pending, flow } => promotion_holds(
                    config,
                    host,
                    events,
                    pending,
                    flow,
                    action,
                ),
            }
        },
        StepView::Done(Ok(outcome)) => {
            &&& !outcome.staged ==> harmless_so_far(config, host, events) && !outcome.promoted
                && outcome.note is Some
            &&& outcome.staged ==> staged_in(config, host, events, outcome.latest_version)
            &&& outcome.promoted && host.is_windows() ==> nothing_installed(config, host, events)
            &&& outcome.current_version == config.current_version@
        },
        StepView::Done(Err(_)) => true,
    }
}

/// An update that has changed nothing, and is not about to, has changed nothing so far.
proof fn lemma_still_harmless(config: UpdaterConfig, host: Host, events: Seq<EventView>)
    requires
        events.len() > 0 ==> harmless_so_far(config, host, events.drop_last()),
        update_run(config, host, events) matches StepView::Do { action, .. } ==> action.harmless(),
    ensures
        harmless_so_far(config, host, events),
{
    reveal(harmless_so_far);
    assert forall|n: int| 0 <= n <= events.len() implies ((
    #[trigger] update_run(config, host, events.take(n))) matches StepView::Do { action, .. }
        ==> action.harmless()) by {
        if n < events.len() {
            assert(events.take(n) == events.drop_last().take(n));
        } else {
            assert(events.take(n) == events);
        }
    }
}

/// What was seen stays seen.
proof fn lemma_still_nothing_installed(config: UpdaterConfig, host: Host, events: Seq<EventView>)
    requires
        events.len() > 0,
        nothing_installed(config, host, events.drop_last()),
    ensures
        nothing_installed(config, host, events),
{
    reveal(nothing_installed);
    let before = events.drop_last();
    let installed = config.locations_on(host)->Ok_0.installed;
    let k = choose|k: int|
        0 <= k < before.len() && #[trigger] before[k] == EventView::Exists(false) && update_run(
            config,
            host,
            before.take(k),
        ).asks_for(ActionView::Probe(installed));
    assert(events[k] == before[k]);
    assert(events.take(k) == before.take(k));
}

/// A look for the installed binary that has just come back empty.
proof fn lemma_now_nothing_installed(config: UpdaterConfig, host: Host, events: Seq<EventView>)
    requires
        events.len() > 0,
        events.last() == EventView::Exists(false),
        update_run(config, host, events.drop_last()).asks_for(
            ActionView::Probe(config.locations_on(host)->Ok_0.installed),
        ),
    ensures
        nothing_installed(config, host, events),
{
    reveal(nothing_installed);
    let last = events.len() - 1;
    assert(events.take(last) == events.drop_last());
    assert(events[last] == events.last());
}

/// What was staged stays so.
proof fn lemma_still_staged(
    config: UpdaterConfig,
    host: Host,
    events: Seq<EventView>,
    version: Seq<char>,
)
    requires
        events.len() > 0,
        staged_in(config, host, events.drop_last(), version),
    ensures
        staged_in(config, host, events, version),
{
    reveal(staged_in);
    let before = events.drop_last();
    let (latest, n, m) = choose|latest: LatestView, n: int, m: int|
        #[trigger] staging_begins(config, host, before, latest, n) && n <= m <= before.len()
            && stage_run(config, host, latest, #[trigger] before.subrange(n, m)).succeeded()
            && latest.version == version;
    lemma_still_begun(config, host, events, latest, n);
    assert(0 < n) by {
        reveal(staging_begins);
    }
    assert(events.subrange(n, m) == before.subrange(n, m));
}

/// What had begun has begun.
proof fn lemma_still_begun(
    config: UpdaterConfig,
    host: Host,
    events: Seq<EventView>,
    latest: LatestView,
    n: int,
)
    requires
        events.len() > 0,
        staging_begins(config, host, events.drop_last(), latest, n),
    ensures
        staging_begins(config, host, events, latest, n),
{
    reveal(staging_begins);
    assert(events.take(n - 1) == events.drop_last().take(n - 1));
    assert(events[n - 1] == events.drop_last()[n - 1]);
}

/// The staging that the update has just begun.
proof fn lemma_staging_now(
    config: UpdaterConfig,
    host: Host,
    events: Seq<EventView>,
    latest: LatestView,
)
    requires
        events.len() > 0,
        events.last() is Located,
        latest.newer_than_current,
        update_run(config, host, events.drop_last()) matches StepView::Do { then, .. }
            && then.phase == (RunPhaseView::Locating { latest }),
    ensures
        stage_begun(config, host, latest) matches StepView::Do { action, then } ==> stages(
            config,
            host,
            events,
            latest.version,
            then,
            action,
        ),
{
    reveal(staging_begins);
    reveal(stages);
    let n = events.len() as int;
    assert(events.take(n - 1) == events.drop_last());
    assert(staging_begins(config, host, events, latest, n));
    assert(events.skip(n).len() == 0);
}

/// A staging goes on, or has succeeded, or the update ends with its failure.
#[verifier::spinoff_prover]
proof fn lemma_staging_goes_on(
    config: UpdaterConfig,
    host: Host,
    events: Seq<EventView>,
    version: Seq<char>,
    flow: StageView,
    action: ActionView,
)
    requires
        events.len() > 0,
        stages(config, host, events.drop_last(), version, flow, action),
    ensures
        match flow.after(events.last()) {
            StepView::Do { action, then } => stages(config, host, events, version, then, action),
            StepView::Done(Ok(_)) => staged_in(config, host, events, version),
            StepView::Done(Err(_)) => true,
        },
{
    reveal(stages);
    reveal(staged_in);
    let before = events.drop_last();
    let (latest, n) = choose|latest: LatestView, n: int|
        #[trigger] staging_begins(config, host, before, latest, n) && stage_run(
            config,
            host,
            latest,
            before.skip(n),
        ) == (StageStepView::Do { action, then: flow }) && latest.version == version;
    lemma_still_begun(config, host, events, latest, n);
    assert(0 < n <= before.len()) by {
        reveal(staging_begins);
    }
    let staging = events.skip(n);
    assert(staging.drop_last() == before.skip(n));
    assert(staging.last() == events.last());
    assert(stage_run(config, host, latest, staging) == flow.after(events.last()));
    assert(events.subrange(n, events.len() as int) == staging);
}

/// What holds of an update that stages holds after one more event.
proof fn lemma_staging_holds_on(
    config: UpdaterConfig,
    host: Host,
    events: Seq<EventView>,
    pending: PendingView,
    flow: StageView,
    action: ActionView,
)
    requires
        events.len() > 0,
        stages(config, host, events.drop_last(), pending.latest_version, flow, action),
    ensures
        update_holds(
            config,
            host,
            events,
            run_stage(config, host, pending, flow.after(events.last())),
        ),
{
    lemma_staging_goes_on(config, host, events, pending.latest_version, flow, action);
}

/// What holds of an update that promotes holds after one more event.
#[verifier::spinoff_prover]
proof fn lemma_promotion_holds_on(
    config: UpdaterConfig,
    host: Host,
    events: Seq<EventView>,
    pending: PendingView,
    flow: PromoteView,
    action: ActionView,
)
    requires
        events.len() > 0,
        update_run(config, host, events.drop_last()) == (RunStepView::Do {
            action,
            then: RunView { config, host, phase: RunPhaseView::Promoting { pending, flow } },
        }),
        promotion_holds(config, host, events.drop_last(), pending, flow, action),
    ensures
        update_holds(
            config,
            host,
            events,
            run_promote(config, host, pending, flow.after(events.last())),
        ),
{
    let before = events.drop_last();
    lemma_still_staged(config, host, events, pending.latest_version);
    if nothing_installed(config, host, before) {
        lemma_still_nothing_installed(config, host, events);
    }
    if flow.phase is ProbingInstalled && events.last() == EventView::Exists(false) {
        lemma_now_nothing_installed(config, host, events);
    }
}

/// What holds of every update.
#[verifier::spinoff_prover]
proof fn lemma_update_run(config: UpdaterConfig, host: Host, events: Seq<EventView>)
    ensures
        update_holds(config, host, events, update_run(config, host, events)),
    decreases events.len(),
{
    if events.len() == 0 {
        if run_begun(config, host) is Do {
            lemma_still_harmless(config, host, events);
        }
    } else {
        let before = events.drop_last();
        let event = events.last();
        lemma_update_run(config, host, before);
        match update_run(config, host, before) {
            StepView::Do { action, then } => match then.phase {
                RunPhaseView::Checking(flow) => {
                    assert(update_run(config, host, events) == run_check(
                        config,
                        host,
                        flow.after(event),
                    ));
                    lemma_still_harmless(config, host, events);
                },
                RunPhaseView::Locating { latest } => {
                    if !(update_run(config, host, events) is Do) {
                        lemma_still_harmless(config, host, events);
                    } else {
                        lemma_staging_now(config, host, events, latest);
                    }
                },
                RunPhaseView::Staging { pending, flow } => {
                    lemma_staging_holds_on(config, host, events, pending, flow, action);
                },
                RunPhaseView::Promoting { pending, flow } => {
                    lemma_promotion_holds_on(config, host, events, pending, flow, action);
                },
            },
            StepView::Done(Ok(outcome)) => {
                if harmless_so_far(config, host, before) {
                    lemma_still_harmless(config, host, events);
                }
                if nothing_installed(config, host, before) {
                    lemma_still_nothing_installed(config, host, events);
                }
                if outcome.staged {
                    lemma_still_staged(config, host, events, outcome.latest_version);
                }
            },
            StepView::Done(Err(_)) => {},
        }
    }
}

/// An update that stages nothing has changed nothing on the host's disk, has promoted nothing, and
/// says why.
pub proof fn law_idle_update_changes_nothing(
    config: UpdaterConfig,
    host: Host,
    events: Seq<EventView>,
)
    ensures
        update_run(config, host, events) matches StepView::Done(Ok(outcome)) ==> (!outcome.staged
            ==> harmless_so_far(config, host, events) && !outcome.promoted && outcome.note is Some),
{
    lemma_update_run(config, host, events);
}

/// Whether, in the course of `events`, the check found a newer release of that version, and its
/// binary was copied from an archive of it that its checksum vouches for.
pub open spec fn vouched_staging(
    config: UpdaterConfig,
    host: Host,
    events: Seq<EventView>,
    version: Seq<char>,
) -> bool {
    exists|latest: LatestView, n: int, m: int|
        #[trigger] staging_begins(config, host, events, latest, n) && n <= m <= events.len()
            && latest.version == version && (Staging { config, host, latest }).staged(
            #[trigger] events.subrange(n, m),
        )
}

/// What was staged was vouched for.
proof fn lemma_staged_is_vouched_for(
    config: UpdaterConfig,
    host: Host,
    events: Seq<EventView>,
    version: Seq<char>,
)
    requires
        staged_in(config, host, events, version),
    ensures
        vouched_staging(config, host, events, version),
{
    reveal(staged_in);
    let (latest, n, m) = choose|latest: LatestView, n: int, m: int|
        #[trigger] staging_begins(config, host, events, latest, n) && n <= m <= events.len()
            && stage_run(config, host, latest, #[trigger] events.subrange(n, m)).succeeded()
            && latest.version == version;
    law_only_vouched_archives_are_staged(config, host, latest, events.subrange(n, m));
}

/// An update unpacks nothing but the archive of the newer release that its check found, once that
/// release's checksum vouches for it. It puts nothing in place, and reports nothing as staged,
/// but the binary from such an archive, and it reports the version of that release.
#[verifier::spinoff_prover]
pub proof fn law_update_installs_only_what_is_vouched_for(
    config: UpdaterConfig,
    host: Host,
    events: Seq<EventView>,
)
    ensures
        match update_run(config, host, events) {
            StepView::Do { action: ActionView::Unpack(archive), .. } => exists|
                latest: LatestView,
                n: int,
                names: NamesView,
            |
                #[trigger] staging_begins(config, host, events, latest, n) && (Staging {
                    config,
                    host,
                    latest,
                }).named(events.skip(n), names) && #[trigger] (Staging {
                    config,
                    host,
                    latest,
                }).vouched(events.skip(n), names, archive),
            StepView::Do { action: ActionView::Rename { .. }, .. } => exists|version: Seq<char>|
                #[trigger] vouched_staging(config, host, events, version),
            StepView::Done(Ok(outcome)) => outcome.staged ==> vouched_staging(
                config,
                host,
                events,
                outcome.latest_version,
            ),
            _ => true,
        },
{
    lemma_update_run(config, host, events);
    match update_run(config, host, events) {
        StepView::Do { action, then } => match then.phase {
            RunPhaseView::Staging { pending, flow } => {
                reveal(stages);
                let (latest, n) = choose|latest: LatestView, n: int|
                    #[trigger] staging_begins(config, host, events, latest, n) && stage_run(
                        config,
                        host,
                        latest,
                        events.skip(n),
                    ) == (StageStepView::Do { action, then: flow }) && latest.version
                        == pending.latest_version;
                law_only_vouched_archives_are_staged(config, host, latest, events.skip(n));
                law_staging_spares_the_installed_binary(config, host, latest, events.skip(n));
            },
            RunPhaseView::Promoting { pending, .. } => {
                lemma_staged_is_vouched_for(config, host, events, pending.latest_version);
            },
            _ => {},
        },
        StepView::Done(Ok(outcome)) => {
            if outcome.staged {
                lemma_staged_is_vouched_for(config, host, events, outcome.latest_version);
            }
        },
        StepView::Done(Err(_)) => {},
    }
}

/// On Windows an update puts the staged binary in the place of the installed one, and reports that
/// it has, only where it has seen that there is no installed one.
pub proof fn law_windows_update_replaces_nothing(
    config: UpdaterConfig,
    host: Host,
    events: Seq<EventView>,
)
    requires
        host.is_windows(),
    ensures
        match update_run(config, host, events) {
            StepView::Do { action: ActionView::Rename { .. }, .. } => nothing_installed(
                config,
                host,
                events,
            ),
            StepView::Done(Ok(outcome)) => outcome.promoted ==> nothing_installed(
                config,
                host,
                events,
            ),
            _ => true,
        },
{
    lemma_update_run(config, host, events);
}

/// Whether `note` has `part` in it.
pub open spec fn mentions(note: Option<Seq<char>>, part: Seq<char>) -> bool {
    note matches Some(text) && exists|before: Seq<char>, after: Seq<char>|
        text == #[trigger] (before + part + after)
}

/// What is joined is in the result.
proof fn lemma_joined_mentions(parts: Seq<Seq<char>>, separator: Seq<char>, i: int)
    requires
        0 <= i < parts.len(),
    ensures
        mentions(Some(joined(parts, separator)), parts[i]),
    decreases parts.len(),
{
    let part = parts[i];
    let text = joined(parts, separator);
    let none = Seq::<char>::empty();
    if parts.len() == 1 {
        assert(text == none + part + none);
    } else if i == parts.len() - 1 {
        let before = joined(parts.drop_last(), separator) + separator;
        assert(text == before + part + none);
    } else {
        lemma_joined_mentions(parts.drop_last(), separator, i);
        let shorter = joined(parts.drop_last(), separator);
        let (before, after) = choose|before: Seq<char>, after: Seq<char>|
            shorter == #[trigger] (before + part + after);
        let more = after + separator + parts.last();
        assert(text == before + part + more);
    }
}

/// Where releases were passed over, or the update may go back to an older version, the note of the
/// update says so, whether there was anything to do or not. Where Windows put the promotion off,
/// it says that too.
pub proof fn law_the_note_tells_all(
    config: UpdaterConfig,
    windows: bool,
    latest: LatestView,
    texts: TextsView,
    promoted: bool,
)
    ensures
        ({
            let pending = PendingView {
                latest_version: latest.version,
                selection_note: latest.selection_note,
                downgrade_risk_note: latest.downgrade_risk_note,
                texts,
            };
            let idle = idle_outcome(config, latest, texts).note;
            let updated = update_outcome(config, windows, pending, promoted).note;
            &&& latest.selection_note matches Some(part) ==> mentions(idle, part) && mentions(
                updated,
                part,
            )
            &&& latest.downgrade_risk_note matches Some(part) ==> mentions(idle, part) && mentions(
                updated,
                part,
            )
            &&& windows && !promoted ==> mentions(
                updated,
                deferred_note(texts.next, texts.installed),
            )
            &&& latest.selection_note is None && latest.downgrade_risk_note is None && (!windows
                || promoted) ==> updated is None
        }),
{
    let selection = listed(latest.selection_note);
    let risk = listed(latest.downgrade_risk_note);
    let deferred = if windows && !promoted {
        listed(Some(deferred_note(texts.next, texts.installed)))
    } else {
        listed(None)
    };
    let idle_line = "no update needed; latest is "@ + latest.version + " and current is "@
        + config.current_version@;
    let idle = seq![idle_line] + selection + risk;
    let notes = selection + risk + deferred;
    if latest.selection_note is Some {
        assert(idle[1] == selection[0]);
        assert(notes[0] == selection[0]);
        lemma_joined_mentions(idle, "; "@, 1);
        lemma_joined_mentions(notes, "; "@, 0);
    }
    if latest.downgrade_risk_note is Some {
        let at = selection.len() as int;
        assert(idle[at + 1] == risk[0]);
        assert(notes[at] == risk[0]);
        lemma_joined_mentions(idle, "; "@, at + 1);
        lemma_joined_mentions(notes, "; "@, at);
    }
    if windows && !promoted {
        let at = (selection.len() + risk.len()) as int;
        assert(notes[at] == deferred[0]);
        lemma_joined_mentions(notes, "; "@, at);
    }
}

/// While an update checks, it stands where the check stands.
#[verifier::spinoff_prover]
proof fn lemma_update_checks(config: UpdaterConfig, host: Host, events: Seq<EventView>)
    requires
        events.len() > 0 ==> check_run(config, host, events.drop_last()) is Do,
    ensures
        update_run(config, host, events) == run_check(
            config,
            host,
            check_run(config, host, events),
        ),
    decreases events.len(),
{
    if events.len() > 0 {
        lemma_update_checks(config, host, events.drop_last());
    }
}

/// While an update stages, it stands where the staging stands.
#[verifier::spinoff_prover]
proof fn lemma_update_stages(
    config: UpdaterConfig,
    host: Host,
    latest: LatestView,
    pending: PendingView,
    before: Seq<EventView>,
    events: Seq<EventView>,
)
    requires
        update_run(config, host, before) == run_stage(
            config,
            host,
            pending,
            stage_begun(config, host, latest),
        ),
        events.len() > 0 ==> stage_run(config, host, latest, events.drop_last()) is Do,
    ensures
        update_run(config, host, before + events) == run_stage(
            config,
            host,
            pending,
            stage_run(config, host, latest, events),
        ),
    decreases events.len(),
{
    if events.len() == 0 {
        assert(before + events == before);
    } else {
        lemma_update_stages(config, host, latest, pending, before, events.drop_last());
        assert((before + events).drop_last() == before + events.drop_last());
    }
}

/// While an update promotes, it stands where the promotion stands.
#[verifier::spinoff_prover]
proof fn lemma_update_promotes(
    config: UpdaterConfig,
    host: Host,
    pending: PendingView,
    before: Seq<EventView>,
    events: Seq<EventView>,
)
    requires
        update_run(config, host, before) == run_promote(
            config,
            host,
            pending,
            promote_begun(config, host),
        ),
        events.len() > 0 ==> promote_run(config, host, events.drop_last()) is Do,
    ensures
        update_run(config, host, before + events) == run_promote(
            config,
            host,
            pending,
            promote_run(config, host, events),
        ),
    decreases events.len(),
{
    if events.len() == 0 {
        assert(before + events == before);
    } else {
        lemma_update_promotes(config, host, pending, before, events.drop_last());
        assert((before + events).drop_last() == before + events.drop_last());
    }
}

/// Whatever an update has done is what its check has done, then the writing out of the paths, then
/// what the staging of the release has done that the check found, and then what the promotion has
/// done: while one of them is at work, the update asks for what that asks for.
#[verifier::spinoff_prover]
pub proof fn law_update_does_what_its_parts_do(
    config: UpdaterConfig,
    host: Host,
    checking: Seq<EventView>,
    texts: TextsView,
    staging: Seq<EventView>,
    promoting: Seq<EventView>,
)
    requires
        checking.len() > 0 ==> check_run(config, host, checking.drop_last()) is Do,
        check_run(config, host, checking) matches StepView::Done(Ok(latest)) ==> {
            &&& staging.len() > 0 ==> stage_run(config, host, latest, staging.drop_last()) is Do
            &&& promoting.len() > 0 ==> promote_run(config, host, promoting.drop_last()) is Do
        },
    ensures
        match check_run(config, host, checking) {
            StepView::Do { action, .. } => update_run(config, host, checking).asks_for(action),
            StepView::Done(Err(_)) => true,
            StepView::Done(Ok(latest)) => config.locations_on(host) matches Ok(locations) ==> {
                let located = checking.push(EventView::Located(texts));
                &&& update_run(config, host, checking).asks_for(ActionView::Locate(locations))
                &&& latest.newer_than_current ==> match stage_run(config, host, latest, staging) {
                    StepView::Do { action, .. } => update_run(
                        config,
                        host,
                        located + staging,
                    ).asks_for(action),
                    StepView::Done(Err(_)) => true,
                    StepView::Done(Ok(_)) => promote_run(config, host, promoting) matches
                        StepView::Do { action, .. } ==> update_run(
                        config,
                        host,
                        located + staging + promoting,
                    ).asks_for(action),
                }
            },
        },
{
    lemma_update_checks(config, host, checking);
    if let StepView::Done(Ok(latest)) = check_run(config, host, checking) {
        let located = checking.push(EventView::Located(texts));
        assert(located.drop_last() == checking);
        if config.locations_on(host) is Ok && latest.newer_than_current {
            let pending = PendingView {
                latest_version: latest.version,
                selection_note: latest.selection_note,
                downgrade_risk_note: latest.downgrade_risk_note,
                texts,
            };
            lemma_update_stages(config, host, latest, pending, located, staging);
            if let StepView::Done(Ok(_)) = stage_run(config, host, latest, staging) {
                lemma_update_promotes(config, host, pending, located + staging, promoting);
            }
        }
    }
}

/// An update is a check, and where that finds a newer release, its staging and then a promotion,
/// each with the events that it would have on its own. It ends as the first of them that fails,
/// or reports that there was nothing to do, or what was staged and whether it was promoted.
#[verifier::spinoff_prover]
pub proof fn law_update_is_check_stage_promote(
    config: UpdaterConfig,
    host: Host,
    checking: Seq<EventView>,
    texts: TextsView,
    staging: Seq<EventView>,
    promoting: Seq<EventView>,
)
    requires
        config.locations_on(host) is Ok,
        checking.len() > 0 ==> check_run(config, host, checking.drop_last()) is Do,
        check_run(config, host, checking) matches StepView::Done(Ok(latest)) ==> {
            &&& staging.len() > 0 ==> stage_run(config, host, latest, staging.drop_last()) is Do
            &&& promoting.len() > 0 ==> promote_run(config, host, promoting.drop_last()) is Do
        },
    ensures
        match check_run(config, host, checking) {
            StepView::Do { .. } => true,
            StepView::Done(Err(failure)) => update_run(config, host, checking)
                == RunStepView::Done(Err(failure)),
            StepView::Done(Ok(latest)) => {
                let located = checking.push(EventView::Located(texts));
                let pending = PendingView {
                    latest_version: latest.version,
                    selection_note: latest.selection_note,
                    downgrade_risk_note: latest.downgrade_risk_note,
                    texts,
                };
                if !latest.newer_than_current {
                    update_run(config, host, located) == RunStepView::Done(
                        Ok(idle_outcome(config, latest, texts)),
                    )
                } else {
                    match stage_run(config, host, latest, staging) {
                        StepView::Do { .. } => true,
                        StepView::Done(Err(failure)) => update_run(config, host, located + staging)
                            == RunStepView::Done(Err(failure)),
                        StepView::Done(Ok(_)) => match promote_run(config, host, promoting) {
                            StepView::Do { .. } => true,
                            StepView::Done(Err(failure)) => update_run(
                                config,
                                host,
                                located + staging + promoting,
                            ) == RunStepView::Done(Err(failure)),
                            StepView::Done(Ok(promoted)) => update_run(
                                config,
                                host,
                                located + staging + promoting,
                            ) == RunStepView::Done(
                                Ok(
                                    update_outcome(
                                        config,
                                        host.is_windows(),
                                        pending,
                                        promoted is Some,
                                    ),
                                ),
                            ),
                        },
                    }
                }
            },
        },
{
    lemma_update_checks(config, host, checking);
    if let StepView::Done(Ok(latest)) = check_run(config, host, checking) {
        let located = checking.push(EventView::Located(texts));
        assert(located.drop_last() == checking);
        if latest.newer_than_current {
            let pending = PendingView {
                latest_version: latest.version,
                selection_note: latest.selection_note,
                downgrade_risk_note: latest.downgrade_risk_note,
                texts,
            };
            lemma_update_stages(config, host, latest, pending, located, staging);
            if let StepView::Done(Ok(_)) = stage_run(config, host, latest, staging) {
                lemma_update_promotes(config, host, pending, located + staging, promoting);
            }
        }
    }
}

} // verus!
