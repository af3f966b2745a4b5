//! The hook at the start of a tool: a staged update of the running binary is put in its place
//! before anything else happens.
//!
//! The hook has no way to fail. What goes wrong is told to the user, and the tool goes on.

use crate::host::{
    deferred_note, staged_executable_file_name, staged_name, windows_deferred_promotion_note,
    Family, Host,
};
use vstd::prelude::*;
use vstd::string::*;

verus! {

/// One thing that the hook has done.
#[derive(Debug, Clone)]
pub enum StartupAction {
    /// Find out where the running binary is. Answered by `Finished` or `Failed`.
    FindSelf,
    /// See whether a file of this name lies beside it. Answered by `Staged`.
    ProbeSibling(String),
    /// Make that file executable. Answered by `Finished` or `Failed`.
    MarkStaged,
    /// Rename that file to the running binary in one step. Answered by `Finished` or `Failed`.
    PromoteStaged,
    /// Make the file of the running binary executable. Answered by `Finished` or `Failed`.
    MarkSelf,
    /// Go on as the binary that is there now, with the same arguments. Only a failure comes back,
    /// as `Failed`.
    Restart,
}

/// What a [`StartupAction`] holds.
pub enum StartupActionView {
    FindSelf,
    ProbeSibling(Seq<char>),
    MarkStaged,
    PromoteStaged,
    MarkSelf,
    Restart,
}

impl View for StartupAction {
    type V = StartupActionView;

    open spec fn view(&self) -> StartupActionView {
        match self {
            StartupAction::FindSelf => StartupActionView::FindSelf,
            StartupAction::ProbeSibling(name) => StartupActionView::ProbeSibling(name@),
            StartupAction::MarkStaged => StartupActionView::MarkStaged,
            StartupAction::PromoteStaged => StartupActionView::PromoteStaged,
            StartupAction::MarkSelf => StartupActionView::MarkSelf,
            StartupAction::Restart => StartupActionView::Restart,
        }
    }
}

/// What came of an action.
#[derive(Debug, Clone)]
pub enum StartupEvent {
    /// It was done.
    Finished,
    /// It could not be done, for this reason.
    Failed(String),
    /// Whether there is a staged file, and how the platform writes its path and that of the
    /// running binary.
    Staged { exists: bool, staged: String, current: String },
}

/// What a [`StartupEvent`] holds.
pub enum StartupEventView {
    Finished,
    Failed(Seq<char>),
    Staged { exists: bool, staged: Seq<char>, current: Seq<char> },
}

impl View for StartupEvent {
    type V = StartupEventView;

    open spec fn view(&self) -> StartupEventView {
        match self {
            StartupEvent::Finished => StartupEventView::Finished,
            StartupEvent::Failed(error) => StartupEventView::Failed(error@),
            StartupEvent::Staged { exists, staged, current } => StartupEventView::Staged {
                exists: *exists,
                staged: staged@,
                current: current@,
            },
        }
    }
}

/// The hook under way.
#[derive(Debug)]
pub struct StartupFlow<'a> {
    host: &'a Host,
    tool_name: String,
    phase: StartupPhase,
}

#[derive(Debug)]
enum StartupPhase {
    Finding,
    Probing,
    MarkingStaged { staged: String, current: String },
    Promoting { staged: String, current: String },
    MarkingSelf { current: String },
    Restarting,
}

/// What a [`StartupFlow`] holds.
pub struct StartupView {
    pub host: Host,
    pub tool_name: Seq<char>,
    pub phase: StartupPhaseView,
}

/// What the hook is waiting for.
pub enum StartupPhaseView {
    /// Where the running binary is.
    Finding,
    /// Whether there is a staged file.
    Probing,
    /// That the staged file is executable.
    MarkingStaged { staged: Seq<char>, current: Seq<char> },
    /// That it is in its place.
    Promoting { staged: Seq<char>, current: Seq<char> },
    /// That it is executable there.
    MarkingSelf { current: Seq<char> },
    /// That it takes over.
    Restarting,
}

impl View for StartupPhase {
    type V = StartupPhaseView;

    closed spec fn view(&self) -> StartupPhaseView {
        match self {
            StartupPhase::Finding => StartupPhaseView::Finding,
            StartupPhase::Probing => StartupPhaseView::Probing,
            StartupPhase::MarkingStaged { staged, current } => StartupPhaseView::MarkingStaged {
                staged: staged@,
                current: current@,
            },
            StartupPhase::Promoting { staged, current } => StartupPhaseView::Promoting {
                staged: staged@,
                current: current@,
            },
            StartupPhase::MarkingSelf { current } => StartupPhaseView::MarkingSelf {
                current: current@,
            },
            StartupPhase::Restarting => StartupPhaseView::Restarting,
        }
    }
}

impl<'a> View for StartupFlow<'a> {
    type V = StartupView;

    closed spec fn view(&self) -> StartupView {
        StartupView { host: *self.host, tool_name: self.tool_name@, phase: self.phase@ }
    }
}

/// Where the hook stands: what it has to say, line by line, and then something to do, or nothing
/// more.
#[derive(Debug)]
pub struct StartupStep<'a> {
    pub say: Vec<String>,
    pub next: Option<(StartupAction, StartupFlow<'a>)>,
}

/// What a [`StartupStep`] holds.
pub struct StartupStepView {
    pub say: Seq<Seq<char>>,
    pub next: Option<(StartupActionView, StartupView)>,
}

impl<'a> View for StartupStep<'a> {
    type V = StartupStepView;

    open spec fn view(&self) -> StartupStepView {
        StartupStepView {
            say: self.say.deep_view(),
            next: match self.next {
                Some((action, then)) => Some((action@, then@)),
                None => None,
            },
        }
    }
}

/// The hook that has nothing more to do and says `line`.
pub open spec fn over(line: Seq<char>) -> StartupStepView {
    StartupStepView { say: seq![line], next: None }
}

/// The hook at its start.
pub open spec fn startup_begun(host: Host, tool_name: Seq<char>) -> StartupStepView {
    StartupView { host, tool_name, phase: StartupPhaseView::Finding }.doing(
        StartupActionView::FindSelf,
        StartupPhaseView::Finding,
    )
}

impl StartupView {
    /// The hook that waits in `phase` for what comes of `action`, and says nothing.
    pub open spec fn doing(
        self,
        action: StartupActionView,
        phase: StartupPhaseView,
    ) -> StartupStepView {
        StartupStepView { say: seq![], next: Some((action, StartupView { phase, ..self })) }
    }

    /// The hook that gives way to the new binary, and says `lines` and that it has applied the
    /// update.
    pub open spec fn restart(self, lines: Seq<Seq<char>>) -> StartupStepView {
        StartupStepView {
            say: lines.push("Applied staged "@ + self.tool_name + " update"@),
            next: Some(
                (
                    StartupActionView::Restart,
                    StartupView { phase: StartupPhaseView::Restarting, ..self },
                ),
            ),
        }
    }

    /// What the hook comes to with an event.
    pub open spec fn after(self, event: StartupEventView) -> StartupStepView {
        let tool = self.tool_name;
        match (self.phase, event) {
            (StartupPhaseView::Finding, StartupEventView::Failed(error)) => over(
                "warning: "@ + tool + " could not resolve current_exe: "@ + error,
            ),
            (StartupPhaseView::Finding, StartupEventView::Finished) => self.doing(
                StartupActionView::ProbeSibling(staged_name(self.host.is_windows(), tool)),
                StartupPhaseView::Probing,
            ),
            (
                StartupPhaseView::Probing,
                StartupEventView::Staged { exists, staged, current },
            ) => if !exists {
                StartupStepView { say: seq![], next: None }
            } else {
                match self.host.family {
                    Family::Windows => over("warning: "@ + deferred_note(staged, current)),
                    Family::Unix => self.doing(
                        StartupActionView::MarkStaged,
                        StartupPhaseView::MarkingStaged { staged, current },
                    ),
                    Family::Other => over(
                        "warning: staged "@ + tool + " update "@ + staged
                            + " cannot be promoted on this platform"@,
                    ),
                }
            },
            (
                StartupPhaseView::MarkingStaged { staged, .. },
                StartupEventView::Failed(error),
            ) => over(
                "warning: staged "@ + tool + " update "@ + staged
                    + " is not promotable: chmod 0755 failed: "@ + error,
            ),
            (
                StartupPhaseView::MarkingStaged { staged, current },
                StartupEventView::Finished,
            ) => self.doing(
                StartupActionView::PromoteStaged,
                StartupPhaseView::Promoting { staged, current },
            ),
            (StartupPhaseView::Promoting { staged, .. }, StartupEventView::Failed(error)) => over(
                "warning: failed to promote staged "@ + tool + " update "@ + staged + ": "@ + error,
            ),
            (StartupPhaseView::Promoting { current, .. }, StartupEventView::Finished) =>
                self.doing(StartupActionView::MarkSelf, StartupPhaseView::MarkingSelf { current }),
            (StartupPhaseView::MarkingSelf { current }, StartupEventView::Failed(error)) =>
                self.restart(
                seq![
                    "warning: promoted "@ + tool + " update "@ + current
                        + " may not be executable: chmod 0755 failed: "@ + error,
                ],
            ),
            (StartupPhaseView::MarkingSelf { .. }, StartupEventView::Finished) => self.restart(
                seq![],
            ),
            (StartupPhaseView::Restarting, StartupEventView::Failed(error)) => over(
                "warning: failed to re-exec after staged "@ + tool + " update: "@ + error,
            ),
            _ => StartupStepView { say: seq![], next: None },
        }
    }
}

/// The hook that has nothing more to do and says `line`.
fn say_and_end<'a>(line: String) -> (r: StartupStep<'a>)
    ensures
        r@ == over(line@),
{
    let mut say: Vec<String> = Vec::new();
    say.push(line);
    proof {
        assert(say.deep_view() =~= seq![line@]);
    }
    StartupStep { say, next: None }
}

/// The hook that has nothing more to do or to say.
fn end<'a>() -> (r: StartupStep<'a>)
    ensures
        r@ == (StartupStepView { say: seq![], next: None }),
{
    let say: Vec<String> = Vec::new();
    proof {
        assert(say.deep_view() =~= Seq::<Seq<char>>::empty());
    }
    StartupStep { say, next: None }
}

impl<'a> StartupFlow<'a> {
    /// The hook at its start, for the tool `tool_name` on `host`.
    pub fn start(host: &'a Host, tool_name: &str) -> (r: StartupStep<'a>)
        ensures
            r@ == startup_begun(*host, tool_name@),
    {
        StartupFlow {
            host,
            tool_name: tool_name.to_owned(),
            phase: StartupPhase::Finding,
        }.doing(StartupAction::FindSelf, StartupPhase::Finding)
    }

    /// The hook that waits in `phase` for what comes of `action`, and says nothing.
    fn doing(self, action: StartupAction, phase: StartupPhase) -> (r: StartupStep<'a>)
        ensures
            r@ == self@.doing(action@, phase@),
    {
        let say: Vec<String> = Vec::new();
        proof {
            assert(say.deep_view() =~= Seq::<Seq<char>>::empty());
        }
        StartupStep { say, next: Some((action, StartupFlow { phase, ..self })) }
    }

    /// The hook that gives way to the new binary, and says `lines` and that it has applied the
    /// update.
    fn restart(self, lines: Vec<String>) -> (r: StartupStep<'a>)
        ensures
            r@ == self@.restart(lines.deep_view()),
    {
        let mut say: Vec<String> = lines;
        let ghost before = say.deep_view();
        let applied: String = "Applied staged ".to_owned().concat(self.tool_name.as_str()).concat(
            " update",
        );
        say.push(applied);
        proof {
            assert(say.deep_view() =~= before.push(applied@));
        }
        StartupStep {
            say,
            next: Some(
                (
                    StartupAction::Restart,
                    StartupFlow { phase: StartupPhase::Restarting, ..self },
                ),
            ),
        }
    }

    /// What the hook comes to with an event.
    pub fn advance(self, event: StartupEvent) -> (r: StartupStep<'a>)
        ensures
            r@ == self@.after(event@),
    {
        let StartupFlow { host, tool_name, phase } = self;
        let tool: String = tool_name.clone();
        let flow = StartupFlow { host, tool_name, phase: StartupPhase::Finding };
        match (phase, event) {
            (StartupPhase::Finding, StartupEvent::Failed(error)) => say_and_end(
                "warning: ".to_owned().concat(tool.as_str()).concat(
                    " could not resolve current_exe: ",
                ).concat(error.as_str()),
            ),
            (StartupPhase::Finding, StartupEvent::Finished) => {
                let name: String = staged_executable_file_name(host, tool.as_str());
                flow.doing(StartupAction::ProbeSibling(name), StartupPhase::Probing)
            },
            (StartupPhase::Probing, StartupEvent::Staged { exists, staged, current }) => {
                if !exists {
                    return end();
                }
                match host.family {
                    Family::Windows => {
                        let note: String = windows_deferred_promotion_note(
                            staged.as_str(),
                            current.as_str(),
                        );
                        say_and_end("warning: ".to_owned().concat(note.as_str()))
                    },
                    Family::Unix => flow.doing(
                        StartupAction::MarkStaged,
                        StartupPhase::MarkingStaged { staged, current },
                    ),
                    Family::Other => say_and_end(
                        "warning: staged ".to_owned().concat(tool.as_str()).concat(
                            " update ",
                        ).concat(staged.as_str()).concat(" cannot be promoted on this platform"),
                    ),
                }
            },
            (
                StartupPhase::MarkingStaged { staged, .. },
                StartupEvent::Failed(error),
            ) => say_and_end(
                "warning: staged ".to_owned().concat(tool.as_str()).concat(" update ").concat(
                    staged.as_str(),
                ).concat(" is not promotable: chmod 0755 failed: ").concat(error.as_str()),
            ),
            (
                StartupPhase::MarkingStaged { staged, current },
                StartupEvent::Finished,
            ) => flow.doing(
                StartupAction::PromoteStaged,
                StartupPhase::Promoting { staged, current },
            ),
            (
                StartupPhase::Promoting { staged, .. },
                StartupEvent::Failed(error),
            ) => say_and_end(
                "warning: failed to promote staged ".to_owned().concat(tool.as_str()).concat(
                    " update ",
                ).concat(staged.as_str()).concat(": ").concat(error.as_str()),
            ),
            (StartupPhase::Promoting { current, .. }, StartupEvent::Finished) => flow.doing(
                StartupAction::MarkSelf,
                StartupPhase::MarkingSelf { current },
            ),
            (StartupPhase::MarkingSelf { current }, StartupEvent::Failed(error)) => {
                let warning: String = "warning: promoted ".to_owned().concat(
                    tool.as_str(),
                ).concat(" update ").concat(current.as_str()).concat(
                    " may not be executable: chmod 0755 failed: ",
                ).concat(error.as_str());
                let mut lines: Vec<String> = Vec::new();
                lines.push(warning);
                proof {
                    assert(lines.deep_view() =~= seq![warning@]);
                }
                flow.restart(lines)
            },
            (StartupPhase::MarkingSelf { .. }, StartupEvent::Finished) => {
                let lines: Vec<String> = Vec::new();
                proof {
                    assert(lines.deep_view() =~= Seq::<Seq<char>>::empty());
                }
                flow.restart(lines)
            },
            (StartupPhase::Restarting, StartupEvent::Failed(error)) => say_and_end(
                "warning: failed to re-exec after staged ".to_owned().concat(
                    tool.as_str(),
                ).concat(" update: ").concat(error.as_str()),
            ),
            _ => end(),
        }
    }
}

/// What the hook has done where `events` come back, one after the other, from where it stands.
pub open spec fn startup_actions(
    step: StartupStepView,
    events: Seq<StartupEventView>,
) -> Seq<StartupActionView>
    decreases events.len(),
{
    match step.next {
        None => seq![],
        Some((action, flow)) => if events.len() == 0 {
            seq![action]
        } else {
            seq![action] + startup_actions(flow.after(events[0]), events.drop_first())
        },
    }
}

impl StartupPhaseView {
    /// How far the hook has come.
    spec fn rank(self) -> int {
        match self {
            StartupPhaseView::Finding => 0,
            StartupPhaseView::Probing => 1,
            StartupPhaseView::MarkingStaged { .. } => 2,
            StartupPhaseView::Promoting { .. } => 3,
            StartupPhaseView::MarkingSelf { .. } => 4,
            StartupPhaseView::Restarting => 5,
        }
    }
}

impl StartupActionView {
    /// The place of the action in the order of all.
    pub open spec fn rank(self) -> int {
        match self {
            StartupActionView::FindSelf => 0,
            StartupActionView::ProbeSibling(_) => 1,
            StartupActionView::MarkStaged => 2,
            StartupActionView::PromoteStaged => 3,
            StartupActionView::MarkSelf => 4,
            StartupActionView::Restart => 5,
        }
    }
}

/// What the hook does from some point on, in order.
#[verifier::spinoff_prover]
proof fn lemma_startup_actions(
    action: StartupActionView,
    flow: StartupView,
    say: Seq<Seq<char>>,
    events: Seq<StartupEventView>,
)
    requires
        action.rank() == flow.phase.rank(),
        flow.host.family == Family::Unix || flow.phase.rank() <= 1,
    ensures
        ({
            let done = startup_actions(StartupStepView { say, next: Some((action, flow)) }, events);
            &&& done.len() <= 6 - action.rank()
            &&& forall|k: int|
                0 <= k < done.len() ==> (#[trigger] done[k]).rank() == action.rank() + k && (
                flow.host.family == Family::Unix || done[k].rank() <= 1)
        }),
    decreases events.len(),
{
    let step = StartupStepView { say, next: Some((action, flow)) };
    let done = startup_actions(step, events);
    if events.len() > 0 {
        let later = flow.after(events[0]);
        let rest = startup_actions(later, events.drop_first());
        assert(done == seq![action] + rest);
        if let Some((next, then)) = later.next {
            lemma_startup_actions(next, then, later.say, events.drop_first());
            assert(later == (StartupStepView { say: later.say, next: Some((next, then)) }));
            assert forall|k: int| 0 <= k < done.len() implies (#[trigger] done[k]).rank()
                == action.rank() + k && (flow.host.family == Family::Unix || done[k].rank()
                <= 1) by {
                if k > 0 {
                    assert(done[k] == rest[k - 1]);
                }
            }
        }
    }
}

/// Whatever comes back, the hook comes to an end after at most six actions, and does them in one
/// order: it finds the running binary, looks for the staged one, makes that executable, puts it in
/// place, makes it executable there, and goes on as it. Only on Unix does it do more than look.
#[verifier::spinoff_prover]
pub proof fn law_startup_order(
    host: Host,
    tool_name: Seq<char>,
    events: Seq<StartupEventView>,
)
    ensures
        ({
            let done = startup_actions(startup_begun(host, tool_name), events);
            &&& done.len() <= 6
            &&& forall|k: int|
                0 <= k < done.len() ==> (#[trigger] done[k]).rank() == k && (host.family
                    == Family::Unix || k <= 1)
        }),
{
    let step = startup_begun(host, tool_name);
    let (action, flow) = step.next->0;
    lemma_startup_actions(action, flow, step.say, events);
    assert(step == (StartupStepView { say: step.say, next: Some((action, flow)) }));
}

} // verus!
