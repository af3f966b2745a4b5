//! Laws of the hook at the start of a tool: what it does and says, step by step.

use crate::host::{deferred_note, staged_name, Family, Host};
use crate::startup::{startup_begun, StartupActionView, StartupEventView, StartupStepView};
use vstd::prelude::*;
use vstd::string::*;

verus! {

/// Where the hook stands once `events` have come back, one after the other.
pub open spec fn startup_run(
    host: Host,
    tool: Seq<char>,
    events: Seq<StartupEventView>,
) -> StartupStepView
    decreases events.len(),
{
    if events.len() == 0 {
        startup_begun(host, tool)
    } else {
        match startup_run(host, tool, events.drop_last()).next {
            Some((_, then)) => then.after(events.last()),
            None => StartupStepView { say: seq![], next: None },
        }
    }
}

/// One event more, and what it brings.
proof fn lemma_step(
    host: Host,
    tool: Seq<char>,
    events: Seq<StartupEventView>,
    event: StartupEventView,
)
    ensures
        startup_run(host, tool, events.push(event)) == (match startup_run(
            host,
            tool,
            events,
        ).next {
            Some((_, then)) => then.after(event),
            None => StartupStepView { say: seq![], next: None },
        }),
{
    assert(events.push(event).drop_last() == events);
}

/// Whether the hook says nothing and goes on with `action`.
pub open spec fn silently(step: StartupStepView, action: StartupActionView) -> bool {
    step.say.len() == 0 && (step.next matches Some((asked, _)) && asked == action)
}

/// Whether the hook says `line`, and nothing else, and is over.
pub open spec fn last_words(step: StartupStepView, line: Seq<char>) -> bool {
    step.say == seq![line] && step.next is None
}

/// The hook finds out where the running binary is, and then looks for what is staged beside it.
/// Where it cannot find out, it says so and is over.
pub proof fn law_startup_looks(host: Host, tool: Seq<char>, error: Seq<char>)
    ensures
        ({
            let none = Seq::<StartupEventView>::empty();
            let found = none.push(StartupEventView::Finished);
            let lost = none.push(StartupEventView::Failed(error));
            &&& silently(startup_run(host, tool, none), StartupActionView::FindSelf)
            &&& silently(
                startup_run(host, tool, found),
                StartupActionView::ProbeSibling(staged_name(host.is_windows(), tool)),
            )
            &&& last_words(
                startup_run(host, tool, lost),
                "warning: "@ + tool + " could not resolve current_exe: "@ + error,
            )
        }),
{
    let none = Seq::<StartupEventView>::empty();
    lemma_step(host, tool, none, StartupEventView::Finished);
    lemma_step(host, tool, none, StartupEventView::Failed(error));
    assert(startup_run(host, tool, none) == startup_begun(host, tool));
}

/// What has come back once the hook has looked.
pub open spec fn looked(exists: bool, staged: Seq<char>, current: Seq<char>) -> Seq<
    StartupEventView,
> {
    seq![StartupEventView::Finished].push(StartupEventView::Staged { exists, staged, current })
}

/// How the hook has come to have looked.
proof fn lemma_looked(
    host: Host,
    tool: Seq<char>,
    exists: bool,
    staged: Seq<char>,
    current: Seq<char>,
)
    ensures
        ({
            let found = startup_run(host, tool, seq![StartupEventView::Finished]);
            &&& startup_begun(host, tool).next matches Some((_, begun))
            &&& found == begun.after(StartupEventView::Finished)
            &&& found.next matches Some((_, then))
            &&& startup_run(host, tool, looked(exists, staged, current)) == then.after(
                StartupEventView::Staged { exists, staged, current },
            )
        }),
{
    let none = Seq::<StartupEventView>::empty();
    let found = none.push(StartupEventView::Finished);
    assert(found == seq![StartupEventView::Finished]);
    assert(startup_run(host, tool, none) == startup_begun(host, tool));
    lemma_step(host, tool, none, StartupEventView::Finished);
    lemma_step(host, tool, found, StartupEventView::Staged { exists, staged, current });
}

/// Where nothing is staged the hook is over and has nothing to say. Where something is, Unix goes on
/// to make it executable; Windows says that the promotion is put off, and any other platform that
/// there can be none, and there the hook is over.
pub proof fn law_startup_sees(
    host: Host,
    tool: Seq<char>,
    staged: Seq<char>,
    current: Seq<char>,
)
    ensures
        ({
            let absent = startup_run(host, tool, looked(false, staged, current));
            let there = startup_run(host, tool, looked(true, staged, current));
            &&& absent.say.len() == 0
            &&& absent.next is None
            &&& match host.family {
                Family::Unix => silently(there, StartupActionView::MarkStaged),
                Family::Windows => last_words(
                    there,
                    "warning: "@ + deferred_note(staged, current),
                ),
                Family::Other => last_words(
                    there,
                    "warning: staged "@ + tool + " update "@ + staged
                        + " cannot be promoted on this platform"@,
                ),
            }
        }),
{
    lemma_looked(host, tool, false, staged, current);
    lemma_looked(host, tool, true, staged, current);
}

/// On Unix what is staged is made executable, put in the place of the running binary, and made
/// executable there; then the hook says that the update is applied, and restarts. What fails before
/// it is in place is told, with the staged file and the reason, and the hook is over. Where it could
/// not be made executable in its place, that is told first, with that file, and the hook restarts
/// all the same. Where the restart fails, that is told, and the hook is over.
#[verifier::spinoff_prover]
pub proof fn law_startup_promotes(
    host: Host,
    tool: Seq<char>,
    staged: Seq<char>,
    current: Seq<char>,
    error: Seq<char>,
)
    requires
        host.family is Unix,
    ensures
        ({
            let done = StartupEventView::Finished;
            let failed = StartupEventView::Failed(error);
            let there = looked(true, staged, current);
            let marked = there.push(done);
            let moved = marked.push(done);
            let ready = moved.push(done);
            let maybe = moved.push(failed);
            let applied = "Applied staged "@ + tool + " update"@;
            &&& last_words(
                startup_run(host, tool, there.push(failed)),
                "warning: staged "@ + tool + " update "@ + staged
                    + " is not promotable: chmod 0755 failed: "@ + error,
            )
            &&& silently(startup_run(host, tool, marked), StartupActionView::PromoteStaged)
            &&& last_words(
                startup_run(host, tool, marked.push(failed)),
                "warning: failed to promote staged "@ + tool + " update "@ + staged + ": "@ + error,
            )
            &&& silently(startup_run(host, tool, moved), StartupActionView::MarkSelf)
            &&& startup_run(host, tool, ready).say == seq![applied]
            &&& startup_run(host, tool, ready).next matches Some((action, _))
            &&& action == StartupActionView::Restart
            &&& startup_run(host, tool, maybe).say == seq![
                "warning: promoted "@ + tool + " update "@ + current
                    + " may not be executable: chmod 0755 failed: "@ + error,
                applied,
            ]
            &&& startup_run(host, tool, maybe).next matches Some((again, _))
            &&& again == StartupActionView::Restart
            &&& last_words(
                startup_run(host, tool, ready.push(failed)),
                "warning: failed to re-exec after staged "@ + tool + " update: "@ + error,
            )
            &&& last_words(
                startup_run(host, tool, maybe.push(failed)),
                "warning: failed to re-exec after staged "@ + tool + " update: "@ + error,
            )
        }),
{
    let done = StartupEventView::Finished;
    let failed = StartupEventView::Failed(error);
    let there = looked(true, staged, current);
    let marked = there.push(done);
    let moved = marked.push(done);
    let ready = moved.push(done);
    let maybe = moved.push(failed);
    lemma_looked(host, tool, true, staged, current);
    lemma_step(host, tool, there, done);
    lemma_step(host, tool, there, failed);
    lemma_step(host, tool, marked, done);
    lemma_step(host, tool, marked, failed);
    lemma_step(host, tool, moved, done);
    lemma_step(host, tool, moved, failed);
    lemma_step(host, tool, ready, failed);
    lemma_step(host, tool, maybe, failed);
}

} // verus!
