//! Laws of promotion, step by step: what follows on what came of what was asked.

use crate::config::UpdaterConfig;
use crate::effects::{ActionView, EventView, StepView};
use crate::failure::Messages;
use crate::host::{law_staged_name_differs, Host, PathView, TextsView};
use crate::laws::settings::law_binaries_lie_in_the_dir;
use crate::promote::{promote_run, PromotePhaseView, PromoteStepView};
use vstd::prelude::*;
use vstd::string::*;

verus! {

/// The staged and the installed binary are two files.
pub proof fn law_two_files(config: UpdaterConfig, host: Host)
    ensures
        config.locations_on(host) matches Ok(locations) ==> locations.next != locations.installed,
{
    law_binaries_lie_in_the_dir(config, host);
    law_staged_name_differs(host.is_windows(), config.tool_name@);
}

/// What a promotion asks for, by what it waits for.
pub proof fn lemma_promotion(config: UpdaterConfig, host: Host, events: Seq<EventView>)
    ensures
        promote_run(config, host, events) matches StepView::Do { action, then } ==> {
            let locations = config.locations_on(host)->Ok_0;
            &&& config.locations_on(host) is Ok
            &&& then.host == host
            &&& then.locations == locations
            &&& match then.phase {
                PromotePhaseView::ProbingNext => action == ActionView::Probe(locations.next)
                    && events.len() == 0,
                PromotePhaseView::CreatingParent => action == ActionView::CreateParent(
                    locations.installed,
                ),
                PromotePhaseView::ProbingInstalled => action == ActionView::Probe(
                    locations.installed,
                ) && host.is_windows(),
                PromotePhaseView::MarkingNext => action == ActionView::MarkExecutable(
                    locations.next,
                ),
                PromotePhaseView::Renaming => action == (ActionView::Rename {
                    from: locations.next,
                    to: locations.installed,
                }),
                PromotePhaseView::ExplainingRename { .. } => action == ActionView::Locate(
                    locations,
                ),
                PromotePhaseView::MarkingInstalled => action == ActionView::MarkExecutable(
                    locations.installed,
                ),
            }
        },
    decreases events.len(),
{
    if events.len() > 0 {
        lemma_promotion(config, host, events.drop_last());
    }
}

/// One event more, and what it brings.
proof fn lemma_step(config: UpdaterConfig, host: Host, events: Seq<EventView>, event: EventView)
    ensures
        promote_run(config, host, events.push(event)) == (match promote_run(config, host, events) {
            StepView::Do { then, .. } => then.after(event),
            done => done,
        }),
{
    assert(events.push(event).drop_last() == events);
}

/// Whether the promotion goes on, after `events` and then `event`, with `action`.
pub open spec fn goes_on(
    config: UpdaterConfig,
    host: Host,
    events: Seq<EventView>,
    event: EventView,
    action: ActionView,
) -> bool {
    promote_run(config, host, events.push(event)).asks_for(action)
}

/// Whether the promotion ends, after `events` and then `event`, with `result`.
pub open spec fn ends(
    config: UpdaterConfig,
    host: Host,
    events: Seq<EventView>,
    event: EventView,
    result: Result<Option<PathView>, Messages>,
) -> bool {
    promote_run(config, host, events.push(event)) == PromoteStepView::Done(result)
}

/// A promotion begins with a look for the staged binary, if there is a place for it.
pub proof fn law_promotion_begins(config: UpdaterConfig, host: Host)
    ensures
        match config.locations_on(host) {
            Ok(locations) => promote_run(config, host, seq![]).asks_for(
                ActionView::Probe(locations.next),
            ),
            Err(why) => promote_run(config, host, seq![]) == PromoteStepView::Done(Err(why)),
        },
{
}

/// What follows on each thing that went well. The look for the staged binary: if there is none the
/// promotion ends with nothing promoted, else it sees to the directory. Then, on Windows, the look
/// for the installed one: if there is one it ends with nothing promoted. Then the staged binary is
/// made executable, renamed, and made executable again, and the promotion ends with where it is.
#[verifier::spinoff_prover]
pub proof fn law_promotion_goes_on(
    config: UpdaterConfig,
    host: Host,
    events: Seq<EventView>,
    there: bool,
)
    ensures
        ({
            let places = config.locations_on(host)->Ok_0;
            let step = promote_run(config, host, events);
            let seen = EventView::Exists(there);
            let done = EventView::Finished;
            &&& step.asks_for(ActionView::Probe(places.next)) ==> (if there {
                goes_on(config, host, events, seen, ActionView::CreateParent(places.installed))
            } else {
                ends(config, host, events, seen, Ok(None))
            })
            &&& step.asks_for(ActionView::CreateParent(places.installed)) ==> (if host.is_windows() {
                goes_on(config, host, events, done, ActionView::Probe(places.installed))
            } else {
                goes_on(config, host, events, done, ActionView::MarkExecutable(places.next))
            })
            &&& step.asks_for(ActionView::Probe(places.installed)) ==> (if there {
                ends(config, host, events, seen, Ok(None))
            } else {
                goes_on(config, host, events, seen, ActionView::MarkExecutable(places.next))
            })
            &&& step.asks_for(ActionView::MarkExecutable(places.next)) ==> goes_on(
                config,
                host,
                events,
                done,
                ActionView::Rename { from: places.next, to: places.installed },
            )
            &&& step.asks_for(ActionView::Rename { from: places.next, to: places.installed }) ==> goes_on(
                config,
                host,
                events,
                done,
                ActionView::MarkExecutable(places.installed),
            )
            &&& step.asks_for(ActionView::MarkExecutable(places.installed)) ==> ends(
                config,
                host,
                events,
                done,
                Ok(Some(places.installed)),
            )
        }),
{
    lemma_promotion(config, host, events);
    law_two_files(config, host);
    lemma_step(config, host, events, EventView::Exists(there));
    lemma_step(config, host, events, EventView::Finished);
}

/// What could not be done ends the promotion with the reason as it came, but for a rename: then it
/// asks how the paths are written, and puts before the reason what was to go where.
#[verifier::spinoff_prover]
pub proof fn law_promotion_fails(
    config: UpdaterConfig,
    host: Host,
    events: Seq<EventView>,
    why: Messages,
    texts: TextsView,
)
    ensures
        ({
            let places = config.locations_on(host)->Ok_0;
            let failed = EventView::Failed(why);
            promote_run(config, host, events) matches StepView::Do { action, .. } ==> match action {
                ActionView::Rename { .. } => {
                    &&& goes_on(config, host, events, failed, ActionView::Locate(places))
                    &&& ends(
                        config,
                        host,
                        events.push(failed),
                        EventView::Located(texts),
                        Err(seq!["promote "@ + texts.next + " -> "@ + texts.installed] + why),
                    )
                },
                ActionView::CreateParent(_) => ends(config, host, events, failed, Err(why)),
                ActionView::MarkExecutable(_) => ends(config, host, events, failed, Err(why)),
                _ => true,
            }
        }),
{
    lemma_promotion(config, host, events);
    lemma_step(config, host, events, EventView::Failed(why));
    lemma_step(config, host, events.push(EventView::Failed(why)), EventView::Located(texts));
}

/// Nothing is promoted but at the end of all of it: where a promotion ends with the installed path,
/// the last thing that it had done was to make that file executable, which it was; and where it
/// ends with nothing promoted, it had just looked, and seen no staged binary, or, on Windows, an
/// installed one.
#[verifier::spinoff_prover]
pub proof fn law_promotion_ends(
    config: UpdaterConfig,
    host: Host,
    events: Seq<EventView>,
    event: EventView,
)
    requires
        promote_run(config, host, events) is Do,
    ensures
        ({
            let places = config.locations_on(host)->Ok_0;
            let step = promote_run(config, host, events);
            match promote_run(config, host, events.push(event)) {
                StepView::Done(Ok(Some(path))) => path == places.installed && event
                    == EventView::Finished && step.asks_for(
                    ActionView::MarkExecutable(places.installed),
                ),
                StepView::Done(Ok(None)) => {
                    ||| event == EventView::Exists(false) && step.asks_for(
                        ActionView::Probe(places.next),
                    )
                    ||| host.is_windows() && event == EventView::Exists(true) && step.asks_for(
                        ActionView::Probe(places.installed),
                    )
                },
                _ => true,
            }
        }),
{
    lemma_promotion(config, host, events);
    lemma_step(config, host, events, event);
}

} // verus!
