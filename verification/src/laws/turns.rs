//! Laws of flows that are given an answer to something else than what they asked.

use crate::check::{check_run, CheckPhaseView, CheckStepView};
use crate::config::UpdaterConfig;
use crate::effects::{ActionView, EventView, StepView};
use crate::host::Host;
use crate::laws::outcomes::status_run;
use crate::laws::promotions::lemma_promotion;
use crate::laws::stagings::lemma_waits;
use crate::promote::{promote_run, PromoteStepView};
use crate::stage::{StageStepView, Staging};
use crate::update::{StatusPhaseView, StatusStepView};
use vstd::prelude::*;
use vstd::string::*;

verus! {

/// Whether `event` is an answer to `action`.
pub open spec fn answers(action: ActionView, event: EventView) -> bool {
    match action {
        ActionView::Locate(_) => event is Located,
        ActionView::AskGh(_) => event is Gh,
        ActionView::Send { .. } => event is Http,
        ActionView::ReadBody => event is Body || event is BodyFailed,
        ActionView::NameAssets { .. } => event is Named,
        ActionView::Probe(_) => event is Exists,
        ActionView::ProbeUnpacked(_) => event is Exists,
        _ => event is Finished || event is Failed,
    }
}

/// What a report asks for, by what it waits for.
proof fn lemma_status_asks(config: UpdaterConfig, host: Host, events: Seq<EventView>)
    ensures
        status_run(config, host, events) matches StepView::Do { action, then } ==> match then.phase {
            StatusPhaseView::Locating => action is Locate,
            _ => action is Probe,
        },
    decreases events.len(),
{
    if events.len() > 0 {
        lemma_status_asks(config, host, events.drop_last());
    }
}

/// What a check asks for, by what it waits for.
proof fn lemma_check_asks(config: UpdaterConfig, host: Host, events: Seq<EventView>)
    ensures
        check_run(config, host, events) matches StepView::Do { action, then } ==> match then.phase {
            CheckPhaseView::AskingGh { .. } => action is AskGh,
            CheckPhaseView::Fetching { .. } => action is Send,
            CheckPhaseView::Reading { .. } => action is ReadBody,
            CheckPhaseView::Naming(_) => action is NameAssets,
        },
    decreases events.len(),
{
    if events.len() > 0 {
        lemma_check_asks(config, host, events.drop_last());
    }
}

/// A flow that is given what is no answer to what it asked ends there, and says so.
#[verifier::spinoff_prover]
pub proof fn law_answers_must_fit(staging: Staging, events: Seq<EventView>, event: EventView)
    ensures
        ({
            let Staging { config, host, .. } = staging;
            let more = events.push(event);
            let why = seq!["the answer does not fit what was asked"@];
            &&& status_run(config, host, events) matches StepView::Do { action, .. } ==> (!answers(
                action,
                event,
            ) ==> status_run(config, host, more) == StatusStepView::Done(Err(why)))
            &&& check_run(config, host, events) matches StepView::Do { action, .. } ==> (!answers(
                action,
                event,
            ) ==> check_run(config, host, more) == CheckStepView::Done(Err(why)))
            &&& staging.at(events) matches StepView::Do { action, .. } ==> (!answers(action, event)
                ==> staging.at(more) == StageStepView::Done(Err(why)))
            &&& promote_run(config, host, events) matches StepView::Do { action, .. } ==> (!answers(
                action,
                event,
            ) ==> promote_run(config, host, more) == PromoteStepView::Done(Err(why)))
        }),
{
    let Staging { config, host, .. } = staging;
    assert(events.push(event).drop_last() == events);
    lemma_status_asks(config, host, events);
    lemma_check_asks(config, host, events);
    lemma_waits(staging, events);
    lemma_promotion(config, host, events);
}

} // verus!
