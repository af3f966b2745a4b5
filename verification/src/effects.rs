//! What an update does to the world, and what comes back.
//!
//! The library decides and does not act. A flow hands out an [`Action`]; the program performs it
//! and answers with the [`Event`] that came of it; the flow then hands out the next action, until
//! it is done.

use crate::config::{AssetNames, GhOutput, NamesView};
use crate::failure::{plain, seen, Failure, Messages};
use crate::host::{InstallPath, LocationTexts, Locations, LocationsView, PathView, TextsView};
use crate::http::{HttpReply, HttpRequest, ReplyView, RequestView};
use std::time::Duration;
use vstd::prelude::*;

verus! {

/// One thing to do.
pub enum Action {
    /// Write out the paths. Answered by `Located`.
    Locate(Locations),
    /// Run `gh` with these arguments. Answered by `Gh`.
    AskGh(Vec<String>),
    /// Send a request, and follow redirects or leave them to the flow. Answered by `Http`.
    Send { request: HttpRequest, follow: bool, timeout: Duration },
    /// Read the body of the last response. Answered by `Body` or `BodyFailed`.
    ReadBody,
    /// Have the host program name the assets of a release. Answered by `Named`.
    NameAssets { tool_name: String, version: String, target: String },
    /// Create a directory and those above it. Answered by `Finished` or `Failed`.
    CreateDir(InstallPath),
    /// Create the directory that a file is in, and those above it. Answered by `Finished` or
    /// `Failed`.
    CreateParent(InstallPath),
    /// See whether there is a file. Answered by `Exists`.
    Probe(InstallPath),
    /// Make a temporary directory. Answered by `Finished` or `Failed`.
    MakeTempDir,
    /// Unpack a gzipped tar archive into the temporary directory. Answered by `Finished` or
    /// `Failed`.
    Unpack(Vec<u8>),
    /// See whether there is such a file in the temporary directory. Answered by `Exists`.
    ProbeUnpacked(String),
    /// Copy a file of the temporary directory to a temporary file beside another file. Answered
    /// by `Finished` or `Failed`.
    CopyBeside { unpacked: String, to: InstallPath },
    /// Put the temporary file in the place of the file it was made beside, in one step, whether
    /// or not that is there. Answered by `Finished` or `Failed`.
    Persist(InstallPath),
    /// Make a file executable. Answered by `Finished` or `Failed`.
    MarkExecutable(InstallPath),
    /// Rename a file in one step. Answered by `Finished` or `Failed`.
    Rename { from: InstallPath, to: InstallPath },
}

/// What an [`Action`] holds.
pub enum ActionView {
    Locate(LocationsView),
    AskGh(Seq<Seq<char>>),
    Send { request: RequestView, follow: bool, timeout: Duration },
    ReadBody,
    NameAssets { tool_name: Seq<char>, version: Seq<char>, target: Seq<char> },
    CreateDir(PathView),
    CreateParent(PathView),
    Probe(PathView),
    MakeTempDir,
    Unpack(Seq<u8>),
    ProbeUnpacked(Seq<char>),
    CopyBeside { unpacked: Seq<char>, to: PathView },
    Persist(PathView),
    MarkExecutable(PathView),
    Rename { from: PathView, to: PathView },
}

impl ActionView {
    /// Whether the action changes nothing on the host's disk.
    pub open spec fn harmless(self) -> bool {
        match self {
            ActionView::Locate(_) => true,
            ActionView::AskGh(_) => true,
            ActionView::Send { .. } => true,
            ActionView::ReadBody => true,
            ActionView::NameAssets { .. } => true,
            ActionView::Probe(_) => true,
            ActionView::ProbeUnpacked(_) => true,
            _ => false,
        }
    }
}

impl View for Action {
    type V = ActionView;

    open spec fn view(&self) -> ActionView {
        match self {
            Action::Locate(locations) => ActionView::Locate(locations@),
            Action::AskGh(arguments) => ActionView::AskGh(arguments.deep_view()),
            Action::Send { request, follow, timeout } => ActionView::Send {
                request: request@,
                follow: *follow,
                timeout: *timeout,
            },
            Action::ReadBody => ActionView::ReadBody,
            Action::NameAssets { tool_name, version, target } => ActionView::NameAssets {
                tool_name: tool_name@,
                version: version@,
                target: target@,
            },
            Action::CreateDir(path) => ActionView::CreateDir(path@),
            Action::CreateParent(path) => ActionView::CreateParent(path@),
            Action::Probe(path) => ActionView::Probe(path@),
            Action::MakeTempDir => ActionView::MakeTempDir,
            Action::Unpack(archive) => ActionView::Unpack(archive@),
            Action::ProbeUnpacked(path) => ActionView::ProbeUnpacked(path@),
            Action::CopyBeside { unpacked, to } => ActionView::CopyBeside {
                unpacked: unpacked@,
                to: to@,
            },
            Action::Persist(path) => ActionView::Persist(path@),
            Action::MarkExecutable(path) => ActionView::MarkExecutable(path@),
            Action::Rename { from, to } => ActionView::Rename { from: from@, to: to@ },
        }
    }
}

/// What came of an action.
pub enum Event {
    /// How the platform writes the paths.
    Located(LocationTexts),
    /// What `gh` gave, if it could be run.
    Gh(Option<GhOutput>),
    /// What came of a request.
    Http(HttpReply),
    /// The body of a response.
    Body(Vec<u8>),
    /// The body could not be read, maybe because it took too long.
    BodyFailed { timed_out: bool, failure: Failure },
    /// The names that the host program gives to the assets of a release.
    Named(Result<AssetNames, Failure>),
    /// Whether there is a file.
    Exists(bool),
    /// It was done.
    Finished,
    /// It could not be done.
    Failed(Failure),
}

/// What an [`Event`] holds.
pub enum EventView {
    Located(TextsView),
    Gh(Option<GhOutput>),
    Http(ReplyView),
    Body(Seq<u8>),
    BodyFailed { timed_out: bool, failure: Messages },
    Named(Result<NamesView, Messages>),
    Exists(bool),
    Finished,
    Failed(Messages),
}

impl View for Event {
    type V = EventView;

    open spec fn view(&self) -> EventView {
        match self {
            Event::Located(texts) => EventView::Located(texts@),
            Event::Gh(output) => EventView::Gh(*output),
            Event::Http(reply) => EventView::Http(reply@),
            Event::Body(body) => EventView::Body(body@),
            Event::BodyFailed { timed_out, failure } => EventView::BodyFailed {
                timed_out: *timed_out,
                failure: failure@,
            },
            Event::Named(names) => EventView::Named(seen(*names)),
            Event::Exists(exists) => EventView::Exists(*exists),
            Event::Finished => EventView::Finished,
            Event::Failed(failure) => EventView::Failed(failure@),
        }
    }
}

/// Where a flow stands: at something to do, or at its end.
pub enum Step<F, T> {
    /// Something is to be done, and `then` goes on with what comes of it.
    Do { action: Action, then: F },
    /// The flow has ended.
    Done(Result<T, Failure>),
}

/// What a [`Step`] holds.
pub enum StepView<F, T> {
    Do { action: ActionView, then: F },
    Done(Result<T, Messages>),
}

impl<F, T> StepView<F, T> {
    /// Whether `action` is what is to be done.
    pub open spec fn asks_for(self, action: ActionView) -> bool {
        self matches StepView::Do { action: asked, .. } && asked == action
    }

    /// Whether the flow has ended well.
    pub open spec fn succeeded(self) -> bool {
        self matches StepView::Done(result) && result is Ok
    }
}

impl<F: View, T: DeepView> View for Step<F, T> {
    type V = StepView<F::V, T::V>;

    open spec fn view(&self) -> StepView<F::V, T::V> {
        match self {
            Step::Do { action, then } => StepView::Do { action: action@, then: then@ },
            Step::Done(result) => StepView::Done(seen(*result)),
        }
    }
}

/// The failure of a flow that was given an event that is no answer to its action.
pub open spec fn out_of_turn() -> Messages {
    plain("the answer does not fit what was asked"@)
}

/// The failure of a flow that was given an event that is no answer to its action.
pub fn unexpected_answer() -> (r: Failure)
    ensures
        r@ == out_of_turn(),
{
    Failure::new("the answer does not fit what was asked".to_owned())
}

} // verus!
