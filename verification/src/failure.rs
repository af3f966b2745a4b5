//! Why an operation did not succeed.

use crate::text::{join, joined};
use vstd::prelude::*;

verus! {

/// A failure: what went wrong, and below it what that came from, if anything did.
#[derive(Debug, Clone)]
pub struct Failure {
    /// The outermost message.
    pub message: String,
    /// The messages below it, each the cause of the one before.
    pub causes: Vec<String>,
}

impl View for Failure {
    type V = Seq<Seq<char>>;

    /// The messages, outermost first.
    open spec fn view(&self) -> Seq<Seq<char>> {
        seq![self.message@] + self.causes.deep_view()
    }
}

impl DeepView for Failure {
    type V = Seq<Seq<char>>;

    open spec fn deep_view(&self) -> Seq<Seq<char>> {
        self@
    }
}

/// The messages of a failure, outermost first.
pub type Messages = Seq<Seq<char>>;

/// What an operation came to: the value it gave or the messages of its failure.
pub open spec fn seen<T: DeepView>(result: Result<T, Failure>) -> Result<T::V, Messages> {
    match result {
        Ok(value) => Ok(value.deep_view()),
        Err(failure) => Err(failure@),
    }
}

/// The failure whose one message is `reason`.
pub open spec fn plain(reason: Seq<char>) -> Messages {
    seq![reason]
}

/// `cause` seen as the cause of the message `context`.
pub open spec fn in_context(context: Seq<char>, cause: Messages) -> Messages {
    seq![context] + cause
}

/// All messages of a failure on one line, outermost first.
pub open spec fn one_line(failure: Messages) -> Seq<char> {
    joined(failure, ": "@)
}

impl Failure {
    /// The failure whose one message is `reason`.
    pub fn new(reason: String) -> (r: Failure)
        ensures
            r@ == plain(reason@),
    {
        let r = Failure { message: reason, causes: Vec::new() };
        proof {
            assert(r@ =~= plain(reason@));
        }
        r
    }

    /// This failure as the cause of the message `context`.
    pub fn context(self, context: String) -> (r: Failure)
        ensures
            r@ == in_context(context@, self@),
    {
        let ghost before = self@;
        let mut causes: Vec<String> = self.causes;
        causes.insert(0, self.message);
        let r = Failure { message: context, causes };
        proof {
            assert(r@ =~= in_context(context@, before));
        }
        r
    }

    /// All messages on one line, outermost first, parted by colons.
    pub fn full_message(&self) -> (r: String)
        ensures
            r@ == one_line(self@),
    {
        let mut parts: Vec<String> = Vec::new();
        parts.push(self.message.clone());
        let mut i: usize = 0;
        while i < self.causes.len()
            invariant
                i <= self.causes@.len(),
                parts.deep_view() =~= self@.take(i + 1),
            decreases self.causes@.len() - i,
        {
            let ghost shorter = parts.deep_view();
            parts.push(self.causes[i].clone());
            proof {
                assert(parts.deep_view() =~= shorter.push(self.causes@[i as int]@));
                assert(self@[i + 1] == self.causes.deep_view()[i as int]);
            }
            i = i + 1;
        }
        proof {
            assert(self@.take(i + 1) =~= self@);
        }
        join(&parts, ": ")
    }
}

/// What a tool call reports when it fails: the messages of a failure on one line.
#[derive(Debug, Clone)]
pub struct UpdateError(pub String);

impl vstd::std_specs::convert::FromSpecImpl<Failure> for UpdateError {
    open spec fn obeys_from_spec() -> bool {
        false
    }

    open spec fn from_spec(v: Failure) -> Self {
        arbitrary()
    }
}

impl From<Failure> for UpdateError {
    fn from(value: Failure) -> (r: Self)
        ensures
            r.0@ == one_line(value@),
    {
        UpdateError(value.full_message())
    }
}

impl UpdateError {
    /// The stable code under which tool calls report every failure.
    pub fn code(&self) -> (r: String)
        ensures
            r@ == "self_update_failed"@,
    {
        "self_update_failed".to_owned()
    }

    /// The message.
    pub fn message(&self) -> (r: String)
        ensures
            r@ == self.0@,
    {
        self.0.clone()
    }
}

} // verus!
