//! What an answer of the service means for the request that brought it.
//!
//! The service is slow to answer and quick to refuse. It asks a client that
//! is too eager to slow down (429), and it answers a request for a
//! collection that it has not put together yet with "accepted" (202). Both
//! mean: ask again later. Everything else is final. A request for a random
//! game is answered with a redirection (302), whose target is the answer.
//!
//! The functions here decide; they send nothing and wait for nothing. The
//! caller sends the request, hands the answer in, and does what it is told:
//! hand the result out, or wait and send the request again.

use crate::result::Error;
use vstd::prelude::*;

verus! {

/// The status of an answer that has a body to read.
pub const STATUS_OK: u16 = 200;

/// The status of an answer that is not ready yet.
pub const STATUS_ACCEPTED: u16 = 202;

/// The status of a redirection.
pub const STATUS_FOUND: u16 = 302;

/// The status of an answer that asks the client to slow down.
pub const STATUS_TOO_MANY_REQUESTS: u16 = 429;

/// What came back for one request.
#[derive(Debug, PartialEq, Eq)]
pub enum Response {
    /// Nothing: the service could not be reached.
    Unreachable,
    /// An answer. `body` holds its text where the status is 200 and the
    /// body could be read as text.
    Answered { status: u16, body: Option<String> },
}

/// What a [`Response`] holds.
pub enum ResponseView {
    Unreachable,
    Answered { status: u16, body: Option<Seq<char>> },
}

impl View for Response {
    type V = ResponseView;

    open spec fn view(&self) -> ResponseView {
        match self {
            Response::Unreachable => ResponseView::Unreachable,
            Response::Answered { status, body } => ResponseView::Answered {
                status: *status,
                body: crate::record::text_view(*body),
            },
        }
    }
}

/// What one attempt at a request came to.
#[derive(Debug, PartialEq, Eq)]
pub enum Attempt {
    /// The text that was asked for.
    Done(String),
    /// A failure that asking again will not mend.
    Failed(Error),
    /// A failure that may have passed by the next attempt.
    Again(Error),
}

/// What an [`Attempt`] holds.
pub enum AttemptView {
    Done(Seq<char>),
    Failed(Error),
    Again(Error),
}

impl View for Attempt {
    type V = AttemptView;

    open spec fn view(&self) -> AttemptView {
        match self {
            Attempt::Done(text) => AttemptView::Done(text@),
            Attempt::Failed(error) => AttemptView::Failed(*error),
            Attempt::Again(error) => AttemptView::Again(*error),
        }
    }
}

/// What to do after an attempt.
#[derive(Debug, PartialEq, Eq)]
pub enum Step {
    /// Hand this out: the request is over.
    Return(Result<String, Error>),
    /// Wait for so many milliseconds, then send the request again.
    RetryAfter(u64),
}

/// What a [`Step`] holds.
pub enum StepView {
    Return(Result<Seq<char>, Error>),
    RetryAfter(u64),
}

impl View for Step {
    type V = StepView;

    open spec fn view(&self) -> StepView {
        match self {
            Step::Return(Ok(text)) => StepView::Return(Ok(text@)),
            Step::Return(Err(error)) => StepView::Return(Err(*error)),
            Step::RetryAfter(pause) => StepView::RetryAfter(*pause),
        }
    }
}

/// What a plain request makes of an answer.
///
/// Only a 429 is worth another attempt. A 200 is the result where its body
/// is text, and a bad response where it is not. Any other status fails the
/// request and is kept in the error, and so does a service that cannot be
/// reached.
pub open spec fn get_attempt(response: ResponseView) -> AttemptView {
    match response {
        ResponseView::Unreachable => AttemptView::Failed(Error::ConnectionFailed),
        ResponseView::Answered { status, body } => if status == STATUS_TOO_MANY_REQUESTS {
            AttemptView::Again(Error::TooManyRequests)
        } else if status == STATUS_OK {
            match body {
                Some(text) => AttemptView::Done(text),
                None => AttemptView::Failed(Error::BadResponse),
            }
        } else {
            AttemptView::Failed(Error::RequestFailed(status))
        },
    }
}

/// What a request that waits for the service to get ready makes of the
/// result of a plain request.
///
/// Only a 202 is worth another attempt. Every other failure is final here,
/// a 429 too: the plain request has already waited for that as long as it
/// would.
pub open spec fn pending_attempt(result: Result<Seq<char>, Error>) -> AttemptView {
    match result {
        Ok(text) => AttemptView::Done(text),
        Err(Error::RequestFailed(status)) if status == STATUS_ACCEPTED => AttemptView::Again(
            Error::RequestFailed(status),
        ),
        Err(error) => AttemptView::Failed(error),
    }
}

/// What to do after an attempt, given the pause that the schedule of
/// retries allows next; `None` says that the schedule is used up.
///
/// Only a failure that may pass is tried again, and only while the schedule
/// allows it. After that the last failure is handed out as it is.
pub open spec fn step_after(attempt: AttemptView, pause: Option<u64>) -> StepView {
    match attempt {
        AttemptView::Done(text) => StepView::Return(Ok(text)),
        AttemptView::Failed(error) => StepView::Return(Err(error)),
        AttemptView::Again(error) => match pause {
            Some(pause) => StepView::RetryAfter(pause),
            None => StepView::Return(Err(error)),
        },
    }
}

/// Classifies the answer to a plain request.
pub fn classify_get(response: Response) -> (attempt: Attempt)
    ensures
        attempt@ == get_attempt(response@),
{
    match response {
        Response::Unreachable => Attempt::Failed(Error::ConnectionFailed),
        Response::Answered { status, body } => {
            if status == STATUS_TOO_MANY_REQUESTS {
                Attempt::Again(Error::TooManyRequests)
            } else if status == STATUS_OK {
                match body {
                    Some(text) => Attempt::Done(text),
                    None => Attempt::Failed(Error::BadResponse),
                }
            } else {
                Attempt::Failed(Error::RequestFailed(status))
            }
        },
    }
}

/// What the result of a request holds.
pub open spec fn result_view(result: Result<String, Error>) -> Result<Seq<char>, Error> {
    match result {
        Ok(text) => Ok(text@),
        Err(error) => Err(error),
    }
}

/// Classifies the result of a plain request for a request that waits for
/// the service to get ready.
pub fn classify_get_with_202_check(result: Result<String, Error>) -> (attempt: Attempt)
    ensures
        attempt@ == pending_attempt(result_view(result)),
{
    match result {
        Ok(text) => Attempt::Done(text),
        Err(Error::RequestFailed(status)) => {
            if status == STATUS_ACCEPTED {
                Attempt::Again(Error::RequestFailed(status))
            } else {
                Attempt::Failed(Error::RequestFailed(status))
            }
        },
        Err(error) => Attempt::Failed(error),
    }
}

impl Attempt {
    /// Whether the schedule of retries has to be asked for a pause.
    pub fn is_transient(&self) -> (transient: bool)
        ensures
            transient == (self@ is Again),
    {
        match self {
            Attempt::Again(_) => true,
            _ => false,
        }
    }
}

/// Decides what follows an attempt.
pub fn next_step(attempt: Attempt, pause: Option<u64>) -> (step: Step)
    ensures
        step@ == step_after(attempt@, pause),
{
    match attempt {
        Attempt::Done(text) => Step::Return(Ok(text)),
        Attempt::Failed(error) => Step::Return(Err(error)),
        Attempt::Again(error) => match pause {
            Some(pause) => Step::RetryAfter(pause),
            None => Step::Return(Err(error)),
        },
    }
}

/// What came back for a request that does not follow redirections.
#[derive(Debug, PartialEq, Eq)]
pub enum Redirect {
    /// Nothing: the service could not be reached.
    Unreachable,
    /// An answer. `location` holds its `Location` header, if it has one.
    Answered { status: u16, location: Option<String> },
}

/// What a [`Redirect`] holds.
pub enum RedirectView {
    Unreachable,
    Answered { status: u16, location: Option<Seq<char>> },
}

impl View for Redirect {
    type V = RedirectView;

    open spec fn view(&self) -> RedirectView {
        match self {
            Redirect::Unreachable => RedirectView::Unreachable,
            Redirect::Answered { status, location } => RedirectView::Answered {
                status: *status,
                location: crate::record::text_view(*location),
            },
        }
    }
}

/// Where a redirection leads: the `Location` of a 302, if it has one. Any
/// other status fails the request and is kept in the error, and so does a
/// service that cannot be reached. Nothing is tried again.
pub open spec fn redirect_target(redirect: RedirectView) -> Result<Option<Seq<char>>, Error> {
    match redirect {
        RedirectView::Unreachable => Err(Error::ConnectionFailed),
        RedirectView::Answered { status, location } => if status == STATUS_FOUND {
            Ok(location)
        } else {
            Err(Error::RequestFailed(status))
        },
    }
}

/// What the result of a request for a redirection holds.
pub open spec fn target_view(target: Result<Option<String>, Error>) -> Result<
    Option<Seq<char>>,
    Error,
> {
    match target {
        Ok(location) => Ok(crate::record::text_view(location)),
        Err(error) => Err(error),
    }
}

/// Reads the target of a redirection.
pub fn classify_redirect(redirect: Redirect) -> (target: Result<Option<String>, Error>)
    ensures
        target_view(target) == redirect_target(redirect@),
{
    match redirect {
        Redirect::Unreachable => Err(Error::ConnectionFailed),
        Redirect::Answered { status, location } => {
            if status == STATUS_FOUND {
                Ok(location)
            } else {
                Err(Error::RequestFailed(status))
            }
        },
    }
}

/// How long and how often a request is tried again. The pause between two
/// attempts starts at `initial_interval`, grows by `multiplier` from one
/// attempt to the next up to `max_interval`, and is spread at random by
/// `randomization` to either side. No attempt is made once `max_elapsed`
/// has passed since the first one; without it there is no end.
///
/// Times are in milliseconds, `multiplier` and `randomization` in percent.
#[derive(Debug, Clone, Copy, PartialEq, Eq, Structural)]
pub struct RetryPolicy {
    pub initial_interval: u64,
    pub multiplier: u32,
    pub randomization: u32,
    pub max_interval: u64,
    pub max_elapsed: Option<u64>,
}

impl RetryPolicy {
    /// Whether the policy makes sense: a pause that is there, does not
    /// shrink, stays below its limit, and is never spread below zero.
    pub open spec fn valid(&self) -> bool {
        &&& 0 < self.initial_interval <= self.max_interval
        &&& 100 <= self.multiplier
        &&& self.randomization <= 100
    }

    /// Half a second at first, half as much again each time, a minute at
    /// most between two attempts and in all.
    pub open spec fn standard() -> RetryPolicy {
        RetryPolicy {
            initial_interval: 500,
            multiplier: 150,
            randomization: 50,
            max_interval: 60_000,
            max_elapsed: Some(60_000u64),
        }
    }

    /// Checks that the policy makes sense.
    pub fn is_valid(&self) -> (valid: bool)
        ensures
            valid == self.valid(),
    {
        0 < self.initial_interval && self.initial_interval <= self.max_interval && 100
            <= self.multiplier && self.randomization <= 100
    }
}

impl Default for RetryPolicy {
    fn default() -> (policy: RetryPolicy)
        ensures
            policy == RetryPolicy::standard(),
            policy.valid(),
    {
        RetryPolicy {
            initial_interval: 500,
            multiplier: 150,
            randomization: 50,
            max_interval: 60_000,
            max_elapsed: Some(60_000),
        }
    }
}

/// A plain request is tried again after a 429 and after nothing else, and
/// a status other than 200 and 429 fails it at once with that status.
pub proof fn lemma_get_retries_429_only(response: ResponseView)
    ensures
        get_attempt(response) is Again <==> (response matches ResponseView::Answered {
            status,
            ..
        } && status == STATUS_TOO_MANY_REQUESTS),
        get_attempt(response) is Again ==> get_attempt(response) == AttemptView::Again(
            Error::TooManyRequests,
        ),
        response matches ResponseView::Answered { status, .. } ==> (status != STATUS_OK && status
            != STATUS_TOO_MANY_REQUESTS ==> get_attempt(response) == AttemptView::Failed(
            Error::RequestFailed(status),
        )),
        forall|pause: Option<u64>|
            !(get_attempt(response) is Again) ==> #[trigger] step_after(
                get_attempt(response),
                pause,
            ) is Return,
{
}

/// A request that waits for the service to get ready is tried again after
/// a 202 and after nothing else: a 429 that the plain request could not
/// outlast ends it, like every other failure.
pub proof fn lemma_pending_retries_202_only(result: Result<Seq<char>, Error>)
    ensures
        pending_attempt(result) is Again <==> result == Err::<Seq<char>, Error>(
            Error::RequestFailed(STATUS_ACCEPTED),
        ),
        result matches Err(error) ==> (error != Error::RequestFailed(STATUS_ACCEPTED)
            ==> pending_attempt(result) == AttemptView::Failed(error)),
        result matches Ok(text) ==> pending_attempt(result) == AttemptView::Done(text),
{
}

/// A request is sent again only after a failure that may pass and while
/// the schedule allows a pause; once the schedule is used up the last
/// failure is handed out as it is.
pub proof fn lemma_retry_needs_a_pause(attempt: AttemptView, pause: Option<u64>)
    ensures
        step_after(attempt, pause) is RetryAfter <==> attempt is Again && pause.is_some(),
        attempt matches AttemptView::Again(error) ==> step_after(attempt, None)
            == StepView::Return(Err(error)),
{
}

} // verus!
