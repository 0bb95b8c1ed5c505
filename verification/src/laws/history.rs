//! How a handler takes a history of replies.
use vstd::prelude::*;

use crate::flow::{
    ActionView, ApiErrorView, EventView, HttpCallView, Machine, PayloadView, StepView,
};
use crate::text::{signed_decimal, trimmed_end};

verus! {

impl<S, T> StepView<S, T> {
    /// The step after a reply, where the handler waits for one.
    pub open spec fn on(self, next: Machine<S, T>, event: EventView) -> StepView<S, T> {
        match self {
            StepView::Perform(stage, _) => next(stage, event),
            _ => self,
        }
    }

    /// The handler waits for an action.
    pub open spec fn asks(self, action: ActionView) -> bool {
        self matches StepView::Perform(_, a) && a == action
    }

    /// The handler has come to an answer.
    pub open spec fn ends(self, answer: Result<T, ApiErrorView>) -> bool {
        self == StepView::<S, T>::Finish(answer)
    }
}

/// A value that was found; a failure to look it up counts as there being none.
pub open spec fn known<T>(found: Result<Option<T>, Seq<char>>) -> Option<T> {
    match found {
        Ok(Some(v)) => Some(v),
        _ => None,
    }
}

/// The text that was read, or the empty one.
pub open spec fn text_of(read: Result<Seq<char>, Seq<char>>) -> Seq<char> {
    match read {
        Ok(t) => t,
        Err(_) => Seq::empty(),
    }
}

/// A refusal.
pub open spec fn refused<T>(status: u16, message: Seq<char>) -> Result<T, ApiErrorView> {
    Err(ApiErrorView { status, message })
}

/// An endpoint without its trailing slashes, and a path behind it.
pub open spec fn below(endpoint: Seq<char>, path: Seq<char>) -> Seq<char> {
    trimmed_end(endpoint, '/') + path
}

/// Where a prover tells of a job.
pub open spec fn job_url(endpoint: Seq<char>, job_id: Seq<char>) -> Seq<char> {
    below(endpoint, "/jobs/"@) + job_id
}

/// The key of a proof's job.
pub open spec fn key_of_proof(space: Seq<char>, commitment_id: i64, is_fold: bool) -> Seq<char> {
    "job:"@ + space + ":"@ + signed_decimal(commitment_id as int) + ":"@ + if is_fold {
        "fold"@
    } else {
        "step"@
    }
}

/// A `GET` that carries nothing.
pub open spec fn plain_get(
    url: Seq<char>,
    token: Option<Seq<char>>,
    timeout: Option<u64>,
) -> ActionView {
    ActionView::Send(
        HttpCallView { post: false, url, token, payload: PayloadView::Empty, timeout },
    )
}

/// A `POST` of bytes.
pub open spec fn post_bytes(
    url: Seq<char>,
    token: Option<Seq<char>>,
    bytes: Seq<u8>,
    timeout: Option<u64>,
) -> ActionView {
    ActionView::Send(
        HttpCallView { post: true, url, token, payload: PayloadView::Octets(bytes), timeout },
    )
}

} // verus!
