//! What the daemon and its clients say to each other, one JSON line each.

use crate::llm::{BackendError, BackendErrorView, StreamEvent, StreamEventView};
use crate::session;
use crate::session::{Message, MessageView};
use crate::text;
use vstd::prelude::*;

verus! {

/// A request to the daemon.
pub enum DaemonRequest {
    /// Run the model on a conversation.
    Infer { messages: Vec<Message> },
    /// Load another model in place of the current one.
    SwitchModel { model: String, no_download: bool },
}

/// What a [`DaemonRequest`] says.
pub enum DaemonRequestView {
    Infer { messages: Seq<MessageView> },
    SwitchModel { model: Seq<char>, no_download: bool },
}

impl View for DaemonRequest {
    type V = DaemonRequestView;

    open spec fn view(&self) -> DaemonRequestView {
        match self {
            DaemonRequest::Infer { messages } => DaemonRequestView::Infer {
                messages: session::message_views(messages@),
            },
            DaemonRequest::SwitchModel { model, no_download } => DaemonRequestView::SwitchModel {
                model: model@,
                no_download: *no_download,
            },
        }
    }
}

/// A piece of the daemon's answer.
pub struct DaemonResponse {
    pub delta: Option<String>,
    pub done: bool,
    pub error: Option<String>,
}

/// What a [`DaemonResponse`] says.
#[verifier::ext_equal]
pub struct DaemonResponseView {
    pub delta: Option<Seq<char>>,
    pub done: bool,
    pub error: Option<Seq<char>>,
}

impl View for DaemonResponse {
    type V = DaemonResponseView;

    open spec fn view(&self) -> DaemonResponseView {
        DaemonResponseView {
            delta: text::option_view(self.delta),
            done: self.done,
            error: text::option_view(self.error),
        }
    }
}

/// The answer that ends with an error.
pub open spec fn refusal(message: Seq<char>) -> DaemonResponseView {
    DaemonResponseView { delta: None, done: true, error: Some(message) }
}

/// The answer to a model switch that worked.
pub open spec fn acknowledgement() -> DaemonResponseView {
    DaemonResponseView { delta: None, done: true, error: None }
}

/// The answer that carries a piece of a reply; an empty text is left out.
pub open spec fn carried(e: StreamEventView) -> DaemonResponseView {
    DaemonResponseView {
        delta: if e.delta.len() == 0 {
            None
        } else {
            Some(e.delta)
        },
        done: e.done,
        error: None,
    }
}

/// The piece of a reply that an answer carries, or the error that it reports.
pub open spec fn received(r: DaemonResponseView) -> Result<StreamEventView, BackendErrorView> {
    match r.error {
        Some(e) => Err(BackendErrorView::Inference(e)),
        None => Ok(
            StreamEventView {
                delta: match r.delta {
                    Some(d) => d,
                    None => Seq::empty(),
                },
                done: r.done,
            },
        ),
    }
}

impl DaemonResponse {
    /// The answer that ends with an error.
    pub fn refuse(message: String) -> (r: DaemonResponse)
        ensures
            r@ == refusal(message@),
    {
        DaemonResponse { delta: None, done: true, error: Some(message) }
    }

    /// The answer to a model switch that worked.
    pub fn acknowledge() -> (r: DaemonResponse)
        ensures
            r@ == acknowledgement(),
    {
        DaemonResponse { delta: None, done: true, error: None }
    }

    /// The answer that carries a piece of a reply.
    pub fn carry(ev: StreamEvent) -> (r: DaemonResponse)
        ensures
            r@ == carried(ev@),
    {
        let done = ev.done;
        DaemonResponse {
            delta: if ev.delta.as_str().is_empty() {
                None
            } else {
                Some(ev.delta)
            },
            done,
            error: None,
        }
    }

    /// The piece of a reply that the answer carries, or the error that it reports.
    pub fn receive(self) -> (r: Result<StreamEvent, BackendError>)
        ensures
            received(self@) == match r {
                Ok(e) => Ok(e@),
                Err(e) => Err(e@),
            },
    {
        match self.error {
            Some(e) => Err(BackendError::Inference(e)),
            None => {
                let delta = match self.delta {
                    Some(d) => d,
                    None => String::new(),
                };
                Ok(StreamEvent { delta, done: self.done })
            },
        }
    }
}

/// What the answer to a model switch says.
pub fn switch_outcome(resp: DaemonResponse) -> (r: Result<(), String>)
    ensures
        match resp@.error {
            Some(e) => r matches Err(m) && m@ == "model switch failed: "@ + e,
            None => r is Ok,
        },
{
    match resp.error {
        Some(e) => Err(text::cat("model switch failed: ", e.as_str())),
        None => Ok(()),
    }
}

/// A client gets exactly the pieces of the reply that the model streamed.
pub proof fn law_events_pass_through(e: StreamEventView)
    ensures
        received(carried(e)) == Ok::<_, BackendErrorView>(e),
{
    if e.delta.len() == 0 {
        assert(e.delta =~= Seq::<char>::empty());
    }
}

/// A client of a request that is refused gets the reason as an error.
pub proof fn law_refusals_are_errors(message: Seq<char>)
    ensures
        received(refusal(message)) == Err::<StreamEventView, _>(
            BackendErrorView::Inference(message),
        ),
{
}

} // verus!
