//! How the daemon serves a connection.

use crate::daemon::proto;
use crate::daemon::proto::{DaemonRequest, DaemonRequestView, DaemonResponse, DaemonResponseView};
use crate::session;
use crate::session::{Message, MessageView};
use crate::text;
use vstd::prelude::*;

verus! {

/// What a connection does with its request.
pub enum Serve {
    /// Send the answer and close.
    Reply(DaemonResponse),
    /// Run the model and send each piece of its reply.
    Infer { messages: Vec<Message> },
    /// Load the model.
    Load { model: String, no_download: bool },
}

/// What a [`Serve`] says.
pub enum ServeView {
    Reply(DaemonResponseView),
    Infer { messages: Seq<MessageView> },
    Load { model: Seq<char>, no_download: bool },
}

impl View for Serve {
    type V = ServeView;

    open spec fn view(&self) -> ServeView {
        match self {
            Serve::Reply(r) => ServeView::Reply(r@),
            Serve::Infer { messages } => ServeView::Infer {
                messages: session::message_views(messages@),
            },
            Serve::Load { model, no_download } => ServeView::Load {
                model: model@,
                no_download: *no_download,
            },
        }
    }
}

/// What is done with a request line that was read as a request, or could not be.
pub open spec fn served(req: Result<DaemonRequestView, Seq<char>>) -> ServeView {
    match req {
        Ok(DaemonRequestView::Infer { messages }) => ServeView::Infer { messages },
        Ok(DaemonRequestView::SwitchModel { model, no_download }) => ServeView::Load {
            model,
            no_download,
        },
        Err(e) => ServeView::Reply(proto::refusal("invalid request JSON: "@ + e)),
    }
}

pub open spec fn request_view(r: Result<DaemonRequest, String>) -> Result<
    DaemonRequestView,
    Seq<char>,
> {
    match r {
        Ok(q) => Ok(q@),
        Err(e) => Err(e@),
    }
}

/// Decides what a connection does with its request.
pub fn on_request(req: Result<DaemonRequest, String>) -> (r: Serve)
    ensures
        r@ == served(request_view(req)),
{
    match req {
        Ok(DaemonRequest::Infer { messages }) => Serve::Infer { messages },
        Ok(DaemonRequest::SwitchModel { model, no_download }) => Serve::Load { model, no_download },
        Err(e) => Serve::Reply(
            DaemonResponse::refuse(text::cat("invalid request JSON: ", e.as_str())),
        ),
    }
}

/// What happens after a piece of a reply was sent, or could not be.
#[derive(Clone, Copy, Debug, PartialEq, Eq, Structural)]
pub enum Forward {
    /// Wait for the next piece.
    More,
    /// The reply is complete.
    Done,
    /// The client has gone: stop the model.
    Cancel,
}

/// Decides what follows a piece of a reply.
pub fn on_sent(done: bool, sent: bool) -> (r: Forward)
    ensures
        r == if !sent {
            Forward::Cancel
        } else if done {
            Forward::Done
        } else {
            Forward::More
        },
{
    if !sent {
        Forward::Cancel
    } else if done {
        Forward::Done
    } else {
        Forward::More
    }
}

/// The model that the daemon serves.
pub struct BackendSlot {
    pub model: String,
}

/// The model that is served and the answer once a model was loaded, or could not be.
pub open spec fn switched(
    current: Seq<char>,
    model: Seq<char>,
    loaded: Result<(), Seq<char>>,
) -> (Seq<char>, DaemonResponseView) {
    match loaded {
        Ok(_) => (model, proto::acknowledgement()),
        Err(e) => (
            current,
            proto::refusal("failed to load model '"@ + model + "': "@ + e),
        ),
    }
}

impl BackendSlot {
    /// Puts the loaded model in place; where loading failed the current one stays.
    pub fn on_loaded(&mut self, model: &str, loaded: Result<(), String>) -> (r: DaemonResponse)
        ensures
            (final(self).model@, r@) == switched(
                old(self).model@,
                model@,
                match loaded {
                    Ok(_) => Ok(()),
                    Err(e) => Err(e@),
                },
            ),
    {
        match loaded {
            Ok(_) => {
                self.model = model.to_string();
                DaemonResponse::acknowledge()
            },
            Err(e) => {
                let mut m = "failed to load model '".to_string();
                m.append(model);
                m.append("': ");
                m.append(e.as_str());
                DaemonResponse::refuse(m)
            },
        }
    }
}

/// A model that cannot be loaded is answered with an error and changes nothing; one
/// that can be is the one served from then on.
pub proof fn law_switch_is_all_or_nothing(
    current: Seq<char>,
    model: Seq<char>,
    loaded: Result<(), Seq<char>>,
)
    ensures
        switched(current, model, loaded).1.error is Some <==> loaded is Err,
        loaded is Err ==> switched(current, model, loaded).0 == current,
        loaded is Ok ==> switched(current, model, loaded).0 == model,
{
}

/// A conversation is handed to the model whole, and a request to switch loads the model that it
/// names in the way that it asks for; a line that is no request is answered with the reason.
pub proof fn law_requests_are_served(
    messages: Seq<MessageView>,
    model: Seq<char>,
    no_download: bool,
    e: Seq<char>,
)
    ensures
        served(Ok(DaemonRequestView::Infer { messages })) == (ServeView::Infer { messages }),
        served(Ok(DaemonRequestView::SwitchModel { model, no_download })) == (ServeView::Load {
            model,
            no_download,
        }),
        served(Err(e)) matches ServeView::Reply(r) && r.done && r.error == Some(
            "invalid request JSON: "@ + e,
        ),
{
}

/// The answer to a model that cannot be loaded names the model and the reason.
pub proof fn law_refused_switch_says_why(current: Seq<char>, model: Seq<char>, e: Seq<char>)
    ensures
        ({
            let r = switched(current, model, Err(e)).1;
            r.done && r.delta is None && r.error == Some(
                "failed to load model '"@ + model + "': "@ + e,
            )
        }),
        ({
            let r = switched(current, model, Ok(())).1;
            r.done && r.delta is None && r.error is None
        }),
{
}

} // verus!
