//! What happens to a request on its way through the proxy.
use axum::http::{HeaderMap, HeaderValue};
use vstd::prelude::*;
use crate::handlers::admission;
use crate::headers;
use crate::json::{Json, JsonObject, JsonTree};
use crate::model_switcher::switcher::ModelSwitcher;
use crate::switch_proxy::switcher::SwitchError;
use crate::text;

verus! {

/// The model that a request asks for: the one in the `model-override` header if that is text, and
/// otherwise the one that the body names.
pub open spec fn asked_model(h: HeaderMap<HeaderValue>, body: Seq<u8>) -> Option<Seq<char>> {
    match headers::header_text(h, "model-override"@) {
        Some(model) => Some(model),
        None => admission::body_model(body),
    }
}

/// The model that a request asks for.
pub fn extract_model(h: &HeaderMap<HeaderValue>, body: &[u8]) -> (model: Option<String>)
    ensures
        text::optional(model) == asked_model(*h, body@),
{
    proof {
        headers::lemma_known_names();
    }
    match headers::get_text(h, "model-override") {
        Some(model) => Some(model),
        None => admission::extract_body_model(body),
    }
}

/// What becomes of a request.
#[derive(Debug)]
pub enum Route {
    /// It is passed on as it is.
    PassThrough,
    /// It is passed on once its model is awake.
    Switch(String),
}

/// What becomes of a request: one for a model that the switcher knows has to wait for it.
pub fn route(switcher: &ModelSwitcher, h: &HeaderMap<HeaderValue>, body: &[u8]) -> (route: Route)
    ensures
        match asked_model(*h, body@) {
            Some(model) => if switcher@.models.dom().contains(model) {
                route matches Route::Switch(m) && m@ == model
            } else {
                route is PassThrough
            },
            None => route is PassThrough,
        },
{
    match extract_model(h, body) {
        Some(model) => if switcher.is_registered(model.as_str()) {
            Route::Switch(model)
        } else {
            Route::PassThrough
        },
        None => Route::PassThrough,
    }
}

/// A response that the proxy gives by itself.
#[derive(Debug)]
pub struct ErrorReply {
    pub status: u16,
    pub message: String,
}

/// The document that such a response carries.
pub open spec fn reply_document(message: Seq<char>) -> JsonTree {
    JsonTree::Object(
        Map::<Seq<char>, JsonTree>::empty().insert(
            "error"@,
            JsonTree::Object(
                Map::<Seq<char>, JsonTree>::empty().insert("message"@, JsonTree::Text(message)).insert(
                    "type"@,
                    JsonTree::Text("model_switcher_error"@),
                ),
            ),
        ),
    )
}

impl ErrorReply {
    /// The document that the response carries.
    pub fn to_json(self) -> (document: Json)
        ensures
            document@ == reply_document(self.message@),
    {
        let mut detail = JsonObject::new();
        detail.insert("message", Json::Text(self.message));
        detail.insert("type", Json::Text("model_switcher_error".to_owned()));
        let mut document = JsonObject::new();
        document.insert("error", Json::Object(detail));
        Json::Object(document)
    }
}

/// The response to a request whose body could not be read.
pub fn unreadable_body() -> (reply: ErrorReply)
    ensures
        reply.status == 400,
        reply.message@ == "Failed to read request body"@,
{
    ErrorReply { status: 400, message: "Failed to read request body".to_owned() }
}

/// The status of the response to a request whose model is not ready.
pub open spec fn error_status(error: SwitchError) -> u16 {
    match error {
        SwitchError::ModelNotFound(_) => 404,
        SwitchError::NotReady(_) => 503,
        SwitchError::Timeout => 504,
        SwitchError::Orchestrator(_) => 500,
        SwitchError::Internal(_) => 500,
    }
}

/// What the response to a request whose model is not ready says.
pub open spec fn error_message(error: SwitchError) -> Seq<char> {
    match error {
        SwitchError::ModelNotFound(model) => "Model not found: "@ + model@,
        SwitchError::NotReady(model) => "Model not ready: "@ + model@,
        SwitchError::Timeout => "Request timed out waiting for model"@,
        SwitchError::Orchestrator(reason) => "Orchestrator error: "@ + reason@,
        SwitchError::Internal(reason) => "Internal error: "@ + reason@,
    }
}

/// The response to a request whose model is not ready.
pub fn switch_error_response(error: &SwitchError) -> (reply: ErrorReply)
    ensures
        reply.status == error_status(*error),
        reply.message@ == error_message(*error),
{
    match error {
        SwitchError::ModelNotFound(model) => ErrorReply {
            status: 404,
            message: "Model not found: ".to_owned().concat(model.as_str()),
        },
        SwitchError::NotReady(model) => ErrorReply {
            status: 503,
            message: "Model not ready: ".to_owned().concat(model.as_str()),
        },
        SwitchError::Timeout => ErrorReply {
            status: 504,
            message: "Request timed out waiting for model".to_owned(),
        },
        SwitchError::Orchestrator(reason) => ErrorReply {
            status: 500,
            message: "Orchestrator error: ".to_owned().concat(reason.as_str()),
        },
        SwitchError::Internal(reason) => ErrorReply {
            status: 500,
            message: "Internal error: ".to_owned().concat(reason.as_str()),
        },
    }
}

/// A readable `model-override` header decides whatever the body says, and without the header this
/// proxy and the gateway behind it find the same model.
pub proof fn law_override_header_decides(h: HeaderMap<HeaderValue>, body: Seq<u8>, other: Seq<u8>)
    ensures
        headers::header_text(h, "model-override"@) matches Some(model) ==> asked_model(h, body)
            == Some(model) && asked_model(h, other) == Some(model) && admission::requested_model(
            h,
            body,
        ) == Some(model),
        !headers::entries(h).dom().contains("model-override"@) ==> asked_model(h, body)
            == admission::requested_model(h, body),
{
}

/// A request asks for the model that the `model-override` header names, if that is text, and otherwise
/// for the text under `model` in its body.
pub proof fn law_model_of_a_request(
    h: HeaderMap<HeaderValue>,
    body: Seq<u8>,
    tree: JsonTree,
    model: Seq<char>,
)
    ensures
        headers::header_text(h, "model-override"@) == Some(model) ==> asked_model(h, body) == Some(model),
        headers::header_text(h, "model-override"@) is None ==> {
            &&& crate::json::parsed_json(body) is None ==> asked_model(h, body) is None
            &&& crate::json::parsed_json(body) == Some(tree) ==> (asked_model(h, body) == Some(model)
                <==> tree.member("model"@) == Some(JsonTree::Text(model)))
        },
{
}

/// What the client is told when its model cannot be had: the status for each reason, and a message that
/// holds what it is about.
pub proof fn law_replies(model: String, reason: String)
    ensures
        error_status(SwitchError::ModelNotFound(model)) == 404,
        error_status(SwitchError::NotReady(model)) == 503,
        error_status(SwitchError::Timeout) == 504,
        error_status(SwitchError::Orchestrator(reason)) == 500,
        error_status(SwitchError::Internal(reason)) == 500,
        text::occurs_in(model@, error_message(SwitchError::ModelNotFound(model))),
        text::occurs_in(model@, error_message(SwitchError::NotReady(model))),
        text::occurs_in(reason@, error_message(SwitchError::Orchestrator(reason))),
        text::occurs_in(reason@, error_message(SwitchError::Internal(reason))),
{
    let none = Seq::<char>::empty();
    assert("Model not found: "@ + model@ =~= "Model not found: "@ + model@ + none);
    text::lemma_part_occurs("Model not found: "@, model@, none);
    assert("Model not ready: "@ + model@ =~= "Model not ready: "@ + model@ + none);
    text::lemma_part_occurs("Model not ready: "@, model@, none);
    assert("Orchestrator error: "@ + reason@ =~= "Orchestrator error: "@ + reason@ + none);
    text::lemma_part_occurs("Orchestrator error: "@, reason@, none);
    assert("Internal error: "@ + reason@ =~= "Internal error: "@ + reason@ + none);
    text::lemma_part_occurs("Internal error: "@, reason@, none);
}

/// The document of a reply holds the message, and says what kind of error it is.
pub proof fn law_document_of_a_reply(message: Seq<char>, key: Seq<char>)
    ensures
        reply_document(message).member("error"@) matches Some(error) && error.member("message"@) == Some(
            JsonTree::Text(message),
        ) && error.member("type"@) == Some(JsonTree::Text("model_switcher_error"@)),
        key != "error"@ ==> reply_document(message).member(key) is None,
{
    reveal_strlit("message");
    reveal_strlit("type");
    assert("message"@.len() != "type"@.len());
}

} // verus!
