//! Error responses in the form that OpenAI clients expect.
use vstd::prelude::*;
use crate::json::{Json, JsonObject, JsonTree};
use crate::text;

verus! {

/// What an error says.
pub struct ErrorBodyView {
    pub message: Seq<char>,
    pub error_type: Seq<char>,
    pub param: Option<Seq<char>>,
    pub code: Seq<char>,
}

/// An error response.
pub struct ErrorView {
    pub body: Option<ErrorBodyView>,
    pub status: u16,
}

/// What an error says.
#[derive(Debug)]
pub struct ErrorResponseBody {
    pub message: String,
    pub error_type: String,
    pub param: Option<String>,
    pub code: String,
}

impl View for ErrorResponseBody {
    type V = ErrorBodyView;

    open spec fn view(&self) -> ErrorBodyView {
        ErrorBodyView {
            message: self.message@,
            error_type: self.error_type@,
            param: match self.param {
                Some(p) => Some(p@),
                None => None,
            },
            code: self.code@,
        }
    }
}

/// An error response.
#[derive(Debug)]
pub struct OnwardsErrorResponse {
    pub body: Option<ErrorResponseBody>,
    pub status: u16,
}

impl View for OnwardsErrorResponse {
    type V = ErrorView;

    open spec fn view(&self) -> ErrorView {
        ErrorView {
            body: match self.body {
                Some(b) => Some(b@),
                None => None,
            },
            status: self.status,
        }
    }
}

impl ErrorView {
    /// An error that says something, without naming a parameter.
    pub open spec fn plain(
        status: u16,
        message: Seq<char>,
        error_type: Seq<char>,
        code: Seq<char>,
    ) -> ErrorView {
        ErrorView { body: Some(ErrorBodyView { message, error_type, param: None, code }), status }
    }

    /// No such model.
    pub open spec fn model_not_found(model: Seq<char>) -> ErrorView {
        ErrorView::plain(
            404,
            "The model `"@ + model + "` does not exist or you do not have access to it."@,
            "invalid_request_error"@,
            "model_not_found"@,
        )
    }

    /// The request cannot be understood.
    pub open spec fn bad_request(message: Seq<char>, param: Option<Seq<char>>) -> ErrorView {
        ErrorView {
            body: Some(
                ErrorBodyView {
                    message,
                    error_type: "invalid_request_error"@,
                    param,
                    code: "bad_request"@,
                },
            ),
            status: 400,
        }
    }

    /// The request can be understood but not served.
    pub open spec fn unprocessable_request(message: Seq<char>, param: Option<Seq<char>>) -> ErrorView {
        ErrorView {
            body: Some(
                ErrorBodyView {
                    message,
                    error_type: "invalid_request_error"@,
                    param,
                    code: "unprocessable_request"@,
                },
            ),
            status: 422,
        }
    }

    /// The body is larger than `limit` bytes.
    pub open spec fn payload_too_large(limit: nat) -> ErrorView {
        ErrorView::plain(
            413,
            "The request body exceeds the limit of "@ + text::numeral(limit) + " bytes."@,
            "invalid_request_error"@,
            "payload_too_large"@,
        )
    }

    /// An upstream refused the request, with a status.
    pub open spec fn upstream_rejected(status: u16) -> ErrorView {
        ErrorView::plain(
            status,
            "The upstream provider rejected the request."@,
            "invalid_request_error"@,
            "upstream_error"@,
        )
    }

    /// An upstream failed, with a status.
    pub open spec fn upstream_failed(status: u16) -> ErrorView {
        ErrorView::plain(
            status,
            "An internal error occurred. Please try again later."@,
            "internal_error"@,
            "internal_error"@,
        )
    }

    /// The client sends requests too quickly.
    pub open spec fn rate_limited() -> ErrorView {
        ErrorView::plain(
            429,
            "You are sending requests too quickly. Please slow down."@,
            "rate_limit_error"@,
            "rate_limit"@,
        )
    }

    /// Something went wrong inside the gateway.
    pub open spec fn internal() -> ErrorView {
        ErrorView::plain(
            500,
            "An internal error occurred. Please try again later."@,
            "internal_error"@,
            "internal_error"@,
        )
    }

    /// The upstream could not be reached, or answered with a failure.
    pub open spec fn bad_gateway() -> ErrorView {
        ErrorView::plain(
            502,
            "An internal error occurred. Please try again later."@,
            "internal_error"@,
            "internal_error"@,
        )
    }

    /// The token does not give access.
    pub open spec fn forbidden() -> ErrorView {
        ErrorView::plain(
            403,
            "Unauthorized"@,
            "invalid_request_error"@,
            "unauthorized"@,
        )
    }

    /// A token is needed and none was given.
    pub open spec fn unauthorized() -> ErrorView {
        ErrorView::plain(
            401,
            "Please supply an authentication token to access this resource"@,
            "invalid_request_error"@,
            "unauthenticated"@,
        )
    }

    /// No upstream can serve the request now.
    pub open spec fn service_unavailable() -> ErrorView {
        ErrorView::plain(
            503,
            "The service is temporarily unavailable. Please try again later."@,
            "service_unavailable_error"@,
            "service_unavailable"@,
        )
    }

    /// Too many requests are active at once.
    pub open spec fn concurrency_limited() -> ErrorView {
        ErrorView::plain(
            429,
            "Too many concurrent requests. Please wait for some of them to finish."@,
            "rate_limit_error"@,
            "concurrency_limit_exceeded"@,
        )
    }

    /// The upstream did not answer in time.
    pub open spec fn gateway_timeout() -> ErrorView {
        ErrorView::plain(
            504,
            "The upstream provider took too long to respond. Please try again later."@,
            "internal_error"@,
            "gateway_timeout"@,
        )
    }
}

fn plain(status: u16, message: String, error_type: &str, code: &str) -> (error: OnwardsErrorResponse)
    ensures
        error@ == ErrorView::plain(status, message@, error_type@, code@),
{
    OnwardsErrorResponse {
        body: Some(
            ErrorResponseBody {
                message,
                error_type: error_type.to_owned(),
                param: None,
                code: code.to_owned(),
            },
        ),
        status,
    }
}

fn invalid(status: u16, message: &str, param: Option<&str>, code: &str) -> (error:
    OnwardsErrorResponse)
    ensures
        error@ == (ErrorView {
            body: Some(
                ErrorBodyView {
                    message: message@,
                    error_type: "invalid_request_error"@,
                    param: text::optional_str(param),
                    code: code@,
                },
            ),
            status,
        }),
{
    OnwardsErrorResponse {
        body: Some(
            ErrorResponseBody {
                message: message.to_owned(),
                error_type: "invalid_request_error".to_owned(),
                param: match param {
                    Some(p) => Some(p.to_owned()),
                    None => None,
                },
                code: code.to_owned(),
            },
        ),
        status,
    }
}

impl OnwardsErrorResponse {
    /// No such model.
    pub fn model_not_found(model: &str) -> (error: OnwardsErrorResponse)
        ensures
            error@ == ErrorView::model_not_found(model@),
    {
        let message = "The model `".to_owned().concat(model).concat(
            "` does not exist or you do not have access to it.",
        );
        plain(404, message, "invalid_request_error", "model_not_found")
    }

    /// The request cannot be understood.
    pub fn bad_request(message: &str, param: Option<&str>) -> (error: OnwardsErrorResponse)
        ensures
            error@ == ErrorView::bad_request(message@, text::optional_str(param)),
    {
        invalid(400, message, param, "bad_request")
    }

    /// The request can be understood but not served.
    pub fn unprocessable_request(message: &str, param: Option<&str>) -> (error: OnwardsErrorResponse)
        ensures
            error@ == ErrorView::unprocessable_request(message@, text::optional_str(param)),
    {
        invalid(422, message, param, "unprocessable_request")
    }

    /// The body is larger than `limit` bytes.
    pub fn payload_too_large(limit: u64) -> (error: OnwardsErrorResponse)
        ensures
            error@ == ErrorView::payload_too_large(limit as nat),
    {
        let message = "The request body exceeds the limit of ".to_owned().concat(
            text::decimal(limit).as_str(),
        ).concat(" bytes.");
        plain(413, message, "invalid_request_error", "payload_too_large")
    }

    /// An upstream refused the request, with a status.
    pub fn upstream_rejected(status: u16) -> (error: OnwardsErrorResponse)
        ensures
            error@ == ErrorView::upstream_rejected(status),
    {
        plain(
            status,
            "The upstream provider rejected the request.".to_owned(),
            "invalid_request_error",
            "upstream_error",
        )
    }

    /// An upstream failed, with a status.
    pub fn upstream_failed(status: u16) -> (error: OnwardsErrorResponse)
        ensures
            error@ == ErrorView::upstream_failed(status),
    {
        plain(
            status,
            "An internal error occurred. Please try again later.".to_owned(),
            "internal_error",
            "internal_error",
        )
    }

    /// The client sends requests too quickly.
    pub fn rate_limited() -> (error: OnwardsErrorResponse)
        ensures
            error@ == ErrorView::rate_limited(),
    {
        plain(
            429,
            "You are sending requests too quickly. Please slow down.".to_owned(),
            "rate_limit_error",
            "rate_limit",
        )
    }

    /// Something went wrong inside the gateway.
    pub fn internal() -> (error: OnwardsErrorResponse)
        ensures
            error@ == ErrorView::internal(),
    {
        plain(
            500,
            "An internal error occurred. Please try again later.".to_owned(),
            "internal_error",
            "internal_error",
        )
    }

    /// The upstream could not be reached, or answered with a failure.
    pub fn bad_gateway() -> (error: OnwardsErrorResponse)
        ensures
            error@ == ErrorView::bad_gateway(),
    {
        plain(
            502,
            "An internal error occurred. Please try again later.".to_owned(),
            "internal_error",
            "internal_error",
        )
    }

    /// The token does not give access.
    pub fn forbidden() -> (error: OnwardsErrorResponse)
        ensures
            error@ == ErrorView::forbidden(),
    {
        plain(
            403,
            "Unauthorized".to_owned(),
            "invalid_request_error",
            "unauthorized",
        )
    }

    /// A token is needed and none was given.
    pub fn unauthorized() -> (error: OnwardsErrorResponse)
        ensures
            error@ == ErrorView::unauthorized(),
    {
        plain(
            401,
            "Please supply an authentication token to access this resource".to_owned(),
            "invalid_request_error",
            "unauthenticated",
        )
    }

    /// No upstream can serve the request now.
    pub fn service_unavailable() -> (error: OnwardsErrorResponse)
        ensures
            error@ == ErrorView::service_unavailable(),
    {
        plain(
            503,
            "The service is temporarily unavailable. Please try again later.".to_owned(),
            "service_unavailable_error",
            "service_unavailable",
        )
    }

    /// Too many requests are active at once.
    pub fn concurrency_limited() -> (error: OnwardsErrorResponse)
        ensures
            error@ == ErrorView::concurrency_limited(),
    {
        plain(
            429,
            "Too many concurrent requests. Please wait for some of them to finish.".to_owned(),
            "rate_limit_error",
            "concurrency_limit_exceeded",
        )
    }

    /// The upstream did not answer in time.
    pub fn gateway_timeout() -> (error: OnwardsErrorResponse)
        ensures
            error@ == ErrorView::gateway_timeout(),
    {
        plain(
            504,
            "The upstream provider took too long to respond. Please try again later.".to_owned(),
            "internal_error",
            "gateway_timeout",
        )
    }

    /// The body that is sent to the client.
    pub fn to_json(self) -> (json: Option<Json>)
        ensures
            crate::json::optional_tree(json) == error_document(self@),
    {
        match self.body {
            Some(body) => {
                let mut detail = JsonObject::new();
                detail.insert("message", Json::Text(body.message));
                detail.insert("type", Json::Text(body.error_type));
                let param = match body.param {
                    Some(p) => Json::Text(p),
                    None => Json::Null,
                };
                detail.insert("param", param);
                detail.insert("code", Json::Text(body.code));
                let mut document = JsonObject::new();
                document.insert("error", Json::Object(detail));
                Some(Json::Object(document))
            },
            None => None,
        }
    }
}

/// The document that an error response carries: an object whose one member is `error`.
pub open spec fn error_document(error: ErrorView) -> Option<JsonTree> {
    match error.body {
        Some(body) => Some(
            JsonTree::Object(
                Map::<Seq<char>, JsonTree>::empty().insert(
                    "error"@,
                    JsonTree::Object(
                        Map::<Seq<char>, JsonTree>::empty().insert(
                            "message"@,
                            JsonTree::Text(body.message),
                        ).insert("type"@, JsonTree::Text(body.error_type)).insert(
                            "param"@,
                            match body.param {
                                Some(p) => JsonTree::Text(p),
                                None => JsonTree::Null,
                            },
                        ).insert("code"@, JsonTree::Text(body.code)),
                    ),
                ),
            ),
        ),
        None => None,
    }
}

/// What clients are told: the status of each error, and the code under which it can be told apart.
pub proof fn law_statuses(
    model: Seq<char>,
    message: Seq<char>,
    param: Option<Seq<char>>,
    limit: nat,
    status: u16,
)
    ensures
        ErrorView::bad_request(message, param).status == 400,
        ErrorView::unauthorized().status == 401,
        ErrorView::forbidden().status == 403,
        ErrorView::model_not_found(model).status == 404,
        ErrorView::payload_too_large(limit).status == 413,
        ErrorView::unprocessable_request(message, param).status == 422,
        ErrorView::rate_limited().status == 429,
        ErrorView::concurrency_limited().status == 429,
        ErrorView::internal().status == 500,
        ErrorView::bad_gateway().status == 502,
        ErrorView::service_unavailable().status == 503,
        ErrorView::gateway_timeout().status == 504,
        ErrorView::upstream_rejected(status).status == status,
        ErrorView::upstream_failed(status).status == status,
        ErrorView::rate_limited() != ErrorView::concurrency_limited(),
        ErrorView::bad_request(message, param).body matches Some(body) && body.message == message
            && body.param == param && body.code == "bad_request"@ && body.error_type
            == "invalid_request_error"@,
        ErrorView::unprocessable_request(message, param).body matches Some(body) && body.message
            == message && body.param == param && body.code == "unprocessable_request"@
            && body.error_type == "invalid_request_error"@,
        ErrorView::model_not_found(model).body matches Some(body) && body.code
            == "model_not_found"@ && text::occurs_in(model, body.message),
        ErrorView::payload_too_large(limit).body matches Some(body) && body.code
            == "payload_too_large"@ && text::occurs_in(text::numeral(limit), body.message),
        ErrorView::rate_limited().body matches Some(body) && body.code == "rate_limit"@
            && body.error_type == "rate_limit_error"@,
        ErrorView::concurrency_limited().body matches Some(body) && body.code
            == "concurrency_limit_exceeded"@ && body.error_type == "rate_limit_error"@,
        ErrorView::unauthorized().body matches Some(body) && body.code == "unauthenticated"@,
        ErrorView::forbidden().body matches Some(body) && body.code == "unauthorized"@,
        ErrorView::service_unavailable().body matches Some(body) && body.code
            == "service_unavailable"@ && body.error_type == "service_unavailable_error"@,
        ErrorView::gateway_timeout().body matches Some(body) && body.code == "gateway_timeout"@,
        ErrorView::internal().body == ErrorView::bad_gateway().body,
        ErrorView::internal().body matches Some(body) && body.code == "internal_error"@,
        ErrorView::upstream_rejected(status).body matches Some(body) && body.code
            == "upstream_error"@ && body.error_type == "invalid_request_error"@,
        ErrorView::upstream_failed(status).body == ErrorView::internal().body,
{
    text::lemma_part_occurs(
        "The model `"@,
        model,
        "` does not exist or you do not have access to it."@,
    );
    text::lemma_part_occurs(
        "The request body exceeds the limit of "@,
        text::numeral(limit),
        " bytes."@,
    );
    reveal_strlit("rate_limit");
    reveal_strlit("concurrency_limit_exceeded");
    assert("rate_limit"@.len() != "concurrency_limit_exceeded"@.len());
}

/// The document of an error has one member, `error`, in which what the client is told can be read
/// back; there is a document exactly when the client is told something.
pub proof fn law_document_tells_the_error(error: ErrorView, key: Seq<char>)
    ensures
        error_document(error) is Some <==> error.body is Some,
        error.body matches Some(body) ==> {
            let document = error_document(error)->0;
            &&& document.member("error"@) matches Some(told)
            &&& told.member("message"@) == Some(JsonTree::Text(body.message))
            &&& told.member("type"@) == Some(JsonTree::Text(body.error_type))
            &&& told.member("code"@) == Some(JsonTree::Text(body.code))
            &&& body.param is None ==> told.member("param"@) == Some(JsonTree::Null)
            &&& body.param matches Some(p) ==> told.member("param"@) == Some(JsonTree::Text(p))
            &&& key != "error"@ ==> document.member(key) is None
            &&& key != "message"@ && key != "type"@ && key != "code"@ && key != "param"@
                ==> told.member(key) is None
        },
{
    reveal_strlit("message");
    reveal_strlit("type");
    reveal_strlit("code");
    reveal_strlit("param");
    assert("message"@.len() != "type"@.len());
    assert("type"@[0] != "code"@[0]);
    assert("param"@.len() != "type"@.len());
}

} // verus!
