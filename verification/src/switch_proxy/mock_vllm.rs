//! A server that answers like vLLM without a model behind it.
use vstd::prelude::*;
use crate::json;
use crate::json::{Json, JsonObject, JsonTree};
use crate::span::Span;
use crate::text;

verus! {

/// Milliseconds that the weights take to load again.
pub const RELOAD_MILLIS: u64 = 100;

/// The `max_tokens` of a request that has none.
pub fn default_max_tokens() -> (tokens: u32)
    ensures
        tokens == 100,
{
    100
}

/// The model and the port of a server: those of the subcommand `serve` where it is given, with the
/// general port where it has none.
pub fn model_and_port(serve: Option<(String, Option<u16>)>, model: String, port: u16) -> (chosen: (
    String,
    u16,
))
    ensures
        match serve {
            Some((served, own_port)) => chosen.0@ == served@ && chosen.1 == match own_port {
                Some(p) => p,
                None => port,
            },
            None => chosen.0@ == model@ && chosen.1 == port,
        },
{
    match serve {
        Some((served, Some(own_port))) => (served, own_port),
        Some((served, None)) => (served, port),
        None => (model, port),
    }
}

/// How long a call of a method takes.
pub fn rpc_delay(method: &str) -> (delay: Span)
    ensures
        delay == if method@ == "reload_weights"@ {
            Span::millis(RELOAD_MILLIS)
        } else {
            (Span { nanos: 0 })
        },
{
    if text::same_text(method, "reload_weights") {
        Span::from_millis(RELOAD_MILLIS)
    } else {
        Span::zero()
    }
}

/// What the server remembers.
#[derive(Debug)]
pub struct MockState {
    pub model: String,
    pub sleeping: bool,
    pub sleep_level: u8,
    /// The number of chat requests that were answered.
    pub request_count: u64,
}

/// What an answer to a chat request says.
pub open spec fn chat_content(model: Seq<char>, count: nat, said: Seq<char>) -> Seq<char> {
    "Mock response from "@ + model + " (request #"@ + text::numeral(count) + "): You said \""@ + said
        + "\""@
}

/// The answer to a chat request.
pub open spec fn chat_document(model: Seq<char>, count: nat, said: Seq<char>, created: u64) -> JsonTree {
    JsonTree::Object(
        Map::<Seq<char>, JsonTree>::empty().insert(
            "id"@,
            JsonTree::Text("chatcmpl-mock-"@ + text::numeral(count)),
        ).insert("object"@, JsonTree::Text("chat.completion"@)).insert(
            "created"@,
            JsonTree::Unsigned(created),
        ).insert("model"@, JsonTree::Text(model)).insert(
            "choices"@,
            JsonTree::Array(
                seq![
                    JsonTree::Object(
                        Map::<Seq<char>, JsonTree>::empty().insert(
                            "index"@,
                            JsonTree::Unsigned(0),
                        ).insert(
                            "message"@,
                            JsonTree::Object(
                                Map::<Seq<char>, JsonTree>::empty().insert(
                                    "role"@,
                                    JsonTree::Text("assistant"@),
                                ).insert(
                                    "content"@,
                                    JsonTree::Text(chat_content(model, count, said)),
                                ),
                            ),
                        ).insert("finish_reason"@, JsonTree::Text("stop"@)),
                    ),
                ],
            ),
        ).insert(
            "usage"@,
            JsonTree::Object(
                Map::<Seq<char>, JsonTree>::empty().insert(
                    "prompt_tokens"@,
                    JsonTree::Unsigned(10),
                ).insert("completion_tokens"@, JsonTree::Unsigned(20)).insert(
                    "total_tokens"@,
                    JsonTree::Unsigned(30),
                ),
            ),
        ),
    )
}

impl MockState {
    /// A server that is awake.
    pub fn new(model: String) -> (state: MockState)
        ensures
            state.model == model,
            !state.sleeping,
            state.sleep_level == 0,
            state.request_count == 0,
    {
        MockState { model, sleeping: false, sleep_level: 0, request_count: 0 }
    }

    /// Puts the server to sleep, at level one where none is given.
    pub fn sleep(&mut self, level: Option<u8>)
        ensures
            final(self).sleeping,
            final(self).sleep_level == match level {
                Some(l) => l,
                None => 1,
            },
            final(self).model == old(self).model,
            final(self).request_count == old(self).request_count,
    {
        self.sleeping = true;
        self.sleep_level = match level {
            Some(level) => level,
            None => 1,
        };
    }

    /// Wakes the server.
    pub fn wake_up(&mut self)
        ensures
            *final(self) == (MockState { sleeping: false, ..*old(self) }),
    {
        self.sleeping = false;
    }

    /// The status of the server: it is healthy even while it sleeps.
    pub fn health(&self) -> (status: u16)
        ensures
            status == 200,
    {
        200
    }

    /// Why a chat request is refused, if it is: the server sleeps.
    pub fn refusal(&self) -> (refusal: Option<(u16, String)>)
        ensures
            match refusal {
                Some((status, message)) => self.sleeping && status == 503 && message@
                    == "Model is sleeping"@,
                None => !self.sleeping,
            },
    {
        if self.sleeping {
            Some((503, "Model is sleeping".to_owned()))
        } else {
            None
        }
    }

    /// Answers a chat request whose last message is `last`, if it has one.
    pub fn chat_completions(&mut self, last: Option<&str>, created: u64) -> (answer: Json)
        requires
            old(self).request_count < u64::MAX,
        ensures
            final(self).request_count == old(self).request_count + 1,
            final(self).model == old(self).model,
            final(self).sleeping == old(self).sleeping,
            final(self).sleep_level == old(self).sleep_level,
            answer@ == chat_document(
                old(self).model@,
                (old(self).request_count + 1) as nat,
                match last {
                    Some(said) => said@,
                    None => ""@,
                },
                created,
            ),
    {
        self.request_count = self.request_count + 1;
        let number = text::decimal(self.request_count);
        let said = match last {
            Some(said) => said,
            None => "",
        };
        let content = "Mock response from ".to_owned().concat(self.model.as_str()).concat(
            " (request #",
        ).concat(number.as_str()).concat("): You said \"").concat(said).concat("\"");
        let mut message = JsonObject::new();
        message.insert("role", Json::Text("assistant".to_owned()));
        message.insert("content", Json::Text(content));
        let mut choice = JsonObject::new();
        choice.insert("index", Json::Unsigned(0));
        choice.insert("message", Json::Object(message));
        choice.insert("finish_reason", Json::Text("stop".to_owned()));
        let mut choices: Vec<Json> = Vec::new();
        choices.push(Json::Object(choice));
        assert(json::trees(choices@) =~= seq![choices@[0]@]);
        let mut usage = JsonObject::new();
        usage.insert("prompt_tokens", Json::Unsigned(10));
        usage.insert("completion_tokens", Json::Unsigned(20));
        usage.insert("total_tokens", Json::Unsigned(30));
        let mut answer = JsonObject::new();
        answer.insert("id", Json::Text("chatcmpl-mock-".to_owned().concat(number.as_str())));
        answer.insert("object", Json::Text("chat.completion".to_owned()));
        answer.insert("created", Json::Unsigned(created));
        answer.insert("model", Json::Text(self.model.clone()));
        answer.insert("choices", Json::Array(choices));
        answer.insert("usage", Json::Object(usage));
        Json::Object(answer)
    }

    /// The list of the models of the server, which is one.
    pub fn list_models(&self) -> (list: Json)
        ensures
            list@ == JsonTree::Object(
                Map::<Seq<char>, JsonTree>::empty().insert("object"@, JsonTree::Text("list"@)).insert(
                    "data"@,
                    JsonTree::Array(
                        seq![
                            JsonTree::Object(
                                Map::<Seq<char>, JsonTree>::empty().insert(
                                    "id"@,
                                    JsonTree::Text(self.model@),
                                ).insert("object"@, JsonTree::Text("model"@)).insert(
                                    "owned_by"@,
                                    JsonTree::Text("mock-vllm"@),
                                ),
                            ),
                        ],
                    ),
                ),
            ),
    {
        let mut model = JsonObject::new();
        model.insert("id", Json::Text(self.model.clone()));
        model.insert("object", Json::Text("model".to_owned()));
        model.insert("owned_by", Json::Text("mock-vllm".to_owned()));
        let mut data: Vec<Json> = Vec::new();
        data.push(Json::Object(model));
        assert(json::trees(data@) =~= seq![data@[0]@]);
        let mut list = JsonObject::new();
        list.insert("object", Json::Text("list".to_owned()));
        list.insert("data", Json::Array(data));
        Json::Object(list)
    }

    /// What the server remembers, as a document.
    pub fn stats(&self) -> (document: Json)
        ensures
            document@ == JsonTree::Object(
                Map::<Seq<char>, JsonTree>::empty().insert(
                    "model"@,
                    JsonTree::Text(self.model@),
                ).insert("sleeping"@, JsonTree::Bool(self.sleeping)).insert(
                    "sleep_level"@,
                    JsonTree::Unsigned(self.sleep_level as u64),
                ).insert("request_count"@, JsonTree::Unsigned(self.request_count)),
            ),
    {
        let mut document = JsonObject::new();
        document.insert("model", Json::Text(self.model.clone()));
        document.insert("sleeping", Json::Bool(self.sleeping));
        document.insert("sleep_level", Json::Unsigned(self.sleep_level as u64));
        document.insert("request_count", Json::Unsigned(self.request_count));
        Json::Object(document)
    }
}

/// What is answered holds the model, the number of the request and what was said.
pub proof fn law_answer_repeats_what_was_said(model: Seq<char>, count: nat, said: Seq<char>)
    ensures
        text::occurs_in(model, chat_content(model, count, said)),
        text::occurs_in(text::numeral(count), chat_content(model, count, said)),
        text::occurs_in(said, chat_content(model, count, said)),
{
    let whole = chat_content(model, count, said);
    let head = "Mock response from "@;
    let middle = " (request #"@;
    let quote = "): You said \""@;
    let end = "\""@;
    let number = text::numeral(count);
    let after_model = middle + number + quote + said + end;
    assert(whole =~= head + model + after_model);
    text::lemma_part_occurs(head, model, after_model);
    let before_number = head + model + middle;
    let after_number = quote + said + end;
    assert(whole =~= before_number + number + after_number);
    text::lemma_part_occurs(before_number, number, after_number);
    let before_said = head + model + middle + number + quote;
    assert(whole =~= before_said + said + end);
    text::lemma_part_occurs(before_said, said, end);
}

/// The answer is a completion of the model with one choice, in which the assistant says the content; the
/// tokens of prompt and completion make up the total.
pub proof fn law_shape_of_an_answer(model: Seq<char>, count: nat, said: Seq<char>, created: u64)
    ensures
        ({
            let document = chat_document(model, count, said, created);
            &&& document.member("model"@) == Some(JsonTree::Text(model))
            &&& document.member("created"@) == Some(JsonTree::Unsigned(created))
            &&& document.member("object"@) == Some(JsonTree::Text("chat.completion"@))
            &&& document.member("id"@) == Some(
                JsonTree::Text("chatcmpl-mock-"@ + text::numeral(count)),
            )
            &&& document.member("choices"@) matches Some(JsonTree::Array(choices))
            &&& choices.len() == 1
            &&& choices[0].member("index"@) == Some(JsonTree::Unsigned(0))
            &&& choices[0].member("finish_reason"@) == Some(JsonTree::Text("stop"@))
            &&& choices[0].member("message"@) matches Some(message)
            &&& message.member("role"@) == Some(JsonTree::Text("assistant"@))
            &&& message.member("content"@) == Some(
                JsonTree::Text(chat_content(model, count, said)),
            )
            &&& document.member("usage"@) matches Some(usage)
            &&& usage.member("prompt_tokens"@) matches Some(JsonTree::Unsigned(asked))
            &&& usage.member("completion_tokens"@) matches Some(JsonTree::Unsigned(answered))
            &&& usage.member("total_tokens"@) matches Some(JsonTree::Unsigned(total))
            &&& total == asked + answered
        }),
{
    reveal_strlit("id");
    reveal_strlit("object");
    reveal_strlit("created");
    reveal_strlit("model");
    reveal_strlit("choices");
    reveal_strlit("usage");
    reveal_strlit("index");
    reveal_strlit("message");
    reveal_strlit("finish_reason");
    reveal_strlit("role");
    reveal_strlit("content");
    reveal_strlit("prompt_tokens");
    reveal_strlit("completion_tokens");
    reveal_strlit("total_tokens");
    assert("id"@.len() == 2);
    assert("object"@.len() == 6);
    assert("created"@.len() == 7);
    assert("model"@.len() == 5);
    assert("choices"@.len() == 7);
    assert("usage"@.len() == 5);
    assert("model"@[0] != "usage"@[0]);
    assert("created"@[1] != "choices"@[1]);
    assert("index"@.len() == 5);
    assert("message"@.len() == 7);
    assert("finish_reason"@.len() == 13);
    assert("role"@.len() != "content"@.len());
    assert("prompt_tokens"@.len() == 13);
    assert("completion_tokens"@.len() == 17);
    assert("total_tokens"@.len() == 12);
}

} // verus!
