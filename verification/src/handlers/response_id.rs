//! Whether the `id` of a response is replaced by one that the client chose.
use axum::http::{HeaderMap, HeaderValue};
use vstd::prelude::*;
use crate::cache_usage;
use crate::handlers::relay;
use crate::headers;
use crate::json;
use crate::json::{Json, JsonTree};
use crate::text;

verus! {

/// The id that takes the place of the one in a response: the one that the client chose, where ids
/// can be chosen at all, responses on the path have one, and the response tells success.
pub open spec fn chosen_id(
    enabled: bool,
    path_has_id: bool,
    status: u16,
    chosen: Option<Seq<char>>,
) -> Option<Seq<char>> {
    if enabled && path_has_id && relay::is_success(status) {
        chosen
    } else {
        None
    }
}

/// The id that takes the place of the one in a response.
pub fn override_id(enabled: bool, path_has_id: bool, status: u16, chosen: Option<String>) -> (id:
    Option<String>)
    ensures
        text::optional(id) == chosen_id(enabled, path_has_id, status, text::optional(chosen)),
{
    if enabled && path_has_id && 200 <= status && status < 300 {
        chosen
    } else {
        None
    }
}

/// The id that a value of the client stands for: it begins with `resp_`, which is put before it
/// where it does not.
pub open spec fn full_id(value: Seq<char>) -> Seq<char> {
    if text::begins_with(value, "resp_"@) {
        value
    } else {
        "resp_"@ + value
    }
}

/// The id that a client asks for in a header.
pub fn requested_id(h: &HeaderMap<HeaderValue>, header: &str) -> (id: Option<String>)
    ensures
        text::optional(id) == match headers::header_name(header@) {
            Some(name) => match headers::header_text(*h, name) {
                Some(value) => Some(full_id(value)),
                None => None,
            },
            None => None,
        },
{
    let name = match headers::parse_header_name(header) {
        Some(name) => name,
        None => {
            return None;
        },
    };
    proof {
        headers::law_lowered_name_is_fixed(header@);
    }
    match headers::get_text(h, name.as_str()) {
        Some(value) => {
            let chars = text::chars_of(value.as_str());
            let prefix = text::chars_of("resp_");
            if text::strip_prefix(chars.as_slice(), prefix.as_slice()).is_some() {
                Some(value)
            } else {
                Some("resp_".to_owned().concat(value.as_str()))
            }
        },
        None => None,
    }
}

/// Whether the responses to requests on a path have an id at the top: those of the Responses API
/// and of chat completions.
pub open spec fn is_identified(path: Seq<char>) -> bool {
    text::finishes_with(path, "/responses"@) || text::finishes_with(path, "/chat/completions"@)
}

/// Whether the responses to requests on a path, given without its query, have an id at the top.
pub fn path_has_id(path: &str) -> (yes: bool)
    ensures
        yes == is_identified(path@),
{
    let chars = text::chars_of(path);
    let responses = text::chars_of("/responses");
    let completions = text::chars_of("/chat/completions");
    text::ends_with(chars.as_slice(), responses.as_slice()) || text::ends_with(
        chars.as_slice(),
        completions.as_slice(),
    )
}

/// A body with another id at the top; nothing if it is no object that has an id.
pub open spec fn with_id(body: Seq<u8>, id: Seq<char>) -> Option<Seq<u8>> {
    match json::parsed_json(body) {
        Some(tree) => match tree.member("id"@) {
            Some(_) => cache_usage::json_bytes(
                JsonTree::Object((tree->Object_0).insert("id"@, JsonTree::Text(id))),
            ),
            None => None,
        },
        None => None,
    }
}

/// Replaces the id at the top of a body, if there is one.
pub fn replace_id(body: &[u8], id: &str) -> (changed: Option<Vec<u8>>)
    ensures
        match changed {
            Some(bytes) => with_id(body@, id@) == Some(bytes@),
            None => with_id(body@, id@) is None,
        },
{
    match Json::parse(body) {
        Some(Json::Object(mut object)) => {
            if object.has("id") {
                object.insert("id", Json::Text(id.to_owned()));
                cache_usage::render_bytes(Json::Object(object))
            } else {
                None
            }
        },
        _ => None,
    }
}

/// An id begins with `resp_`, and is what the client chose, with that before it where it was missing.
pub proof fn law_ids_begin_alike(value: Seq<char>, rest: Seq<char>)
    ensures
        full_id("resp_"@ + rest) == "resp_"@ + rest,
        !text::begins_with(value, "resp_"@) ==> full_id(value) == "resp_"@ + value,
        text::begins_with(full_id(value), "resp_"@),
        full_id(full_id(value)) == full_id(value),
{
    text::law_prefix_and_suffix(value, "resp_"@, rest);
    text::law_prefix_and_suffix(value, "resp_"@, value);
}

/// The id that the client chose is put into a response exactly when ids can be chosen, responses on the
/// path have one, and the response tells success.
pub proof fn law_when_an_id_is_replaced(
    enabled: bool,
    path_has_id: bool,
    status: u16,
    chosen: Option<Seq<char>>,
)
    ensures
        enabled && path_has_id && 200 <= status < 300 ==> chosen_id(enabled, path_has_id, status, chosen)
            == chosen,
        !enabled || !path_has_id || status < 200 || status >= 300 ==> chosen_id(
            enabled,
            path_has_id,
            status,
            chosen,
        ) is None,
{
}

/// Responses have an id exactly on the paths that end in `/responses` or `/chat/completions`.
pub proof fn law_paths_with_an_id(base: Seq<char>, path: Seq<char>)
    ensures
        is_identified(base + "/responses"@),
        is_identified(base + "/chat/completions"@),
        is_identified(path) ==> (exists|a: Seq<char>| path == #[trigger] (a + "/responses"@)) || (exists|
            a: Seq<char>,
        | path == #[trigger] (a + "/chat/completions"@)),
{
    text::law_prefix_and_suffix(path, "/responses"@, base);
    text::law_prefix_and_suffix(path, "/chat/completions"@, base);
}

/// Whether a document is another one with nothing but its id replaced.
pub open spec fn differs_in_id(changed: JsonTree, tree: JsonTree, id: Seq<char>) -> bool {
    &&& changed is Object
    &&& changed.member("id"@) == Some(JsonTree::Text(id))
    &&& forall|key: Seq<char>| key != "id"@ ==> #[trigger] changed.member(key) == tree.member(key)
}

/// A body whose document has an id becomes the text of that document with the id replaced and everything
/// else kept; any other body is left.
pub proof fn law_only_the_id_is_replaced(body: Seq<u8>, id: Seq<char>)
    ensures
        match json::parsed_json(body) {
            Some(tree) => if tree.member("id"@) is Some {
                exists|changed: JsonTree| #[trigger]
                    differs_in_id(changed, tree, id) && with_id(body, id) == cache_usage::json_bytes(
                        changed,
                    )
            } else {
                with_id(body, id) is None
            },
            None => with_id(body, id) is None,
        },
{
    if let Some(tree) = json::parsed_json(body) {
        if tree.member("id"@) is Some {
            let changed = JsonTree::Object((tree->Object_0).insert("id"@, JsonTree::Text(id)));
            assert(differs_in_id(changed, tree, id));
        }
    }
}

} // verus!
