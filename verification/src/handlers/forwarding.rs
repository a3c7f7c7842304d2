//! The request that an upstream is sent: its URL, headers and body.
use axum::http::{HeaderMap, HeaderValue};
use vstd::prelude::*;
use vstd::utf8::{encode_utf8, is_ascii_chars_encode_utf8};
use crate::cache_usage;
use crate::errors::{ErrorView, OnwardsErrorResponse};
use crate::headers;
use crate::json;
use crate::json::{Json, JsonTree};
use crate::target;
use crate::target::Target;
use crate::text;

verus! {

// ---------------------------------------------------------------------------
// Headers
// ---------------------------------------------------------------------------

/// The headers of a client that no upstream gets to see: those that concern one hop, credentials,
/// the browser's context (every name that begins with `sec-` among them), cookies, conditions on
/// cached copies, and the choice of a model.
pub open spec fn is_withheld(name: Seq<char>) -> bool {
    ||| name == "connection"@
    ||| name == "keep-alive"@
    ||| name == "proxy-authenticate"@
    ||| name == "proxy-authorization"@
    ||| name == "te"@
    ||| name == "trailer"@
    ||| name == "upgrade"@
    ||| name == "authorization"@
    ||| name == "x-api-key"@
    ||| name == "api-key"@
    ||| name == "origin"@
    ||| name == "referer"@
    ||| name == "cookie"@
    ||| name == "if-modified-since"@
    ||| name == "if-none-match"@
    ||| name == "if-match"@
    ||| name == "if-unmodified-since"@
    ||| name == "if-range"@
    ||| name == "model-override"@
    ||| text::begins_with(name, "sec-"@)
}

/// The headers without those that no upstream gets to see.
pub open spec fn without_withheld(before: Map<Seq<char>, Seq<Seq<u8>>>) -> Map<
    Seq<char>,
    Seq<Seq<u8>>,
> {
    Map::new(
        |name: Seq<char>| before.dom().contains(name) && !is_withheld(name),
        |name: Seq<char>| before[name],
    )
}

/// The names, all in lower case, that are withheld one by one.
proof fn lemma_withheld_names()
    ensures
        headers::header_name("connection"@) == Some("connection"@),
        headers::header_name("keep-alive"@) == Some("keep-alive"@),
        headers::header_name("proxy-authenticate"@) == Some("proxy-authenticate"@),
        headers::header_name("proxy-authorization"@) == Some("proxy-authorization"@),
        headers::header_name("te"@) == Some("te"@),
        headers::header_name("trailer"@) == Some("trailer"@),
        headers::header_name("upgrade"@) == Some("upgrade"@),
        headers::header_name("authorization"@) == Some("authorization"@),
        headers::header_name("x-api-key"@) == Some("x-api-key"@),
        headers::header_name("api-key"@) == Some("api-key"@),
        headers::header_name("origin"@) == Some("origin"@),
        headers::header_name("referer"@) == Some("referer"@),
        headers::header_name("cookie"@) == Some("cookie"@),
        headers::header_name("if-modified-since"@) == Some("if-modified-since"@),
        headers::header_name("if-none-match"@) == Some("if-none-match"@),
        headers::header_name("if-match"@) == Some("if-match"@),
        headers::header_name("if-unmodified-since"@) == Some("if-unmodified-since"@),
        headers::header_name("if-range"@) == Some("if-range"@),
        headers::header_name("model-override"@) == Some("model-override"@),
{
    reveal_with_fuel(headers::lower_prefix, 20);
    reveal_strlit("connection");
    headers::lemma_lower_name("connection"@);
    reveal_strlit("keep-alive");
    headers::lemma_lower_name("keep-alive"@);
    reveal_strlit("proxy-authenticate");
    headers::lemma_lower_name("proxy-authenticate"@);
    reveal_strlit("proxy-authorization");
    headers::lemma_lower_name("proxy-authorization"@);
    reveal_strlit("te");
    headers::lemma_lower_name("te"@);
    reveal_strlit("trailer");
    headers::lemma_lower_name("trailer"@);
    reveal_strlit("upgrade");
    headers::lemma_lower_name("upgrade"@);
    reveal_strlit("authorization");
    headers::lemma_lower_name("authorization"@);
    reveal_strlit("x-api-key");
    headers::lemma_lower_name("x-api-key"@);
    reveal_strlit("api-key");
    headers::lemma_lower_name("api-key"@);
    reveal_strlit("origin");
    headers::lemma_lower_name("origin"@);
    reveal_strlit("referer");
    headers::lemma_lower_name("referer"@);
    reveal_strlit("cookie");
    headers::lemma_lower_name("cookie"@);
    reveal_strlit("if-modified-since");
    headers::lemma_lower_name("if-modified-since"@);
    reveal_strlit("if-none-match");
    headers::lemma_lower_name("if-none-match"@);
    reveal_strlit("if-match");
    headers::lemma_lower_name("if-match"@);
    reveal_strlit("if-unmodified-since");
    headers::lemma_lower_name("if-unmodified-since"@);
    reveal_strlit("if-range");
    headers::lemma_lower_name("if-range"@);
    reveal_strlit("model-override");
    headers::lemma_lower_name("model-override"@);
}

/// Removes the headers that no upstream gets to see.
fn strip_withheld(h: &mut HeaderMap<HeaderValue>)
    ensures
        headers::entries(*final(h)) == without_withheld(headers::entries(*old(h))),
{
    proof {
        lemma_withheld_names();
    }
    let ghost before = headers::entries(*h);
    headers::remove_header(h, "connection");
    headers::remove_header(h, "keep-alive");
    headers::remove_header(h, "proxy-authenticate");
    headers::remove_header(h, "proxy-authorization");
    headers::remove_header(h, "te");
    headers::remove_header(h, "trailer");
    headers::remove_header(h, "upgrade");
    headers::remove_header(h, "authorization");
    headers::remove_header(h, "x-api-key");
    headers::remove_header(h, "api-key");
    headers::remove_header(h, "origin");
    headers::remove_header(h, "referer");
    headers::remove_header(h, "cookie");
    headers::remove_header(h, "if-modified-since");
    headers::remove_header(h, "if-none-match");
    headers::remove_header(h, "if-match");
    headers::remove_header(h, "if-unmodified-since");
    headers::remove_header(h, "if-range");
    headers::remove_header(h, "model-override");
    let ghost named = headers::entries(*h);
    let all = headers::names(h);
    let prefix = text::chars_of("sec-");
    let mut i: usize = 0;
    while i < all.len()
        invariant
            i <= all.len(),
            prefix@ == "sec-"@,
            headers::entries(*h).dom().subset_of(named.dom()),
            forall|name: Seq<char>| #[trigger]
                headers::entries(*h).dom().contains(name) ==> headers::entries(*h)[name] == named[name],
            forall|name: Seq<char>|
                named.dom().contains(name) && !text::begins_with(name, "sec-"@) ==> #[trigger]
                    headers::entries(*h).dom().contains(name),
            forall|k: int|
                0 <= k < i && text::begins_with(headers::name_text(#[trigger] all@[k]), "sec-"@)
                    ==> !headers::entries(*h).dom().contains(headers::name_text(all@[k])),
        decreases all.len() - i,
    {
        let name = text::chars_of(headers::text_of_name(&all[i]));
        if text::strip_prefix(name.as_slice(), prefix.as_slice()).is_some() {
            headers::remove_named(h, &all[i]);
        }
        i = i + 1;
    }
    proof {
        let after = headers::entries(*h);
        let want = without_withheld(before);
        assert forall|name: Seq<char>| after.dom().contains(name) <==> want.dom().contains(name) by {
            if after.dom().contains(name) && text::begins_with(name, "sec-"@) {
                assert(named.dom().contains(name));
                let k = choose|k: int| 0 <= k < all@.len() && headers::name_text(#[trigger] all@[k]) == name;
                assert(false);
            }
        }
        assert(after =~= want);
    }
}

/// The header in which a target gets its key, and its value.
pub open spec fn auth_header(target: Target) -> Option<(Seq<char>, Seq<u8>)> {
    match target.onwards_key {
        Some(key) => Some(
            (
                match target.upstream_auth_header_name {
                    Some(name) => name@,
                    None => "Authorization"@,
                },
                encode_utf8(
                    match target.upstream_auth_header_prefix {
                        Some(prefix) => prefix@,
                        None => "Bearer "@,
                    } + key@,
                ),
            ),
        ),
        None => None,
    }
}

/// Whether the key of a target can be sent as its settings say.
pub open spec fn auth_is_sendable(target: Target) -> bool {
    auth_header(target) matches Some((name, value)) ==> headers::header_name(name) is Some
        && headers::is_header_value(value)
}

/// The headers that an upstream is sent for those of a client.
pub open spec fn forwarded_headers(
    before: Map<Seq<char>, Seq<Seq<u8>>>,
    target: Target,
) -> Map<Seq<char>, Seq<Seq<u8>>> {
    let kept = without_withheld(before);
    let signed = match auth_header(target) {
        Some((name, value)) => kept.insert(headers::header_name(name)->0, seq![value]),
        None => kept,
    };
    signed.insert("x-forwarded-proto"@, seq![encode_utf8("https"@)])
}

/// Whether the key of a target can be sent as its settings say.
pub fn check_auth(target: &Target) -> (sendable: bool)
    ensures
        sendable == auth_is_sendable(*target),
{
    match auth_parts(target) {
        Some((name, value)) => headers::parse_header_name(name.as_str()).is_some()
            && headers::valid_header_value(value.as_slice()),
        None => true,
    }
}

/// The header in which a target gets its key, and its value.
fn auth_parts(target: &Target) -> (parts: Option<(String, Vec<u8>)>)
    ensures
        match parts {
            Some(p) => auth_header(*target) == Some((p.0@, p.1@)),
            None => auth_header(*target) is None,
        },
{
    match &target.onwards_key {
        Some(key) => {
            let name = match &target.upstream_auth_header_name {
                Some(name) => name.clone(),
                None => "Authorization".to_owned(),
            };
            let prefix = match &target.upstream_auth_header_prefix {
                Some(prefix) => prefix.clone(),
                None => "Bearer ".to_owned(),
            };
            let value = prefix.concat(key.as_str());
            Some((name, value.as_str().as_bytes_vec()))
        },
        None => None,
    }
}

/// Leaving headers out does not make them more.
proof fn lemma_room_left(before: Map<Seq<char>, Seq<Seq<u8>>>, after: Map<Seq<char>, Seq<Seq<u8>>>)
    requires
        before.dom().finite(),
        after.dom().subset_of(before.dom()),
    ensures
        after.dom().finite(),
        after.dom().len() <= before.dom().len(),
{
    vstd::set_lib::lemma_len_subset(after.dom(), before.dom());
}

/// Turns the headers of a client into those that an upstream is sent.
pub fn filter_headers_for_upstream(h: &mut HeaderMap<HeaderValue>, target: &Target)
    requires
        headers::has_room(*old(h), 1),
        auth_is_sendable(*target),
    ensures
        headers::entries(*final(h)) == forwarded_headers(headers::entries(*old(h)), *target),
{
    proof {
        headers::lemma_known_names();
        lemma_room_left(headers::entries(*h), without_withheld(headers::entries(*h)));
    }
    strip_withheld(h);
    if let Some((name, value)) = auth_parts(target) {
        if let Some(lowered) = headers::parse_header_name(name.as_str()) {
            proof {
                headers::law_lowered_name_is_fixed(name@);
            }
            headers::insert_header(h, lowered.as_str(), value.as_slice());
        }
    }
    proof {
        reveal_strlit("https");
        is_ascii_chars_encode_utf8("https"@);
    }
    headers::insert_header(h, "x-forwarded-proto", "https".as_bytes());
}

/// The header that tells the protocol is not one that is withheld.
proof fn lemma_proto_is_kept()
    ensures
        !is_withheld("x-forwarded-proto"@),
{
    let proto = "x-forwarded-proto"@;
    reveal_strlit("x-forwarded-proto");
    reveal_strlit("sec-");
    reveal_strlit("connection");
    reveal_strlit("keep-alive");
    reveal_strlit("proxy-authenticate");
    reveal_strlit("proxy-authorization");
    reveal_strlit("te");
    reveal_strlit("trailer");
    reveal_strlit("upgrade");
    reveal_strlit("authorization");
    reveal_strlit("x-api-key");
    reveal_strlit("api-key");
    reveal_strlit("origin");
    reveal_strlit("referer");
    reveal_strlit("cookie");
    reveal_strlit("if-modified-since");
    reveal_strlit("if-none-match");
    reveal_strlit("if-match");
    reveal_strlit("if-unmodified-since");
    reveal_strlit("if-range");
    reveal_strlit("model-override");
    assert(proto.len() == 17);
    assert(proto[0] == 'x');
    assert("if-modified-since"@[0] == 'i');
    if text::begins_with(proto, "sec-"@) {
        assert(proto.take(4)[0] == "sec-"@[0]);
    }
}

/// No header that is withheld reaches an upstream, but for the one in which the target's own key
/// is sent; every other header of the client does, unchanged.
pub proof fn law_withheld_headers_do_not_pass(
    before: Map<Seq<char>, Seq<Seq<u8>>>,
    target: Target,
    name: Seq<char>,
)
    requires
        auth_is_sendable(target),
        auth_header(target) matches Some((auth, value)) ==> headers::header_name(auth) != Some(name),
    ensures
        is_withheld(name) ==> !forwarded_headers(before, target).dom().contains(name),
        !is_withheld(name) && name != "x-forwarded-proto"@ ==> (forwarded_headers(
            before,
            target,
        ).dom().contains(name) <==> before.dom().contains(name)) && (before.dom().contains(name)
            ==> forwarded_headers(before, target)[name] == before[name]),
{
    lemma_proto_is_kept();
}

/// The headers that an upstream is sent are not changed by filtering them again.
pub proof fn law_filtering_settles(before: Map<Seq<char>, Seq<Seq<u8>>>, target: Target)
    ensures
        forwarded_headers(forwarded_headers(before, target), target) == forwarded_headers(
            before,
            target,
        ),
{
    let once = forwarded_headers(before, target);
    let twice = forwarded_headers(once, target);
    lemma_proto_is_kept();
    assert(twice =~= once);
}

/// Whether an upstream is told the trace that a request belongs to: as the target says, or else
/// if the target is trusted, or else if the pool is.
pub open spec fn propagates_trace(target: Target, pool_trusted: bool) -> bool {
    match target.propagate_trace_context {
        Some(b) => b,
        None => trusts(target, pool_trusted),
    }
}

/// Whether a target is trusted: as it says itself, or else as its pool says.
pub open spec fn trusts(target: Target, pool_trusted: bool) -> bool {
    match target.trusted {
        Some(b) => b,
        None => pool_trusted,
    }
}

/// Whether an upstream is told the trace that a request belongs to.
pub fn resolve_trace_propagation(target: &Target, pool_trusted: bool) -> (propagate: bool)
    ensures
        propagate == propagates_trace(*target, pool_trusted),
{
    match target.propagate_trace_context {
        Some(b) => b,
        None => resolve_trust(target, pool_trusted),
    }
}

/// Whether a target is trusted.
pub fn resolve_trust(target: &Target, pool_trusted: bool) -> (trusted: bool)
    ensures
        trusted == trusts(*target, pool_trusted),
{
    match target.trusted {
        Some(b) => b,
        None => pool_trusted,
    }
}

/// Removes the headers that tell the trace a request belongs to.
pub fn withhold_trace_context(h: &mut HeaderMap<HeaderValue>)
    ensures
        headers::entries(*final(h)) == headers::entries(*old(h)).remove("traceparent"@).remove(
            "tracestate"@,
        ),
{
    proof {
        headers::lemma_known_names();
    }
    headers::remove_header(h, "traceparent");
    headers::remove_header(h, "tracestate");
}

// ---------------------------------------------------------------------------
// URL
// ---------------------------------------------------------------------------

/// `path` without one slash at its beginning.
pub open spec fn without_slash(path: Seq<char>) -> Seq<char> {
    if path.len() > 0 && path.first() == '/' {
        path.drop_first()
    } else {
        path
    }
}

/// `path` without the slashes at its end.
pub open spec fn without_end_slashes(path: Seq<char>) -> Seq<char>
    decreases path.len(),
{
    if path.len() > 0 && path.last() == '/' {
        without_end_slashes(path.drop_last())
    } else {
        path
    }
}

/// What is joined to the URL of a target for a request path: the request path without its slash,
/// and without the path of the target where the request path repeats it, segment for segment.
pub open spec fn path_to_join(request: Seq<char>, target_path: Seq<char>) -> Seq<char> {
    let path = without_slash(request);
    let base = without_end_slashes(target_path);
    if base.len() == 0 {
        path
    } else {
        match text::after_prefix(path, base.drop_first()) {
            Some(rest) => if rest.len() == 0 || rest.first() == '/' {
                without_slash(rest)
            } else {
                path
            },
            None => path,
        }
    }
}

fn strip_slash(path: &[char]) -> (rest: &[char])
    ensures
        rest@ == without_slash(path@),
{
    if path.len() > 0 && path[0] == '/' {
        let rest = vstd::slice::slice_subrange(path, 1, path.len());
        assert(rest@ =~= path@.drop_first());
        rest
    } else {
        path
    }
}

fn strip_end_slashes(path: &[char]) -> (rest: &[char])
    ensures
        rest@ == without_end_slashes(path@),
{
    let mut end: usize = path.len();
    assert(path@.take(end as int) == path@);
    while end > 0 && path[end - 1] == '/'
        invariant
            end <= path.len(),
            without_end_slashes(path@.take(end as int)) == without_end_slashes(path@),
        decreases end,
    {
        assert(path@.take(end as int).drop_last() == path@.take(end - 1));
        end = end - 1;
    }
    let rest = vstd::slice::slice_subrange(path, 0, end);
    assert(rest@ == path@.take(end as int));
    rest
}

/// What is joined to the URL of a target for a request path.
pub fn join_path(request: &str, target_path: &str) -> (path: String)
    ensures
        path@ == path_to_join(request@, target_path@),
{
    let request_chars = text::chars_of(request);
    let target_chars = text::chars_of(target_path);
    let path = strip_slash(request_chars.as_slice());
    let base = strip_end_slashes(target_chars.as_slice());
    if base.len() == 0 {
        return text::string_of(path);
    }
    let prefix = vstd::slice::slice_subrange(base, 1, base.len());
    assert(prefix@ =~= base@.drop_first());
    match text::strip_prefix(path, prefix) {
        Some(rest) => if rest.len() == 0 || rest[0] == '/' {
            text::string_of(strip_slash(rest))
        } else {
            text::string_of(path)
        },
        None => text::string_of(path),
    }
}

/// The URL of an upstream for a request path, if there is one.
pub open spec fn upstream_url(target: Target, request: Seq<char>) -> Option<Seq<char>> {
    target::joined_url(
        target.url.source_text(),
        path_to_join(request, target.url.path_text()),
    )
}

/// The host and the port of the URI that a text spells, if it spells one.
pub uninterp spec fn uri_authority(text: Seq<char>) -> Option<(Option<Seq<char>>, Option<u16>)>;

/// Calls `Uri::try_from`, `Uri::host` and `Uri::port_u16`. A host consists of visible ASCII
/// characters.
#[verifier::external_body]
fn parse_uri(text: &str) -> (parts: Option<(Option<String>, Option<u16>)>)
    ensures
        match parts {
            Some((Some(host), port)) => uri_authority(text@) == Some((Some(host@), port))
                && forall|i: int| 0 <= i < host@.len() ==> '!' <= #[trigger] host@[i] <= '~',
            Some((None, port)) => uri_authority(text@) == Some((None::<Seq<char>>, port)),
            None => uri_authority(text@) is None,
        },
{
    axum::http::Uri::try_from(text).ok().map(|u| (u.host().map(|h| h.to_string()), u.port_u16()))
}

/// What the `host` header says: the host, and the port where there is one.
pub open spec fn host_and_port(host: Seq<char>, port: Option<u16>) -> Seq<char> {
    match port {
        Some(p) => host.push(':') + text::numeral(p as nat),
        None => host,
    }
}

/// Where an attempt is sent, and what its `host` header says.
pub struct Destination {
    pub url: String,
    pub host: Option<String>,
}

/// Where a request to an upstream goes: its URL and its `host` header. Nothing if either part of
/// the URL cannot be understood.
pub open spec fn destination(target: Target, request: Seq<char>) -> Option<
    (Seq<char>, Option<Seq<char>>),
> {
    match upstream_url(target, request) {
        Some(url) => match uri_authority(url) {
            Some((Some(host), port)) => Some((url, Some(host_and_port(host, port)))),
            Some((None, _)) => Some((url, None)),
            None => None,
        },
        None => None,
    }
}

/// What the `host` header says.
pub fn host_value(host: &str, port: Option<u16>) -> (value: String)
    ensures
        value@ == host_and_port(host@, port),
{
    match port {
        Some(p) => {
            let mut value = host.to_owned();
            value.push(':');
            value.concat(text::decimal(p as u64).as_str())
        },
        None => host.to_owned(),
    }
}

/// Text of visible ASCII characters can stand as a header value.
proof fn lemma_visible_is_value(value: Seq<char>)
    requires
        forall|i: int| 0 <= i < value.len() ==> ' ' <= #[trigger] value[i] <= '~',
    ensures
        headers::is_header_value(encode_utf8(value)),
{
    is_ascii_chars_encode_utf8(value);
    assert forall|i: int| 0 <= i < encode_utf8(value).len() implies (32 <= #[trigger] encode_utf8(
        value,
    )[i] && encode_utf8(value)[i] != 127) by {
        assert(encode_utf8(value)[i] == value[i] as u8);
    }
}

/// Where a request to an upstream goes.
pub fn find_destination(target: &Target, request: &str) -> (found: Option<Destination>)
    ensures
        match found {
            Some(d) => destination(*target, request@) == Some(
                (
                    d.url@,
                    match d.host {
                        Some(h) => Some(h@),
                        None => None,
                    },
                ),
            ) && (d.host matches Some(h) ==> headers::is_header_value(encode_utf8(h@))),
            None => destination(*target, request@) is None,
        },
{
    let path = join_path(request, target.url.path());
    let url = match target.url.join(path.as_str()) {
        Some(url) => url,
        None => {
            return None;
        },
    };
    match parse_uri(url.as_str()) {
        Some((Some(host), port)) => {
            let value = host_value(host.as_str(), port);
            proof {
                if let Some(p) = port {
                    text::lemma_numeral_digits(p as nat);
                }
                lemma_visible_is_value(value@);
            }
            Some(Destination { url, host: Some(value) })
        },
        Some((None, _)) => Some(Destination { url, host: None }),
        None => None,
    }
}

// ---------------------------------------------------------------------------
// Body
// ---------------------------------------------------------------------------

/// What is said when a request names no model.
pub open spec fn no_model_error() -> ErrorView {
    ErrorView::bad_request(
        "Could not parse onwards model from request. 'model' parameter must be supplied in either the body or in the Model-Override header."@,
        Some("model"@),
    )
}

/// What is said when a request names no model.
pub fn no_model() -> (error: OnwardsErrorResponse)
    ensures
        error@ == no_model_error(),
{
    OnwardsErrorResponse::bad_request(
        "Could not parse onwards model from request. 'model' parameter must be supplied in either the body or in the Model-Override header.",
        Some("model"),
    )
}

/// A request with another model; nothing if it is not an object that names a model.
pub open spec fn with_model(tree: JsonTree, model: Seq<char>) -> Option<JsonTree> {
    match tree.member("model"@) {
        Some(_) => Some(
            JsonTree::Object((tree->Object_0).insert("model"@, JsonTree::Text(model))),
        ),
        None => None,
    }
}

/// Gives a request another model.
pub fn set_model(value: Json, model: &str) -> (changed: Option<Json>)
    ensures
        json::optional_tree(changed) == with_model(value@, model@),
{
    match value {
        Json::Object(mut object) => {
            if object.has("model") {
                object.insert("model", Json::Text(model.to_owned()));
                Some(Json::Object(object))
            } else {
                None
            }
        },
        _ => None,
    }
}

/// The body for a target that knows the model by another name.
pub open spec fn rewritten_body(body: Seq<u8>, model: Seq<char>) -> Result<Seq<u8>, ErrorView> {
    match json::parsed_json(body) {
        Some(tree) => match with_model(tree, model) {
            Some(changed) => match cache_usage::json_bytes(changed) {
                Some(bytes) => Ok(bytes),
                None => Err(ErrorView::internal()),
            },
            None => Err(no_model_error()),
        },
        None => Err(no_model_error()),
    }
}

/// The body for a target: rewritten where the target has a model name of its own and there is a
/// body.
pub open spec fn attempt_body(body: Seq<u8>, target: Target) -> Result<Seq<u8>, ErrorView> {
    match target.onwards_model {
        Some(model) => if body.len() > 0 {
            rewritten_body(body, model@)
        } else {
            Ok(body)
        },
        None => Ok(body),
    }
}

/// What a body or an error is.
pub open spec fn body_result(result: Result<Vec<u8>, OnwardsErrorResponse>) -> Result<
    Seq<u8>,
    ErrorView,
> {
    match result {
        Ok(bytes) => Ok(bytes@),
        Err(error) => Err(error@),
    }
}

/// The body for a target.
pub fn prepare_body(body: &Vec<u8>, target: &Target) -> (prepared: Result<
    Vec<u8>,
    OnwardsErrorResponse,
>)
    ensures
        body_result(prepared) == attempt_body(body@, *target),
{
    match &target.onwards_model {
        Some(model) => {
            if body.len() == 0 {
                assert(body@ =~= Seq::<u8>::empty());
                return Ok(Vec::new());
            }
            match Json::parse(body.as_slice()) {
                Some(value) => match set_model(value, model.as_str()) {
                    Some(changed) => match cache_usage::render_bytes(changed) {
                        Some(bytes) => Ok(bytes),
                        None => Err(OnwardsErrorResponse::internal()),
                    },
                    None => Err(no_model()),
                },
                None => Err(no_model()),
            }
        },
        None => Ok(body.clone()),
    }
}

// ---------------------------------------------------------------------------
// All of it
// ---------------------------------------------------------------------------

/// The headers of an attempt, but for the trace that is told to an upstream.
pub open spec fn attempt_headers(
    before: Map<Seq<char>, Seq<Seq<u8>>>,
    target: Target,
    host: Option<Seq<char>>,
    body_len: nat,
    pool_trusted: bool,
) -> Map<Seq<char>, Seq<Seq<u8>>> {
    let hosted = match host {
        Some(h) => before.insert("host"@, seq![encode_utf8(h)]),
        None => before,
    };
    let sized = hosted.insert("content-length"@, seq![encode_utf8(text::numeral(body_len))]).remove(
        "transfer-encoding"@,
    );
    let filtered = forwarded_headers(sized, target);
    if propagates_trace(target, pool_trusted) {
        filtered
    } else {
        filtered.remove("traceparent"@).remove("tracestate"@)
    }
}

/// Gives an attempt its headers, and tells whether the trace is still to be put into them.
pub fn prepare_headers(
    h: &mut HeaderMap<HeaderValue>,
    target: &Target,
    host: Option<&str>,
    body_len: u64,
    pool_trusted: bool,
) -> (propagate: bool)
    requires
        headers::has_room(*old(h), 3),
        auth_is_sendable(*target),
        host matches Some(v) ==> headers::is_header_value(encode_utf8(v@)),
    ensures
        propagate == propagates_trace(*target, pool_trusted),
        headers::entries(*final(h)) == attempt_headers(
            headers::entries(*old(h)),
            *target,
            match host {
                Some(v) => Some(v@),
                None => None,
            },
            body_len as nat,
            pool_trusted,
        ),
{
    proof {
        headers::lemma_known_names();
        text::lemma_numeral_digits(body_len as nat);
        lemma_visible_is_value(text::numeral(body_len as nat));
    }
    if let Some(value) = host {
        headers::insert_header(h, "host", value.as_bytes());
    }
    let length = text::decimal(body_len);
    headers::insert_header(h, "content-length", length.as_str().as_bytes());
    headers::remove_header(h, "transfer-encoding");
    filter_headers_for_upstream(h, target);
    let propagate = resolve_trace_propagation(target, pool_trusted);
    if !propagate {
        withhold_trace_context(h);
    }
    propagate
}

// ---------------------------------------------------------------------------
// What an upstream gets
// ---------------------------------------------------------------------------

/// A request can be given another model exactly when it names one; then it names the new one, and
/// every other member is the client's.
pub proof fn law_renaming_keeps_the_rest(tree: JsonTree, model: Seq<char>, key: Seq<char>)
    ensures
        with_model(tree, model) is Some <==> tree.member("model"@) is Some,
        with_model(tree, model) matches Some(renamed) ==> {
            &&& renamed.member("model"@) == Some(JsonTree::Text(model))
            &&& key != "model"@ ==> renamed.member(key) == tree.member(key)
        },
{
}

/// Whether a request is another one with nothing but its model replaced.
pub open spec fn differs_in_model(renamed: JsonTree, tree: JsonTree, model: Seq<char>) -> bool {
    &&& renamed is Object
    &&& renamed.member("model"@) == Some(JsonTree::Text(model))
    &&& forall|key: Seq<char>|
        key != "model"@ ==> #[trigger] renamed.member(key) == tree.member(key)
}

/// The body that a target gets is the client's, byte for byte, where the target has no model name of
/// its own or there is no body. Otherwise it is the text of the client's document with the model
/// replaced; a body that is no document that names a model is refused as a bad request.
pub proof fn law_body_for_a_target(body: Seq<u8>, target: Target)
    ensures
        target.onwards_model is None || body.len() == 0 ==> attempt_body(body, target) == Ok::<
            Seq<u8>,
            ErrorView,
        >(body),
        body.len() > 0 ==> (target.onwards_model matches Some(model) ==> match json::parsed_json(body) {
            Some(tree) => if tree.member("model"@) is Some {
                exists|renamed: JsonTree|
                    {
                        &&& #[trigger] differs_in_model(renamed, tree, model@)
                        &&& match json::json_text(renamed) {
                            Some(s) => attempt_body(body, target) == Ok::<Seq<u8>, ErrorView>(
                                encode_utf8(s),
                            ),
                            None => attempt_body(body, target) == Err::<Seq<u8>, ErrorView>(
                                ErrorView::internal(),
                            ),
                        }
                    }
            } else {
                attempt_body(body, target) matches Err(error) && error.status == 400
            },
            None => attempt_body(body, target) matches Err(error) && error.status == 400,
        }),
        no_model_error().body matches Some(told) && told.param == Some("model"@),
{
    if let Some(model) = target.onwards_model {
        if body.len() > 0 {
            if let Some(tree) = json::parsed_json(body) {
                if tree.member("model"@) is Some {
                    let renamed = with_model(tree, model@)->0;
                    assert forall|key: Seq<char>| key != "model"@ implies #[trigger] renamed.member(
                        key,
                    ) == tree.member(key) by {
                        law_renaming_keeps_the_rest(tree, model@, key);
                    }
                    assert(differs_in_model(renamed, tree, model@));
                }
            }
        }
    }
}

/// Whether a header belongs to the connection of the client, tells who it is, or is meant for the
/// gateway.
pub open spec fn stays_with_client(name: Seq<char>) -> bool {
    ||| seq![
        "connection"@,
        "keep-alive"@,
        "proxy-authenticate"@,
        "proxy-authorization"@,
        "te"@,
        "trailer"@,
        "upgrade"@,
    ].contains(name)
    ||| seq!["authorization"@, "x-api-key"@, "api-key"@, "origin"@, "referer"@, "cookie"@].contains(
        name,
    )
    ||| seq![
        "if-modified-since"@,
        "if-none-match"@,
        "if-match"@,
        "if-unmodified-since"@,
        "if-range"@,
    ].contains(name)
    ||| name == "model-override"@
    ||| exists|rest: Seq<char>| name == #[trigger] ("sec-"@ + rest)
}

/// A header of the client reaches the upstream exactly when it does not stay with the client, with
/// its values as they are; aside from the headers that the gateway sets itself.
pub proof fn law_which_headers_pass(
    before: Map<Seq<char>, Seq<Seq<u8>>>,
    target: Target,
    name: Seq<char>,
)
    requires
        auth_is_sendable(target),
        auth_header(target) matches Some((auth, _)) ==> headers::header_name(auth) != Some(name),
        name != "x-forwarded-proto"@,
    ensures
        forwarded_headers(before, target).dom().contains(name) <==> before.dom().contains(name)
            && !stays_with_client(name),
        forwarded_headers(before, target).dom().contains(name) ==> forwarded_headers(
            before,
            target,
        )[name] == before[name],
{
    lemma_stays_with_client(name);
}

/// An upstream is given the key of its target, and no other: under the header and with the prefix
/// that the target asks for, or as a bearer token. It is told that the client came over HTTPS.
pub proof fn law_key_of_the_target_is_sent(before: Map<Seq<char>, Seq<Seq<u8>>>, target: Target)
    requires
        auth_is_sendable(target),
    ensures
        forwarded_headers(before, target)["x-forwarded-proto"@] == seq![encode_utf8("https"@)],
        forwarded_headers(before, target).dom().contains("x-forwarded-proto"@),
        target.onwards_key is None ==> !forwarded_headers(before, target).dom().contains(
            "authorization"@,
        ),
        target.onwards_key matches Some(key) ==> ({
            let prefix = match target.upstream_auth_header_prefix {
                Some(prefix) => prefix@,
                None => "Bearer "@,
            };
            let sent = forwarded_headers(before, target);
            &&& target.upstream_auth_header_name is None ==> sent.dom().contains("authorization"@)
                && sent["authorization"@] == seq![encode_utf8(prefix + key@)]
            &&& target.upstream_auth_header_name matches Some(name) ==> (headers::header_name(name@)
                matches Some(lowered) && (lowered != "x-forwarded-proto"@ ==> sent.dom().contains(
                lowered,
            ) && sent[lowered] == seq![encode_utf8(prefix + key@)]) && (lowered
                != "authorization"@ ==> !sent.dom().contains("authorization"@)))
        }),
{
    reveal_strlit("authorization");
    reveal_strlit("x-forwarded-proto");
    assert("authorization"@.len() != "x-forwarded-proto"@.len());
    assert(is_withheld("authorization"@));
    lemma_authorization_lowered();
}

/// The usual name of the header in which a key is sent, in lower case.
proof fn lemma_authorization_lowered()
    ensures
        headers::header_name("Authorization"@) matches Some(name) ==> name == "authorization"@,
{
    reveal_strlit("Authorization");
    reveal_strlit("authorization");
    let upper = "Authorization"@;
    let lowered = upper.map_values(|c: char| headers::lower(c));
    assert(lowered[0] == 'a');
    assert(lowered =~= "authorization"@);
}

/// Whether an upstream is told of the trace follows from the first of three settings that is made:
/// that on traces, the trust in the target, the trust in its pool. Whether it is trusted follows from
/// the last two.
pub proof fn law_trust_is_inherited(target: Target, pool_trusted: bool)
    ensures
        target.trusted matches Some(b) ==> trusts(target, pool_trusted) == b,
        target.trusted is None ==> trusts(target, pool_trusted) == pool_trusted,
        target.propagate_trace_context matches Some(b) ==> propagates_trace(target, pool_trusted)
            == b,
        target.propagate_trace_context is None ==> propagates_trace(target, pool_trusted) == trusts(
            target,
            pool_trusted,
        ),
{
}

/// An upstream is sent the length of the body that it gets, under the host that it is reached at,
/// and nothing of how the client's body came. The trace headers of the client pass exactly where the
/// trace is propagated.
pub proof fn law_headers_of_an_attempt(
    before: Map<Seq<char>, Seq<Seq<u8>>>,
    target: Target,
    host: Option<Seq<char>>,
    body_len: nat,
    pool_trusted: bool,
    name: Seq<char>,
)
    requires
        auth_is_sendable(target),
        auth_header(target) matches Some((auth, _)) ==> headers::header_name(auth) != Some(name),
    ensures
        ({
            let sent = attempt_headers(before, target, host, body_len, pool_trusted);
            let kept = before.dom().contains(name) && !stays_with_client(name);
            &&& name == "content-length"@ ==> sent.dom().contains(name) && sent[name] == seq![
                encode_utf8(text::numeral(body_len)),
            ]
            &&& name == "transfer-encoding"@ ==> !sent.dom().contains(name)
            &&& name == "host"@ ==> (host matches Some(h) ==> sent.dom().contains(name)
                && sent[name] == seq![encode_utf8(h)])
            &&& name == "host"@ && host is None ==> (sent.dom().contains(name)
                <==> before.dom().contains(name))
            &&& name == "traceparent"@ || name == "tracestate"@ ==> (sent.dom().contains(name)
                <==> before.dom().contains(name) && propagates_trace(target, pool_trusted))
            &&& name != "content-length"@ && name != "transfer-encoding"@ && name != "host"@ && name
                != "traceparent"@ && name != "tracestate"@ && name != "x-forwarded-proto"@ ==> (
            sent.dom().contains(name) <==> kept)
            &&& kept && sent.dom().contains(name) && name != "content-length"@ && name != "host"@
                && name != "x-forwarded-proto"@ ==> sent[name] == before[name]
        }),
{
    let hosted = match host {
        Some(h) => before.insert("host"@, seq![encode_utf8(h)]),
        None => before,
    };
    let sized = hosted.insert("content-length"@, seq![encode_utf8(text::numeral(body_len))]).remove(
        "transfer-encoding"@,
    );
    reveal_strlit("content-length");
    reveal_strlit("host");
    reveal_strlit("traceparent");
    reveal_strlit("tracestate");
    reveal_strlit("transfer-encoding");
    reveal_strlit("x-forwarded-proto");
    assert("x-forwarded-proto"@[0] != "transfer-encoding"@[0]);
    assert("traceparent"@.len() != "tracestate"@.len());
    if name != "x-forwarded-proto"@ {
        law_which_headers_pass(sized, target, name);
        law_which_headers_pass(before, target, name);
    }
    lemma_describing_headers_pass();
    lemma_stays_with_client(name);
}

/// The headers that describe a request do not stay with the client.
proof fn lemma_describing_headers_pass()
    ensures
        !is_withheld("content-length"@),
        !is_withheld("host"@),
        !is_withheld("traceparent"@),
        !is_withheld("tracestate"@),
        !is_withheld("transfer-encoding"@),
{
    reveal_strlit("content-length");
    reveal_strlit("host");
    reveal_strlit("traceparent");
    reveal_strlit("tracestate");
    reveal_strlit("transfer-encoding");
    reveal_strlit("connection");
    reveal_strlit("keep-alive");
    reveal_strlit("proxy-authenticate");
    reveal_strlit("proxy-authorization");
    reveal_strlit("te");
    reveal_strlit("trailer");
    reveal_strlit("upgrade");
    reveal_strlit("authorization");
    reveal_strlit("x-api-key");
    reveal_strlit("api-key");
    reveal_strlit("origin");
    reveal_strlit("referer");
    reveal_strlit("cookie");
    reveal_strlit("if-modified-since");
    reveal_strlit("if-none-match");
    reveal_strlit("if-match");
    reveal_strlit("if-unmodified-since");
    reveal_strlit("if-range");
    reveal_strlit("model-override");
    reveal_strlit("sec-");
    assert("content-length"@.len() == 14);
    assert("host"@.len() == 4);
    assert("traceparent"@.len() == 11);
    assert("tracestate"@.len() == 10);
    assert("transfer-encoding"@.len() == 17);
    assert("connection"@.len() == 10);
    assert("keep-alive"@.len() == 10);
    assert("proxy-authenticate"@.len() == 18);
    assert("proxy-authorization"@.len() == 19);
    assert("te"@.len() == 2);
    assert("trailer"@.len() == 7);
    assert("upgrade"@.len() == 7);
    assert("authorization"@.len() == 13);
    assert("x-api-key"@.len() == 9);
    assert("api-key"@.len() == 7);
    assert("origin"@.len() == 6);
    assert("referer"@.len() == 7);
    assert("cookie"@.len() == 6);
    assert("if-modified-since"@.len() == 17);
    assert("if-none-match"@.len() == 13);
    assert("if-match"@.len() == 8);
    assert("if-unmodified-since"@.len() == 19);
    assert("if-range"@.len() == 8);
    assert("model-override"@.len() == 14);
    assert("content-length"@[0] != "model-override"@[0]);
    assert("tracestate"@[0] != "connection"@[0]);
    assert("tracestate"@[0] != "keep-alive"@[0]);
    assert("transfer-encoding"@[0] != "if-modified-since"@[0]);
    lemma_other_first("content-length"@, "sec-"@);
    lemma_other_first("host"@, "sec-"@);
    lemma_other_first("traceparent"@, "sec-"@);
    lemma_other_first("tracestate"@, "sec-"@);
    lemma_other_first("transfer-encoding"@, "sec-"@);
}

/// A text does not begin with one that has another first character.
proof fn lemma_other_first(text: Seq<char>, prefix: Seq<char>)
    requires
        text.len() > 0,
        prefix.len() > 0,
        text[0] != prefix[0],
    ensures
        !text::begins_with(text, prefix),
{
    if text::begins_with(text, prefix) {
        assert(text.take(prefix.len() as int)[0] == prefix[0]);
    }
}

/// What stays with the client is what is withheld.
proof fn lemma_stays_with_client(name: Seq<char>)
    ensures
        stays_with_client(name) <==> is_withheld(name),
{
    let connection = seq![
        "connection"@,
        "keep-alive"@,
        "proxy-authenticate"@,
        "proxy-authorization"@,
        "te"@,
        "trailer"@,
        "upgrade"@,
    ];
    let identity = seq![
        "authorization"@,
        "x-api-key"@,
        "api-key"@,
        "origin"@,
        "referer"@,
        "cookie"@,
    ];
    let conditions = seq![
        "if-modified-since"@,
        "if-none-match"@,
        "if-match"@,
        "if-unmodified-since"@,
        "if-range"@,
    ];
    assert(connection[0] == "connection"@ && connection[1] == "keep-alive"@ && connection[2]
        == "proxy-authenticate"@ && connection[3] == "proxy-authorization"@ && connection[4]
        == "te"@ && connection[5] == "trailer"@ && connection[6] == "upgrade"@);
    assert(identity[0] == "authorization"@ && identity[1] == "x-api-key"@ && identity[2]
        == "api-key"@ && identity[3] == "origin"@ && identity[4] == "referer"@ && identity[5]
        == "cookie"@);
    assert(conditions[0] == "if-modified-since"@ && conditions[1] == "if-none-match"@
        && conditions[2] == "if-match"@ && conditions[3] == "if-unmodified-since"@ && conditions[4]
        == "if-range"@);
    text::law_prefix_and_suffix(name, "sec-"@, Seq::empty());
    assert forall|rest: Seq<char>| name == #[trigger] ("sec-"@ + rest) implies text::begins_with(
        name,
        "sec-"@,
    ) by {
        text::law_prefix_and_suffix(name, "sec-"@, rest);
    }
}

/// The path that is joined to the URL of a target: slashes at the end of the target's path and one
/// in front of the request's do not matter; a request path that repeats the target's path, segment by
/// segment, goes on where that ends; any other is taken whole.
pub proof fn law_base_path_is_not_doubled(base: Seq<char>, rest: Seq<char>, other: Seq<char>)
    requires
        base.len() > 0,
        base.first() != '/',
        base.last() != '/',
        other.len() == 0 || other.first() != '/',
        other != base,
        forall|r: Seq<char>| other != #[trigger] (base + seq!['/'] + r),
    ensures
        path_to_join(seq!['/'] + base + seq!['/'] + rest, seq!['/'] + base) == rest,
        path_to_join(seq!['/'] + base, seq!['/'] + base) == Seq::<char>::empty(),
        path_to_join(seq!['/'] + other, seq!['/'] + base) == other,
        path_to_join(seq!['/'] + other, Seq::<char>::empty()) == other,
{
    lemma_base_is_repeated(base, rest);
    lemma_base_is_all(base);
    if text::begins_with(other, base) {
        let r = other.skip(base.len() as int);
        assert(other =~= base + r);
        assert(r.len() > 0) by {
            if r.len() == 0 {
                assert(other =~= base);
            }
        }
        assert(r.first() != '/') by {
            if r.first() == '/' {
                assert(other =~= base + seq!['/'] + r.drop_first());
            }
        }
    }
    lemma_other_path(base, other);
}

/// The target's path with nothing at its end to take off.
proof fn lemma_base(base: Seq<char>)
    requires
        base.len() > 0,
        base.last() != '/',
    ensures
        without_end_slashes(seq!['/'] + base) == seq!['/'] + base,
        (seq!['/'] + base).drop_first() == base,
{
    let target = seq!['/'] + base;
    assert(target.last() == base.last());
    assert(target.drop_first() =~= base);
}

proof fn lemma_base_is_repeated(base: Seq<char>, rest: Seq<char>)
    requires
        base.len() > 0,
        base.last() != '/',
    ensures
        path_to_join(seq!['/'] + base + seq!['/'] + rest, seq!['/'] + base) == rest,
{
    let tail = seq!['/'] + rest;
    let path = base + tail;
    let request = seq!['/'] + base + seq!['/'] + rest;
    lemma_base(base);
    assert(request.first() == '/');
    assert(request.drop_first() =~= path);
    assert(without_slash(request) == path);
    text::law_prefix_and_suffix(path, base, tail);
    assert(text::after_prefix(path, base) == Some(tail));
    assert(tail.first() == '/');
    assert(tail.drop_first() =~= rest);
}

proof fn lemma_base_is_all(base: Seq<char>)
    requires
        base.len() > 0,
        base.first() != '/',
        base.last() != '/',
    ensures
        path_to_join(seq!['/'] + base, seq!['/'] + base) == Seq::<char>::empty(),
{
    let nothing = Seq::<char>::empty();
    lemma_base(base);
    text::law_prefix_and_suffix(base, base, nothing);
    assert(base + nothing =~= base);
    assert((seq!['/'] + base).first() == '/');
    assert(text::after_prefix(base, base) == Some(nothing));
}

proof fn lemma_other_path(base: Seq<char>, other: Seq<char>)
    requires
        base.len() > 0,
        base.last() != '/',
        text::begins_with(other, base) ==> other.len() > base.len() && other[base.len() as int] != '/',
    ensures
        path_to_join(seq!['/'] + other, seq!['/'] + base) == other,
        path_to_join(seq!['/'] + other, Seq::<char>::empty()) == other,
{
    let plain = seq!['/'] + other;
    lemma_base(base);
    assert(plain.first() == '/');
    assert(plain.drop_first() =~= other);
    assert(without_slash(plain) == other);
    if text::begins_with(other, base) {
        let r = other.skip(base.len() as int);
        assert(text::after_prefix(other, base) == Some(r));
        assert(r.first() == other[base.len() as int]);
    }
    assert(without_end_slashes(Seq::<char>::empty()) == Seq::<char>::empty());
}

/// Slashes at the end of the target's path, and whether the request's path begins with one, do not
/// matter.
pub proof fn law_slashes_do_not_matter(request: Seq<char>, target_path: Seq<char>)
    ensures
        path_to_join(request, target_path.push('/')) == path_to_join(request, target_path),
        request.len() == 0 || request.first() != '/' ==> path_to_join(
            seq!['/'] + request,
            target_path,
        ) == path_to_join(request, target_path),
{
    assert(target_path.push('/').drop_last() =~= target_path);
    assert((seq!['/'] + request).drop_first() =~= request);
}

/// An upstream is reached at the URL that joining gives, and addressed by the host of that URL, with
/// its port behind a colon where the URL has one. There is no destination where there is no such URL
/// or it cannot be read.
pub proof fn law_host_is_that_of_the_url(target: Target, request: Seq<char>)
    ensures
        match target::joined_url(
            target.url.source_text(),
            path_to_join(request, target.url.path_text()),
        ) {
            Some(url) => match uri_authority(url) {
                Some((host, port)) => {
                    &&& destination(target, request) matches Some((to, name))
                    &&& to == url
                    &&& host is None ==> name is None
                    &&& host matches Some(h) ==> (name matches Some(n) && match port {
                        Some(p) => n == h + seq![':'] + text::numeral(p as nat),
                        None => n == h,
                    })
                },
                None => destination(target, request) is None,
            },
            None => destination(target, request) is None,
        },
{
    if let Some(url) = upstream_url(target, request) {
        if let Some((Some(h), Some(p))) = uri_authority(url) {
            assert(h.push(':') =~= h + seq![':']);
        }
    }
}

/// No upstream sees how the client is connected, who it is, on what conditions it asks, or what it says to
/// the gateway, except for a header under which the target's own key is sent. Every other header reaches
/// the upstream with the client's values, aside from those that the gateway sets.
pub proof fn law_headers_by_name(
    before: Map<Seq<char>, Seq<Seq<u8>>>,
    target: Target,
    name: Seq<char>,
    rest: Seq<char>,
)
    requires
        auth_is_sendable(target),
        auth_header(target) matches Some((auth, _)) ==> headers::header_name(auth) != Some(name),
    ensures
        name == "connection"@ || name == "keep-alive"@ || name == "proxy-authenticate"@
            || name == "proxy-authorization"@ || name == "te"@ || name == "trailer"@
            || name == "upgrade"@ || name == "authorization"@ || name == "x-api-key"@
            || name == "api-key"@ || name == "origin"@ || name == "referer"@
            || name == "cookie"@ || name == "if-modified-since"@ || name == "if-none-match"@
            || name == "if-match"@ || name == "if-unmodified-since"@ || name == "if-range"@
            || name == "model-override"@ ==> !forwarded_headers(before, target).dom().contains(name),
        name == "sec-"@ + rest ==> !forwarded_headers(before, target).dom().contains(name),
        !(name == "connection"@ || name == "keep-alive"@ || name == "proxy-authenticate"@
            || name == "proxy-authorization"@ || name == "te"@ || name == "trailer"@
            || name == "upgrade"@ || name == "authorization"@ || name == "x-api-key"@
            || name == "api-key"@ || name == "origin"@ || name == "referer"@
            || name == "cookie"@ || name == "if-modified-since"@ || name == "if-none-match"@
            || name == "if-match"@ || name == "if-unmodified-since"@ || name == "if-range"@
            || name == "model-override"@) && !text::begins_with(name, "sec-"@) && name != "x-forwarded-proto"@ ==> (
        forwarded_headers(before, target).dom().contains(name) <==> before.dom().contains(name)) && (
        before.dom().contains(name) ==> forwarded_headers(before, target)[name] == before[name]),
{
    lemma_proto_is_kept();
    text::law_prefix_and_suffix(name, "sec-"@, rest);
}

} // verus!
