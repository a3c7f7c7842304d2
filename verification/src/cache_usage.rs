//! Cache markers in requests, and cache counts in the usage that responses report.
use axum::http::{HeaderMap, HeaderValue};
use vstd::prelude::*;
use vstd::utf8::{decode_utf8, encode_utf8, valid_utf8};
use crate::cache::CacheStats;
use crate::headers;
use crate::json;
use crate::json::{Json, JsonObject, JsonTree};
use crate::text;

verus! {

// ---------------------------------------------------------------------------
// Requests
// ---------------------------------------------------------------------------

/// The tree without any member named `cache_control`, at any depth.
pub open spec fn stripped(tree: JsonTree) -> JsonTree
    decreases tree,
{
    match tree {
        JsonTree::Array(items) => JsonTree::Array(
            Seq::new(
                items.len(),
                |i: int|
                    if 0 <= i < items.len() {
                        stripped(items[i])
                    } else {
                        JsonTree::Null
                    },
            ),
        ),
        JsonTree::Object(members) => JsonTree::Object(
            Map::new(
                |k: Seq<char>| members.dom().contains(k) && k != "cache_control"@,
                |k: Seq<char>|
                    if members.dom().contains(k) {
                        stripped(members[k])
                    } else {
                        JsonTree::Null
                    },
            ),
        ),
        _ => tree,
    }
}

/// Whether a member named `cache_control` occurs at any depth.
pub open spec fn has_marker(tree: JsonTree) -> bool
    decreases tree,
{
    match tree {
        JsonTree::Array(items) => exists|i: int|
            0 <= i < items.len() && has_marker(#[trigger] items[i]),
        JsonTree::Object(members) => members.dom().contains("cache_control"@) || exists|k: Seq<char>|
            members.dom().contains(k) && has_marker(#[trigger] members[k]),
        _ => false,
    }
}

/// Whether an entry is a marker or has one below it.
spec fn marked(entry: (String, Json)) -> bool {
    entry.0@ == "cache_control"@ || has_marker(entry.1@)
}

/// Removes every member named `cache_control`, at any depth, and tells whether there was one.
pub fn remove_cache_control(value: Json) -> (result: (Json, bool))
    ensures
        result.0@ == stripped(value@),
        result.1 == has_marker(value@),
    decreases value@,
{
    let ghost tree = value@;
    match value {
        Json::Array(items) => {
            let ghost all = items@;
            let mut out: Vec<Json> = Vec::new();
            let mut removed = false;
            for item in it: items.into_iter()
                invariant
                    it.seq() == all,
                    tree == value@,
                    tree == JsonTree::Array(json::trees(all)),
                    out@.len() == it.index(),
                    forall|i: int| 0 <= i < out@.len() ==> (#[trigger] out@[i])@ == stripped(all[i]@),
                    removed == exists|i: int|
                        0 <= i < it.index() && has_marker((#[trigger] all[i])@),
            {
                let ghost k = it.index() as int;
                proof {
                    assert(json::trees(all)[k] == item@);
                    assert(decreases_to!(tree => tree->Array_0));
                    assert(decreases_to!(tree->Array_0 => tree->Array_0[k]));
                }
                let (kept, below) = remove_cache_control(item);
                out.push(kept);
                assert(all[k] == item);
                if below {
                    removed = true;
                }
            }
            proof {
                assert(json::trees(out@) =~= stripped(tree)->Array_0);
                if removed {
                    let i = choose|i: int| 0 <= i < all.len() && has_marker((#[trigger] all[i])@);
                    assert(has_marker(tree->Array_0[i]));
                }
                if has_marker(tree) {
                    let i = choose|i: int|
                        0 <= i < tree->Array_0.len() && has_marker(#[trigger] tree->Array_0[i]);
                    assert(has_marker(all[i]@));
                }
            }
            (Json::Array(out), removed)
        },
        Json::Object(object) => {
            let entries = object.into_entries();
            let ghost all = entries@;
            let ghost map = json::members(all);
            proof {
                json::lemma_members_lookup(all);
            }
            let mut out = JsonObject::new();
            let mut removed = false;
            for entry in it: entries.into_iter()
                invariant
                    it.seq() == all,
                    json::distinct_keys(all),
                    tree == value@,
                    tree == JsonTree::Object(json::members(all)),
                    forall|k: Seq<char>| #[trigger]
                        out@.dom().contains(k) ==> k != "cache_control"@ && exists|i: int|
                            0 <= i < it.index() && (#[trigger] all[i]).0@ == k,
                    forall|i: int|
                        0 <= i < it.index() && (#[trigger] all[i]).0@ != "cache_control"@
                            ==> out@.dom().contains(all[i].0@) && out@[all[i].0@] == stripped(
                            all[i].1@,
                        ),
                    removed == exists|i: int| 0 <= i < it.index() && marked(#[trigger] all[i]),
            {
                let ghost k = it.index() as int;
                let ghost before = out@;
                proof {
                    json::lemma_entry_decreases(all, k);
                    assert(all[k] == entry);
                }
                let (key, child) = entry;
                if text::same_text(key.as_str(), "cache_control") {
                    removed = true;
                    assert(marked(all[k]));
                } else {
                    let (kept, below) = remove_cache_control(child);
                    out.insert(key.as_str(), kept);
                    if below {
                        removed = true;
                    }
                    assert(marked(all[k]) == below);
                }
            }
            proof {
                let want = stripped(tree)->Object_0;
                assert forall|k: Seq<char>| out@.dom().contains(k) <==> want.dom().contains(k) by {
                    if want.dom().contains(k) {
                        let i = choose|i: int| 0 <= i < all.len() && (#[trigger] all[i]).0@ == k;
                        assert(out@.dom().contains(all[i].0@));
                    }
                    if out@.dom().contains(k) {
                        let i = choose|i: int| 0 <= i < all.len() && (#[trigger] all[i]).0@ == k;
                        assert(map.dom().contains(all[i].0@));
                    }
                }
                assert forall|k: Seq<char>| out@.dom().contains(k) implies out@[k] == want[k] by {
                    let i = choose|i: int| 0 <= i < all.len() && (#[trigger] all[i]).0@ == k;
                    assert(map[all[i].0@] == all[i].1@);
                }
                assert(out@ =~= want);
                if removed {
                    let i = choose|i: int| 0 <= i < all.len() && marked(#[trigger] all[i]);
                    assert(map.dom().contains(all[i].0@));
                    assert(map[all[i].0@] == all[i].1@);
                }
                if has_marker(tree) {
                    if map.dom().contains("cache_control"@) {
                        let i = choose|i: int|
                            0 <= i < all.len() && (#[trigger] all[i]).0@ == "cache_control"@;
                        assert(marked(all[i]));
                    } else {
                        let k = choose|k: Seq<char>|
                            map.dom().contains(k) && has_marker(#[trigger] map[k]);
                        let i = choose|i: int| 0 <= i < all.len() && (#[trigger] all[i]).0@ == k;
                        assert(marked(all[i]));
                    }
                }
            }
            (Json::Object(out), removed)
        },
        other => (other, false),
    }
}

/// Stripping leaves no marker behind.
pub proof fn law_stripped_has_no_marker(tree: JsonTree)
    ensures
        !has_marker(stripped(tree)),
    decreases tree,
{
    match tree {
        JsonTree::Array(items) => {
            let out = stripped(tree)->Array_0;
            assert forall|i: int| 0 <= i < out.len() implies !has_marker(#[trigger] out[i]) by {
                assert(decreases_to!(tree => tree->Array_0));
                assert(decreases_to!(tree->Array_0 => tree->Array_0[i]));
                law_stripped_has_no_marker(items[i]);
            }
        },
        JsonTree::Object(members) => {
            let out = stripped(tree)->Object_0;
            assert forall|k: Seq<char>| out.dom().contains(k) implies !has_marker(#[trigger] out[k]) by {
                law_stripped_has_no_marker(members[k]);
            }
        },
        _ => {},
    }
}

/// Stripping changes a tree exactly when the tree has a marker.
pub proof fn law_stripping_changes_iff_marked(tree: JsonTree)
    ensures
        stripped(tree) == tree <==> !has_marker(tree),
    decreases tree,
{
    match tree {
        JsonTree::Array(items) => {
            let out = stripped(tree)->Array_0;
            assert forall|i: int| 0 <= i < items.len() implies (#[trigger] out[i] == items[i]
                <==> !has_marker(items[i])) by {
                assert(decreases_to!(tree => tree->Array_0));
                assert(decreases_to!(tree->Array_0 => tree->Array_0[i]));
                law_stripping_changes_iff_marked(items[i]);
            }
            if !has_marker(tree) {
                assert(out =~= items);
            } else {
                let i = choose|i: int| 0 <= i < items.len() && has_marker(#[trigger] items[i]);
                assert(out[i] != items[i]);
            }
        },
        JsonTree::Object(members) => {
            let out = stripped(tree)->Object_0;
            assert forall|k: Seq<char>| members.dom().contains(k) && k != "cache_control"@ implies (
            #[trigger] out[k] == members[k] <==> !has_marker(members[k])) by {
                law_stripping_changes_iff_marked(members[k]);
            }
            if !has_marker(tree) {
                assert(out =~= members);
            } else if members.dom().contains("cache_control"@) {
                assert(!out.dom().contains("cache_control"@));
            } else {
                let k = choose|k: Seq<char>|
                    members.dom().contains(k) && has_marker(#[trigger] members[k]);
                assert(out[k] != members[k]);
            }
        },
        _ => {},
    }
}

/// Whether a request asks for a stream.
pub open spec fn asks_for_stream(tree: JsonTree) -> bool {
    tree.member("stream"@) == Some(JsonTree::Bool(true))
}

/// The options of a streaming request: those that it has, and none where they are no object.
pub open spec fn stream_options(request: Map<Seq<char>, JsonTree>) -> Map<Seq<char>, JsonTree> {
    match JsonTree::Object(request).member("stream_options"@) {
        Some(JsonTree::Object(options)) => options,
        _ => Map::empty(),
    }
}

/// The request with `stream_options.include_usage` set, if it asks for a stream. Options that are
/// no object give way to an object.
pub open spec fn with_usage(tree: JsonTree) -> JsonTree {
    if asks_for_stream(tree) {
        let request = tree->Object_0;
        JsonTree::Object(
            request.insert(
                "stream_options"@,
                JsonTree::Object(
                    stream_options(request).insert("include_usage"@, JsonTree::Bool(true)),
                ),
            ),
        )
    } else {
        tree
    }
}

/// The request as it is sent on: no cache markers, and usage reported for streams.
pub open spec fn sanitized(tree: JsonTree) -> JsonTree {
    with_usage(stripped(tree))
}

/// Setting the usage option adds no marker to a request without markers.
proof fn lemma_with_usage_unmarked(tree: JsonTree)
    requires
        !has_marker(tree),
    ensures
        !has_marker(with_usage(tree)),
{
    reveal_strlit("cache_control");
    reveal_strlit("stream_options");
    reveal_strlit("include_usage");
    assert("cache_control"@.len() != "stream_options"@.len());
    assert("cache_control"@[0] != "include_usage"@[0]);
    let out = with_usage(tree);
    if out != tree {
        let before = tree->Object_0;
        let after = out->Object_0;
        let options = after["stream_options"@];
        let old_options = JsonTree::Object(stream_options(before));
        assert(!has_marker(old_options));
        assert forall|k: Seq<char>| options->Object_0.dom().contains(k) implies !has_marker(
            #[trigger] options->Object_0[k],
        ) by {
            if k != "include_usage"@ {
                assert(old_options->Object_0.dom().contains(k));
                assert(old_options->Object_0[k] == options->Object_0[k]);
            }
        }
        assert(!has_marker(options));
        assert forall|k: Seq<char>| after.dom().contains(k) implies !has_marker(
            #[trigger] after[k],
        ) by {
            if k != "stream_options"@ {
                assert(before[k] == after[k]);
            }
        }
    }
}

/// No marker is left in a request that is sent on.
pub proof fn law_sanitized_has_no_marker(tree: JsonTree)
    ensures
        !has_marker(sanitized(tree)),
{
    law_stripped_has_no_marker(tree);
    lemma_with_usage_unmarked(stripped(tree));
}

/// A request for a stream is sent on with its usage asked for, whatever its options were.
pub proof fn law_streams_report_usage(tree: JsonTree)
    requires
        asks_for_stream(tree),
    ensures
        sanitized(tree).member("stream_options"@) matches Some(options) && options.member(
            "include_usage"@,
        ) == Some(JsonTree::Bool(true)),
{
    reveal_strlit("stream");
    reveal_strlit("cache_control");
    assert("stream"@.len() != "cache_control"@.len());
    assert(stripped(JsonTree::Bool(true)) == JsonTree::Bool(true));
    assert(asks_for_stream(stripped(tree)));
}

/// A request that has been made ready to be sent on is not changed again.
pub proof fn law_sanitizing_settles(tree: JsonTree)
    ensures
        sanitized(sanitized(tree)) == sanitized(tree),
{
    let once = sanitized(tree);
    law_sanitized_has_no_marker(tree);
    law_stripping_changes_iff_marked(once);
    reveal_strlit("stream");
    reveal_strlit("stream_options");
    assert("stream"@.len() != "stream_options"@.len());
    let base = stripped(tree);
    if asks_for_stream(base) {
        let request = once->Object_0;
        let options = request["stream_options"@]->Object_0;
        assert(options.insert("include_usage"@, JsonTree::Bool(true)) =~= options);
        assert(request.insert("stream_options"@, JsonTree::Object(options)) =~= request);
    }
}

/// A request is changed exactly when it has a marker or asks for a stream without its usage.
proof fn lemma_sanitized_changes(tree: JsonTree)
    ensures
        sanitized(tree) != tree <==> has_marker(tree) || with_usage(stripped(tree)) != stripped(
            tree,
        ),
{
    law_stripping_changes_iff_marked(tree);
    law_sanitized_has_no_marker(tree);
}

/// Makes a request ready to be sent on, and tells whether that changed it.
pub fn sanitize_request(value: Json) -> (result: (Json, bool))
    ensures
        result.0@ == sanitized(value@),
        result.1 == (sanitized(value@) != value@),
{
    proof {
        lemma_sanitized_changes(value@);
    }
    let (mut request, removed) = remove_cache_control(value);
    let ghost base = request@;
    let mut usage_set = false;
    let streaming = match request.member("stream") {
        Some(Json::Bool(b)) => *b,
        _ => false,
    };
    assert(streaming == asks_for_stream(base));
    if let Json::Object(mut object) = request {
        if streaming {
            let ghost request_before = object@;
            let (mut options, fitting) = match object.take("stream_options") {
                Some(Json::Object(options)) => (options, true),
                _ => (JsonObject::new(), false),
            };
            assert(options@ =~= stream_options(request_before));
            let already = match options.get("include_usage") {
                Some(Json::Bool(b)) => *b,
                _ => false,
            };
            let ghost before = options@;
            options.insert("include_usage", Json::Bool(true));
            usage_set = !(fitting && already);
            let ghost after = options@;
            object.insert("stream_options", Json::Object(options));
            proof {
                assert(object@ =~= with_usage(base)->Object_0);
                if fitting && already {
                    assert(after =~= before);
                    assert(object@ =~= base->Object_0);
                } else {
                    assert(after["include_usage"@] == JsonTree::Bool(true));
                    assert(with_usage(base)->Object_0["stream_options"@] == JsonTree::Object(after));
                    if base->Object_0.dom().contains("stream_options"@) && fitting {
                        assert(base->Object_0["stream_options"@] == JsonTree::Object(before));
                        assert(after != before);
                    }
                }
            }
        }
        request = Json::Object(object);
    }
    (request, removed || usage_set)
}

/// The bytes that a tree is written as, if it can be written.
pub open spec fn json_bytes(tree: JsonTree) -> Option<Seq<u8>> {
    match json::json_text(tree) {
        Some(s) => Some(encode_utf8(s)),
        None => None,
    }
}

/// The bytes behind an optional vector.
pub open spec fn optional_bytes(bytes: Option<Vec<u8>>) -> Option<Seq<u8>> {
    match bytes {
        Some(b) => Some(b@),
        None => None,
    }
}

/// Writes a value as bytes.
pub fn render_bytes(value: Json) -> (bytes: Option<Vec<u8>>)
    ensures
        optional_bytes(bytes) == json_bytes(value@),
{
    match value.render() {
        Some(s) => Some(s.as_str().as_bytes_vec()),
        None => None,
    }
}

/// The body to send on in place of `body`: nothing if the body is not JSON or need not change.
pub fn strip_cache_control(body: &[u8]) -> (rewritten: Option<Vec<u8>>)
    ensures
        optional_bytes(rewritten) == match json::parsed_json(body@) {
            Some(tree) => if sanitized(tree) == tree {
                None
            } else {
                json_bytes(sanitized(tree))
            },
            None => None,
        },
{
    match Json::parse(body) {
        Some(value) => {
            let (request, changed) = sanitize_request(value);
            if changed {
                render_bytes(request)
            } else {
                None
            }
        },
        None => None,
    }
}

// ---------------------------------------------------------------------------
// Responses
// ---------------------------------------------------------------------------

/// The tokens written to the cache, by tier.
pub open spec fn creation_tiers(stats: CacheStats) -> Map<Seq<char>, JsonTree> {
    Map::<Seq<char>, JsonTree>::empty().insert(
        "ephemeral_5m_input_tokens"@,
        JsonTree::Unsigned(stats.creation_5m),
    ).insert("ephemeral_1h_input_tokens"@, JsonTree::Unsigned(stats.creation_1h)).insert(
        "ephemeral_24h_input_tokens"@,
        JsonTree::Unsigned(stats.creation_24h),
    )
}

/// What `prompt_tokens_details` becomes: it gets its `cached_tokens`. Details that are no object
/// give way to an object.
pub open spec fn spliced_details(details: Option<JsonTree>, stats: CacheStats) -> JsonTree {
    let kept = match details {
        Some(JsonTree::Object(d)) => d,
        _ => Map::empty(),
    };
    JsonTree::Object(kept.insert("cached_tokens"@, JsonTree::Unsigned(stats.read)))
}

/// A usage report with the cache counts in it.
pub open spec fn spliced(
    usage: Map<Seq<char>, JsonTree>,
    stats: CacheStats,
) -> Map<Seq<char>, JsonTree> {
    let details = JsonTree::Object(usage).member("prompt_tokens_details"@);
    usage.insert("prompt_tokens_details"@, spliced_details(details, stats)).insert(
        "cache_read_input_tokens"@,
        JsonTree::Unsigned(stats.read),
    ).insert("cache_creation_input_tokens"@, JsonTree::Unsigned(stats.total_written())).insert(
        "cache_creation"@,
        JsonTree::Object(creation_tiers(stats)),
    )
}

/// A response with the cache counts in its usage report; nothing if it is not an object with a
/// usage report that is an object.
pub open spec fn injected(tree: JsonTree, stats: CacheStats) -> Option<JsonTree> {
    match tree.member("usage"@) {
        Some(JsonTree::Object(usage)) => Some(
            JsonTree::Object(
                (tree->Object_0).insert("usage"@, JsonTree::Object(spliced(usage, stats))),
            ),
        ),
        _ => None,
    }
}

/// Splicing changes nothing in a usage report but the cache counts, and splicing again with the
/// same counts changes nothing at all.
pub proof fn law_splice_keeps_other_fields(
    usage: Map<Seq<char>, JsonTree>,
    stats: CacheStats,
    key: Seq<char>,
)
    requires
        key != "prompt_tokens_details"@,
        key != "cache_read_input_tokens"@,
        key != "cache_creation_input_tokens"@,
        key != "cache_creation"@,
    ensures
        JsonTree::Object(spliced(usage, stats)).member(key) == JsonTree::Object(usage).member(key),
        spliced(spliced(usage, stats), stats) == spliced(usage, stats),
{
    reveal_strlit("prompt_tokens_details");
    reveal_strlit("cache_read_input_tokens");
    reveal_strlit("cache_creation_input_tokens");
    reveal_strlit("cache_creation");
    assert("prompt_tokens_details"@[0] != "cache_creation"@[0]);
    assert("prompt_tokens_details"@[0] != "cache_read_input_tokens"@[0]);
    assert("prompt_tokens_details"@[0] != "cache_creation_input_tokens"@[0]);
    let once = spliced(usage, stats);
    let details = once["prompt_tokens_details"@];
    assert((details->Object_0).insert("cached_tokens"@, JsonTree::Unsigned(stats.read))
        =~= details->Object_0);
    assert(spliced_details(Some(details), stats) == details);
    assert(spliced(once, stats) =~= once);
}

/// The counts can be read back from a response that they were put into, and the rest of the
/// response stays as it was.
pub proof fn law_injected_counts(tree: JsonTree, stats: CacheStats)
    requires
        injected(tree, stats) is Some,
    ensures
        ({
            let out = injected(tree, stats)->0;
            let usage = out.member("usage"@)->0;
            &&& usage.member("prompt_tokens_details"@) matches Some(details)
            &&& details.member("cached_tokens"@) == Some(JsonTree::Unsigned(stats.read))
            &&& usage.member("cache_read_input_tokens"@) == Some(JsonTree::Unsigned(stats.read))
            &&& usage.member("cache_creation_input_tokens"@) == Some(
                JsonTree::Unsigned(stats.total_written()),
            )
            &&& usage.member("cache_creation"@) == Some(JsonTree::Object(creation_tiers(stats)))
            &&& forall|key: Seq<char>|
                key != "usage"@ ==> #[trigger] out.member(key) == tree.member(key)
        }),
{
    reveal_strlit("prompt_tokens_details");
    reveal_strlit("cache_read_input_tokens");
    reveal_strlit("cache_creation_input_tokens");
    reveal_strlit("cache_creation");
    assert("prompt_tokens_details"@[0] != "cache_creation"@[0]);
    assert("prompt_tokens_details"@[0] != "cache_read_input_tokens"@[0]);
    assert("prompt_tokens_details"@[0] != "cache_creation_input_tokens"@[0]);
    assert("cache_read_input_tokens"@.len() != "cache_creation_input_tokens"@.len());
    assert("cache_read_input_tokens"@.len() != "cache_creation"@.len());
    assert("cache_creation_input_tokens"@.len() != "cache_creation"@.len());
}

/// Puts the cache counts into a usage report.
pub fn splice_cache_fields(usage: &mut JsonObject, stats: &CacheStats)
    ensures
        final(usage)@ == spliced(old(usage)@, *stats),
{
    let mut details = match usage.take("prompt_tokens_details") {
        Some(Json::Object(details)) => details,
        _ => JsonObject::new(),
    };
    details.insert("cached_tokens", Json::Unsigned(stats.read));
    usage.insert("prompt_tokens_details", Json::Object(details));
    usage.insert("cache_read_input_tokens", Json::Unsigned(stats.read));
    usage.insert("cache_creation_input_tokens", Json::Unsigned(stats.creation_total()));
    let mut tiers = JsonObject::new();
    tiers.insert("ephemeral_5m_input_tokens", Json::Unsigned(stats.creation_5m));
    tiers.insert("ephemeral_1h_input_tokens", Json::Unsigned(stats.creation_1h));
    tiers.insert("ephemeral_24h_input_tokens", Json::Unsigned(stats.creation_24h));
    usage.insert("cache_creation", Json::Object(tiers));
    proof {
        assert(usage@ =~= spliced(old(usage)@, *stats));
    }
}

/// Puts the cache counts into the usage report of a response.
pub fn inject_usage(value: Json, stats: &CacheStats) -> (response: Option<Json>)
    ensures
        json::optional_tree(response) == injected(value@, *stats),
{
    match value {
        Json::Object(mut object) => {
            match object.take("usage") {
                Some(Json::Object(mut usage)) => {
                    splice_cache_fields(&mut usage, stats);
                    object.insert("usage", Json::Object(usage));
                    proof {
                        assert(object@ =~= injected(value@, *stats)->0->Object_0);
                    }
                    Some(Json::Object(object))
                },
                _ => None,
            }
        },
        _ => None,
    }
}

/// A body with the cache counts, if they can be put into it.
pub open spec fn edited_body(body: Seq<u8>, stats: CacheStats) -> Option<Seq<u8>> {
    match json::parsed_json(body) {
        Some(tree) => match injected(tree, stats) {
            Some(new) => json_bytes(new),
            None => None,
        },
        None => None,
    }
}

/// The body with the cache counts in its usage report; nothing if the body is not a JSON object
/// with a usage report that is an object.
pub fn inject_into_usage_json(body: &[u8], stats: &CacheStats) -> (rewritten: Option<Vec<u8>>)
    ensures
        optional_bytes(rewritten) == edited_body(body@, *stats),
{
    match Json::parse(body) {
        Some(value) => match inject_usage(value, stats) {
            Some(response) => render_bytes(response),
            None => None,
        },
        None => None,
    }
}

// ---------------------------------------------------------------------------
// Streamed responses
// ---------------------------------------------------------------------------

/// What a line of an event stream becomes if it is a data line that carries a usage report.
pub open spec fn edited_line(line: Seq<char>, stats: CacheStats) -> Option<Seq<char>> {
    match text::after_prefix(line, "data: "@) {
        Some(data) => if text::trimmed(data) == "[DONE]"@ {
            None
        } else {
            match json::parsed_json(encode_utf8(text::trimmed(data))) {
                Some(tree) => match injected(tree, stats) {
                    Some(new) => match json::json_text(new) {
                        Some(s) => Some("data: "@ + s),
                        None => None,
                    },
                    None => None,
                },
                None => None,
            }
        },
        None => None,
    }
}

/// The lines with the first one that can be edited replaced; nothing if there is none.
pub open spec fn first_edited(lines: Seq<Seq<char>>, stats: CacheStats) -> Option<Seq<Seq<char>>>
    decreases lines.len(),
{
    if lines.len() == 0 {
        None
    } else {
        match edited_line(lines[0], stats) {
            Some(line) => Some(lines.update(0, line)),
            None => match first_edited(lines.drop_first(), stats) {
                Some(rest) => Some(seq![lines[0]] + rest),
                None => None,
            },
        }
    }
}

/// The body of an event stream with its first usage report edited.
pub open spec fn edited_stream(body: Seq<u8>, stats: CacheStats) -> Option<Seq<u8>> {
    if valid_utf8(body) {
        match first_edited(text::pieces(decode_utf8(body)), stats) {
            Some(lines) => Some(encode_utf8(text::joined(lines))),
            None => None,
        }
    } else {
        None
    }
}

/// What the first line that can be edited makes of all the lines.
proof fn lemma_first_edited_at(lines: Seq<Seq<char>>, stats: CacheStats, i: int)
    requires
        0 <= i <= lines.len(),
        forall|j: int| 0 <= j < i ==> edited_line(#[trigger] lines[j], stats) is None,
    ensures
        i == lines.len() ==> first_edited(lines, stats) is None,
        i < lines.len() && edited_line(lines[i], stats) is Some ==> first_edited(lines, stats)
            == Some(lines.update(i, edited_line(lines[i], stats)->0)),
    decreases lines.len(),
{
    if i > 0 {
        let rest = lines.drop_first();
        assert(edited_line(lines[0], stats) is None);
        assert forall|j: int| 0 <= j < i - 1 implies edited_line(#[trigger] rest[j], stats) is None by {
            assert(rest[j] == lines[j + 1]);
        }
        lemma_first_edited_at(rest, stats, i - 1);
        if i < lines.len() && edited_line(lines[i], stats) is Some {
            let e = edited_line(lines[i], stats)->0;
            assert(rest[i - 1] == lines[i]);
            assert(seq![lines[0]] + rest.update(i - 1, e) =~= lines.update(i, e));
        }
    }
}

/// At most one line is edited; every other line stays as it was, where it was.
pub proof fn law_one_line_edited(lines: Seq<Seq<char>>, stats: CacheStats)
    ensures
        first_edited(lines, stats) is Some ==> exists|i: int|
            is_the_edit(lines, first_edited(lines, stats)->0, stats, i),
        first_edited(lines, stats) is None ==> forall|j: int|
            0 <= j < lines.len() ==> edited_line(#[trigger] lines[j], stats) is None,
    decreases lines.len(),
{
    if lines.len() > 0 {
        match edited_line(lines[0], stats) {
            Some(line) => {
                assert(first_edited(lines, stats) == Some(lines.update(0, line)));
                assert(is_the_edit(lines, first_edited(lines, stats)->0, stats, 0));
            },
            None => {
                let rest = lines.drop_first();
                law_one_line_edited(rest, stats);
                match first_edited(rest, stats) {
                    Some(out) => {
                        let i = choose|i: int| is_the_edit(rest, out, stats, i);
                        let whole = seq![lines[0]] + out;
                        assert(whole =~= lines.update(i + 1, out[i]));
                        assert forall|j: int| 0 <= j < i + 1 implies edited_line(
                            #[trigger] lines[j],
                            stats,
                        ) is None by {
                            if j > 0 {
                                assert(lines[j] == rest[j - 1]);
                            }
                        }
                        assert(first_edited(lines, stats) == Some(whole));
                        assert(is_the_edit(lines, first_edited(lines, stats)->0, stats, i + 1));
                    },
                    None => {
                        assert forall|j: int| 0 <= j < lines.len() implies edited_line(
                            #[trigger] lines[j],
                            stats,
                        ) is None by {
                            if j > 0 {
                                assert(lines[j] == rest[j - 1]);
                            }
                        }
                    },
                }
            },
        }
    }
}

/// Whether `out` is `lines` with line `i`, the first that can be edited, edited.
pub open spec fn is_the_edit(
    lines: Seq<Seq<char>>,
    out: Seq<Seq<char>>,
    stats: CacheStats,
    i: int,
) -> bool {
    &&& 0 <= i < lines.len()
    &&& edited_line(lines[i], stats) is Some
    &&& forall|j: int| 0 <= j < i ==> edited_line(#[trigger] lines[j], stats) is None
    &&& out == lines.update(i, edited_line(lines[i], stats)->0)
}

/// What a line of an event stream becomes if it is a data line that carries a usage report.
fn edit_line(line: &[char], stats: &CacheStats) -> (edited: Option<Vec<char>>)
    ensures
        match edited {
            Some(e) => edited_line(line@, *stats) == Some(e@),
            None => edited_line(line@, *stats) is None,
        },
{
    let prefix = text::chars_of("data: ");
    match text::strip_prefix(line, prefix.as_slice()) {
        Some(data) => {
            let payload = text::trim(data);
            let done = text::chars_of("[DONE]");
            if text::same_chars(payload, done.as_slice()) {
                return None;
            }
            let bytes = text::encode(payload);
            match Json::parse(bytes.as_slice()) {
                Some(value) => match inject_usage(value, stats) {
                    Some(response) => match response.render() {
                        Some(s) => {
                            let mut out = prefix;
                            let mut rest = text::chars_of(s.as_str());
                            out.append(&mut rest);
                            Some(out)
                        },
                        None => None,
                    },
                    None => None,
                },
                None => None,
            }
        },
        None => None,
    }
}

/// The body of an event stream with its first usage report edited and every other byte as it was;
/// nothing if the body is not UTF-8 or no line carries a usage report.
pub fn inject_into_sse_body(body: &[u8], stats: &CacheStats) -> (rewritten: Option<Vec<u8>>)
    ensures
        optional_bytes(rewritten) == edited_stream(body@, *stats),
{
    let chars = match text::decode(body) {
        Some(chars) => chars,
        None => {
            return None;
        },
    };
    let lines = text::split_lines(chars.as_slice());
    let ghost all = text::views(lines@);
    let mut out: Vec<char> = Vec::new();
    let mut edited = false;
    let ghost mut at: int = 0;
    let ghost mut now = Seq::<Seq<char>>::empty();
    let mut i: usize = 0;
    while i < lines.len()
        invariant
            i <= lines.len(),
            all == text::views(lines@),
            all.len() == lines.len(),
            now.len() == i,
            out@ == text::joined(now),
            !edited ==> now == all.take(i as int) && forall|j: int|
                0 <= j < i ==> edited_line(#[trigger] all[j], *stats) is None,
            edited ==> 0 <= at < i && is_the_edit(
                all,
                all.update(at, edited_line(all[at], *stats)->0),
                *stats,
                at,
            ) && now == all.update(at, edited_line(all[at], *stats)->0).take(i as int),
        decreases lines.len() - i,
    {
        let ghost old_now = now;
        if i > 0 {
            out.push('\n');
        }
        assert(all[i as int] == lines@[i as int]@);
        let replaced = if edited {
            None
        } else {
            edit_line(lines[i].as_slice(), stats)
        };
        match replaced {
            Some(line) => {
                proof {
                    text::lemma_joined_push(now, line@);
                    at = i as int;
                    now = now.push(line@);
                    assert(now =~= all.update(at, edited_line(all[at], *stats)->0).take(i + 1));
                }
                let mut line = line;
                out.append(&mut line);
                edited = true;
            },
            None => {
                proof {
                    text::lemma_joined_push(now, all[i as int]);
                    now = now.push(all[i as int]);
                }
                out.extend_from_slice(lines[i].as_slice());
                proof {
                    if edited {
                        assert(now =~= all.update(at, edited_line(all[at], *stats)->0).take(i + 1));
                    } else {
                        assert(now =~= all.take(i + 1));
                    }
                }
            },
        }
        i = i + 1;
    }
    proof {
        if edited {
            let whole = all.update(at, edited_line(all[at], *stats)->0);
            assert(whole.take(all.len() as int) == whole);
            lemma_first_edited_at(all, *stats, at);
        } else {
            lemma_first_edited_at(all, *stats, all.len() as int);
        }
    }
    if edited {
        Some(text::encode(out.as_slice()))
    } else {
        None
    }
}

// ---------------------------------------------------------------------------
// Whole responses
// ---------------------------------------------------------------------------

/// How the cache counts get into a response.
#[derive(Debug, Clone, Copy, PartialEq, Eq, Structural)]
pub enum InjectionPlan {
    /// Event by event, as the stream passes.
    EditStream,
    /// Not at all.
    PassOn,
    /// Into the body, once it has been read to its end.
    EditBody,
}

/// How the cache counts get into a response with a content type: into an event stream as it
/// passes, and into a body that may be JSON.
pub open spec fn injection_plan(content_type: Option<Seq<char>>) -> InjectionPlan {
    match content_type {
        Some(c) => if text::occurs_in("text/event-stream"@, c) {
            InjectionPlan::EditStream
        } else if text::occurs_in("application/json"@, c) {
            InjectionPlan::EditBody
        } else {
            InjectionPlan::PassOn
        },
        None => InjectionPlan::EditBody,
    }
}

/// How the cache counts get into a response.
pub fn plan_injection(h: &HeaderMap<HeaderValue>) -> (plan: InjectionPlan)
    ensures
        plan == injection_plan(headers::header_text(*h, "content-type"@)),
{
    proof {
        headers::lemma_known_names();
    }
    match headers::get_text(h, "content-type") {
        Some(value) => {
            let chars = text::chars_of(value.as_str());
            let stream = text::chars_of("text/event-stream");
            let document = text::chars_of("application/json");
            if text::contains_text(chars.as_slice(), stream.as_slice()) {
                InjectionPlan::EditStream
            } else if text::contains_text(chars.as_slice(), document.as_slice()) {
                InjectionPlan::EditBody
            } else {
                InjectionPlan::PassOn
            }
        },
        None => InjectionPlan::EditBody,
    }
}

/// Takes the length out of the headers of a stream that is edited as it passes.
pub fn prepare_stream_headers(h: &mut HeaderMap<HeaderValue>)
    ensures
        headers::entries(*final(h)) == headers::entries(*old(h)).remove("content-length"@),
{
    proof {
        headers::lemma_known_names();
    }
    headers::remove_header(h, "content-length");
}

/// Puts the cache counts into a body that was read to its end, and brings the headers into line:
/// they tell the length, and no longer an encoding where the body was written anew.
pub fn inject_into_body(h: &mut HeaderMap<HeaderValue>, body: Vec<u8>, stats: &CacheStats) -> (out:
    Vec<u8>)
    requires
        headers::has_room(*old(h), 0),
    ensures
        match edited_body(body@, *stats) {
            Some(new) => out@ == new && headers::entries(*final(h)) == headers::with_length(
                headers::entries(*old(h)).remove("content-encoding"@),
                new.len(),
            ),
            None => out@ == body@ && headers::entries(*final(h)) == headers::with_length(
                headers::entries(*old(h)),
                body@.len(),
            ),
        },
{
    proof {
        headers::lemma_known_names();
    }
    match inject_into_usage_json(body.as_slice(), stats) {
        Some(new) => {
            headers::remove_header(h, "content-encoding");
            headers::set_body_length(h, new.len() as u64);
            new
        },
        None => {
            headers::set_body_length(h, body.len() as u64);
            body
        },
    }
}

/// Puts the cache counts into the first event of a stream that reports usage.
pub struct StreamInjector {
    pub stats: CacheStats,
    /// Whether that event has passed.
    pub edited: bool,
}

/// What an event becomes.
pub open spec fn passed_event(event: Seq<u8>, edited: bool, stats: CacheStats) -> Seq<u8> {
    if edited {
        event
    } else {
        match edited_stream(event, stats) {
            Some(new) => new,
            None => event,
        }
    }
}

/// Whether an event that reports usage has passed, once another has.
pub open spec fn edited_after(event: Seq<u8>, edited: bool, stats: CacheStats) -> bool {
    edited || edited_stream(event, stats) is Some
}

/// What the events of a stream become.
pub open spec fn passed_events(events: Seq<Seq<u8>>, edited: bool, stats: CacheStats) -> Seq<Seq<u8>>
    decreases events.len(),
{
    if events.len() == 0 {
        Seq::<Seq<u8>>::empty()
    } else {
        seq![passed_event(events[0], edited, stats)] + passed_events(
            events.drop_first(),
            edited_after(events[0], edited, stats),
            stats,
        )
    }
}

impl StreamInjector {
    /// An injector for a new stream.
    pub fn new(stats: CacheStats) -> (injector: StreamInjector)
        ensures
            injector.stats == stats,
            !injector.edited,
    {
        StreamInjector { stats, edited: false }
    }

    /// Passes one event on, with the cache counts in it if it is the first that reports usage.
    pub fn pass(&mut self, event: Vec<u8>) -> (out: Vec<u8>)
        ensures
            final(self).stats == old(self).stats,
            out@ == passed_event(event@, old(self).edited, old(self).stats),
            final(self).edited == edited_after(event@, old(self).edited, old(self).stats),
    {
        if self.edited {
            return event;
        }
        match inject_into_sse_body(event.as_slice(), &self.stats) {
            Some(new) => {
                self.edited = true;
                new
            },
            None => event,
        }
    }
}

/// At most one event of a stream is edited: from the first on that is, all others pass unchanged.
pub proof fn law_one_event_edited(
    events: Seq<Seq<u8>>,
    edited: bool,
    stats: CacheStats,
    i: int,
    j: int,
)
    requires
        0 <= i < j < events.len(),
        edited || passed_events(events, edited, stats)[i] != events[i],
    ensures
        passed_events(events, edited, stats).len() == events.len(),
        passed_events(events, edited, stats)[j] == events[j],
    decreases events.len(),
{
    let rest = events.drop_first();
    let next = edited_after(events[0], edited, stats);
    lemma_passed_len(events, edited, stats);
    lemma_passed_len(rest, next, stats);
    assert(passed_events(events, edited, stats)[j] == passed_events(rest, next, stats)[j - 1]);
    assert(rest[j - 1] == events[j]);
    if edited || i == 0 {
        lemma_passed_unchanged(rest, stats);
    } else {
        assert(passed_events(events, edited, stats)[i] == passed_events(rest, next, stats)[i - 1]);
        assert(rest[i - 1] == events[i]);
        law_one_event_edited(rest, next, stats, i - 1, j - 1);
    }
}

proof fn lemma_passed_len(events: Seq<Seq<u8>>, edited: bool, stats: CacheStats)
    ensures
        passed_events(events, edited, stats).len() == events.len(),
    decreases events.len(),
{
    if events.len() > 0 {
        lemma_passed_len(events.drop_first(), edited_after(events[0], edited, stats), stats);
    }
}

proof fn lemma_passed_unchanged(events: Seq<Seq<u8>>, stats: CacheStats)
    ensures
        passed_events(events, true, stats) == events,
    decreases events.len(),
{
    if events.len() > 0 {
        lemma_passed_unchanged(events.drop_first(), stats);
        assert(seq![events[0]] + events.drop_first() =~= events);
    } else {
        assert(passed_events(events, true, stats) =~= events);
    }
}

// ---------------------------------------------------------------------------
// What editing keeps and changes
// ---------------------------------------------------------------------------

/// Stripping takes out the members named `cache_control` and nothing else: every other member stays
/// under its key, every item of an array in its place, each stripped in turn, and what is neither
/// object nor array stays as it is.
pub proof fn law_stripping_keeps_the_rest(tree: JsonTree, key: Seq<char>, i: int)
    ensures
        stripped(tree).member("cache_control"@) is None,
        key != "cache_control"@ ==> match tree.member(key) {
            Some(value) => stripped(tree).member(key) == Some(stripped(value)),
            None => stripped(tree).member(key) is None,
        },
        tree is Object <==> stripped(tree) is Object,
        tree matches JsonTree::Array(items) ==> {
            &&& stripped(tree) matches JsonTree::Array(kept)
            &&& kept.len() == items.len()
            &&& 0 <= i < items.len() ==> kept[i] == stripped(items[i])
        },
        !(tree is Object) && !(tree is Array) ==> stripped(tree) == tree,
{
}

/// Whether a member named `cache_control` occurs in a tree is decided by the tree itself and what
/// is right below it.
pub proof fn law_marker_is_found_at_any_depth(tree: JsonTree, key: Seq<char>, i: int)
    ensures
        tree.member("cache_control"@) is Some ==> has_marker(tree),
        tree.member(key) matches Some(value) && has_marker(value) ==> has_marker(tree),
        tree matches JsonTree::Array(items) && 0 <= i < items.len() && has_marker(items[i])
            ==> has_marker(tree),
        !(tree is Object) && !(tree is Array) ==> !has_marker(tree),
{
    if let JsonTree::Object(members) = tree {
        if members.dom().contains(key) && has_marker(members[key]) {
            assert(exists|k: Seq<char>| members.dom().contains(k) && has_marker(#[trigger] members[k]));
        }
    }
}

/// A request that is sent on has every member that it had, without its markers; only the markers
/// themselves and the options of a stream are touched.
pub proof fn law_sanitizing_keeps_the_rest(tree: JsonTree, key: Seq<char>)
    requires
        key != "cache_control"@,
        key != "stream_options"@,
    ensures
        match tree.member(key) {
            Some(value) => sanitized(tree).member(key) == Some(stripped(value)),
            None => sanitized(tree).member(key) is None,
        },
{
    law_stripping_keeps_the_rest(tree, key, 0);
}

/// A request that does not ask for a stream only loses its markers.
pub proof fn law_only_streams_get_options(tree: JsonTree)
    requires
        tree.member("stream"@) != Some(JsonTree::Bool(true)),
    ensures
        sanitized(tree) == stripped(tree),
{
    reveal_strlit("stream");
    reveal_strlit("cache_control");
    assert("stream"@.len() != "cache_control"@.len());
    law_stripping_keeps_the_rest(tree, "stream"@, 0);
    if let Some(value) = tree.member("stream"@) {
        law_stripping_keeps_the_rest(value, "stream"@, 0);
    }
}

/// A request for a stream is sent on with `include_usage` set among its stream options, and with
/// every other stream option that it had.
pub proof fn law_stream_options_are_kept(tree: JsonTree, key: Seq<char>)
    requires
        tree.member("stream"@) == Some(JsonTree::Bool(true)),
    ensures
        ({
            let before = match tree.member("stream_options"@) {
                Some(options) => stripped(options).member(key),
                None => None,
            };
            &&& sanitized(tree).member("stream_options"@) matches Some(options)
            &&& options is Object
            &&& options.member("include_usage"@) == Some(JsonTree::Bool(true))
            &&& key != "include_usage"@ ==> options.member(key) == before
        }),
{
    reveal_strlit("stream");
    reveal_strlit("stream_options");
    reveal_strlit("cache_control");
    assert("stream"@.len() != "cache_control"@.len());
    assert("stream_options"@.len() != "cache_control"@.len());
    law_stripping_keeps_the_rest(tree, "stream"@, 0);
    law_stripping_keeps_the_rest(tree, "stream_options"@, 0);
    law_stripping_keeps_the_rest(JsonTree::Bool(true), "stream"@, 0);
}

/// What a tree is written as is the UTF-8 encoding of its text.
pub proof fn law_bytes_encode_the_text(tree: JsonTree)
    ensures
        json_bytes(tree) is Some <==> json::json_text(tree) is Some,
        json_bytes(tree) matches Some(bytes) ==> valid_utf8(bytes) && Some(decode_utf8(bytes))
            == json::json_text(tree),
{
    if let Some(s) = json::json_text(tree) {
        vstd::utf8::encode_utf8_valid_utf8(s);
        vstd::utf8::encode_utf8_decode_utf8(s);
    }
}

/// A response gets the counts exactly when it has a usage report that is an object.
pub proof fn law_counts_go_where_usage_is(tree: JsonTree, stats: CacheStats)
    ensures
        injected(tree, stats) is Some <==> (tree.member("usage"@) matches Some(usage)
            && usage is Object),
{
}

/// The counts that a response gets: what was read, twice; what was written, in sum and by tier. The
/// rest of the usage report stays, and so does the rest of its prompt token details.
pub proof fn law_counts_in_full(tree: JsonTree, stats: CacheStats, key: Seq<char>)
    requires
        injected(tree, stats) is Some,
    ensures
        ({
            let before = tree.member("usage"@)->0;
            let out = injected(tree, stats)->0;
            let kept = match before.member("prompt_tokens_details"@) {
                Some(details) => details.member(key),
                None => None,
            };
            let sum = stats.creation_5m + stats.creation_1h + stats.creation_24h;
            &&& out.member("usage"@) matches Some(usage)
            &&& usage.member("cache_read_input_tokens"@) == Some(JsonTree::Unsigned(stats.read))
            &&& usage.member("cache_creation_input_tokens"@) matches Some(JsonTree::Unsigned(total))
            &&& sum <= u64::MAX ==> total == sum
            &&& sum > u64::MAX ==> total == u64::MAX
            &&& usage.member("cache_creation"@) matches Some(tiers)
            &&& tiers.member("ephemeral_5m_input_tokens"@) == Some(
                JsonTree::Unsigned(stats.creation_5m),
            )
            &&& tiers.member("ephemeral_1h_input_tokens"@) == Some(
                JsonTree::Unsigned(stats.creation_1h),
            )
            &&& tiers.member("ephemeral_24h_input_tokens"@) == Some(
                JsonTree::Unsigned(stats.creation_24h),
            )
            &&& usage.member("prompt_tokens_details"@) matches Some(details)
            &&& details.member("cached_tokens"@) == Some(JsonTree::Unsigned(stats.read))
            &&& key != "cached_tokens"@ ==> details.member(key) == kept
            &&& key != "prompt_tokens_details"@ && key != "cache_read_input_tokens"@ && key
                != "cache_creation_input_tokens"@ && key != "cache_creation"@ ==> usage.member(key)
                == before.member(key)
            &&& key != "usage"@ ==> out.member(key) == tree.member(key)
        }),
{
    law_injected_counts(tree, stats);
    reveal_strlit("prompt_tokens_details");
    reveal_strlit("cache_read_input_tokens");
    reveal_strlit("cache_creation_input_tokens");
    reveal_strlit("cache_creation");
    assert("prompt_tokens_details"@[0] != "cache_creation"@[0]);
    assert("prompt_tokens_details"@[0] != "cache_read_input_tokens"@[0]);
    assert("prompt_tokens_details"@[0] != "cache_creation_input_tokens"@[0]);
    reveal_strlit("ephemeral_5m_input_tokens");
    reveal_strlit("ephemeral_1h_input_tokens");
    reveal_strlit("ephemeral_24h_input_tokens");
    assert("ephemeral_5m_input_tokens"@[10] != "ephemeral_1h_input_tokens"@[10]);
    assert("ephemeral_24h_input_tokens"@.len() != "ephemeral_1h_input_tokens"@.len());
    assert("ephemeral_24h_input_tokens"@.len() != "ephemeral_5m_input_tokens"@.len());
    if key != "prompt_tokens_details"@ && key != "cache_read_input_tokens"@ && key
        != "cache_creation_input_tokens"@ && key != "cache_creation"@ {
        law_splice_keeps_other_fields((tree.member("usage"@)->0)->Object_0, stats, key);
    }
}

/// A line that carries a usage report is `data: ` and a document; it becomes `data: ` and the text
/// of that document with the counts in it. The white space round the document is lost.
pub proof fn law_data_line_carries_the_counts(data: Seq<char>, tree: JsonTree, stats: CacheStats)
    requires
        json::parsed_json(encode_utf8(text::trimmed(data))) == Some(tree),
        text::trimmed(data) != "[DONE]"@,
    ensures
        match injected(tree, stats) {
            Some(new) => match json::json_text(new) {
                Some(s) => edited_line("data: "@ + data, stats) == Some("data: "@ + s),
                None => edited_line("data: "@ + data, stats) is None,
            },
            None => edited_line("data: "@ + data, stats) is None,
        },
{
    let line = "data: "@ + data;
    assert(line.take("data: "@.len() as int) =~= "data: "@);
    assert(line.skip("data: "@.len() as int) =~= data);
}

/// Any other line is no usage report: one that does not begin with `data: `, or whose data is the
/// end mark or no document.
pub proof fn law_other_lines_are_left(line: Seq<char>, stats: CacheStats)
    ensures
        (forall|data: Seq<char>| line != #[trigger] ("data: "@ + data)) ==> edited_line(line, stats)
            is None,
        forall|data: Seq<char>|
            line == #[trigger] ("data: "@ + data) && (text::trimmed(data) == "[DONE]"@
                || json::parsed_json(encode_utf8(text::trimmed(data))) is None) ==> edited_line(
                line,
                stats,
            ) is None,
{
    if text::begins_with(line, "data: "@) {
        assert(line =~= "data: "@ + line.skip("data: "@.len() as int));
    }
    assert forall|data: Seq<char>|
        line == #[trigger] ("data: "@ + data) && (text::trimmed(data) == "[DONE]"@
            || json::parsed_json(encode_utf8(text::trimmed(data))) is None) implies edited_line(
        line,
        stats,
    ) is None by {
        assert(line.skip("data: "@.len() as int) =~= data);
    }
}

/// A text of lines becomes the text with the first line that can be edited in its new form, and
/// nothing where there is no such line.
pub proof fn law_stream_changes_in_one_line(lines: Seq<Seq<char>>, i: int, stats: CacheStats)
    requires
        lines.len() > 0,
        forall|j: int| 0 <= j < lines.len() ==> text::is_one_line(#[trigger] lines[j]),
        0 <= i <= lines.len(),
        forall|j: int| 0 <= j < i ==> edited_line(#[trigger] lines[j], stats) is None,
    ensures
        i == lines.len() ==> edited_stream(encode_utf8(text::joined(lines)), stats) is None,
        i < lines.len() && edited_line(lines[i], stats) is Some ==> edited_stream(
            encode_utf8(text::joined(lines)),
            stats,
        ) == Some(encode_utf8(text::joined(lines.update(i, edited_line(lines[i], stats)->0)))),
{
    let whole = text::joined(lines);
    text::law_split_at_line_ends(whole, lines);
    vstd::utf8::encode_utf8_valid_utf8(whole);
    vstd::utf8::encode_utf8_decode_utf8(whole);
    lemma_first_edited_at(lines, stats, i);
}

/// Bytes that are no text are passed on.
pub proof fn law_no_text_no_edit(body: Seq<u8>, stats: CacheStats)
    ensures
        !valid_utf8(body) ==> edited_stream(body, stats) is None,
{
}

/// The first event of a stream that reports usage passes with the counts in it, and every event
/// before it as it is.
pub proof fn law_first_report_is_edited(events: Seq<Seq<u8>>, stats: CacheStats, i: int)
    requires
        0 <= i < events.len(),
        forall|j: int| 0 <= j < i ==> edited_stream(#[trigger] events[j], stats) is None,
    ensures
        passed_events(events, false, stats).len() == events.len(),
        edited_stream(events[i], stats) matches Some(new) ==> passed_events(events, false, stats)[i]
            == new,
        edited_stream(events[i], stats) is None ==> passed_events(events, false, stats)[i]
            == events[i],
    decreases i,
{
    lemma_passed_len(events, false, stats);
    if i > 0 {
        let rest = events.drop_first();
        assert(edited_stream(events[0], stats) is None);
        assert forall|j: int| 0 <= j < i - 1 implies edited_stream(#[trigger] rest[j], stats) is None by {
            assert(rest[j] == events[j + 1]);
        }
        law_first_report_is_edited(rest, stats, i - 1);
        assert(rest[i - 1] == events[i]);
        assert(passed_events(events, false, stats)[i] == passed_events(rest, false, stats)[i - 1]);
    }
}

/// One event passes after another: what is done to an event and what is known after it make up what
/// is done to the whole stream.
pub proof fn law_events_pass_one_by_one(
    event: Seq<u8>,
    later: Seq<Seq<u8>>,
    edited: bool,
    stats: CacheStats,
)
    ensures
        passed_events(seq![event] + later, edited, stats) == seq![
            passed_event(event, edited, stats),
        ] + passed_events(later, edited_after(event, edited, stats), stats),
{
    let all = seq![event] + later;
    assert(all.drop_first() =~= later);
}

/// The counts go into an event stream as it passes, whatever else its content type says; into a
/// body that may be JSON; and into nothing else.
pub proof fn law_content_type_decides(before: Seq<char>, after: Seq<char>, other: Seq<char>)
    ensures
        injection_plan(Some(before + "text/event-stream"@ + after)) == InjectionPlan::EditStream,
        injection_plan(Some(before + "application/json"@ + after)) != InjectionPlan::PassOn,
        injection_plan(None) == InjectionPlan::EditBody,
        injection_plan(Some(other)) == InjectionPlan::EditStream ==> exists|a: Seq<char>, b: Seq<char>|
            other == #[trigger] (a + "text/event-stream"@ + b),
        injection_plan(Some(other)) == InjectionPlan::EditBody ==> (exists|a: Seq<char>, b: Seq<char>|
            other == #[trigger] (a + "application/json"@ + b)) && !(exists|
            a: Seq<char>,
            b: Seq<char>,
        |
            other == #[trigger] (a + "text/event-stream"@ + b)),
{
    text::lemma_part_occurs(before, "text/event-stream"@, after);
    text::lemma_part_occurs(before, "application/json"@, after);
    if text::occurs_in("text/event-stream"@, other) {
        text::lemma_occurrence_splits("text/event-stream"@, other);
    }
    if text::occurs_in("application/json"@, other) {
        text::lemma_occurrence_splits("application/json"@, other);
    }
    assert forall|a: Seq<char>, b: Seq<char>|
        other == #[trigger] (a + "text/event-stream"@ + b) implies text::occurs_in(
        "text/event-stream"@,
        other,
    ) by {
        text::lemma_part_occurs(a, "text/event-stream"@, b);
    }
}

} // verus!
