//! Request and response headers.
use axum::http::{HeaderMap, HeaderName, HeaderValue};
use vstd::prelude::*;
use vstd::utf8::{encode_utf8, is_ascii_chars_encode_utf8};
use crate::text;

verus! {

#[verifier::external_type_specification]
#[verifier::external_body]
#[verifier::reject_recursive_types(T)]
pub struct ExHeaderMap<T>(axum::http::HeaderMap<T>);

#[verifier::external_type_specification]
#[verifier::external_body]
pub struct ExHeaderValue(axum::http::HeaderValue);

#[verifier::external_type_specification]
#[verifier::external_body]
pub struct ExHeaderName(axum::http::HeaderName);

/// The values of each header, by its name in lower case, in the order in which they were given.
pub uninterp spec fn entries(headers: HeaderMap<HeaderValue>) -> Map<Seq<char>, Seq<Seq<u8>>>;

/// The text of a header name, in lower case.
pub uninterp spec fn name_text(name: HeaderName) -> Seq<char>;

/// The number of distinct header names up to which a header map always has room for one more.
pub const MAX_HEADER_NAMES: usize = 6553;

/// Whether `more` header names can be added.
pub open spec fn has_room(headers: HeaderMap<HeaderValue>, more: int) -> bool {
    entries(headers).dom().finite() && entries(headers).dom().len() + more <= MAX_HEADER_NAMES
}

/// The characters that a header name may consist of.
pub open spec fn is_token_char(c: char) -> bool {
    ||| 'a' <= c <= 'z'
    ||| 'A' <= c <= 'Z'
    ||| '0' <= c <= '9'
    ||| c == '!' || c == '#' || c == '$' || c == '%' || c == '&' || c == '\'' || c == '*'
    ||| c == '+' || c == '-' || c == '.' || c == '^' || c == '_' || c == '`' || c == '|' || c == '~'
}

/// The lower-case form of an ASCII letter; any other character itself.
pub open spec fn lower(c: char) -> char {
    if 'A' <= c <= 'Z' {
        (c as u8 + 32) as char
    } else {
        c
    }
}

/// The header name that `text` spells, in lower case.
pub open spec fn header_name(text: Seq<char>) -> Option<Seq<char>> {
    if 1 <= text.len() <= 65535 && (forall|i: int| 0 <= i < text.len() ==> is_token_char(text[i])) {
        Some(text.map_values(|c: char| lower(c)))
    } else {
        None
    }
}

/// Whether bytes can stand as a header value.
pub open spec fn is_header_value(bytes: Seq<u8>) -> bool {
    forall|i: int| 0 <= i < bytes.len() ==> (32 <= #[trigger] bytes[i] && bytes[i] != 127) || bytes[i] == 9
}

/// Calls `HeaderMap::get` with a name in lower case: the first value of that header.
#[verifier::external_body]
fn first_value(headers: &HeaderMap<HeaderValue>, name: &str) -> (value: Option<Vec<u8>>)
    requires
        header_name(name@) == Some(name@),
    ensures
        match value {
            Some(v) => entries(*headers).dom().contains(name@) && entries(*headers)[name@].len() > 0
                && entries(*headers)[name@][0] == v@,
            None => !entries(*headers).dom().contains(name@),
        },
{
    headers.get(name).map(|v| v.as_bytes().to_vec())
}

/// Calls `HeaderMap::remove` with a name in lower case: every value of that header goes.
#[verifier::external_body]
pub(crate) fn remove_header(headers: &mut HeaderMap<HeaderValue>, name: &str)
    requires
        header_name(name@) == Some(name@),
    ensures
        entries(*final(headers)) == entries(*old(headers)).remove(name@),
{
    headers.remove(name);
}

/// Calls `HeaderMap::remove` with a name that a header map handed out: every value of the header
/// of that name goes.
#[verifier::external_body]
pub(crate) fn remove_named(headers: &mut HeaderMap<HeaderValue>, name: &HeaderName)
    ensures
        entries(*final(headers)) == entries(*old(headers)).remove(name_text(*name)),
{
    headers.remove(name);
}

/// Calls `HeaderName::as_str`: the text named by `name_text`.
#[verifier::external_body]
pub(crate) fn text_of_name(name: &HeaderName) -> (text: &str)
    ensures
        text@ == name_text(*name),
{
    name.as_str()
}

/// Calls `HeaderMap::insert` with a name in lower case: the value takes the place of all values
/// that the header had. `HeaderMap` grows by doubling its table up to 32768 slots, and panics
/// where it would have to grow beyond; with at most `MAX_HEADER_NAMES` names it never has to.
#[verifier::external_body]
pub(crate) fn insert_header(headers: &mut HeaderMap<HeaderValue>, name: &str, value: &[u8])
    requires
        header_name(name@) == Some(name@),
        is_header_value(value@),
        has_room(*old(headers), 0),
    ensures
        entries(*final(headers)) == entries(*old(headers)).insert(name@, seq![value@]),
{
    headers.insert(
        axum::http::HeaderName::from_bytes(name.as_bytes()).unwrap(),
        HeaderValue::from_bytes(value).unwrap(),
    );
}

/// Calls `HeaderMap::keys`: the name of each header, once, in no particular order. Of the
/// characters of a name nothing is said: a map can hold names that `header_name` does not admit.
#[verifier::external_body]
pub(crate) fn names(headers: &HeaderMap<HeaderValue>) -> (all: Vec<HeaderName>)
    ensures
        forall|i: int|
            0 <= i < all@.len() ==> entries(*headers).dom().contains(name_text(#[trigger] all@[i])),
        forall|name: Seq<char>| #[trigger]
            entries(*headers).dom().contains(name) ==> exists|i: int|
                0 <= i < all@.len() && name_text(#[trigger] all@[i]) == name,
        forall|i: int, j: int|
            0 <= i < j < all@.len() ==> name_text(#[trigger] all@[i]) != name_text(
                #[trigger] all@[j],
            ),
{
    headers.keys().cloned().collect()
}

/// Whether `more` header names can be added.
pub fn room_for(headers: &HeaderMap<HeaderValue>, more: usize) -> (room: bool)
    ensures
        room == has_room(*headers, more as int),
{
    let all = names(headers);
    let count = all.len();
    proof {
        let texts = all@.map_values(|name: HeaderName| name_text(name));
        texts.unique_seq_to_set();
        assert(texts.to_set() =~= entries(*headers).dom()) by {
            assert forall|name: Seq<char>| entries(*headers).dom().contains(name) implies texts.to_set().contains(
                name,
            ) by {
                let i = choose|i: int| 0 <= i < all@.len() && name_text(#[trigger] all@[i]) == name;
                assert(texts[i] == name);
            }
        }
    }
    count <= MAX_HEADER_NAMES && more <= MAX_HEADER_NAMES - count
}

/// Whether a byte is a visible ASCII character, a space or a tab.
pub open spec fn is_visible(b: u8) -> bool {
    32 <= b < 127 || b == 9
}

/// The text of a header value, if it consists of visible ASCII characters.
pub open spec fn value_text(bytes: Seq<u8>) -> Option<Seq<char>> {
    if forall|i: int| 0 <= i < bytes.len() ==> is_visible(#[trigger] bytes[i]) {
        Some(bytes.map_values(|b: u8| b as char))
    } else {
        None
    }
}

/// The text of the first value of a header, if there is one and it is text.
pub open spec fn header_text(headers: HeaderMap<HeaderValue>, name: Seq<char>) -> Option<Seq<char>> {
    if entries(headers).dom().contains(name) {
        value_text(entries(headers)[name][0])
    } else {
        None
    }
}

/// The text of a header value, if it consists of visible ASCII characters.
fn text_of_value(bytes: &[u8]) -> (text: Option<String>)
    ensures
        match text {
            Some(t) => value_text(bytes@) == Some(t@),
            None => value_text(bytes@) is None,
        },
{
    let mut text = String::new();
    let mut i: usize = 0;
    while i < bytes.len()
        invariant
            i <= bytes.len(),
            text@ == bytes@.take(i as int).map_values(|b: u8| b as char),
            forall|j: int| 0 <= j < i ==> is_visible(#[trigger] bytes@[j]),
        decreases bytes.len() - i,
    {
        let b: u8 = bytes[i];
        if !((32 <= b && b < 127) || b == 9) {
            assert(!is_visible(bytes@[i as int]));
            return None;
        }
        text.push(b as char);
        assert(bytes@.take(i + 1).map_values(|b: u8| b as char) =~= bytes@.take(i as int).map_values(
            |b: u8| b as char,
        ).push(b as char));
        i = i + 1;
    }
    assert(bytes@.take(bytes@.len() as int) == bytes@);
    Some(text)
}

/// The text of the first value of a header, if there is one and it is text.
pub fn get_text(headers: &HeaderMap<HeaderValue>, name: &str) -> (text: Option<String>)
    requires
        header_name(name@) == Some(name@),
    ensures
        match text {
            Some(t) => header_text(*headers, name@) == Some(t@),
            None => header_text(*headers, name@) is None,
        },
{
    match first_value(headers, name) {
        Some(value) => text_of_value(value.as_slice()),
        None => None,
    }
}

/// Whether a header is there.
pub fn has_header(headers: &HeaderMap<HeaderValue>, name: &str) -> (yes: bool)
    requires
        header_name(name@) == Some(name@),
    ensures
        yes == entries(*headers).dom().contains(name@),
{
    first_value(headers, name).is_some()
}

/// The header name that `name` spells, in lower case.
pub fn parse_header_name(name: &str) -> (lowered: Option<String>)
    ensures
        match lowered {
            Some(l) => header_name(name@) == Some(l@),
            None => header_name(name@) is None,
        },
{
    let chars = text::chars_of(name);
    if chars.len() == 0 || chars.len() > 65535 {
        return None;
    }
    let mut out = String::new();
    let mut i: usize = 0;
    while i < chars.len()
        invariant
            chars@ == name@,
            i <= chars.len(),
            out@ == chars@.take(i as int).map_values(|c: char| lower(c)),
            forall|j: int| 0 <= j < i ==> is_token_char(#[trigger] chars@[j]),
        decreases chars.len() - i,
    {
        let c: char = chars[i];
        let upper = 'A' <= c && c <= 'Z';
        let token = upper || ('a' <= c && c <= 'z') || ('0' <= c && c <= '9') || c == '!' || c == '#'
            || c == '$' || c == '%' || c == '&' || c == '\'' || c == '*' || c == '+' || c == '-' || c
            == '.' || c == '^' || c == '_' || c == '`' || c == '|' || c == '~';
        if !token {
            assert(!is_token_char(name@[i as int]));
            return None;
        }
        if upper {
            out.push((c as u8 + 32) as char);
        } else {
            out.push(c);
        }
        assert(chars@.take(i + 1).map_values(|c: char| lower(c)) =~= chars@.take(i as int).map_values(
            |c: char| lower(c),
        ).push(lower(c)));
        i = i + 1;
    }
    assert(chars@.take(chars@.len() as int) == chars@);
    Some(out)
}

/// Whether bytes can stand as a header value.
pub fn valid_header_value(bytes: &[u8]) -> (valid: bool)
    ensures
        valid == is_header_value(bytes@),
{
    let mut i: usize = 0;
    while i < bytes.len()
        invariant
            i <= bytes.len(),
            forall|j: int|
                0 <= j < i ==> (32 <= #[trigger] bytes@[j] && bytes@[j] != 127) || bytes@[j] == 9,
        decreases bytes.len() - i,
    {
        let b: u8 = bytes[i];
        if !((32 <= b && b != 127) || b == 9) {
            assert(!(32 <= bytes@[i as int] && bytes@[i as int] != 127) && bytes@[i as int] != 9);
            return false;
        }
        i = i + 1;
    }
    true
}

/// The headers with one more in its place, if it can be sent.
pub open spec fn with_header(
    before: Map<Seq<char>, Seq<Seq<u8>>>,
    name: Seq<char>,
    value: Seq<char>,
) -> Map<Seq<char>, Seq<Seq<u8>>> {
    match header_name(name) {
        Some(lowered) => if is_header_value(encode_utf8(value)) {
            before.insert(lowered, seq![encode_utf8(value)])
        } else {
            before
        },
        None => before,
    }
}

/// Puts a header in its place, if it can be sent.
pub fn put_header(headers: &mut HeaderMap<HeaderValue>, name: &str, value: &str)
    requires
        has_room(*old(headers), 1),
    ensures
        entries(*final(headers)) == with_header(entries(*old(headers)), name@, value@),
{
    if let Some(lowered) = parse_header_name(name) {
        if valid_header_value(value.as_bytes()) {
            proof {
                law_lowered_name_is_fixed(name@);
            }
            insert_header(headers, lowered.as_str(), value.as_bytes());
        }
    }
}

/// The headers of a body that was read to its end: its length is told, and that it comes in parts
/// is not.
pub open spec fn with_length(before: Map<Seq<char>, Seq<Seq<u8>>>, len: nat) -> Map<
    Seq<char>,
    Seq<Seq<u8>>,
> {
    before.remove("transfer-encoding"@).insert(
        "content-length"@,
        seq![encode_utf8(text::numeral(len))],
    )
}

/// Tells the length of a body that was read to its end.
pub fn set_body_length(headers: &mut HeaderMap<HeaderValue>, len: u64)
    requires
        has_room(*old(headers), 0),
    ensures
        entries(*final(headers)) == with_length(entries(*old(headers)), len as nat),
{
    proof {
        lemma_known_names();
        lemma_numeral_is_value(len as nat);
    }
    remove_header(headers, "transfer-encoding");
    let value = text::decimal(len);
    insert_header(headers, "content-length", value.as_str().as_bytes());
}

/// A numeral can stand as a header value.
pub proof fn lemma_numeral_is_value(n: nat)
    ensures
        is_header_value(encode_utf8(text::numeral(n))),
{
    text::lemma_numeral_digits(n);
    let value = text::numeral(n);
    is_ascii_chars_encode_utf8(value);
    assert forall|i: int| 0 <= i < encode_utf8(value).len() implies (32 <= #[trigger] encode_utf8(
        value,
    )[i] && encode_utf8(value)[i] != 127) by {
        assert(encode_utf8(value)[i] == value[i] as u8);
    }
}

/// A header name in lower case is its own spelling.
pub proof fn law_lowered_name_is_fixed(name: Seq<char>)
    ensures
        header_name(name) matches Some(l) ==> header_name(l) == Some(l),
{
    if let Some(l) = header_name(name) {
        assert forall|i: int| 0 <= i < l.len() implies is_token_char(l[i]) && lower(l[i]) == l[i] by {
            assert(l[i] == lower(name[i]));
        }
        assert(l.map_values(|c: char| lower(c)) =~= l);
    }
}

/// Whether the first `n` characters can stand in a header name in lower case.
pub open spec fn lower_prefix(name: Seq<char>, n: nat) -> bool
    decreases n,
{
    n == 0 || (is_token_char(name[n - 1]) && lower(name[n - 1]) == name[n - 1] && lower_prefix(
        name,
        (n - 1) as nat,
    ))
}

/// A name that consists of lower-case characters is its own spelling.
pub proof fn lemma_lower_name(name: Seq<char>)
    requires
        1 <= name.len() <= 65535,
        lower_prefix(name, name.len()),
    ensures
        header_name(name) == Some(name),
{
    lemma_lower_prefix(name, name.len());
    assert(name.map_values(|c: char| lower(c)) =~= name);
}

proof fn lemma_lower_prefix(name: Seq<char>, n: nat)
    requires
        lower_prefix(name, n),
    ensures
        forall|i: int| 0 <= i < n ==> is_token_char(#[trigger] name[i]) && lower(name[i]) == name[i],
    decreases n,
{
    if n > 0 {
        lemma_lower_prefix(name, (n - 1) as nat);
    }
}

/// The names of the headers that the gateway reads or writes are in lower case.
pub proof fn lemma_known_names()
    ensures
        header_name("authorization"@) == Some("authorization"@),
        header_name("model-override"@) == Some("model-override"@),
        header_name("content-type"@) == Some("content-type"@),
        header_name("content-length"@) == Some("content-length"@),
        header_name("content-encoding"@) == Some("content-encoding"@),
        header_name("transfer-encoding"@) == Some("transfer-encoding"@),
        header_name("host"@) == Some("host"@),
        header_name("traceparent"@) == Some("traceparent"@),
        header_name("tracestate"@) == Some("tracestate"@),
        header_name("x-forwarded-proto"@) == Some("x-forwarded-proto"@),
{
    reveal_with_fuel(lower_prefix, 18);
    reveal_strlit("authorization");
    lemma_lower_name("authorization"@);
    reveal_strlit("model-override");
    lemma_lower_name("model-override"@);
    reveal_strlit("content-type");
    lemma_lower_name("content-type"@);
    reveal_strlit("content-length");
    lemma_lower_name("content-length"@);
    reveal_strlit("content-encoding");
    lemma_lower_name("content-encoding"@);
    reveal_strlit("transfer-encoding");
    lemma_lower_name("transfer-encoding"@);
    reveal_strlit("host");
    lemma_lower_name("host"@);
    reveal_strlit("traceparent");
    lemma_lower_name("traceparent"@);
    reveal_strlit("tracestate");
    lemma_lower_name("tracestate"@);
    reveal_strlit("x-forwarded-proto");
    lemma_lower_name("x-forwarded-proto"@);
}

/// A text is a header name exactly when it is not empty, not too long, and consists of letters, digits
/// and the marks that are allowed; the name is the text with its capital letters made small.
pub proof fn law_header_names(text: Seq<char>, c: char, i: int)
    ensures
        header_name(Seq::<char>::empty()) is None,
        text.len() > 65535 ==> header_name(text) is None,
        0 < text.len() < 65535 ==> (header_name(text.push(c)) is Some <==> header_name(text) is Some && (
        ('a' <= c <= 'z') || ('A' <= c <= 'Z') || ('0' <= c <= '9') || seq![
            '!',
            '#',
            '$',
            '%',
            '&',
            '\'',
            '*',
            '+',
            '-',
            '.',
            '^',
            '_',
            '`',
            '|',
            '~',
        ].contains(c))),
        ('a' <= c <= 'z') || ('A' <= c <= 'Z') || ('0' <= c <= '9') ==> header_name(seq![c]) is Some,
        c <= ' ' || c >= '\u{7f}' || c == ':' || c == '"' || c == '/' || c == '(' || c == ')' || c
            == ',' ==> header_name(seq![c]) is None,
        header_name(text) matches Some(name) ==> {
            &&& name.len() == text.len()
            &&& 0 <= i < text.len() && 'A' <= text[i] <= 'Z' ==> name[i] as int == text[i] as int + 32
            &&& 0 <= i < text.len() && !('A' <= text[i] <= 'Z') ==> name[i] == text[i]
        },
{
    let marks = seq!['!', '#', '$', '%', '&', '\'', '*', '+', '-', '.', '^', '_', '`', '|', '~'];
    assert(marks[0] == '!' && marks[1] == '#' && marks[2] == '$' && marks[3] == '%' && marks[4] == '&'
        && marks[5] == '\'' && marks[6] == '*' && marks[7] == '+' && marks[8] == '-' && marks[9] == '.'
        && marks[10] == '^' && marks[11] == '_' && marks[12] == '`' && marks[13] == '|' && marks[14]
        == '~');
    assert(is_token_char(c) <==> (('a' <= c <= 'z') || ('A' <= c <= 'Z') || ('0' <= c <= '9')
        || marks.contains(c)));
    let more = text.push(c);
    if forall|k: int| 0 <= k < text.len() ==> is_token_char(text[k]) {
        if is_token_char(c) {
            assert forall|k: int| 0 <= k < more.len() implies is_token_char(more[k]) by {
                if k < text.len() {
                    assert(is_token_char(text[k]));
                }
            }
        } else {
            assert(!is_token_char(more[text.len() as int]));
        }
    } else {
        let k = choose|k: int| 0 <= k < text.len() && !is_token_char(text[k]);
        assert(!is_token_char(more[k]));
    }
    let one = seq![c];
    assert(one[0] == c);
}

/// Bytes can stand as a header value unless one of them is a control character other than the tab; and
/// a value is text exactly when, besides, none of them is beyond ASCII: then it is spelled by them.
pub proof fn law_header_values(bytes: Seq<u8>, b: u8, i: int)
    ensures
        is_header_value(Seq::<u8>::empty()),
        is_header_value(bytes.push(b)) <==> is_header_value(bytes) && (b >= 32 || b == 9) && b != 127,
        value_text(Seq::<u8>::empty()) is Some,
        value_text(bytes.push(b)) is Some <==> value_text(bytes) is Some && (32 <= b < 127 || b == 9),
        value_text(bytes) matches Some(text) ==> {
            &&& text.len() == bytes.len()
            &&& 0 <= i < bytes.len() ==> text[i] as int == bytes[i] as int
        },
{
    let more = bytes.push(b);
    assert(forall|k: int| 0 <= k < bytes.len() ==> more[k] == bytes[k]);
    assert(more[bytes.len() as int] == b);
    if is_header_value(more) {
        assert forall|k: int| 0 <= k < bytes.len() implies (32 <= #[trigger] bytes[k] && bytes[k] != 127)
            || bytes[k] == 9 by {
            assert(more[k] == bytes[k]);
        }
    }
    if value_text(more) is Some {
        assert forall|k: int| 0 <= k < bytes.len() implies is_visible(#[trigger] bytes[k]) by {
            assert(is_visible(more[k]));
        }
    }
}

/// What a header says is the text of the first of its values.
pub proof fn law_first_value_counts(headers: HeaderMap<HeaderValue>, name: Seq<char>)
    ensures
        !entries(headers).dom().contains(name) ==> header_text(headers, name) is None,
        entries(headers).dom().contains(name) ==> header_text(headers, name) == value_text(
            entries(headers)[name][0],
        ),
{
}

/// A header that can be sent takes the place of what was there under its name; one that cannot leaves
/// everything as it is; and no other header is touched.
pub proof fn law_one_header_is_put(
    before: Map<Seq<char>, Seq<Seq<u8>>>,
    name: Seq<char>,
    value: Seq<char>,
    other: Seq<char>,
)
    ensures
        ({
            let after = with_header(before, name, value);
            let sendable = header_name(name) is Some && is_header_value(encode_utf8(value));
            &&& sendable ==> after.dom().contains(header_name(name)->0) && after[header_name(name)->0]
                == seq![encode_utf8(value)]
            &&& !sendable ==> after == before
            &&& header_name(name) != Some(other) ==> (after.dom().contains(other)
                <==> before.dom().contains(other)) && (before.dom().contains(other) ==> after[other]
                == before[other])
        }),
{
}

/// The headers of a body that was read to its end tell its length in decimal, do not say that it comes in
/// parts, and are otherwise as they were.
pub proof fn law_length_is_told(before: Map<Seq<char>, Seq<Seq<u8>>>, len: nat, name: Seq<char>)
    ensures
        ({
            let after = with_length(before, len);
            &&& after.dom().contains("content-length"@)
            &&& after["content-length"@] == seq![encode_utf8(text::numeral(len))]
            &&& !after.dom().contains("transfer-encoding"@)
            &&& name != "content-length"@ && name != "transfer-encoding"@ ==> (after.dom().contains(
                name,
            ) <==> before.dom().contains(name)) && (before.dom().contains(name) ==> after[name]
                == before[name])
        }),
{
    reveal_strlit("content-length");
    reveal_strlit("transfer-encoding");
    assert("content-length"@.len() != "transfer-encoding"@.len());
}

} // verus!
