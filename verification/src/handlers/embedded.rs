//! Errors that upstreams hide in the body of a successful response.
use vstd::prelude::*;
use vstd::utf8::{decode_utf8, encode_utf8, valid_utf8};
use crate::json;
use crate::json::{Json, JsonTree};
use crate::text;

verus! {

/// The number that an error code gives: an integer, or text that spells one.
pub open spec fn code_number(code: JsonTree) -> Option<nat> {
    match code {
        JsonTree::Unsigned(n) => Some(n as nat),
        JsonTree::Text(t) => text::number_of(t),
        _ => None,
    }
}

/// The status that `error.code` of a document gives, if that is an HTTP error status.
pub open spec fn embedded_status(tree: JsonTree) -> Option<u16> {
    match tree.member("error"@) {
        Some(error) => match error.member("code"@) {
            Some(code) => match code_number(code) {
                Some(n) => if 400 <= n < 600 {
                    Some(n as u16)
                } else {
                    None
                },
                None => None,
            },
            None => None,
        },
        None => None,
    }
}

/// The status that `error.code` of a document gives, if that is an HTTP error status.
pub fn embedded_error_status(body: &Json) -> (status: Option<u16>)
    ensures
        status == embedded_status(body@),
{
    let error = match body.member("error") {
        Some(error) => error,
        None => {
            return None;
        },
    };
    let code = match error.member("code") {
        Some(code) => code,
        None => {
            return None;
        },
    };
    let number: u64 = match code {
        Json::Unsigned(n) => *n,
        Json::Text(t) => {
            let chars = text::chars_of(t.as_str());
            match text::parse_number(chars.as_slice()) {
                Some(n) => n,
                None => {
                    return None;
                },
            }
        },
        _ => {
            return None;
        },
    };
    if 400 <= number && number < 600 {
        Some(number as u16)
    } else {
        None
    }
}

/// What an event of a stream is.
#[derive(Debug, Clone, Copy, PartialEq, Eq, Structural)]
pub enum SseEventKind {
    /// It carries an error with a status.
    Error(u16),
    /// It carries anything else.
    Data,
    /// It carries no data.
    Comment,
}

/// What follows `data:` on a line, without one space.
pub open spec fn line_data(line: Seq<char>) -> Option<Seq<char>> {
    match text::after_prefix(line, "data:"@) {
        Some(rest) => Some(
            if rest.len() > 0 && rest.first() == ' ' {
                rest.drop_first()
            } else {
                rest
            },
        ),
        None => None,
    }
}

/// The data that the lines of an event carry, if any does. A line feed stands before a line's
/// data where there is data already.
pub open spec fn event_data(lines: Seq<Seq<char>>) -> Option<Seq<char>>
    decreases lines.len(),
{
    if lines.len() == 0 {
        None
    } else {
        let before = event_data(lines.drop_last());
        match line_data(lines.last()) {
            Some(more) => match before {
                Some(data) => if data.len() > 0 {
                    Some(data.push('\n') + more)
                } else {
                    Some(more)
                },
                None => Some(more),
            },
            None => before,
        }
    }
}

/// What a piece of data is.
pub open spec fn data_kind(data: Seq<char>) -> SseEventKind {
    if text::trimmed(data) == "[DONE]"@ {
        SseEventKind::Data
    } else {
        match json::parsed_json(encode_utf8(text::trimmed(data))) {
            Some(tree) => match embedded_status(tree) {
                Some(status) => SseEventKind::Error(status),
                None => SseEventKind::Data,
            },
            None => SseEventKind::Data,
        }
    }
}

/// What an event is. Bytes that are no text are data.
pub open spec fn event_kind(chunk: Seq<u8>) -> SseEventKind {
    if valid_utf8(chunk) {
        match event_data(text::lines_of(decode_utf8(chunk))) {
            Some(data) => data_kind(data),
            None => SseEventKind::Comment,
        }
    } else {
        SseEventKind::Data
    }
}

/// What follows `data:` on a line, without one space.
fn data_of_line<'a>(line: &'a [char]) -> (data: Option<&'a [char]>)
    ensures
        match data {
            Some(d) => line_data(line@) == Some(d@),
            None => line_data(line@) is None,
        },
{
    let prefix = text::chars_of("data:");
    match text::strip_prefix(line, prefix.as_slice()) {
        Some(rest) => {
            if rest.len() > 0 && rest[0] == ' ' {
                let shorter = vstd::slice::slice_subrange(rest, 1, rest.len());
                assert(shorter@ =~= rest@.drop_first());
                Some(shorter)
            } else {
                Some(rest)
            }
        },
        None => None,
    }
}

/// The data that an event carries, if it carries any.
fn collect_data(lines: &Vec<Vec<char>>) -> (data: Option<Vec<char>>)
    ensures
        match data {
            Some(d) => event_data(text::views(lines@)) == Some(d@),
            None => event_data(text::views(lines@)) is None,
        },
{
    let ghost all = text::views(lines@);
    let mut data: Vec<char> = Vec::new();
    let mut has_data = false;
    let mut i: usize = 0;
    while i < lines.len()
        invariant
            i <= lines.len(),
            all == text::views(lines@),
            event_data(all.take(i as int)) == if has_data {
                Some(data@)
            } else {
                None
            },
            !has_data ==> data@.len() == 0,
        decreases lines.len() - i,
    {
        proof {
            assert(all.take(i + 1).drop_last() == all.take(i as int));
            assert(all.take(i + 1).last() == lines@[i as int]@);
        }
        if let Some(more) = data_of_line(lines[i].as_slice()) {
            has_data = true;
            if data.len() > 0 {
                data.push('\n');
            }
            let ghost before = data@;
            data.extend_from_slice(more);
            assert(data@ =~= before + more@);
        }
        i = i + 1;
    }
    assert(all.take(all.len() as int) == all);
    if has_data {
        Some(data)
    } else {
        None
    }
}

/// What a complete event of a stream is.
pub fn classify_sse_event(chunk: &[u8]) -> (kind: SseEventKind)
    ensures
        kind == event_kind(chunk@),
{
    let chars = match text::decode(chunk) {
        Some(chars) => chars,
        None => {
            return SseEventKind::Data;
        },
    };
    let lines = text::lines(chars.as_slice());
    let data = match collect_data(&lines) {
        Some(data) => data,
        None => {
            return SseEventKind::Comment;
        },
    };
    let payload = text::trim(data.as_slice());
    let done = text::chars_of("[DONE]");
    if text::same_chars(payload, done.as_slice()) {
        return SseEventKind::Data;
    }
    let bytes = text::encode(payload);
    match Json::parse(bytes.as_slice()) {
        Some(value) => match embedded_error_status(&value) {
            Some(status) => SseEventKind::Error(status),
            None => SseEventKind::Data,
        },
        None => SseEventKind::Data,
    }
}

/// What a look into the body of a successful response found.
#[derive(Debug, Clone, Copy, PartialEq, Eq, Structural)]
pub enum Scan2xx {
    /// Nothing amiss.
    Clean,
    /// An error with a status.
    Embedded(u16),
    /// The body ended before any content.
    EmptyBody,
}

/// What a complete body holds. Only a body in which the word `"error"` occurs, in its quotation
/// marks, is read as a document.
pub open spec fn body_scan(body: Seq<u8>) -> Scan2xx {
    if body.len() == 0 {
        Scan2xx::EmptyBody
    } else if text::occurs_in(encode_utf8("\"error\""@), body) {
        match json::parsed_json(body) {
            Some(tree) => match embedded_status(tree) {
                Some(status) => Scan2xx::Embedded(status),
                None => Scan2xx::Clean,
            },
            None => Scan2xx::Clean,
        }
    } else {
        Scan2xx::Clean
    }
}

/// Looks into a complete body.
pub fn scan_body(body: &[u8]) -> (scan: Scan2xx)
    ensures
        scan == body_scan(body@),
{
    if body.len() == 0 {
        return Scan2xx::EmptyBody;
    }
    if !text::contains_bytes(body, "\"error\"".as_bytes()) {
        return Scan2xx::Clean;
    }
    match Json::parse(body) {
        Some(value) => match embedded_error_status(&value) {
            Some(status) => Scan2xx::Embedded(status),
            None => Scan2xx::Clean,
        },
        None => Scan2xx::Clean,
    }
}

// ---------------------------------------------------------------------------
// Looking at the beginning of a stream
// ---------------------------------------------------------------------------

/// The most events of a stream that are looked at before it is passed on.
pub const SSE_PEEK_MAX_EVENTS: usize = 4;

/// The most seconds that are spent on looking.
pub const SSE_PEEK_BUDGET_SECS: u64 = 2;

/// What comes next from a stream.
#[derive(Debug, Clone, Copy, PartialEq, Eq, Structural)]
pub enum PeekEvent {
    /// A complete event.
    Frame(SseEventKind),
    /// A failure of the stream.
    Failed,
    /// The end of the stream.
    Closed,
}

/// What has been seen of the beginning of a stream.
#[derive(Debug, Clone, Copy, PartialEq, Eq, Structural)]
pub struct SsePeek {
    pub looked_at: usize,
    pub embedded: Option<u16>,
    pub saw_data: bool,
    pub stream_ended: bool,
}

impl SsePeek {
    /// Whether another event is to be looked at.
    pub open spec fn undecided(self) -> bool {
        self.looked_at < SSE_PEEK_MAX_EVENTS && self.embedded is None && !self.saw_data
            && !self.stream_ended
    }

    /// What is known after one more event.
    pub open spec fn after(self, event: PeekEvent) -> SsePeek {
        let looked_at = (self.looked_at + 1) as usize;
        match event {
            PeekEvent::Frame(SseEventKind::Error(status)) => SsePeek {
                looked_at,
                embedded: Some(status),
                ..self
            },
            PeekEvent::Frame(SseEventKind::Data) => SsePeek { looked_at, saw_data: true, ..self },
            PeekEvent::Frame(SseEventKind::Comment) => SsePeek { looked_at, ..self },
            PeekEvent::Failed => SsePeek { looked_at, stream_ended: true, ..self },
            PeekEvent::Closed => SsePeek { looked_at, stream_ended: true, ..self },
        }
    }

    /// What is known after some events; those that come once it is decided are not looked at.
    pub open spec fn after_all(self, events: Seq<PeekEvent>) -> SsePeek
        decreases events.len(),
    {
        if events.len() == 0 || !self.undecided() {
            self
        } else {
            self.after(events.first()).after_all(events.drop_first())
        }
    }

    /// Nothing has been seen.
    pub open spec fn nothing() -> SsePeek {
        SsePeek { looked_at: 0, embedded: None, saw_data: false, stream_ended: false }
    }

    /// What the beginning of the stream tells. A stream that is merely slow is in order.
    pub open spec fn tells(self, timed_out: bool) -> Scan2xx {
        match self.embedded {
            Some(status) => Scan2xx::Embedded(status),
            None => if !timed_out && self.stream_ended && !self.saw_data {
                Scan2xx::EmptyBody
            } else {
                Scan2xx::Clean
            },
        }
    }

    /// Nothing has been seen.
    pub fn new() -> (peek: SsePeek)
        ensures
            peek == SsePeek::nothing(),
    {
        SsePeek { looked_at: 0, embedded: None, saw_data: false, stream_ended: false }
    }

    /// Whether another event is to be looked at.
    pub fn wants_more(&self) -> (more: bool)
        ensures
            more == self.undecided(),
    {
        self.looked_at < SSE_PEEK_MAX_EVENTS && self.embedded.is_none() && !self.saw_data
            && !self.stream_ended
    }

    /// Looks at one more event, if another is to be looked at.
    pub fn observe(&mut self, event: PeekEvent)
        ensures
            *final(self) == if old(self).undecided() {
                old(self).after(event)
            } else {
                *old(self)
            },
    {
        if self.wants_more() {
            self.looked_at = self.looked_at + 1;
            match event {
                PeekEvent::Frame(SseEventKind::Error(status)) => {
                    self.embedded = Some(status);
                },
                PeekEvent::Frame(SseEventKind::Data) => {
                    self.saw_data = true;
                },
                PeekEvent::Frame(SseEventKind::Comment) => {},
                PeekEvent::Failed => {
                    self.stream_ended = true;
                },
                PeekEvent::Closed => {
                    self.stream_ended = true;
                },
            }
        }
    }

    /// What the beginning of the stream tells.
    pub fn verdict(&self, timed_out: bool) -> (scan: Scan2xx)
        ensures
            scan == self.tells(timed_out),
    {
        match self.embedded {
            Some(status) => Scan2xx::Embedded(status),
            None => if !timed_out && self.stream_ended && !self.saw_data {
                Scan2xx::EmptyBody
            } else {
                Scan2xx::Clean
            },
        }
    }
}

/// No more than the allowed number of events is looked at; a stream that took too long is never
/// taken to be empty; and a stream is taken to be empty only if it ended or failed after nothing
/// but comments.
pub proof fn law_peek(events: Seq<PeekEvent>, timed_out: bool)
    ensures
        ({
            let seen = SsePeek::nothing().after_all(events);
            &&& seen.looked_at <= SSE_PEEK_MAX_EVENTS
            &&& seen.tells(true) != Scan2xx::EmptyBody
            &&& seen.tells(timed_out) == Scan2xx::EmptyBody ==> exists|n: int|
                #[trigger] ends_after_comments(events, n)
        }),
{
    lemma_peek(SsePeek::nothing(), events);
}

/// Whether the stream ends or fails at event `n`, after nothing but comments.
pub open spec fn ends_after_comments(events: Seq<PeekEvent>, n: int) -> bool {
    &&& 0 <= n < events.len()
    &&& events[n] == PeekEvent::Closed || events[n] == PeekEvent::Failed
    &&& forall|i: int| 0 <= i < n ==> events[i] == PeekEvent::Frame(SseEventKind::Comment)
}

proof fn lemma_peek(peek: SsePeek, events: Seq<PeekEvent>)
    requires
        peek.looked_at <= SSE_PEEK_MAX_EVENTS,
        peek.embedded is None,
        !peek.saw_data,
        !peek.stream_ended,
    ensures
        ({
            let seen = peek.after_all(events);
            &&& seen.looked_at <= SSE_PEEK_MAX_EVENTS
            &&& seen.stream_ended && seen.embedded is None && !seen.saw_data ==> exists|n: int|
                #[trigger] ends_after_comments(events, n)
        }),
    decreases events.len(),
{
    if events.len() > 0 && peek.undecided() {
        let next = peek.after(events.first());
        let rest = events.drop_first();
        match events.first() {
            PeekEvent::Frame(SseEventKind::Comment) => {
                lemma_peek(next, rest);
                let seen = next.after_all(rest);
                if seen.stream_ended && seen.embedded is None && !seen.saw_data {
                    let n = choose|n: int| #[trigger] ends_after_comments(rest, n);
                    assert(events[n + 1] == rest[n]);
                    assert forall|i: int| 0 <= i < n + 1 implies events[i] == PeekEvent::Frame(
                        SseEventKind::Comment,
                    ) by {
                        if i > 0 {
                            assert(events[i] == rest[i - 1]);
                        }
                    }
                    assert(ends_after_comments(events, n + 1));
                }
            },
            _ => {
                assert(!next.undecided());
                assert(next.after_all(rest) == next);
                if next.stream_ended {
                    assert(ends_after_comments(events, 0));
                }
            },
        }
    }
}

// ---------------------------------------------------------------------------
// What is taken for an error
// ---------------------------------------------------------------------------

/// The number under `error.code` of a document, written as a number or spelled out, is the status
/// that the document tells, for every HTTP error status, and no status for any other number.
pub proof fn law_error_code_is_the_status(tree: JsonTree, error: JsonTree, n: u64, t: Seq<char>)
    requires
        tree.member("error"@) == Some(error),
    ensures
        error.member("code"@) == Some(JsonTree::Unsigned(n)) ==> match embedded_status(tree) {
            Some(status) => status == n && 400 <= n < 600,
            None => n < 400 || n >= 600,
        },
        error.member("code"@) == Some(JsonTree::Text(text::numeral(n as nat))) ==> match embedded_status(
            tree,
        ) {
            Some(status) => status == n && 400 <= n < 600,
            None => n < 400 || n >= 600,
        },
        error.member("code"@) == Some(JsonTree::Text(t)) ==> match (
            embedded_status(tree),
            text::number_of(t),
        ) {
            (Some(status), Some(m)) => status == m && 400 <= m < 600,
            (None, Some(m)) => m < 400 || m >= 600,
            (told, None) => told is None,
        },
{
    text::law_numeral_spells_number(n as nat);
}

/// A document without `error.code`, or with one that is neither a whole number nor a text, tells no
/// status.
pub proof fn law_no_code_no_status(tree: JsonTree)
    ensures
        embedded_status(tree) is Some ==> {
            &&& tree.member("error"@) matches Some(error)
            &&& error.member("code"@) matches Some(code)
            &&& code is Unsigned || code is Text
        },
{
}

/// A body that tells a status is taken for an error with that status, provided that the word `error`
/// stands in it as a key does; an empty body is told apart; any other body is clean.
pub proof fn law_body_with_an_error(body: Seq<u8>, tree: JsonTree)
    ensures
        body.len() == 0 <==> body_scan(body) == Scan2xx::EmptyBody,
        body.len() > 0 && json::parsed_json(body) is None ==> body_scan(body) == Scan2xx::Clean,
        body.len() > 0 && json::parsed_json(body) == Some(tree) && embedded_status(tree) is None
            ==> body_scan(body) == Scan2xx::Clean,
        body.len() > 0 && json::parsed_json(body) == Some(tree) ==> (embedded_status(tree) matches Some(
            status,
        ) ==> body_scan(body) == if text::occurs_in(encode_utf8("\"error\""@), body) {
            Scan2xx::Embedded(status)
        } else {
            Scan2xx::Clean
        }),
{
}

/// A line carries data exactly when it begins with `data:`; one blank behind that is no part of it.
pub proof fn law_data_line(rest: Seq<char>, line: Seq<char>)
    ensures
        line_data("data: "@ + rest) == Some(rest),
        rest.len() == 0 || rest.first() != ' ' ==> line_data("data:"@ + rest) == Some(rest),
        (forall|r: Seq<char>| line != #[trigger] ("data:"@ + r)) ==> line_data(line) is None,
{
    reveal_strlit("data: ");
    reveal_strlit("data:");
    let blank = seq![' '] + rest;
    assert("data: "@ + rest =~= "data:"@ + blank);
    text::law_prefix_and_suffix(line, "data:"@, blank);
    text::law_prefix_and_suffix(line, "data:"@, rest);
    assert(blank.drop_first() =~= rest);
}

/// The data of an event is that of its data lines, joined by line ends; other lines do not matter,
/// and an event without data lines has none.
pub proof fn law_event_data(lines: Seq<Seq<char>>, line: Seq<char>)
    ensures
        event_data(Seq::<Seq<char>>::empty()) is None,
        line_data(line) is None ==> event_data(lines.push(line)) == event_data(lines),
        line_data(line) matches Some(more) ==> event_data(lines.push(line)) == match event_data(
            lines,
        ) {
            Some(data) => if data.len() == 0 {
                Some(more)
            } else {
                Some(data + seq!['\n'] + more)
            },
            None => Some(more),
        },
{
    assert(lines.push(line).drop_last() =~= lines);
    if let Some(data) = event_data(lines) {
        assert(data.push('\n') =~= data + seq!['\n']);
    }
}

/// An event whose data is a document that tells a status is an error with that status. An event
/// without data is a comment. Every other event, and what is no text, carries data.
pub proof fn law_error_event(chunk: Seq<u8>, data: Seq<char>, tree: JsonTree)
    ensures
        !valid_utf8(chunk) ==> event_kind(chunk) == SseEventKind::Data,
        valid_utf8(chunk) ==> (event_kind(chunk) == SseEventKind::Comment <==> event_data(
            text::lines_of(decode_utf8(chunk)),
        ) is None),
        valid_utf8(chunk) && event_data(text::lines_of(decode_utf8(chunk))) == Some(data) ==> {
            let document = text::trimmed(data);
            &&& document == "[DONE]"@ ==> event_kind(chunk) == SseEventKind::Data
            &&& json::parsed_json(encode_utf8(document)) is None ==> event_kind(chunk)
                == SseEventKind::Data
            &&& document != "[DONE]"@ && json::parsed_json(encode_utf8(document)) == Some(tree)
                ==> match embedded_status(tree) {
                Some(status) => event_kind(chunk) == SseEventKind::Error(status),
                None => event_kind(chunk) == SseEventKind::Data,
            }
        },
{
}

/// Some comments.
pub open spec fn comments(n: nat) -> Seq<PeekEvent> {
    Seq::new(n, |i: int| PeekEvent::Frame(SseEventKind::Comment))
}

proof fn lemma_comments_pass(peek: SsePeek, n: nat, later: Seq<PeekEvent>)
    requires
        peek.undecided(),
        peek.looked_at + n <= SSE_PEEK_MAX_EVENTS,
    ensures
        peek.after_all(comments(n) + later) == (SsePeek {
            looked_at: (peek.looked_at + n) as usize,
            ..peek
        }).after_all(later),
    decreases n,
{
    let all = comments(n) + later;
    if n == 0 {
        assert(all =~= later);
    } else {
        let less = (n - 1) as nat;
        assert(all.first() == PeekEvent::Frame(SseEventKind::Comment));
        assert(all.drop_first() =~= comments(less) + later);
        let next = peek.after(all.first());
        if next.undecided() {
            lemma_comments_pass(next, less, later);
        } else {
            assert(n == 1);
            assert(comments(less) + later =~= later);
        }
    }
}

/// Comments at the head of a stream are passed over, up to three of them. What comes then decides:
/// an error is found whatever follows it; data makes the stream clean; an end makes it empty, unless
/// the time was up. After four comments a stream counts as clean.
pub proof fn law_first_event_decides(n: nat, status: u16, later: Seq<PeekEvent>, timed_out: bool)
    ensures
        n < 4 ==> ({
            let head = comments(n);
            let start = SsePeek::nothing();
            let error = PeekEvent::Frame(SseEventKind::Error(status));
            let data = PeekEvent::Frame(SseEventKind::Data);
            let end = if timed_out {
                Scan2xx::Clean
            } else {
                Scan2xx::EmptyBody
            };
            &&& start.after_all(head + (seq![error] + later)).tells(timed_out) == Scan2xx::Embedded(
                status,
            )
            &&& start.after_all(head + (seq![data] + later)).tells(timed_out) == Scan2xx::Clean
            &&& start.after_all(head + (seq![PeekEvent::Closed] + later)).tells(timed_out) == end
            &&& start.after_all(head + (seq![PeekEvent::Failed] + later)).tells(timed_out) == end
            &&& start.after_all(head).tells(timed_out) == Scan2xx::Clean
        }),
        SsePeek::nothing().after_all(comments(4) + later).tells(timed_out) == Scan2xx::Clean,
{
    let start = SsePeek::nothing();
    if n < 4 {
        lemma_decided(n, PeekEvent::Frame(SseEventKind::Error(status)), later);
        lemma_decided(n, PeekEvent::Frame(SseEventKind::Data), later);
        lemma_decided(n, PeekEvent::Closed, later);
        lemma_decided(n, PeekEvent::Failed, later);
        lemma_comments_pass(start, n, Seq::empty());
        assert(comments(n) + Seq::<PeekEvent>::empty() =~= comments(n));
    }
    lemma_comments_pass(start, 4, later);
}

proof fn lemma_decided(n: nat, event: PeekEvent, later: Seq<PeekEvent>)
    requires
        n < 4,
        event != PeekEvent::Frame(SseEventKind::Comment),
    ensures
        SsePeek::nothing().after_all(comments(n) + (seq![event] + later)) == (SsePeek {
            looked_at: n as usize,
            ..SsePeek::nothing()
        }).after(event),
{
    let tail = seq![event] + later;
    lemma_comments_pass(SsePeek::nothing(), n, tail);
    let there = SsePeek { looked_at: n as usize, ..SsePeek::nothing() };
    assert(tail.first() == event);
    assert(there.undecided());
    assert(!there.after(event).undecided());
    assert(there.after_all(tail) == there.after(event).after_all(tail.drop_first()));
}

} // verus!
