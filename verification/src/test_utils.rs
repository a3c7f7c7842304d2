//! Upstreams that answer as they are told.
use vstd::prelude::*;
use vstd::utf8::encode_utf8;

verus! {

/// A request that an upstream was sent.
#[derive(Debug)]
pub struct MockRequest {
    pub method: String,
    pub uri: String,
    pub headers: Vec<(String, String)>,
    pub body: Vec<u8>,
}

/// What happens next in a stream.
#[derive(Debug)]
pub enum MockStreamEvent {
    /// Some text arrives.
    Data(String),
    /// Some bytes arrive.
    Bytes(Vec<u8>),
    /// The stream fails.
    Error(String),
    /// Nothing, ever.
    Pending,
}

/// What a reader of a stream is given.
#[derive(Debug)]
pub enum Polled {
    /// Some bytes.
    Chunk(Vec<u8>),
    /// A failure.
    Failed(String),
    /// Nothing yet.
    Waiting,
    /// Nothing more.
    Ended,
}

/// A stream in which things happen in a given order.
#[derive(Debug)]
pub struct MockStream {
    events: Vec<MockStreamEvent>,
    next: usize,
}

impl MockStream {
    /// All that happens in the stream.
    pub closed spec fn script(self) -> Seq<MockStreamEvent> {
        self.events@
    }

    /// The number of things that have happened.
    pub closed spec fn position(self) -> nat {
        self.next as nat
    }

    /// A stream in which these things happen.
    pub fn new(events: Vec<MockStreamEvent>) -> (stream: MockStream)
        ensures
            stream.script() == events@,
            stream.position() == 0,
    {
        MockStream { events, next: 0 }
    }

    /// What a reader is given. A stream that waits goes on waiting.
    pub fn poll(&mut self) -> (polled: Polled)
        ensures
            final(self).script() == old(self).script(),
            if old(self).position() >= old(self).script().len() {
                polled is Ended && final(self).position() == old(self).position()
            } else {
                match old(self).script()[old(self).position() as int] {
                    MockStreamEvent::Pending => polled is Waiting && final(self).position()
                        == old(self).position(),
                    MockStreamEvent::Data(data) => (polled matches Polled::Chunk(bytes) && bytes@
                        == encode_utf8(data@)) && final(self).position() == old(self).position() + 1,
                    MockStreamEvent::Bytes(data) => (polled matches Polled::Chunk(bytes) && bytes@
                        == data@) && final(self).position() == old(self).position() + 1,
                    MockStreamEvent::Error(message) => (polled matches Polled::Failed(m) && m@
                        == message@) && final(self).position() == old(self).position() + 1,
                }
            },
    {
        if self.next >= self.events.len() {
            return Polled::Ended;
        }
        let polled = match &self.events[self.next] {
            MockStreamEvent::Pending => {
                return Polled::Waiting;
            },
            MockStreamEvent::Data(data) => Polled::Chunk(data.as_str().as_bytes_vec()),
            MockStreamEvent::Bytes(data) => Polled::Chunk(data.clone()),
            MockStreamEvent::Error(message) => Polled::Failed(message.clone()),
        };
        self.next = self.next + 1;
        polled
    }
}

/// The response number `index` of those that an upstream was told to give; none once they are
/// used up.
pub fn scripted<T>(responses: &Vec<T>, index: usize) -> (response: Option<&T>)
    ensures
        match response {
            Some(r) => index < responses@.len() && *r == responses@[index as int],
            None => index >= responses@.len(),
        },
{
    if index < responses.len() {
        Some(&responses[index])
    } else {
        None
    }
}

} // verus!
