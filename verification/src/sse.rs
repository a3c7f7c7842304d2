//! Event streams: regrouping bytes into complete events.
use vstd::prelude::*;
use crate::text;

verus! {

/// Whether a blank line ends at position `i`: a line feed there and one before it.
pub open spec fn ends_event(bytes: Seq<u8>, i: int) -> bool {
    1 <= i < bytes.len() && bytes[i] == 10 && bytes[i - 1] == 10
}

/// Whether bytes are one complete event: they end with a blank line, and none ends before.
pub open spec fn is_event(bytes: Seq<u8>) -> bool {
    &&& ends_event(bytes, bytes.len() - 1)
    &&& forall|i: int| i < bytes.len() - 1 ==> !ends_event(bytes, i)
}

/// Whether no event is complete yet.
pub open spec fn is_open(bytes: Seq<u8>) -> bool {
    forall|i: int| !ends_event(bytes, i)
}

/// Events one after another.
pub open spec fn concatenated(events: Seq<Seq<u8>>) -> Seq<u8>
    decreases events.len(),
{
    if events.len() == 0 {
        Seq::<u8>::empty()
    } else {
        concatenated(events.drop_last()) + events.last()
    }
}

/// The bytes behind vectors of bytes.
pub open spec fn views(events: Seq<Vec<u8>>) -> Seq<Seq<u8>> {
    Seq::new(events.len(), |i: int| events[i]@)
}

/// Collects the bytes of a stream until they make an event.
pub struct SseBuffer {
    pending: Vec<u8>,
}

impl View for SseBuffer {
    type V = Seq<u8>;

    closed spec fn view(&self) -> Seq<u8> {
        self.pending@
    }
}

impl SseBuffer {
    #[verifier::type_invariant]
    spec fn holds_no_event(self) -> bool {
        is_open(self.pending@)
    }

    /// Nothing collected.
    pub fn new() -> (buffer: SseBuffer)
        ensures
            buffer@ == Seq::<u8>::empty(),
    {
        SseBuffer { pending: Vec::new() }
    }

    /// Takes in some bytes and hands out the events that are complete, in order. Nothing is lost:
    /// what is not handed out stays collected.
    pub fn push(&mut self, bytes: &[u8]) -> (events: Vec<Vec<u8>>)
        ensures
            is_open(old(self)@),
            is_open(final(self)@),
            forall|i: int| 0 <= i < events@.len() ==> is_event((#[trigger] events@[i])@),
            concatenated(views(events@)) + final(self)@ == old(self)@ + bytes@,
    {
        proof {
            use_type_invariant(&*self);
        }
        let mut events: Vec<Vec<u8>> = Vec::new();
        let mut pending: Vec<u8> = Vec::new();
        std::mem::swap(&mut pending, &mut self.pending);
        let mut i: usize = 0;
        assert(views(events@) =~= Seq::<Seq<u8>>::empty());
        assert(concatenated(views(events@)) + pending@ =~= old(self)@ + bytes@.take(0));
        while i < bytes.len()
            invariant
                i <= bytes.len(),
                is_open(pending@),
                forall|k: int| 0 <= k < events@.len() ==> is_event((#[trigger] events@[k])@),
                concatenated(views(events@)) + pending@ == old(self)@ + bytes@.take(i as int),
            decreases bytes.len() - i,
        {
            let ghost before = pending@;
            let ghost handed = concatenated(views(events@));
            let ghost old_events = events@;
            let b: u8 = bytes[i];
            let len: usize = pending.len();
            let complete = b == 10 && len > 0 && pending[len - 1] == 10;
            pending.push(b);
            proof {
                let now = pending@;
                assert(handed + now =~= (handed + before).push(b));
                assert(old(self)@ + bytes@.take(i + 1) =~= (old(self)@ + bytes@.take(i as int)).push(
                    b,
                ));
                assert forall|k: int| k < now.len() - 1 implies !ends_event(now, k) by {
                    if ends_event(now, k) {
                        assert(ends_event(before, k));
                    }
                }
                assert(complete == ends_event(now, now.len() - 1));
            }
            if complete {
                let ghost whole = pending@;
                events.push(pending);
                pending = Vec::new();
                proof {
                    assert(views(events@).drop_last() =~= views(old_events));
                    assert(views(events@).last() == whole);
                    assert(concatenated(views(events@)) + pending@ =~= handed + whole);
                }
            }
            i = i + 1;
        }
        assert(bytes@.take(bytes@.len() as int) == bytes@);
        self.pending = pending;
        events
    }

    /// Hands out what is left when the stream has ended, if anything is.
    pub fn finish(self) -> (rest: Option<Vec<u8>>)
        ensures
            match rest {
                Some(r) => r@ == self@ && r@.len() > 0,
                None => self@.len() == 0,
            },
    {
        if self.pending.len() == 0 {
            None
        } else {
            Some(self.pending)
        }
    }
}

proof fn lemma_concatenated_first(events: Seq<Seq<u8>>)
    requires
        events.len() > 0,
    ensures
        concatenated(events) == events[0] + concatenated(events.drop_first()),
    decreases events.len(),
{
    if events.len() == 1 {
        assert(events.drop_last() =~= Seq::<Seq<u8>>::empty());
        assert(events.drop_first() =~= Seq::<Seq<u8>>::empty());
        assert(concatenated(events) =~= events[0] + concatenated(events.drop_first()));
    } else {
        lemma_concatenated_first(events.drop_last());
        assert(events.drop_last().drop_first() =~= events.drop_first().drop_last());
        assert(concatenated(events) =~= events[0] + concatenated(events.drop_first()));
    }
}

/// How a stream is cut into chunks does not matter: the same bytes have one division into events
/// and a rest that holds none.
pub proof fn law_events_do_not_depend_on_chunks(
    one: Seq<Seq<u8>>,
    rest_of_one: Seq<u8>,
    other: Seq<Seq<u8>>,
    rest_of_other: Seq<u8>,
)
    requires
        forall|i: int| 0 <= i < one.len() ==> is_event(#[trigger] one[i]),
        forall|i: int| 0 <= i < other.len() ==> is_event(#[trigger] other[i]),
        is_open(rest_of_one),
        is_open(rest_of_other),
        concatenated(one) + rest_of_one == concatenated(other) + rest_of_other,
    ensures
        one == other,
        rest_of_one == rest_of_other,
    decreases one.len(),
{
    let whole = concatenated(one) + rest_of_one;
    if one.len() > 0 {
        lemma_concatenated_first(one);
        let n = one[0].len() as int;
        let after_one = concatenated(one.drop_first()) + rest_of_one;
        assert(whole =~= one[0] + after_one);
        assert(ends_event(whole, n - 1));
        if other.len() == 0 {
            assert(whole =~= rest_of_other);
            assert(false);
        }
    }
    if other.len() > 0 {
        lemma_concatenated_first(other);
        let m = other[0].len() as int;
        let after_other = concatenated(other.drop_first()) + rest_of_other;
        assert(whole =~= other[0] + after_other);
        assert(ends_event(whole, m - 1));
        if one.len() == 0 {
            assert(whole =~= rest_of_one);
            assert(false);
        }
        let n = one[0].len() as int;
        let after_one = concatenated(one.drop_first()) + rest_of_one;
        if n < m {
            assert(ends_event(other[0], n - 1));
        } else if m < n {
            assert(ends_event(one[0], m - 1));
        }
        assert(one[0] =~= whole.take(n));
        assert(other[0] =~= whole.take(n));
        assert(after_one =~= whole.skip(n));
        assert(after_other =~= whole.skip(n));
        law_events_do_not_depend_on_chunks(
            one.drop_first(),
            rest_of_one,
            other.drop_first(),
            rest_of_other,
        );
        assert(one =~= seq![one[0]] + one.drop_first());
        assert(other =~= seq![other[0]] + other.drop_first());
    } else {
        assert(whole =~= rest_of_one);
        assert(one =~= other);
    }
}

/// An event ends at the first blank line, that is two line feeds in a row, and nowhere else; what is
/// still collected holds none.
pub proof fn law_events_end_at_blank_lines(bytes: Seq<u8>)
    ensures
        is_open(bytes) <==> !text::occurs_in(seq![10u8, 10u8], bytes),
        is_event(bytes) <==> bytes.len() >= 2 && bytes.skip(bytes.len() - 2) == seq![10u8, 10u8]
            && !text::occurs_in(seq![10u8, 10u8], bytes.drop_last()),
{
    let mark = seq![10u8, 10u8];
    lemma_open(bytes);
    if bytes.len() > 0 {
        lemma_open(bytes.drop_last());
    }
    if bytes.len() >= 2 {
        let end = bytes.skip(bytes.len() - 2);
        assert(end =~= mark <==> ends_event(bytes, bytes.len() - 1)) by {
            assert(end[0] == bytes[bytes.len() - 2]);
            assert(end[1] == bytes[bytes.len() - 1]);
            if ends_event(bytes, bytes.len() - 1) {
                assert(end =~= mark);
            }
        }
        let front = bytes.drop_last();
        assert(is_open(front) <==> forall|i: int| i < bytes.len() - 1 ==> !ends_event(bytes, i)) by {
            if is_open(front) {
                assert forall|i: int| i < bytes.len() - 1 implies !ends_event(bytes, i) by {
                    assert(!ends_event(front, i));
                }
            }
            if forall|i: int| i < bytes.len() - 1 ==> !ends_event(bytes, i) {
                assert forall|i: int| !ends_event(front, i) by {
                    if ends_event(front, i) {
                        assert(ends_event(bytes, i));
                    }
                }
            }
        }
    }
}

proof fn lemma_open(bytes: Seq<u8>)
    ensures
        is_open(bytes) <==> !text::occurs_in(seq![10u8, 10u8], bytes),
{
    let mark = seq![10u8, 10u8];
    if text::occurs_in(mark, bytes) {
        let i = choose|i: int| text::occurs_at(mark, bytes, i);
        assert(bytes.subrange(i, i + 2)[0] == 10 && bytes.subrange(i, i + 2)[1] == 10);
        assert(ends_event(bytes, i + 1));
    }
    if !is_open(bytes) {
        let i = choose|i: int| ends_event(bytes, i);
        assert(bytes.subrange(i - 1, i + 1) =~= mark);
        assert(text::occurs_at(mark, bytes, i - 1));
    }
}

/// Events put together are their bytes in order.
pub proof fn law_concatenation(one: Seq<u8>, events: Seq<Seq<u8>>)
    ensures
        concatenated(Seq::<Seq<u8>>::empty()) == Seq::<u8>::empty(),
        concatenated(events.push(one)) == concatenated(events) + one,
{
    assert(events.push(one).drop_last() =~= events);
}

} // verus!
