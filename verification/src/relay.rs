//! Relaying a response to a websocket: lines of events become messages.

use crate::events::{is_line_content, line_of};
use crate::json::{json_bytes, Json};
use crate::text::{contains, contains_text, lossy_text, text_lossy};
use vstd::prelude::*;
use vstd::utf8::*;

verus! {

// ---------------------------------------------------------------------------------------
// Lines
// ---------------------------------------------------------------------------------------

/// A line without the line feed at its end, and then without the carriage return there.
pub open spec fn without_newline(line: Seq<u8>) -> Seq<u8> {
    let plain = if line.len() > 0 && line.last() == 0x0a {
        line.drop_last()
    } else {
        line
    };
    if plain.len() > 0 && plain.last() == 0x0d {
        plain.drop_last()
    } else {
        plain
    }
}

/// A line without the line feed at its end, and then without the carriage return there.
pub fn trim_newline(line: &[u8]) -> (plain: &[u8])
    ensures
        plain@ == without_newline(line@),
{
    let mut end: usize = line.len();
    if end > 0 && line[end - 1] == 10 {
        end = end - 1;
    }
    assert(line@.take(end as int) =~= (if line@.len() > 0 && line@.last() == 0x0a {
        line@.drop_last()
    } else {
        line@
    }));
    if end > 0 && line[end - 1] == 13 {
        end = end - 1;
    }
    let plain = vstd::slice::slice_subrange(line, 0, end);
    assert(plain@ =~= without_newline(line@));
    plain
}

/// Where the first line feed stands.
pub open spec fn first_feed(bytes: Seq<u8>) -> Option<int>
    decreases bytes.len(),
{
    if bytes.len() == 0 {
        None
    } else if bytes.first() == 0x0a {
        Some(0)
    } else {
        match first_feed(bytes.drop_first()) {
            Some(at) => Some(at + 1),
            None => None,
        }
    }
}

/// The lines that end in `bytes` and hold something, without the ends of line.
pub open spec fn shown_lines(bytes: Seq<u8>) -> Seq<Seq<u8>>
    decreases bytes.len(),
{
    match first_feed(bytes) {
        Some(at) => if 0 <= at < bytes.len() {
            let line = without_newline(bytes.take(at + 1));
            let rest = shown_lines(bytes.skip(at + 1));
            if line.len() == 0 {
                rest
            } else {
                seq![line] + rest
            }
        } else {
            Seq::empty()
        },
        None => Seq::empty(),
    }
}

/// What stands behind the last line that ends in `bytes`.
pub open spec fn unfinished(bytes: Seq<u8>) -> Seq<u8>
    decreases bytes.len(),
{
    match first_feed(bytes) {
        Some(at) => if 0 <= at < bytes.len() {
            unfinished(bytes.skip(at + 1))
        } else {
            bytes
        },
        None => bytes,
    }
}

proof fn lemma_first_feed(bytes: Seq<u8>)
    ensures
        match first_feed(bytes) {
            Some(at) => {
                &&& 0 <= at < bytes.len()
                &&& bytes[at] == 0x0a
                &&& forall|i: int| 0 <= i < at ==> #[trigger] bytes[i] != 0x0a
            },
            None => forall|i: int| 0 <= i < bytes.len() ==> #[trigger] bytes[i] != 0x0a,
        },
    decreases bytes.len(),
{
    if bytes.len() > 0 && bytes.first() != 0x0a {
        let tail = bytes.drop_first();
        lemma_first_feed(tail);
        match first_feed(tail) {
            Some(at) => {
                assert forall|i: int| 0 <= i < at + 1 implies #[trigger] bytes[i] != 0x0a by {
                    if i > 0 {
                        assert(bytes[i] == tail[i - 1]);
                    }
                }
            },
            None => {
                assert forall|i: int| 0 <= i < bytes.len() implies #[trigger] bytes[i] != 0x0a by {
                    if i > 0 {
                        assert(bytes[i] == tail[i - 1]);
                    }
                }
            },
        }
    }
}

proof fn lemma_first_feed_is(bytes: Seq<u8>, at: int)
    requires
        0 <= at < bytes.len(),
        bytes[at] == 0x0a,
        forall|i: int| 0 <= i < at ==> #[trigger] bytes[i] != 0x0a,
    ensures
        first_feed(bytes) == Some(at),
{
    lemma_first_feed(bytes);
}

/// Cutting the stream elsewhere changes nothing: what the lines of `a` and then those of
/// what is left of it with `b` show is what the lines of `a` and `b` together show, and the
/// same is left unfinished.
pub proof fn lines_do_not_depend_on_cuts(a: Seq<u8>, b: Seq<u8>)
    ensures
        shown_lines(a + b) == shown_lines(a) + shown_lines(unfinished(a) + b),
        unfinished(a + b) == unfinished(unfinished(a) + b),
    decreases a.len(),
{
    lemma_first_feed(a);
    match first_feed(a) {
        Some(at) => {
            let whole = a + b;
            assert forall|i: int| 0 <= i < at implies #[trigger] whole[i] != 0x0a by {
                assert(whole[i] == a[i]);
            }
            lemma_first_feed_is(whole, at);
            assert(whole.take(at + 1) =~= a.take(at + 1));
            assert(whole.skip(at + 1) =~= a.skip(at + 1) + b);
            lines_do_not_depend_on_cuts(a.skip(at + 1), b);
            assert(shown_lines(whole) =~= shown_lines(a) + shown_lines(unfinished(a) + b));
        },
        None => {
            assert(shown_lines(a + b) =~= shown_lines(a) + shown_lines(unfinished(a) + b));
        },
    }
}

/// The parts of a body, one after the other.
pub open spec fn joined(parts: Seq<Seq<u8>>) -> Seq<u8>
    decreases parts.len(),
{
    if parts.len() == 0 {
        Seq::empty()
    } else {
        parts.first() + joined(parts.drop_first())
    }
}

/// The lines that a relay shows of the parts of a body as they come, when `partial` has come
/// of a line that has not ended.
pub open spec fn relayed(partial: Seq<u8>, parts: Seq<Seq<u8>>) -> Seq<Seq<u8>>
    decreases parts.len(),
{
    if parts.len() == 0 {
        Seq::empty()
    } else {
        let held = partial + parts.first();
        shown_lines(held) + relayed(unfinished(held), parts.drop_first())
    }
}

/// What is left of a line that has not ended when the parts of a body have come, after
/// `partial` had come of it before.
pub open spec fn left_over(partial: Seq<u8>, parts: Seq<Seq<u8>>) -> Seq<u8>
    decreases parts.len(),
{
    if parts.len() == 0 {
        partial
    } else {
        left_over(unfinished(partial + parts.first()), parts.drop_first())
    }
}

/// The line that a relay shows at the end of a body, when `partial` has come of it and it holds
/// something.
pub open spec fn closing_line(partial: Seq<u8>) -> Seq<Seq<u8>> {
    let line = without_newline(partial);
    if line.len() == 0 {
        Seq::empty()
    } else {
        seq![line]
    }
}

/// The lines of a whole body that hold something, the last one too where it does not end.
pub open spec fn all_lines(body: Seq<u8>) -> Seq<Seq<u8>> {
    shown_lines(body) + closing_line(unfinished(body))
}

/// In whatever parts a body comes, the lines that are shown of it are those of the whole
/// body, and the same is left unfinished. With the line that is shown at the end they are all
/// lines of the body that hold something.
pub proof fn relaying_shows_the_lines_of_the_whole(partial: Seq<u8>, parts: Seq<Seq<u8>>)
    requires
        first_feed(partial) is None,
    ensures
        relayed(partial, parts) == shown_lines(partial + joined(parts)),
        left_over(partial, parts) == unfinished(partial + joined(parts)),
        relayed(partial, parts) + closing_line(left_over(partial, parts)) == all_lines(
            partial + joined(parts),
        ),
    decreases parts.len(),
{
    if parts.len() == 0 {
        assert(partial + joined(parts) =~= partial);
        assert(relayed(partial, parts) =~= shown_lines(partial));
    } else {
        let held = partial + parts.first();
        let rest = parts.drop_first();
        assert(partial + joined(parts) =~= held + joined(rest));
        lines_do_not_depend_on_cuts(held, joined(rest));
        lemma_unfinished_has_no_feed(held);
        relaying_shows_the_lines_of_the_whole(unfinished(held), rest);
    }
}

proof fn lemma_unfinished_has_no_feed(bytes: Seq<u8>)
    ensures
        first_feed(unfinished(bytes)) is None,
    decreases bytes.len(),
{
    lemma_first_feed(bytes);
    if let Some(at) = first_feed(bytes) {
        lemma_unfinished_has_no_feed(bytes.skip(at + 1));
    }
}

/// The lines of events, one after the other.
pub open spec fn lines_of(events: Seq<Json>) -> Seq<u8>
    decreases events.len(),
{
    if events.len() == 0 {
        Seq::empty()
    } else {
        line_of(events.first()) + lines_of(events.drop_first())
    }
}

/// Each event of a stream becomes one message, which holds the JSON form of the event, and
/// nothing else is shown.
pub proof fn each_event_is_one_line(events: Seq<Json>)
    requires
        forall|i: int| 0 <= i < events.len() ==> is_line_content(json_bytes(#[trigger] events[i])),
    ensures
        shown_lines(lines_of(events)) == Seq::new(events.len(), |i: int| json_bytes(events[i])),
        unfinished(lines_of(events)) == Seq::<u8>::empty(),
    decreases events.len(),
{
    let expected = Seq::new(events.len(), |i: int| json_bytes(events[i]));
    if events.len() == 0 {
        assert(shown_lines(lines_of(events)) =~= expected);
    } else {
        let content = json_bytes(events.first());
        let line = line_of(events.first());
        let rest = events.drop_first();
        assert(is_line_content(json_bytes(events[0])));
        assert forall|i: int| 0 <= i < rest.len() implies is_line_content(
            json_bytes(#[trigger] rest[i]),
        ) by {
            assert(rest[i] == events[i + 1]);
        }
        each_event_is_one_line(rest);
        let whole = lines_of(events);
        assert forall|i: int| 0 <= i < content.len() implies #[trigger] whole[i] != 0x0a by {
            assert(whole[i] == content[i]);
        }
        lemma_first_feed_is(whole, content.len() as int);
        assert(whole.take(content.len() as int + 1) =~= line);
        assert(whole.skip(content.len() as int + 1) =~= lines_of(rest));
        assert(line.drop_last() =~= content);
        assert(content.last() >= 0x20);
        assert(without_newline(line) == content);
        assert(shown_lines(whole) =~= expected);
    }
}

// ---------------------------------------------------------------------------------------
// Messages
// ---------------------------------------------------------------------------------------

/// A message for the client.
#[derive(Debug, PartialEq, Eq)]
pub enum RelayMessage {
    Text(String),
    Binary(Vec<u8>),
}

/// Whether the messages are the given lines, as text.
pub open spec fn are_lines(messages: Seq<RelayMessage>, lines: Seq<Seq<u8>>) -> bool {
    &&& messages.len() == lines.len()
    &&& forall|i: int|
        0 <= i < lines.len() ==> {
            &&& #[trigger] messages[i] is Text
            &&& messages[i]->Text_0@ == lossy_text(lines[i])
            &&& valid_utf8(lines[i]) ==> messages[i]->Text_0@ == decode_utf8(lines[i])
        }
}

/// Whether a message carries a part of a body that is not relayed by lines: as text where
/// it is UTF-8, and as it is where it is not.
pub open spec fn carries(message: RelayMessage, bytes: Seq<u8>) -> bool {
    if valid_utf8(bytes) {
        message is Text && message->Text_0@ == decode_utf8(bytes)
    } else {
        message is Binary && message->Binary_0@ == bytes
    }
}

/// The message that carries a part of a body.
pub fn body_message(bytes: Vec<u8>) -> (message: RelayMessage)
    ensures
        carries(message, bytes@),
{
    match core::str::from_utf8(bytes.as_slice()) {
        Ok(text) => {
            proof {
                encode_utf8_decode_utf8(text@);
            }
            RelayMessage::Text(text.to_owned())
        },
        Err(_) => RelayMessage::Binary(bytes),
    }
}

/// A slot of a cached response.
#[derive(Debug)]
pub enum TailSlot {
    /// A part of the body.
    Body(Vec<u8>),
    /// The response is over.
    End,
    /// Nothing that concerns the relay.
    Other,
}

/// A response on its way to a websocket.
#[derive(Debug)]
pub struct WebsocketRelay {
    last_slot: usize,
    headers_seen: bool,
    by_lines: bool,
    held: Vec<u8>,
}

impl WebsocketRelay {
    /// The last slot that was taken from the cache.
    pub closed spec fn last(self) -> nat {
        self.last_slot as nat
    }

    /// Whether the headers of the response have come.
    pub closed spec fn started(self) -> bool {
        self.headers_seen
    }

    /// Whether the response is relayed line by line.
    pub closed spec fn lines(self) -> bool {
        self.by_lines
    }

    /// What has come of a line that has not ended.
    pub closed spec fn partial(self) -> Seq<u8> {
        self.held@
    }

    /// A relay of a response that has not begun.
    pub fn new() -> (relay: Self)
        ensures
            relay.last() == 0,
            !relay.started(),
            !relay.lines(),
            relay.partial() == Seq::<u8>::empty(),
    {
        let held: Vec<u8> = Vec::new();
        WebsocketRelay { last_slot: 0, headers_seen: false, by_lines: false, held }
    }

    /// Whether the headers of the response have come.
    pub fn has_started(&self) -> (started: bool)
        ensures
            started == self.started(),
    {
        self.headers_seen
    }

    /// The headers of the response have come: the first slot is theirs, and the content
    /// type says whether the response is relayed line by line.
    pub fn on_headers(self, content_type: Option<&str>) -> (relay: Self)
        ensures
            relay.started(),
            relay.last() == 1,
            relay.partial() == self.partial(),
            relay.lines() == (content_type matches Some(value) && contains_text(
                value@,
                "ndjson"@,
            )),
    {
        let by_lines = match content_type {
            Some(value) => contains(value, "ndjson"),
            None => false,
        };
        WebsocketRelay { last_slot: 1, headers_seen: true, by_lines, held: self.held }
    }

    /// The slots that have come since the last time, from the first to the last one, when
    /// `current` is the last slot of the response. Before the headers there are none.
    pub fn on_poll(self, current: usize) -> (next: (Self, Option<(usize, usize)>))
        ensures
            next.0.started() == self.started(),
            next.0.lines() == self.lines(),
            next.0.partial() == self.partial(),
            if self.started() && current > self.last() {
                &&& next.1 matches Some(range)
                &&& range.0 == self.last() + 1
                &&& range.1 == current
                &&& next.0.last() == current
            } else {
                next.1 is None && next.0.last() == self.last()
            },
    {
        if self.headers_seen && current > self.last_slot {
            let first: usize = self.last_slot + 1;
            let relay = WebsocketRelay {
                last_slot: current,
                headers_seen: self.headers_seen,
                by_lines: self.by_lines,
                held: self.held,
            };
            (relay, Some((first, current)))
        } else {
            (self, None)
        }
    }

    /// What a slot leads to: the messages for the client, and whether the response is over.
    pub fn on_slot(self, slot: TailSlot) -> (next: (Self, Vec<RelayMessage>, bool))
        ensures
            next.0.started() == self.started(),
            next.0.lines() == self.lines(),
            next.0.last() == self.last(),
            next.2 == (slot is End),
            match slot {
                TailSlot::Body(bytes) => if self.lines() {
                    &&& are_lines(next.1@, shown_lines(self.partial() + bytes@))
                    &&& next.0.partial() == unfinished(self.partial() + bytes@)
                } else {
                    &&& next.1@.len() == 1
                    &&& carries(next.1@[0], bytes@)
                    &&& next.0.partial() == self.partial()
                },
                TailSlot::End => {
                    &&& next.0.partial() == self.partial()
                    &&& are_lines(
                        next.1@,
                        if self.lines() {
                            closing_line(self.partial())
                        } else {
                            Seq::empty()
                        },
                    )
                },
                TailSlot::Other => next.1@.len() == 0 && next.0.partial() == self.partial(),
            },
    {
        let mut messages: Vec<RelayMessage> = Vec::new();
        match slot {
            TailSlot::Body(bytes) => {
                if !self.by_lines {
                    messages.push(body_message(bytes));
                    return (self, messages, false);
                }
                let mut held: Vec<u8> = self.held;
                held.extend_from_slice(bytes.as_slice());
                let ghost all = held@;
                assert(all =~= self.partial() + bytes@);
                let ghost mut shown: Seq<Seq<u8>> = Seq::empty();
                let mut at: usize = 0;
                while at < held.len()
                    invariant
                        at <= held@.len(),
                        forall|i: int| 0 <= i < at ==> #[trigger] held@[i] != 0x0a,
                        are_lines(messages@, shown),
                        shown_lines(all) == shown + shown_lines(held@),
                        unfinished(all) == unfinished(held@),
                    decreases held@.len() - at,
                {
                    if held[at] == 10 {
                        proof {
                            lemma_first_feed_is(held@, at as int);
                        }
                        let rest = held.split_off(at + 1);
                        let line = trim_newline(held.as_slice());
                        if line.len() > 0 {
                            let text = text_lossy(line);
                            proof {
                                shown = shown.push(line@);
                            }
                            messages.push(RelayMessage::Text(text));
                        }
                        assert(shown_lines(all) =~= shown + shown_lines(rest@));
                        held = rest;
                        at = 0;
                    } else {
                        at = at + 1;
                    }
                }
                proof {
                    lemma_first_feed(held@);
                    assert(shown_lines(all) =~= shown);
                }
                let relay = WebsocketRelay {
                    last_slot: self.last_slot,
                    headers_seen: self.headers_seen,
                    by_lines: self.by_lines,
                    held,
                };
                (relay, messages, false)
            },
            TailSlot::End => {
                if self.by_lines {
                    let line = trim_newline(self.held.as_slice());
                    if line.len() > 0 {
                        messages.push(RelayMessage::Text(text_lossy(line)));
                    }
                }
                (self, messages, true)
            },
            TailSlot::Other => (self, messages, false),
        }
    }
}

/// A line is shown without the end of line, be it a line feed alone or one with a carriage
/// return before it, and what is left of it stays as it is.
pub proof fn ends_of_lines_are_not_shown(content: Seq<u8>)
    requires
        content.len() > 0 ==> content.last() != 0x0d && content.last() != 0x0a,
    ensures
        without_newline(content) == content,
        without_newline(content.push(0x0a)) == content,
        without_newline(content.push(0x0d)) == content,
        without_newline(content.push(0x0d).push(0x0a)) == content,
{
    assert(content.push(0x0a).drop_last() =~= content);
    assert(content.push(0x0d).drop_last() =~= content);
    assert(content.push(0x0d).push(0x0a).drop_last() =~= content.push(0x0d));
}

/// A line that has ended is shown before all that follows it, unless it is empty, and what
/// follows it is shown as if it stood alone.
pub proof fn lines_are_shown_in_order(content: Seq<u8>, rest: Seq<u8>)
    requires
        forall|i: int| 0 <= i < content.len() ==> #[trigger] content[i] != 0x0a,
    ensures
        ({
            let line = without_newline(content);
            let shown = if line.len() == 0 {
                Seq::empty()
            } else {
                seq![line]
            };
            &&& shown_lines(content.push(0x0a) + rest) == shown + shown_lines(rest)
            &&& unfinished(content.push(0x0a) + rest) == unfinished(rest)
            &&& shown_lines(content) == Seq::<Seq<u8>>::empty()
            &&& unfinished(content) == content
        }),
{
    let whole = content.push(0x0a) + rest;
    let at = content.len() as int;
    assert forall|i: int| 0 <= i < at implies #[trigger] whole[i] != 0x0a by {
        assert(whole[i] == content[i]);
    }
    lemma_first_feed_is(whole, at);
    lemma_first_feed(content);
    assert(whole.take(at + 1) =~= content.push(0x0a));
    assert(whole.skip(at + 1) =~= rest);
    assert(content.push(0x0a).drop_last() =~= content);
    assert(content.len() > 0 ==> content[content.len() - 1] != 0x0a);
    assert(shown_lines(whole) =~= (if without_newline(content).len() == 0 {
        Seq::empty()
    } else {
        seq![without_newline(content)]
    }) + shown_lines(rest));
}

/// What is shown of a line that the end of the body cuts off is what would be shown of it had it
/// ended: all of it, or nothing where it holds nothing.
pub proof fn bodies_end_their_last_line(partial: Seq<u8>)
    requires
        forall|i: int| 0 <= i < partial.len() ==> #[trigger] partial[i] != 0x0a,
    ensures
        closing_line(partial) == shown_lines(partial.push(0x0a)),
        partial.len() > 0 && partial.last() != 0x0d ==> closing_line(partial) == seq![partial],
        partial.len() == 0 ==> closing_line(partial).len() == 0,
{
    lines_are_shown_in_order(partial, Seq::empty());
    assert(partial.push(0x0a) + Seq::<u8>::empty() =~= partial.push(0x0a));
    assert(shown_lines(Seq::<u8>::empty()) =~= Seq::empty());
    assert(closing_line(partial) =~= shown_lines(partial.push(0x0a)));
}

/// A message holds the bytes that it carries, no more and no less: as text where they are text,
/// and as they are where they are not. A line that is text is a message with that text.
pub proof fn messages_hold_what_they_carry(
    message: RelayMessage,
    bytes: Seq<u8>,
    messages: Seq<RelayMessage>,
    lines: Seq<Seq<u8>>,
    index: int,
)
    ensures
        carries(message, bytes) ==> match message {
            RelayMessage::Text(text) => encode_utf8(text@) == bytes,
            RelayMessage::Binary(held) => held@ == bytes && !valid_utf8(bytes),
        },
        are_lines(messages, lines) && 0 <= index < lines.len() && valid_utf8(lines[index])
            ==> messages.len() == lines.len() && messages[index] is Text && encode_utf8(
            messages[index]->Text_0@,
        ) == lines[index],
{
    if valid_utf8(bytes) {
        decode_utf8_encode_utf8(bytes);
    }
    if 0 <= index < lines.len() && valid_utf8(lines[index]) {
        decode_utf8_encode_utf8(lines[index]);
        if are_lines(messages, lines) {
            assert(messages[index] is Text);
        }
    }
}

} // verus!
