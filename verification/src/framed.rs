//! Matching answers to requests.
//!
//! Several requests may be under way at once. Every one of them is pending
//! under its number until its answer arrives or its caller gives up waiting.
//! An incoming message is routed by the number it answers; a message that
//! answers nothing pending is dropped.

use crate::codec::{encode_frame, frame};
use crate::message::{
    body_message, message_to_json, notification_text, notification_to_json, outgoing_text,
    parse_message_from_slice, request_text, request_to_json, Message, MessageView, Notification,
    ParseError, Request, SendMessage,
};
use vstd::prelude::*;
use vstd::utf8::encode_utf8;

verus! {

/// Why a call did not come back with an answer.
#[derive(Clone, Copy, Debug, PartialEq, Eq, Structural)]
pub enum BrokerError {
    /// No answer arrived in time.
    Timeout,
}

/// The seconds that a caller should wait for an answer.
pub const REQUEST_TIMEOUT_SECS: u64 = 10;

/// What became of an incoming message.
#[derive(Debug)]
pub enum Delivery {
    /// The message answers the pending request `id`, which is now complete.
    Completed { id: i32, message: Message },
    /// The message answers a request that is not pending (any more).
    Unroutable,
    /// The message is a notification.
    Notified { notification: Notification },
}

/// A delivery, as mathematics.
pub enum DeliveryView {
    Completed { id: i32, message: MessageView },
    Unroutable,
    Notified { notification: MessageView },
}

impl View for Delivery {
    type V = DeliveryView;

    open spec fn view(&self) -> DeliveryView {
        match self {
            Delivery::Completed { id, message } => DeliveryView::Completed {
                id: *id,
                message: message@,
            },
            Delivery::Unroutable => DeliveryView::Unroutable,
            Delivery::Notified { notification } => DeliveryView::Notified {
                notification: MessageView::Notification(notification@),
            },
        }
    }
}

/// Where an incoming message goes, and which requests are pending after it.
/// An answer to a pending request completes that request, which is pending no
/// longer; an answer to anything else is dropped; a notification is handed
/// on. Nothing else changes.
pub open spec fn routed(pending: Set<i32>, m: MessageView) -> (Set<i32>, DeliveryView) {
    match Message::answered(m) {
        Some(id) => if pending.contains(id) {
            (pending.remove(id), DeliveryView::Completed { id, message: m })
        } else {
            (pending, DeliveryView::Unroutable)
        },
        None => (pending, DeliveryView::Notified { notification: m }),
    }
}

/// A caller never gets the answer to another caller's request: what is
/// delivered for a number is a message that answers that very number, the
/// number was pending, and it is pending no longer.
pub proof fn lemma_delivery_matches(pending: Set<i32>, m: MessageView)
    ensures
        match routed(pending, m).1 {
            DeliveryView::Completed { id, message } => {
                &&& message == m
                &&& Message::answered(m) == Some(id)
                &&& pending.contains(id)
                &&& !routed(pending, m).0.contains(id)
            },
            DeliveryView::Unroutable => routed(pending, m).0 == pending && Message::answered(m)
                is Some && !pending.contains(Message::answered(m)->0),
            DeliveryView::Notified { notification } => routed(pending, m).0 == pending
                && notification == m && Message::answered(m) is None,
        },
{
}

/// An answer that comes after its caller gave up is dropped and changes
/// nothing, and so is a second answer to a request already complete.
pub proof fn lemma_late_answer_is_dropped(pending: Set<i32>, id: i32, m: MessageView)
    requires
        Message::answered(m) == Some(id),
    ensures
        routed(pending.remove(id), m) == (pending.remove(id), DeliveryView::Unroutable),
        routed(routed(pending, m).0, m) == (routed(pending, m).0, DeliveryView::Unroutable),
{
}

/// The numbers held by a list.
pub open spec fn number_set(ids: Seq<i32>) -> Set<i32> {
    Set::new(|id: i32| ids.contains(id))
}

/// The bytes that go out for a JSON text: its frame.
pub open spec fn framed_text(text: Seq<char>) -> Seq<u8> {
    frame(encode_utf8(text))
}

/// Frames a JSON text.
pub fn frame_text(text: &str) -> (out: Vec<u8>)
    ensures
        out@ == framed_text(text@),
{
    let body = text.as_bytes_vec();
    encode_frame(body.as_slice())
}

/// The requests that are pending, and the framing of what goes out.
#[derive(Debug)]
pub struct FramedBox {
    pending: Vec<i32>,
}

impl View for FramedBox {
    type V = Set<i32>;

    /// The numbers of the pending requests.
    closed spec fn view(&self) -> Set<i32> {
        number_set(self.pending@)
    }
}

impl FramedBox {
    /// No number is held twice.
    pub closed spec fn well_formed(&self) -> bool {
        self.pending@.no_duplicates()
    }

    /// Nothing is pending.
    pub fn new() -> (b: Self)
        ensures
            b.well_formed(),
            b@ == Set::<i32>::empty(),
    {
        let b = FramedBox { pending: Vec::new() };
        assert(b@ =~= Set::<i32>::empty());
        b
    }

    fn position(&self, id: i32) -> (r: Option<usize>)
        ensures
            match r {
                Some(i) => i < self.pending@.len() && self.pending@[i as int] == id,
                None => !self@.contains(id),
            },
    {
        let mut i: usize = 0;
        while i < self.pending.len()
            invariant
                i <= self.pending.len(),
                forall|k: int| 0 <= k < i ==> self.pending@[k] != id,
            decreases self.pending.len() - i,
        {
            if self.pending[i] == id {
                return Some(i);
            }
            i = i + 1;
        }
        None
    }

    /// Whether the request `id` is pending.
    pub fn is_pending(&self, id: i32) -> (b: bool)
        ensures
            b == self@.contains(id),
    {
        match self.position(id) {
            Some(i) => {
                assert(self.pending@.contains(id));
                true
            },
            None => false,
        }
    }

    /// Registers a request as pending and frames it. Returns its number and
    /// the bytes to write.
    pub fn send_request(&mut self, request: &Request) -> (r: (i32, Vec<u8>))
        requires
            old(self).well_formed(),
        ensures
            final(self).well_formed(),
            final(self)@ == old(self)@.insert(request.id),
            r.0 == request.id,
            r.1@ == framed_text(request_text(request@)),
    {
        let id = request.id;
        if !self.is_pending(id) {
            let ghost before = self.pending@;
            self.pending.push(id);
            proof {
                let after = self.pending@;
                assert(after =~= before.push(id));
                assert forall|x: i32| after.contains(x) <==> (before.contains(x) || x == id) by {
                    if before.contains(x) {
                        let k = choose|k: int| 0 <= k < before.len() && before[k] == x;
                        assert(after[k] == x);
                    }
                    if x == id {
                        assert(after[after.len() - 1] == x);
                    }
                    if after.contains(x) {
                        let k = choose|k: int| 0 <= k < after.len() && after[k] == x;
                        if k < before.len() {
                            assert(before[k] == x);
                        }
                    }
                }
                assert(number_set(after) =~= number_set(before).insert(id));
                assert forall|i: int, j: int|
                    0 <= i < after.len() && 0 <= j < after.len() && i != j implies after[i]
                    != after[j] by {
                    if i < before.len() && j < before.len() {
                        assert(before[i] != before[j]);
                    } else if i < before.len() {
                        assert(before.contains(before[i]));
                    } else {
                        assert(before.contains(before[j]));
                    }
                }
            }
        } else {
            assert(self@ =~= self@.insert(id));
        }
        let text = request_to_json(request);
        (id, frame_text(text.as_str()))
    }

    /// Frames a notification. Nothing becomes pending.
    pub fn send_notification(&self, notification: &Notification) -> (out: Vec<u8>)
        ensures
            out@ == framed_text(notification_text(notification@)),
    {
        let text = notification_to_json(notification);
        frame_text(text.as_str())
    }

    fn forget(&mut self, id: i32) -> (was_pending: bool)
        requires
            old(self).well_formed(),
        ensures
            final(self).well_formed(),
            final(self)@ == old(self)@.remove(id),
            was_pending == old(self)@.contains(id),
    {
        match self.position(id) {
            Some(i) => {
                let ghost before = self.pending@;
                assert(before.contains(id));
                self.pending.remove(i);
                proof {
                    let after = self.pending@;
                    assert(after =~= before.remove(i as int));
                    assert forall|x: i32| after.contains(x) <==> (before.contains(x) && x != id) by {
                        if after.contains(x) {
                            let k = choose|k: int| 0 <= k < after.len() && after[k] == x;
                            if k < i {
                                assert(before[k] == x);
                            } else {
                                assert(before[k + 1] == x);
                            }
                        }
                        if before.contains(x) && x != id {
                            let k = choose|k: int| 0 <= k < before.len() && before[k] == x;
                            if k < i {
                                assert(after[k] == x);
                            } else {
                                assert(after[k - 1] == x);
                            }
                        }
                    }
                    assert(number_set(after) =~= number_set(before).remove(id));
                    assert forall|a: int, b: int|
                        0 <= a < after.len() && 0 <= b < after.len() && a != b implies after[a]
                        != after[b] by {
                        let a0 = if a < i {
                            a
                        } else {
                            a + 1
                        };
                        let b0 = if b < i {
                            b
                        } else {
                            b + 1
                        };
                        assert(before[a0] != before[b0]);
                    }
                }
                true
            },
            None => {
                assert(self@ =~= self@.remove(id));
                false
            },
        }
    }

    /// Gives up waiting for the answer to the request `id`: the request is
    /// pending no longer, and its caller is told that it timed out.
    pub fn expire(&mut self, id: i32) -> (e: BrokerError)
        requires
            old(self).well_formed(),
        ensures
            final(self).well_formed(),
            final(self)@ == old(self)@.remove(id),
            e == BrokerError::Timeout,
    {
        self.forget(id);
        BrokerError::Timeout
    }

    /// Routes an incoming message.
    pub fn route(&mut self, message: Message) -> (d: Delivery)
        requires
            old(self).well_formed(),
        ensures
            final(self).well_formed(),
            final(self)@ == routed(old(self)@, message@).0,
            d@ == routed(old(self)@, message@).1,
    {
        match message {
            Message::Notification(notification) => Delivery::Notified { notification },
            Message::Response(response) => {
                let id = response.id;
                if self.forget(id) {
                    Delivery::Completed { id, message: Message::Response(response) }
                } else {
                    Delivery::Unroutable
                }
            },
            Message::Error(response) => {
                let id = response.id;
                if self.forget(id) {
                    Delivery::Completed { id, message: Message::Error(response) }
                } else {
                    Delivery::Unroutable
                }
            },
        }
    }

    /// Takes the body of an incoming frame: reads it as a message and routes
    /// it. A body that is no message changes nothing.
    pub fn receive(&mut self, body: &[u8]) -> (r: Result<Delivery, ParseError>)
        requires
            old(self).well_formed(),
        ensures
            final(self).well_formed(),
            match r {
                Ok(d) => body_message(body@) is Ok && final(self)@ == routed(
                    old(self)@,
                    body_message(body@)->Ok_0,
                ).0 && d@ == routed(old(self)@, body_message(body@)->Ok_0).1,
                Err(e) => body_message(body@) == Err::<MessageView, ParseError>(e) && final(self)@
                    == old(self)@,
            },
    {
        match parse_message_from_slice(body) {
            Ok(message) => Ok(self.route(message)),
            Err(e) => Err(e),
        }
    }

    /// The step of a caller that waits for the answer to the request `id` and
    /// reads every message itself: the message is the answer where it answers
    /// `id`; any other message is passed over, and the caller reads on.
    pub fn receive_response(id: i32, message: Message) -> (r: Option<Message>)
        ensures
            match r {
                Some(m) => m@ == message@ && Message::answered(message@) == Some(id),
                None => Message::answered(message@) != Some(id),
            },
    {
        match message.answered_id() {
            Some(answered) => {
                if answered == id {
                    Some(message)
                } else {
                    None
                }
            },
            None => None,
        }
    }
}

/// An adapter for callers that read every message themselves and wait for
/// one answer at a time.
#[derive(Debug)]
pub struct TransportAdapter {}

impl TransportAdapter {
    /// An adapter; it holds nothing.
    pub fn new() -> (a: Self) {
        TransportAdapter {  }
    }

    /// Frames an outgoing message.
    pub fn send_message(&self, message: &SendMessage) -> (out: Vec<u8>)
        ensures
            out@ == framed_text(outgoing_text(*message)),
    {
        let text = message_to_json(message);
        frame_text(text.as_str())
    }

    /// Frames a message that is JSON text already.
    pub fn send_message2(&self, message: &str) -> (out: Vec<u8>)
        ensures
            out@ == framed_text(message@),
    {
        frame_text(message)
    }

    /// Reads the body of an incoming frame as a message.
    pub fn receive_message(&self, body: &[u8]) -> (r: Result<Message, ParseError>)
        ensures
            match r {
                Ok(m) => body_message(body@) == Ok::<MessageView, ParseError>(m@),
                Err(e) => body_message(body@) == Err::<MessageView, ParseError>(e),
            },
    {
        parse_message_from_slice(body)
    }

    /// The step of a caller that waits for the answer to the request `id`:
    /// the message in the body is handed to the caller where it answers `id`,
    /// be it a response or an error response. A notification and an answer
    /// to another request are passed over, and the caller reads on; a body
    /// that is no message is reported.
    pub fn receive_response(&self, id: i32, body: &[u8]) -> (r: Result<Option<Message>, ParseError>)
        ensures
            match r {
                Ok(Some(m)) => body_message(body@) == Ok::<MessageView, ParseError>(m@)
                    && Message::answered(m@) == Some(id),
                Ok(None) => body_message(body@) is Ok && Message::answered(
                    body_message(body@)->Ok_0,
                ) != Some(id),
                Err(e) => body_message(body@) == Err::<MessageView, ParseError>(e),
            },
    {
        match parse_message_from_slice(body) {
            Ok(message) => Ok(FramedBox::receive_response(id, message)),
            Err(e) => Err(e),
        }
    }
}

} // verus!
