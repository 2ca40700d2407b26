//! The producer's decisions on upstream events, and the bounded, ordered
//! hand-off between the producer and the client-facing consumer.
use vstd::prelude::*;
use crate::persona::{augment, augmented, PersonaProfile, Rolls};
use crate::sanitize::{clean_content, cleaned};

verus! {

/// One decoded upstream envelope. Its content is absent where the envelope
/// carries no message.
pub struct GenerationEnvelope {
    pub model: String,
    pub created_at: String,
    pub content: Option<String>,
    pub done: bool,
}

/// What the upstream connection yields to the producer's read loop.
pub enum UpstreamEvent {
    /// One raw chunk, decoded as a whole; `None` where it was not a valid
    /// envelope.
    Chunk(Option<GenerationEnvelope>),
    /// A transport error after the connection was made.
    Failed(String),
    /// The upstream body ended.
    Closed,
}

/// The unit that crosses the relay pipe.
#[derive(Debug, Clone, PartialEq, Eq)]
pub enum RelayMessage {
    Data(String),
    Error(String),
    End,
}

/// A relay message with its text as characters.
pub enum RelayView {
    Data(Seq<char>),
    Error(Seq<char>),
    End,
}

impl View for RelayMessage {
    type V = RelayView;

    open spec fn view(&self) -> RelayView {
        match self {
            RelayMessage::Data(s) => RelayView::Data(s@),
            RelayMessage::Error(s) => RelayView::Error(s@),
            RelayMessage::End => RelayView::End,
        }
    }
}

/// The views of a sequence of messages.
pub open spec fn views(ms: Seq<RelayMessage>) -> Seq<RelayView> {
    ms.map_values(|m: RelayMessage| m@)
}

/// The text that a fragment's content becomes: cleaned, then flavoured where
/// a persona is given.
pub open spec fn flavoured(content: Seq<char>, persona: Option<PersonaProfile>, d: Rolls) -> Seq<
    char,
> {
    match persona {
        Some(p) => augmented(cleaned(content), p, d),
        None => cleaned(content),
    }
}

/// The data message for an envelope: its flavoured content and one trailing
/// space, where the content is present and does not clean to nothing.
pub open spec fn data_part(env: GenerationEnvelope, persona: Option<PersonaProfile>, d: Rolls) -> Seq<
    RelayView,
> {
    match env.content {
        Some(c) => if cleaned(c@).len() == 0 {
            seq![]
        } else {
            seq![RelayView::Data(flavoured(c@, persona, d) + seq![' '])]
        },
        None => seq![],
    }
}

/// What the producer emits on `ev`: nothing once it has finished; else the
/// data of a decoded envelope, then `End` where the envelope completes the
/// reply; a single `Error` on a transport error; `End` where the body ends.
pub open spec fn emitted(
    finished: bool,
    ev: UpstreamEvent,
    persona: Option<PersonaProfile>,
    d: Rolls,
) -> Seq<RelayView> {
    if finished {
        seq![]
    } else {
        match ev {
            UpstreamEvent::Chunk(None) => seq![],
            UpstreamEvent::Chunk(Some(env)) => data_part(env, persona, d) + if env.done {
                seq![RelayView::End]
            } else {
                seq![]
            },
            UpstreamEvent::Failed(cause) => seq![RelayView::Error(cause@)],
            UpstreamEvent::Closed => seq![RelayView::End],
        }
    }
}

/// Whether the producer has finished after `ev`.
pub open spec fn finishes(finished: bool, ev: UpstreamEvent) -> bool {
    finished || match ev {
        UpstreamEvent::Chunk(Some(env)) => env.done,
        UpstreamEvent::Chunk(None) => false,
        _ => true,
    }
}

/// The producer side of one relayed reply.
pub struct Producer {
    pub finished: bool,
}

impl Producer {
    pub fn new() -> (r: Producer)
        ensures
            !r.finished,
    {
        Producer { finished: false }
    }

    /// Decides what to hand to the pipe for one upstream event. Malformed
    /// chunks are dropped; fragments that clean to nothing are skipped.
    pub fn on_event(&mut self, ev: UpstreamEvent, persona: &Option<PersonaProfile>, d: &Rolls) -> (r:
        Vec<RelayMessage>)
        ensures
            views(r@) == emitted(old(self).finished, ev, *persona, *d),
            final(self).finished == finishes(old(self).finished, ev),
    {
        let ghost ev0 = ev;
        let mut out: Vec<RelayMessage> = Vec::new();
        if self.finished {
            assert(views(out@) =~= emitted(old(self).finished, ev0, *persona, *d));
            return out;
        }
        match ev {
            UpstreamEvent::Chunk(None) => {},
            UpstreamEvent::Chunk(Some(env)) => {
                let done = env.done;
                match env.content {
                    Some(c) => {
                        let text = clean_content(c.as_str());
                        if !text.as_str().is_empty() {
                            let mut t = match persona {
                                Some(p) => augment(text.as_str(), p, d),
                                None => text,
                            };
                            let space = " ";
                            proof {
                                reveal_strlit(" ");
                                assert(space@ =~= seq![' ']);
                            }
                            t.append(space);
                            out.push(RelayMessage::Data(t));
                        }
                    },
                    None => {},
                }
                if done {
                    out.push(RelayMessage::End);
                    self.finished = true;
                }
            },
            UpstreamEvent::Failed(cause) => {
                out.push(RelayMessage::Error(cause));
                self.finished = true;
            },
            UpstreamEvent::Closed => {
                out.push(RelayMessage::End);
                self.finished = true;
            },
        }
        assert(views(out@) =~= emitted(old(self).finished, ev0, *persona, *d));
        out
    }
}

/// Number of messages that may wait in a relay pipe.
pub const RELAY_CAPACITY: usize = 20;

/// What became of a message handed to the pipe.
pub enum SendOutcome {
    Sent,
    /// The pipe holds as many messages as it may; the message is handed back
    /// so that the producer can wait and offer it again.
    Full(RelayMessage),
    /// The consumer is gone, or the producer already closed the pipe; the
    /// producer should stop reading upstream.
    Disconnected(RelayMessage),
}

/// What the consumer found in the pipe.
pub enum RecvOutcome {
    Message(RelayMessage),
    /// Nothing waits, but the producer may still send.
    Empty,
    /// The producer closed the pipe and every message was taken.
    Exhausted,
}

/// A bounded, order-preserving, single-producer single-consumer hand-off.
pub struct RelayPipe {
    queue: Vec<RelayMessage>,
    capacity: usize,
    closed: bool,
    consumer_gone: bool,
}

impl RelayPipe {
    /// The waiting messages, oldest first.
    pub closed spec fn queued(&self) -> Seq<RelayView> {
        views(self.queue@)
    }

    pub closed spec fn cap(&self) -> nat {
        self.capacity as nat
    }

    pub closed spec fn is_closed(&self) -> bool {
        self.closed
    }

    pub closed spec fn is_abandoned(&self) -> bool {
        self.consumer_gone
    }

    pub closed spec fn wf(&self) -> bool {
        0 < self.capacity && self.queue@.len() <= self.capacity
    }

    /// A well-formed pipe never holds more messages than its capacity.
    pub proof fn lemma_bounded(&self)
        requires
            self.wf(),
        ensures
            self.queued().len() <= self.cap(),
    {
    }

    /// An open, empty pipe that holds at most `capacity` messages.
    pub fn new(capacity: usize) -> (r: RelayPipe)
        requires
            capacity > 0,
        ensures
            r.wf(),
            r.queued().len() <= r.cap(),
            r.queued() == Seq::<RelayView>::empty(),
            r.cap() == capacity,
            !r.is_closed(),
            !r.is_abandoned(),
    {
        let r = RelayPipe { queue: Vec::new(), capacity, closed: false, consumer_gone: false };
        assert(r.queued() =~= Seq::<RelayView>::empty());
        r
    }

    /// Number of waiting messages.
    pub fn len(&self) -> (r: usize)
        ensures
            r == self.queued().len(),
    {
        self.queue.len()
    }

    /// Offers a message. A full pipe refuses it and stays as it was: nothing
    /// is dropped and the queue never grows past its capacity.
    pub fn try_send(&mut self, m: RelayMessage) -> (r: SendOutcome)
        requires
            old(self).wf(),
        ensures
            final(self).wf(),
            final(self).queued().len() <= final(self).cap(),
            final(self).cap() == old(self).cap(),
            final(self).is_closed() == old(self).is_closed(),
            final(self).is_abandoned() == old(self).is_abandoned(),
            old(self).is_abandoned() || old(self).is_closed() ==> (r matches SendOutcome::Disconnected(
                back,
            ) && back@ == m@) && final(self).queued() == old(self).queued(),
            !old(self).is_abandoned() && !old(self).is_closed() && old(self).queued().len()
                >= old(self).cap() ==> (r matches SendOutcome::Full(back) && back@ == m@)
                && final(self).queued() == old(self).queued(),
            !old(self).is_abandoned() && !old(self).is_closed() && old(self).queued().len()
                < old(self).cap() ==> r is Sent && final(self).queued() == old(self).queued().push(
                m@,
            ),
    {
        if self.consumer_gone || self.closed {
            return SendOutcome::Disconnected(m);
        }
        if self.queue.len() >= self.capacity {
            return SendOutcome::Full(m);
        }
        let ghost v = m@;
        self.queue.push(m);
        assert(views(self.queue@) =~= views(old(self).queue@).push(v));
        SendOutcome::Sent
    }

    /// Takes the oldest waiting message.
    pub fn recv(&mut self) -> (r: RecvOutcome)
        requires
            old(self).wf(),
        ensures
            final(self).wf(),
            final(self).queued().len() <= final(self).cap(),
            final(self).cap() == old(self).cap(),
            final(self).is_closed() == old(self).is_closed(),
            final(self).is_abandoned() == old(self).is_abandoned(),
            old(self).queued().len() > 0 ==> (r matches RecvOutcome::Message(m) && m@ == old(
                self,
            ).queued()[0]) && final(self).queued() == old(self).queued().drop_first(),
            old(self).queued().len() == 0 ==> final(self).queued() == old(self).queued() && (if old(
                self,
            ).is_closed() {
                r is Exhausted
            } else {
                r is Empty
            }),
    {
        if self.queue.len() == 0 {
            if self.closed {
                return RecvOutcome::Exhausted;
            }
            return RecvOutcome::Empty;
        }
        let m = self.queue.remove(0);
        assert(views(self.queue@) =~= views(old(self).queue@).drop_first());
        RecvOutcome::Message(m)
    }

    /// The producer's close, after its last message.
    pub fn close(&mut self)
        requires
            old(self).wf(),
        ensures
            final(self).wf(),
            final(self).queued().len() <= final(self).cap(),
            final(self).queued() == old(self).queued(),
            final(self).cap() == old(self).cap(),
            final(self).is_closed(),
            final(self).is_abandoned() == old(self).is_abandoned(),
    {
        self.closed = true;
    }

    /// The consumer's departure: later sends fail at once, and what waits is
    /// released.
    pub fn abandon(&mut self)
        requires
            old(self).wf(),
        ensures
            final(self).wf(),
            final(self).queued().len() <= final(self).cap(),
            final(self).queued() == Seq::<RelayView>::empty(),
            final(self).cap() == old(self).cap(),
            final(self).is_closed() == old(self).is_closed(),
            final(self).is_abandoned(),
    {
        self.consumer_gone = true;
        self.queue.clear();
        assert(views(self.queue@) =~= Seq::<RelayView>::empty());
    }
}

} // verus!
