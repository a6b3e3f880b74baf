//! The reliability overlay above the datagram channel.
//!
//! The socket, the timers and the channels between tasks belong to the
//! program that runs the session. What each of its pumps decides stands
//! here: which datagrams are dropped, what a `Reliable` is answered with and
//! whether its content is handed on, which index the next reliable message
//! gets, and when a reliable send is over.

use crate::bitfield::{bit_at, lemma_set_bit, Bitfield};
use crate::error::Error;
use crate::format::{decoding, MessagesView};
use crate::message::{Messages, PingMessage, ReliableAckMessage, ReliableMessage};
use vstd::prelude::*;

verus! {

/// The size of the buffer that a datagram is received into.
pub const RECEIVE_BUFFER_SIZE: usize = 2048;

/// How many messages a channel between tasks holds for a slow reader.
pub const CHANNEL_CAPACITY: usize = 10;

/// The seconds between two transmissions of a reliable message.
pub const RETRANSMIT_INTERVAL_SECS: u64 = 3;

/// The seconds between two keepalive pings.
pub const KEEPALIVE_INTERVAL_SECS: u64 = 5;

/// What the inbound pump does with a datagram.
#[derive(Debug)]
pub enum InboundStep {
    /// Shorter than an identifier: passed over.
    Dropped,
    /// Handed to the subscribers.
    Published(Messages),
    /// Not a message: the pump ends.
    Failed(Error),
}

/// Whether `step` is what the inbound pump does with `datagram`.
pub open spec fn inbound_outcome(datagram: Seq<u8>, step: InboundStep) -> bool {
    if datagram.len() < 4 {
        step is Dropped
    } else {
        match decoding(datagram) {
            Ok(m) => step matches InboundStep::Published(message) && message@ == m,
            Err(kind) => step matches InboundStep::Failed(e) && e@ == kind.text(),
        }
    }
}

/// The inbound pump's step: a datagram shorter than four bytes is dropped,
/// any other is decoded, and published or failed on.
pub fn receive_datagram(datagram: &[u8]) -> (step: InboundStep)
    ensures
        inbound_outcome(datagram@, step),
{
    if datagram.len() < 4 {
        return InboundStep::Dropped;
    }
    match Messages::decode(datagram) {
        Ok(message) => InboundStep::Published(message),
        Err(e) => InboundStep::Failed(e),
    }
}

/// The message that the keepalive pump emits at each tick.
pub fn keepalive() -> (message: Messages)
    ensures
        message@ == MessagesView::Ping,
{
    Messages::Ping(PingMessage {  })
}

/// Whether `message` shows that the peer is there: any `Ping` does.
pub fn is_connection_signal(message: &Messages) -> (r: bool)
    ensures
        r == (message@ is Ping),
{
    match message {
        Messages::Ping(_) => true,
        _ => false,
    }
}

/// What the reliability pump does with one inbound message.
pub ghost struct ReliableOutcome {
    /// The indices seen, this message included.
    pub seen: Set<u32>,
    /// The index acknowledged, if the message was a `Reliable`.
    pub ack: Option<u32>,
    /// The wrapped message, where it is handed on to the subscribers.
    pub published: Option<MessagesView>,
}

/// The reliability pump's rule: every `Reliable` is acknowledged, and its
/// content is handed on only where its index was not seen before. Any other
/// message is passed over.
pub open spec fn reliable_step(seen: Set<u32>, m: MessagesView) -> ReliableOutcome {
    match m {
        MessagesView::Reliable { packet_index, message } => ReliableOutcome {
            seen: seen.insert(packet_index),
            ack: Some(packet_index),
            published: if seen.contains(packet_index) {
                None
            } else {
                Some(*message)
            },
        },
        _ => ReliableOutcome { seen, ack: None, published: None },
    }
}

/// What the reliability pump hands back for a `Reliable`.
#[derive(Debug)]
pub struct Delivery {
    /// The acknowledgement to send.
    pub ack: ReliableAckMessage,
    /// The wrapped message, where it is to be published.
    pub message: Option<Messages>,
}

impl Delivery {
    /// Whether this delivery is what `outcome` asks for.
    pub open spec fn matches_outcome(self, outcome: ReliableOutcome) -> bool {
        &&& outcome.ack == Some(self.ack.packet_index)
        &&& match self.message {
            Some(m) => outcome.published == Some(m@),
            None => outcome.published is None,
        }
    }
}

/// The receiving side of the overlay: which indices have been seen.
#[derive(Debug)]
pub struct ReliableReceiver {
    received_messages: Bitfield,
}

impl View for ReliableReceiver {
    type V = Set<u32>;

    /// The indices seen so far.
    closed spec fn view(&self) -> Set<u32> {
        Set::new(|i: u32| bit_at(self.received_messages@, i as int))
    }
}

impl ReliableReceiver {
    /// A receiver that has seen no index.
    pub fn new() -> (r: Self)
        ensures
            r@ == Set::<u32>::empty(),
    {
        Self { received_messages: Bitfield::new() }
    }

    /// The reliability pump's step for one inbound message.
    pub fn on_message(&mut self, message: Messages) -> (r: Option<Delivery>)
        ensures
            final(self)@ == reliable_step(old(self)@, message@).seen,
            match r {
                Some(delivery) => message@ is Reliable && delivery.matches_outcome(
                    reliable_step(old(self)@, message@),
                ),
                None => !(message@ is Reliable),
            },
    {
        match message {
            Messages::Reliable(msg) => {
                let index = msg.packet_index;
                let fresh = !self.received_messages.get(index as usize);
                let ghost before = self.received_messages@;
                self.received_messages.set(index as usize, true);
                proof {
                    assert forall|i: u32|
                        bit_at(self.received_messages@, i as int) == (i == index || bit_at(
                            before,
                            i as int,
                        )) by {
                        lemma_set_bit(before, index as nat, true, i as nat);
                    }
                }
                let inner = if fresh {
                    Some(*msg.message)
                } else {
                    None
                };
                Some(Delivery { ack: ReliableAckMessage { packet_index: index }, message: inner })
            },
            _ => None,
        }
    }
}

/// The sending side's counter of reliable messages.
#[derive(Debug)]
pub struct IndexCounter {
    next: u32,
}

impl View for IndexCounter {
    type V = u32;

    /// The index that the next reliable message gets.
    closed spec fn view(&self) -> u32 {
        self.next
    }
}

impl IndexCounter {
    /// A counter that starts at zero.
    pub fn new() -> (r: Self)
        ensures
            r@ == 0,
    {
        Self { next: 0 }
    }

    /// The index for the next reliable message. Indices go up by one, and
    /// start again at zero after the largest.
    pub fn fetch_add(&mut self) -> (index: u32)
        ensures
            index == old(self)@,
            final(self)@ == if old(self)@ == u32::MAX {
                0
            } else {
                (old(self)@ + 1) as u32
            },
    {
        let index = self.next;
        self.next = if index == u32::MAX {
            0
        } else {
            index + 1
        };
        index
    }
}

/// One reliable send in flight: a message under its index, transmitted at
/// every tick until the peer acknowledges that index.
#[derive(Debug)]
pub struct ReliableSend {
    index: u32,
    message: Messages,
}

impl ReliableSend {
    /// The index under which the message travels.
    pub closed spec fn index(&self) -> u32 {
        self.index
    }

    /// The message to deliver.
    pub closed spec fn message(&self) -> MessagesView {
        self.message@
    }

    /// The send of `message` under `index`.
    pub fn new(index: u32, message: Messages) -> (r: Self)
        ensures
            r.index() == index,
            r.message() == message@,
    {
        Self { index, message }
    }

    /// The datagram content to emit at a tick: the message, wrapped.
    pub fn on_tick(&self) -> (r: Messages)
        ensures
            r@ == (MessagesView::Reliable {
                packet_index: self.index(),
                message: Box::new(self.message()),
            }),
    {
        Messages::Reliable(
            ReliableMessage { packet_index: self.index, message: Box::new(self.message.clone()) },
        )
    }

    /// Whether `inbound` ends the send: the acknowledgement of its index
    /// does, and nothing else.
    pub fn on_inbound(&self, inbound: &Messages) -> (done: bool)
        ensures
            done == (inbound@ == MessagesView::ReliableAck { packet_index: self.index() }),
    {
        match inbound {
            Messages::ReliableAck(ack) => ack.packet_index == self.index,
            _ => false,
        }
    }
}

/// The indices seen after the inbound messages `inbound`, in order, went
/// through a receiver that had seen none.
pub open spec fn seen_after(inbound: Seq<MessagesView>) -> Set<u32>
    decreases inbound.len(),
{
    if inbound.len() == 0 {
        Set::empty()
    } else {
        reliable_step(seen_after(inbound.drop_last()), inbound.last()).seen
    }
}

/// How many of `inbound` are a `Reliable` with index `i`.
pub open spec fn arrivals(inbound: Seq<MessagesView>, i: u32) -> nat
    decreases inbound.len(),
{
    if inbound.len() == 0 {
        0
    } else {
        arrivals(inbound.drop_last(), i) + if inbound.last() matches MessagesView::Reliable {
            packet_index,
            ..
        } && packet_index == i {
            1nat
        } else {
            0nat
        }
    }
}

/// How many acknowledgements of index `i` the pump sends for `inbound`.
pub open spec fn acknowledgements(inbound: Seq<MessagesView>, i: u32) -> nat
    decreases inbound.len(),
{
    if inbound.len() == 0 {
        0
    } else {
        acknowledgements(inbound.drop_last(), i) + if reliable_step(
            seen_after(inbound.drop_last()),
            inbound.last(),
        ).ack == Some(i) {
            1nat
        } else {
            0nat
        }
    }
}

/// How many times the pump hands on the content of a `Reliable` with index
/// `i` for `inbound`.
pub open spec fn publications(inbound: Seq<MessagesView>, i: u32) -> nat
    decreases inbound.len(),
{
    if inbound.len() == 0 {
        0
    } else {
        let outcome = reliable_step(seen_after(inbound.drop_last()), inbound.last());
        publications(inbound.drop_last(), i) + if outcome.ack == Some(i) && outcome.published
            is Some {
            1nat
        } else {
            0nat
        }
    }
}

/// Exactly-once delivery: whatever arrives, in whatever order and however
/// often, the content under an index is handed on once if that index arrives
/// at all, and every arrival of it is acknowledged.
pub proof fn lemma_exactly_once(inbound: Seq<MessagesView>, i: u32)
    ensures
        seen_after(inbound).contains(i) <==> arrivals(inbound, i) >= 1,
        publications(inbound, i) == if arrivals(inbound, i) >= 1 {
            1nat
        } else {
            0nat
        },
        acknowledgements(inbound, i) == arrivals(inbound, i),
    decreases inbound.len(),
{
    if inbound.len() > 0 {
        lemma_exactly_once(inbound.drop_last(), i);
    }
}

} // verus!
