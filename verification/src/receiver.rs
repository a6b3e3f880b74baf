//! The receiving peer: parts are put together in memory from their chunks,
//! and committed once every chunk is there.
//!
//! The receiver is a state machine. The program that runs the session feeds
//! it each inbound message and carries out the action it hands back: create
//! the file, send a reply over the reliable overlay, append a part.

use crate::bitfield::{bit_at, set_bit, Bitfield};
use crate::format::MessagesView;
use crate::message::{
    FileTransferAcceptMessage, Messages, PartBeginMessage, TransferIncompleteMessage,
    TransferSuccessfulMessage,
};
use vstd::prelude::*;

verus! {

/// A part under assembly: what its `PartBegin` announced, the bytes so far,
/// and the bitfield of the chunks received.
pub ghost struct PartAssemblyView {
    pub chunk_size: u32,
    pub part_number: u32,
    pub chunk_count: u32,
    pub data: Seq<u8>,
    pub received: Seq<u8>,
}

/// `buffer` with `data` written over it from `offset` on.
pub open spec fn spliced(buffer: Seq<u8>, offset: int, data: Seq<u8>) -> Seq<u8> {
    Seq::new(
        buffer.len(),
        |k: int|
            if offset <= k < offset + data.len() {
                data[k - offset]
            } else {
                buffer[k]
            },
    )
}

impl PartAssemblyView {
    /// The assembly that a `PartBegin` opens: `part_size` zero bytes and no
    /// chunk received.
    pub open spec fn opened(
        part_size: u32,
        chunk_size: u32,
        part_number: u32,
        chunk_count: u32,
    ) -> PartAssemblyView {
        PartAssemblyView {
            chunk_size,
            part_number,
            chunk_count,
            data: Seq::new(part_size as nat, |k: int| 0u8),
            received: Seq::empty(),
        }
    }

    /// Whether a chunk is taken: it belongs to this part, its index is one
    /// of the part's, and its bytes fall within the buffer.
    pub open spec fn takes(self, index: u32, part_number: u32, data: Seq<u8>) -> bool {
        &&& part_number == self.part_number
        &&& index < self.chunk_count
        &&& index * self.chunk_size + data.len() <= self.data.len()
    }

    /// The assembly after a chunk that is taken: its bytes stand at offset
    /// `index * chunk_size`, and its bit is set.
    pub open spec fn with_chunk(self, index: u32, data: Seq<u8>) -> PartAssemblyView {
        PartAssemblyView {
            data: spliced(self.data, index * self.chunk_size, data),
            received: set_bit(self.received, index as int, true),
            ..self
        }
    }

    /// Whether every chunk of the part has been received.
    pub open spec fn complete(self) -> bool {
        forall|i: int| 0 <= i < self.chunk_count ==> bit_at(self.received, i)
    }
}

/// What the receiver does after a message that reached a part under assembly.
pub ghost enum PartStepView {
    /// Wait for more.
    Continue,
    /// Send `reply`, which reports the chunks received, and wait for more.
    Incomplete { reply: MessagesView },
    /// Commit the part and send `reply`, which reports success.
    Successful { reply: MessagesView },
}

/// The part loop's rule. A chunk that is taken is written and marked, any
/// other is passed over. At a `PartEnd` the part is successful if and only if
/// every chunk has been received; otherwise the bitfield goes back as it is.
/// Any other message is passed over.
pub open spec fn part_step(a: PartAssemblyView, m: MessagesView) -> (
    PartAssemblyView,
    PartStepView,
) {
    match m {
        MessagesView::Chunk { index, part_number, data } => if a.takes(index, part_number, data) {
            (a.with_chunk(index, data), PartStepView::Continue)
        } else {
            (a, PartStepView::Continue)
        },
        MessagesView::PartEnd => if a.complete() {
            (a, PartStepView::Successful { reply: MessagesView::TransferSuccessful })
        } else {
            (
                a,
                PartStepView::Incomplete {
                    reply: MessagesView::TransferIncomplete { bitfield: a.received },
                },
            )
        },
        _ => (a, PartStepView::Continue),
    }
}

/// What the receiver does after a message that reached a part under assembly.
#[derive(Debug)]
pub enum PartStep {
    /// Wait for more.
    Continue,
    /// Send this `TransferIncomplete` reliably, and wait for more.
    Incomplete(Messages),
    /// Append the part to the file and send this `TransferSuccessful` reliably.
    Successful(Messages),
}

impl View for PartStep {
    type V = PartStepView;

    open spec fn view(&self) -> PartStepView {
        match self {
            PartStep::Continue => PartStepView::Continue,
            PartStep::Incomplete(reply) => PartStepView::Incomplete { reply: reply@ },
            PartStep::Successful(reply) => PartStepView::Successful { reply: reply@ },
        }
    }
}

/// A part under assembly.
#[derive(Debug)]
pub struct PartAssembly {
    part_info: PartBeginMessage,
    part_data: Vec<u8>,
    received_files: Bitfield,
}

impl View for PartAssembly {
    type V = PartAssemblyView;

    closed spec fn view(&self) -> PartAssemblyView {
        PartAssemblyView {
            chunk_size: self.part_info.chunk_size,
            part_number: self.part_info.part_number,
            chunk_count: self.part_info.chunk_count,
            data: self.part_data@,
            received: self.received_files@,
        }
    }
}

impl PartAssembly {
    /// The assembly that `part_info` opens.
    pub fn new(part_info: PartBeginMessage) -> (r: Self)
        ensures
            r@ == PartAssemblyView::opened(
                part_info.part_size,
                part_info.chunk_size,
                part_info.part_number,
                part_info.chunk_count,
            ),
    {
        let part_data = vec![0u8; part_info.part_size as usize];
        let r = Self { part_info, part_data, received_files: Bitfield::new() };
        assert(r@.data =~= Seq::new(part_info.part_size as nat, |k: int| 0u8));
        r
    }

    /// The bytes of the part so far.
    pub fn data(&self) -> (r: &Vec<u8>)
        ensures
            r@ == self@.data,
    {
        &self.part_data
    }

    /// The bytes of the part, handed over.
    pub fn into_data(self) -> (r: Vec<u8>)
        ensures
            r@ == self@.data,
    {
        self.part_data
    }

    /// The bitfield of the chunks received so far.
    pub fn received(&self) -> (r: &Bitfield)
        ensures
            r@ == self@.received,
    {
        &self.received_files
    }

    /// Whether every chunk of the part has been received.
    pub fn is_complete(&self) -> (r: bool)
        ensures
            r == self@.complete(),
    {
        let mut i: u32 = 0;
        while i < self.part_info.chunk_count
            invariant
                i <= self.part_info.chunk_count,
                forall|j: int| 0 <= j < i ==> bit_at(self.received_files@, j),
            decreases self.part_info.chunk_count - i,
        {
            if !self.received_files.get(i as usize) {
                assert(!bit_at(self@.received, i as int));
                return false;
            }
            i += 1;
        }
        true
    }

    fn splice(&mut self, offset: usize, data: &Vec<u8>)
        requires
            offset + data.len() <= old(self).part_data.len(),
        ensures
            final(self)@ == (PartAssemblyView {
                data: spliced(old(self)@.data, offset as int, data@),
                ..old(self)@
            }),
    {
        let mut j: usize = 0;
        while j < data.len()
            invariant
                j <= data.len(),
                offset + data.len() <= self.part_data.len(),
                self.part_info == old(self).part_info,
                self.received_files == old(self).received_files,
                self.part_data@.len() == old(self).part_data@.len(),
                forall|k: int|
                    0 <= k < self.part_data@.len() ==> self.part_data@[k] == if offset <= k
                        < offset + j {
                        data@[k - offset]
                    } else {
                        old(self).part_data@[k]
                    },
            decreases data@.len() - j,
        {
            self.part_data.set(offset + j, data[j]);
            j += 1;
        }
        assert(self.part_data@ =~= spliced(old(self).part_data@, offset as int, data@));
    }

    /// The part loop's step for one inbound message.
    pub fn on_message(&mut self, message: Messages) -> (r: PartStep)
        ensures
            (final(self)@, r@) == part_step(old(self)@, message@),
    {
        match message {
            Messages::Chunk(msg) => {
                if msg.part_number != self.part_info.part_number {
                    return PartStep::Continue;
                }
                if msg.index >= self.part_info.chunk_count {
                    return PartStep::Continue;
                }
                assert(msg.index * self.part_info.chunk_size <= 0xffff_ffff * 0xffff_ffff)
                    by (nonlinear_arith)
                    requires
                        msg.index <= 0xffff_ffff,
                        self.part_info.chunk_size <= 0xffff_ffff,
                ;
                let offset = msg.index as u64 * self.part_info.chunk_size as u64;
                let room = self.part_data.len() as u64;
                if offset > room || msg.data.len() as u64 > room - offset {
                    return PartStep::Continue;
                }
                self.splice(offset as usize, &msg.data);
                self.received_files.set(msg.index as usize, true);
                PartStep::Continue
            },
            Messages::PartEnd(_) => {
                if self.is_complete() {
                    PartStep::Successful(Messages::TransferSuccessful(TransferSuccessfulMessage {  }))
                } else {
                    let msg = TransferIncompleteMessage { bitfield: self.received_files.clone() };
                    PartStep::Incomplete(Messages::TransferIncomplete(msg))
                }
            },
            _ => PartStep::Continue,
        }
    }
}

/// Where the receiving peer stands in the session.
pub ghost enum ReceiverView {
    /// No transfer has been asked for yet.
    AwaitingRequest,
    /// Between parts.
    Downloading,
    /// A part is under assembly.
    Assembling(PartAssemblyView),
    /// The sender has said goodbye.
    Finished,
}

/// What the receiving peer is to do after a message.
pub ghost enum ReceiverActionView {
    Nothing,
    Accept { filename: Seq<char>, filesize: u64, reply: MessagesView },
    Repair { reply: MessagesView },
    Commit { part: Seq<u8>, reply: MessagesView },
    Finish { motd: Seq<char> },
}

/// The receiver's rule.
///
/// Before a transfer only a `FileTransferRequest` counts: it is accepted.
/// Between parts a `PartBegin` opens an assembly and a `Goodbye` ends the
/// session. While a part is under assembly the part loop's rule holds, and a
/// successful `PartEnd` commits the part's bytes. A message that is out of
/// phase is passed over.
pub open spec fn receiver_step(s: ReceiverView, m: MessagesView) -> (
    ReceiverView,
    ReceiverActionView,
) {
    match s {
        ReceiverView::AwaitingRequest => match m {
            MessagesView::FileTransferRequest { filename, filesize } => (
                ReceiverView::Downloading,
                ReceiverActionView::Accept {
                    filename,
                    filesize,
                    reply: MessagesView::FileTransferAccept,
                },
            ),
            _ => (s, ReceiverActionView::Nothing),
        },
        ReceiverView::Downloading => match m {
            MessagesView::PartBegin { part_size, chunk_size, part_number, chunk_count } => (
                ReceiverView::Assembling(
                    PartAssemblyView::opened(part_size, chunk_size, part_number, chunk_count),
                ),
                ReceiverActionView::Nothing,
            ),
            MessagesView::Goodbye { motd } => (
                ReceiverView::Finished,
                ReceiverActionView::Finish { motd },
            ),
            _ => (s, ReceiverActionView::Nothing),
        },
        ReceiverView::Assembling(a) => match part_step(a, m).1 {
            PartStepView::Continue => (
                ReceiverView::Assembling(part_step(a, m).0),
                ReceiverActionView::Nothing,
            ),
            PartStepView::Incomplete { reply } => (
                ReceiverView::Assembling(part_step(a, m).0),
                ReceiverActionView::Repair { reply },
            ),
            PartStepView::Successful { reply } => (
                ReceiverView::Downloading,
                ReceiverActionView::Commit { part: part_step(a, m).0.data, reply },
            ),
        },
        ReceiverView::Finished => (s, ReceiverActionView::Nothing),
    }
}

/// What the receiving peer is to do after a message.
#[derive(Debug)]
pub enum ReceiverAction {
    /// Wait for the next message.
    Nothing,
    /// Create the file `filename` in the download directory, and send `reply`
    /// reliably.
    Accept { filename: String, filesize: u64, reply: Messages },
    /// Send `reply` reliably.
    Repair { reply: Messages },
    /// Append `part` to the file, and send `reply` reliably.
    Commit { part: Vec<u8>, reply: Messages },
    /// The transfer is over: show `motd`.
    Finish { motd: String },
}

impl View for ReceiverAction {
    type V = ReceiverActionView;

    open spec fn view(&self) -> ReceiverActionView {
        match self {
            ReceiverAction::Nothing => ReceiverActionView::Nothing,
            ReceiverAction::Accept { filename, filesize, reply } => ReceiverActionView::Accept {
                filename: filename@,
                filesize: *filesize,
                reply: reply@,
            },
            ReceiverAction::Repair { reply } => ReceiverActionView::Repair { reply: reply@ },
            ReceiverAction::Commit { part, reply } => ReceiverActionView::Commit {
                part: part@,
                reply: reply@,
            },
            ReceiverAction::Finish { motd } => ReceiverActionView::Finish { motd: motd@ },
        }
    }
}

/// The receiving peer.
#[derive(Debug)]
pub enum Receiver {
    /// No transfer has been asked for yet.
    AwaitingRequest,
    /// Between parts.
    Downloading,
    /// A part is under assembly.
    Assembling(PartAssembly),
    /// The sender has said goodbye.
    Finished,
}

impl View for Receiver {
    type V = ReceiverView;

    open spec fn view(&self) -> ReceiverView {
        match self {
            Receiver::AwaitingRequest => ReceiverView::AwaitingRequest,
            Receiver::Downloading => ReceiverView::Downloading,
            Receiver::Assembling(a) => ReceiverView::Assembling(a@),
            Receiver::Finished => ReceiverView::Finished,
        }
    }
}

impl Receiver {
    /// A receiver at the start of a session.
    pub fn new() -> (r: Self)
        ensures
            r@ == ReceiverView::AwaitingRequest,
    {
        Receiver::AwaitingRequest
    }

    /// The receiver's step for one inbound message: where it stands
    /// afterwards, and what is to be done.
    pub fn on_message(self, message: Messages) -> (r: (Receiver, ReceiverAction))
        ensures
            (r.0@, r.1@) == receiver_step(self@, message@),
    {
        match self {
            Receiver::AwaitingRequest => match message {
                Messages::FileTransferRequest(msg) => (
                    Receiver::Downloading,
                    ReceiverAction::Accept {
                        filename: msg.filename,
                        filesize: msg.filesize,
                        reply: Messages::FileTransferAccept(FileTransferAcceptMessage {  }),
                    },
                ),
                _ => (Receiver::AwaitingRequest, ReceiverAction::Nothing),
            },
            Receiver::Downloading => match message {
                Messages::PartBegin(msg) => (
                    Receiver::Assembling(PartAssembly::new(msg)),
                    ReceiverAction::Nothing,
                ),
                Messages::Goodbye(msg) => (
                    Receiver::Finished,
                    ReceiverAction::Finish { motd: msg.motd },
                ),
                _ => (Receiver::Downloading, ReceiverAction::Nothing),
            },
            Receiver::Assembling(assembly) => {
                let mut assembly = assembly;
                match assembly.on_message(message) {
                    PartStep::Continue => (Receiver::Assembling(assembly), ReceiverAction::Nothing),
                    PartStep::Incomplete(reply) => (
                        Receiver::Assembling(assembly),
                        ReceiverAction::Repair { reply },
                    ),
                    PartStep::Successful(reply) => (
                        Receiver::Downloading,
                        ReceiverAction::Commit { part: assembly.into_data(), reply },
                    ),
                }
            },
            Receiver::Finished => (Receiver::Finished, ReceiverAction::Nothing),
        }
    }
}

} // verus!
