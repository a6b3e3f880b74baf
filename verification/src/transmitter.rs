//! The sending peer: a file goes out part by part, each part as a burst of
//! chunks that is repaired until the receiver has them all.
//!
//! The program that runs the session reads the file, sends what the
//! functions here hand back, and feeds them what the peer answers.

use crate::bitfield::{bit_at, Bitfield};
use crate::format::MessagesView;
use crate::message::{
    ChunkMessage, FileTransferRequestMessage, GoodbyeMessage, Messages, PartBeginMessage,
    PartEndMessage,
};
use vstd::prelude::*;
use vstd::slice::{slice_subrange, slice_to_vec};

verus! {

/// The size of the chunks that this sender cuts. A receiver goes by what the
/// `PartBegin` says, not by this.
pub const CHUNK_SIZE: u32 = 1024;

/// The most chunks that this sender puts into one part.
pub const CHUNK_COUNT: u32 = 512;

/// The length of the first chunk cut from `len` bytes.
pub open spec fn first_chunk_len(len: nat, chunk_size: nat) -> nat {
    if len < chunk_size {
        len
    } else {
        chunk_size
    }
}

/// The chunks that `data` starts with: at most `limit` of them, each of
/// `chunk_size` bytes, but that the last is shorter where `data` ends within
/// it. No chunk is empty.
pub open spec fn chunks_of(data: Seq<u8>, chunk_size: nat, limit: nat) -> Seq<Seq<u8>>
    decreases limit,
{
    if limit == 0 || chunk_size == 0 || data.len() == 0 {
        Seq::empty()
    } else {
        let n = first_chunk_len(data.len(), chunk_size) as int;
        seq![data.take(n)] + chunks_of(data.skip(n), chunk_size, (limit - 1) as nat)
    }
}

/// The lengths of `chunks`, added up.
pub open spec fn total_len(chunks: Seq<Seq<u8>>) -> nat
    decreases chunks.len(),
{
    if chunks.len() == 0 {
        0
    } else {
        total_len(chunks.drop_last()) + chunks.last().len()
    }
}

/// What each of `chunks` holds.
pub open spec fn chunk_views(chunks: Seq<Vec<u8>>) -> Seq<Seq<u8>> {
    Seq::new(chunks.len(), |i: int| chunks[i]@)
}

/// What each of `messages` stands for.
pub open spec fn message_views(messages: Seq<Messages>) -> Seq<MessagesView> {
    Seq::new(messages.len(), |i: int| messages[i]@)
}

/// The `Chunk` messages for the chunks whose bit in `mask` is not set, in
/// order, each under its index in `chunks`.
pub open spec fn chunk_messages(chunks: Seq<Seq<u8>>, mask: Seq<u8>, part_number: u32) -> Seq<
    MessagesView,
>
    decreases chunks.len(),
{
    if chunks.len() == 0 {
        Seq::empty()
    } else {
        let i = chunks.len() - 1;
        chunk_messages(chunks.drop_last(), mask, part_number) + if bit_at(mask, i) {
            Seq::empty()
        } else {
            seq![MessagesView::Chunk { index: i as u32, part_number, data: chunks.last() }]
        }
    }
}

/// Where chunk `i` starts: the total length of the chunks before it.
pub open spec fn chunk_offset(chunks: Seq<Seq<u8>>, i: int) -> int {
    total_len(chunks.take(i)) as int
}

proof fn lemma_total_len_prepend(first: Seq<u8>, rest: Seq<Seq<u8>>)
    ensures
        total_len(seq![first] + rest) == first.len() + total_len(rest),
    decreases rest.len(),
{
    let all = seq![first] + rest;
    if rest.len() == 0 {
        assert(total_len(all.drop_last()) == 0);
    } else {
        assert(all.drop_last() =~= seq![first] + rest.drop_last());
        lemma_total_len_prepend(first, rest.drop_last());
    }
}

/// Offsets do not go down, and the last one is the total.
pub proof fn lemma_chunk_offsets_ordered(chunks: Seq<Seq<u8>>, i: int, j: int)
    requires
        0 <= i <= j <= chunks.len(),
    ensures
        chunk_offset(chunks, i) <= chunk_offset(chunks, j),
        chunk_offset(chunks, chunks.len() as int) == total_len(chunks),
        j < chunks.len() ==> chunk_offset(chunks, j + 1) == chunk_offset(chunks, j) + chunks[j].len(),
    decreases j - i,
{
    assert(chunks.take(chunks.len() as int) =~= chunks);
    if j < chunks.len() {
        assert(chunks.take(j + 1).drop_last() =~= chunks.take(j));
    }
    if i < j {
        lemma_chunk_offsets_ordered(chunks, i, j - 1);
    }
}

/// The shape of the chunks of `data`: chunk `i` is the stretch of `data`
/// that starts at `i * chunk_size`, every chunk but the last holds
/// `chunk_size` bytes, and the last holds at least one.
pub proof fn lemma_chunks_of(data: Seq<u8>, chunk_size: nat, limit: nat, i: int)
    requires
        0 <= i < chunks_of(data, chunk_size, limit).len(),
    ensures
        ({
            let chunks = chunks_of(data, chunk_size, limit);
            let offset = chunk_offset(chunks, i);
            &&& chunks.len() <= limit
            &&& 0 < chunks[i].len() <= chunk_size
            &&& i + 1 < chunks.len() ==> chunks[i].len() == chunk_size
            &&& offset == i * chunk_size
            &&& offset + chunks[i].len() <= data.len()
            &&& chunks[i] == data.subrange(offset, offset + chunks[i].len())
        }),
    decreases limit,
{
    let chunks = chunks_of(data, chunk_size, limit);
    let n = first_chunk_len(data.len(), chunk_size) as int;
    let rest = chunks_of(data.skip(n), chunk_size, (limit - 1) as nat);
    lemma_chunks_count(data, chunk_size, limit);
    if i > 0 {
        lemma_chunks_of(data.skip(n), chunk_size, (limit - 1) as nat, i - 1);
        assert(chunks.take(i) =~= seq![data.take(n)] + rest.take(i - 1));
        lemma_total_len_prepend(data.take(n), rest.take(i - 1));
        let inner = chunk_offset(rest, i - 1);
        assert(n + (i - 1) * chunk_size == i * chunk_size) by (nonlinear_arith)
            requires
                n == chunk_size,
        ;
        assert(data.skip(n).subrange(inner, inner + rest[i - 1].len()) =~= data.subrange(
            n + inner,
            n + inner + rest[i - 1].len(),
        ));
    }
}

/// There are at most `limit` chunks.
pub proof fn lemma_chunks_count(data: Seq<u8>, chunk_size: nat, limit: nat)
    ensures
        chunks_of(data, chunk_size, limit).len() <= limit,
    decreases limit,
{
    if !(limit == 0 || chunk_size == 0 || data.len() == 0) {
        let n = first_chunk_len(data.len(), chunk_size) as int;
        lemma_chunks_count(data.skip(n), chunk_size, (limit - 1) as nat);
    }
}

/// The chunks of `data` hold no more than `data` does.
pub proof fn lemma_chunks_total(data: Seq<u8>, chunk_size: nat, limit: nat)
    ensures
        total_len(chunks_of(data, chunk_size, limit)) <= data.len(),
{
    let chunks = chunks_of(data, chunk_size, limit);
    if chunks.len() > 0 {
        let last = chunks.len() - 1;
        lemma_chunks_of(data, chunk_size, limit, last);
        lemma_chunk_offsets_ordered(chunks, last, last);
        lemma_chunk_offsets_ordered(chunks, last + 1, last + 1);
    }
}

/// Where `data` is no longer than `limit` chunks can hold, its chunks hold
/// all of it.
pub proof fn lemma_chunks_hold_all(data: Seq<u8>, chunk_size: nat, limit: nat)
    requires
        data.len() <= chunk_size * limit,
    ensures
        total_len(chunks_of(data, chunk_size, limit)) == data.len(),
    decreases limit,
{
    if limit == 0 || chunk_size == 0 || data.len() == 0 {
        assert(chunk_size * limit == 0 || data.len() == 0) by (nonlinear_arith)
            requires
                limit == 0 || chunk_size == 0 || data.len() == 0,
        ;
    } else {
        let n = first_chunk_len(data.len(), chunk_size) as int;
        let rest = data.skip(n);
        assert(rest.len() <= chunk_size * ((limit - 1) as nat)) by (nonlinear_arith)
            requires
                limit >= 1,
                rest.len() == 0 || rest.len() == data.len() - chunk_size,
                data.len() <= chunk_size * limit,
        ;
        lemma_chunks_hold_all(rest, chunk_size, (limit - 1) as nat);
        lemma_total_len_prepend(data.take(n), chunks_of(rest, chunk_size, (limit - 1) as nat));
    }
}

/// The chunks hold no more than `limit` times `chunk_size` bytes.
pub proof fn lemma_chunks_fit(data: Seq<u8>, chunk_size: nat, limit: nat)
    ensures
        total_len(chunks_of(data, chunk_size, limit)) <= chunk_size * limit,
    decreases limit,
{
    if limit == 0 || chunk_size == 0 || data.len() == 0 {
        assert(0 <= chunk_size * limit) by (nonlinear_arith);
    } else {
        let n = first_chunk_len(data.len(), chunk_size) as int;
        let rest = chunks_of(data.skip(n), chunk_size, (limit - 1) as nat);
        lemma_chunks_fit(data.skip(n), chunk_size, (limit - 1) as nat);
        lemma_total_len_prepend(data.take(n), rest);
        assert(n + chunk_size * ((limit - 1) as nat) <= chunk_size * limit) by (nonlinear_arith)
            requires
                limit >= 1,
                n <= chunk_size,
        ;
    }
}

proof fn lemma_total_len_push(chunks: Seq<Seq<u8>>, chunk: Seq<u8>)
    ensures
        total_len(chunks.push(chunk)) == total_len(chunks) + chunk.len(),
{
    assert(chunks.push(chunk).drop_last() =~= chunks);
}

/// The chunks of `data`, and how many bytes of `data` they hold.
fn cut(data: &[u8], chunk_size: usize, limit: u32) -> (r: (Vec<Vec<u8>>, usize))
    ensures
        chunk_views(r.0@) == chunks_of(data@, chunk_size as nat, limit as nat),
        r.0@.len() <= limit,
        r.1 == total_len(chunk_views(r.0@)),
        r.1 <= data@.len(),
{
    let mut v: Vec<Vec<u8>> = Vec::new();
    let mut at: usize = 0;
    let mut i: u32 = 0;
    proof {
        assert(data@.skip(0) =~= data@);
        assert(Seq::<Seq<u8>>::empty() + chunks_of(data@, chunk_size as nat, limit as nat)
            =~= chunks_of(data@, chunk_size as nat, limit as nat));
    }
    while i < limit && chunk_size > 0 && at < data.len()
        invariant
            i <= limit,
            at <= data.len(),
            v@.len() == i,
            at == total_len(chunk_views(v@)),
            chunks_of(data@, chunk_size as nat, limit as nat) == chunk_views(v@) + chunks_of(
                data@.skip(at as int),
                chunk_size as nat,
                (limit - i) as nat,
            ),
        decreases limit - i,
    {
        let left = data.len() - at;
        let end = if left < chunk_size {
            data.len()
        } else {
            at + chunk_size
        };
        let buf = slice_to_vec(slice_subrange(data, at, end));
        proof {
            let rest = data@.skip(at as int);
            let n = first_chunk_len(rest.len(), chunk_size as nat) as int;
            assert(rest.take(n) =~= buf@);
            assert(rest.skip(n) =~= data@.skip(end as int));
            assert(chunk_views(v@.push(buf)) =~= chunk_views(v@).push(buf@));
            lemma_total_len_push(chunk_views(v@), buf@);
        }
        v.push(buf);
        at = end;
        i += 1;
    }
    proof {
        assert(chunks_of(data@.skip(at as int), chunk_size as nat, (limit - i) as nat)
            =~= Seq::<Seq<u8>>::empty());
    }
    (v, at)
}

/// Cuts `data` into its chunks, and sets `chunk_count` to their number.
pub fn split(data: &[u8], chunk_size: usize, chunk_count: &mut u32) -> (r: Option<Vec<Vec<u8>>>)
    ensures
        r matches Some(chunks) && chunk_views(chunks@) == chunks_of(
            data@,
            chunk_size as nat,
            *old(chunk_count) as nat,
        ),
        *final(chunk_count) == chunks_of(data@, chunk_size as nat, *old(chunk_count) as nat).len(),
{
    let (v, _) = cut(data, chunk_size, *chunk_count);
    *chunk_count = v.len() as u32;
    Some(v)
}

/// The `Chunk` messages to emit for `chunks`: one for each chunk whose bit
/// in `mask` is not set, in order. With an empty mask that is every chunk.
pub fn send_chunks(chunks: &Vec<Vec<u8>>, mask: &Bitfield, partno: u32) -> (r: Vec<Messages>)
    requires
        chunks@.len() <= 0x1_0000_0000,
    ensures
        message_views(r@) == chunk_messages(chunk_views(chunks@), mask@, partno),
{
    let mut out: Vec<Messages> = Vec::new();
    let mut i: usize = 0;
    while i < chunks.len()
        invariant
            i <= chunks@.len(),
            chunks@.len() <= 0x1_0000_0000,
            message_views(out@) == chunk_messages(chunk_views(chunks@).take(i as int), mask@, partno),
        decreases chunks@.len() - i,
    {
        proof {
            let views = chunk_views(chunks@);
            assert(views.take(i + 1).drop_last() =~= views.take(i as int));
        }
        if !mask.get(i) {
            let msg = ChunkMessage {
                data: chunks[i].clone(),
                index: i as u32,
                part_number: partno,
            };
            let ghost before = out@;
            out.push(Messages::Chunk(msg));
            assert(message_views(out@) =~= message_views(before) + seq![
                MessagesView::Chunk { index: i as u32, part_number: partno, data: chunks@[i as int]@ },
            ]);
        }
        i += 1;
    }
    assert(chunk_views(chunks@).take(chunks@.len() as int) =~= chunk_views(chunks@));
    out
}

/// A part on its way: its chunks and what its `PartBegin` announces.
pub ghost struct PartTransferView {
    pub chunks: Seq<Seq<u8>>,
    pub chunk_size: u32,
    pub part_number: u32,
}

impl PartTransferView {
    /// The size that the part is announced with: the total of the chunks'
    /// lengths, as far as 32 bits hold it.
    pub open spec fn part_size(self) -> u32 {
        (total_len(self.chunks) % 0x1_0000_0000) as u32
    }

    /// The number of chunks that the part is announced with.
    pub open spec fn chunk_count(self) -> u32 {
        self.chunks.len() as u32
    }

    /// Whether this part is what the sender makes of `data`: its chunks are
    /// the chunks of `data`, at most `limit` of them, and 32 bits hold their
    /// number and their total length.
    pub open spec fn cut_from(self, data: Seq<u8>, limit: nat) -> bool {
        &&& self.chunks == chunks_of(data, self.chunk_size as nat, limit)
        &&& limit <= u32::MAX
        &&& total_len(self.chunks) <= u32::MAX
    }

    /// The `PartBegin` of the part.
    pub open spec fn part_begin(self) -> MessagesView {
        MessagesView::PartBegin {
            part_size: self.part_size(),
            chunk_size: self.chunk_size,
            part_number: self.part_number,
            chunk_count: self.chunk_count(),
        }
    }
}

/// What opens a part.
#[derive(Debug)]
pub struct PartOpening {
    /// Sent reliably, first.
    pub begin: Messages,
    /// Every chunk of the part, each sent once.
    pub chunks: Vec<Messages>,
    /// Sent reliably, last.
    pub end: Messages,
}

/// What the sender does after a message from the receiver.
#[derive(Debug)]
pub enum PartReply {
    /// Not about the part: wait for the next message.
    Ignore,
    /// Send `chunks`, each once, then `end` reliably.
    Resend { chunks: Vec<Messages>, end: Messages },
    /// The receiver has the part.
    Done,
}

/// What the sender does after a message from the receiver.
pub ghost enum PartReplyView {
    Ignore,
    Resend { chunks: Seq<MessagesView>, end: MessagesView },
    Done,
}

impl View for PartReply {
    type V = PartReplyView;

    open spec fn view(&self) -> PartReplyView {
        match self {
            PartReply::Ignore => PartReplyView::Ignore,
            PartReply::Resend { chunks, end } => PartReplyView::Resend {
                chunks: message_views(chunks@),
                end: end@,
            },
            PartReply::Done => PartReplyView::Done,
        }
    }
}

/// The repair loop's rule: after a `TransferIncomplete` the chunks whose bit
/// is not set go out again, followed by a `PartEnd`; a `TransferSuccessful`
/// ends the part; any other message is passed over.
pub open spec fn part_reply(part: PartTransferView, m: MessagesView) -> PartReplyView {
    match m {
        MessagesView::TransferIncomplete { bitfield } => PartReplyView::Resend {
            chunks: chunk_messages(part.chunks, bitfield, part.part_number),
            end: MessagesView::PartEnd,
        },
        MessagesView::TransferSuccessful => PartReplyView::Done,
        _ => PartReplyView::Ignore,
    }
}

/// A part on its way.
#[derive(Debug)]
pub struct PartTransfer {
    chunks: Vec<Vec<u8>>,
    part_size: u32,
    chunk_size: u32,
    part_number: u32,
}

impl View for PartTransfer {
    type V = PartTransferView;

    closed spec fn view(&self) -> PartTransferView {
        PartTransferView {
            chunks: chunk_views(self.chunks@),
            chunk_size: self.chunk_size,
            part_number: self.part_number,
        }
    }
}

impl PartTransfer {
    #[verifier::type_invariant]
    spec fn inv(&self) -> bool {
        &&& 0 < self.chunks@.len() <= u32::MAX
        &&& self.part_size == total_len(chunk_views(self.chunks@)) % 0x1_0000_0000
    }

    /// What opens the part: its `PartBegin`, a burst of all its chunks, and
    /// a `PartEnd`.
    pub fn opening(&self) -> (r: PartOpening)
        ensures
            r.begin@ == self@.part_begin(),
            message_views(r.chunks@) == chunk_messages(
                self@.chunks,
                Seq::empty(),
                self@.part_number,
            ),
            r.end@ == MessagesView::PartEnd,
    {
        proof {
            use_type_invariant(self);
        }
        let begin = Messages::PartBegin(
            PartBeginMessage {
                part_size: self.part_size,
                chunk_size: self.chunk_size,
                part_number: self.part_number,
                chunk_count: self.chunks.len() as u32,
            },
        );
        let chunks = send_chunks(&self.chunks, &Bitfield::new(), self.part_number);
        PartOpening { begin, chunks, end: Messages::PartEnd(PartEndMessage {  }) }
    }

    /// The repair loop's step for one inbound message.
    pub fn on_message(&self, message: &Messages) -> (r: PartReply)
        ensures
            r@ == part_reply(self@, message@),
    {
        proof {
            use_type_invariant(self);
        }
        match message {
            Messages::TransferIncomplete(msg) => {
                let chunks = send_chunks(&self.chunks, &msg.bitfield, self.part_number);
                PartReply::Resend { chunks, end: Messages::PartEnd(PartEndMessage {  }) }
            },
            Messages::TransferSuccessful(_) => PartReply::Done,
            _ => PartReply::Ignore,
        }
    }
}

/// The part that `data` starts with: at most `chunk_count` chunks of
/// `chunk_size` bytes, under the number `partno`. `None` where there is no
/// chunk to send.
pub fn send_part(data: &[u8], chunk_size: u32, chunk_count: u32, partno: u32) -> (r: Option<
    PartTransfer,
>)
    ensures
        match r {
            Some(part) => part@ == (PartTransferView {
                chunks: chunks_of(data@, chunk_size as nat, chunk_count as nat),
                chunk_size,
                part_number: partno,
            }) && part@.chunks.len() > 0,
            None => chunks_of(data@, chunk_size as nat, chunk_count as nat).len() == 0,
        },
{
    let (chunks, consumed) = cut(data, chunk_size as usize, chunk_count);
    if chunks.len() == 0 {
        return None;
    }
    let part_size = (consumed as u64 % 0x1_0000_0000) as u32;
    Some(PartTransfer { chunks, part_size, chunk_size, part_number: partno })
}

/// The words that end a session.
pub open spec fn farewell() -> Seq<char> {
    "Thank you for using our service!"@
}

/// Where the sending peer stands in the session.
#[derive(Clone, Copy, Debug, PartialEq, Eq)]
pub enum Transmitter {
    /// The request is out; the receiver has not accepted yet.
    AwaitingAccept,
    /// The receiver has accepted; the next part gets this number.
    Sending { part_number: u32 },
    /// Goodbye has been said.
    Finished,
}

/// What the sending peer does with what it read from the file.
#[derive(Debug)]
pub enum TransmitterAction {
    /// Nothing: this is no time to send.
    Nothing,
    /// Send this part.
    Part(PartTransfer),
    /// The file is through: send this `Goodbye` reliably.
    Goodbye(Messages),
}

impl Transmitter {
    /// The start of a session: the request to send reliably, and the state
    /// in which to wait for the peer's answer.
    pub fn begin(filename: String, filesize: u64) -> (r: (Transmitter, Messages))
        ensures
            r.0 == Transmitter::AwaitingAccept,
            r.1@ == (MessagesView::FileTransferRequest { filename: filename@, filesize }),
    {
        let msg = FileTransferRequestMessage { filename, filesize };
        (Transmitter::AwaitingAccept, Messages::FileTransferRequest(msg))
    }

    /// The state after an inbound message: a `FileTransferAccept` lets a
    /// waiting sender start with part zero, and nothing else changes anything.
    pub fn on_message(self, message: &Messages) -> (r: Transmitter)
        ensures
            r == if self == Transmitter::AwaitingAccept && message@ is FileTransferAccept {
                Transmitter::Sending { part_number: 0 }
            } else {
                self
            },
    {
        match (self, message) {
            (Transmitter::AwaitingAccept, Messages::FileTransferAccept(_)) => Transmitter::Sending {
                part_number: 0,
            },
            _ => self,
        }
    }

    /// What to do with `data`, the bytes of the file that are up next: where
    /// they hold a chunk, send them as the next part, and count one part up;
    /// where they hold none, say goodbye. A sender that is not sending does
    /// nothing.
    pub fn next_part(self, data: &[u8]) -> (r: (Transmitter, TransmitterAction))
        ensures
            match self {
                Transmitter::Sending { part_number } => match r.1 {
                    TransmitterAction::Part(part) => {
                        &&& part@ == (PartTransferView {
                            chunks: chunks_of(data@, CHUNK_SIZE as nat, CHUNK_COUNT as nat),
                            chunk_size: CHUNK_SIZE,
                            part_number,
                        })
                        &&& part@.cut_from(data@, CHUNK_COUNT as nat)
                        &&& data@.len() > 0
                        &&& r.0 == Transmitter::Sending {
                            part_number: if part_number == u32::MAX {
                                0
                            } else {
                                (part_number + 1) as u32
                            },
                        }
                    },
                    TransmitterAction::Goodbye(message) => {
                        &&& data@.len() == 0
                        &&& message@ == MessagesView::Goodbye { motd: farewell() }
                        &&& r.0 == Transmitter::Finished
                    },
                    TransmitterAction::Nothing => false,
                },
                _ => r.0 == self && r.1 is Nothing,
            },
    {
        match self {
            Transmitter::Sending { part_number } => {
                proof {
                    lemma_chunks_fit(data@, CHUNK_SIZE as nat, CHUNK_COUNT as nat);
                }
                match send_part(data, CHUNK_SIZE, CHUNK_COUNT, part_number) {
                    Some(part) => {
                        let next = if part_number == u32::MAX {
                            0
                        } else {
                            part_number + 1
                        };
                        (Transmitter::Sending { part_number: next }, TransmitterAction::Part(part))
                    },
                    None => {
                        let msg = GoodbyeMessage {
                            motd: "Thank you for using our service!".to_owned(),
                        };
                        (Transmitter::Finished, TransmitterAction::Goodbye(Messages::Goodbye(msg)))
                    },
                }
            },
            _ => (self, TransmitterAction::Nothing),
        }
    }
}

} // verus!
