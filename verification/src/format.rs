//! The wire format of the protocol messages, as mathematics.
//!
//! A datagram holds one message: a four-byte little-endian identifier, then
//! the payload of that kind of message. `encoding` says which bytes stand for
//! a message and `decoding` which message, if any, given bytes stand for.

use crate::wire::{le_u32, le_u64, lemma_u32_round_trip, lemma_u64_round_trip, u32_le, u64_le};
use vstd::prelude::*;
use vstd::utf8::{
    decode_utf8, encode_utf8, encode_utf8_decode_utf8, encode_utf8_valid_utf8, valid_utf8,
};

verus! {

/// A protocol message: what a `Messages` value stands for.
pub enum MessagesView {
    Reliable { packet_index: u32, message: Box<MessagesView> },
    ReliableAck { packet_index: u32 },
    Ping,
    FileTransferRequest { filename: Seq<char>, filesize: u64 },
    FileTransferAccept,
    PartBegin { part_size: u32, chunk_size: u32, part_number: u32, chunk_count: u32 },
    Chunk { index: u32, part_number: u32, data: Seq<u8> },
    PartEnd,
    TransferIncomplete { bitfield: Seq<u8> },
    TransferSuccessful,
    Goodbye { motd: Seq<char> },
}

/// Why bytes stand for no message.
pub enum DecodeError {
    /// The identifier names no kind of message.
    InvalidPacketId,
    /// The bytes end before the message does, or the payload is malformed.
    InvalidData,
}

impl DecodeError {
    /// The message of the error that reports this failure.
    pub open spec fn text(self) -> Seq<char> {
        match self {
            DecodeError::InvalidPacketId => "Invalid packet ID"@,
            DecodeError::InvalidData => "Invalid data"@,
        }
    }
}

/// The identifier of each kind of message. Ten names none.
pub open spec fn message_id(m: MessagesView) -> u32 {
    match m {
        MessagesView::Reliable { .. } => 0,
        MessagesView::ReliableAck { .. } => 1,
        MessagesView::Ping => 2,
        MessagesView::FileTransferRequest { .. } => 3,
        MessagesView::FileTransferAccept => 4,
        MessagesView::PartBegin { .. } => 5,
        MessagesView::Chunk { .. } => 6,
        MessagesView::PartEnd => 7,
        MessagesView::TransferIncomplete { .. } => 8,
        MessagesView::TransferSuccessful => 9,
        MessagesView::Goodbye { .. } => 11,
    }
}

/// Whether `id` is the identifier of some kind of message.
pub open spec fn known_id(id: u32) -> bool {
    id <= 9 || id == 11
}

/// A length as its prefix on the wire holds it: its low 32 bits.
pub open spec fn length_prefix(len: nat) -> u32 {
    (len % 0x1_0000_0000) as u32
}

/// A length-prefixed string: the byte length of its UTF-8 form, then that form.
pub open spec fn prefixed_text(text: Seq<char>) -> Seq<u8> {
    u32_le(length_prefix(encode_utf8(text).len())) + encode_utf8(text)
}

/// The bytes that follow the identifier.
pub open spec fn payload(m: MessagesView) -> Seq<u8>
    decreases m, 0int,
{
    match m {
        MessagesView::Reliable { packet_index, message } => u32_le(packet_index) + encoding(
            *message,
        ),
        MessagesView::ReliableAck { packet_index } => u32_le(packet_index),
        MessagesView::Ping => Seq::empty(),
        MessagesView::FileTransferRequest { filename, filesize } => prefixed_text(filename)
            + u64_le(filesize),
        MessagesView::FileTransferAccept => Seq::empty(),
        MessagesView::PartBegin { part_size, chunk_size, part_number, chunk_count } => u32_le(
            part_size,
        ) + u32_le(chunk_size) + u32_le(part_number) + u32_le(chunk_count),
        MessagesView::Chunk { index, part_number, data } => u32_le(index) + u32_le(part_number)
            + data,
        MessagesView::PartEnd => Seq::empty(),
        MessagesView::TransferIncomplete { bitfield } => bitfield,
        MessagesView::TransferSuccessful => Seq::empty(),
        MessagesView::Goodbye { motd } => prefixed_text(motd),
    }
}

/// The bytes of the datagram that carries `m`.
pub open spec fn encoding(m: MessagesView) -> Seq<u8>
    decreases m, 1int,
{
    u32_le(message_id(m)) + payload(m)
}

/// The message with identifier `id`, other than a `Reliable`, whose payload
/// starts `bytes`. Bytes after a payload of fixed length are passed over; a
/// `Chunk` and a `TransferIncomplete` take all bytes that are left.
pub open spec fn parse_plain(id: u32, bytes: Seq<u8>) -> Option<MessagesView> {
    if id == 1 {
        if bytes.len() >= 4 {
            Some(MessagesView::ReliableAck { packet_index: le_u32(bytes) })
        } else {
            None
        }
    } else if id == 2 {
        Some(MessagesView::Ping)
    } else if id == 3 {
        if bytes.len() >= 12 && bytes.len() >= 12 + le_u32(bytes) && valid_utf8(
            bytes.subrange(4, 4 + le_u32(bytes)),
        ) {
            Some(
                MessagesView::FileTransferRequest {
                    filename: decode_utf8(bytes.subrange(4, 4 + le_u32(bytes))),
                    filesize: le_u64(bytes.skip(4 + le_u32(bytes))),
                },
            )
        } else {
            None
        }
    } else if id == 4 {
        Some(MessagesView::FileTransferAccept)
    } else if id == 5 {
        if bytes.len() >= 16 {
            Some(
                MessagesView::PartBegin {
                    part_size: le_u32(bytes),
                    chunk_size: le_u32(bytes.skip(4)),
                    part_number: le_u32(bytes.skip(8)),
                    chunk_count: le_u32(bytes.skip(12)),
                },
            )
        } else {
            None
        }
    } else if id == 6 {
        if bytes.len() >= 8 {
            Some(
                MessagesView::Chunk {
                    index: le_u32(bytes),
                    part_number: le_u32(bytes.skip(4)),
                    data: bytes.skip(8),
                },
            )
        } else {
            None
        }
    } else if id == 7 {
        Some(MessagesView::PartEnd)
    } else if id == 8 {
        Some(MessagesView::TransferIncomplete { bitfield: bytes })
    } else if id == 9 {
        Some(MessagesView::TransferSuccessful)
    } else if id == 11 {
        if bytes.len() >= 4 && bytes.len() >= 4 + le_u32(bytes) && valid_utf8(
            bytes.subrange(4, 4 + le_u32(bytes)),
        ) {
            Some(MessagesView::Goodbye { motd: decode_utf8(bytes.subrange(4, 4 + le_u32(bytes))) })
        } else {
            None
        }
    } else {
        None
    }
}

/// The `Reliable` whose payload is `bytes`: an index, then a whole message
/// that is itself neither a `Reliable` nor a `ReliableAck`.
pub open spec fn parse_reliable(bytes: Seq<u8>) -> Option<MessagesView> {
    if bytes.len() >= 8 && le_u32(bytes.skip(4)) >= 2 {
        match parse_plain(le_u32(bytes.skip(4)), bytes.skip(8)) {
            Some(inner) => Some(
                MessagesView::Reliable { packet_index: le_u32(bytes), message: Box::new(inner) },
            ),
            None => None,
        }
    } else {
        None
    }
}

/// The message with identifier `id` whose payload starts `bytes`.
pub open spec fn parse_payload(id: u32, bytes: Seq<u8>) -> Option<MessagesView> {
    if id == 0 {
        parse_reliable(bytes)
    } else {
        parse_plain(id, bytes)
    }
}

/// The message that the datagram `bytes` carries, or why it carries none.
pub open spec fn decoding(bytes: Seq<u8>) -> Result<MessagesView, DecodeError> {
    if bytes.len() < 4 {
        Err(DecodeError::InvalidData)
    } else if !known_id(le_u32(bytes)) {
        Err(DecodeError::InvalidPacketId)
    } else {
        match parse_payload(le_u32(bytes), bytes.skip(4)) {
            Some(m) => Ok(m),
            None => Err(DecodeError::InvalidData),
        }
    }
}

/// Whether `m` is neither a `Reliable` nor a `ReliableAck`.
pub open spec fn is_plain(m: MessagesView) -> bool {
    !(m is Reliable) && !(m is ReliableAck)
}

/// Whether the wire can carry `m` without loss: the UTF-8 form of each string
/// is shorter than 2^32 bytes, and a `Reliable` wraps a message that is
/// neither a `Reliable` nor a `ReliableAck`.
pub open spec fn representable(m: MessagesView) -> bool
    decreases m,
{
    match m {
        MessagesView::Reliable { message, .. } => is_plain(*message) && representable(*message),
        MessagesView::FileTransferRequest { filename, .. } => encode_utf8(filename).len()
            < 0x1_0000_0000,
        MessagesView::Goodbye { motd } => encode_utf8(motd).len() < 0x1_0000_0000,
        _ => true,
    }
}

/// How many bytes at the end of `encoding(m)` are of free length: the data
/// of a `Chunk`, the bytes of a `TransferIncomplete`, and those of such a
/// message inside a `Reliable`.
pub open spec fn tail_len(m: MessagesView) -> nat
    decreases m,
{
    match m {
        MessagesView::Reliable { message, .. } => tail_len(*message),
        MessagesView::Chunk { data, .. } => data.len(),
        MessagesView::TransferIncomplete { bitfield } => bitfield.len(),
        _ => 0,
    }
}

/// `m` without the last `k` bytes of its tail.
pub open spec fn without_tail(m: MessagesView, k: nat) -> MessagesView
    recommends
        k <= tail_len(m),
    decreases m,
{
    match m {
        MessagesView::Reliable { packet_index, message } => MessagesView::Reliable {
            packet_index,
            message: Box::new(without_tail(*message, k)),
        },
        MessagesView::Chunk { index, part_number, data } => MessagesView::Chunk {
            index,
            part_number,
            data: data.take(data.len() - k),
        },
        MessagesView::TransferIncomplete { bitfield } => MessagesView::TransferIncomplete {
            bitfield: bitfield.take(bitfield.len() - k),
        },
        _ => m,
    }
}

proof fn lemma_prefixed_text(text: Seq<char>, rest: Seq<u8>)
    requires
        encode_utf8(text).len() < 0x1_0000_0000,
    ensures
        prefixed_text(text).len() == 4 + encode_utf8(text).len(),
        le_u32(prefixed_text(text) + rest) == encode_utf8(text).len(),
        (prefixed_text(text) + rest).subrange(4, 4 + encode_utf8(text).len() as int) == encode_utf8(
            text,
        ),
        (prefixed_text(text) + rest).skip(4 + encode_utf8(text).len() as int) == rest,
        valid_utf8(encode_utf8(text)),
        decode_utf8(encode_utf8(text)) == text,
{
    let n = encode_utf8(text).len() as int;
    lemma_u32_round_trip(length_prefix(n as nat));
    encode_utf8_valid_utf8(text);
    encode_utf8_decode_utf8(text);
}

proof fn lemma_parse_plain_payload(m: MessagesView)
    requires
        representable(m),
        !(m is Reliable),
    ensures
        parse_plain(message_id(m), payload(m)) == Some(m),
{
    let bytes = payload(m);
    match m {
        MessagesView::ReliableAck { packet_index } => {
            lemma_u32_round_trip(packet_index);
        },
        MessagesView::FileTransferRequest { filename, filesize } => {
            lemma_prefixed_text(filename, u64_le(filesize));
            lemma_u64_round_trip(filesize);
        },
        MessagesView::PartBegin { part_size, chunk_size, part_number, chunk_count } => {
            lemma_u32_round_trip(part_size);
            lemma_u32_round_trip(chunk_size);
            lemma_u32_round_trip(part_number);
            lemma_u32_round_trip(chunk_count);
            assert(bytes.skip(4) =~= u32_le(chunk_size) + u32_le(part_number) + u32_le(
                chunk_count,
            ));
        },
        MessagesView::Chunk { index, part_number, data } => {
            lemma_u32_round_trip(index);
            lemma_u32_round_trip(part_number);
            assert(bytes.skip(8) =~= data);
        },
        MessagesView::Goodbye { motd } => {
            lemma_prefixed_text(motd, Seq::empty());
        },
        _ => {},
    }
}

/// Decoding the encoding of a message gives the message back.
pub proof fn lemma_decoding_of_encoding(m: MessagesView)
    requires
        representable(m),
    ensures
        decoding(encoding(m)) == Ok::<MessagesView, DecodeError>(m),
{
    let bytes = encoding(m);
    lemma_u32_round_trip(message_id(m));
    assert(bytes.skip(4) =~= payload(m));
    match m {
        MessagesView::Reliable { packet_index, message } => {
            let inner = *message;
            lemma_u32_round_trip(packet_index);
            lemma_u32_round_trip(message_id(inner));
            lemma_parse_plain_payload(inner);
            assert(payload(m).skip(8) =~= payload(inner));
        },
        _ => {
            lemma_parse_plain_payload(m);
        },
    }
}

proof fn lemma_parse_plain_truncated(m: MessagesView, k: nat)
    requires
        representable(m),
        !(m is Reliable),
        0 < k <= payload(m).len(),
    ensures
        parse_plain(message_id(m), payload(m).take(payload(m).len() - k)) == if k <= tail_len(m) {
            Some(without_tail(m, k))
        } else {
            None
        },
{
    let bytes = payload(m);
    let cut = bytes.take(bytes.len() - k);
    match m {
        MessagesView::FileTransferRequest { filename, filesize } => {
            lemma_prefixed_text(filename, u64_le(filesize));
            lemma_u64_round_trip(filesize);
        },
        MessagesView::PartBegin { part_size, chunk_size, part_number, chunk_count } => {
            lemma_u32_round_trip(part_size);
            lemma_u32_round_trip(chunk_size);
            lemma_u32_round_trip(part_number);
            lemma_u32_round_trip(chunk_count);
        },
        MessagesView::Chunk { index, part_number, data } => {
            lemma_u32_round_trip(index);
            lemma_u32_round_trip(part_number);
            if k <= data.len() {
                let kept = data.take(data.len() - k);
                assert(cut.skip(8) =~= kept);
            }
        },
        MessagesView::Goodbye { motd } => {
            lemma_prefixed_text(motd, Seq::empty());
        },
        MessagesView::ReliableAck { packet_index } => {
            lemma_u32_round_trip(packet_index);
        },
        _ => {},
    }
}

/// Cutting `k` bytes off the end of an encoding: where the cut stays within
/// the message's tail of free length, the rest decodes to the message with
/// that much less tail; a longer cut leaves bytes that decode to no message.
pub proof fn lemma_decoding_of_truncated(m: MessagesView, k: nat)
    requires
        representable(m),
        0 < k <= encoding(m).len(),
    ensures
        decoding(encoding(m).take(encoding(m).len() - k)) == if k <= tail_len(m) {
            Ok::<MessagesView, DecodeError>(without_tail(m, k))
        } else {
            Err::<MessagesView, DecodeError>(DecodeError::InvalidData)
        },
{
    let bytes = encoding(m);
    let cut = bytes.take(bytes.len() - k);
    lemma_u32_round_trip(message_id(m));
    lemma_tail_within_payload(m);
    if cut.len() >= 4 {
        assert(cut.skip(4) =~= payload(m).take(payload(m).len() - k));
        match m {
            MessagesView::Reliable { packet_index, message } => {
                let inner = *message;
                let body = payload(m);
                let body_cut = body.take(body.len() - k);
                lemma_u32_round_trip(packet_index);
                lemma_u32_round_trip(message_id(inner));
                lemma_tail_within_payload(inner);
                if body_cut.len() >= 8 {
                    assert(body_cut.skip(8) =~= payload(inner).take(payload(inner).len() - k));
                    lemma_parse_plain_truncated(inner, k);
                }
            },
            _ => {
                lemma_parse_plain_truncated(m, k);
            },
        }
    }
}

proof fn lemma_tail_within_payload(m: MessagesView)
    ensures
        tail_len(m) <= payload(m).len(),
        m is Reliable ==> tail_len(m) + 8 <= payload(m).len(),
    decreases m,
{
    match m {
        MessagesView::Reliable { packet_index, message } => {
            lemma_tail_within_payload(*message);
        },
        _ => {},
    }
}

} // verus!
