//! The protocol messages and their codec.

use crate::bitfield::Bitfield;
use crate::buffer::buffer_to_vec;
use crate::error::Error;
use crate::format::{
    decoding, encoding, parse_payload, parse_plain, payload, DecodeError, MessagesView,
};
use crate::wire::{u32_from_le, u32_le, u32_to_le, u64_from_le, u64_to_le};
use bytes::BytesMut;
use vstd::prelude::*;
use vstd::slice::{slice_subrange, slice_to_vec};
use vstd::utf8::{encode_utf8, encode_utf8_decode_utf8, valid_utf8};

verus! {

/// The error of `String::from_utf8`. Nothing is seen inside it.
#[verifier::external_type_specification]
#[verifier::external_body]
pub struct ExFromUtf8Error(std::string::FromUtf8Error);

/// `String::from_utf8` gives the string whose UTF-8 form is `vec`, and fails
/// exactly where `vec` is not valid UTF-8.
pub assume_specification[ String::from_utf8 ](vec: Vec<u8>) -> (r: Result<
    String,
    std::string::FromUtf8Error,
>)
    ensures
        r is Ok <==> valid_utf8(vec@),
        r matches Ok(s) ==> encode_utf8(s@) == vec@,
;

/// A message of one kind.
pub trait Message: Sized {
    /// The identifier that starts the datagram.
    const ID: u32;

    /// The protocol message that this value stands for.
    spec fn as_message(&self) -> MessagesView;

    /// The payload: the bytes that follow the identifier.
    fn get_data(&self) -> (data: Vec<u8>)
        ensures
            data@ == payload(self.as_message()),
    ;

    /// The whole datagram: the identifier, then the payload.
    fn get_bytes(&self) -> (bytes: Vec<u8>)
        ensures
            bytes@ == u32_le(Self::ID) + payload(self.as_message()),
    {
        let mut buf: Vec<u8> = u32_to_le(Self::ID);
        let mut data = self.get_data();
        buf.append(&mut data);
        buf
    }

    /// The message of this kind whose payload starts `bytes`, if there is one.
    fn from_bytes(bytes: Vec<u8>) -> (r: Option<Box<Self>>)
        ensures
            match r {
                Some(m) => parse_payload(Self::ID, bytes@) == Some(m.as_message()),
                None => parse_payload(Self::ID, bytes@) is None,
            },
    ;
}

/// A sign of life, sent at intervals to keep the path open.
#[derive(Debug, PartialEq, Eq)]
pub struct PingMessage {}

impl Clone for PingMessage {
    fn clone(&self) -> (r: Self)
        ensures
            r.as_message() == self.as_message(),
    {
        Self {  }
    }
}

impl Message for PingMessage {
    const ID: u32 = 2;

    open spec fn as_message(&self) -> MessagesView {
        MessagesView::Ping
    }

    fn get_data(&self) -> (data: Vec<u8>) {
        Vec::new()
    }

    fn from_bytes(bytes: Vec<u8>) -> (r: Option<Box<Self>>) {
        Some(Box::new(Self {  }))
    }
}

/// Acknowledges the `Reliable` with the same index.
#[derive(Debug, PartialEq, Eq)]
pub struct ReliableAckMessage {
    pub packet_index: u32,
}

impl Clone for ReliableAckMessage {
    fn clone(&self) -> (r: Self)
        ensures
            r.as_message() == self.as_message(),
    {
        Self { packet_index: self.packet_index }
    }
}

impl Message for ReliableAckMessage {
    const ID: u32 = 1;

    open spec fn as_message(&self) -> MessagesView {
        MessagesView::ReliableAck { packet_index: self.packet_index }
    }

    fn get_data(&self) -> (data: Vec<u8>) {
        u32_to_le(self.packet_index)
    }

    fn from_bytes(bytes: Vec<u8>) -> (r: Option<Box<Self>>) {
        if bytes.len() < 4 {
            return None;
        }
        let index = u32_from_le(bytes.as_slice(), 0);
        Some(Box::new(Self { packet_index: index }))
    }
}

/// Asks the receiver to take a file of this name and size.
#[derive(Debug, PartialEq, Eq)]
pub struct FileTransferRequestMessage {
    pub filename: String,
    pub filesize: u64,
}

impl Clone for FileTransferRequestMessage {
    fn clone(&self) -> (r: Self)
        ensures
            r.as_message() == self.as_message(),
    {
        Self { filename: self.filename.clone(), filesize: self.filesize }
    }
}

impl Message for FileTransferRequestMessage {
    const ID: u32 = 3;

    open spec fn as_message(&self) -> MessagesView {
        MessagesView::FileTransferRequest { filename: self.filename@, filesize: self.filesize }
    }

    fn get_data(&self) -> (data: Vec<u8>) {
        let mut buf = BytesMut::new();
        let filename_buffer = self.filename.as_str().as_bytes();
        let prefix = u32_to_le((filename_buffer.len() as u64 % 0x1_0000_0000) as u32);
        buf.extend_from_slice(prefix.as_slice());
        buf.extend_from_slice(filename_buffer);
        buf.extend_from_slice(u64_to_le(self.filesize).as_slice());
        buffer_to_vec(&buf)
    }

    fn from_bytes(bytes: Vec<u8>) -> (r: Option<Box<Self>>) {
        if bytes.len() < 4 + 8 {
            return None;
        }
        let filename_size = u32_from_le(bytes.as_slice(), 0) as usize;
        if bytes.len() - (4 + 8) < filename_size {
            return None;
        }
        let name = slice_to_vec(slice_subrange(bytes.as_slice(), 4, 4 + filename_size));
        let filename = match String::from_utf8(name) {
            Ok(filename) => filename,
            Err(_) => return None,
        };
        let filesize = u64_from_le(bytes.as_slice(), 4 + filename_size);
        proof {
            encode_utf8_decode_utf8(filename@);
        }
        Some(Box::new(Self { filename, filesize }))
    }
}

/// Accepts the transfer that was asked for.
#[derive(Debug, PartialEq, Eq)]
pub struct FileTransferAcceptMessage {}

impl Clone for FileTransferAcceptMessage {
    fn clone(&self) -> (r: Self)
        ensures
            r.as_message() == self.as_message(),
    {
        Self {  }
    }
}

impl Message for FileTransferAcceptMessage {
    const ID: u32 = 4;

    open spec fn as_message(&self) -> MessagesView {
        MessagesView::FileTransferAccept
    }

    fn get_data(&self) -> (data: Vec<u8>) {
        Vec::new()
    }

    fn from_bytes(bytes: Vec<u8>) -> (r: Option<Box<Self>>) {
        Some(Box::new(Self {  }))
    }
}

/// Opens a part: its size in bytes, the size of its chunks, its number, and
/// the number of its chunks.
#[derive(Debug, PartialEq, Eq)]
pub struct PartBeginMessage {
    pub part_size: u32,
    pub chunk_size: u32,
    pub part_number: u32,
    pub chunk_count: u32,
}

impl Clone for PartBeginMessage {
    fn clone(&self) -> (r: Self)
        ensures
            r.as_message() == self.as_message(),
    {
        Self {
            part_size: self.part_size,
            chunk_size: self.chunk_size,
            part_number: self.part_number,
            chunk_count: self.chunk_count,
        }
    }
}

impl Message for PartBeginMessage {
    const ID: u32 = 5;

    open spec fn as_message(&self) -> MessagesView {
        MessagesView::PartBegin {
            part_size: self.part_size,
            chunk_size: self.chunk_size,
            part_number: self.part_number,
            chunk_count: self.chunk_count,
        }
    }

    fn get_data(&self) -> (data: Vec<u8>) {
        let mut buf = BytesMut::new();
        buf.extend_from_slice(u32_to_le(self.part_size).as_slice());
        buf.extend_from_slice(u32_to_le(self.chunk_size).as_slice());
        buf.extend_from_slice(u32_to_le(self.part_number).as_slice());
        buf.extend_from_slice(u32_to_le(self.chunk_count).as_slice());
        buffer_to_vec(&buf)
    }

    fn from_bytes(bytes: Vec<u8>) -> (r: Option<Box<Self>>) {
        if bytes.len() < 4 * 4 {
            return None;
        }
        let part_size = u32_from_le(bytes.as_slice(), 0);
        let chunk_size = u32_from_le(bytes.as_slice(), 4);
        let part_number = u32_from_le(bytes.as_slice(), 8);
        let chunk_count = u32_from_le(bytes.as_slice(), 12);
        Some(Box::new(Self { part_size, chunk_size, part_number, chunk_count }))
    }
}

/// One chunk of a part: its index within the part, the number of the part,
/// and its bytes.
#[derive(Debug, PartialEq, Eq)]
pub struct ChunkMessage {
    pub index: u32,
    pub part_number: u32,
    pub data: Vec<u8>,
}

impl Clone for ChunkMessage {
    fn clone(&self) -> (r: Self)
        ensures
            r.as_message() == self.as_message(),
    {
        Self { index: self.index, part_number: self.part_number, data: self.data.clone() }
    }
}

impl Message for ChunkMessage {
    const ID: u32 = 6;

    open spec fn as_message(&self) -> MessagesView {
        MessagesView::Chunk { index: self.index, part_number: self.part_number, data: self.data@ }
    }

    fn get_data(&self) -> (data: Vec<u8>) {
        let mut buf = BytesMut::new();
        buf.extend_from_slice(u32_to_le(self.index).as_slice());
        buf.extend_from_slice(u32_to_le(self.part_number).as_slice());
        buf.extend_from_slice(self.data.as_slice());
        buffer_to_vec(&buf)
    }

    fn from_bytes(bytes: Vec<u8>) -> (r: Option<Box<Self>>) {
        if bytes.len() < 8 {
            return None;
        }
        let index = u32_from_le(bytes.as_slice(), 0);
        let part_number = u32_from_le(bytes.as_slice(), 4);
        let data = slice_to_vec(slice_subrange(bytes.as_slice(), 8, bytes.len()));
        Some(Box::new(Self { index, data, part_number }))
    }
}

/// Closes a burst of chunks: the receiver answers with what it has.
#[derive(Debug, PartialEq, Eq)]
pub struct PartEndMessage {}

impl Clone for PartEndMessage {
    fn clone(&self) -> (r: Self)
        ensures
            r.as_message() == self.as_message(),
    {
        Self {  }
    }
}

impl Message for PartEndMessage {
    const ID: u32 = 7;

    open spec fn as_message(&self) -> MessagesView {
        MessagesView::PartEnd
    }

    fn get_data(&self) -> (data: Vec<u8>) {
        Vec::new()
    }

    fn from_bytes(bytes: Vec<u8>) -> (r: Option<Box<Self>>) {
        Some(Box::new(Self {  }))
    }
}

/// Reports which chunks of the part have arrived: bit `i` is set where
/// chunk `i` has.
#[derive(Debug, PartialEq, Eq)]
pub struct TransferIncompleteMessage {
    pub bitfield: Bitfield,
}

impl Clone for TransferIncompleteMessage {
    fn clone(&self) -> (r: Self)
        ensures
            r.as_message() == self.as_message(),
    {
        Self { bitfield: self.bitfield.clone() }
    }
}

impl Message for TransferIncompleteMessage {
    const ID: u32 = 8;

    open spec fn as_message(&self) -> MessagesView {
        MessagesView::TransferIncomplete { bitfield: self.bitfield@ }
    }

    fn get_data(&self) -> (data: Vec<u8>) {
        self.bitfield.get_bytes().clone()
    }

    fn from_bytes(bytes: Vec<u8>) -> (r: Option<Box<Self>>) {
        let bitfield = Bitfield::from_bytes(bytes);
        Some(Box::new(Self { bitfield }))
    }
}

/// Reports that every chunk of the part has arrived.
#[derive(Debug, PartialEq, Eq)]
pub struct TransferSuccessfulMessage {}

impl Clone for TransferSuccessfulMessage {
    fn clone(&self) -> (r: Self)
        ensures
            r.as_message() == self.as_message(),
    {
        Self {  }
    }
}

impl Message for TransferSuccessfulMessage {
    const ID: u32 = 9;

    open spec fn as_message(&self) -> MessagesView {
        MessagesView::TransferSuccessful
    }

    fn get_data(&self) -> (data: Vec<u8>) {
        Vec::new()
    }

    fn from_bytes(bytes: Vec<u8>) -> (r: Option<Box<Self>>) {
        Some(Box::new(Self {  }))
    }
}

/// Ends the session, with a few words for the user.
#[derive(Debug, PartialEq, Eq)]
pub struct GoodbyeMessage {
    pub motd: String,
}

impl Clone for GoodbyeMessage {
    fn clone(&self) -> (r: Self)
        ensures
            r.as_message() == self.as_message(),
    {
        Self { motd: self.motd.clone() }
    }
}

impl Message for GoodbyeMessage {
    const ID: u32 = 11;

    open spec fn as_message(&self) -> MessagesView {
        MessagesView::Goodbye { motd: self.motd@ }
    }

    fn get_data(&self) -> (data: Vec<u8>) {
        let mut buf = BytesMut::new();
        let motd_buffer = self.motd.as_str().as_bytes();
        let prefix = u32_to_le((motd_buffer.len() as u64 % 0x1_0000_0000) as u32);
        buf.extend_from_slice(prefix.as_slice());
        buf.extend_from_slice(motd_buffer);
        buffer_to_vec(&buf)
    }

    fn from_bytes(bytes: Vec<u8>) -> (r: Option<Box<Self>>) {
        if bytes.len() < 4 {
            return None;
        }
        let motd_size = u32_from_le(bytes.as_slice(), 0) as usize;
        if bytes.len() - 4 < motd_size {
            return None;
        }
        let text = slice_to_vec(slice_subrange(bytes.as_slice(), 4, 4 + motd_size));
        let motd = match String::from_utf8(text) {
            Ok(motd) => motd,
            Err(_) => return None,
        };
        proof {
            encode_utf8_decode_utf8(motd@);
        }
        Some(Box::new(Self { motd }))
    }
}

/// A message under the index by which the overlay acknowledges it and
/// tells repeats apart.
#[derive(Debug, PartialEq, Eq)]
pub struct ReliableMessage {
    pub packet_index: u32,
    pub message: Box<Messages>,
}

impl Clone for ReliableMessage {
    fn clone(&self) -> (r: Self)
        ensures
            r.as_message() == self.as_message(),
    {
        Self { packet_index: self.packet_index, message: Box::new(self.message.duplicate()) }
    }
}

impl Message for ReliableMessage {
    const ID: u32 = 0;

    open spec fn as_message(&self) -> MessagesView {
        MessagesView::Reliable { packet_index: self.packet_index, message: Box::new(self.message@) }
    }

    fn get_data(&self) -> (data: Vec<u8>)
        decreases self,
    {
        let mut buf: Vec<u8> = u32_to_le(self.packet_index);
        let mut inner = self.message.get_bytes();
        buf.append(&mut inner);
        buf
    }

    fn from_bytes(bytes: Vec<u8>) -> (r: Option<Box<Self>>) {
        if bytes.len() < 8 {
            return None;
        }
        let index = u32_from_le(bytes.as_slice(), 0);
        let inner_id = u32_from_le(bytes.as_slice(), 4);
        if inner_id < 2 {
            return None;
        }
        let rest = slice_to_vec(slice_subrange(bytes.as_slice(), 8, bytes.len()));
        let message = Messages::decode_plain(inner_id, rest)?;
        Some(Box::new(Self { packet_index: index, message: Box::new(message) }))
    }
}

/// A message of any kind.
#[derive(Debug, PartialEq, Eq)]
pub enum Messages {
    Reliable(ReliableMessage),
    ReliableAck(ReliableAckMessage),
    Ping(PingMessage),
    FileTransferRequest(FileTransferRequestMessage),
    FileTransferAccept(FileTransferAcceptMessage),
    PartBegin(PartBeginMessage),
    Chunk(ChunkMessage),
    PartEnd(PartEndMessage),
    TransferIncomplete(TransferIncompleteMessage),
    TransferSuccessful(TransferSuccessfulMessage),
    Goodbye(GoodbyeMessage),
}

impl Clone for Messages {
    fn clone(&self) -> (r: Self)
        ensures
            r@ == self@,
    {
        self.duplicate()
    }
}

impl View for Messages {
    type V = MessagesView;

    open spec fn view(&self) -> MessagesView {
        self.as_message()
    }
}

impl Messages {
    /// The protocol message that this value stands for.
    pub open spec fn as_message(&self) -> MessagesView
        decreases self,
    {
        match self {
            Messages::Reliable(a) => MessagesView::Reliable {
                packet_index: a.packet_index,
                message: Box::new(a.message.as_message()),
            },
            Messages::ReliableAck(a) => a.as_message(),
            Messages::Ping(a) => a.as_message(),
            Messages::FileTransferRequest(a) => a.as_message(),
            Messages::FileTransferAccept(a) => a.as_message(),
            Messages::PartBegin(a) => a.as_message(),
            Messages::Chunk(a) => a.as_message(),
            Messages::PartEnd(a) => a.as_message(),
            Messages::TransferIncomplete(a) => a.as_message(),
            Messages::TransferSuccessful(a) => a.as_message(),
            Messages::Goodbye(a) => a.as_message(),
        }
    }

    /// A copy of this message.
    fn duplicate(&self) -> (r: Self)
        ensures
            r@ == self@,
        decreases self,
    {
        match self {
            Messages::Reliable(a) => Messages::Reliable(
                ReliableMessage {
                    packet_index: a.packet_index,
                    message: Box::new(a.message.duplicate()),
                },
            ),
            Messages::ReliableAck(a) => Messages::ReliableAck(a.clone()),
            Messages::Ping(a) => Messages::Ping(a.clone()),
            Messages::FileTransferRequest(a) => Messages::FileTransferRequest(a.clone()),
            Messages::FileTransferAccept(a) => Messages::FileTransferAccept(a.clone()),
            Messages::PartBegin(a) => Messages::PartBegin(a.clone()),
            Messages::Chunk(a) => Messages::Chunk(a.clone()),
            Messages::PartEnd(a) => Messages::PartEnd(a.clone()),
            Messages::TransferIncomplete(a) => Messages::TransferIncomplete(a.clone()),
            Messages::TransferSuccessful(a) => Messages::TransferSuccessful(a.clone()),
            Messages::Goodbye(a) => Messages::Goodbye(a.clone()),
        }
    }

    /// The datagram that carries this message.
    pub fn get_bytes(&self) -> (bytes: Vec<u8>)
        ensures
            bytes@ == encoding(self@),
        decreases self,
    {
        match self {
            Messages::Reliable(a) => {
                let mut buf: Vec<u8> = u32_to_le(ReliableMessage::ID);
                let mut data = a.get_data();
                buf.append(&mut data);
                buf
            },
            Messages::ReliableAck(a) => a.get_bytes(),
            Messages::Ping(a) => a.get_bytes(),
            Messages::FileTransferRequest(a) => a.get_bytes(),
            Messages::FileTransferAccept(a) => a.get_bytes(),
            Messages::PartBegin(a) => a.get_bytes(),
            Messages::Chunk(a) => a.get_bytes(),
            Messages::PartEnd(a) => a.get_bytes(),
            Messages::TransferIncomplete(a) => a.get_bytes(),
            Messages::TransferSuccessful(a) => a.get_bytes(),
            Messages::Goodbye(a) => a.get_bytes(),
        }
    }

    /// The message with identifier `id`, other than a `Reliable`, whose
    /// payload starts `rest`.
    pub fn decode_plain(id: u32, rest: Vec<u8>) -> (r: Option<Messages>)
        ensures
            match r {
                Some(m) => parse_plain(id, rest@) == Some(m@),
                None => parse_plain(id, rest@) is None,
            },
    {
        let message = match id {
            1 => Messages::ReliableAck(*(ReliableAckMessage::from_bytes(rest)?)),
            2 => Messages::Ping(*(PingMessage::from_bytes(rest)?)),
            3 => Messages::FileTransferRequest(*(FileTransferRequestMessage::from_bytes(rest)?)),
            4 => Messages::FileTransferAccept(*(FileTransferAcceptMessage::from_bytes(rest)?)),
            5 => Messages::PartBegin(*(PartBeginMessage::from_bytes(rest)?)),
            6 => Messages::Chunk(*(ChunkMessage::from_bytes(rest)?)),
            7 => Messages::PartEnd(*(PartEndMessage::from_bytes(rest)?)),
            8 => Messages::TransferIncomplete(*(TransferIncompleteMessage::from_bytes(rest)?)),
            9 => Messages::TransferSuccessful(*(TransferSuccessfulMessage::from_bytes(rest)?)),
            11 => Messages::Goodbye(*(GoodbyeMessage::from_bytes(rest)?)),
            _ => return None,
        };
        Some(message)
    }

    /// The message that the datagram `src` carries.
    ///
    /// Fails with "Invalid packet ID" where the first four bytes name no kind
    /// of message, and with "Invalid data" where `src` ends before the message
    /// does or its payload is malformed.
    pub fn decode(src: &[u8]) -> (r: Result<Messages, Error>)
        ensures
            match r {
                Ok(m) => decoding(src@) == Ok::<MessagesView, DecodeError>(m@),
                Err(e) => decoding(src@) is Err && e@ == decoding(src@)->Err_0.text(),
            },
    {
        if src.len() < 4 {
            return Err(Error::new("Invalid data"));
        }
        let message_id = u32_from_le(src, 0);
        let rest = slice_to_vec(slice_subrange(src, 4, src.len()));
        let message = if message_id == 0 {
            match ReliableMessage::from_bytes(rest) {
                Some(m) => Some(Messages::Reliable(*m)),
                None => None,
            }
        } else if message_id <= 9 || message_id == 11 {
            Messages::decode_plain(message_id, rest)
        } else {
            return Err(Error::new("Invalid packet ID"));
        };
        match message {
            Some(m) => Ok(m),
            None => Err(Error::new("Invalid data")),
        }
    }
}

} // verus!
