//! The code that two peers exchange: an IPv4 address and a port in Base58.

use crate::base58::{base58_bytes, base58_text, decode, encode};
use crate::error::Error;
use crate::wire::{le_u16, lemma_u16_round_trip, u16_from_le, u16_le, u16_to_le};
use vstd::prelude::*;

verus! {

/// An IPv4 address and a port.
#[derive(Clone, Copy, Debug, PartialEq, Eq)]
pub struct SocketAddress {
    /// The four octets of the address, in network order.
    pub octets: [u8; 4],
    pub port: u16,
}

/// The six bytes of an address: its octets in network order, then the port,
/// low byte first.
pub open spec fn address_bytes(address: SocketAddress) -> Seq<u8> {
    address.octets@ + u16_le(address.port)
}

/// The address that the first six bytes of `bytes` hold.
pub open spec fn bytes_address(bytes: Seq<u8>) -> SocketAddress
    recommends
        bytes.len() >= 6,
{
    SocketAddress {
        octets: [bytes[0], bytes[1], bytes[2], bytes[3]],
        port: le_u16(bytes.skip(4)),
    }
}

/// The code of an address: the Base58 text of its six bytes.
pub open spec fn address_code(address: SocketAddress) -> Seq<char> {
    base58_text(address_bytes(address))
}

/// What parsing `code` gives.
pub enum CodeParse {
    /// `code` is not Base58.
    NotBase58,
    /// `code` is the Base58 text of other than six bytes.
    InvalidSize,
    /// `code` is the code of this address.
    Address(SocketAddress),
}

/// What `code` parses to.
pub open spec fn code_parse(code: Seq<char>) -> CodeParse {
    match base58_bytes(code) {
        None => CodeParse::NotBase58,
        Some(bytes) => if bytes.len() != 6 {
            CodeParse::InvalidSize
        } else {
            CodeParse::Address(bytes_address(bytes))
        },
    }
}

/// Reading the six bytes of an address gives the address back.
pub proof fn lemma_address_bytes_round_trip(address: SocketAddress)
    ensures
        address_bytes(address).len() == 6,
        bytes_address(address_bytes(address)) == address,
{
    let bytes = address_bytes(address);
    lemma_u16_round_trip(address.port);
    assert(bytes_address(bytes).octets =~= address.octets);
}

/// Whether `r` is what parsing `code` gives: the address where `code` is
/// the code of one, an error whose message starts "Base58 error: " where
/// `code` is not Base58, and the error "Invalid size" where `code` stands
/// for other than six bytes.
pub open spec fn parsed_as(code: Seq<char>, r: Result<AddressInfo, Error>) -> bool {
    match r {
        Ok(info) => code_parse(code) == CodeParse::Address(info.address),
        Err(e) => match code_parse(code) {
            CodeParse::NotBase58 => "Base58 error: "@.is_prefix_of(e@),
            CodeParse::InvalidSize => e@ == "Invalid size"@,
            CodeParse::Address(_) => false,
        },
    }
}

/// The address of a peer, as it goes into and comes out of a code.
#[derive(Clone, Copy, Debug, PartialEq, Eq)]
pub struct AddressInfo {
    pub address: SocketAddress,
}

impl AddressInfo {
    /// The information for the address `socket`.
    pub fn new(socket: SocketAddress) -> (r: Self)
        ensures
            r.address == socket,
    {
        Self { address: socket }
    }

    /// The address that the first six bytes of `b` hold. Fails with "Invalid
    /// data" exactly where `b` holds fewer than six bytes.
    pub fn from_bytes(b: Vec<u8>) -> (r: Result<Self, Error>)
        ensures
            match r {
                Ok(info) => b@.len() >= 6 && info.address == bytes_address(b@),
                Err(e) => b@.len() < 6 && e@ == "Invalid data"@,
            },
    {
        if b.len() < 6 {
            return Err(Error::new("Invalid data"));
        }
        let octets = [b[0], b[1], b[2], b[3]];
        let port = u16_from_le(b.as_slice(), 4);
        Ok(AddressInfo { address: SocketAddress { octets, port } })
    }

    /// The six bytes of the address.
    pub fn to_bytes(&self) -> (r: Vec<u8>)
        ensures
            r@ == address_bytes(self.address),
    {
        let mut buf: Vec<u8> = Vec::new();
        buf.push(self.address.octets[0]);
        buf.push(self.address.octets[1]);
        buf.push(self.address.octets[2]);
        buf.push(self.address.octets[3]);
        let mut port = u16_to_le(self.address.port);
        buf.append(&mut port);
        buf
    }

    /// The address whose code is `s`.
    ///
    /// Fails with a message that starts "Base58 error: " where `s` is not
    /// Base58, and with "Invalid size" where it stands for other than six
    /// bytes.
    pub fn from_str(s: &str) -> (r: Result<Self, Error>)
        ensures
            parsed_as(s@, r),
    {
        let byte_data = match decode(s) {
            Ok(bytes) => bytes,
            Err(cause) => {
                let error = Error::with_cause("Base58 error", cause.as_str());
                proof {
                    reveal_strlit("Base58 error");
                    reveal_strlit(": ");
                    reveal_strlit("Base58 error: ");
                }
                return Err(error);
            },
        };
        if byte_data.len() != 6 {
            return Err(Error::new("Invalid size"));
        }
        AddressInfo::from_bytes(byte_data)
    }

    /// The code of the address. Parsing the code gives the address back.
    pub fn to_string(&self) -> (code: String)
        ensures
            code@ == address_code(self.address),
            code_parse(code@) == CodeParse::Address(self.address),
    {
        let bytes = self.to_bytes();
        proof {
            lemma_address_bytes_round_trip(self.address);
        }
        encode(bytes.as_slice())
    }
}

impl core::str::FromStr for AddressInfo {
    type Err = Error;

    /// The address whose code is `s`, as the inherent `from_str` gives it.
    fn from_str(s: &str) -> (r: Result<Self, Error>)
        ensures
            parsed_as(s@, r),
    {
        AddressInfo::from_str(s)
    }
}

} // verus!
