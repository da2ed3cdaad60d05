//! The payload that opens a connection.

use crate::checksum::{checksum, checksum_of};
use crate::network_address::{
    address_of, address_wire, lemma_address_round_trip, NetworkAddress, NetworkAddressView,
};
use crate::variable_string::{lemma_text_round_trip, parse_text, text_wire, VarStr};
use crate::wire::{
    bits_of_i32, bits_of_i64, get_le, i32_from_bits, i32_of_bits, i32_to_bits, i64_from_bits,
    i64_of_bits, i64_to_bits, le_bytes, le_value, lemma_le_round_trip, lemma_radix_values, put_le,
    radix, DecodeError,
};
use crate::{Deserialize, Serialize};
use vstd::prelude::*;
use vstd::slice::slice_subrange;
use vstd::utf8::encode_utf8;

verus! {

/// What a `Version` holds.
pub struct VersionView {
    /// Protocol version that the node speaks.
    pub version: i32,
    /// Bitmask of the services that the node offers.
    pub services: u64,
    /// Seconds since the epoch at which the message was made.
    pub timestamp: i64,
    /// Address of the node that receives the message.
    pub addr_recv: NetworkAddressView,
    /// Address of the node that sends it.
    pub addr_from: NetworkAddressView,
    /// Number drawn once per message, to detect a connection to oneself.
    pub nonce: u64,
    /// Name and version of the sender's software.
    pub user_agent: Seq<char>,
    /// Last block that the sender has.
    pub start_height: i32,
}

impl VersionView {
    /// Both addresses have their fixed size and the user agent's length fits
    /// the widest length marker.
    pub open spec fn well_formed(self) -> bool {
        &&& self.addr_recv.well_formed()
        &&& self.addr_from.well_formed()
        &&& encode_utf8(self.user_agent).len() < radix(8)
    }
}

/// Number of bytes before the user agent.
pub const FIXED_PART: usize = 80;

/// The bytes of a payload: its fields in their fixed order, the numbers
/// little-endian and the signed ones in two's complement.
pub open spec fn version_wire(model: VersionView) -> Seq<u8> {
    le_bytes(bits_of_i32(model.version) as nat, 4) + le_bytes(model.services as nat, 8) + le_bytes(
        bits_of_i64(model.timestamp) as nat,
        8,
    ) + address_wire(model.addr_recv) + address_wire(model.addr_from) + le_bytes(
        model.nonce as nat,
        8,
    ) + text_wire(model.user_agent) + le_bytes(bits_of_i32(model.start_height) as nat, 4)
}

/// The payload at the front of `input`.
pub open spec fn parse_version(input: Seq<u8>) -> Result<(VersionView, nat), DecodeError> {
    if input.len() < 80 {
        Err(DecodeError::UnexpectedEof)
    } else {
        match parse_text(input.subrange(80, input.len() as int)) {
            Err(reason) => Err(reason),
            Ok((user_agent, used)) => {
                if input.len() < 80 + used + 4 {
                    Err(DecodeError::UnexpectedEof)
                } else {
                    Ok(
                        (
                            VersionView {
                                version: i32_of_bits(le_value(input.subrange(0, 4)) as u32),
                                services: le_value(input.subrange(4, 12)) as u64,
                                timestamp: i64_of_bits(le_value(input.subrange(12, 20)) as u64),
                                addr_recv: address_of(input.subrange(20, 46)),
                                addr_from: address_of(input.subrange(46, 72)),
                                nonce: le_value(input.subrange(72, 80)) as u64,
                                user_agent,
                                start_height: i32_of_bits(
                                    le_value(
                                        input.subrange((80 + used) as int, (80 + used + 4) as int),
                                    ) as u32,
                                ),
                            },
                            80 + used + 4,
                        ),
                    )
                }
            },
        }
    }
}

/// A fresh 64-bit number from `rand::random`, which draws it from the
/// thread's generator, seeded by the operating system. Nothing is claimed of
/// the number: two calls may give any two values.
#[verifier::external_body]
fn random_nonce() -> (nonce: u64) {
    rand::random::<u64>()
}

/// Version message exchanged between nodes when initiating a new connection.
#[derive(Debug)]
pub struct Version {
    version: i32,
    services: u64,
    timestamp: i64,
    addr_recv: NetworkAddress,
    addr_from: NetworkAddress,
    nonce: u64,
    user_agent: VarStr,
    start_height: i32,
}

impl View for Version {
    type V = VersionView;

    closed spec fn view(&self) -> VersionView {
        VersionView {
            version: self.version,
            services: self.services,
            timestamp: self.timestamp,
            addr_recv: self.addr_recv@,
            addr_from: self.addr_from@,
            nonce: self.nonce,
            user_agent: self.user_agent@,
            start_height: self.start_height,
        }
    }
}

impl Version {
    /// Create a new version message to do the handshake between two nodes.
    /// The nonce is drawn afresh; every other field is as given.
    pub fn new(
        version: i32,
        services: u64,
        timestamp: i64,
        addr_recv: NetworkAddress,
        addr_from: NetworkAddress,
        user_agent: VarStr,
        start_height: i32,
    ) -> (message: Self)
        ensures
            message@ == (VersionView {
                version,
                services,
                timestamp,
                addr_recv: addr_recv@,
                addr_from: addr_from@,
                nonce: message@.nonce,
                user_agent: user_agent@,
                start_height,
            }),
    {
        let nonce: u64 = random_nonce();
        Self::with_nonce(
            version,
            services,
            timestamp,
            addr_recv,
            addr_from,
            nonce,
            user_agent,
            start_height,
        )
    }

    /// Create a version message around a nonce that the caller has drawn.
    pub fn with_nonce(
        version: i32,
        services: u64,
        timestamp: i64,
        addr_recv: NetworkAddress,
        addr_from: NetworkAddress,
        nonce: u64,
        user_agent: VarStr,
        start_height: i32,
    ) -> (message: Self)
        ensures
            message@ == (VersionView {
                version,
                services,
                timestamp,
                addr_recv: addr_recv@,
                addr_from: addr_from@,
                nonce,
                user_agent: user_agent@,
                start_height,
            }),
    {
        Self {
            version,
            services,
            timestamp,
            addr_recv,
            addr_from,
            nonce,
            user_agent,
            start_height,
        }
    }

    /// User agent used by the node.
    pub fn user_agent(&self) -> (text: &str)
        ensures
            text@ == self@.user_agent,
    {
        self.user_agent.text()
    }

    /// Generate the checksum to verify the integrity of this message: the
    /// checksum of its encoding.
    pub fn calculate_checksum(&self) -> (tag: u32)
        ensures
            tag == checksum_of(Self::wire(self@)),
    {
        let payload: Vec<u8> = self.to_bytes();
        checksum(payload.as_slice())
    }

    /// Protocol version that the node speaks.
    pub fn version(&self) -> (version: i32)
        ensures
            version == self@.version,
    {
        self.version
    }

    /// Bitmask of the services that the node offers.
    pub fn services(&self) -> (services: u64)
        ensures
            services == self@.services,
    {
        self.services
    }

    /// Seconds since the epoch at which the message was made.
    pub fn timestamp(&self) -> (timestamp: i64)
        ensures
            timestamp == self@.timestamp,
    {
        self.timestamp
    }

    /// Address of the node that receives the message.
    pub fn addr_recv(&self) -> (address: NetworkAddress)
        ensures
            address@ == self@.addr_recv,
    {
        self.addr_recv
    }

    /// Address of the node that sends the message.
    pub fn addr_from(&self) -> (address: NetworkAddress)
        ensures
            address@ == self@.addr_from,
    {
        self.addr_from
    }

    /// The number drawn when the message was made.
    pub fn nonce(&self) -> (nonce: u64)
        ensures
            nonce == self@.nonce,
    {
        self.nonce
    }

    /// Last block that the sender has.
    pub fn start_height(&self) -> (height: i32)
        ensures
            height == self@.start_height,
    {
        self.start_height
    }
}

impl Deserialize for Version {
    open spec fn wire(model: VersionView) -> Seq<u8> {
        version_wire(model)
    }

    /// The fields in their fixed order. Decoding the result gives every
    /// field back, the nonce included, and consumes all of it.
    fn to_bytes(&self) -> (buffer: Vec<u8>)
        ensures
            Self::parse(buffer@) == Ok::<(VersionView, nat), DecodeError>((self@, buffer@.len())),
    {
        let mut buffer: Vec<u8> = Vec::new();
        put_le(&mut buffer, i32_to_bits(self.version) as u64, 4);
        put_le(&mut buffer, self.services, 8);
        put_le(&mut buffer, i64_to_bits(self.timestamp), 8);
        let ghost head = buffer@;
        let addr_recv: Vec<u8> = self.addr_recv.to_bytes();
        buffer.extend_from_slice(addr_recv.as_slice());
        assert(buffer@ =~= head + address_wire(self.addr_recv@));
        let ghost head = buffer@;
        let addr_from: Vec<u8> = self.addr_from.to_bytes();
        buffer.extend_from_slice(addr_from.as_slice());
        assert(buffer@ =~= head + address_wire(self.addr_from@));
        put_le(&mut buffer, self.nonce, 8);
        let ghost head = buffer@;
        let user_agent: Vec<u8> = self.user_agent.to_bytes();
        buffer.extend_from_slice(user_agent.as_slice());
        assert(buffer@ =~= head + text_wire(self.user_agent@));
        put_le(&mut buffer, i32_to_bits(self.start_height) as u64, 4);
        proof {
            self.addr_recv.lemma_well_formed();
            self.addr_from.lemma_well_formed();
            lemma_radix_values();
            assert(encode_utf8(self.user_agent@).len() <= user_agent@.len());
            lemma_version_round_trip(self@, Seq::empty());
            assert(buffer@ + Seq::<u8>::empty() =~= buffer@);
        }
        buffer
    }
}

impl Serialize for Version {
    open spec fn parse(input: Seq<u8>) -> Result<(VersionView, nat), DecodeError> {
        parse_version(input)
    }

    /// Read the 80 bytes of the fixed part, the user agent and the start
    /// height. The nonce is the one that was sent; none is drawn here.
    fn from_bytes(input: &[u8]) -> (decoded: Result<(Self, usize), DecodeError>) {
        let total: usize = input.len();
        if total < FIXED_PART {
            return Err(DecodeError::UnexpectedEof);
        }
        proof {
            lemma_radix_values();
        }
        let version: i32 = i32_from_bits(get_le(input, 0, 4) as u32);
        let services: u64 = get_le(input, 4, 8);
        let timestamp: i64 = i64_from_bits(get_le(input, 12, 8));
        let addr_recv: NetworkAddress = match NetworkAddress::from_bytes(
            slice_subrange(input, 20, 46),
        ) {
            Ok((address, _)) => address,
            Err(reason) => {
                return Err(reason);
            },
        };
        let addr_from: NetworkAddress = match NetworkAddress::from_bytes(
            slice_subrange(input, 46, 72),
        ) {
            Ok((address, _)) => address,
            Err(reason) => {
                return Err(reason);
            },
        };
        let nonce: u64 = get_le(input, 72, 8);
        let (user_agent, used) = match VarStr::from_bytes(slice_subrange(input, 80, total)) {
            Ok(pair) => pair,
            Err(reason) => {
                return Err(reason);
            },
        };
        if total - FIXED_PART - used < 4 {
            return Err(DecodeError::UnexpectedEof);
        }
        let start_height: i32 = i32_from_bits(get_le(input, FIXED_PART + used, 4) as u32);
        Ok(
            (
                Version {
                    version,
                    services,
                    timestamp,
                    addr_recv,
                    addr_from,
                    nonce,
                    user_agent,
                    start_height,
                },
                FIXED_PART + used + 4,
            ),
        )
    }
}

/// Decoding the encoding of a payload gives every field back, the nonce
/// among them: it is the number that was encoded, not a new draw. Exactly the
/// encoding is consumed, whatever follows it.
pub proof fn lemma_version_round_trip(model: VersionView, rest: Seq<u8>)
    requires
        model.well_formed(),
    ensures
        Version::parse(Version::wire(model) + rest) == Ok::<(VersionView, nat), DecodeError>(
            (model, Version::wire(model).len()),
        ),
{
    let version = le_bytes(bits_of_i32(model.version) as nat, 4);
    let services = le_bytes(model.services as nat, 8);
    let timestamp = le_bytes(bits_of_i64(model.timestamp) as nat, 8);
    let addr_recv = address_wire(model.addr_recv);
    let addr_from = address_wire(model.addr_from);
    let nonce = le_bytes(model.nonce as nat, 8);
    let user_agent = text_wire(model.user_agent);
    let start_height = le_bytes(bits_of_i32(model.start_height) as nat, 4);
    let input = version_wire(model) + rest;
    let none = Seq::<u8>::empty();

    lemma_radix_values();
    lemma_le_round_trip(bits_of_i32(model.version) as nat, 4);
    lemma_le_round_trip(model.services as nat, 8);
    lemma_le_round_trip(bits_of_i64(model.timestamp) as nat, 8);
    lemma_le_round_trip(model.nonce as nat, 8);
    lemma_le_round_trip(bits_of_i32(model.start_height) as nat, 4);
    lemma_address_round_trip(model.addr_recv, none);
    lemma_address_round_trip(model.addr_from, none);
    lemma_text_round_trip(model.user_agent, start_height + rest);

    assert(input.subrange(0, 4) =~= version);
    assert(input.subrange(4, 12) =~= services);
    assert(input.subrange(12, 20) =~= timestamp);
    assert(input.subrange(20, 46) =~= addr_recv + none);
    assert(input.subrange(46, 72) =~= addr_from + none);
    assert(input.subrange(72, 80) =~= nonce);
    assert(input.subrange(80, input.len() as int) =~= user_agent + (start_height + rest));
    let used = user_agent.len();
    assert(input.subrange((80 + used) as int, (80 + used + 4) as int) =~= start_height);
}

} // verus!
