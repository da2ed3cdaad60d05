//! The address of a peer as it travels inside a payload: 26 bytes.

use crate::wire::{
    be_bytes16, be_value16, get_be16, get_le, le_bytes, le_value, lemma_le_bytes_of_value,
    lemma_le_round_trip, lemma_le_value_bound, lemma_radix_values, put_be16, put_le, DecodeError,
};
use crate::{Deserialize, Serialize};
use vstd::prelude::*;

verus! {

/// An Internet Protocol address of either family, by its octets.
#[derive(Debug, Clone, Copy)]
pub enum IpAddress {
    /// The four octets of a version 4 address.
    V4([u8; 4]),
    /// The sixteen octets of a version 6 address.
    V6([u8; 16]),
}

/// The sixteen bytes of the IPv4-mapped address `::ffff:a.b.c.d`.
pub open spec fn ipv4_mapped(octets: Seq<u8>) -> Seq<u8> {
    seq![0u8, 0u8, 0u8, 0u8, 0u8, 0u8, 0u8, 0u8, 0u8, 0u8, 0xFFu8, 0xFFu8] + octets
}

impl IpAddress {
    /// The sixteen bytes under which the address is stored and sent: a
    /// version 4 address in its mapped form, a version 6 address as it is.
    pub open spec fn normalized(self) -> Seq<u8> {
        match self {
            IpAddress::V4(octets) => ipv4_mapped(octets@),
            IpAddress::V6(octets) => octets@,
        }
    }
}

/// What a `NetworkAddress` holds.
pub struct NetworkAddressView {
    /// Bitmask of the services that the node offers.
    pub services: u64,
    /// The address in its sixteen-byte form.
    pub address: Seq<u8>,
    /// The port on which the node listens.
    pub port: u16,
}

impl NetworkAddressView {
    /// The address part has its fixed size.
    pub open spec fn well_formed(self) -> bool {
        self.address.len() == 16
    }
}

/// Size of an address on the wire.
pub const ADDRESS_SIZE: usize = 26;

/// The bytes of an address: services little-endian, the sixteen address
/// bytes as they are, the port in network byte order.
pub open spec fn address_wire(model: NetworkAddressView) -> Seq<u8> {
    le_bytes(model.services as nat, 8) + model.address + be_bytes16(model.port)
}

/// The address that the first 26 bytes of `input` spell out.
pub open spec fn address_of(input: Seq<u8>) -> NetworkAddressView
    recommends
        input.len() >= 26,
{
    NetworkAddressView {
        services: le_value(input.subrange(0, 8)) as u64,
        address: input.subrange(8, 24),
        port: be_value16(input.subrange(24, 26)),
    }
}

/// The address at the front of `input`. The bytes are not inspected: any 26
/// bytes make an address.
pub open spec fn parse_address(input: Seq<u8>) -> Result<(NetworkAddressView, nat), DecodeError> {
    if input.len() < 26 {
        Err(DecodeError::UnexpectedEof)
    } else {
        Ok((address_of(input), 26nat))
    }
}

/// Network address of a node, including the listening port and services.
#[derive(Debug, Clone, Copy)]
pub struct NetworkAddress {
    services: u64,
    ip_v6: [u8; 16],
    port: u16,
}

impl View for NetworkAddress {
    type V = NetworkAddressView;

    closed spec fn view(&self) -> NetworkAddressView {
        NetworkAddressView { services: self.services, address: self.ip_v6@, port: self.port }
    }
}

impl NetworkAddress {
    /// Create a new `NetworkAddress` object.
    pub fn new(services: u64, ip_address: IpAddress, port: u16) -> (address: Self)
        ensures
            address@ == (NetworkAddressView {
                services,
                address: ip_address.normalized(),
                port,
            }),
            address@.well_formed(),
    {
        let ip_v6: [u8; 16] = match ip_address {
            IpAddress::V4(o) => [0, 0, 0, 0, 0, 0, 0, 0, 0, 0, 0xFF, 0xFF, o[0], o[1], o[2], o[3]],
            IpAddress::V6(o) => o,
        };
        assert(ip_v6@ =~= ip_address.normalized());
        NetworkAddress { services, ip_v6, port }
    }

    /// Bitmask of the services that the node offers.
    pub fn services(&self) -> (services: u64)
        ensures
            services == self@.services,
    {
        self.services
    }

    /// The address in its sixteen-byte form.
    pub fn address(&self) -> (address: [u8; 16])
        ensures
            address@ == self@.address,
    {
        self.ip_v6
    }

    /// The port on which the node listens.
    pub fn port(&self) -> (port: u16)
        ensures
            port == self@.port,
    {
        self.port
    }

    /// Every value holds a sixteen-byte address.
    pub proof fn lemma_well_formed(&self)
        ensures
            self@.well_formed(),
    {
    }
}

impl Deserialize for NetworkAddress {
    open spec fn wire(model: NetworkAddressView) -> Seq<u8> {
        address_wire(model)
    }

    /// The 26 bytes of the address. Decoding them gives this address back.
    fn to_bytes(&self) -> (buffer: Vec<u8>)
        ensures
            Self::parse(buffer@) == Ok::<(NetworkAddressView, nat), DecodeError>((self@, 26nat)),
    {
        let mut buffer: Vec<u8> = Vec::with_capacity(ADDRESS_SIZE);
        put_le(&mut buffer, self.services, 8);
        buffer.extend_from_slice(self.ip_v6.as_slice());
        assert(buffer@ =~= le_bytes(self.services as nat, 8) + self.ip_v6@);
        put_be16(&mut buffer, self.port);
        proof {
            lemma_address_round_trip(self@, Seq::empty());
            assert(buffer@ + Seq::<u8>::empty() =~= buffer@);
        }
        buffer
    }
}

impl Serialize for NetworkAddress {
    open spec fn parse(input: Seq<u8>) -> Result<(NetworkAddressView, nat), DecodeError> {
        parse_address(input)
    }

    /// Read the 26 bytes at the front of `input`, in the byte orders in
    /// which `to_bytes` writes them.
    fn from_bytes(input: &[u8]) -> (decoded: Result<(Self, usize), DecodeError>) {
        if input.len() < ADDRESS_SIZE {
            return Err(DecodeError::UnexpectedEof);
        }
        let services: u64 = get_le(input, 0, 8);
        let ip_v6: [u8; 16] = [
            input[8],
            input[9],
            input[10],
            input[11],
            input[12],
            input[13],
            input[14],
            input[15],
            input[16],
            input[17],
            input[18],
            input[19],
            input[20],
            input[21],
            input[22],
            input[23],
        ];
        let port: u16 = get_be16(input, 24);
        assert(ip_v6@ =~= input@.subrange(8, 24));
        Ok((NetworkAddress { services, ip_v6, port }, ADDRESS_SIZE))
    }
}

/// Decoding the encoding of an address gives the address back, services,
/// address bytes and port alike, and consumes its 26 bytes, whatever follows.
pub proof fn lemma_address_round_trip(model: NetworkAddressView, rest: Seq<u8>)
    requires
        model.well_formed(),
    ensures
        NetworkAddress::wire(model).len() == 26,
        NetworkAddress::parse(NetworkAddress::wire(model) + rest) == Ok::<
            (NetworkAddressView, nat),
            DecodeError,
        >((model, 26nat)),
{
    lemma_radix_values();
    lemma_le_round_trip(model.services as nat, 8);
    let input = address_wire(model) + rest;
    assert(input.subrange(0, 8) =~= le_bytes(model.services as nat, 8));
    assert(input.subrange(8, 24) =~= model.address);
    assert(input.subrange(24, 26) =~= be_bytes16(model.port));
}

/// An address has one encoding only: encoding what was decoded gives the 26
/// bytes that were read.
pub proof fn lemma_address_reencode(input: Seq<u8>)
    requires
        input.len() >= 26,
    ensures
        NetworkAddress::parse(input) matches Ok((model, used)) && model.well_formed()
            && NetworkAddress::wire(model) == input.subrange(0, 26),
{
    lemma_radix_values();
    lemma_le_value_bound(input.subrange(0, 8));
    lemma_le_bytes_of_value(input.subrange(0, 8));
    let model = address_of(input);
    assert(be_bytes16(model.port) =~= input.subrange(24, 26));
    assert(address_wire(model) =~= input.subrange(0, 26));
}

/// Fewer than 26 bytes never make an address.
pub proof fn lemma_address_cut_short(input: Seq<u8>)
    requires
        input.len() < 26,
    ensures
        NetworkAddress::parse(input) == Err::<(NetworkAddressView, nat), DecodeError>(
            DecodeError::UnexpectedEof,
        ),
{
}

} // verus!
