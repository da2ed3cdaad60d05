//! Wire codec for the opening handshake of a Bitcoin-style peer-to-peer
//! connection: the message header, the network address, the compact-length
//! string and the version payload, with the double-hash checksum that ties a
//! payload to its header.
//!
//! Every encoder states the exact bytes it produces and every decoder states
//! the exact value, or the exact error, it returns for any input.

use vstd::prelude::*;

pub mod checksum;
pub mod message;
pub mod network_address;
pub mod variable_string;
pub mod version;
pub mod wire;

pub use message::{Message, MAGIC_NUMBER};
pub use network_address::{IpAddress, NetworkAddress};
pub use variable_string::VarStr;
pub use version::Version;
pub use wire::DecodeError;

verus! {

/// Gives the binary representation of a value.
pub trait Deserialize: View {
    /// The bytes that stand for a value with the given model.
    spec fn wire(model: Self::V) -> Seq<u8>;

    /// Get a binary representation of the object.
    fn to_bytes(&self) -> (buffer: Vec<u8>)
        ensures
            buffer@ == Self::wire(self@),
    ;
}

/// Builds a value from its binary representation.
pub trait Serialize: Sized + View {
    /// What decoding the front of `input` gives: the model of the value and
    /// the number of bytes it took, or the reason why there is none.
    spec fn parse(input: Seq<u8>) -> Result<(Self::V, nat), DecodeError>;

    /// Decode one value from the front of `input`; on success the second
    /// component is the number of bytes that were consumed.
    fn from_bytes(input: &[u8]) -> (decoded: Result<(Self, usize), DecodeError>)
        ensures
            match Self::parse(input@) {
                Ok((model, used)) => decoded matches Ok((value, taken)) && value@ == model
                    && taken == used && used <= input@.len(),
                Err(reason) => decoded matches Err(e) && e == reason,
            },
    ;
}

} // verus!
