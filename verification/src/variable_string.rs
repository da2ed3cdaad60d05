//! Text prefixed by its byte length in the narrowest of four widths.

use crate::wire::{
    get_le, le_bytes, le_value, lemma_le_round_trip, lemma_radix_values, put_le, radix,
    text_from_utf8, DecodeError,
};
use crate::{Deserialize, Serialize};
use vstd::prelude::*;
use vstd::slice::{slice_subrange, slice_to_vec};
use vstd::utf8::{
    decode_utf8, decode_utf8_encode_utf8, encode_utf8, encode_utf8_decode_utf8,
    encode_utf8_valid_utf8, valid_utf8,
};

verus! {

/// The length marker for a body of `len` bytes: the length itself below
/// `0xFD`, else a marker byte and the length in 2, 4 or 8 little-endian bytes.
pub open spec fn length_prefix(len: nat) -> Seq<u8> {
    if len < 0xFD {
        seq![len as u8]
    } else if len <= 0xFFFF {
        seq![0xFDu8] + le_bytes(len, 2)
    } else if len <= 0xFFFF_FFFF {
        seq![0xFEu8] + le_bytes(len, 4)
    } else {
        seq![0xFFu8] + le_bytes(len, 8)
    }
}

/// How many length bytes follow a first byte `flag`; none where the byte is
/// the length itself.
pub open spec fn marker_width(flag: u8) -> nat {
    if flag == 0xFD {
        2
    } else if flag == 0xFE {
        4
    } else if flag == 0xFF {
        8
    } else {
        0
    }
}

/// The length that the front of `input` declares, and the number of bytes
/// that declare it.
pub open spec fn parse_length(input: Seq<u8>) -> Result<(nat, nat), DecodeError> {
    if input.len() < 1 {
        Err(DecodeError::UnexpectedEof)
    } else if marker_width(input[0]) == 0 {
        Ok((input[0] as nat, 1nat))
    } else if input.len() < 1 + marker_width(input[0]) {
        Err(DecodeError::UnexpectedEof)
    } else {
        Ok(
            (
                le_value(input.subrange(1, 1 + marker_width(input[0]) as int)),
                1 + marker_width(input[0]),
            ),
        )
    }
}

/// The text at the front of `input` and the number of bytes it occupies,
/// marker included.
pub open spec fn parse_text(input: Seq<u8>) -> Result<(Seq<char>, nat), DecodeError> {
    match parse_length(input) {
        Err(reason) => Err(reason),
        Ok((len, used)) => {
            if input.len() < used + len {
                Err(DecodeError::UnexpectedEof)
            } else if !valid_utf8(input.subrange(used as int, (used + len) as int)) {
                Err(DecodeError::InvalidUtf8)
            } else {
                Ok((decode_utf8(input.subrange(used as int, (used + len) as int)), used + len))
            }
        },
    }
}

/// The bytes that stand for `text`: the length marker of its UTF-8 form, then
/// that form.
pub open spec fn text_wire(text: Seq<char>) -> Seq<u8> {
    length_prefix(encode_utf8(text).len()) + encode_utf8(text)
}

/// A string representation of variable length.
#[derive(Debug)]
pub struct VarStr {
    data: String,
}

impl View for VarStr {
    type V = Seq<char>;

    closed spec fn view(&self) -> Seq<char> {
        self.data@
    }
}

impl Default for VarStr {
    /// The empty text.
    fn default() -> (empty: Self)
        ensures
            empty@ == Seq::<char>::empty(),
    {
        VarStr { data: String::new() }
    }
}

impl VarStr {
    /// Wrap `data` for the wire.
    pub fn new(data: String) -> (wrapped: Self)
        ensures
            wrapped@ == data@,
    {
        VarStr { data }
    }

    /// Text stored inside the string.
    pub fn text(&self) -> (text: &str)
        ensures
            text@ == self@,
    {
        self.data.as_str()
    }

    /// How many length bytes follow a first byte `flag`.
    pub fn length_width(flag: u8) -> (width: usize)
        ensures
            width == marker_width(flag),
    {
        if flag == 0xFD {
            2
        } else if flag == 0xFE {
            4
        } else if flag == 0xFF {
            8
        } else {
            0
        }
    }

    /// Read the declared length at the front of `input`, with the number of
    /// bytes that hold it.
    pub fn read_length(input: &[u8]) -> (declared: Result<(u64, usize), DecodeError>)
        ensures
            match parse_length(input@) {
                Ok((len, used)) => declared matches Ok((l, u)) && l == len && u == used && used
                    <= input@.len(),
                Err(reason) => declared matches Err(e) && e == reason,
            },
    {
        let total: usize = input.len();
        if total < 1 {
            return Err(DecodeError::UnexpectedEof);
        }
        let flag: u8 = input[0];
        let width: usize = Self::length_width(flag);
        if width == 0 {
            return Ok((flag as u64, 1));
        }
        if total - 1 < width {
            return Err(DecodeError::UnexpectedEof);
        }
        let len: u64 = get_le(input, 1, width);
        Ok((len, 1 + width))
    }
}

impl Deserialize for VarStr {
    open spec fn wire(model: Seq<char>) -> Seq<u8> {
        text_wire(model)
    }

    /// The length marker, then the UTF-8 bytes of the text. Decoding the
    /// result gives this text back and consumes all of it.
    fn to_bytes(&self) -> (buffer: Vec<u8>)
        ensures
            Self::parse(buffer@) == Ok::<(Seq<char>, nat), DecodeError>((self@, buffer@.len())),
    {
        let body: &[u8] = self.data.as_str().as_bytes();
        let size: usize = body.len();
        let mut buffer: Vec<u8> = Vec::new();
        if size < 0xFD {
            buffer.push(size as u8);
        } else if size <= 0xFFFF {
            buffer.push(0xFD);
            put_le(&mut buffer, size as u64, 2);
        } else if size <= 0xFFFF_FFFF {
            buffer.push(0xFE);
            put_le(&mut buffer, size as u64, 4);
        } else {
            buffer.push(0xFF);
            put_le(&mut buffer, size as u64, 8);
        }
        assert(buffer@ =~= length_prefix(size as nat));
        buffer.extend_from_slice(body);
        assert(buffer@ =~= text_wire(self@));
        proof {
            lemma_radix_values();
            lemma_text_round_trip(self@, Seq::empty());
            assert(buffer@ + Seq::<u8>::empty() =~= buffer@);
        }
        buffer
    }
}

impl Serialize for VarStr {
    open spec fn parse(input: Seq<u8>) -> Result<(Seq<char>, nat), DecodeError> {
        parse_text(input)
    }

    /// Read the length, then exactly that many bytes, and check that they
    /// are UTF-8. A length that the input cannot cover is an `UnexpectedEof`.
    fn from_bytes(input: &[u8]) -> (decoded: Result<(Self, usize), DecodeError>) {
        let total: usize = input.len();
        let (len, used) = match Self::read_length(input) {
            Ok(pair) => pair,
            Err(reason) => {
                return Err(reason);
            },
        };
        if len > (total - used) as u64 {
            return Err(DecodeError::UnexpectedEof);
        }
        let size: usize = len as usize;
        let body: Vec<u8> = slice_to_vec(slice_subrange(input, used, used + size));
        match text_from_utf8(body) {
            Some(data) => Ok((VarStr { data }, used + size)),
            None => Err(DecodeError::InvalidUtf8),
        }
    }
}

/// The marker of a length that fits in eight bytes is read back as that
/// length, whatever follows it.
pub proof fn lemma_length_round_trip(len: nat, rest: Seq<u8>)
    requires
        len < radix(8),
    ensures
        parse_length(length_prefix(len) + rest) == Ok::<(nat, nat), DecodeError>(
            (len, length_prefix(len).len()),
        ),
{
    lemma_radix_values();
    let input = length_prefix(len) + rest;
    if len < 0xFD {
    } else if len <= 0xFFFF {
        lemma_le_round_trip(len, 2);
        assert(input.subrange(1, 3) =~= le_bytes(len, 2));
    } else if len <= 0xFFFF_FFFF {
        lemma_le_round_trip(len, 4);
        assert(input.subrange(1, 5) =~= le_bytes(len, 4));
    } else {
        lemma_le_round_trip(len, 8);
        assert(input.subrange(1, 9) =~= le_bytes(len, 8));
    }
}

/// Decoding the encoding of a text gives the text back and consumes exactly
/// its encoding, whichever of the length markers it takes and whatever
/// follows it on the wire.
pub proof fn lemma_text_round_trip(text: Seq<char>, rest: Seq<u8>)
    requires
        encode_utf8(text).len() < radix(8),
    ensures
        VarStr::parse(VarStr::wire(text) + rest) == Ok::<(Seq<char>, nat), DecodeError>(
            (text, VarStr::wire(text).len()),
        ),
{
    let body = encode_utf8(text);
    let prefix = length_prefix(body.len());
    let input = text_wire(text) + rest;
    lemma_length_round_trip(body.len(), body + rest);
    assert(input =~= prefix + (body + rest));
    assert(input.subrange(prefix.len() as int, (prefix.len() + body.len()) as int) =~= body);
    encode_utf8_valid_utf8(text);
    encode_utf8_decode_utf8(text);
}

/// Decoding loses nothing of the text: the UTF-8 form of what was decoded is
/// the body that stood on the wire, and it has the declared length.
pub proof fn lemma_text_keeps_body(input: Seq<u8>)
    requires
        VarStr::parse(input) is Ok,
    ensures
        parse_length(input) matches Ok((len, used)) && VarStr::parse(input) matches Ok(
            (text, taken),
        ) && taken == used + len && encode_utf8(text) == input.subrange(
            used as int,
            (used + len) as int,
        ),
{
    let (len, used) = parse_length(input)->Ok_0;
    decode_utf8_encode_utf8(input.subrange(used as int, (used + len) as int));
}

/// A declared length that runs past the end of the input is an
/// `UnexpectedEof`, never a shortened text.
pub proof fn lemma_text_cut_short(input: Seq<u8>, len: nat, used: nat)
    requires
        parse_length(input) == Ok::<(nat, nat), DecodeError>((len, used)),
        input.len() < used + len,
    ensures
        VarStr::parse(input) == Err::<(Seq<char>, nat), DecodeError>(DecodeError::UnexpectedEof),
{
}

} // verus!
