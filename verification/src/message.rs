//! The 24-byte header that precedes every payload.

use crate::wire::{
    get_le, le_bytes, le_value, lemma_le_bytes_of_value, lemma_le_round_trip,
    lemma_le_value_bound, lemma_radix_values, put_le, text_from_utf8, DecodeError,
};
use crate::{Deserialize, Serialize};
use vstd::prelude::*;
use vstd::slice::{slice_subrange, slice_to_vec};
use vstd::utf8::{
    decode_utf8, is_char_boundary_iff_not_is_continuation_byte, valid_utf8, valid_utf8_concat,
    valid_utf8_split,
};

verus! {

/// Magic number that must be present in the message header to be considered valid.
pub const MAGIC_NUMBER: u32 = 0xD9B4BEF9;

/// Size of a header on the wire.
pub const HEADER_SIZE: usize = 24;

/// What a `Message` holds.
pub struct MessageView {
    /// The number that opens the header.
    pub magic: u32,
    /// The twelve bytes of the command field, padding included.
    pub command: Seq<u8>,
    /// Length of the payload that follows, in bytes.
    pub length: u32,
    /// Checksum of the payload that follows.
    pub checksum: u32,
}

impl MessageView {
    /// The command field has its fixed size.
    pub open spec fn well_formed(self) -> bool {
        self.command.len() == 12
    }
}

/// The length of `bytes` without its trailing zero bytes.
pub open spec fn name_length(bytes: Seq<u8>) -> nat
    decreases bytes.len(),
{
    if bytes.len() == 0 {
        0
    } else if bytes.last() != 0 {
        bytes.len()
    } else {
        name_length(bytes.drop_last())
    }
}

/// `bytes` without its trailing zero bytes.
pub open spec fn strip_nul(bytes: Seq<u8>) -> Seq<u8> {
    bytes.take(name_length(bytes) as int)
}

/// The bytes of a header: magic, the command field as it is, length and
/// checksum, each number little-endian in four bytes.
pub open spec fn header_wire(model: MessageView) -> Seq<u8> {
    le_bytes(model.magic as nat, 4) + model.command + le_bytes(model.length as nat, 4) + le_bytes(
        model.checksum as nat,
        4,
    )
}

/// The header at the front of `input`. No field is inspected: any 24 bytes
/// make a header.
pub open spec fn parse_header(input: Seq<u8>) -> Result<(MessageView, nat), DecodeError> {
    if input.len() < 24 {
        Err(DecodeError::UnexpectedEof)
    } else {
        Ok(
            (
                MessageView {
                    magic: le_value(input.subrange(0, 4)) as u32,
                    command: input.subrange(4, 16),
                    length: le_value(input.subrange(16, 20)) as u32,
                    checksum: le_value(input.subrange(20, 24)) as u32,
                },
                24nat,
            ),
        )
    }
}

/// Message header used by all communication with the nodes.
#[derive(Debug, Clone, Copy)]
pub struct Message {
    magic: u32,
    command: [u8; 12],
    length: u32,
    checksum: u32,
}

impl View for Message {
    type V = MessageView;

    closed spec fn view(&self) -> MessageView {
        MessageView {
            magic: self.magic,
            command: self.command@,
            length: self.length,
            checksum: self.checksum,
        }
    }
}

impl Message {
    /// Create a new message.
    pub fn new(command: [u8; 12], length: u32, checksum: u32) -> (message: Self)
        ensures
            message@ == (MessageView { magic: MAGIC_NUMBER, command: command@, length, checksum }),
            message@.well_formed(),
    {
        Self { magic: MAGIC_NUMBER, command, length, checksum }
    }

    /// Returns the magic number. Useful to verify the validity of the message.
    pub fn magic(&self) -> (magic: u32)
        ensures
            magic == self@.magic,
    {
        self.magic
    }

    /// Command name that identifies the type of payload coming down the line:
    /// the command field without its trailing zero bytes, read as UTF-8.
    /// There is a name exactly when the whole field is valid UTF-8.
    pub fn command(&self) -> (name: Result<String, DecodeError>)
        ensures
            name is Ok <==> valid_utf8(self@.command),
            match name {
                Ok(text) => valid_utf8(strip_nul(self@.command)) && text@ == decode_utf8(
                    strip_nul(self@.command),
                ),
                Err(reason) => reason == DecodeError::InvalidUtf8 && !valid_utf8(
                    strip_nul(self@.command),
                ),
            },
    {
        let field: &[u8] = self.command.as_slice();
        let mut end: usize = 12;
        assert(field@.take(12) =~= field@);
        while end > 0 && field[end - 1] == 0
            invariant
                end <= 12,
                field@ == self.command@,
                field@.len() == 12,
                name_length(field@) == name_length(field@.take(end as int)),
            decreases end,
        {
            assert(field@.take(end as int).drop_last() =~= field@.take(end - 1));
            end = end - 1;
        }
        assert(name_length(field@) == end);
        proof {
            lemma_padding_never_decides(field@);
        }
        let name: Vec<u8> = slice_to_vec(slice_subrange(field, 0, end));
        match text_from_utf8(name) {
            Some(text) => Ok(text),
            None => Err(DecodeError::InvalidUtf8),
        }
    }

    /// Total length of the payload in bytes.
    pub fn length(&self) -> (length: u32)
        ensures
            length == self@.length,
    {
        self.length
    }

    /// Checksum of the incoming payload.
    pub fn checksum(&self) -> (checksum: u32)
        ensures
            checksum == self@.checksum,
    {
        self.checksum
    }

    /// The twelve bytes of the command field, padding included.
    pub fn command_bytes(&self) -> (command: [u8; 12])
        ensures
            command@ == self@.command,
    {
        self.command
    }

    /// Every value holds a twelve-byte command field.
    pub proof fn lemma_well_formed(&self)
        ensures
            self@.well_formed(),
    {
    }
}

impl Deserialize for Message {
    open spec fn wire(model: MessageView) -> Seq<u8> {
        header_wire(model)
    }

    /// The 24 bytes of the header. Decoding them gives this header back.
    fn to_bytes(&self) -> (buffer: Vec<u8>)
        ensures
            Self::parse(buffer@) == Ok::<(MessageView, nat), DecodeError>((self@, 24nat)),
    {
        let mut buffer: Vec<u8> = Vec::with_capacity(HEADER_SIZE);
        put_le(&mut buffer, self.magic as u64, 4);
        buffer.extend_from_slice(self.command.as_slice());
        assert(buffer@ =~= le_bytes(self.magic as nat, 4) + self.command@);
        put_le(&mut buffer, self.length as u64, 4);
        put_le(&mut buffer, self.checksum as u64, 4);
        proof {
            lemma_header_round_trip(self@, Seq::empty());
            assert(buffer@ + Seq::<u8>::empty() =~= buffer@);
        }
        buffer
    }
}

impl Serialize for Message {
    open spec fn parse(input: Seq<u8>) -> Result<(MessageView, nat), DecodeError> {
        parse_header(input)
    }

    /// Read the 24 bytes at the front of `input`. Neither the magic number
    /// nor the command is judged here: that is for the caller.
    fn from_bytes(input: &[u8]) -> (decoded: Result<(Self, usize), DecodeError>) {
        if input.len() < HEADER_SIZE {
            return Err(DecodeError::UnexpectedEof);
        }
        proof {
            lemma_radix_values();
        }
        let magic: u32 = get_le(input, 0, 4) as u32;
        let command: [u8; 12] = [
            input[4],
            input[5],
            input[6],
            input[7],
            input[8],
            input[9],
            input[10],
            input[11],
            input[12],
            input[13],
            input[14],
            input[15],
        ];
        let length: u32 = get_le(input, 16, 4) as u32;
        let checksum: u32 = get_le(input, 20, 4) as u32;
        assert(command@ =~= input@.subrange(4, 16));
        Ok((Message { magic, command, length, checksum }, HEADER_SIZE))
    }
}

/// Decoding the encoding of a header gives the header back, field by field,
/// and consumes its 24 bytes, whatever follows.
pub proof fn lemma_header_round_trip(model: MessageView, rest: Seq<u8>)
    requires
        model.well_formed(),
    ensures
        Message::wire(model).len() == 24,
        Message::parse(Message::wire(model) + rest) == Ok::<(MessageView, nat), DecodeError>(
            (model, 24nat),
        ),
{
    lemma_radix_values();
    lemma_le_round_trip(model.magic as nat, 4);
    lemma_le_round_trip(model.length as nat, 4);
    lemma_le_round_trip(model.checksum as nat, 4);
    let input = header_wire(model) + rest;
    assert(input.subrange(0, 4) =~= le_bytes(model.magic as nat, 4));
    assert(input.subrange(4, 16) =~= model.command);
    assert(input.subrange(16, 20) =~= le_bytes(model.length as nat, 4));
    assert(input.subrange(20, 24) =~= le_bytes(model.checksum as nat, 4));
}

/// What `name_length` leaves out is zero bytes, and all of them.
pub proof fn lemma_name_length(bytes: Seq<u8>)
    ensures
        name_length(bytes) <= bytes.len(),
        forall|i: int| name_length(bytes) <= i < bytes.len() ==> bytes[i] == 0,
        name_length(bytes) > 0 ==> bytes[name_length(bytes) - 1] != 0,
    decreases bytes.len(),
{
    if bytes.len() > 0 && bytes.last() == 0 {
        let front = bytes.drop_last();
        lemma_name_length(front);
        assert forall|i: int| name_length(bytes) <= i < bytes.len() implies bytes[i] == 0 by {
            if i < front.len() {
                assert(front[i] == bytes[i]);
            }
        }
        if name_length(bytes) > 0 {
            assert(front[name_length(bytes) - 1] == bytes[name_length(bytes) - 1]);
        }
    }
}

/// Zero bytes alone are valid UTF-8.
proof fn lemma_zero_bytes_are_text(bytes: Seq<u8>)
    requires
        forall|i: int| 0 <= i < bytes.len() ==> bytes[i] == 0,
    ensures
        valid_utf8(bytes),
    decreases bytes.len(),
{
    if bytes.len() > 0 {
        assert(0u8 & 0x7f == 0) by (bit_vector);
        lemma_zero_bytes_are_text(bytes.subrange(1, bytes.len() as int));
    }
}

/// The padding never decides whether a command field holds text: the field
/// is valid UTF-8 exactly when its name part is.
pub proof fn lemma_padding_never_decides(bytes: Seq<u8>)
    ensures
        valid_utf8(strip_nul(bytes)) <==> valid_utf8(bytes),
{
    lemma_name_length(bytes);
    let cut = name_length(bytes) as int;
    let name = bytes.subrange(0, cut);
    let padding = bytes.subrange(cut, bytes.len() as int);
    assert(name + padding =~= bytes);
    if valid_utf8(name) {
        lemma_zero_bytes_are_text(padding);
        valid_utf8_concat(name, padding);
    }
    if valid_utf8(bytes) {
        if cut < bytes.len() {
            is_char_boundary_iff_not_is_continuation_byte(bytes, cut);
            valid_utf8_split(bytes, cut);
        } else {
            assert(name =~= bytes);
        }
    }
}

/// A header has one encoding only: encoding what was decoded gives the 24
/// bytes that were read.
pub proof fn lemma_header_reencode(input: Seq<u8>)
    requires
        input.len() >= 24,
    ensures
        Message::parse(input) matches Ok((model, used)) && model.well_formed()
            && Message::wire(model) == input.subrange(0, 24),
{
    lemma_radix_values();
    lemma_le_value_bound(input.subrange(0, 4));
    lemma_le_value_bound(input.subrange(16, 20));
    lemma_le_value_bound(input.subrange(20, 24));
    lemma_le_bytes_of_value(input.subrange(0, 4));
    lemma_le_bytes_of_value(input.subrange(16, 20));
    lemma_le_bytes_of_value(input.subrange(20, 24));
    let model = parse_header(input)->Ok_0.0;
    assert(header_wire(model) =~= input.subrange(0, 24));
}

/// Fewer than 24 bytes never make a header: the outcome is `UnexpectedEof`,
/// not a header with some fields filled in.
pub proof fn lemma_header_cut_short(input: Seq<u8>)
    requires
        input.len() < 24,
    ensures
        Message::parse(input) == Err::<(MessageView, nat), DecodeError>(
            DecodeError::UnexpectedEof,
        ),
{
}

} // verus!
