//! Length prefixed records.
//!
//! Wire format for a single record is a little endian `u32` length followed by
//! that many bytes. During the handshake those bytes are a raw Noise message;
//! afterwards they are a Noise ciphertext whose plaintext starts with a one byte
//! inner tag that separates JSON envelopes from raw file payloads.

use vstd::prelude::*;
use vstd::string::*;

use crate::bytes::{
    comes_back, le_bytes, le_value, lemma_byte_ranges, lemma_le_round_trip, push_le, read_le,
};
use crate::net_error::{Error, ErrorModel, Result};
use crate::protocol::{
    chunk_frame, chunk_of_frame, law_chunk_round_trip, FileChunk, FileChunkModel, Message,
    MessageModel,
};
use crate::text::{cat2, cat3, cat5, decimal, format_decimal};

verus! {

/// Largest record we will accept, matching the Noise message ceiling.
pub const MAX_RECORD: usize = 65535;

pub const INNER_MESSAGE: u8 = 0;

pub const INNER_CHUNK: u8 = 1;

/// What a peer sent us.
#[derive(Debug, PartialEq)]
pub enum Incoming {
    Message(Message),
    Chunk(FileChunk),
}

/// What we send to a peer.
#[derive(Debug, PartialEq)]
pub enum Outgoing {
    Message(Message),
    Chunk(FileChunk),
}

impl Outgoing {
    pub fn is_urgent(&self) -> (out: bool)
        ensures
            out == (self matches Outgoing::Message(m) && m.deep_view().urgent()),
    {
        match self {
            Outgoing::Message(m) => m.is_urgent(),
            Outgoing::Chunk(_) => false,
        }
    }

    pub fn kind(&self) -> (out: &'static str)
        ensures
            out@ == (match self {
                Outgoing::Message(m) => m.deep_view().word(),
                Outgoing::Chunk(_) => "chunk"@,
            }),
    {
        match self {
            Outgoing::Message(m) => m.kind(),
            Outgoing::Chunk(_) => "chunk",
        }
    }
}

/// A message or a chunk, by its contents.
#[verifier::ext_equal]
pub enum ItemModel {
    Message(MessageModel),
    Chunk(FileChunkModel),
}

impl DeepView for Incoming {
    type V = ItemModel;

    open spec fn deep_view(&self) -> ItemModel {
        match self {
            Incoming::Message(message) => ItemModel::Message(message.deep_view()),
            Incoming::Chunk(chunk) => ItemModel::Chunk(chunk.deep_view()),
        }
    }
}

impl DeepView for Outgoing {
    type V = ItemModel;

    open spec fn deep_view(&self) -> ItemModel {
        match self {
            Outgoing::Message(message) => ItemModel::Message(message.deep_view()),
            Outgoing::Chunk(chunk) => ItemModel::Chunk(chunk.deep_view()),
        }
    }
}

/// What a record holds once it is open: a message in its JSON form, or a chunk.
#[derive(Debug, PartialEq)]
pub enum Inner {
    Json(Vec<u8>),
    Chunk(FileChunk),
}

/// The contents of a record, by its contents.
#[verifier::ext_equal]
pub enum InnerModel {
    Json(Seq<u8>),
    Chunk(FileChunkModel),
}

impl DeepView for Inner {
    type V = InnerModel;

    open spec fn deep_view(&self) -> InnerModel {
        match self {
            Inner::Json(bytes) => InnerModel::Json(bytes@),
            Inner::Chunk(chunk) => InnerModel::Chunk(chunk.deep_view()),
        }
    }
}

/// The plaintext of a record, or why there is none.
pub open spec fn inner_bytes(item: InnerModel) -> std::result::Result<Seq<u8>, ErrorModel> {
    match item {
        InnerModel::Json(json) => if json.len() + 1 > MAX_RECORD {
            Err(
                ErrorModel::Range(
                    "control message of "@ + decimal(json.len())
                        + " bytes exceeds the record limit"@,
                ),
            )
        } else {
            Ok(seq![INNER_MESSAGE] + json)
        },
        InnerModel::Chunk(chunk) => Ok(seq![INNER_CHUNK] + chunk_frame(chunk)),
    }
}

/// What the plaintext of a record holds, or what is wrong with it.
pub open spec fn inner_of(plaintext: Seq<u8>) -> std::result::Result<InnerModel, ErrorModel> {
    if plaintext.len() == 0 {
        Err(ErrorModel::Protocol("empty record"@))
    } else if plaintext[0] == INNER_MESSAGE {
        Ok(InnerModel::Json(plaintext.skip(1)))
    } else if plaintext[0] == INNER_CHUNK {
        match chunk_of_frame(plaintext.skip(1)) {
            Ok(chunk) => Ok(InnerModel::Chunk(chunk)),
            Err(e) => Err(ErrorModel::Protocol(e.sentence())),
        }
    } else {
        Err(ErrorModel::Protocol("unknown record tag "@ + decimal(plaintext[0] as nat)))
    }
}

/// The outcome of making bytes, by its contents.
pub open spec fn bytes_outcome(r: Result<Vec<u8>>) -> std::result::Result<Seq<u8>, ErrorModel> {
    match r {
        Ok(bytes) => Ok(bytes@),
        Err(e) => Err(e.deep_view()),
    }
}

/// The outcome of reading a record's contents, by its contents.
pub open spec fn inner_outcome(r: Result<Inner>) -> std::result::Result<InnerModel, ErrorModel> {
    match r {
        Ok(item) => Ok(item.deep_view()),
        Err(e) => Err(e.deep_view()),
    }
}

/// Turns an outgoing item into an inner plaintext buffer.
pub fn encode_inner(item: &Inner) -> (out: Result<Vec<u8>>)
    ensures
        bytes_outcome(out) == inner_bytes(item.deep_view()),
{
    let mut out: Vec<u8> = Vec::new();
    match item {
        Inner::Json(json) => {
            if json.len() >= MAX_RECORD {
                return Err(
                    Error::Range(
                        cat3(
                            "control message of ",
                            format_decimal(json.len() as u64).as_str(),
                            " bytes exceeds the record limit",
                        ),
                    ),
                );
            }
            out.push(INNER_MESSAGE);
            out.extend_from_slice(json.as_slice());
            assert(out@ =~= seq![INNER_MESSAGE] + json@);
        },
        Inner::Chunk(chunk) => {
            let frame = chunk.encode();
            out.push(INNER_CHUNK);
            out.extend_from_slice(frame.as_slice());
            assert(out@ =~= seq![INNER_CHUNK] + frame@);
        },
    }
    Ok(out)
}

/// Reverses [`encode_inner`].
pub fn decode_inner(plaintext: &[u8]) -> (out: Result<Inner>)
    ensures
        inner_outcome(out) == inner_of(plaintext@),
{
    let len: usize = plaintext.len();
    if len == 0 {
        return Err(Error::protocol("empty record"));
    }
    let body = vstd::slice::slice_subrange(plaintext, 1, len);
    assert(body@ =~= plaintext@.skip(1));
    let tag: u8 = plaintext[0];
    if tag == INNER_MESSAGE {
        Ok(Inner::Json(vstd::slice::slice_to_vec(body)))
    } else if tag == INNER_CHUNK {
        match FileChunk::decode(body) {
            Ok(chunk) => Ok(Inner::Chunk(chunk)),
            Err(e) => Err(Error::Protocol(e.message())),
        }
    } else {
        Err(Error::Protocol(cat2("unknown record tag ", format_decimal(tag as u64).as_str())))
    }
}

/// A record: its length in four bytes, then its body.
pub open spec fn record_bytes(body: Seq<u8>) -> Seq<u8> {
    le_bytes(body.len(), 4) + body
}

/// The record that holds `body`, or why there is none.
pub open spec fn framed(body: Seq<u8>) -> std::result::Result<Seq<u8>, ErrorModel> {
    if body.len() > MAX_RECORD {
        Err(
            ErrorModel::Range(
                "record of "@ + decimal(body.len()) + " bytes exceeds the "@ + decimal(
                    MAX_RECORD as nat,
                ) + " byte limit"@,
            ),
        )
    } else {
        Ok(record_bytes(body))
    }
}

/// The bytes to write for a record.
pub fn write_record(body: &[u8]) -> (out: Result<Vec<u8>>)
    ensures
        bytes_outcome(out) == framed(body@),
{
    if body.len() > MAX_RECORD {
        return Err(
            Error::Range(
                cat5(
                    "record of ",
                    format_decimal(body.len() as u64).as_str(),
                    " bytes exceeds the ",
                    format_decimal(MAX_RECORD as u64).as_str(),
                    " byte limit",
                ),
            ),
        );
    }
    let mut out: Vec<u8> = Vec::new();
    push_le(&mut out, body.len() as u64, 4);
    out.extend_from_slice(body);
    assert(out@ =~= record_bytes(body@));
    Ok(out)
}

/// The length that a header announces, or why it is refused.
pub open spec fn announced_length(header: Seq<u8>) -> std::result::Result<nat, ErrorModel> {
    let len = le_value(header);
    if len > MAX_RECORD {
        Err(ErrorModel::Range("peer announced a "@ + decimal(len) + " byte record"@))
    } else {
        Ok(len)
    }
}

/// How many bytes follow a header of four bytes.
pub fn read_record(header: &[u8]) -> (out: Result<usize>)
    requires
        header@.len() == 4,
    ensures
        match out {
            Ok(len) => announced_length(header@) == Ok::<nat, ErrorModel>(len as nat),
            Err(e) => announced_length(header@) == Err::<nat, ErrorModel>(e.deep_view()),
        },
{
    let len: u64 = read_le(header, 0, 4);
    assert(header@.subrange(0, 4) =~= header@);
    if len > MAX_RECORD as u64 {
        return Err(
            Error::Range(
                cat3("peer announced a ", format_decimal(len).as_str(), " byte record"),
            ),
        );
    }
    Ok(len as usize)
}

/// A record that may be written is read back with its length and its body.
pub proof fn law_record_round_trip(body: Seq<u8>)
    requires
        body.len() <= MAX_RECORD,
    ensures
        framed(body) == Ok::<Seq<u8>, ErrorModel>(record_bytes(body)),
        record_bytes(body).len() == 4 + body.len(),
        announced_length(record_bytes(body).take(4)) == Ok::<nat, ErrorModel>(body.len()),
        record_bytes(body).skip(4) == body,
{
    lemma_byte_ranges();
    lemma_le_round_trip(body.len(), 4);
    assert(record_bytes(body).take(4) =~= le_bytes(body.len(), 4));
    assert(record_bytes(body).skip(4) =~= body);
}

/// What was encoded is what is decoded, for every message and for every chunk whose
/// length fits in its field.
pub proof fn law_inner_round_trip(item: InnerModel)
    requires
        item matches InnerModel::Chunk(chunk) ==> chunk.data.len() <= u32::MAX,
    ensures
        inner_bytes(item) matches Ok(bytes) ==> inner_of(bytes) == Ok::<InnerModel, ErrorModel>(
            item,
        ),
{
    match item {
        InnerModel::Json(json) => {
            assert((seq![INNER_MESSAGE] + json).skip(1) =~= json);
        },
        InnerModel::Chunk(chunk) => {
            assert((seq![INNER_CHUNK] + chunk_frame(chunk)).skip(1) =~= chunk_frame(chunk));
            law_chunk_round_trip(chunk);
        },
    }
}

/// What is put into a record for an item, where messages are written by `json`.
pub open spec fn inner_for(item: ItemModel, json: spec_fn(MessageModel) -> Seq<u8>) -> InnerModel {
    match item {
        ItemModel::Message(message) => InnerModel::Json(json(message)),
        ItemModel::Chunk(chunk) => InnerModel::Chunk(chunk),
    }
}

/// What the contents of a record stand for, where messages are read by `parse`; nothing
/// where a message cannot be read.
pub open spec fn item_in(
    inner: InnerModel,
    parse: spec_fn(Seq<u8>) -> Option<MessageModel>,
) -> Option<ItemModel> {
    match inner {
        InnerModel::Json(json) => match parse(json) {
            Some(message) => Some(ItemModel::Message(message)),
            None => None,
        },
        InnerModel::Chunk(chunk) => Some(ItemModel::Chunk(chunk)),
    }
}

/// The message or chunk that was put into a record is the one that is taken out of it, in
/// whatever form messages are written, as long as what was written reads back.
pub proof fn law_items_come_back(
    item: ItemModel,
    json: spec_fn(MessageModel) -> Seq<u8>,
    parse: spec_fn(Seq<u8>) -> Option<MessageModel>,
)
    requires
        item matches ItemModel::Message(message) ==> comes_back(json, parse, message),
        item matches ItemModel::Chunk(chunk) ==> chunk.data.len() <= u32::MAX,
    ensures
        inner_bytes(inner_for(item, json)) matches Ok(bytes) ==> (inner_of(bytes) matches Ok(inner)
            && item_in(inner, parse) == Some(item)),
{
    law_inner_round_trip(inner_for(item, json));
}

/// A message and a chunk never have the same plaintext.
pub proof fn law_messages_and_chunks_differ(json: Seq<u8>, chunk: FileChunkModel)
    ensures
        inner_bytes(InnerModel::Json(json)) != inner_bytes(InnerModel::Chunk(chunk)),
{
    if inner_bytes(InnerModel::Json(json)) is Ok {
        assert((seq![INNER_MESSAGE] + json)[0] == INNER_MESSAGE);
        assert((seq![INNER_CHUNK] + chunk_frame(chunk))[0] == INNER_CHUNK);
    }
}

/// A chunk of the size that senders read fits in a record with room for the sixteen bytes
/// that sealing adds.
pub proof fn law_chunks_fit_in_a_record(chunk: FileChunkModel)
    requires
        chunk.data.len() <= crate::transfer::CHUNK_BYTES,
    ensures
        inner_bytes(InnerModel::Chunk(chunk)) matches Ok(plain) && plain.len() + 16 <= MAX_RECORD,
{
    lemma_le_round_trip(chunk.transfer.0 as nat, 8);
    lemma_le_round_trip(chunk.index as nat, 4);
    lemma_le_round_trip(chunk.offset as nat, 8);
    lemma_le_round_trip(chunk.data.len(), 4);
}

} // verus!
