//! The wire frame: one zero marker byte, the payload length as a varint,
//! the numeric type tag as a varint, then the payload itself.

use vstd::prelude::*;
use crate::varint::{
    decode_varint32, encode_varint32, varint_enc, varint_parse, VarintResult,
    lemma_varint_round_trip,
};

verus! {

/// The fields that prefix every frame's payload.
#[derive(Debug, Clone, Copy, PartialEq, Eq, Structural)]
pub struct MessageHeader {
    pub message_length: u32,
    pub message_type: u32,
}

impl MessageHeader {
    pub fn new(message_length: u32, message_type: u32) -> (r: MessageHeader)
        ensures
            r.message_length == message_length,
            r.message_type == message_type,
    {
        MessageHeader { message_length, message_type }
    }

    pub fn message_type(&self) -> (r: u32)
        ensures
            r == self.message_type,
    {
        self.message_type
    }

    pub fn message_length(&self) -> (r: u32)
        ensures
            r == self.message_length,
    {
        self.message_length
    }
}

/// The bytes of a whole frame around a payload.
pub open spec fn frame_enc(type_tag: u32, payload: Seq<u8>) -> Seq<u8> {
    seq![0u8] + varint_enc(payload.len() as nat) + varint_enc(type_tag as nat) + payload
}

/// What reading a frame header from a byte stream yields.
#[derive(Debug, Clone, Copy, PartialEq, Eq, Structural)]
pub enum HeaderResult {
    /// A complete header; `end` is the index one past its last byte, where
    /// the payload begins.
    Header { header: MessageHeader, end: usize },
    /// The stream ended inside the header; more bytes may complete it.
    Incomplete,
    /// The length or type field is not a valid varint.
    Malformed,
}

/// The header read from `data` at `start`, as the reader must report it.
/// The marker byte is consumed and discarded: the wire format reserves it,
/// and its value is never validated.
pub open spec fn header_parse(data: Seq<u8>, start: int) -> HeaderResult
    recommends
        0 <= start <= data.len(),
{
    if start >= data.len() {
        HeaderResult::Incomplete
    } else {
        match varint_parse(data, start + 1) {
            VarintResult::Incomplete => HeaderResult::Incomplete,
            VarintResult::Malformed => HeaderResult::Malformed,
            VarintResult::Value { value: length, end: e1 } => match varint_parse(data, e1 as int) {
                VarintResult::Incomplete => HeaderResult::Incomplete,
                VarintResult::Malformed => HeaderResult::Malformed,
                VarintResult::Value { value: type_tag, end: e2 } => HeaderResult::Header {
                    header: MessageHeader { message_length: length, message_type: type_tag },
                    end: e2,
                },
            },
        }
    }
}

/// Reads one frame header: the marker byte, the payload length and the
/// type tag.
pub fn read_frame_header(data: &Vec<u8>, start: usize) -> (r: HeaderResult)
    requires
        start <= data@.len(),
    ensures
        r == header_parse(data@, start as int),
{
    if start >= data.len() {
        return HeaderResult::Incomplete;
    }
    match decode_varint32(data, start + 1) {
        VarintResult::Incomplete => HeaderResult::Incomplete,
        VarintResult::Malformed => HeaderResult::Malformed,
        VarintResult::Value { value: length, end: e1 } => {
            assert(e1 <= data@.len());
            match decode_varint32(data, e1) {
                VarintResult::Incomplete => HeaderResult::Incomplete,
                VarintResult::Malformed => HeaderResult::Malformed,
                VarintResult::Value { value: type_tag, end: e2 } => HeaderResult::Header {
                    header: MessageHeader { message_length: length, message_type: type_tag },
                    end: e2,
                },
            }
        },
    }
}

/// Builds the frame that carries `payload` under `type_tag`: marker byte,
/// length varint, type varint, payload bytes.
pub fn write_frame(type_tag: u32, payload: &Vec<u8>) -> (r: Vec<u8>)
    requires
        payload@.len() <= u32::MAX,
    ensures
        r@ == frame_enc(type_tag, payload@),
{
    let mut out: Vec<u8> = Vec::new();
    out.push(0u8);
    let mut length_bytes = encode_varint32(payload.len() as u32);
    out.append(&mut length_bytes);
    let mut tag_bytes = encode_varint32(type_tag);
    out.append(&mut tag_bytes);
    let ghost prefix = out@;
    let mut i: usize = 0;
    while i < payload.len()
        invariant
            i <= payload@.len(),
            out@ == prefix + payload@.subrange(0, i as int),
        decreases payload@.len() - i,
    {
        out.push(payload[i]);
        i = i + 1;
        proof {
            assert(out@ =~= prefix + payload@.subrange(0, i as int));
        }
    }
    proof {
        assert(payload@.subrange(0, payload@.len() as int) =~= payload@);
        assert(out@ =~= frame_enc(type_tag, payload@));
    }
    out
}

/// A parsed header occupies at least the marker byte and one byte for each
/// varint, and never reaches past the data it was read from.
pub proof fn lemma_header_parse_end(data: Seq<u8>, start: int)
    requires
        0 <= start <= data.len(),
        data.len() <= usize::MAX,
    ensures
        header_parse(data, start) matches HeaderResult::Header { header, end } ==> start + 3 <= end
            <= data.len(),
{
}

/// Round trip: a frame built around `(type_tag, payload)` and laid in
/// front of any tail parses back to a header carrying the payload's length
/// and the tag, with the payload as the bytes that follow the header.
pub proof fn lemma_frame_round_trip(type_tag: u32, payload: Seq<u8>, tail: Seq<u8>)
    requires
        payload.len() <= u32::MAX,
        frame_enc(type_tag, payload).len() + tail.len() <= usize::MAX,
    ensures
        ({
            let data = frame_enc(type_tag, payload) + tail;
            let hlen = 1 + varint_enc(payload.len() as nat).len() + varint_enc(
                type_tag as nat,
            ).len();
            &&& header_parse(data, 0) == HeaderResult::Header {
                header: MessageHeader {
                    message_length: payload.len() as u32,
                    message_type: type_tag,
                },
                end: hlen as usize,
            }
            &&& data.subrange(hlen as int, hlen as int + payload.len() as int) == payload
        }),
{
    let data = frame_enc(type_tag, payload) + tail;
    let len_enc = varint_enc(payload.len() as nat);
    let tag_enc = varint_enc(type_tag as nat);
    assert((payload.len() as u32) as nat == payload.len());
    assert(data.subrange(1, 1 + len_enc.len() as int) =~= len_enc);
    lemma_varint_round_trip(data, 1, payload.len() as u32);
    let e1 = 1 + len_enc.len() as int;
    assert(data.subrange(e1, e1 + tag_enc.len() as int) =~= tag_enc);
    lemma_varint_round_trip(data, e1, type_tag);
    let hlen = e1 + tag_enc.len() as int;
    assert(data.subrange(hlen, hlen + payload.len() as int) =~= payload);
}

} // verus!
