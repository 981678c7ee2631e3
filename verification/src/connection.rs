//! The protocol engine: one connection's read buffer, write queue and
//! state cache, with the dispatch rules for server-initiated frames and
//! the synchronous request/response correlation.
//!
//! The engine never touches a transport. The owner of the connection reads
//! bytes from its stream and hands them to [`Connection::feed`], writes out
//! whatever [`Connection::take_output`] returns, and drives the engine
//! until a call stops asking for more data. Schema encoding and decoding
//! of message payloads is likewise the owner's collaborator: state pushes
//! and replies are handed over as raw payload bytes.

use vstd::prelude::*;
use std::collections::HashMap;
use crate::frame::{
    frame_enc, header_parse, lemma_header_parse_end, read_frame_header, write_frame, HeaderResult,
    MessageHeader,
};
use crate::model::{state_eq, EspHomeError, Entity, State, StateChangeEvent};
use crate::registry::{from_tag_spec, tag_of, MessageType};

verus! {

broadcast use vstd::std_specs::hash::group_hash_axioms;

/// The message kinds whose state pushes the cache supports.
pub open spec fn is_state_push(m: MessageType) -> bool {
    match m {
        MessageType::BinarySensorStateResponse => true,
        MessageType::SensorStateResponse => true,
        MessageType::TextSensorStateResponse => true,
        MessageType::SwitchStateResponse => true,
        MessageType::LightStateResponse => true,
        MessageType::FanStateResponse => true,
        MessageType::LockStateResponse => true,
        _ => false,
    }
}

/// State pushes of kinds the cache deliberately does not carry: their
/// bodies are discarded byte for byte.
pub open spec fn is_skipped_push(m: MessageType) -> bool {
    match m {
        MessageType::CoverStateResponse => true,
        MessageType::ClimateStateResponse => true,
        MessageType::NumberStateResponse => true,
        MessageType::SelectStateResponse => true,
        _ => false,
    }
}

/// The frame written back for every keep-alive request: an empty
/// keep-alive response body.
pub open spec fn ping_reply() -> Seq<u8> {
    frame_enc(tag_of(MessageType::PingResponse), Seq::empty())
}

/// The frame written back for every disconnect request: an empty
/// acknowledgment body. Tearing the transport down is the owner's part.
pub open spec fn disconnect_reply() -> Seq<u8> {
    frame_enc(tag_of(MessageType::DisconnectResponse), Seq::empty())
}

/// How a run of buffered frames ends: everything the read loop consumes,
/// queues and hands over, as a value. `npos` is the buffer position the
/// loop stops at and `replies` the bytes it queues for the transport.
pub enum ScanOutcome {
    /// The buffer ends before the next frame is complete.
    NeedMore { npos: int, replies: Seq<u8> },
    /// The next length or type field is not a valid varint.
    MalformedFrame { npos: int, replies: Seq<u8> },
    /// A frame carries a tag outside the registry: the connection is
    /// desynchronized.
    UnknownType { received: u32, npos: int, replies: Seq<u8> },
    /// A time query was consumed; the owner must answer it.
    TimeQuery { npos: int, replies: Seq<u8> },
    /// A supported state push was consumed; its body awaits schema
    /// decoding.
    StatePush { kind: MessageType, body: Seq<u8>, npos: int, replies: Seq<u8> },
    /// A frame the dispatcher does not handle: its header, with the body
    /// left unread at `npos`.
    Unhandled { header: MessageHeader, npos: int, replies: Seq<u8> },
}

/// The position a scan stops at.
pub open spec fn scan_npos(o: ScanOutcome) -> int {
    match o {
        ScanOutcome::NeedMore { npos, .. } => npos,
        ScanOutcome::MalformedFrame { npos, .. } => npos,
        ScanOutcome::UnknownType { npos, .. } => npos,
        ScanOutcome::TimeQuery { npos, .. } => npos,
        ScanOutcome::StatePush { npos, .. } => npos,
        ScanOutcome::Unhandled { npos, .. } => npos,
    }
}

/// The reply bytes a scan queues.
pub open spec fn scan_replies(o: ScanOutcome) -> Seq<u8> {
    match o {
        ScanOutcome::NeedMore { replies, .. } => replies,
        ScanOutcome::MalformedFrame { replies, .. } => replies,
        ScanOutcome::UnknownType { replies, .. } => replies,
        ScanOutcome::TimeQuery { replies, .. } => replies,
        ScanOutcome::StatePush { replies, .. } => replies,
        ScanOutcome::Unhandled { replies, .. } => replies,
    }
}

/// The same outcome with `r` queued ahead of its replies.
pub open spec fn add_replies(o: ScanOutcome, r: Seq<u8>) -> ScanOutcome {
    match o {
        ScanOutcome::NeedMore { npos, replies } => ScanOutcome::NeedMore {
            npos,
            replies: r + replies,
        },
        ScanOutcome::MalformedFrame { npos, replies } => ScanOutcome::MalformedFrame {
            npos,
            replies: r + replies,
        },
        ScanOutcome::UnknownType { received, npos, replies } => ScanOutcome::UnknownType {
            received,
            npos,
            replies: r + replies,
        },
        ScanOutcome::TimeQuery { npos, replies } => ScanOutcome::TimeQuery {
            npos,
            replies: r + replies,
        },
        ScanOutcome::StatePush { kind, body, npos, replies } => ScanOutcome::StatePush {
            kind,
            body,
            npos,
            replies: r + replies,
        },
        ScanOutcome::Unhandled { header, npos, replies } => ScanOutcome::Unhandled {
            header,
            npos,
            replies: r + replies,
        },
    }
}

/// What the read loop does to the bytes of `data` from `pos` on: frames
/// are taken whole (a frame whose body has not fully arrived consumes
/// nothing); keep-alive and disconnect requests are answered and skipped
/// kinds discarded, both without stopping; everything else stops the loop.
pub open spec fn scan(data: Seq<u8>, pos: int) -> ScanOutcome
    decreases data.len() - pos
        when 0 <= pos <= data.len() && data.len() <= usize::MAX
        via scan_decreases
{
    match header_parse(data, pos) {
        HeaderResult::Incomplete => ScanOutcome::NeedMore { npos: pos, replies: Seq::empty() },
        HeaderResult::Malformed => ScanOutcome::MalformedFrame {
            npos: pos,
            replies: Seq::empty(),
        },
        HeaderResult::Header { header, end } => {
            let body_end = end + header.message_length as int;
            if body_end > data.len() {
                ScanOutcome::NeedMore { npos: pos, replies: Seq::empty() }
            } else {
                match from_tag_spec(header.message_type) {
                    Option::None => ScanOutcome::UnknownType {
                        received: header.message_type,
                        npos: end as int,
                        replies: Seq::empty(),
                    },
                    Option::Some(m) => if m == MessageType::PingRequest {
                        add_replies(scan(data, body_end), ping_reply())
                    } else if m == MessageType::DisconnectRequest {
                        add_replies(scan(data, body_end), disconnect_reply())
                    } else if m == MessageType::GetTimeRequest {
                        ScanOutcome::TimeQuery { npos: body_end, replies: Seq::empty() }
                    } else if is_state_push(m) {
                        ScanOutcome::StatePush {
                            kind: m,
                            body: data.subrange(end as int, body_end),
                            npos: body_end,
                            replies: Seq::empty(),
                        }
                    } else if is_skipped_push(m) {
                        scan(data, body_end)
                    } else {
                        ScanOutcome::Unhandled {
                            header,
                            npos: end as int,
                            replies: Seq::empty(),
                        }
                    },
                }
            }
        },
    }
}

#[via_fn]
proof fn scan_decreases(data: Seq<u8>, pos: int) {
    lemma_header_parse_end(data, pos);
}

proof fn lemma_add_replies_empty(o: ScanOutcome)
    ensures
        add_replies(o, Seq::empty()) == o,
{
    match o {
        ScanOutcome::NeedMore { npos, replies } => {
            assert(Seq::<u8>::empty() + replies =~= replies);
        },
        ScanOutcome::MalformedFrame { npos, replies } => {
            assert(Seq::<u8>::empty() + replies =~= replies);
        },
        ScanOutcome::UnknownType { received, npos, replies } => {
            assert(Seq::<u8>::empty() + replies =~= replies);
        },
        ScanOutcome::TimeQuery { npos, replies } => {
            assert(Seq::<u8>::empty() + replies =~= replies);
        },
        ScanOutcome::StatePush { kind, body, npos, replies } => {
            assert(Seq::<u8>::empty() + replies =~= replies);
        },
        ScanOutcome::Unhandled { header, npos, replies } => {
            assert(Seq::<u8>::empty() + replies =~= replies);
        },
    }
}

proof fn lemma_add_replies_assoc(o: ScanOutcome, r1: Seq<u8>, r2: Seq<u8>)
    ensures
        add_replies(add_replies(o, r2), r1) == add_replies(o, r1 + r2),
{
    match o {
        ScanOutcome::NeedMore { npos, replies } => {
            assert(r1 + (r2 + replies) =~= (r1 + r2) + replies);
        },
        ScanOutcome::MalformedFrame { npos, replies } => {
            assert(r1 + (r2 + replies) =~= (r1 + r2) + replies);
        },
        ScanOutcome::UnknownType { received, npos, replies } => {
            assert(r1 + (r2 + replies) =~= (r1 + r2) + replies);
        },
        ScanOutcome::TimeQuery { npos, replies } => {
            assert(r1 + (r2 + replies) =~= (r1 + r2) + replies);
        },
        ScanOutcome::StatePush { kind, body, npos, replies } => {
            assert(r1 + (r2 + replies) =~= (r1 + r2) + replies);
        },
        ScanOutcome::Unhandled { header, npos, replies } => {
            assert(r1 + (r2 + replies) =~= (r1 + r2) + replies);
        },
    }
}

/// A scan never moves backwards nor past the data, and stops on an
/// unhandled frame only when that frame's whole body is buffered.
pub proof fn lemma_scan_props(data: Seq<u8>, pos: int)
    requires
        0 <= pos <= data.len(),
        data.len() <= usize::MAX,
    ensures
        pos <= scan_npos(scan(data, pos)) <= data.len(),
        scan(data, pos) matches ScanOutcome::Unhandled { header, npos, .. } ==> npos
            + header.message_length <= data.len(),
    decreases data.len() - pos,
{
    lemma_header_parse_end(data, pos);
    match header_parse(data, pos) {
        HeaderResult::Header { header, end } => {
            let body_end = end + header.message_length as int;
            if body_end <= data.len() {
                match from_tag_spec(header.message_type) {
                    Option::Some(m) => {
                        if m == MessageType::PingRequest || m == MessageType::DisconnectRequest
                            || is_skipped_push(m) {
                            lemma_scan_props(data, body_end);
                            let inner = scan(data, body_end);
                            if m == MessageType::PingRequest {
                                assert(scan_npos(add_replies(inner, ping_reply())) == scan_npos(
                                    inner,
                                ));
                            } else if m == MessageType::DisconnectRequest {
                                assert(scan_npos(add_replies(inner, disconnect_reply()))
                                    == scan_npos(inner));
                            }
                        }
                    },
                    Option::None => {},
                }
            }
        },
        _ => {},
    }
}

/// Does observing `state` for `key` over `cache` emit a change event?
/// Yes exactly when no equal value is already cached: the first
/// observation of a key always emits, and a repeat never does.
pub open spec fn state_emits(cache: Map<u32, State>, key: u32, state: State) -> bool {
    !(cache.contains_key(key) && state_eq(cache[key], state))
}

/// Feeding a value that was just cached emits nothing: at most one event
/// per transition.
pub proof fn lemma_repeated_state_not_emitted(cache: Map<u32, State>, key: u32, state: State)
    ensures
        !state_emits(cache.insert(key, state), key, state),
{
}

/// The first observation of a key over an empty cache always emits, even
/// though no prior value differs from it.
pub proof fn lemma_first_observation_emits(key: u32, state: State)
    ensures
        state_emits(Map::<u32, State>::empty(), key, state),
{
}

/// A keep-alive request in front of any remaining bytes is answered and
/// absorbed: the read loop queues the keep-alive reply and goes on with
/// the rest as if the frame had never been there.
pub proof fn lemma_ping_transparent(body: Seq<u8>, rest: Seq<u8>)
    requires
        body.len() <= u32::MAX,
        frame_enc(tag_of(MessageType::PingRequest), body).len() + rest.len() <= usize::MAX,
    ensures
        ({
            let fr = frame_enc(tag_of(MessageType::PingRequest), body);
            scan(fr + rest, 0) == add_replies(scan(fr + rest, fr.len() as int), ping_reply())
        }),
{
    let fr = frame_enc(tag_of(MessageType::PingRequest), body);
    crate::frame::lemma_frame_round_trip(tag_of(MessageType::PingRequest), body, rest);
}

/// A state push of a deliberately unsupported kind is consumed whole,
/// body and all, without stopping the read loop and without touching
/// anything else.
pub proof fn lemma_skipped_push_transparent(kind: MessageType, body: Seq<u8>, rest: Seq<u8>)
    requires
        is_skipped_push(kind),
        body.len() <= u32::MAX,
        frame_enc(tag_of(kind), body).len() + rest.len() <= usize::MAX,
    ensures
        ({
            let fr = frame_enc(tag_of(kind), body);
            scan(fr + rest, 0) == scan(fr + rest, fr.len() as int)
        }),
{
    let fr = frame_enc(tag_of(kind), body);
    crate::frame::lemma_frame_round_trip(tag_of(kind), body, rest);
}

/// What the unsolicited dispatcher did with one frame.
#[derive(Debug)]
pub enum Dispatch {
    /// Fully consumed: answered or discarded; keep reading.
    Handled,
    /// Consumed; the owner must schema-decode `payload` and apply the
    /// state through [`Connection::on_new_state`].
    StatePush { kind: MessageType, payload: Vec<u8> },
    /// Consumed; the owner must answer with a time response frame.
    TimeQuery,
    /// Not consumed: the frame belongs to the caller.
    Unhandled,
}

/// What waiting for a frame header left behind.
#[derive(Debug)]
pub enum HeaderOutcome {
    /// The buffer ran dry; feed more bytes and call again.
    NeedMoreData,
    /// A state push to decode and apply before calling again.
    StatePush { kind: MessageType, payload: Vec<u8> },
    /// A time query to answer before calling again.
    TimeQuery,
    /// An unhandled frame's header; its body is next in the buffer.
    Header(MessageHeader),
}

/// What waiting for a typed reply left behind.
#[derive(Debug)]
pub enum ReceiveOutcome {
    /// The buffer ran dry; feed more bytes and call again.
    NeedMoreData,
    /// A state push to decode and apply before calling again.
    StatePush { kind: MessageType, payload: Vec<u8> },
    /// A time query to answer before calling again.
    TimeQuery,
    /// The payload of the awaited reply frame.
    Reply(Vec<u8>),
}

/// Where a reply wait stops in the buffer: past the matching frame, at
/// the body of a mismatched one, or wherever the scan stopped.
pub open spec fn reply_consumed_to(s: ScanOutcome, reply_type: MessageType) -> int {
    match s {
        ScanOutcome::Unhandled { header, npos, .. } => if header.message_type == tag_of(
            reply_type,
        ) {
            npos + header.message_length as int
        } else {
            npos
        },
        _ => scan_npos(s),
    }
}

/// The result a reply wait must report for a given scan of the buffer.
pub open spec fn reply_result_matches(
    s: ScanOutcome,
    reply_type: MessageType,
    data: Seq<u8>,
    r: Result<ReceiveOutcome, EspHomeError>,
) -> bool {
    match s {
        ScanOutcome::NeedMore { .. } => r == Ok::<ReceiveOutcome, EspHomeError>(
            ReceiveOutcome::NeedMoreData,
        ),
        ScanOutcome::MalformedFrame { .. } => r == Err::<ReceiveOutcome, EspHomeError>(
            EspHomeError::MalformedVarint,
        ),
        ScanOutcome::UnknownType { received, .. } => r == Err::<ReceiveOutcome, EspHomeError>(
            EspHomeError::UnknownMessageType { received },
        ),
        ScanOutcome::TimeQuery { .. } => r == Ok::<ReceiveOutcome, EspHomeError>(
            ReceiveOutcome::TimeQuery,
        ),
        ScanOutcome::StatePush { kind, body, .. } => r matches Ok(
            ReceiveOutcome::StatePush { kind: k, payload },
        ) && k == kind && payload@ == body,
        ScanOutcome::Unhandled { header, npos, .. } => if header.message_type == tag_of(
            reply_type,
        ) {
            r matches Ok(ReceiveOutcome::Reply(body)) && body@ == data.subrange(
                npos,
                npos + header.message_length as int,
            )
        } else {
            r == Err::<ReceiveOutcome, EspHomeError>(
                EspHomeError::UnexpectedResponse {
                    expected: reply_type,
                    received: header.message_type,
                },
            )
        },
    }
}

/// One connection to the remote device: the bytes received and not yet
/// interpreted, the bytes owed to the transport, and the last observed
/// state of every entity that pushed one.
pub struct Connection {
    input: Vec<u8>,
    pos: usize,
    output: Vec<u8>,
    states: HashMap<u32, State>,
}

impl Connection {
    /// All bytes ever fed, interpreted or not.
    pub closed spec fn buf(&self) -> Seq<u8> {
        self.input@
    }

    /// How far into `buf` the engine has read.
    pub closed spec fn cursor(&self) -> int {
        self.pos as int
    }

    /// Bytes queued for the transport and not yet taken.
    pub closed spec fn pending_out(&self) -> Seq<u8> {
        self.output@
    }

    /// The state cache: last observed state per entity key.
    pub closed spec fn cache(&self) -> Map<u32, State> {
        self.states@
    }

    pub open spec fn wf(&self) -> bool {
        0 <= self.cursor() <= self.buf().len()
    }

    /// The bytes not yet interpreted.
    pub open spec fn unread(&self) -> Seq<u8> {
        self.buf().subrange(self.cursor(), self.buf().len() as int)
    }

    /// A fresh connection: nothing buffered, nothing owed, nothing cached.
    pub fn new() -> (c: Connection)
        ensures
            c.wf(),
            c.buf() == Seq::<u8>::empty(),
            c.cursor() == 0,
            c.pending_out() == Seq::<u8>::empty(),
            c.cache() == Map::<u32, State>::empty(),
    {
        Connection { input: Vec::new(), pos: 0, output: Vec::new(), states: HashMap::new() }
    }

    /// Hands the engine bytes read from the transport.
    pub fn feed(&mut self, bytes: &Vec<u8>)
        requires
            old(self).wf(),
            old(self).buf().len() + bytes@.len() <= usize::MAX,
        ensures
            final(self).wf(),
            final(self).buf() == old(self).buf() + bytes@,
            final(self).cursor() == old(self).cursor(),
            final(self).pending_out() == old(self).pending_out(),
            final(self).cache() == old(self).cache(),
    {
        let ghost b0: Seq<u8> = self.input@;
        let mut i: usize = 0;
        while i < bytes.len()
            invariant
                i <= bytes@.len(),
                self.input@ == b0 + bytes@.subrange(0, i as int),
                self.pos == old(self).pos,
                self.output@ == old(self).output@,
                self.states@ == old(self).states@,
            decreases bytes@.len() - i,
        {
            self.input.push(bytes[i]);
            i = i + 1;
            proof {
                assert(self.input@ =~= b0 + bytes@.subrange(0, i as int));
            }
        }
        proof {
            assert(bytes@.subrange(0, bytes@.len() as int) =~= bytes@);
        }
    }

    /// Takes every byte owed to the transport; the caller writes them.
    pub fn take_output(&mut self) -> (r: Vec<u8>)
        ensures
            final(self).wf() == old(self).wf(),
            r@ == old(self).pending_out(),
            final(self).pending_out() == Seq::<u8>::empty(),
            final(self).buf() == old(self).buf(),
            final(self).cursor() == old(self).cursor(),
            final(self).cache() == old(self).cache(),
    {
        let r = self.output.split_off(0);
        proof {
            assert(r@ =~= old(self).output@);
            assert(self.output@ =~= Seq::<u8>::empty());
        }
        r
    }

    /// Queues one frame: marker, payload length, type tag, payload.
    pub fn send_message(&mut self, message_type: MessageType, payload: &Vec<u8>)
        requires
            old(self).wf(),
            payload@.len() <= u32::MAX,
        ensures
            final(self).wf(),
            final(self).pending_out() == old(self).pending_out() + frame_enc(
                tag_of(message_type),
                payload@,
            ),
            final(self).buf() == old(self).buf(),
            final(self).cursor() == old(self).cursor(),
            final(self).cache() == old(self).cache(),
    {
        let mut fr = write_frame(message_type.tag(), payload);
        self.output.append(&mut fr);
    }

    /// Discards exactly `n` unread bytes, or nothing if fewer are
    /// buffered; says which it did.
    pub fn skip_bytes(&mut self, n: u32) -> (r: bool)
        requires
            old(self).wf(),
        ensures
            final(self).wf(),
            r == (n as int <= old(self).unread().len()),
            final(self).cursor() == if r {
                old(self).cursor() + n as int
            } else {
                old(self).cursor()
            },
            final(self).buf() == old(self).buf(),
            final(self).pending_out() == old(self).pending_out(),
            final(self).cache() == old(self).cache(),
    {
        let remaining = self.input.len() - self.pos;
        if (n as usize) <= remaining {
            self.pos = self.pos + (n as usize);
            true
        } else {
            false
        }
    }

    /// Reads exactly `length` unread bytes as a frame body, or nothing if
    /// fewer are buffered.
    pub fn read_frame_body(&mut self, length: u32) -> (r: Option<Vec<u8>>)
        requires
            old(self).wf(),
        ensures
            final(self).wf(),
            final(self).buf() == old(self).buf(),
            final(self).pending_out() == old(self).pending_out(),
            final(self).cache() == old(self).cache(),
            if length as int <= old(self).unread().len() {
                &&& r matches Some(body) && body@ == old(self).buf().subrange(
                    old(self).cursor(),
                    old(self).cursor() + length as int,
                )
                &&& final(self).cursor() == old(self).cursor() + length as int
            } else {
                &&& r is None
                &&& final(self).cursor() == old(self).cursor()
            },
    {
        let remaining = self.input.len() - self.pos;
        if (length as usize) > remaining {
            return None;
        }
        let stop = self.pos + (length as usize);
        let mut body: Vec<u8> = Vec::new();
        while self.pos < stop
            invariant
                old(self).cursor() <= self.pos <= stop,
                stop <= self.input@.len(),
                stop == old(self).cursor() + length as int,
                self.input@ == old(self).input@,
                self.output@ == old(self).output@,
                self.states@ == old(self).states@,
                body@ == self.input@.subrange(old(self).cursor(), self.pos as int),
            decreases stop - self.pos,
        {
            body.push(self.input[self.pos]);
            self.pos = self.pos + 1;
            proof {
                assert(body@ =~= self.input@.subrange(old(self).cursor(), self.pos as int));
            }
        }
        Some(body)
    }

    /// Looks the prior state up and, when `state` is new for `key` --
    /// first observation or a different value -- caches it and returns
    /// the event to deliver; an equal value cached already is a no-op.
    pub fn on_new_state(&mut self, key: u32, state: State) -> (emitted: Option<StateChangeEvent>)
        requires
            old(self).wf(),
        ensures
            final(self).wf(),
            final(self).buf() == old(self).buf(),
            final(self).cursor() == old(self).cursor(),
            final(self).pending_out() == old(self).pending_out(),
            if state_emits(old(self).cache(), key, state) {
                &&& final(self).cache() == old(self).cache().insert(key, state)
                &&& emitted matches Some(ev) && ev.key == key && ev.state == state
            } else {
                &&& final(self).cache() == old(self).cache()
                &&& emitted is None
            },
    {
        let cached_same: bool = match self.states.get(&key) {
            Some(s) => *s == state,
            None => false,
        };
        if cached_same {
            return None;
        }
        let copy = state.duplicate();
        self.states.insert(key, copy);
        Some(StateChangeEvent::new(key, state))
    }

    /// The cached state for a key, if one was ever pushed. Reads nothing
    /// from the transport and never blocks.
    pub fn get_last_state_for_key(&self, entity_key: u32) -> (r: Option<State>)
        ensures
            match r {
                Some(s) => self.cache().contains_key(entity_key) && s == self.cache()[entity_key],
                None => !self.cache().contains_key(entity_key),
            },
    {
        match self.states.get(&entity_key) {
            Some(s) => Some(s.duplicate()),
            None => None,
        }
    }

    /// The cached state for an entity, if one was ever pushed.
    pub fn get_last_state(&self, entity: &Entity) -> (r: Option<State>)
        ensures
            match r {
                Some(s) => self.cache().contains_key(entity.info().key) && s == self.cache()[entity.info().key],
                None => !self.cache().contains_key(entity.info().key),
            },
    {
        self.get_last_state_for_key(entity.key())
    }

    /// Offers one frame, whose header was just consumed and whose body is
    /// next in the buffer, to the unsolicited dispatcher. Keep-alive and
    /// disconnect requests are answered on the spot; supported state
    /// pushes are cut out for the owner to decode; deliberately
    /// unsupported pushes are discarded; anything else recognized is left
    /// whole for the caller, and an unrecognized tag is fatal.
    pub fn process_unsolicited(&mut self, header: &MessageHeader) -> (r: Result<
        Dispatch,
        EspHomeError,
    >)
        requires
            old(self).wf(),
            header.message_length as int <= old(self).unread().len(),
        ensures
            final(self).wf(),
            final(self).buf() == old(self).buf(),
            final(self).cache() == old(self).cache(),
            ({
                let c0 = old(self).cursor();
                let l = header.message_length as int;
                match from_tag_spec(header.message_type) {
                    Option::None => {
                        &&& r == Err::<Dispatch, EspHomeError>(
                            EspHomeError::UnknownMessageType { received: header.message_type },
                        )
                        &&& final(self).cursor() == c0
                        &&& final(self).pending_out() == old(self).pending_out()
                    },
                    Option::Some(m) => if m == MessageType::PingRequest {
                        &&& r matches Ok(Dispatch::Handled)
                        &&& final(self).cursor() == c0 + l
                        &&& final(self).pending_out() == old(self).pending_out() + ping_reply()
                    } else if m == MessageType::DisconnectRequest {
                        &&& r matches Ok(Dispatch::Handled)
                        &&& final(self).cursor() == c0 + l
                        &&& final(self).pending_out() == old(self).pending_out()
                            + disconnect_reply()
                    } else if m == MessageType::GetTimeRequest {
                        &&& r matches Ok(Dispatch::TimeQuery)
                        &&& final(self).cursor() == c0 + l
                        &&& final(self).pending_out() == old(self).pending_out()
                    } else if is_state_push(m) {
                        &&& r matches Ok(Dispatch::StatePush { kind, payload }) && kind == m
                            && payload@ == old(self).buf().subrange(c0, c0 + l)
                        &&& final(self).cursor() == c0 + l
                        &&& final(self).pending_out() == old(self).pending_out()
                    } else if is_skipped_push(m) {
                        &&& r matches Ok(Dispatch::Handled)
                        &&& final(self).cursor() == c0 + l
                        &&& final(self).pending_out() == old(self).pending_out()
                    } else {
                        &&& r matches Ok(Dispatch::Unhandled)
                        &&& final(self).cursor() == c0
                        &&& final(self).pending_out() == old(self).pending_out()
                    },
                }
            }),
    {
        match MessageType::from_tag(header.message_type) {
            None => Err(EspHomeError::UnknownMessageType { received: header.message_type }),
            Some(MessageType::PingRequest) => {
                let skipped = self.skip_bytes(header.message_length);
                assert(skipped);
                let empty: Vec<u8> = Vec::new();
                self.send_message(MessageType::PingResponse, &empty);
                Ok(Dispatch::Handled)
            },
            Some(MessageType::DisconnectRequest) => {
                let skipped = self.skip_bytes(header.message_length);
                assert(skipped);
                let empty: Vec<u8> = Vec::new();
                self.send_message(MessageType::DisconnectResponse, &empty);
                Ok(Dispatch::Handled)
            },
            Some(MessageType::GetTimeRequest) => {
                let skipped = self.skip_bytes(header.message_length);
                assert(skipped);
                Ok(Dispatch::TimeQuery)
            },
            Some(
                m @ (MessageType::BinarySensorStateResponse | MessageType::SensorStateResponse
                | MessageType::TextSensorStateResponse | MessageType::SwitchStateResponse
                | MessageType::LightStateResponse | MessageType::FanStateResponse
                | MessageType::LockStateResponse),
            ) => {
                match self.read_frame_body(header.message_length) {
                    Some(payload) => Ok(Dispatch::StatePush { kind: m, payload }),
                    None => {
                        proof {
                            assert(false);
                        }
                        Err(EspHomeError::Io)
                    },
                }
            },
            Some(
                MessageType::CoverStateResponse | MessageType::ClimateStateResponse
                | MessageType::NumberStateResponse | MessageType::SelectStateResponse,
            ) => {
                let skipped = self.skip_bytes(header.message_length);
                assert(skipped);
                Ok(Dispatch::Handled)
            },
            Some(_) => Ok(Dispatch::Unhandled),
        }
    }

    /// Reads frame headers, offering each frame to the unsolicited
    /// dispatcher, until one is not fully handled or the buffer runs dry.
    /// This is the blocking read loop of a request, as far as the buffer
    /// carries it.
    pub fn receive_message_header(&mut self) -> (r: Result<HeaderOutcome, EspHomeError>)
        requires
            old(self).wf(),
        ensures
            final(self).wf(),
            final(self).buf() == old(self).buf(),
            final(self).cache() == old(self).cache(),
            final(self).cursor() == scan_npos(scan(old(self).buf(), old(self).cursor())),
            final(self).pending_out() == old(self).pending_out() + scan_replies(
                scan(old(self).buf(), old(self).cursor()),
            ),
            match scan(old(self).buf(), old(self).cursor()) {
                ScanOutcome::NeedMore { .. } => r matches Ok(HeaderOutcome::NeedMoreData),
                ScanOutcome::MalformedFrame { .. } => r == Err::<HeaderOutcome, EspHomeError>(
                    EspHomeError::MalformedVarint,
                ),
                ScanOutcome::UnknownType { received, .. } => r == Err::<
                    HeaderOutcome,
                    EspHomeError,
                >(EspHomeError::UnknownMessageType { received }),
                ScanOutcome::TimeQuery { .. } => r matches Ok(HeaderOutcome::TimeQuery),
                ScanOutcome::StatePush { kind, body, .. } => r matches Ok(
                    HeaderOutcome::StatePush { kind: k, payload },
                ) && k == kind && payload@ == body,
                ScanOutcome::Unhandled { header, .. } => r matches Ok(HeaderOutcome::Header(h))
                    && h == header,
            },
    {
        let ghost b: Seq<u8> = self.buf();
        let ghost c0: int = self.cursor();
        let ghost out0: Seq<u8> = self.pending_out();
        let ghost cache0: Map<u32, State> = self.cache();
        // the length of a real vector always fits usize, which the scan's
        // well-formedness condition asks for
        let _buffered: usize = self.input.len();
        proof {
            lemma_add_replies_empty(scan(b, c0));
            assert(self.pending_out().subrange(out0.len() as int, self.pending_out().len() as int)
                =~= Seq::<u8>::empty());
        }
        loop
            invariant
                self.wf(),
                b == old(self).buf(),
                c0 == old(self).cursor(),
                out0 == old(self).pending_out(),
                cache0 == old(self).cache(),
                self.buf() == b,
                b.len() <= usize::MAX,
                self.cache() == cache0,
                c0 <= self.cursor() <= b.len(),
                out0.len() <= self.pending_out().len(),
                out0 == self.pending_out().subrange(0, out0.len() as int),
                scan(b, c0) == add_replies(
                    scan(b, self.cursor()),
                    self.pending_out().subrange(
                        out0.len() as int,
                        self.pending_out().len() as int,
                    ),
                ),
            decreases b.len() - self.cursor(),
        {
            let ghost cur: int = self.cursor();
            let ghost app: Seq<u8> = self.pending_out().subrange(
                out0.len() as int,
                self.pending_out().len() as int,
            );
            let hr = read_frame_header(&self.input, self.pos);
            match hr {
                HeaderResult::Incomplete => {
                    proof {
                        assert(app + Seq::<u8>::empty() =~= app);
                        assert(self.pending_out() =~= out0 + app);
                    }
                    return Ok(HeaderOutcome::NeedMoreData);
                },
                HeaderResult::Malformed => {
                    proof {
                        assert(app + Seq::<u8>::empty() =~= app);
                        assert(self.pending_out() =~= out0 + app);
                    }
                    return Err(EspHomeError::MalformedVarint);
                },
                HeaderResult::Header { header, end } => {
                    proof {
                        lemma_header_parse_end(b, cur);
                    }
                    if (header.message_length as usize) > self.input.len() - end {
                        proof {
                            assert(app + Seq::<u8>::empty() =~= app);
                            assert(self.pending_out() =~= out0 + app);
                        }
                        return Ok(HeaderOutcome::NeedMoreData);
                    }
                    self.pos = end;
                    let ghost body_end: int = end + header.message_length as int;
                    match self.process_unsolicited(&header) {
                        Err(e) => {
                            proof {
                                assert(app + Seq::<u8>::empty() =~= app);
                                assert(self.pending_out() =~= out0 + app);
                            }
                            return Err(e);
                        },
                        Ok(Dispatch::Handled) => {
                            proof {
                                let t = from_tag_spec(header.message_type);
                                if t == Some(MessageType::PingRequest) {
                                    lemma_add_replies_assoc(scan(b, body_end), app, ping_reply());
                                    assert(self.pending_out().subrange(
                                        out0.len() as int,
                                        self.pending_out().len() as int,
                                    ) =~= app + ping_reply());
                                    assert(self.pending_out().subrange(0, out0.len() as int) =~=
                                    out0);
                                } else if t == Some(MessageType::DisconnectRequest) {
                                    lemma_add_replies_assoc(
                                        scan(b, body_end),
                                        app,
                                        disconnect_reply(),
                                    );
                                    assert(self.pending_out().subrange(
                                        out0.len() as int,
                                        self.pending_out().len() as int,
                                    ) =~= app + disconnect_reply());
                                    assert(self.pending_out().subrange(0, out0.len() as int) =~=
                                    out0);
                                }
                            }
                        },
                        Ok(Dispatch::TimeQuery) => {
                            proof {
                                assert(app + Seq::<u8>::empty() =~= app);
                                assert(self.pending_out() =~= out0 + app);
                            }
                            return Ok(HeaderOutcome::TimeQuery);
                        },
                        Ok(Dispatch::StatePush { kind, payload }) => {
                            proof {
                                assert(app + Seq::<u8>::empty() =~= app);
                                assert(self.pending_out() =~= out0 + app);
                            }
                            return Ok(HeaderOutcome::StatePush { kind, payload });
                        },
                        Ok(Dispatch::Unhandled) => {
                            proof {
                                assert(app + Seq::<u8>::empty() =~= app);
                                assert(self.pending_out() =~= out0 + app);
                            }
                            return Ok(HeaderOutcome::Header(header));
                        },
                    }
                },
            }
        }
    }

    /// Waits for the reply of type `message_type`: every frame read first
    /// passes the unsolicited dispatcher, and the first unhandled one must
    /// carry the awaited tag. A mismatch fails with both tags and leaves
    /// the stray frame's body unread, which is only safe for a caller
    /// that then abandons the connection.
    pub fn receive_message(&mut self, message_type: MessageType) -> (r: Result<
        ReceiveOutcome,
        EspHomeError,
    >)
        requires
            old(self).wf(),
        ensures
            final(self).wf(),
            final(self).buf() == old(self).buf(),
            final(self).cache() == old(self).cache(),
            final(self).cursor() == reply_consumed_to(
                scan(old(self).buf(), old(self).cursor()),
                message_type,
            ),
            final(self).pending_out() == old(self).pending_out() + scan_replies(
                scan(old(self).buf(), old(self).cursor()),
            ),
            reply_result_matches(
                scan(old(self).buf(), old(self).cursor()),
                message_type,
                old(self).buf(),
                r,
            ),
    {
        let ghost b: Seq<u8> = self.buf();
        let ghost c0: int = self.cursor();
        // the length of a real vector always fits usize, which the scan's
        // well-formedness condition asks for
        let _buffered: usize = self.input.len();
        match self.receive_message_header() {
            Err(e) => Err(e),
            Ok(HeaderOutcome::NeedMoreData) => Ok(ReceiveOutcome::NeedMoreData),
            Ok(HeaderOutcome::TimeQuery) => Ok(ReceiveOutcome::TimeQuery),
            Ok(HeaderOutcome::StatePush { kind, payload }) => Ok(
                ReceiveOutcome::StatePush { kind, payload },
            ),
            Ok(HeaderOutcome::Header(header)) => {
                if header.message_type() == message_type.tag() {
                    proof {
                        lemma_scan_props(b, c0);
                    }
                    match self.read_frame_body(header.message_length()) {
                        Some(body) => Ok(ReceiveOutcome::Reply(body)),
                        None => {
                            proof {
                                assert(false);
                            }
                            Err(EspHomeError::Io)
                        },
                    }
                } else {
                    Err(
                        EspHomeError::UnexpectedResponse {
                            expected: message_type,
                            received: header.message_type(),
                        },
                    )
                }
            },
        }
    }

    /// One synchronous request: queue the request frame, then wait for
    /// the reply frame of type `reply_type` as `receive_message` does.
    pub fn request(&mut self, message_type: MessageType, message: &Vec<u8>, reply_type: MessageType)
        -> (r: Result<ReceiveOutcome, EspHomeError>)
        requires
            old(self).wf(),
            message@.len() <= u32::MAX,
        ensures
            final(self).wf(),
            final(self).buf() == old(self).buf(),
            final(self).cache() == old(self).cache(),
            final(self).cursor() == reply_consumed_to(
                scan(old(self).buf(), old(self).cursor()),
                reply_type,
            ),
            final(self).pending_out() == old(self).pending_out() + frame_enc(
                tag_of(message_type),
                message@,
            ) + scan_replies(scan(old(self).buf(), old(self).cursor())),
            reply_result_matches(
                scan(old(self).buf(), old(self).cursor()),
                reply_type,
                old(self).buf(),
                r,
            ),
    {
        self.send_message(message_type, message);
        self.receive_message(reply_type)
    }
}

} // verus!
