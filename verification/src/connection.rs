//! The connection engine: framed sends, the push-interception read loop, and
//! request/reply correlation, all over one [`Peer`] byte channel.
//!
//! The read loop is the sole entry point that consumes frames: it answers
//! keep-alive pings, disconnect notices and clock queries itself, applies
//! state pushes to the cache, skips frames with unregistered tags by their
//! declared length, and hands every other frame's header to the caller.
//! Its whole behaviour is the recursive specification [`read_loop`].

use vstd::prelude::*;
use std::collections::HashMap;
use crate::fields::{take_fields, payload_well_formed, FieldV, FieldValueV, lemma_fields_bytes1};
use crate::varint::lemma_varint_len;
use crate::frame::{take_header, frame_bytes, HeaderStep, HeaderRead, encode_frame,
    lemma_take_header_bounds};
use crate::messages::{
    GetTimeResponse, GetTimeResponseV, get_time_response_bytes, encode_get_time_response,
    parsed_binary_sensor_state, parsed_sensor_state, parsed_text_sensor_state,
    decode_binary_sensor_state, decode_sensor_state, decode_text_sensor_state,
};
use crate::model::{
    MessageType, State, StateV, Entity, EspHomeError, Event, is_known_tag, is_push_tag, is_push,
};
use crate::peer::Peer;

verus! {

broadcast use vstd::std_specs::hash::group_hash_axioms;

/// One frame header: the declared payload length and the numeric type tag.
#[derive(Debug, Clone, Copy, PartialEq, Eq, Structural)]
pub struct MessageHeader {
    pub message_length: u32,
    pub message_type: u32,
}

impl MessageHeader {
    /// The numeric type tag of the frame.
    pub fn message_type(&self) -> (r: u32)
        ensures
            r == self.message_type,
    {
        self.message_type
    }

    /// The declared payload length of the frame.
    pub fn message_length(&self) -> (r: u32)
        ensures
            r == self.message_length,
    {
        self.message_length
    }
}

/// What handling one push frame does: the new state cache, the reply bytes
/// written, and the event logged — or `None` when the payload does not parse.
pub open spec fn push_effect(tag: u32, payload: Seq<u8>, states: Map<u32, StateV>, epoch: u32)
    -> Option<(Map<u32, StateV>, Seq<u8>, Event)>
    recommends
        is_push_tag(tag),
{
    if tag == MessageType::PingRequest.spec_tag() {
        if take_fields(payload) is Some {
            Some(
                (
                    states,
                    frame_bytes(MessageType::PingResponse.spec_tag(), Seq::empty()),
                    Event::PushHandled { tag },
                ),
            )
        } else {
            None
        }
    } else if tag == MessageType::DisconnectRequest.spec_tag() {
        if take_fields(payload) is Some {
            Some(
                (
                    states,
                    frame_bytes(MessageType::DisconnectResponse.spec_tag(), Seq::empty()),
                    Event::PushHandled { tag },
                ),
            )
        } else {
            None
        }
    } else if tag == MessageType::GetTimeRequest.spec_tag() {
        if take_fields(payload) is Some {
            Some(
                (
                    states,
                    frame_bytes(
                        MessageType::GetTimeResponse.spec_tag(),
                        get_time_response_bytes(GetTimeResponseV { epoch_seconds: epoch }),
                    ),
                    Event::PushHandled { tag },
                ),
            )
        } else {
            None
        }
    } else if tag == MessageType::BinarySensorStateResponse.spec_tag() {
        match parsed_binary_sensor_state(payload) {
            Some(m) => Some(
                (
                    states.insert(m.key, StateV::Binary(m.state)),
                    Seq::empty(),
                    Event::StateUpdated { key: m.key },
                ),
            ),
            None => None,
        }
    } else if tag == MessageType::SensorStateResponse.spec_tag() {
        match parsed_sensor_state(payload) {
            Some(m) => Some(
                (
                    states.insert(m.key, StateV::Measurement(m.state_bits)),
                    Seq::empty(),
                    Event::StateUpdated { key: m.key },
                ),
            ),
            None => None,
        }
    } else if tag == MessageType::TextSensorStateResponse.spec_tag() {
        match parsed_text_sensor_state(payload) {
            Some(m) => Some(
                (
                    states.insert(m.key, StateV::Text(m.state)),
                    Seq::empty(),
                    Event::StateUpdated { key: m.key },
                ),
            ),
            None => None,
        }
    } else {
        // A state push of a kind without a modeled representation: its body
        // is consumed without being decoded and the cache is untouched.
        Some((states, Seq::empty(), Event::PushHandled { tag }))
    }
}

/// What one attempt to read a frame does.
pub enum StepV {
    /// The unread bytes end inside the header or inside a push frame's body.
    NeedData,
    /// The frame does not start with the zero marker.
    BadMarker,
    /// A header varint overruns five bytes.
    TooLong,
    /// A push frame's payload does not parse.
    DecodeFail { tag: u32 },
    /// A push frame (or one with an unregistered tag) was consumed whole.
    Handled { consumed: int, states: Map<u32, StateV>, reply: Seq<u8>, event: Event },
    /// A reply-class frame: its header is consumed, its payload is not.
    Deliver { length: u32, tag: u32, consumed: int },
}

/// One attempt to read a frame from the front of `s`.
pub open spec fn read_step(s: Seq<u8>, states: Map<u32, StateV>, epoch: u32) -> StepV {
    match take_header(s) {
        HeaderStep::Incomplete => StepV::NeedData,
        HeaderStep::BadMarker => StepV::BadMarker,
        HeaderStep::TooLong => StepV::TooLong,
        HeaderStep::Done { length, tag, consumed } => {
            if is_known_tag(tag) && !is_push_tag(tag) {
                StepV::Deliver { length, tag, consumed }
            } else if s.len() < consumed + length {
                StepV::NeedData
            } else {
                let payload = s.subrange(consumed, consumed + length);
                let total = consumed + length;
                if !is_known_tag(tag) {
                    StepV::Handled {
                        consumed: total,
                        states,
                        reply: Seq::empty(),
                        event: Event::UnknownTagSkipped { tag, length },
                    }
                } else {
                    match push_effect(tag, payload, states, epoch) {
                        Some((states2, reply, event)) => StepV::Handled {
                            consumed: total,
                            states: states2,
                            reply,
                            event,
                        },
                        None => StepV::DecodeFail { tag },
                    }
                }
            }
        },
    }
}

/// How the read loop ends.
pub enum OutcomeV {
    /// The unread bytes end before a deliverable frame: more input is needed.
    NeedData,
    /// A frame without the zero marker: the connection is broken.
    BadMarker,
    /// An over-long header varint: the connection is broken.
    TooLong,
    /// A push frame whose payload does not parse.
    DecodeFail { tag: u32 },
    /// A reply-class header is delivered; its payload is left unread.
    Deliver { length: u32, tag: u32 },
}

/// Everything the read loop does to the connection.
pub struct LoopResultV {
    /// How many unread bytes it consumes.
    pub consumed: int,
    /// The state cache it leaves.
    pub states: Map<u32, StateV>,
    /// The reply bytes it writes.
    pub replies: Seq<u8>,
    /// The events it logs.
    pub events: Seq<Event>,
    /// How it ends.
    pub outcome: OutcomeV,
}

/// The read loop: auto-handle push frames and unregistered tags until a
/// reply-class header, an error, or the end of the unread bytes.
///
/// Opaque: reason about it through [`lemma_read_loop_unfold`] and
/// [`lemma_read_loop_consumed_bounds`].
#[verifier::opaque]
pub open spec fn read_loop(s: Seq<u8>, states: Map<u32, StateV>, epoch: u32) -> LoopResultV
    decreases s.len(),
{
    match read_step(s, states, epoch) {
        StepV::NeedData => LoopResultV {
            consumed: 0,
            states,
            replies: Seq::empty(),
            events: Seq::empty(),
            outcome: OutcomeV::NeedData,
        },
        StepV::BadMarker => LoopResultV {
            consumed: 0,
            states,
            replies: Seq::empty(),
            events: Seq::empty(),
            outcome: OutcomeV::BadMarker,
        },
        StepV::TooLong => LoopResultV {
            consumed: 0,
            states,
            replies: Seq::empty(),
            events: Seq::empty(),
            outcome: OutcomeV::TooLong,
        },
        StepV::DecodeFail { tag } => LoopResultV {
            consumed: 0,
            states,
            replies: Seq::empty(),
            events: Seq::empty(),
            outcome: OutcomeV::DecodeFail { tag },
        },
        StepV::Deliver { length, tag, consumed } => LoopResultV {
            consumed,
            states,
            replies: Seq::empty(),
            events: Seq::empty(),
            outcome: OutcomeV::Deliver { length, tag },
        },
        StepV::Handled { consumed, states: states2, reply, event } => {
            if 1 <= consumed <= s.len() {
                let rest = read_loop(s.skip(consumed), states2, epoch);
                LoopResultV {
                    consumed: consumed + rest.consumed,
                    states: rest.states,
                    replies: reply + rest.replies,
                    events: seq![event] + rest.events,
                    outcome: rest.outcome,
                }
            } else {
                LoopResultV {
                    consumed: 0,
                    states: states2,
                    replies: Seq::empty(),
                    events: Seq::empty(),
                    outcome: OutcomeV::NeedData,
                }
            }
        },
    }
}

/// The read loop consumes a prefix of the input, and at least a whole header
/// where it delivers one.
pub proof fn lemma_read_loop_consumed_bounds(s: Seq<u8>, states: Map<u32, StateV>, epoch: u32)
    ensures
        0 <= read_loop(s, states, epoch).consumed <= s.len(),
        read_loop(s, states, epoch).outcome matches OutcomeV::Deliver { .. } ==> read_loop(
            s,
            states,
            epoch,
        ).consumed >= 3,
    decreases s.len(),
{
    reveal(read_loop);
    lemma_read_step_bounds(s, states, epoch);
    match read_step(s, states, epoch) {
        StepV::Handled { consumed, states: st2, .. } => {
            lemma_read_loop_consumed_bounds(s.skip(consumed), st2, epoch);
        },
        _ => {},
    }
}

/// One auto-handled frame prepends its effect to the rest of the read loop.
pub proof fn lemma_read_loop_unfold(s: Seq<u8>, states: Map<u32, StateV>, epoch: u32)
    ensures
        match read_step(s, states, epoch) {
            StepV::Handled { consumed, states: st2, reply, event } => {
                let rest = read_loop(s.skip(consumed), st2, epoch);
                &&& 1 <= consumed <= s.len()
                &&& read_loop(s, states, epoch) == (LoopResultV {
                    consumed: consumed + rest.consumed,
                    states: rest.states,
                    replies: reply + rest.replies,
                    events: seq![event] + rest.events,
                    outcome: rest.outcome,
                })
            },
            StepV::NeedData => read_loop(s, states, epoch) == (LoopResultV {
                consumed: 0,
                states,
                replies: Seq::<u8>::empty(),
                events: Seq::<Event>::empty(),
                outcome: OutcomeV::NeedData,
            }),
            StepV::BadMarker => read_loop(s, states, epoch) == (LoopResultV {
                consumed: 0,
                states,
                replies: Seq::<u8>::empty(),
                events: Seq::<Event>::empty(),
                outcome: OutcomeV::BadMarker,
            }),
            StepV::TooLong => read_loop(s, states, epoch) == (LoopResultV {
                consumed: 0,
                states,
                replies: Seq::<u8>::empty(),
                events: Seq::<Event>::empty(),
                outcome: OutcomeV::TooLong,
            }),
            StepV::DecodeFail { tag } => read_loop(s, states, epoch) == (LoopResultV {
                consumed: 0,
                states,
                replies: Seq::<u8>::empty(),
                events: Seq::<Event>::empty(),
                outcome: OutcomeV::DecodeFail { tag },
            }),
            StepV::Deliver { length, tag, consumed } => read_loop(s, states, epoch)
                == (LoopResultV {
                consumed,
                states,
                replies: Seq::<u8>::empty(),
                events: Seq::<Event>::empty(),
                outcome: OutcomeV::Deliver { length, tag },
            }),
        },
{
    reveal(read_loop);
    lemma_read_step_bounds(s, states, epoch);
}

/// What a consumed or delivered step occupies of the input.
pub proof fn lemma_read_step_bounds(s: Seq<u8>, states: Map<u32, StateV>, epoch: u32)
    ensures
        read_step(s, states, epoch) matches StepV::Handled { consumed, .. } ==> 1 <= consumed
            <= s.len(),
        read_step(s, states, epoch) matches StepV::Deliver { consumed, .. } ==> 3 <= consumed
            <= s.len(),
{
    lemma_take_header_bounds(s);
}

/// The state cache, abstractly.
pub open spec fn view_states(m: Map<u32, State>) -> Map<u32, StateV> {
    m.map_values(|s: State| s@)
}

proof fn lemma_view_states_insert(m: Map<u32, State>, k: u32, v: State)
    ensures
        view_states(m.insert(k, v)) == view_states(m).insert(k, v@),
{
    assert(view_states(m.insert(k, v)) =~= view_states(m).insert(k, v@));
}

/// The connection engine: a byte channel, the state cache that push messages
/// fill, and the log of auto-handled frames.
pub struct Connection {
    peer: Peer,
    states: HashMap<u32, State>,
    events: Vec<Event>,
}

/// The result of one poll of the read loop.
pub enum PollStep {
    /// Nothing can be done until more bytes arrive.
    NeedData,
    /// One push frame (or unregistered frame) was consumed; poll again.
    Handled,
    /// A reply-class header; its payload is next among the unread bytes.
    Deliver(MessageHeader),
    /// A framing or payload error; the connection should not be used on.
    Failed(EspHomeError),
}

impl Connection {
    /// The channel's bookkeeping is intact.
    pub closed spec fn wf(&self) -> bool {
        self.peer.wf()
    }

    /// The bytes that have arrived and are not yet consumed.
    pub closed spec fn unread(&self) -> Seq<u8> {
        self.peer.unread()
    }

    /// Every byte written toward the remote peer.
    pub closed spec fn sent(&self) -> Seq<u8> {
        self.peer.sent()
    }

    /// The clock value used to answer time queries.
    pub closed spec fn epoch(&self) -> u32 {
        self.peer.epoch()
    }

    /// The state cache: the latest pushed state for each entity key.
    pub closed spec fn state_map(&self) -> Map<u32, StateV> {
        view_states(self.states@)
    }

    /// The log of auto-handled frames.
    pub closed spec fn event_log(&self) -> Seq<Event> {
        self.events@
    }

    /// An engine over a byte channel, with an empty state cache.
    pub fn new(peer: Peer) -> (r: Connection)
        requires
            peer.wf(),
        ensures
            r.wf(),
            r.unread() == peer.unread(),
            r.sent() == peer.sent(),
            r.epoch() == peer.epoch(),
            r.state_map() == Map::<u32, StateV>::empty(),
            r.event_log() == Seq::<Event>::empty(),
    {
        let r = Connection { peer, states: HashMap::new(), events: Vec::new() };
        proof {
            assert(r.state_map() =~= Map::<u32, StateV>::empty());
        }
        r
    }

    /// Hand the engine bytes that arrived from the remote peer.
    pub fn push_incoming(&mut self, bytes: &Vec<u8>)
        requires
            old(self).wf(),
        ensures
            final(self).wf(),
            final(self).unread() == old(self).unread() + bytes@,
            final(self).sent() == old(self).sent(),
            final(self).epoch() == old(self).epoch(),
            final(self).state_map() == old(self).state_map(),
            final(self).event_log() == old(self).event_log(),
    {
        self.peer.push_incoming(bytes);
    }

    /// Drain the bytes written so far, oldest first.
    pub fn take_outgoing(&mut self) -> (r: Vec<u8>)
        requires
            old(self).wf(),
        ensures
            final(self).wf(),
            r@ == old(self).sent(),
            final(self).sent() == Seq::<u8>::empty(),
            final(self).unread() == old(self).unread(),
            final(self).epoch() == old(self).epoch(),
            final(self).state_map() == old(self).state_map(),
            final(self).event_log() == old(self).event_log(),
    {
        self.peer.take_outgoing()
    }

    /// The bytes written so far.
    pub fn sent_bytes(&self) -> (r: &Vec<u8>)
        ensures
            r@ == self.sent(),
    {
        self.peer.sent_bytes()
    }

    /// Move the clock the engine answers time queries from.
    pub fn set_epoch(&mut self, epoch_seconds: u32)
        requires
            old(self).wf(),
        ensures
            final(self).wf(),
            final(self).epoch() == epoch_seconds,
            final(self).unread() == old(self).unread(),
            final(self).sent() == old(self).sent(),
            final(self).state_map() == old(self).state_map(),
            final(self).event_log() == old(self).event_log(),
    {
        self.peer.set_epoch(epoch_seconds);
    }

    /// The log of auto-handled frames, oldest first.
    pub fn events(&self) -> (r: &Vec<Event>)
        ensures
            r@ == self.event_log(),
    {
        &self.events
    }

    /// Frame and write one message.
    pub fn send_message(&mut self, message_type: MessageType, payload: &Vec<u8>)
        requires
            old(self).wf(),
            payload@.len() <= u32::MAX,
        ensures
            final(self).wf(),
            final(self).sent() == old(self).sent() + frame_bytes(
                message_type.spec_tag(),
                payload@,
            ),
            final(self).unread() == old(self).unread(),
            final(self).epoch() == old(self).epoch(),
            final(self).state_map() == old(self).state_map(),
            final(self).event_log() == old(self).event_log(),
    {
        let frame = encode_frame(message_type.tag(), payload);
        self.peer.write(&frame);
    }

    /// The latest pushed state for an entity, by its key: a pure lookup that
    /// never touches the channel.
    pub fn get_last_state(&self, entity: &Entity) -> (r: Option<&State>)
        ensures
            match r {
                Some(s) => self.state_map().contains_key(entity@.info.key) && s@
                    == self.state_map()[entity@.info.key],
                None => !self.state_map().contains_key(entity@.info.key),
            },
    {
        let key = entity.key();
        proof {
            assert(self.state_map().dom() =~= self.states@.dom());
        }
        match self.states.get(&key) {
            Some(s) => Some(s),
            None => None,
        }
    }

    /// Attempt one frame: exactly [`read_step`] on the unread bytes.
    fn step(&mut self) -> (r: PollStep)
        requires
            old(self).wf(),
        ensures
            final(self).wf(),
            final(self).epoch() == old(self).epoch(),
            match read_step(old(self).unread(), old(self).state_map(), old(self).epoch()) {
                StepV::NeedData => r is NeedData && unchanged(*old(self), *final(self)),
                StepV::BadMarker => r == PollStep::Failed(EspHomeError::Codec) && unchanged(*old(self), *final(self)),
                StepV::TooLong => r == PollStep::Failed(EspHomeError::Codec) && unchanged(*old(self), *final(self)),
                StepV::DecodeFail { tag } => r == PollStep::Failed(EspHomeError::Codec)
                    && unchanged(*old(self), *final(self)),
                StepV::Handled { consumed, states, reply, event } => {
                    &&& r is Handled
                    &&& final(self).unread() == old(self).unread().skip(consumed)
                    &&& final(self).state_map() == states
                    &&& final(self).sent() == old(self).sent() + reply
                    &&& final(self).event_log() == old(self).event_log() + seq![event]
                },
                StepV::Deliver { length, tag, consumed } => {
                    &&& r matches PollStep::Deliver(h) && h.message_length == length
                        && h.message_type == tag
                    &&& final(self).unread() == old(self).unread().skip(consumed)
                    &&& final(self).state_map() == old(self).state_map()
                    &&& final(self).sent() == old(self).sent()
                    &&& final(self).event_log() == old(self).event_log()
                },
            },
    {
        proof {
            lemma_take_header_bounds(self.peer.unread());
        }
        let hdr = self.peer.try_read_header();
        match hdr {
            HeaderRead::Incomplete => PollStep::NeedData,
            HeaderRead::BadMarker => PollStep::Failed(EspHomeError::Codec),
            HeaderRead::TooLong => PollStep::Failed(EspHomeError::Codec),
            HeaderRead::Done { length, tag, consumed } => {
                let known = MessageType::from_u32(tag).is_some();
                let push = is_push(tag);
                if known && !push {
                    self.peer.consume(consumed);
                    PollStep::Deliver(MessageHeader { message_length: length, message_type: tag })
                } else {
                    let avail = self.peer.unread_len();
                    if avail - consumed < length as usize {
                        PollStep::NeedData
                    } else if !known {
                        self.peer.consume(consumed + length as usize);
                        self.events.push(Event::UnknownTagSkipped { tag, length });
                        PollStep::Handled
                    } else if tag == 7 || tag == 5 || tag == 36 {
                        let payload = self.peer.peek_bytes(consumed, length as usize);
                        if payload_well_formed(&payload) {
                            self.peer.consume(consumed + length as usize);
                            let reply_payload: Vec<u8> = if tag == 36 {
                                let res = GetTimeResponse {
                                    epoch_seconds: self.peer.epoch_seconds(),
                                };
                                let p = encode_get_time_response(&res);
                                proof {
                                    lemma_fields_bytes1(
                                        FieldV {
                                            number: 1,
                                            value: FieldValueV::Fixed32(res.epoch_seconds),
                                        },
                                    );
                                    lemma_varint_len(13);
                                }
                                assert(p@.len() <= 10);
                                p
                            } else {
                                Vec::new()
                            };
                            let reply_tag: u32 = if tag == 7 {
                                8
                            } else if tag == 5 {
                                6
                            } else {
                                37
                            };
                            let reply = encode_frame(reply_tag, &reply_payload);
                            self.peer.write(&reply);
                            self.events.push(Event::PushHandled { tag });
                            PollStep::Handled
                        } else {
                            PollStep::Failed(EspHomeError::Codec)
                        }
                    } else if tag == 21 {
                        let payload = self.peer.peek_bytes(consumed, length as usize);
                        match decode_binary_sensor_state(&payload) {
                            Some(m) => {
                                self.peer.consume(consumed + length as usize);
                                let ghost old_states = self.states@;
                                let v = State::Binary(m.state);
                                proof {
                                    lemma_view_states_insert(old_states, m.key, v);
                                }
                                self.states.insert(m.key, v);
                                self.events.push(Event::StateUpdated { key: m.key });
                                PollStep::Handled
                            },
                            None => PollStep::Failed(EspHomeError::Codec),
                        }
                    } else if tag == 25 {
                        let payload = self.peer.peek_bytes(consumed, length as usize);
                        match decode_sensor_state(&payload) {
                            Some(m) => {
                                self.peer.consume(consumed + length as usize);
                                let ghost old_states = self.states@;
                                let v = State::Measurement(m.state_bits);
                                proof {
                                    lemma_view_states_insert(old_states, m.key, v);
                                }
                                self.states.insert(m.key, v);
                                self.events.push(Event::StateUpdated { key: m.key });
                                PollStep::Handled
                            },
                            None => PollStep::Failed(EspHomeError::Codec),
                        }
                    } else if tag == 27 {
                        let payload = self.peer.peek_bytes(consumed, length as usize);
                        match decode_text_sensor_state(&payload) {
                            Some(m) => {
                                self.peer.consume(consumed + length as usize);
                                let ghost old_states = self.states@;
                                let v = State::Text(m.state);
                                proof {
                                    lemma_view_states_insert(old_states, m.key, v);
                                }
                                self.states.insert(m.key, v);
                                self.events.push(Event::StateUpdated { key: m.key });
                                PollStep::Handled
                            },
                            None => PollStep::Failed(EspHomeError::Codec),
                        }
                    } else {
                        self.peer.consume(consumed + length as usize);
                        self.events.push(Event::PushHandled { tag });
                        PollStep::Handled
                    }
                }
            },
        }
    }
}

impl Connection {
    /// Read frames, auto-handling the push subset, until a reply-class header
    /// can be returned: exactly [`read_loop`] on the unread bytes. `Err(Io)`
    /// when the unread bytes end first; `Err(Codec)` on a framing violation
    /// or an unparseable push payload.
    #[verifier::rlimit(100)]
    pub fn receive_message_header(&mut self) -> (r: Result<MessageHeader, EspHomeError>)
        requires
            old(self).wf(),
        ensures
            final(self).wf(),
            final(self).epoch() == old(self).epoch(),
            ({
                let lr = read_loop(old(self).unread(), old(self).state_map(), old(self).epoch());
                &&& final(self).unread() == old(self).unread().skip(lr.consumed)
                &&& final(self).state_map() == lr.states
                &&& final(self).sent() == old(self).sent() + lr.replies
                &&& final(self).event_log() == old(self).event_log() + lr.events
                &&& match lr.outcome {
                    OutcomeV::NeedData => r == Err::<MessageHeader, EspHomeError>(
                        EspHomeError::Io,
                    ),
                    OutcomeV::BadMarker => r == Err::<MessageHeader, EspHomeError>(
                        EspHomeError::Codec,
                    ),
                    OutcomeV::TooLong => r == Err::<MessageHeader, EspHomeError>(
                        EspHomeError::Codec,
                    ),
                    OutcomeV::DecodeFail { .. } => r == Err::<MessageHeader, EspHomeError>(
                        EspHomeError::Codec,
                    ),
                    OutcomeV::Deliver { length, tag } => r == Ok::<MessageHeader, EspHomeError>(
                        MessageHeader { message_length: length, message_type: tag },
                    ),
                }
            }),
    {
        let ghost orig_unread = self.unread();
        let ghost orig_states = self.state_map();
        let ghost orig_sent = self.sent();
        let ghost orig_events = self.event_log();
        let ghost epoch = self.epoch();
        let ghost mut consumed_acc: int = 0;
        let ghost mut replies_acc: Seq<u8> = Seq::empty();
        let ghost mut events_acc: Seq<Event> = Seq::empty();
        proof {
            assert(orig_unread.skip(0) =~= orig_unread);
            assert(orig_sent + Seq::<u8>::empty() =~= orig_sent);
            assert(orig_events + Seq::<Event>::empty() =~= orig_events);
        }
        loop
            invariant
                orig_unread == old(self).unread(),
                orig_states == old(self).state_map(),
                orig_sent == old(self).sent(),
                orig_events == old(self).event_log(),
                epoch == old(self).epoch(),
                self.wf(),
                self.epoch() == epoch,
                0 <= consumed_acc <= orig_unread.len(),
                self.unread() == orig_unread.skip(consumed_acc),
                self.sent() == orig_sent + replies_acc,
                self.event_log() == orig_events + events_acc,
                ({
                    let full = read_loop(orig_unread, orig_states, epoch);
                    let cur = read_loop(self.unread(), self.state_map(), epoch);
                    &&& full.consumed == consumed_acc + cur.consumed
                    &&& full.states == cur.states
                    &&& full.replies == replies_acc + cur.replies
                    &&& full.events == events_acc + cur.events
                    &&& full.outcome == cur.outcome
                }),
            decreases self.unread().len(),
        {
            let ghost pre = *self;
            proof {
                lemma_read_step_bounds(pre.unread(), pre.state_map(), epoch);
                lemma_read_loop_unfold(pre.unread(), pre.state_map(), epoch);
            }
            match self.step() {
                PollStep::NeedData => {
                    proof {
                        assert(replies_acc + Seq::<u8>::empty() =~= replies_acc);
                        assert(events_acc + Seq::<Event>::empty() =~= events_acc);
                    }
                    return Err(EspHomeError::Io);
                },
                PollStep::Failed(e) => {
                    proof {
                        assert(replies_acc + Seq::<u8>::empty() =~= replies_acc);
                        assert(events_acc + Seq::<Event>::empty() =~= events_acc);
                    }
                    return Err(e);
                },
                PollStep::Deliver(h) => {
                    proof {
                        let stp = read_step(pre.unread(), pre.state_map(), epoch);
                        match stp {
                            StepV::Deliver { length, tag, consumed } => {
                                assert(orig_unread.skip(consumed_acc).skip(consumed)
                                    =~= orig_unread.skip(consumed_acc + consumed));
                            },
                            _ => {},
                        }
                        assert(replies_acc + Seq::<u8>::empty() =~= replies_acc);
                        assert(events_acc + Seq::<Event>::empty() =~= events_acc);
                    }
                    return Ok(h);
                },
                PollStep::Handled => {
                    proof {
                        let stp = read_step(pre.unread(), pre.state_map(), epoch);
                        match stp {
                            StepV::Handled { consumed, states, reply, event } => {
                                assert(orig_unread.skip(consumed_acc).skip(consumed)
                                    =~= orig_unread.skip(consumed_acc + consumed));
                                let rest = read_loop(
                                    pre.unread().skip(consumed),
                                    states,
                                    epoch,
                                );
                                assert(replies_acc + (reply + rest.replies) =~= (replies_acc
                                    + reply) + rest.replies);
                                assert(events_acc + (seq![event] + rest.events) =~= (events_acc
                                    + seq![event]) + rest.events);
                                consumed_acc = consumed_acc + consumed;
                                replies_acc = replies_acc + reply;
                                events_acc = events_acc + seq![event];
                            },
                            _ => {
                                assert(false);
                            },
                        }
                    }
                },
            }
        }
    }

    /// Read exactly the declared payload of a header whose payload has not
    /// been consumed; `Err(Io)` when fewer bytes than declared are unread.
    pub fn receive_message_body(&mut self, header: &MessageHeader) -> (r: Result<
        Vec<u8>,
        EspHomeError,
    >)
        requires
            old(self).wf(),
        ensures
            final(self).wf(),
            final(self).epoch() == old(self).epoch(),
            final(self).sent() == old(self).sent(),
            final(self).state_map() == old(self).state_map(),
            final(self).event_log() == old(self).event_log(),
            if old(self).unread().len() >= header.message_length {
                &&& r matches Ok(p) && p@ == old(self).unread().take(header.message_length as int)
                &&& final(self).unread() == old(self).unread().skip(header.message_length as int)
            } else {
                &&& r == Err::<Vec<u8>, EspHomeError>(EspHomeError::Io)
                &&& final(self).unread() == old(self).unread()
            },
    {
        let len = header.message_length as usize;
        if self.peer.unread_len() < len {
            return Err(EspHomeError::Io);
        }
        Ok(self.peer.read_bytes(len))
    }

    /// Discard exactly `bytes` unread bytes without materializing them;
    /// `Err(Io)` when fewer are unread.
    pub fn ignore_bytes(&mut self, bytes: u32) -> (r: Result<(), EspHomeError>)
        requires
            old(self).wf(),
        ensures
            final(self).wf(),
            final(self).epoch() == old(self).epoch(),
            final(self).sent() == old(self).sent(),
            final(self).state_map() == old(self).state_map(),
            final(self).event_log() == old(self).event_log(),
            if old(self).unread().len() >= bytes {
                &&& r == Ok::<(), EspHomeError>(())
                &&& final(self).unread() == old(self).unread().skip(bytes as int)
            } else {
                &&& r == Err::<(), EspHomeError>(EspHomeError::Io)
                &&& final(self).unread() == old(self).unread()
            },
    {
        let len = bytes as usize;
        if self.peer.unread_len() < len {
            return Err(EspHomeError::Io);
        }
        self.peer.consume(len);
        Ok(())
    }

    /// Await the reply with the given kind, auto-handling push frames, and
    /// return its payload bytes: exactly [`receive_plan`]. A reply-class frame
    /// of any other kind is a desynchronization: [`mismatch_error`] says which
    /// error reports it.
    pub fn receive_message(&mut self, message_type: MessageType) -> (r: Result<
        Vec<u8>,
        EspHomeError,
    >)
        requires
            old(self).wf(),
        ensures
            final(self).wf(),
            final(self).epoch() == old(self).epoch(),
            ({
                let lr = read_loop(old(self).unread(), old(self).state_map(), old(self).epoch());
                &&& final(self).state_map() == lr.states
                &&& final(self).sent() == old(self).sent() + lr.replies
                &&& final(self).event_log() == old(self).event_log() + lr.events
            }),
            match receive_plan(
                old(self).unread(),
                old(self).state_map(),
                old(self).epoch(),
                message_type.spec_tag(),
            ) {
                ReceiveV::Short { consumed } => r == Err::<Vec<u8>, EspHomeError>(EspHomeError::Io)
                    && final(self).unread() == old(self).unread().skip(consumed),
                ReceiveV::Broken { consumed } => r == Err::<Vec<u8>, EspHomeError>(
                    EspHomeError::Codec,
                ) && final(self).unread() == old(self).unread().skip(consumed),
                ReceiveV::Mismatch { consumed, received } => r == Err::<Vec<u8>, EspHomeError>(
                    mismatch_error(message_type, received),
                ) && final(self).unread() == old(self).unread().skip(consumed),
                ReceiveV::Reply { consumed, payload } => (r matches Ok(p) && p@ == payload)
                    && final(self).unread() == old(self).unread().skip(consumed),
            },
    {
        let header = match self.receive_message_header() {
            Ok(h) => h,
            Err(e) => {
                return Err(e);
            },
        };
        proof {
            lemma_read_loop_consumed_bounds(
                old(self).unread(),
                old(self).state_map(),
                old(self).epoch(),
            );
            let lr = read_loop(old(self).unread(), old(self).state_map(), old(self).epoch());
            if old(self).unread().len() >= lr.consumed + header.message_length {
                assert(old(self).unread().skip(lr.consumed).take(header.message_length as int)
                    =~= old(self).unread().subrange(
                    lr.consumed,
                    lr.consumed + header.message_length as int,
                ));
                assert(old(self).unread().skip(lr.consumed).skip(header.message_length as int)
                    =~= old(self).unread().skip(lr.consumed + header.message_length as int));
            }
        }
        self.finish_receive(&header, message_type)
    }

    /// Correlate an already-received header with the awaited kind and read
    /// the payload. A mismatching tag is the desynchronization error of
    /// [`mismatch_error`]; `Err(Io)` consumes nothing, so the call can be
    /// repeated once more bytes have arrived.
    pub fn finish_receive(&mut self, header: &MessageHeader, message_type: MessageType) -> (r:
        Result<Vec<u8>, EspHomeError>)
        requires
            old(self).wf(),
        ensures
            final(self).wf(),
            final(self).epoch() == old(self).epoch(),
            final(self).sent() == old(self).sent(),
            final(self).state_map() == old(self).state_map(),
            final(self).event_log() == old(self).event_log(),
            if header.message_type != message_type.spec_tag() {
                &&& r == Err::<Vec<u8>, EspHomeError>(
                    mismatch_error(message_type, header.message_type),
                )
                &&& final(self).unread() == old(self).unread()
            } else if old(self).unread().len() >= header.message_length {
                &&& r matches Ok(p) && p@ == old(self).unread().take(header.message_length as int)
                &&& final(self).unread() == old(self).unread().skip(header.message_length as int)
            } else {
                &&& r == Err::<Vec<u8>, EspHomeError>(EspHomeError::Io)
                &&& final(self).unread() == old(self).unread()
            },
    {
        let expected_tag = message_type.tag();
        if header.message_type != expected_tag {
            if header.message_type == 19 || header.message_type == 6 {
                return Err(EspHomeError::UnexpectedTermination {
                    expected: message_type,
                    received: header.message_type,
                });
            }
            return Err(EspHomeError::UnexpectedResponse {
                expected: message_type,
                received: header.message_type,
            });
        }
        self.receive_message_body(header)
    }

    /// Send a request and await its reply, auto-handling push frames in
    /// between; the reply's payload bytes are returned.
    pub fn request(&mut self, message_type: MessageType, payload: &Vec<u8>, reply_type: MessageType)
        -> (r: Result<Vec<u8>, EspHomeError>)
        requires
            old(self).wf(),
            payload@.len() <= u32::MAX,
        ensures
            final(self).wf(),
            final(self).epoch() == old(self).epoch(),
            ({
                let lr = read_loop(old(self).unread(), old(self).state_map(), old(self).epoch());
                &&& final(self).state_map() == lr.states
                &&& final(self).sent() == old(self).sent() + frame_bytes(
                    message_type.spec_tag(),
                    payload@,
                ) + lr.replies
                &&& final(self).event_log() == old(self).event_log() + lr.events
            }),
            match receive_plan(
                old(self).unread(),
                old(self).state_map(),
                old(self).epoch(),
                reply_type.spec_tag(),
            ) {
                ReceiveV::Short { consumed } => r == Err::<Vec<u8>, EspHomeError>(EspHomeError::Io)
                    && final(self).unread() == old(self).unread().skip(consumed),
                ReceiveV::Broken { consumed } => r == Err::<Vec<u8>, EspHomeError>(
                    EspHomeError::Codec,
                ) && final(self).unread() == old(self).unread().skip(consumed),
                ReceiveV::Mismatch { consumed, received } => r == Err::<Vec<u8>, EspHomeError>(
                    mismatch_error(reply_type, received),
                ) && final(self).unread() == old(self).unread().skip(consumed),
                ReceiveV::Reply { consumed, payload: reply } => (r matches Ok(p) && p@ == reply)
                    && final(self).unread() == old(self).unread().skip(consumed),
            },
    {
        self.send_message(message_type, payload);
        self.receive_message(reply_type)
    }
}

/// The error reporting a reply-class frame whose tag is not the awaited one:
/// an enumeration-done sentinel or a disconnect acknowledgment is an
/// unexpected termination, anything else an unexpected response.
pub open spec fn mismatch_error(expected: MessageType, received: u32) -> EspHomeError {
    if received == MessageType::ListEntitiesDoneResponse.spec_tag() || received
        == MessageType::DisconnectResponse.spec_tag() {
        EspHomeError::UnexpectedTermination { expected, received }
    } else {
        EspHomeError::UnexpectedResponse { expected, received }
    }
}

/// What awaiting one reply of the expected kind does to the unread bytes and
/// what it returns.
pub enum ReceiveV {
    /// The unread bytes end first.
    Short { consumed: int },
    /// A framing violation or an unparseable push payload.
    Broken { consumed: int },
    /// A reply-class frame of another kind: desynchronized.
    Mismatch { consumed: int, received: u32 },
    /// The awaited reply, with its payload.
    Reply { consumed: int, payload: Seq<u8> },
}

/// Await a reply with tag `expected` on the front of `s`: the read loop,
/// followed by the tag check and the payload read.
pub open spec fn receive_plan(s: Seq<u8>, states: Map<u32, StateV>, epoch: u32, expected: u32)
    -> ReceiveV {
    let lr = read_loop(s, states, epoch);
    match lr.outcome {
        OutcomeV::NeedData => ReceiveV::Short { consumed: lr.consumed },
        OutcomeV::BadMarker => ReceiveV::Broken { consumed: lr.consumed },
        OutcomeV::TooLong => ReceiveV::Broken { consumed: lr.consumed },
        OutcomeV::DecodeFail { .. } => ReceiveV::Broken { consumed: lr.consumed },
        OutcomeV::Deliver { length, tag } => if tag != expected {
            ReceiveV::Mismatch { consumed: lr.consumed, received: tag }
        } else if s.len() >= lr.consumed + length {
            ReceiveV::Reply {
                consumed: lr.consumed + length,
                payload: s.subrange(lr.consumed, lr.consumed + length),
            }
        } else {
            ReceiveV::Short { consumed: lr.consumed }
        },
    }
}

/// Law: a frame with an unregistered tag and declared length `n` is consumed
/// whole — its header and exactly the `n` payload bytes — a skip event is
/// logged, and the read loop goes on with what follows; the state cache and
/// the written replies are untouched by it.
pub proof fn lemma_unknown_tag_skipped(
    tag: u32,
    payload: Seq<u8>,
    rest: Seq<u8>,
    states: Map<u32, StateV>,
    epoch: u32,
)
    requires
        !is_known_tag(tag),
        payload.len() <= u32::MAX,
    ensures
        ({
            let s = frame_bytes(tag, payload) + rest;
            let full = read_loop(s, states, epoch);
            let after = read_loop(rest, states, epoch);
            &&& full.consumed == frame_bytes(tag, payload).len() + after.consumed
            &&& full.states == after.states
            &&& full.replies == after.replies
            &&& full.events == seq![
                Event::UnknownTagSkipped { tag, length: payload.len() as u32 },
            ] + after.events
            &&& full.outcome == after.outcome
        }),
{
    let s = frame_bytes(tag, payload) + rest;
    crate::frame::lemma_frame_roundtrip(tag, payload, rest);
    lemma_take_header_bounds(s);
    match take_header(s) {
        HeaderStep::Done { length, tag: t2, consumed } => {
            assert(s.skip(consumed) == payload + rest);
            assert(s.skip(consumed).len() == payload.len() + rest.len());
            assert(consumed + length <= s.len());
            assert(s.skip(consumed).take(length as int) =~= s.subrange(
                consumed,
                consumed + length,
            ));
            assert((payload + rest).take(payload.len() as int) =~= payload);
            assert(s.skip(consumed).skip(length as int) =~= s.skip(consumed + length));
            assert((payload + rest).skip(payload.len() as int) =~= rest);
            lemma_read_loop_unfold(s, states, epoch);
            assert(Seq::<u8>::empty() + read_loop(rest, states, epoch).replies =~= read_loop(
                rest,
                states,
                epoch,
            ).replies);
        },
        _ => {
            assert(false);
        },
    }
}

/// Law: a keep-alive ping whose payload parses is answered by the loop itself
/// — exactly one ping acknowledgment frame is written — and the loop goes on
/// with what follows; the state cache is untouched by it.
pub proof fn lemma_ping_auto_answered(
    payload: Seq<u8>,
    rest: Seq<u8>,
    states: Map<u32, StateV>,
    epoch: u32,
)
    requires
        payload.len() <= u32::MAX,
        take_fields(payload) is Some,
    ensures
        ({
            let ping = MessageType::PingRequest.spec_tag();
            let s = frame_bytes(ping, payload) + rest;
            let full = read_loop(s, states, epoch);
            let after = read_loop(rest, states, epoch);
            &&& full.consumed == frame_bytes(ping, payload).len() + after.consumed
            &&& full.states == after.states
            &&& full.replies == frame_bytes(MessageType::PingResponse.spec_tag(), Seq::empty())
                + after.replies
            &&& full.events == seq![Event::PushHandled { tag: ping }] + after.events
            &&& full.outcome == after.outcome
        }),
{
    let ping = MessageType::PingRequest.spec_tag();
    let s = frame_bytes(ping, payload) + rest;
    crate::frame::lemma_frame_roundtrip(ping, payload, rest);
    lemma_take_header_bounds(s);
    match take_header(s) {
        HeaderStep::Done { length, tag: t2, consumed } => {
            assert(s.skip(consumed) == payload + rest);
            assert(s.skip(consumed).len() == payload.len() + rest.len());
            assert(consumed + length <= s.len());
            assert(s.skip(consumed).take(length as int) =~= s.subrange(
                consumed,
                consumed + length,
            ));
            assert((payload + rest).take(payload.len() as int) =~= payload);
            assert(s.skip(consumed).skip(length as int) =~= s.skip(consumed + length));
            assert((payload + rest).skip(payload.len() as int) =~= rest);
            lemma_read_loop_unfold(s, states, epoch);
        },
        _ => {
            assert(false);
        },
    }
}

/// Law: a numeric state push whose payload parses sets the cache at the
/// carried key — so of two pushes for one key, the later one is what the
/// cache holds — writes nothing, and the loop goes on with what follows.
pub proof fn lemma_sensor_push_updates_cache(
    m: crate::messages::SensorStateResponseV,
    payload: Seq<u8>,
    rest: Seq<u8>,
    states: Map<u32, StateV>,
    epoch: u32,
)
    requires
        payload.len() <= u32::MAX,
        parsed_sensor_state(payload) == Some(m),
    ensures
        ({
            let tag = MessageType::SensorStateResponse.spec_tag();
            let s = frame_bytes(tag, payload) + rest;
            let full = read_loop(s, states, epoch);
            let after = read_loop(
                rest,
                states.insert(m.key, StateV::Measurement(m.state_bits)),
                epoch,
            );
            &&& full.consumed == frame_bytes(tag, payload).len() + after.consumed
            &&& full.states == after.states
            &&& full.replies == after.replies
            &&& full.events == seq![Event::StateUpdated { key: m.key }] + after.events
            &&& full.outcome == after.outcome
        }),
{
    let tag = MessageType::SensorStateResponse.spec_tag();
    let s = frame_bytes(tag, payload) + rest;
    crate::frame::lemma_frame_roundtrip(tag, payload, rest);
    lemma_take_header_bounds(s);
    match take_header(s) {
        HeaderStep::Done { length, tag: t2, consumed } => {
            assert(s.skip(consumed) == payload + rest);
            assert(s.skip(consumed).len() == payload.len() + rest.len());
            assert(consumed + length <= s.len());
            assert(s.skip(consumed).take(length as int) =~= s.subrange(
                consumed,
                consumed + length,
            ));
            assert((payload + rest).take(payload.len() as int) =~= payload);
            assert(s.skip(consumed).skip(length as int) =~= s.skip(consumed + length));
            assert((payload + rest).skip(payload.len() as int) =~= rest);
            lemma_read_loop_unfold(s, states, epoch);
            let after = read_loop(
                rest,
                states.insert(m.key, StateV::Measurement(m.state_bits)),
                epoch,
            );
            assert(Seq::<u8>::empty() + after.replies =~= after.replies);
        },
        _ => {
            assert(false);
        },
    }
}

/// Law: awaiting a reply of one kind while the next reply-class frame carries
/// another tag is detected as a desynchronization naming both tags, never
/// returned as if it were the awaited reply.
pub proof fn lemma_reply_mismatch_detected(
    s: Seq<u8>,
    states: Map<u32, StateV>,
    epoch: u32,
    expected: u32,
)
    ensures
        ({
            let lr = read_loop(s, states, epoch);
            match lr.outcome {
                OutcomeV::Deliver { tag, .. } => tag != expected ==> receive_plan(
                    s,
                    states,
                    epoch,
                    expected,
                ) == (ReceiveV::Mismatch { consumed: lr.consumed, received: tag }),
                _ => !(receive_plan(s, states, epoch, expected) is Reply),
            }
        }),
{
}

/// Nothing observable about the engine moved.
pub open spec fn unchanged(a: Connection, b: Connection) -> bool {
    &&& b.unread() == a.unread()
    &&& b.sent() == a.sent()
    &&& b.state_map() == a.state_map()
    &&& b.event_log() == a.event_log()
}

} // verus!
