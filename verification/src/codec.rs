//! Frames: one JSON value per line.
//!
//! On the wire a frame is the compact text of one JSON value followed by a
//! line feed. The text itself holds no line feed, so the first line feed in a
//! buffer always ends the first frame. Decoding takes whole frames from the
//! front of a buffer and leaves what follows; encoding appends one frame.

use crate::json::{json_parse, json_text, parse, print, Json, JsonModel};
use crate::messages::{json_of, lemma_message_round_trip, message_of, Message, MessageModel};
use vstd::prelude::*;

verus! {

/// The byte that ends a frame: a line feed.
pub const TERMINATOR: u8 = 0x0A;

/// Why a frame gave no message.
#[derive(Debug, PartialEq, Eq, Clone, Copy)]
pub enum FrameError {
    /// The frame is not the text of one JSON value.
    Malformed,
    /// The frame is a JSON value, but no message of the protocol.
    Invalid,
}

/// A payload as it stands on the wire: followed by the terminator.
pub open spec fn frame(payload: Seq<u8>) -> Seq<u8> {
    payload.push(TERMINATOR)
}

/// `at` is where the first terminator of `buf` stands.
pub open spec fn is_first_terminator(buf: Seq<u8>, at: int) -> bool {
    &&& 0 <= at < buf.len()
    &&& buf[at] == TERMINATOR
    &&& forall|i: int| 0 <= i < at ==> buf[i] != TERMINATOR
}

/// Where the first terminator of `buf` stands, if it holds one.
pub open spec fn first_terminator(buf: Seq<u8>) -> Option<int> {
    if exists|at: int| is_first_terminator(buf, at) {
        Some(choose|at: int| is_first_terminator(buf, at))
    } else {
        None
    }
}

/// There is one first terminator at most.
pub proof fn lemma_first_terminator(buf: Seq<u8>, at: int)
    requires
        is_first_terminator(buf, at),
    ensures
        first_terminator(buf) == Some(at),
{
    let chosen = choose|at: int| is_first_terminator(buf, at);
    if chosen < at {
        assert(buf[chosen] != TERMINATOR);
    } else if at < chosen {
        assert(buf[at] != TERMINATOR);
    }
}

/// A buffer without a terminator has no first one.
pub proof fn lemma_no_terminator(buf: Seq<u8>)
    requires
        !buf.contains(TERMINATOR),
    ensures
        first_terminator(buf) is None,
{
    assert forall|at: int| !is_first_terminator(buf, at) by {
        if 0 <= at < buf.len() {
            assert(buf.contains(buf[at]));
        }
    }
}

/// A frame at the front of a buffer ends at its own terminator, whatever
/// follows, provided the payload holds none.
pub proof fn lemma_frame_first(payload: Seq<u8>, rest: Seq<u8>)
    requires
        !payload.contains(TERMINATOR),
    ensures
        first_terminator(frame(payload) + rest) == Some(payload.len() as int),
        (frame(payload) + rest).subrange(0, payload.len() as int) == payload,
        (frame(payload) + rest).subrange(payload.len() as int + 1, (frame(payload) + rest).len() as int)
            == rest,
{
    let buf = frame(payload) + rest;
    assert forall|i: int| 0 <= i < payload.len() implies buf[i] != TERMINATOR by {
        assert(buf[i] == payload[i]);
        assert(payload.contains(payload[i]));
    }
    assert(buf[payload.len() as int] == TERMINATOR);
    lemma_first_terminator(buf, payload.len() as int);
    assert(buf.subrange(0, payload.len() as int) =~= payload);
    assert(buf.subrange(payload.len() as int + 1, buf.len() as int) =~= rest);
}

/// The JSON value that a payload holds.
pub open spec fn frame_value(payload: Seq<u8>) -> Result<JsonModel, FrameError> {
    match json_parse(payload) {
        Some(value) => Ok(value),
        None => Err(FrameError::Malformed),
    }
}

/// The message that a payload holds.
pub open spec fn frame_message(payload: Seq<u8>) -> Result<MessageModel, FrameError> {
    match json_parse(payload) {
        Some(value) => match message_of(value) {
            Some(message) => Ok(message),
            None => Err(FrameError::Invalid),
        },
        None => Err(FrameError::Malformed),
    }
}

/// What is left of a buffer once its first frame is taken; all of it where
/// it holds no whole frame.
pub open spec fn after_first_frame(buf: Seq<u8>) -> Seq<u8> {
    match first_terminator(buf) {
        Some(at) => buf.subrange(at + 1, buf.len() as int),
        None => buf,
    }
}

/// The payload of the first frame of a buffer, if it holds a whole one.
pub open spec fn first_payload(buf: Seq<u8>) -> Option<Seq<u8>> {
    match first_terminator(buf) {
        Some(at) => Some(buf.subrange(0, at)),
        None => None,
    }
}

/// The next message of a buffer: that of its first frame. `None` where the
/// buffer holds no whole frame yet.
pub open spec fn next_message(buf: Seq<u8>) -> Option<Result<MessageModel, FrameError>> {
    match first_payload(buf) {
        Some(payload) => Some(frame_message(payload)),
        None => None,
    }
}

/// The next JSON value of a buffer: that of its first frame.
pub open spec fn next_value(buf: Seq<u8>) -> Option<Result<JsonModel, FrameError>> {
    match first_payload(buf) {
        Some(payload) => Some(frame_value(payload)),
        None => None,
    }
}

/// The last message of a stream that has ended: the next message, where a
/// whole frame is left; nothing, where nothing is left; and a malformed frame
/// where the stream ended inside one.
pub open spec fn last_message(buf: Seq<u8>) -> Option<Result<MessageModel, FrameError>> {
    if first_terminator(buf) is Some {
        next_message(buf)
    } else if buf.len() == 0 {
        None
    } else {
        Some(Err(FrameError::Malformed))
    }
}

/// What is left of an ended stream once its last message is taken.
pub open spec fn after_last_message(buf: Seq<u8>) -> Seq<u8> {
    if first_terminator(buf) is Some {
        after_first_frame(buf)
    } else {
        Seq::empty()
    }
}

/// The model of a decoded value or the error in its place.
pub open spec fn value_result_view(item: Result<Json, FrameError>) -> Result<
    JsonModel,
    FrameError,
> {
    match item {
        Ok(value) => Ok(value@),
        Err(e) => Err(e),
    }
}

/// The model of a decoded message or the error in its place.
pub open spec fn message_result_view(item: Result<Message, FrameError>) -> Result<
    MessageModel,
    FrameError,
> {
    match item {
        Ok(message) => Ok(message@),
        Err(e) => Err(e),
    }
}

/// The model of what one decoding step yields.
pub open spec fn yield_view(item: Option<Result<Message, FrameError>>) -> Option<
    Result<MessageModel, FrameError>,
> {
    match item {
        Some(item) => Some(message_result_view(item)),
        None => None,
    }
}

/// Looks for the end of the first frame.
pub fn find_terminator(buf: &[u8]) -> (at: Option<usize>)
    ensures
        match at {
            Some(at) => at < buf@.len() && first_terminator(buf@) == Some(at as int),
            None => first_terminator(buf@) is None && !buf@.contains(TERMINATOR),
        },
{
    let mut at: usize = 0;
    while at < buf.len()
        invariant
            at <= buf.len(),
            forall|i: int| 0 <= i < at ==> buf@[i] != TERMINATOR,
        decreases buf.len() - at,
    {
        if buf[at] == TERMINATOR {
            proof {
                lemma_first_terminator(buf@, at as int);
            }
            return Some(at);
        }
        at = at + 1;
    }
    proof {
        lemma_no_terminator(buf@);
    }
    None
}

/// Takes the payload of the first frame out of the buffer and leaves what
/// follows the frame. A buffer without a whole frame is left as it is.
pub fn take_frame(buf: &mut Vec<u8>) -> (payload: Option<Vec<u8>>)
    ensures
        match payload {
            Some(p) => first_payload(old(buf)@) == Some(p@),
            None => first_payload(old(buf)@) is None && !old(buf)@.contains(TERMINATOR),
        },
        final(buf)@ == after_first_frame(old(buf)@),
{
    let held: usize = buf.len();
    match find_terminator(buf.as_slice()) {
        Some(at) => {
            assert(at < held);
            let mut rest = buf.split_off(at + 1);
            buf.truncate(at);
            std::mem::swap(buf, &mut rest);
            assert(rest@ =~= old(buf)@.subrange(0, at as int));
            Some(rest)
        },
        None => None,
    }
}

/// The codec of plain JSON values: one value per frame.
#[derive(Debug)]
pub struct JsonCodec {}

/// The codec of the inbound stream: one message per frame.
#[derive(Debug)]
pub struct JsonRpcCodec {}

impl JsonCodec {
    /// The codec; it holds no state.
    pub fn new() -> JsonCodec {
        JsonCodec {  }
    }

    /// Appends the frame of `value` to `out`: its compact text, which holds no
    /// terminator, and the terminator.
    pub fn encode(&self, value: &Json, out: &mut Vec<u8>)
        ensures
            final(out)@ == old(out)@ + frame(json_text(value@)),
            !json_text(value@).contains(TERMINATOR),
    {
        let mut text = print(value);
        out.append(&mut text);
        out.push(TERMINATOR);
        assert(out@ =~= old(out)@ + frame(json_text(value@)));
    }

    /// Reads the value of one payload.
    pub fn decode_frame(&self, payload: &[u8]) -> (item: Result<Json, FrameError>)
        ensures
            value_result_view(item) == frame_value(payload@),
    {
        match parse(payload) {
            Some(value) => Ok(value),
            None => Err(FrameError::Malformed),
        }
    }

    /// Takes the first frame out of the buffer and reads its value. Without a
    /// whole frame in the buffer nothing is taken and `None` is returned.
    pub fn decode(&self, buf: &mut Vec<u8>) -> (item: Option<Result<Json, FrameError>>)
        ensures
            match item {
                Some(item) => next_value(old(buf)@) == Some(value_result_view(item)),
                None => next_value(old(buf)@) is None,
            },
            final(buf)@ == after_first_frame(old(buf)@),
    {
        match take_frame(buf) {
            Some(payload) => Some(self.decode_frame(payload.as_slice())),
            None => None,
        }
    }
}

impl JsonRpcCodec {
    /// The codec; it holds no state.
    pub fn new() -> JsonRpcCodec {
        JsonRpcCodec {  }
    }

    /// Appends the frame of a message to `out`.
    pub fn encode(&self, message: Message, out: &mut Vec<u8>)
        ensures
            final(out)@ == old(out)@ + frame(json_text(json_of(message@))),
            !json_text(json_of(message@)).contains(TERMINATOR),
    {
        let value = message.to_json();
        JsonCodec::new().encode(&value, out);
    }

    /// Reads the message of one payload.
    pub fn decode_frame(&self, payload: &[u8]) -> (item: Result<Message, FrameError>)
        ensures
            message_result_view(item) == frame_message(payload@),
    {
        match JsonCodec::new().decode_frame(payload) {
            Ok(value) => match Message::from_json(value) {
                Some(message) => Ok(message),
                None => Err(FrameError::Invalid),
            },
            Err(e) => Err(e),
        }
    }

    /// Takes the first frame out of the buffer and reads its message. Without
    /// a whole frame in the buffer nothing is taken and `None` is returned:
    /// more input is needed.
    pub fn decode(&self, buf: &mut Vec<u8>) -> (item: Option<Result<Message, FrameError>>)
        ensures
            yield_view(item) == next_message(old(buf)@),
            final(buf)@ == after_first_frame(old(buf)@),
    {
        match take_frame(buf) {
            Some(payload) => Some(self.decode_frame(payload.as_slice())),
            None => None,
        }
    }

    /// As [`JsonRpcCodec::decode`], for a stream that has ended: bytes that no
    /// terminator follows are a frame cut short, which is malformed, and are
    /// dropped.
    pub fn decode_eof(&self, buf: &mut Vec<u8>) -> (item: Option<Result<Message, FrameError>>)
        ensures
            yield_view(item) == last_message(old(buf)@),
            final(buf)@ == after_last_message(old(buf)@),
    {
        match take_frame(buf) {
            Some(payload) => Some(self.decode_frame(payload.as_slice())),
            None => {
                if buf.len() == 0 {
                    None
                } else {
                    buf.clear();
                    Some(Err(FrameError::Malformed))
                }
            },
        }
    }
}

/// Decoding what was encoded gives the message again, and leaves what
/// followed the frame. This holds of every well-formed message whose text the
/// JSON parser reads back as the value that was written, and whose text holds
/// no terminator.
pub proof fn lemma_codec_round_trip(message: MessageModel, rest: Seq<u8>)
    requires
        message.wf(),
    ensures
        ({
            let text = json_text(json_of(message));
            json_parse(text) == Some(json_of(message)) && !text.contains(TERMINATOR) ==> {
                &&& next_message(frame(text) + rest) == Some(Ok::<MessageModel, FrameError>(message))
                &&& after_first_frame(frame(text) + rest) == rest
            }
        }),
{
    let text = json_text(json_of(message));
    if json_parse(text) == Some(json_of(message)) && !text.contains(TERMINATOR) {
        lemma_frame_first(text, rest);
        lemma_message_round_trip(message);
    }
}

/// The stream that a sequence of payloads makes: their frames, one after the
/// other.
pub open spec fn frames(payloads: Seq<Seq<u8>>) -> Seq<u8>
    decreases payloads.len(),
{
    if payloads.len() == 0 {
        Seq::empty()
    } else {
        frames(payloads.drop_last()) + frame(payloads.last())
    }
}

/// The payloads of the whole frames of a stream, in their order.
pub open spec fn payloads_of(stream: Seq<u8>) -> Seq<Seq<u8>>
    decreases stream.len(),
{
    match first_terminator(stream) {
        Some(at) => if 0 <= at < stream.len() {
            seq![stream.subrange(0, at)] + payloads_of(stream.subrange(at + 1, stream.len() as int))
        } else {
            Seq::empty()
        },
        None => Seq::empty(),
    }
}

/// No payload of the sequence holds a terminator.
pub open spec fn terminator_free(payloads: Seq<Seq<u8>>) -> bool {
    forall|i: int| 0 <= i < payloads.len() ==> !(#[trigger] payloads[i]).contains(TERMINATOR)
}

/// A stream of frames begins with its first frame.
pub proof fn lemma_frames_front(payloads: Seq<Seq<u8>>)
    requires
        payloads.len() > 0,
    ensures
        frames(payloads) == frame(payloads[0]) + frames(payloads.skip(1)),
    decreases payloads.len(),
{
    if payloads.len() == 1 {
        assert(payloads.drop_last() =~= Seq::<Seq<u8>>::empty());
        assert(payloads.skip(1) =~= Seq::<Seq<u8>>::empty());
        assert(frames(payloads.drop_last()) =~= Seq::<u8>::empty());
        assert(frames(payloads) =~= frame(payloads[0]) + frames(payloads.skip(1)));
    } else {
        lemma_frames_front(payloads.drop_last());
        assert(payloads.drop_last().skip(1) =~= payloads.skip(1).drop_last());
        assert(payloads.skip(1).last() == payloads.last());
        assert(payloads.drop_last()[0] == payloads[0]);
        assert(frames(payloads) =~= frame(payloads[0]) + frames(payloads.skip(1)));
    }
}

/// Whole frames written one after the other come apart again exactly where
/// they were joined: whatever the order in which writers took their turns, the
/// stream splits into the payloads that were written, in the order of the
/// writes, and no frame ends inside another.
pub proof fn lemma_frames_split(payloads: Seq<Seq<u8>>)
    requires
        terminator_free(payloads),
    ensures
        payloads_of(frames(payloads)) == payloads,
    decreases payloads.len(),
{
    if payloads.len() == 0 {
        lemma_no_terminator(Seq::<u8>::empty());
        assert(payloads_of(frames(payloads)) =~= payloads);
    } else {
        let first = payloads[0];
        let others = payloads.skip(1);
        lemma_frames_front(payloads);
        lemma_frame_first(first, frames(others));
        assert(terminator_free(others)) by {
            assert forall|i: int| 0 <= i < others.len() implies !(#[trigger] others[i]).contains(
                TERMINATOR,
            ) by {
                assert(others[i] == payloads[i + 1]);
            }
        }
        lemma_frames_split(others);
        assert(seq![first] + others =~= payloads);
    }
}

} // verus!
