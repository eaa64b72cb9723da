//! Re-emission of a frame in the native framing of a Zniffer device.

use vstd::prelude::*;
use crate::types::Frame;
use crate::types::FrameView;
use crate::zniffer_parser::feed_all;
use crate::zniffer_parser::lemma_feed_in_two_chunks;
use crate::zniffer_parser::step;
use crate::zniffer_parser::ParserResultView;
use crate::zniffer_parser::ParserState;
use crate::zniffer_parser::ParserView;
use crate::zniffer_parser::SOF_FRAME;
use crate::zniffer_parser::START_OF_DATA_ONE;
use crate::zniffer_parser::START_OF_DATA_TWO;

verus! {

/// Frame type of a data frame.
pub const FRAME_TYPE_DATA: u8 = 0x01;

/// Why a frame cannot be re-emitted in the native framing.
#[derive(Debug, Clone, Copy, PartialEq, Eq, Structural)]
pub enum ZnifferWriteError {
    /// The channel does not fit three bits.
    ChannelOutOfRange,
    /// The speed does not fit five bits.
    SpeedOutOfRange,
    /// The payload is longer than 255 bytes.
    PayloadTooLong,
}

/// The byte that holds channel and speed: the channel in the three high
/// bits, the speed in the five low bits.
pub open spec fn channel_and_speed(channel: u8, speed: u8) -> u8 {
    (channel << 5) | speed
}

/// The header of the data frame of a frame: `0x21`, the type of a data
/// frame, the timestamp with its high byte first, channel and speed, the
/// native code of the region, the RSSI, `0x21 0x03` and the length of
/// the payload.
pub open spec fn zniffer_header_of(frame: FrameView) -> Seq<u8> {
    seq![
        SOF_FRAME,
        FRAME_TYPE_DATA,
        (frame.timestamp >> 8) as u8,
        (frame.timestamp & 0xFF) as u8,
        channel_and_speed(frame.channel, frame.speed),
        frame.region.native_code(),
        frame.rssi,
        START_OF_DATA_ONE,
        START_OF_DATA_TWO,
        frame.payload.len() as u8,
    ]
}

/// The data frame of a frame: its header and its payload.
pub open spec fn zniffer_frame_of(frame: FrameView) -> Seq<u8> {
    zniffer_header_of(frame) + frame.payload
}

/// The error, if any, that keeps a frame from the native framing: the
/// channel is judged first, then the speed, then the payload.
pub open spec fn zniffer_write_error(frame: FrameView) -> Option<ZnifferWriteError> {
    if frame.channel > 7 {
        Some(ZnifferWriteError::ChannelOutOfRange)
    } else if frame.speed > 31 {
        Some(ZnifferWriteError::SpeedOutOfRange)
    } else if frame.payload.len() > 255 {
        Some(ZnifferWriteError::PayloadTooLong)
    } else {
        None
    }
}

impl Frame {
    /// The data frame of this frame in the native framing; an error
    /// exactly where channel, speed or payload do not fit.
    pub fn to_zniffer_vector(&self) -> (bytes: Result<Vec<u8>, ZnifferWriteError>)
        ensures
            match zniffer_write_error(self@) {
                Some(e) => bytes == Err::<Vec<u8>, ZnifferWriteError>(e),
                None => bytes is Ok && bytes->Ok_0@ == zniffer_frame_of(self@),
            },
    {
        if self.channel > 7 {
            return Err(ZnifferWriteError::ChannelOutOfRange);
        }
        if self.speed > 31 {
            return Err(ZnifferWriteError::SpeedOutOfRange);
        }
        if self.payload.len() > 255 {
            return Err(ZnifferWriteError::PayloadTooLong);
        }
        let mut bytes = vec![
            SOF_FRAME,
            FRAME_TYPE_DATA,
            (self.timestamp >> 8) as u8,
            (self.timestamp & 0xFF) as u8,
            (self.channel << 5) | self.speed,
            self.region.to_native(),
            self.rssi,
            START_OF_DATA_ONE,
            START_OF_DATA_TWO,
            self.payload.len() as u8,
        ];
        bytes.extend_from_slice(self.payload.as_slice());
        Ok(bytes)
    }
}

proof fn lemma_frame_payload_is_taken(p: ParserView, rest: Seq<u8>)
    requires
        p.state == ParserState::AwaitPayload,
        p.frame_type == FRAME_TYPE_DATA,
        p.payload_count == rest.len(),
        rest.len() >= 1,
    ensures
        feed_all(p, rest) == (
            ParserView::idle(),
            seq![
                ParserResultView::ValidFrame {
                    frame: FrameView { payload: p.frame.payload + rest, ..p.frame },
                },
            ],
        ),
    decreases rest.len(),
{
    let (next, outcome) = step(p, rest[0]);
    if rest.len() == 1 {
        assert(p.frame.payload.push(rest[0]) =~= p.frame.payload + rest);
        assert(feed_all(next, rest.skip(1)).1 =~= Seq::<ParserResultView>::empty());
    } else {
        lemma_frame_payload_is_taken(next, rest.skip(1));
        assert(p.frame.payload.push(rest[0]) + rest.skip(1) =~= p.frame.payload + rest);
    }
}

/// Round trip in the native framing: an idle parser that is fed the data
/// frame of a frame that fits hands out that frame, and is idle again.
pub proof fn lemma_zniffer_round_trip(frame: FrameView)
    requires
        zniffer_write_error(frame) is None,
    ensures
        feed_all(ParserView::idle(), zniffer_frame_of(frame)) == (
            ParserView::idle(),
            seq![ParserResultView::ValidFrame { frame: frame }],
        ),
{
    let head = zniffer_header_of(frame);
    let payload = frame.payload;
    let idle = ParserView::idle();
    let timestamp = frame.timestamp;
    let channel = frame.channel;
    let speed = frame.speed;
    assert((((timestamp >> 8) as u8) as u16) << 8 | (((timestamp & 0xFF) as u8) as u16)
        == timestamp) by (bit_vector);
    assert(((channel << 5) | speed) >> 5 == channel && ((channel << 5) | speed) & 0x1F == speed)
        by (bit_vector)
        requires
            channel <= 7,
            speed <= 31,
    ;
    let rest0 = head;
    let (parser1, outcome1) = step(idle, rest0[0]);
    let rest1 = rest0.skip(1);
    let (parser2, outcome2) = step(parser1, rest1[0]);
    let rest2 = rest1.skip(1);
    let (parser3, outcome3) = step(parser2, rest2[0]);
    let rest3 = rest2.skip(1);
    let (parser4, outcome4) = step(parser3, rest3[0]);
    let rest4 = rest3.skip(1);
    let (parser5, outcome5) = step(parser4, rest4[0]);
    let rest5 = rest4.skip(1);
    let (parser6, outcome6) = step(parser5, rest5[0]);
    let rest6 = rest5.skip(1);
    let (parser7, outcome7) = step(parser6, rest6[0]);
    let rest7 = rest6.skip(1);
    let (parser8, outcome8) = step(parser7, rest7[0]);
    let rest8 = rest7.skip(1);
    let (parser9, outcome9) = step(parser8, rest8[0]);
    let rest9 = rest8.skip(1);
    let (parser10, outcome10) = step(parser9, rest9[0]);
    let rest10 = rest9.skip(1);
    assert(rest10.len() == 0);
    assert(feed_all(parser10, rest10) == (parser10, Seq::<ParserResultView>::empty()));
    let taken = FrameView { payload: Seq::empty(), ..frame };
    assert(parser9.frame == taken);
    assert(feed_all(parser9, rest9).0 == parser10);
    assert(feed_all(parser8, rest8) == feed_all(parser9, rest9));
    assert(feed_all(parser7, rest7) == feed_all(parser8, rest8));
    assert(feed_all(parser6, rest6) == feed_all(parser7, rest7));
    assert(feed_all(parser5, rest5) == feed_all(parser6, rest6));
    assert(feed_all(parser4, rest4) == feed_all(parser5, rest5));
    assert(feed_all(parser3, rest3) == feed_all(parser4, rest4));
    assert(feed_all(parser2, rest2) == feed_all(parser3, rest3));
    assert(feed_all(parser1, rest1) == feed_all(parser2, rest2));
    assert(feed_all(idle, rest0) == feed_all(parser1, rest1));
    lemma_feed_in_two_chunks(idle, head, payload);
    if payload.len() == 0 {
        assert(seq![outcome10] + Seq::<ParserResultView>::empty() =~= seq![outcome10]);
        assert(feed_all(parser10, payload).1 =~= Seq::<ParserResultView>::empty());
        assert(payload =~= Seq::<u8>::empty());
        assert(taken == frame);
    } else {
        assert(feed_all(parser9, rest9).1 =~= Seq::<ParserResultView>::empty());
        lemma_frame_payload_is_taken(parser10, payload);
        assert(Seq::<u8>::empty() + payload =~= payload);
        assert(Seq::<ParserResultView>::empty() + feed_all(parser10, payload).1 =~= feed_all(
            parser10,
            payload,
        ).1);
        assert((FrameView { payload: payload, ..parser10.frame }) == frame);
    }
}

} // verus!
