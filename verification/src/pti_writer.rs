//! Re-emission of a frame in PTI framing: a version 2 DCH envelope around a
//! synthesized PTI payload of a received packet.

use vstd::prelude::*;
use crate::pti_parser::dch_frame_of;
use crate::pti_parser::dch_length;
use crate::pti_parser::dch_version;
use crate::pti_parser::hw_end_index;
use crate::pti_parser::info_cfg;
use crate::pti_parser::pti_frame_accepted;
use crate::pti_parser::pti_frame_value;
use crate::pti_parser::pti_rssi;
use crate::pti_parser::scan;
use crate::pti_parser::speed_of;
use crate::pti_parser::DCH_END_SYMBOL;
use crate::pti_parser::DCH_START_SYMBOL;
use crate::pti_parser::HW_RX_START;
use crate::pti_parser::HW_RX_SUCCESS;
use crate::pti_parser::PTI_PROTOCOL_ZWAVE;
use crate::pti_parser::PtiParseResultView;
use crate::pti_parser::WAKEUP_BEAM_PREAMBLE;
use crate::types::Frame;
use crate::types::FrameView;

verus! {

/// Configuration byte that ends the appended-info block of an emitted
/// payload: a received packet, four bytes before the configuration byte
/// besides the end marker, appended-info version 1.
pub const END_OF_APPENDED_INFO: u8 = 0x51;

/// Bytes of an emitted envelope besides the payload of the frame and the
/// two brackets.
pub const ENVELOPE_OVERHEAD: usize = 20;

/// Longest payload that an envelope carries: that of a frame, 255 bytes.
pub const MAX_ENVELOPE_PAYLOAD: usize = 255;

/// Why a frame cannot be re-emitted.
#[derive(Debug, Clone, Copy, PartialEq, Eq, Structural)]
pub enum PtiWriteError {
    /// The payload is longer than that of a frame may be.
    PayloadTooLong,
}

/// The envelope of a frame: `'['`, the length, version 2, nine zero bytes
/// for timestamp, type and sequence, the start marker of a received packet,
/// the payload, the end marker, then RSSI, PTI region code, channel,
/// protocol id and configuration byte, and `']'`.
pub open spec fn pti_envelope_of(frame: FrameView) -> Seq<u8> {
    let length = frame.payload.len() + ENVELOPE_OVERHEAD;
    seq![DCH_START_SYMBOL, (length % 256) as u8, (length / 256) as u8, 2u8, 0u8]
        + Seq::new(9, |i: int| 0u8)
        + seq![HW_RX_START]
        + frame.payload
        + seq![
            HW_RX_SUCCESS,
            frame.rssi,
            frame.region.pti_code(),
            frame.channel,
            PTI_PROTOCOL_ZWAVE,
            END_OF_APPENDED_INFO,
            DCH_END_SYMBOL,
        ]
}

/// The frame that parsing the envelope of `frame` yields: region, channel
/// and payload of `frame`, the speed of its channel and region, no
/// timestamp, and as RSSI the stored RSSI of the RSSI byte of `frame`.
pub open spec fn reparsed(frame: FrameView) -> FrameView {
    FrameView {
        region: frame.region,
        channel: frame.channel,
        speed: speed_of(frame.channel, frame.region.pti_code()),
        timestamp: 0,
        rssi: pti_rssi(frame.rssi, 1),
        payload: frame.payload,
    }
}

/// Whether the envelope of a frame parses to a frame again: the channel is
/// one of 0 to 63, and the payload has 1 to 255 bytes and starts no wake-up
/// beam.
pub open spec fn reparsable(frame: FrameView) -> bool {
    &&& frame.channel <= 63
    &&& 1 <= frame.payload.len() <= MAX_ENVELOPE_PAYLOAD
    &&& frame.payload[0] != WAKEUP_BEAM_PREAMBLE
}

impl Frame {
    /// The DCH envelope of this frame; an error exactly when the payload has
    /// more than 255 bytes.
    pub fn to_pti_vector(&self) -> (envelope: Result<Vec<u8>, PtiWriteError>)
        ensures
            self@.payload.len() <= MAX_ENVELOPE_PAYLOAD ==> envelope is Ok && envelope.unwrap()@
                == pti_envelope_of(self@),
            self@.payload.len() > MAX_ENVELOPE_PAYLOAD ==> envelope == Err::<Vec<u8>, PtiWriteError>(
                PtiWriteError::PayloadTooLong,
            ),
    {
        if self.payload.len() > MAX_ENVELOPE_PAYLOAD {
            return Err(PtiWriteError::PayloadTooLong);
        }
        let length: usize = self.payload.len() + ENVELOPE_OVERHEAD;
        let mut bytes: Vec<u8> = Vec::new();
        bytes.push(DCH_START_SYMBOL);
        bytes.push((length % 256) as u8);
        bytes.push((length / 256) as u8);
        bytes.push(2);
        bytes.push(0);
        let mut i: usize = 0;
        while i < 9
            invariant
                i <= 9,
                bytes@ == seq![
                    DCH_START_SYMBOL,
                    (length % 256) as u8,
                    (length / 256) as u8,
                    2u8,
                    0u8,
                ] + Seq::new(i as nat, |k: int| 0u8),
            decreases 9 - i,
        {
            bytes.push(0);
            i += 1;
        }
        bytes.push(HW_RX_START);
        bytes.extend_from_slice(self.payload.as_slice());
        bytes.push(HW_RX_SUCCESS);
        bytes.push(self.rssi);
        bytes.push(self.region.to_pti());
        bytes.push(self.channel);
        bytes.push(PTI_PROTOCOL_ZWAVE);
        bytes.push(END_OF_APPENDED_INFO);
        bytes.push(DCH_END_SYMBOL);
        Ok(bytes)
    }
}

/// The stored RSSI of an RSSI byte under appended-info version 1 is the byte
/// itself for exactly two bytes, 25 and 128.
pub proof fn lemma_rssi_fixed_points(rssi: u8)
    ensures
        pti_rssi(rssi, 1) == rssi <==> rssi == 25 || rssi == 128,
{
}

/// Parsing the envelope of a reparsable frame yields the reparsed frame, as
/// one envelope and as a byte stream, of which nothing stays buffered.
pub proof fn lemma_envelope_parses(frame: FrameView)
    requires
        reparsable(frame),
    ensures
        dch_frame_of(pti_envelope_of(frame)) == (PtiParseResultView::ValidFrame {
            frame: reparsed(frame),
        }),
        scan(pti_envelope_of(frame)) == (seq![reparsed(frame)], Seq::<u8>::empty()),
{
    let envelope = pti_envelope_of(frame);
    let n = frame.payload.len() as int;
    let length = n + ENVELOPE_OVERHEAD;
    let pti = envelope.subrange(14, length + 1);
    let channel = frame.channel;
    let code = frame.region.pti_code();
    assert(0x51u8 & 0x40 != 0) by (bit_vector);
    assert((0x51u8 & 0x38) >> 3 == 2) by (bit_vector);
    assert(0x51u8 & 0x07 == 1) by (bit_vector);
    assert(0x06u8 & 0x0F == 0x06) by (bit_vector);
    assert(channel & 0x3F == channel) by (bit_vector)
        requires
            channel <= 63,
    ;
    assert(code & 0x1F == code) by (bit_vector)
        requires
            code <= 15,
    ;
    assert(pti.subrange(1, n + 1) =~= frame.payload);
    assert(envelope.take(length + 2) =~= envelope);
    assert(envelope.skip(length + 2) =~= Seq::<u8>::empty());
    assert(scan(Seq::<u8>::empty()) == (Seq::<FrameView>::empty(), Seq::<u8>::empty()));
}

/// Round trip: a reparsable frame whose RSSI is 25 or 128 comes back from
/// its envelope with the region, channel, RSSI and payload that it had.
pub proof fn lemma_pti_round_trip(frame: FrameView)
    requires
        reparsable(frame),
        frame.rssi == 25 || frame.rssi == 128,
    ensures
        dch_frame_of(pti_envelope_of(frame)) is ValidFrame,
        dch_frame_of(pti_envelope_of(frame))->frame.region == frame.region,
        dch_frame_of(pti_envelope_of(frame))->frame.channel == frame.channel,
        dch_frame_of(pti_envelope_of(frame))->frame.rssi == frame.rssi,
        dch_frame_of(pti_envelope_of(frame))->frame.payload == frame.payload,
{
    lemma_envelope_parses(frame);
    lemma_rssi_fixed_points(frame.rssi);
}

} // verus!
