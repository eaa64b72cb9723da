//! Parser for PTI (Packet Trace Interface) traffic carried in Debug Channel
//! (DCH) envelopes.
//!
//! A DCH envelope is `'['`, a 16-bit little-endian length, a header whose
//! size depends on the 16-bit version that follows the length, a PTI payload
//! and `']'`. The length counts every byte between the two brackets. A PTI
//! payload is a start marker, the over-the-air bytes, an end marker and an
//! appended-info block that is read backward from the last byte.

use vstd::prelude::*;
use vstd::slice::slice_subrange;
use vstd::slice::slice_to_vec;
use crate::types::Frame;
use crate::types::FrameView;
use crate::types::Region;

verus! {

/// First byte of a DCH envelope, `'['`.
pub const DCH_START_SYMBOL: u8 = 0x5B;

/// Last byte of a DCH envelope, `']'`.
pub const DCH_END_SYMBOL: u8 = 0x5D;

/// Start marker of a received PTI payload.
pub const HW_RX_START: u8 = 0xF8;

/// Start marker of a transmitted PTI payload.
pub const HW_TX_START: u8 = 0xFC;

/// End marker of a received PTI payload.
pub const HW_RX_SUCCESS: u8 = 0xF9;

/// End marker of a transmitted PTI payload.
pub const HW_TX_SUCCESS: u8 = 0xFD;

/// Protocol id of Z-Wave in the low nibble of the status byte.
pub const PTI_PROTOCOL_ZWAVE: u8 = 0x06;

/// First over-the-air byte of a wake-up beam.
pub const WAKEUP_BEAM_PREAMBLE: u8 = 0x55;

/// Bytes between `'['` and the PTI payload of a version 2 envelope.
pub const DCH_V2_HEADER_SIZE: usize = 13;

/// Bytes between `'['` and the PTI payload of a version 3 envelope.
pub const DCH_V3_HEADER_SIZE: usize = 20;

/// Fewest bytes from which an envelope or a PTI payload is judged.
pub const MIN_FRAME_SIZE: usize = 6;

/// Most over-the-air bytes of a frame.
pub const MAX_PAYLOAD_SIZE: usize = 255;

/// Region of a PTI region code.
pub fn pti_region_to_region(pti_region: u8) -> (region: Option<Region>)
    ensures
        region == Region::of_pti(pti_region),
        region matches Some(r) ==> r.pti_code() == pti_region,
{
    Region::from_pti(pti_region)
}

/// Key of the speed table: the channel in the high byte, the PTI region code
/// in the low byte.
pub open spec fn speed_key(channel: u8, region: u8) -> u16 {
    (channel as u16 * 256 + region as u16) as u16
}

/// Keys classified as 9.6 kbps.
pub open spec fn keys_9k6() -> Seq<u16> {
    seq![
        0x0201u16, 0x0202, 0x0203, 0x0204, 0x0205, 0x0206,
        0x0208, 0x0209, 0x020B, 0x020C, 0x020D, 0x020F, 0x0210,
    ]
}

/// Keys classified as 40 kbps.
pub open spec fn keys_40k() -> Seq<u16> {
    seq![
        0x0101u16, 0x0102, 0x0103, 0x0104, 0x0105, 0x0106,
        0x0108, 0x0109, 0x010B, 0x010C, 0x010D, 0x010F, 0x0110,
    ]
}

/// Keys classified as 100 kbps.
pub open spec fn keys_100k() -> Seq<u16> {
    seq![
        0x0001u16, 0x0002, 0x0003, 0x0004, 0x0005, 0x0006,
        0x0007, 0x0107, 0x0207, 0x0008, 0x0009, 0x000A,
        0x010A, 0x020A, 0x000B, 0x000C, 0x000D, 0x000F, 0x0010,
    ]
}

/// Keys classified as Long Range, unless an earlier table holds them.
pub open spec fn keys_long_range() -> Seq<u16> {
    seq![0x0303u16, 0x0303, 0x0003, 0x0103, 0x0303, 0x0303, 0x0003, 0x0103]
}

/// Bitrate code of a channel and a PTI region code: the class of the first
/// table that holds their key, in the order 9.6 kbps, 40 kbps, 100 kbps,
/// Long Range; 9.6 kbps for a key that no table holds.
pub open spec fn speed_of(channel: u8, region: u8) -> u8 {
    let key = speed_key(channel, region);
    if keys_9k6().contains(key) {
        0
    } else if keys_40k().contains(key) {
        1
    } else if keys_100k().contains(key) {
        2
    } else if keys_long_range().contains(key) {
        3
    } else {
        0
    }
}

fn table_holds(table: &[u16], key: u16) -> (held: bool)
    ensures
        held == table@.contains(key),
{
    let mut i: usize = 0;
    while i < table.len()
        invariant
            i <= table@.len(),
            forall|j: int| 0 <= j < i ==> table@[j] != key,
        decreases table@.len() - i,
    {
        if table[i] == key {
            return true;
        }
        i += 1;
    }
    false
}

/// Bitrate code of a channel and a PTI region code.
pub fn get_speed(channel: u8, region: u8) -> (speed: u8)
    ensures
        speed == speed_of(channel, region),
        speed <= 3,
{
    let key: u16 = ((channel as u16) << 8) | (region as u16);
    assert(key == speed_key(channel, region)) by (bit_vector)
        requires
            key == ((channel as u16) << 8) | (region as u16),
    ;
    let baud_9600: [u16; 13] = [
        0x0201, 0x0202, 0x0203, 0x0204, 0x0205, 0x0206,
        0x0208, 0x0209, 0x020B, 0x020C, 0x020D, 0x020F, 0x0210,
    ];
    let baud_40k: [u16; 13] = [
        0x0101, 0x0102, 0x0103, 0x0104, 0x0105, 0x0106,
        0x0108, 0x0109, 0x010B, 0x010C, 0x010D, 0x010F, 0x0110,
    ];
    let baud_100k: [u16; 19] = [
        0x0001, 0x0002, 0x0003, 0x0004, 0x0005, 0x0006,
        0x0007, 0x0107, 0x0207, 0x0008, 0x0009, 0x000A,
        0x010A, 0x020A, 0x000B, 0x000C, 0x000D, 0x000F, 0x0010,
    ];
    let lr_speeds: [u16; 8] = [0x0303, 0x0303, 0x0003, 0x0103, 0x0303, 0x0303, 0x0003, 0x0103];
    if table_holds(baud_9600.as_slice(), key) {
        0
    } else if table_holds(baud_40k.as_slice(), key) {
        1
    } else if table_holds(baud_100k.as_slice(), key) {
        2
    } else if table_holds(lr_speeds.as_slice(), key) {
        3
    } else {
        0
    }
}

/// Mathematical value of a parse result.
pub enum PtiParseResultView {
    ValidFrame { frame: FrameView },
    InvalidFrame,
    IncompleteFrame,
}

/// Result of parsing a PTI payload or a DCH envelope.
#[derive(Debug, Clone, PartialEq)]
pub enum PtiParseResult {
    /// A Z-Wave frame was extracted.
    ValidFrame { frame: Frame },
    /// The bytes are no valid envelope or payload, or carry no Z-Wave frame.
    InvalidFrame,
    /// More bytes are needed to judge.
    IncompleteFrame,
}

impl View for PtiParseResult {
    type V = PtiParseResultView;

    open spec fn view(&self) -> PtiParseResultView {
        match self {
            PtiParseResult::ValidFrame { frame } => PtiParseResultView::ValidFrame { frame: frame@ },
            PtiParseResult::InvalidFrame => PtiParseResultView::InvalidFrame,
            PtiParseResult::IncompleteFrame => PtiParseResultView::IncompleteFrame,
        }
    }
}

/// The last byte of a PTI payload: the appended-info configuration.
pub open spec fn info_cfg(data: Seq<u8>) -> u8 {
    data[data.len() - 1]
}

/// Whether the appended-info configuration marks a received packet (bit 6).
pub open spec fn info_is_rx(cfg: u8) -> bool {
    cfg & 0x40 != 0
}

/// Length of the appended-info block without its configuration byte: bits 3
/// to 5 of the configuration, plus 3.
pub open spec fn info_length(cfg: u8) -> int {
    ((cfg & 0x38) >> 3) as int + 3
}

/// Version of the appended-info block: bits 0 to 2 of the configuration.
pub open spec fn info_version(cfg: u8) -> u8 {
    cfg & 0x07
}

/// Protocol id of a PTI payload: the low nibble of the status byte.
pub open spec fn pti_protocol(data: Seq<u8>) -> u8 {
    data[data.len() - 2] & 0x0F
}

/// Channel of a PTI payload: the low six bits of the radio-info byte.
pub open spec fn pti_channel(data: Seq<u8>) -> u8 {
    data[data.len() - 3] & 0x3F
}

/// PTI region code of a PTI payload: the low five bits of the radio-config byte.
pub open spec fn pti_region(data: Seq<u8>) -> u8 {
    data[data.len() - 4] & 0x1F
}

/// Index of the end marker: the byte before the appended-info block.
pub open spec fn hw_end_index(data: Seq<u8>) -> int {
    data.len() - 1 - info_length(info_cfg(data))
}

/// The byte `raw` read as a signed 8-bit number.
pub open spec fn as_signed(raw: u8) -> int {
    if raw >= 128 {
        raw - 256
    } else {
        raw as int
    }
}

/// Stored RSSI of a raw RSSI byte: the byte is read as signed; from
/// appended-info version 1 on, 0x32 is subtracted, saturating at -128; the
/// absolute value is stored.
pub open spec fn pti_rssi(raw: u8, version: u8) -> u8 {
    let signed = as_signed(raw);
    let shifted = if version >= 1 {
        if signed - 0x32 < -128 {
            -128
        } else {
            signed - 0x32
        }
    } else {
        signed
    };
    if shifted < 0 {
        (-shifted) as u8
    } else {
        shifted as u8
    }
}

/// Whether a PTI payload carries a Z-Wave frame that is handed on: it has
/// at least six bytes, starts with a start marker, names the Z-Wave
/// protocol and a PTI region code of a region, holds the end marker that
/// its direction asks for just before the appended-info block, and has
/// over-the-air bytes, at most 255 of them, that do not start a wake-up
/// beam.
pub open spec fn pti_frame_accepted(data: Seq<u8>) -> bool {
    &&& data.len() >= MIN_FRAME_SIZE
    &&& (data[0] == HW_RX_START || data[0] == HW_TX_START)
    &&& pti_protocol(data) == PTI_PROTOCOL_ZWAVE
    &&& Region::of_pti(pti_region(data)) is Some
    &&& hw_end_index(data) > 1
    &&& hw_end_index(data) - 1 <= MAX_PAYLOAD_SIZE
    &&& data[hw_end_index(data)] == (if info_is_rx(info_cfg(data)) {
        HW_RX_SUCCESS
    } else {
        HW_TX_SUCCESS
    })
    &&& data[1] != WAKEUP_BEAM_PREAMBLE
}

/// The frame that an accepted PTI payload carries.
pub open spec fn pti_frame_value(data: Seq<u8>) -> FrameView {
    let cfg = info_cfg(data);
    FrameView {
        region: Region::of_pti(pti_region(data)).unwrap(),
        channel: pti_channel(data),
        speed: speed_of(pti_channel(data), pti_region(data)),
        timestamp: 0,
        rssi: if info_is_rx(cfg) {
            pti_rssi(data[data.len() - 5], info_version(cfg))
        } else {
            0
        },
        payload: data.subrange(1, hw_end_index(data)),
    }
}

/// What holds of every frame that is taken from PTI traffic: the channel
/// is one of 0 to 63; the payload has 1 to 255 bytes and starts no
/// wake-up beam; the speed is that of the channel and the PTI code of the
/// region, one of 0 to 3; there is no timestamp.
pub open spec fn pti_frame_sound(frame: FrameView) -> bool {
    &&& frame.well_formed()
    &&& frame.payload.len() >= 1
    &&& frame.payload[0] != WAKEUP_BEAM_PREAMBLE
    &&& frame.speed == speed_of(frame.channel, frame.region.pti_code())
    &&& frame.speed <= 3
    &&& frame.timestamp == 0
}

/// The frame of an accepted PTI payload is sound.
pub proof fn lemma_accepted_frame_is_sound(data: Seq<u8>)
    requires
        pti_frame_accepted(data),
    ensures
        pti_frame_sound(pti_frame_value(data)),
{
    let radio_info = data[data.len() - 3];
    assert(radio_info & 0x3F <= 63) by (bit_vector);
}

/// Result of parsing a PTI payload.
pub open spec fn pti_frame_of(data: Seq<u8>) -> PtiParseResultView {
    if pti_frame_accepted(data) {
        PtiParseResultView::ValidFrame { frame: pti_frame_value(data) }
    } else {
        PtiParseResultView::InvalidFrame
    }
}

/// The 16-bit number with low byte `lo` and high byte `hi`.
pub open spec fn le16(lo: u8, hi: u8) -> int {
    lo + 256 * hi
}

/// Length field of an envelope: the bytes between the brackets.
pub open spec fn dch_length(data: Seq<u8>) -> int {
    le16(data[1], data[2])
}

/// Version field of an envelope.
pub open spec fn dch_version(data: Seq<u8>) -> int {
    le16(data[3], data[4])
}

/// Header size of a version: 13 for version 2, 20 for every other one.
pub open spec fn dch_header_size(version: int) -> int {
    if version == 2 {
        13
    } else {
        20
    }
}

/// Result of parsing the bytes of a DCH envelope.
///
/// Fewer than six bytes, or fewer than the length field asks for, are
/// incomplete. A wrong bracket, a version other than 2 and 3, and a length
/// that leaves no room for a payload are invalid. Otherwise the result is
/// that of the PTI payload, which lies between the header and `']'`.
pub open spec fn dch_frame_of(data: Seq<u8>) -> PtiParseResultView {
    if data.len() < MIN_FRAME_SIZE {
        PtiParseResultView::IncompleteFrame
    } else if data[0] != DCH_START_SYMBOL {
        PtiParseResultView::InvalidFrame
    } else if data.len() < dch_length(data) + 2 {
        PtiParseResultView::IncompleteFrame
    } else if data[dch_length(data) + 1] != DCH_END_SYMBOL {
        PtiParseResultView::InvalidFrame
    } else if dch_version(data) != 2 && dch_version(data) != 3 {
        PtiParseResultView::InvalidFrame
    } else if dch_length(data) <= dch_header_size(dch_version(data)) {
        PtiParseResultView::InvalidFrame
    } else {
        pti_frame_of(
            data.subrange(dch_header_size(dch_version(data)) + 1, dch_length(data) + 1),
        )
    }
}

fn stored_rssi(raw: u8, version: u8) -> (rssi: u8)
    ensures
        rssi == pti_rssi(raw, version),
{
    let signed: i16 = if raw >= 128 {
        raw as i16 - 256
    } else {
        raw as i16
    };
    let shifted: i16 = if version >= 1 {
        if signed - 0x32 < -128 {
            -128
        } else {
            signed - 0x32
        }
    } else {
        signed
    };
    if shifted < 0 {
        (-shifted) as u8
    } else {
        shifted as u8
    }
}

/// Parses a PTI payload: start marker, over-the-air bytes, end marker and
/// appended-info block.
pub fn parse_pti_frame(data: &[u8]) -> (result: PtiParseResult)
    ensures
        result@ == pti_frame_of(data@),
        !(result is IncompleteFrame),
        result matches PtiParseResult::ValidFrame { frame } ==> pti_frame_sound(frame@),
{
    let n = data.len();
    if n < MIN_FRAME_SIZE {
        return PtiParseResult::InvalidFrame;
    }
    let hw_start = data[0];
    if hw_start != HW_RX_START && hw_start != HW_TX_START {
        return PtiParseResult::InvalidFrame;
    }
    let cfg = data[n - 1];
    let is_rx = cfg & 0x40 != 0;
    let length_bits: u8 = (cfg & 0x38) >> 3;
    assert(length_bits <= 7) by (bit_vector)
        requires
            length_bits == (cfg & 0x38) >> 3,
    ;
    let info_len: usize = length_bits as usize + 3;
    if data[n - 2] & 0x0F != PTI_PROTOCOL_ZWAVE {
        return PtiParseResult::InvalidFrame;
    }
    let radio_info = data[n - 3];
    let channel = radio_info & 0x3F;
    let pti_region = data[n - 4] & 0x1F;
    assert(channel <= 63) by (bit_vector)
        requires
            channel == radio_info & 0x3F,
    ;
    let region = match pti_region_to_region(pti_region) {
        Some(r) => r,
        None => {
            return PtiParseResult::InvalidFrame;
        },
    };
    let rssi = if is_rx {
        stored_rssi(data[n - 5], cfg & 0x07)
    } else {
        0
    };
    if info_len + 1 > n {
        return PtiParseResult::InvalidFrame;
    }
    let hw_end_pos = n - 1 - info_len;
    let expected_hw_end = if is_rx {
        HW_RX_SUCCESS
    } else {
        HW_TX_SUCCESS
    };
    if data[hw_end_pos] != expected_hw_end {
        return PtiParseResult::InvalidFrame;
    }
    if hw_end_pos <= 1 || hw_end_pos - 1 > MAX_PAYLOAD_SIZE || data[1] == WAKEUP_BEAM_PREAMBLE {
        return PtiParseResult::InvalidFrame;
    }
    proof {
        lemma_accepted_frame_is_sound(data@);
    }
    let speed = get_speed(channel, pti_region);
    let payload = slice_to_vec(slice_subrange(data, 1, hw_end_pos));
    PtiParseResult::ValidFrame {
        frame: Frame { region, channel, speed, timestamp: 0, rssi, payload },
    }
}

/// The frame of an envelope is sound.
pub proof fn lemma_envelope_frame_is_sound(data: Seq<u8>)
    ensures
        dch_frame_of(data) matches PtiParseResultView::ValidFrame { frame } ==> pti_frame_sound(
            frame,
        ),
{
    if dch_frame_of(data) is ValidFrame {
        lemma_accepted_frame_is_sound(
            data.subrange(dch_header_size(dch_version(data)) + 1, dch_length(data) + 1),
        );
    }
}

/// Parses the bytes of a DCH envelope and the PTI payload in it.
pub fn parse_dch_frame(data: &[u8]) -> (result: PtiParseResult)
    ensures
        result@ == dch_frame_of(data@),
        result matches PtiParseResult::ValidFrame { frame } ==> pti_frame_sound(frame@),
{
    if data.len() < MIN_FRAME_SIZE {
        return PtiParseResult::IncompleteFrame;
    }
    if data[0] != DCH_START_SYMBOL {
        return PtiParseResult::InvalidFrame;
    }
    let length: usize = data[1] as usize + 256 * (data[2] as usize);
    if data.len() < length + 2 {
        return PtiParseResult::IncompleteFrame;
    }
    let end_symbol_index = length + 1;
    if data[end_symbol_index] != DCH_END_SYMBOL {
        return PtiParseResult::InvalidFrame;
    }
    let version: usize = data[3] as usize + 256 * (data[4] as usize);
    let header_size = if version == 2 {
        DCH_V2_HEADER_SIZE
    } else if version == 3 {
        DCH_V3_HEADER_SIZE
    } else {
        return PtiParseResult::InvalidFrame;
    };
    if length <= header_size {
        return PtiParseResult::InvalidFrame;
    }
    parse_pti_frame(slice_subrange(data, header_size + 1, end_symbol_index))
}

/// Views of a sequence of frames.
pub open spec fn frame_views(frames: Seq<Frame>) -> Seq<FrameView> {
    frames.map_values(|f: Frame| f@)
}

/// Scan of a byte buffer for DCH envelopes: the frames found, in order, and
/// the bytes that stay buffered.
///
/// With fewer than six bytes the scan halts. A first byte other than `'['`
/// is skipped. With `'['` first and fewer bytes than the length field asks
/// for, the scan halts. Otherwise the envelope is parsed: a frame is taken
/// and the scan goes on behind the envelope; any other result skips the
/// `'['` alone.
pub open spec fn scan(buffer: Seq<u8>) -> (Seq<FrameView>, Seq<u8>)
    decreases buffer.len(),
{
    if buffer.len() < MIN_FRAME_SIZE {
        (Seq::empty(), buffer)
    } else if buffer[0] != DCH_START_SYMBOL {
        scan(buffer.skip(1))
    } else if buffer.len() < dch_length(buffer) + 2 {
        (Seq::empty(), buffer)
    } else {
        match dch_frame_of(buffer.take(dch_length(buffer) + 2)) {
            PtiParseResultView::ValidFrame { frame } => {
                let behind = scan(buffer.skip(dch_length(buffer) + 2));
                (seq![frame] + behind.0, behind.1)
            },
            _ => scan(buffer.skip(1)),
        }
    }
}

/// Whether every frame of a sequence is sound.
pub open spec fn all_sound(frames: Seq<FrameView>) -> bool {
    forall|i: int| 0 <= i < frames.len() ==> pti_frame_sound(#[trigger] frames[i])
}

/// Every frame that a scan finds is sound.
pub proof fn lemma_scan_frames_are_sound(buffer: Seq<u8>)
    ensures
        all_sound(scan(buffer).0),
    decreases buffer.len(),
{
    if buffer.len() < MIN_FRAME_SIZE {
    } else if buffer[0] != DCH_START_SYMBOL {
        lemma_scan_frames_are_sound(buffer.skip(1));
    } else if buffer.len() < dch_length(buffer) + 2 {
    } else {
        let envelope = buffer.take(dch_length(buffer) + 2);
        lemma_envelope_frame_is_sound(envelope);
        match dch_frame_of(envelope) {
            PtiParseResultView::ValidFrame { frame } => {
                let behind = scan(buffer.skip(dch_length(buffer) + 2)).0;
                let found = seq![frame] + behind;
                lemma_scan_frames_are_sound(buffer.skip(dch_length(buffer) + 2));
                assert(scan(buffer).0 == found);
                assert forall|i: int| 0 <= i < found.len() implies pti_frame_sound(
                    #[trigger] found[i],
                ) by {
                    if i > 0 {
                        assert(found[i] == behind[i - 1]);
                    }
                }
            },
            _ => {
                lemma_scan_frames_are_sound(buffer.skip(1));
            },
        }
    }
}

/// Streaming invariance: scanning `head` and then what it left followed by
/// `tail` finds the frames, and leaves the bytes, that one scan of `head`
/// followed by `tail` does. However a byte stream is cut into chunks, the
/// parser hands out the same frames.
pub proof fn lemma_scan_in_two_chunks(head: Seq<u8>, tail: Seq<u8>)
    ensures
        scan(head + tail).0 == scan(head).0 + scan(scan(head).1 + tail).0,
        scan(head + tail).1 == scan(scan(head).1 + tail).1,
    decreases head.len(),
{
    let whole = head + tail;
    if head.len() < MIN_FRAME_SIZE {
    } else if head[0] != DCH_START_SYMBOL {
        assert(whole.skip(1) =~= head.skip(1) + tail);
        lemma_scan_in_two_chunks(head.skip(1), tail);
    } else if head.len() < dch_length(head) + 2 {
    } else {
        let size = dch_length(head) + 2;
        assert(whole.take(size) =~= head.take(size));
        match dch_frame_of(head.take(size)) {
            PtiParseResultView::ValidFrame { frame } => {
                assert(whole.skip(size) =~= head.skip(size) + tail);
                lemma_scan_in_two_chunks(head.skip(size), tail);
                let behind = scan(head.skip(size));
            },
            _ => {
                assert(whole.skip(1) =~= head.skip(1) + tail);
                lemma_scan_in_two_chunks(head.skip(1), tail);
            },
        }
    }
}

/// What a scan leaves is left by a scan of it again, and holds no frame:
/// the buffer of a parser between two calls is at rest.
pub proof fn lemma_scan_settles(buffer: Seq<u8>)
    ensures
        scan(scan(buffer).1) == (Seq::<FrameView>::empty(), scan(buffer).1),
    decreases buffer.len(),
{
    if buffer.len() < MIN_FRAME_SIZE {
    } else if buffer[0] != DCH_START_SYMBOL {
        lemma_scan_settles(buffer.skip(1));
    } else if buffer.len() < dch_length(buffer) + 2 {
    } else {
        match dch_frame_of(buffer.take(dch_length(buffer) + 2)) {
            PtiParseResultView::ValidFrame { frame } => {
                lemma_scan_settles(buffer.skip(dch_length(buffer) + 2));
            },
            _ => {
                lemma_scan_settles(buffer.skip(1));
            },
        }
    }
}

/// Feeding chunk after chunk to a parser that holds `buffer`: the frames
/// handed out, in order, and the bytes that stay buffered.
pub open spec fn scan_chunks(buffer: Seq<u8>, chunks: Seq<Seq<u8>>) -> (Seq<FrameView>, Seq<u8>)
    decreases chunks.len(),
{
    if chunks.len() == 0 {
        (Seq::empty(), buffer)
    } else {
        let first = scan(buffer + chunks[0]);
        let rest = scan_chunks(first.1, chunks.skip(1));
        (first.0 + rest.0, rest.1)
    }
}

/// Streaming invariance over any number of chunks: a parser whose buffer
/// is at rest hands out, fed chunk after chunk, the frames that it hands
/// out fed all the bytes at once, and keeps the same bytes.
pub proof fn lemma_streaming_invariance(buffer: Seq<u8>, chunks: Seq<Seq<u8>>)
    requires
        scan(buffer) == (Seq::<FrameView>::empty(), buffer),
    ensures
        scan_chunks(buffer, chunks) == scan(buffer + chunks.flatten()),
    decreases chunks.len(),
{
    if chunks.len() == 0 {
    } else {
        let first = scan(buffer + chunks[0]);
        let behind = chunks.skip(1).flatten();
        lemma_scan_settles(buffer + chunks[0]);
        lemma_streaming_invariance(first.1, chunks.skip(1));
        lemma_scan_in_two_chunks(buffer + chunks[0], behind);
        assert(buffer + chunks.flatten() =~= (buffer + chunks[0]) + behind);
    }
}

/// Streaming parser: buffers the bytes it is fed and hands out the frames of
/// the complete envelopes in them.
pub struct PtiParser {
    buffer: Vec<u8>,
}

impl View for PtiParser {
    type V = Seq<u8>;

    /// The bytes that are buffered.
    closed spec fn view(&self) -> Seq<u8> {
        self.buffer@
    }
}

impl PtiParser {
    /// A parser with an empty buffer.
    pub fn new() -> (parser: PtiParser)
        ensures
            parser@ == Seq::<u8>::empty(),
    {
        PtiParser { buffer: Vec::new() }
    }

    /// Appends `data` to the buffer, scans the buffer, hands out the frames
    /// found and keeps the bytes that the scan left.
    pub fn parse(&mut self, data: &[u8]) -> (frames: Vec<Frame>)
        ensures
            frame_views(frames@) == scan(old(self)@ + data@).0,
            final(self)@ == scan(old(self)@ + data@).1,
            scan(final(self)@) == (Seq::<FrameView>::empty(), final(self)@),
            forall|i: int| 0 <= i < frames@.len() ==> pti_frame_sound(#[trigger] frames@[i]@),
    {
        proof {
            lemma_scan_settles(old(self)@ + data@);
            lemma_scan_frames_are_sound(old(self)@ + data@);
        }
        self.buffer.extend_from_slice(data);
        let ghost all = self.buffer@;
        assert(all =~= old(self)@ + data@);
        let mut frames: Vec<Frame> = Vec::new();
        let mut consumed: usize = 0;
        let mut halted = false;
        assert(all.skip(0) =~= all);
        while !halted && consumed < self.buffer.len()
            invariant
                self.buffer@ == all,
                consumed <= all.len(),
                scan(all).0 == frame_views(frames@) + scan(all.skip(consumed as int)).0,
                scan(all).1 == scan(all.skip(consumed as int)).1,
                halted ==> scan(all.skip(consumed as int)) == (
                    Seq::<FrameView>::empty(),
                    all.skip(consumed as int),
                ),
            decreases all.len() - consumed + (if halted { 0int } else { 1int }),
        {
            let ghost remaining = all.skip(consumed as int);
            let left = self.buffer.len() - consumed;
            if left < MIN_FRAME_SIZE {
                halted = true;
            } else if self.buffer[consumed] != DCH_START_SYMBOL {
                assert(remaining.skip(1) =~= all.skip(consumed + 1));
                consumed += 1;
            } else {
                let low = self.buffer[consumed + 1] as usize;
                let high = self.buffer[consumed + 2] as usize;
                let length: usize = low + 256 * high;
                let frame_size = length + 2;
                if left < frame_size {
                    halted = true;
                } else {
                    assert(remaining.take(frame_size as int) =~= all.subrange(
                        consumed as int,
                        consumed + frame_size,
                    ));
                    let envelope = slice_subrange(
                        self.buffer.as_slice(),
                        consumed,
                        consumed + frame_size,
                    );
                    match parse_dch_frame(envelope) {
                        PtiParseResult::ValidFrame { frame } => {
                            assert(remaining.skip(frame_size as int) =~= all.skip(
                                consumed + frame_size,
                            ));
                            frames.push(frame);
                            consumed += frame_size;
                        },
                        _ => {
                            assert(remaining.skip(1) =~= all.skip(consumed + 1));
                            consumed += 1;
                        },
                    }
                }
            }
        }
        let rest = self.buffer.split_off(consumed);
        self.buffer = rest;
        assert forall|i: int| 0 <= i < frames@.len() implies pti_frame_sound(
            #[trigger] frames@[i]@,
        ) by {
            assert(frame_views(frames@)[i] == frames@[i]@);
            assert(all_sound(frame_views(frames@)));
        }
        frames
    }

    /// Empties the buffer.
    pub fn reset(&mut self)
        ensures
            final(self)@ == Seq::<u8>::empty(),
    {
        self.buffer.clear();
    }

    /// Number of bytes that are buffered.
    pub fn buffer_len(&self) -> (len: usize)
        ensures
            len == self@.len(),
    {
        self.buffer.len()
    }
}

impl Default for PtiParser {
    fn default() -> (parser: PtiParser)
        ensures
            parser@ == Seq::<u8>::empty(),
    {
        PtiParser::new()
    }
}

} // verus!
