//! The decoders that the library brings along.

use vstd::prelude::*;
use crate::frame::DecodedChunk;
use crate::frame::DecodedChunkView;
use crate::frame::DecodedField;
use crate::frame::DecodedFieldView;
use crate::frame::Decoding;
use crate::frame::DecodingView;
use crate::frame::DisplayType;
use crate::frame::FieldType;
use crate::frame::FieldTypeView;
use crate::frame::FrameDecoder;
use crate::frame::MACFrame;
use crate::frame::MACFrameView;
use crate::frame::Segment;
use crate::frame::SubFrameRequest;
use crate::frame::SubFrameRequestView;
use crate::zwave_frame_decoder::ZWaveFrameDecoder;

verus! {

/// Bytes of a Zniffer envelope before the bytes of the Z-Wave frame.
pub const ENVELOPE_HEADER_SIZE: usize = 6;

/// Where in an envelope its length byte stands.
pub const ENVELOPE_LENGTH_OFFSET: usize = 5;

/// Whether the bytes `start..end` of `data` hold an envelope: six bytes of
/// header, and as many bytes behind them as the length byte says.
pub open spec fn envelope_fits(data: Seq<u8>, start: int, end: int) -> bool {
    &&& 0 <= start
    &&& start + ENVELOPE_HEADER_SIZE <= end <= data.len()
    &&& start + ENVELOPE_HEADER_SIZE + data[start + ENVELOPE_LENGTH_OFFSET] <= end
}

/// Where the bytes behind the header of an envelope end.
pub open spec fn envelope_end(data: Seq<u8>, start: int) -> int {
    start + ENVELOPE_HEADER_SIZE + data[start + ENVELOPE_LENGTH_OFFSET]
}

/// A field of a type of fixed size.
pub open spec fn sized_field(
    short_name: Seq<char>,
    name: Seq<char>,
    start: int,
    field_type: FieldTypeView,
    display_type: DisplayType,
) -> DecodedFieldView {
    DecodedFieldView {
        short_name: short_name,
        name: name,
        start: start,
        end: start + field_type.width().unwrap(),
        field_type: field_type,
        display_type: display_type,
    }
}

/// The five fields of the header of an envelope that starts at `start`:
/// channel and speed, region, RSSI, start of data, and length.
pub open spec fn envelope_header(start: int) -> Seq<DecodedFieldView> {
    seq![
        sized_field(
            "channel"@,
            "Channel and speed"@,
            start,
            FieldTypeView::UInt8,
            DisplayType::Decimal,
        ),
        sized_field("region"@, "Region"@, start + 1, FieldTypeView::UInt8, DisplayType::Decimal),
        sized_field("rssi"@, "RSSI"@, start + 2, FieldTypeView::Int8, DisplayType::Decimal),
        sized_field(
            "start_of_data"@,
            "Start of Data"@,
            start + 3,
            FieldTypeView::UInt16LE,
            DisplayType::Hex,
        ),
        sized_field("length"@, "Length"@, start + 5, FieldTypeView::UInt8, DisplayType::Decimal),
    ]
}

/// The header fields of an envelope and `last` behind them.
pub open spec fn envelope_chunk(start: int, last: DecodedFieldView) -> DecodedChunkView {
    DecodedChunkView { fields: envelope_header(start).push(last) }
}

fn envelope_fields(start: usize) -> (fields: Vec<DecodedField>)
    requires
        start + ENVELOPE_HEADER_SIZE <= usize::MAX,
    ensures
        fields@.len() == 5,
        forall|i: int| 0 <= i < 5 ==> (#[trigger] fields@[i])@ == envelope_header(start as int)[i],
{
    let mut fields: Vec<DecodedField> = Vec::new();
    fields.push(
        DecodedField::sized(
            "channel",
            "Channel and speed",
            start,
            FieldType::UInt8,
            DisplayType::Decimal,
        ),
    );
    fields.push(
        DecodedField::sized("region", "Region", start + 1, FieldType::UInt8, DisplayType::Decimal),
    );
    fields.push(
        DecodedField::sized("rssi", "RSSI", start + 2, FieldType::Int8, DisplayType::Decimal),
    );
    fields.push(
        DecodedField::sized(
            "start_of_data",
            "Start of Data",
            start + 3,
            FieldType::UInt16LE,
            DisplayType::Hex,
        ),
    );
    fields.push(
        DecodedField::sized("length", "Length", start + 5, FieldType::UInt8, DisplayType::Decimal),
    );
    fields
}

fn envelope_length(frame: &MACFrame, segment: &Segment) -> (length: Option<usize>)
    ensures
        length is Some <==> envelope_fits(frame@.data, segment.start as int, segment.end as int),
        length matches Some(n) ==> n == frame@.data[segment.start + ENVELOPE_LENGTH_OFFSET],
{
    let start = segment.start;
    let end = segment.end;
    if end > frame.data.len() || end < ENVELOPE_HEADER_SIZE || start > end - ENVELOPE_HEADER_SIZE {
        return None;
    }
    let length = frame.data[start + ENVELOPE_LENGTH_OFFSET] as usize;
    if length > end - ENVELOPE_HEADER_SIZE - start {
        return None;
    }
    Some(length)
}

/// Where the header fields stand in an envelope chunk, and that they and a
/// last field behind them make a well-formed chunk.
pub proof fn lemma_envelope_chunk_well_formed(start: int, end: int, last: DecodedFieldView)
    requires
        0 <= start,
        last.start == start + ENVELOPE_HEADER_SIZE,
        last.well_formed(start, end),
    ensures
        envelope_chunk(start, last).well_formed(start, end),
{
    let chunk = envelope_chunk(start, last);
    assert forall|i: int| 0 <= i < chunk.fields.len() implies (#[trigger] chunk.fields[i]).well_formed(
        start,
        end,
    ) by {
        if i < 5 {
        }
    }
    assert forall|i: int, j: int| 0 <= i < j < chunk.fields.len() implies (
    #[trigger] chunk.fields[i]).apart_from(#[trigger] chunk.fields[j]) by {
        if j < 5 {
        }
    }
}

/// Decoder of a frame as a Zniffer device hands it out: channel and speed,
/// region, RSSI, start of data, length, and the Z-Wave frame, which the
/// decoder registered as `ZWaveFrameDecoder` is asked to decode.
#[derive(Debug, Clone, Copy)]
pub struct ZnifferFrameDecoder;

/// The field of the Z-Wave frame in an envelope, not yet decoded.
pub open spec fn zwave_frame_field(data: Seq<u8>, start: int) -> DecodedFieldView {
    DecodedFieldView {
        short_name: "zwave_frame"@,
        name: "Z-WaveFrame"@,
        start: start + ENVELOPE_HEADER_SIZE,
        end: envelope_end(data, start),
        field_type: FieldTypeView::SubFrame(DecodedChunkView { fields: Seq::empty() }),
        display_type: DisplayType::NoDisplay,
    }
}

impl FrameDecoder for ZnifferFrameDecoder {
    open spec fn name(&self) -> Seq<char> {
        "ZnifferFrameDecoder"@
    }

    open spec fn decoding(&self, frame: MACFrameView, start: int, end: int) -> Option<DecodingView> {
        if envelope_fits(frame.data, start, end) {
            Some(
                DecodingView {
                    chunk: envelope_chunk(start, zwave_frame_field(frame.data, start)),
                    sub_frames: seq![
                        SubFrameRequestView { field: 5, decoder_name: "ZWaveFrameDecoder"@ },
                    ],
                },
            )
        } else {
            None
        }
    }

    fn decode_frame(&self, frame: &MACFrame, segment: Segment) -> (decoding: Option<Decoding>) {
        let length = match envelope_length(frame, &segment) {
            Some(n) => n,
            None => {
                return None;
            },
        };
        let start = segment.start;
        let mut fields = envelope_fields(start);
        let field = DecodedField::new(
            "zwave_frame",
            "Z-WaveFrame",
            start + ENVELOPE_HEADER_SIZE,
            start + ENVELOPE_HEADER_SIZE + length,
            FieldType::SubFrame(DecodedChunk::new(Vec::new())),
            DisplayType::NoDisplay,
        );
        let ghost last = zwave_frame_field(frame@.data, start as int);
        proof {
            assert(field@.field_type->SubFrame_0.fields =~= Seq::<DecodedFieldView>::empty());
            lemma_envelope_chunk_well_formed(start as int, segment.end as int, last);
        }
        fields.push(field);
        let chunk = DecodedChunk::new(fields);
        let mut sub_frames: Vec<SubFrameRequest> = Vec::new();
        sub_frames.push(SubFrameRequest { field: 5, decoder_name: "ZWaveFrameDecoder".to_owned() });
        let decoding = Decoding { chunk, sub_frames };
        proof {
            assert(decoding@.chunk.fields =~= envelope_chunk(start as int, last).fields);
            assert(decoding@.sub_frames =~= seq![
                SubFrameRequestView { field: 5, decoder_name: "ZWaveFrameDecoder"@ },
            ]);
        }
        Some(decoding)
    }

    fn decoder_name(&self) -> (name: &str) {
        "ZnifferFrameDecoder"
    }
}

/// Decoder of a frame as a Zniffer device hands it out, with the bytes of
/// the Z-Wave frame left as they are.
#[derive(Debug, Clone, Copy)]
pub struct SnifferFrameDecoder;

/// The field of the bytes behind the header of an envelope.
pub open spec fn data_field(data: Seq<u8>, start: int) -> DecodedFieldView {
    DecodedFieldView {
        short_name: "data"@,
        name: "Data"@,
        start: start + ENVELOPE_HEADER_SIZE,
        end: envelope_end(data, start),
        field_type: FieldTypeView::Bytes,
        display_type: DisplayType::Hex,
    }
}

impl FrameDecoder for SnifferFrameDecoder {
    open spec fn name(&self) -> Seq<char> {
        "SnifferFrameDecoder"@
    }

    open spec fn decoding(&self, frame: MACFrameView, start: int, end: int) -> Option<DecodingView> {
        if envelope_fits(frame.data, start, end) {
            Some(
                DecodingView {
                    chunk: envelope_chunk(start, data_field(frame.data, start)),
                    sub_frames: Seq::empty(),
                },
            )
        } else {
            None
        }
    }

    fn decode_frame(&self, frame: &MACFrame, segment: Segment) -> (decoding: Option<Decoding>) {
        let length = match envelope_length(frame, &segment) {
            Some(n) => n,
            None => {
                return None;
            },
        };
        let start = segment.start;
        let mut fields = envelope_fields(start);
        let field = DecodedField::new(
            "data",
            "Data",
            start + ENVELOPE_HEADER_SIZE,
            start + ENVELOPE_HEADER_SIZE + length,
            FieldType::Bytes,
            DisplayType::Hex,
        );
        let ghost last = data_field(frame@.data, start as int);
        proof {
            lemma_envelope_chunk_well_formed(start as int, segment.end as int, last);
        }
        fields.push(field);
        let decoding = Decoding { chunk: DecodedChunk::new(fields), sub_frames: Vec::new() };
        proof {
            assert(decoding@.chunk.fields =~= envelope_chunk(start as int, last).fields);
            assert(decoding@.sub_frames =~= Seq::<SubFrameRequestView>::empty());
        }
        Some(decoding)
    }

    fn decoder_name(&self) -> (name: &str) {
        "SnifferFrameDecoder"
    }
}

/// The decoders that the library brings along, as one type.
#[derive(Debug, Clone)]
pub enum BuiltinDecoder {
    Zniffer(ZnifferFrameDecoder),
    Sniffer(SnifferFrameDecoder),
    ZWave(ZWaveFrameDecoder),
}

impl FrameDecoder for BuiltinDecoder {
    open spec fn name(&self) -> Seq<char> {
        match self {
            BuiltinDecoder::Zniffer(d) => d.name(),
            BuiltinDecoder::Sniffer(d) => d.name(),
            BuiltinDecoder::ZWave(d) => d.name(),
        }
    }

    open spec fn decoding(&self, frame: MACFrameView, start: int, end: int) -> Option<DecodingView> {
        match self {
            BuiltinDecoder::Zniffer(d) => d.decoding(frame, start, end),
            BuiltinDecoder::Sniffer(d) => d.decoding(frame, start, end),
            BuiltinDecoder::ZWave(d) => d.decoding(frame, start, end),
        }
    }

    fn decode_frame(&self, frame: &MACFrame, segment: Segment) -> (decoding: Option<Decoding>) {
        match self {
            BuiltinDecoder::Zniffer(d) => d.decode_frame(frame, segment),
            BuiltinDecoder::Sniffer(d) => d.decode_frame(frame, segment),
            BuiltinDecoder::ZWave(d) => d.decode_frame(frame, segment),
        }
    }

    fn decoder_name(&self) -> (name: &str) {
        match self {
            BuiltinDecoder::Zniffer(d) => d.decoder_name(),
            BuiltinDecoder::Sniffer(d) => d.decoder_name(),
            BuiltinDecoder::ZWave(d) => d.decoder_name(),
        }
    }
}

} // verus!
