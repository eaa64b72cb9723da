//! Decoded frames: a tree of typed, positioned fields over the bytes of a
//! captured frame, the decoders that produce it, and the library that
//! holds the decoders by name.

use vstd::prelude::*;
use std::ops::Range;
use crate::text::same_text;

verus! {

/// A range of bytes of a frame: from `start` up to, not including, `end`.
pub type Segment = Range<usize>;

/// Protocol of a captured frame.
#[derive(Debug, Clone, Copy, PartialEq, Eq, Structural)]
pub enum MACProtocol {
    ZWave,
    IEEE802_15_4,
    LoRa,
}

/// How the value of a field is shown.
#[derive(Debug, Clone, Copy, PartialEq, Eq, Structural)]
pub enum DisplayType {
    Hex,
    Decimal,
    Binary,
    Ascii,
    /// The value is not shown.
    NoDisplay,
}

/// Type of a field.
#[derive(Debug)]
pub enum FieldType {
    UInt8,
    UInt16LE,
    UInt16BE,
    UInt32LE,
    UInt32BE,
    Int8,
    Int16LE,
    Int16BE,
    Int32LE,
    Int32BE,
    Bytes,
    SubFrame(DecodedChunk),
}

/// A field of a frame.
#[derive(Debug)]
pub struct DecodedField {
    /// Name used in filters.
    pub short_name: String,
    /// Name shown to the user.
    pub name: String,
    /// The bytes of the frame that the field covers.
    pub segment: Segment,
    pub field_type: FieldType,
    pub display_type: DisplayType,
}

/// An ordered sequence of fields.
#[derive(Debug)]
pub struct DecodedChunk {
    pub fields: Vec<DecodedField>,
}

/// Mathematical value of a field type.
pub enum FieldTypeView {
    UInt8,
    UInt16LE,
    UInt16BE,
    UInt32LE,
    UInt32BE,
    Int8,
    Int16LE,
    Int16BE,
    Int32LE,
    Int32BE,
    Bytes,
    SubFrame(DecodedChunkView),
}

/// Mathematical value of a field.
pub struct DecodedFieldView {
    pub short_name: Seq<char>,
    pub name: Seq<char>,
    pub start: int,
    pub end: int,
    pub field_type: FieldTypeView,
    pub display_type: DisplayType,
}

/// Mathematical value of a chunk.
pub struct DecodedChunkView {
    pub fields: Seq<DecodedFieldView>,
}

/// Value of a field type.
pub open spec fn field_type_view(field_type: FieldType) -> FieldTypeView
    decreases field_type,
{
    match field_type {
        FieldType::UInt8 => FieldTypeView::UInt8,
        FieldType::UInt16LE => FieldTypeView::UInt16LE,
        FieldType::UInt16BE => FieldTypeView::UInt16BE,
        FieldType::UInt32LE => FieldTypeView::UInt32LE,
        FieldType::UInt32BE => FieldTypeView::UInt32BE,
        FieldType::Int8 => FieldTypeView::Int8,
        FieldType::Int16LE => FieldTypeView::Int16LE,
        FieldType::Int16BE => FieldTypeView::Int16BE,
        FieldType::Int32LE => FieldTypeView::Int32LE,
        FieldType::Int32BE => FieldTypeView::Int32BE,
        FieldType::Bytes => FieldTypeView::Bytes,
        FieldType::SubFrame(chunk) => FieldTypeView::SubFrame(chunk_view(chunk)),
    }
}

/// Value of a field.
pub open spec fn field_view(field: DecodedField) -> DecodedFieldView
    decreases field,
{
    DecodedFieldView {
        short_name: field.short_name@,
        name: field.name@,
        start: field.segment.start as int,
        end: field.segment.end as int,
        field_type: field_type_view(field.field_type),
        display_type: field.display_type,
    }
}

/// Values of the fields of a vector.
pub open spec fn views_of(fields: Vec<DecodedField>) -> Seq<DecodedFieldView>
    decreases fields,
{
    Seq::new(
        fields@.len(),
        |i: int|
            if 0 <= i < fields@.len() {
                field_view(fields[i])
            } else {
                arbitrary()
            },
    )
}

/// Value of a chunk.
pub open spec fn chunk_view(chunk: DecodedChunk) -> DecodedChunkView
    decreases chunk,
{
    DecodedChunkView { fields: views_of(chunk.fields) }
}

impl View for FieldType {
    type V = FieldTypeView;

    open spec fn view(&self) -> FieldTypeView {
        field_type_view(*self)
    }
}

impl View for DecodedField {
    type V = DecodedFieldView;

    open spec fn view(&self) -> DecodedFieldView {
        field_view(*self)
    }
}

impl View for DecodedChunk {
    type V = DecodedChunkView;

    open spec fn view(&self) -> DecodedChunkView {
        chunk_view(*self)
    }
}

impl FieldTypeView {
    /// Number of bytes of a type of fixed size; `None` for bytes and sub-frames.
    pub open spec fn width(self) -> Option<int> {
        match self {
            FieldTypeView::UInt8 | FieldTypeView::Int8 => Some(1),
            FieldTypeView::UInt16LE | FieldTypeView::UInt16BE | FieldTypeView::Int16LE
            | FieldTypeView::Int16BE => Some(2),
            FieldTypeView::UInt32LE | FieldTypeView::UInt32BE | FieldTypeView::Int32LE
            | FieldTypeView::Int32BE => Some(4),
            FieldTypeView::Bytes | FieldTypeView::SubFrame(_) => None,
        }
    }
}

impl DecodedFieldView {
    /// The field lies within `lo..hi`, a type of fixed size covers as many
    /// bytes as it is wide, and a sub-frame is well formed within the bytes
    /// that the field covers.
    pub open spec fn well_formed(self, lo: int, hi: int) -> bool
        decreases self,
    {
        &&& lo <= self.start <= self.end <= hi
        &&& self.field_type.width() matches Some(w) ==> self.end - self.start == w
        &&& match self.field_type {
            FieldTypeView::SubFrame(chunk) => chunk.well_formed(self.start, self.end),
            _ => true,
        }
    }

    /// Whether two fields share no byte.
    pub open spec fn apart_from(self, other: DecodedFieldView) -> bool {
        self.end <= other.start || other.end <= self.start
    }
}

impl DecodedChunkView {
    /// Every field is well formed within `lo..hi`, and no two fields of
    /// the chunk share a byte. Fields overlap only by nesting: the fields
    /// of a sub-frame lie within the field that holds it.
    pub open spec fn well_formed(self, lo: int, hi: int) -> bool
        decreases self,
    {
        &&& forall|i: int|
            0 <= i < self.fields.len() ==> (#[trigger] self.fields[i]).well_formed(lo, hi)
        &&& forall|i: int, j: int|
            0 <= i < j < self.fields.len() ==> (#[trigger] self.fields[i]).apart_from(
                #[trigger] self.fields[j],
            )
    }

    /// The chunk with the type of field `at` replaced.
    pub open spec fn with_field_type(self, at: int, field_type: FieldTypeView) -> DecodedChunkView {
        DecodedChunkView {
            fields: self.fields.update(
                at,
                DecodedFieldView { field_type: field_type, ..self.fields[at] },
            ),
        }
    }
}

impl FieldType {
    /// Number of bytes of a type of fixed size.
    pub fn width(&self) -> (width: Option<usize>)
        ensures
            width is Some <==> self@.width() is Some,
            width matches Some(w) ==> self@.width() == Some(w as int),
    {
        match self {
            FieldType::UInt8 | FieldType::Int8 => Some(1),
            FieldType::UInt16LE | FieldType::UInt16BE | FieldType::Int16LE | FieldType::Int16BE => {
                Some(2)
            },
            FieldType::UInt32LE | FieldType::UInt32BE | FieldType::Int32LE | FieldType::Int32BE => {
                Some(4)
            },
            FieldType::Bytes | FieldType::SubFrame(_) => None,
        }
    }
}

impl DecodedField {
    /// A field that covers `start..end`.
    pub fn new(
        short_name: &str,
        name: &str,
        start: usize,
        end: usize,
        field_type: FieldType,
        display_type: DisplayType,
    ) -> (field: DecodedField)
        ensures
            field@ == (DecodedFieldView {
                short_name: short_name@,
                name: name@,
                start: start as int,
                end: end as int,
                field_type: field_type@,
                display_type: display_type,
            }),
    {
        DecodedField {
            short_name: short_name.to_owned(),
            name: name.to_owned(),
            segment: start..end,
            field_type,
            display_type,
        }
    }

    /// A field of a type of fixed size that starts at `start` and covers as
    /// many bytes as its type is wide.
    pub fn sized(
        short_name: &str,
        name: &str,
        start: usize,
        field_type: FieldType,
        display_type: DisplayType,
    ) -> (field: DecodedField)
        requires
            field_type@.width() is Some,
            start + field_type@.width().unwrap() <= usize::MAX,
        ensures
            field@ == (DecodedFieldView {
                short_name: short_name@,
                name: name@,
                start: start as int,
                end: start + field_type@.width().unwrap(),
                field_type: field_type@,
                display_type: display_type,
            }),
    {
        let width = match field_type.width() {
            Some(w) => w,
            None => 0,
        };
        DecodedField::new(short_name, name, start, start + width, field_type, display_type)
    }
}

impl DecodedChunk {
    /// The chunk of `fields`.
    pub fn new(fields: Vec<DecodedField>) -> (chunk: DecodedChunk)
        ensures
            chunk.fields == fields,
    {
        DecodedChunk { fields }
    }
}

/// Mathematical value of a captured frame.
pub struct MACFrameView {
    pub id: u32,
    pub timestamp: u32,
    pub protocol: MACProtocol,
    pub data: Seq<u8>,
    pub top: DecodedChunkView,
}

/// A captured frame with what was decoded of it.
#[derive(Debug)]
pub struct MACFrame {
    pub id: u32,
    pub timestamp: u32,
    pub protocol: MACProtocol,
    pub data: Vec<u8>,
    pub top: DecodedChunk,
}

impl View for MACFrame {
    type V = MACFrameView;

    open spec fn view(&self) -> MACFrameView {
        MACFrameView {
            id: self.id,
            timestamp: self.timestamp,
            protocol: self.protocol,
            data: self.data@,
            top: self.top@,
        }
    }
}

/// Mathematical value of a request for a sub-frame.
pub struct SubFrameRequestView {
    pub field: int,
    pub decoder_name: Seq<char>,
}

/// A request to decode the bytes of a field as a sub-frame.
#[derive(Debug)]
pub struct SubFrameRequest {
    /// Index of the field in the chunk.
    pub field: usize,
    /// Name of the decoder that is to decode the bytes of the field.
    pub decoder_name: String,
}

impl View for SubFrameRequest {
    type V = SubFrameRequestView;

    open spec fn view(&self) -> SubFrameRequestView {
        SubFrameRequestView { field: self.field as int, decoder_name: self.decoder_name@ }
    }
}

/// Mathematical value of what a decoder makes of a segment.
pub struct DecodingView {
    pub chunk: DecodedChunkView,
    pub sub_frames: Seq<SubFrameRequestView>,
}

/// What a decoder makes of a segment: the fields, and for the fields that
/// other decoders are to decode, the names of those decoders.
#[derive(Debug)]
pub struct Decoding {
    pub chunk: DecodedChunk,
    pub sub_frames: Vec<SubFrameRequest>,
}

impl View for Decoding {
    type V = DecodingView;

    open spec fn view(&self) -> DecodingView {
        DecodingView {
            chunk: self.chunk@,
            sub_frames: self.sub_frames@.map_values(|r: SubFrameRequest| r@),
        }
    }
}

impl DecodingView {
    /// The chunk is well formed within `lo..hi`, and every request names a
    /// field of the chunk that is a sub-frame.
    pub open spec fn well_formed(self, lo: int, hi: int) -> bool {
        &&& self.chunk.well_formed(lo, hi)
        &&& forall|k: int|
            0 <= k < self.sub_frames.len() ==> {
                &&& 0 <= (#[trigger] self.sub_frames[k]).field < self.chunk.fields.len()
                &&& self.chunk.fields[self.sub_frames[k].field].field_type is SubFrame
            }
    }
}

/// A decoder of frames.
///
/// A decoder does not call other decoders. It hands out the fields of a
/// segment and names the decoders of its sub-frames; the library calls
/// those and fills the sub-frames in.
pub trait FrameDecoder {
    /// The name under which the decoder is registered. A decoder that
    /// does not say is held to an arbitrary name.
    open spec fn name(&self) -> Seq<char> {
        arbitrary()
    }

    /// What the decoder makes of the bytes `start..end` of a frame; `None`
    /// where it cannot decode them. A decoder that does not say is held to
    /// an arbitrary answer.
    open spec fn decoding(&self, frame: MACFrameView, start: int, end: int) -> Option<
        DecodingView,
    > {
        arbitrary()
    }

    /// Decodes a segment of a frame. Every field that is handed out lies
    /// within the segment, and no two fields of a chunk share a byte.
    fn decode_frame(&self, frame: &MACFrame, segment: Segment) -> (decoding: Option<Decoding>)
        ensures
            decoding is Some <==> self.decoding(frame@, segment.start as int, segment.end as int)
                is Some,
            decoding matches Some(d) ==> {
                &&& Some(d@) == self.decoding(frame@, segment.start as int, segment.end as int)
                &&& d@.well_formed(segment.start as int, segment.end as int)
            },
    ;

    /// The name under which the decoder is registered.
    fn decoder_name(&self) -> (name: &str)
        ensures
            name@ == self.name(),
    ;
}

/// How deep sub-frames may nest: decoding fails where decoders ask for
/// sub-frames within sub-frames more often than this.
pub const MAX_DECODE_DEPTH: usize = 32;

/// Index of the decoder registered last under `name`, if any.
pub open spec fn find_decoder<D: FrameDecoder>(decoders: Seq<D>, name: Seq<char>) -> Option<int>
    decreases decoders.len(),
{
    if decoders.len() == 0 {
        None
    } else if decoders.last().name() == name {
        Some(decoders.len() - 1)
    } else {
        find_decoder(decoders.drop_last(), name)
    }
}

/// What the library makes of the bytes `start..end` of a frame with the
/// decoder registered under `name`, with sub-frames nesting at most
/// `depth` deep: what the decoder makes of them, with each requested
/// sub-frame decoded in turn. `None` where no decoder is registered under
/// the name, where a decoder cannot decode its bytes, and where the
/// nesting goes deeper than `depth`.
pub open spec fn decoded_by<D: FrameDecoder>(
    decoders: Seq<D>,
    name: Seq<char>,
    frame: MACFrameView,
    start: int,
    end: int,
    depth: nat,
) -> Option<DecodedChunkView>
    decreases depth, 1nat, 0nat,
{
    match find_decoder(decoders, name) {
        None => None,
        Some(i) => match decoders[i].decoding(frame, start, end) {
            None => None,
            Some(d) => resolved_by(decoders, frame, d.chunk, d.sub_frames, depth),
        },
    }
}

/// The chunk with each requested sub-frame decoded and filled in, in the
/// order of the requests; `None` where one of them cannot be decoded.
pub open spec fn resolved_by<D: FrameDecoder>(
    decoders: Seq<D>,
    frame: MACFrameView,
    chunk: DecodedChunkView,
    requests: Seq<SubFrameRequestView>,
    depth: nat,
) -> Option<DecodedChunkView>
    decreases depth, 0nat, requests.len(),
{
    if requests.len() == 0 {
        Some(chunk)
    } else if depth == 0 {
        None
    } else {
        let field = chunk.fields[requests[0].field];
        match decoded_by(
            decoders,
            requests[0].decoder_name,
            frame,
            field.start,
            field.end,
            (depth - 1) as nat,
        ) {
            None => None,
            Some(sub) => resolved_by(
                decoders,
                frame,
                chunk.with_field_type(requests[0].field, FieldTypeView::SubFrame(sub)),
                requests.skip(1),
                depth,
            ),
        }
    }
}

/// A library of frame decoders, held by name.
///
/// The decoders of a library are of one type. A library of decoders of
/// several kinds holds an enumeration of them, such as `BuiltinDecoder`.
pub struct DecoderLibrary<D: FrameDecoder> {
    decoders: Vec<D>,
}

impl<D: FrameDecoder> View for DecoderLibrary<D> {
    type V = Seq<D>;

    /// The decoders in the order in which they were registered.
    closed spec fn view(&self) -> Seq<D> {
        self.decoders@
    }
}

impl<D: FrameDecoder> DecoderLibrary<D> {
    /// A library without decoders.
    pub fn new() -> (library: DecoderLibrary<D>)
        ensures
            library@.len() == 0,
    {
        DecoderLibrary { decoders: Vec::new() }
    }

    /// Registers a decoder under its name. It takes the place of a decoder
    /// registered under that name before.
    pub fn register_decoder(&mut self, decoder: D)
        ensures
            final(self)@ == old(self)@.push(decoder),
            find_decoder(final(self)@, decoder.name()) == Some(old(self)@.len() as int),
            forall|name: Seq<char>|
                name != decoder.name() ==> find_decoder(final(self)@, name) == find_decoder(
                    old(self)@,
                    name,
                ),
    {
        self.decoders.push(decoder);
        proof {
            assert(self.decoders@.drop_last() =~= old(self).decoders@);
        }
    }

    fn find(&self, decoder_name: &str) -> (found: Option<usize>)
        ensures
            found is Some <==> find_decoder(self@, decoder_name@) is Some,
            found matches Some(i) ==> find_decoder(self@, decoder_name@) == Some(i as int) && i
                < self@.len(),
    {
        let mut i: usize = self.decoders.len();
        assert(self.decoders@.take(i as int) =~= self.decoders@);
        while i > 0
            invariant
                i <= self.decoders@.len(),
                find_decoder(self.decoders@, decoder_name@) == find_decoder(
                    self.decoders@.take(i as int),
                    decoder_name@,
                ),
            decreases i,
        {
            i -= 1;
            assert(self.decoders@.take(i + 1).drop_last() =~= self.decoders@.take(i as int));
            if same_text(self.decoders[i].decoder_name(), decoder_name) {
                return Some(i);
            }
        }
        None
    }

    fn decode_at_depth(
        &self,
        decoder_name: &str,
        frame: &MACFrame,
        segment: Segment,
        depth: usize,
    ) -> (chunk: Option<DecodedChunk>)
        ensures
            chunk is Some <==> decoded_by(
                self@,
                decoder_name@,
                frame@,
                segment.start as int,
                segment.end as int,
                depth as nat,
            ) is Some,
            chunk matches Some(c) ==> {
                &&& Some(c@) == decoded_by(
                    self@,
                    decoder_name@,
                    frame@,
                    segment.start as int,
                    segment.end as int,
                    depth as nat,
                )
                &&& c@.well_formed(segment.start as int, segment.end as int)
            },
        decreases depth,
    {
        let lo = segment.start;
        let hi = segment.end;
        let found = match self.find(decoder_name) {
            Some(i) => i,
            None => {
                return None;
            },
        };
        let decoding = match self.decoders[found].decode_frame(frame, segment) {
            Some(d) => d,
            None => {
                return None;
            },
        };
        let ghost requests = decoding@.sub_frames;
        let ghost first = decoding@.chunk;
        let mut chunk = decoding.chunk;
        let sub_frames = decoding.sub_frames;
        let mut k: usize = 0;
        assert(requests.skip(0) =~= requests);
        while k < sub_frames.len()
            invariant
                k <= sub_frames@.len(),
                requests == sub_frames@.map_values(|r: SubFrameRequest| r@),
                chunk@.well_formed(lo as int, hi as int),
                chunk@.fields.len() == first.fields.len(),
                forall|j: int|
                    0 <= j < requests.len() ==> {
                        &&& 0 <= (#[trigger] requests[j]).field < chunk@.fields.len()
                        &&& chunk@.fields[requests[j].field].field_type is SubFrame
                    },
                resolved_by(self@, frame@, chunk@, requests.skip(k as int), depth as nat)
                    == resolved_by(self@, frame@, first, requests, depth as nat),
                decoded_by(
                    self@,
                    decoder_name@,
                    frame@,
                    lo as int,
                    hi as int,
                    depth as nat,
                ) == resolved_by(self@, frame@, first, requests, depth as nat),
                lo == segment.start,
                hi == segment.end,
            decreases sub_frames@.len() - k,
        {
            if depth == 0 {
                return None;
            }
            let ghost before = chunk@;
            let at = sub_frames[k].field;
            let start = chunk.fields[at].segment.start;
            let end = chunk.fields[at].segment.end;
            let sub = match self.decode_at_depth(
                sub_frames[k].decoder_name.as_str(),
                frame,
                start..end,
                depth - 1,
            ) {
                Some(sub) => sub,
                None => {
                    return None;
                },
            };
            let replaced = DecodedField {
                short_name: chunk.fields[at].short_name.clone(),
                name: chunk.fields[at].name.clone(),
                segment: start..end,
                field_type: FieldType::SubFrame(sub),
                display_type: chunk.fields[at].display_type,
            };
            chunk.fields.set(at, replaced);
            proof {
                let after = before.with_field_type(at as int, FieldTypeView::SubFrame(sub@));
                assert(chunk@.fields =~= after.fields);
                lemma_sub_frame_filled(before, at as int, sub@, lo as int, hi as int);
                assert(requests.skip(k as int).skip(1) =~= requests.skip(k + 1));
            }
            k += 1;
        }
        Some(chunk)
    }

    /// Decodes a segment of a frame with the decoder registered under
    /// `decoder_name`, and the sub-frames that it asks for with theirs.
    ///
    /// `None` where no decoder is registered under the name, where a
    /// decoder cannot decode its bytes, and where sub-frames nest deeper
    /// than `MAX_DECODE_DEPTH`. Every field of the chunk lies within the
    /// segment, and within a chunk no two fields share a byte.
    pub fn decode(&self, decoder_name: &str, frame: &MACFrame, segment: Segment) -> (chunk: Option<
        DecodedChunk,
    >)
        ensures
            chunk is Some <==> decoded_by(
                self@,
                decoder_name@,
                frame@,
                segment.start as int,
                segment.end as int,
                MAX_DECODE_DEPTH as nat,
            ) is Some,
            chunk matches Some(c) ==> {
                &&& Some(c@) == decoded_by(
                    self@,
                    decoder_name@,
                    frame@,
                    segment.start as int,
                    segment.end as int,
                    MAX_DECODE_DEPTH as nat,
                )
                &&& c@.well_formed(segment.start as int, segment.end as int)
            },
            find_decoder(self@, decoder_name@) is None ==> chunk is None,
    {
        self.decode_at_depth(decoder_name, frame, segment, MAX_DECODE_DEPTH)
    }
}

/// Filling a sub-frame in keeps a chunk well formed: the field keeps its
/// bytes, and the sub-frame is well formed within them.
pub proof fn lemma_sub_frame_filled(
    chunk: DecodedChunkView,
    at: int,
    sub: DecodedChunkView,
    lo: int,
    hi: int,
)
    requires
        chunk.well_formed(lo, hi),
        0 <= at < chunk.fields.len(),
        chunk.fields[at].field_type is SubFrame,
        sub.well_formed(chunk.fields[at].start, chunk.fields[at].end),
    ensures
        chunk.with_field_type(at, FieldTypeView::SubFrame(sub)).well_formed(lo, hi),
{
    let after = chunk.with_field_type(at, FieldTypeView::SubFrame(sub));
    assert forall|i: int| 0 <= i < after.fields.len() implies (#[trigger] after.fields[i]).well_formed(
        lo,
        hi,
    ) by {
        if i != at {
        } else {
        }
    }
    assert forall|i: int, j: int| 0 <= i < j < after.fields.len() implies (
    #[trigger] after.fields[i]).apart_from(#[trigger] after.fields[j]) by {
    }
}

/// Whether fields stand one behind the other within `lo..hi`: every
/// field is well formed within `lo..hi`, and each ends where the next
/// starts or before.
pub open spec fn tiled(fields: Seq<DecodedFieldView>, lo: int, hi: int) -> bool {
    &&& forall|i: int| 0 <= i < fields.len() ==> (#[trigger] fields[i]).well_formed(lo, hi)
    &&& forall|i: int, j: int|
        0 <= i < j < fields.len() ==> (#[trigger] fields[i]).end <= (#[trigger] fields[j]).start
}

/// Fields that stand one behind the other make a well-formed chunk.
pub proof fn lemma_tiled_is_well_formed(fields: Seq<DecodedFieldView>, lo: int, hi: int)
    requires
        tiled(fields, lo, hi),
    ensures
        (DecodedChunkView { fields: fields }).well_formed(lo, hi),
{
}

/// A field behind fields that stand one behind the other stands behind
/// them.
pub proof fn lemma_tiled_push(
    fields: Seq<DecodedFieldView>,
    field: DecodedFieldView,
    lo: int,
    mid: int,
    hi: int,
)
    requires
        tiled(fields, lo, mid),
        lo <= mid <= hi,
        field.well_formed(mid, hi),
    ensures
        tiled(fields.push(field), lo, hi),
{
    let all = fields.push(field);
    assert forall|i: int| 0 <= i < all.len() implies (#[trigger] all[i]).well_formed(lo, hi) by {
        if i < fields.len() {
        }
    }
    assert forall|i: int, j: int| 0 <= i < j < all.len() implies (#[trigger] all[i]).end <= (
    #[trigger] all[j]).start by {
        if j < fields.len() {
        } else {
        }
    }
}

/// Adds a field behind the fields of a vector.
pub fn push_field(fields: &mut Vec<DecodedField>, field: DecodedField)
    ensures
        views_of(*final(fields)) == views_of(*old(fields)).push(field@),
{
    fields.push(field);
}

} // verus!
