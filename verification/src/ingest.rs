//! Ingestion of capture records: the payload of a Zniffer record is fed
//! to the Zniffer parser, the payload of a PTI record to the PTI parser.

use vstd::prelude::*;
use crate::pti_parser::frame_views;
use crate::pti_parser::pti_frame_sound;
use crate::pti_parser::scan;
use crate::pti_parser::PtiParser;
use crate::types::Frame;
use crate::types::FrameView;
use crate::zlf::ApiType;
use crate::zlf::RawFrame;
use crate::zlf::RawFrameView;
use crate::zniffer_parser::feed_all;
use crate::zniffer_parser::frames_among;
use crate::zniffer_parser::Parser;
use crate::zniffer_parser::ParserView;

verus! {

/// Mathematical value of the two parsers of an ingestion.
pub struct IngestView {
    /// The Zniffer parser.
    pub zniffer: ParserView,
    /// The bytes that the PTI parser has buffered.
    pub pti: Seq<u8>,
}

/// The two parsers that the records of a capture file are fed to.
pub struct Ingest {
    zniffer: Parser,
    pti: PtiParser,
}

impl View for Ingest {
    type V = IngestView;

    closed spec fn view(&self) -> IngestView {
        IngestView { zniffer: self.zniffer@, pti: self.pti@ }
    }
}

/// What a record does to an ingestion, and the frames that it completes:
/// a Zniffer record feeds its payload to the Zniffer parser, a PTI record
/// to the PTI parser; a record of another API does nothing.
pub open spec fn ingested(at: IngestView, record: RawFrameView) -> (IngestView, Seq<FrameView>) {
    match record.api_type {
        ApiType::Zniffer => (
            IngestView { zniffer: feed_all(at.zniffer, record.payload).0, ..at },
            frames_among(feed_all(at.zniffer, record.payload).1),
        ),
        ApiType::Pti => (
            IngestView { pti: scan(at.pti + record.payload).1, ..at },
            scan(at.pti + record.payload).0,
        ),
        ApiType::Unknown(_) => (at, Seq::empty()),
    }
}

impl Ingest {
    /// An ingestion with an idle Zniffer parser and an empty PTI buffer.
    pub fn new() -> (ingest: Ingest)
        ensures
            ingest@ == (IngestView { zniffer: ParserView::idle(), pti: Seq::empty() }),
    {
        Ingest { zniffer: Parser::new(), pti: PtiParser::new() }
    }

    /// Feeds the payload of a record to the parser of its API and hands
    /// out the frames that became complete, in order. Every frame has a
    /// channel of at most 63 and a payload of at most 255 bytes.
    pub fn ingest(&mut self, record: &RawFrame) -> (frames: Vec<Frame>)
        ensures
            final(self)@ == ingested(old(self)@, record@).0,
            frame_views(frames@) == ingested(old(self)@, record@).1,
            forall|i: int| 0 <= i < frames@.len() ==> (#[trigger] frames@[i])@.well_formed(),
            record.api_type == ApiType::Pti ==> forall|i: int|
                0 <= i < frames@.len() ==> pti_frame_sound(#[trigger] frames@[i]@),
    {
        match record.api_type {
            ApiType::Zniffer => self.zniffer.parse_frames(record.payload.as_slice()),
            ApiType::Pti => self.pti.parse(record.payload.as_slice()),
            ApiType::Unknown(_) => {
                let frames: Vec<Frame> = Vec::new();
                frames
            },
        }
    }
}

} // verus!
