//! Parser for the serial traffic of a Zniffer device: a state machine that
//! is fed one byte at a time and reconstructs command responses and data
//! frames.
//!
//! A command response is `0x23`, a command id, a length and that many
//! payload bytes. A data frame is `0x21`, a frame type, a 16-bit big-endian
//! timestamp, a byte with channel and speed, a native region code, an RSSI
//! byte, the two bytes `0x21 0x03`, a length and that many payload bytes.

use vstd::prelude::*;
use crate::types::Frame;
use crate::types::FrameView;
use crate::types::Region;

verus! {

/// First byte of a command response.
pub const SOF_COMMAND: u8 = 0x23;

/// First byte of a data frame.
pub const SOF_FRAME: u8 = 0x21;

/// First of the two bytes before the length of a data frame.
pub const START_OF_DATA_ONE: u8 = 0x21;

/// Second of the two bytes before the length of a data frame.
pub const START_OF_DATA_TWO: u8 = 0x03;

/// Mathematical value of an outcome.
pub enum ParserResultView {
    ValidCommand { id: u8, payload: Seq<u8> },
    ValidFrame { frame: FrameView },
    IncompleteFrame,
    InvalidFrame,
}

/// Outcome of feeding the parser.
#[derive(Debug, PartialEq)]
pub enum ParserResult {
    /// A command response is complete.
    ValidCommand { id: u8, payload: Vec<u8> },
    /// A data frame is complete.
    ValidFrame { frame: Frame },
    /// More bytes are needed.
    IncompleteFrame,
    /// The byte fits neither family at this point; the parser is idle again.
    InvalidFrame,
}

impl View for ParserResult {
    type V = ParserResultView;

    open spec fn view(&self) -> ParserResultView {
        match self {
            ParserResult::ValidCommand { id, payload } => ParserResultView::ValidCommand {
                id: *id,
                payload: payload@,
            },
            ParserResult::ValidFrame { frame } => ParserResultView::ValidFrame { frame: frame@ },
            ParserResult::IncompleteFrame => ParserResultView::IncompleteFrame,
            ParserResult::InvalidFrame => ParserResultView::InvalidFrame,
        }
    }
}

/// What the parser waits for.
#[derive(Debug, Clone, Copy, PartialEq, Eq, Structural)]
pub enum ParserState {
    AwaitStartOfFrame,
    AwaitCommandID,
    AwaitLength,
    AwaitPayload,
    AwaitType,
    AwaitTimestamp,
    AwaitChannelAndSpeed,
    AwaitRegion,
    AwaitRssi,
    AwaitStartofDataOne,
    AwaitStartofDataTwo,
}

/// Whether `id` is a command id that the device answers with.
pub open spec fn is_command_id(id: u8) -> bool {
    id == 1 || id == 2 || id == 3 || id == 4 || id == 5 || id == 14 || id == 19
}

/// Whether `frame_type` is a type of data frame.
pub open spec fn is_frame_type(frame_type: u8) -> bool {
    frame_type == 1 || frame_type == 2 || frame_type == 4 || frame_type == 5
}

/// Mathematical value of the parser.
pub struct ParserView {
    pub state: ParserState,
    /// Id of the command response under way.
    pub command_id: u8,
    /// Type of the data frame under way; 0 while a command response is.
    pub frame_type: u8,
    /// Whether the high byte of the timestamp has been taken.
    pub timestamp_state: bool,
    /// Payload bytes that are still to come.
    pub payload_count: u8,
    /// What has been taken of the frame or response under way.
    pub frame: FrameView,
}

impl ParserView {
    /// The idle parser: it waits for a start of frame and holds nothing.
    pub open spec fn idle() -> ParserView {
        ParserView {
            state: ParserState::AwaitStartOfFrame,
            command_id: 0,
            frame_type: 0,
            timestamp_state: false,
            payload_count: 0,
            frame: FrameView::empty(),
        }
    }

    /// What the parser hands out when the last payload byte is in: a frame
    /// while a data frame is under way, a command response otherwise.
    pub open spec fn emitted(self, payload: Seq<u8>) -> ParserResultView {
        if is_frame_type(self.frame_type) {
            ParserResultView::ValidFrame { frame: FrameView { payload: payload, ..self.frame } }
        } else {
            ParserResultView::ValidCommand { id: self.command_id, payload: payload }
        }
    }

    /// What holds of every parser that was made idle and then fed: the
    /// channel has three bits and the speed five; payload bytes are held
    /// only while more are awaited, and then at most 255 are held and
    /// awaited together.
    pub open spec fn well_formed(self) -> bool {
        &&& self.frame.channel <= 7
        &&& self.frame.speed <= 31
        &&& self.state == ParserState::AwaitPayload ==> self.payload_count >= 1
            && self.frame.payload.len() + self.payload_count <= 255
        &&& self.state != ParserState::AwaitPayload ==> self.frame.payload.len() == 0
    }
}

/// One step of the state machine: the parser after the byte `value`, and
/// the outcome of the byte.
pub open spec fn step(p: ParserView, value: u8) -> (ParserView, ParserResultView) {
    match p.state {
        ParserState::AwaitStartOfFrame => {
            if value == SOF_COMMAND {
                (
                    ParserView { state: ParserState::AwaitCommandID, ..p },
                    ParserResultView::IncompleteFrame,
                )
            } else if value == SOF_FRAME {
                (ParserView { state: ParserState::AwaitType, ..p }, ParserResultView::IncompleteFrame)
            } else {
                (p, ParserResultView::IncompleteFrame)
            }
        },
        ParserState::AwaitCommandID => {
            if is_command_id(value) {
                (
                    ParserView { state: ParserState::AwaitLength, command_id: value, ..p },
                    ParserResultView::IncompleteFrame,
                )
            } else {
                (ParserView::idle(), ParserResultView::InvalidFrame)
            }
        },
        ParserState::AwaitType => {
            if is_frame_type(value) {
                (
                    ParserView { state: ParserState::AwaitTimestamp, frame_type: value, ..p },
                    ParserResultView::IncompleteFrame,
                )
            } else {
                (ParserView::idle(), ParserResultView::InvalidFrame)
            }
        },
        ParserState::AwaitTimestamp => {
            if !p.timestamp_state {
                (
                    ParserView {
                        timestamp_state: true,
                        frame: FrameView { timestamp: (value as u16) << 8, ..p.frame },
                        ..p
                    },
                    ParserResultView::IncompleteFrame,
                )
            } else {
                (
                    ParserView {
                        state: ParserState::AwaitChannelAndSpeed,
                        timestamp_state: false,
                        frame: FrameView { timestamp: p.frame.timestamp | (value as u16), ..p.frame },
                        ..p
                    },
                    ParserResultView::IncompleteFrame,
                )
            }
        },
        ParserState::AwaitChannelAndSpeed => (
            ParserView {
                state: ParserState::AwaitRegion,
                frame: FrameView { channel: value >> 5, speed: value & 0x1F, ..p.frame },
                ..p
            },
            ParserResultView::IncompleteFrame,
        ),
        ParserState::AwaitRegion => match Region::of_native(value) {
            Some(region) => (
                ParserView {
                    state: ParserState::AwaitRssi,
                    frame: FrameView { region: region, ..p.frame },
                    ..p
                },
                ParserResultView::IncompleteFrame,
            ),
            None => (ParserView::idle(), ParserResultView::InvalidFrame),
        },
        ParserState::AwaitRssi => (
            ParserView {
                state: ParserState::AwaitStartofDataOne,
                frame: FrameView { rssi: value, ..p.frame },
                ..p
            },
            ParserResultView::IncompleteFrame,
        ),
        ParserState::AwaitStartofDataOne => {
            if value == START_OF_DATA_ONE {
                (
                    ParserView { state: ParserState::AwaitStartofDataTwo, ..p },
                    ParserResultView::IncompleteFrame,
                )
            } else {
                (ParserView::idle(), ParserResultView::InvalidFrame)
            }
        },
        ParserState::AwaitStartofDataTwo => {
            if value == START_OF_DATA_TWO {
                (
                    ParserView { state: ParserState::AwaitLength, ..p },
                    ParserResultView::IncompleteFrame,
                )
            } else {
                (ParserView::idle(), ParserResultView::InvalidFrame)
            }
        },
        ParserState::AwaitLength => {
            if value == 0 {
                (ParserView::idle(), p.emitted(Seq::empty()))
            } else {
                (
                    ParserView { state: ParserState::AwaitPayload, payload_count: value, ..p },
                    ParserResultView::IncompleteFrame,
                )
            }
        },
        ParserState::AwaitPayload => {
            if p.payload_count <= 1 {
                (ParserView::idle(), p.emitted(p.frame.payload.push(value)))
            } else {
                (
                    ParserView {
                        payload_count: (p.payload_count - 1) as u8,
                        frame: FrameView { payload: p.frame.payload.push(value), ..p.frame },
                        ..p
                    },
                    ParserResultView::IncompleteFrame,
                )
            }
        },
    }
}

/// Feeding bytes until the first outcome other than `IncompleteFrame`: the
/// parser after the last byte that was fed, the outcome, and how many
/// bytes were fed. The bytes behind those are not looked at.
pub open spec fn feed_until_outcome(p: ParserView, input: Seq<u8>) -> (
    ParserView,
    ParserResultView,
    nat,
)
    decreases input.len(),
{
    if input.len() == 0 {
        (p, ParserResultView::IncompleteFrame, 0)
    } else {
        let (next, outcome) = step(p, input[0]);
        if outcome is IncompleteFrame {
            let rest = feed_until_outcome(next, input.skip(1));
            (rest.0, rest.1, rest.2 + 1)
        } else {
            (next, outcome, 1)
        }
    }
}

/// Feeding every byte of `input`, one at a time: the parser after the last
/// byte, and the outcomes other than `IncompleteFrame`, in order.
pub open spec fn feed_all(p: ParserView, input: Seq<u8>) -> (ParserView, Seq<ParserResultView>)
    decreases input.len(),
{
    if input.len() == 0 {
        (p, Seq::empty())
    } else {
        let (next, outcome) = step(p, input[0]);
        let rest = feed_all(next, input.skip(1));
        if outcome is IncompleteFrame {
            rest
        } else {
            (rest.0, seq![outcome] + rest.1)
        }
    }
}

/// Feeding chunk after chunk, every byte of each: the parser after the last
/// chunk, and the outcomes other than `IncompleteFrame`, in order.
pub open spec fn feed_chunks(p: ParserView, chunks: Seq<Seq<u8>>) -> (
    ParserView,
    Seq<ParserResultView>,
)
    decreases chunks.len(),
{
    if chunks.len() == 0 {
        (p, Seq::empty())
    } else {
        let first = feed_all(p, chunks[0]);
        let rest = feed_chunks(first.0, chunks.skip(1));
        (rest.0, first.1 + rest.1)
    }
}

/// Feeding `head` and then `tail` gives the outcomes, and leaves the
/// parser, that feeding `head` followed by `tail` does.
pub proof fn lemma_feed_in_two_chunks(p: ParserView, head: Seq<u8>, tail: Seq<u8>)
    ensures
        feed_all(p, head + tail).0 == feed_all(feed_all(p, head).0, tail).0,
        feed_all(p, head + tail).1 == feed_all(p, head).1 + feed_all(feed_all(p, head).0, tail).1,
    decreases head.len(),
{
    if head.len() == 0 {
    } else {
        let (next, outcome) = step(p, head[0]);
        assert((head + tail).skip(1) =~= head.skip(1) + tail);
        lemma_feed_in_two_chunks(next, head.skip(1), tail);
        let a = feed_all(next, head.skip(1));
        let b = feed_all(a.0, tail);
    }
}

/// Byte-boundary invariance: however a byte stream is cut into chunks,
/// feeding the chunks in order gives the outcomes, and leaves the parser,
/// that feeding the stream one byte at a time does.
pub proof fn lemma_chunking_invariance(p: ParserView, chunks: Seq<Seq<u8>>)
    ensures
        feed_chunks(p, chunks) == feed_all(p, chunks.flatten()),
    decreases chunks.len(),
{
    if chunks.len() == 0 {
    } else {
        let first = feed_all(p, chunks[0]);
        lemma_chunking_invariance(first.0, chunks.skip(1));
        lemma_feed_in_two_chunks(p, chunks[0], chunks.skip(1).flatten());
    }
}

/// Feeding until the first outcome and then feeding the bytes that were
/// left gives what feeding every byte does: the caller of `parse_bytes`
/// who feeds the rest again loses no outcome.
pub proof fn lemma_feed_rest_again(p: ParserView, input: Seq<u8>)
    ensures
        feed_until_outcome(p, input).2 <= input.len(),
        feed_until_outcome(p, input).1 is IncompleteFrame ==> feed_all(p, input) == (
            feed_until_outcome(p, input).0,
            Seq::<ParserResultView>::empty(),
        ),
        !(feed_until_outcome(p, input).1 is IncompleteFrame) ==> feed_all(p, input) == ({
            let first = feed_until_outcome(p, input);
            let rest = feed_all(first.0, input.skip(first.2 as int));
            (rest.0, seq![first.1] + rest.1)
        }),
    decreases input.len(),
{
    if input.len() == 0 {
    } else {
        let (next, outcome) = step(p, input[0]);
        if outcome is IncompleteFrame {
            lemma_feed_rest_again(next, input.skip(1));
            let first = feed_until_outcome(next, input.skip(1));
            assert(input.skip(1).skip(first.2 as int) =~= input.skip(first.2 as int + 1));
        }
    }
}

/// A step keeps a well-formed parser well formed, and a frame that it hands
/// out has a channel of at most 7 and a payload of at most 255 bytes.
pub proof fn lemma_step_well_formed(p: ParserView, value: u8)
    requires
        p.well_formed(),
    ensures
        step(p, value).0.well_formed(),
        step(p, value).1 is ValidFrame ==> step(p, value).1->frame.well_formed(),
        step(p, value).1 is ValidCommand ==> step(p, value).1->ValidCommand_payload.len() <= 255,
{
    assert(value >> 5 <= 7) by (bit_vector);
    assert(value & 0x1F <= 31) by (bit_vector);
}

/// The state machine.
pub struct Parser {
    state: ParserState,
    command_id: u8,
    frame_type: u8,
    timestamp_state: bool,
    payload_count: u8,
    region: Region,
    channel: u8,
    speed: u8,
    timestamp: u16,
    rssi: u8,
    payload: Vec<u8>,
}

impl View for Parser {
    type V = ParserView;

    closed spec fn view(&self) -> ParserView {
        ParserView {
            state: self.state,
            command_id: self.command_id,
            frame_type: self.frame_type,
            timestamp_state: self.timestamp_state,
            payload_count: self.payload_count,
            frame: FrameView {
                region: self.region,
                channel: self.channel,
                speed: self.speed,
                timestamp: self.timestamp,
                rssi: self.rssi,
                payload: self.payload@,
            },
        }
    }
}

impl Parser {
    #[verifier::type_invariant]
    spec fn inv(self) -> bool {
        self@.well_formed()
    }

    /// An idle parser.
    pub fn new() -> (parser: Parser)
        ensures
            parser@ == ParserView::idle(),
    {
        Parser {
            state: ParserState::AwaitStartOfFrame,
            command_id: 0,
            frame_type: 0,
            timestamp_state: false,
            payload_count: 0,
            region: Region::EU,
            channel: 0,
            speed: 0,
            timestamp: 0,
            rssi: 0,
            payload: Vec::new(),
        }
    }

    /// What the parser waits for.
    pub fn state(&self) -> (state: ParserState)
        ensures
            state == self@.state,
    {
        self.state
    }

    /// Makes the parser idle and drops what it held.
    pub fn reset(&mut self)
        ensures
            final(self)@ == ParserView::idle(),
    {
        *self = Parser::new();
    }

    /// Drops a frame or response that is under way: the parser is idle again.
    pub fn timeout(&mut self)
        ensures
            final(self)@ == ParserView::idle(),
    {
        self.reset();
    }

    fn emit(&mut self, payload: Vec<u8>) -> (result: ParserResult)
        ensures
            result@ == old(self)@.emitted(payload@),
            final(self)@ == ParserView::idle(),
    {
        let result = if self.frame_type == 1 || self.frame_type == 2 || self.frame_type == 4
            || self.frame_type == 5 {
            ParserResult::ValidFrame {
                frame: Frame {
                    region: self.region,
                    channel: self.channel,
                    speed: self.speed,
                    timestamp: self.timestamp,
                    rssi: self.rssi,
                    payload,
                },
            }
        } else {
            ParserResult::ValidCommand { id: self.command_id, payload }
        };
        self.reset();
        result
    }

    /// Feeds one byte.
    pub fn parse(&mut self, value: u8) -> (result: ParserResult)
        ensures
            (final(self)@, result@) == step(old(self)@, value),
            old(self)@.well_formed(),
            final(self)@.well_formed(),
            result is ValidFrame ==> result->frame@.well_formed(),
    {
        proof {
            use_type_invariant(&*self);
            lemma_step_well_formed(self@, value);
        }
        match self.state {
            ParserState::AwaitStartOfFrame => {
                if value == SOF_COMMAND {
                    self.state = ParserState::AwaitCommandID;
                } else if value == SOF_FRAME {
                    self.state = ParserState::AwaitType;
                }
            },
            ParserState::AwaitCommandID => {
                if value == 1 || value == 2 || value == 3 || value == 4 || value == 5 || value == 14
                    || value == 19 {
                    self.command_id = value;
                    self.state = ParserState::AwaitLength;
                } else {
                    self.reset();
                    return ParserResult::InvalidFrame;
                }
            },
            ParserState::AwaitType => {
                if value == 1 || value == 2 || value == 4 || value == 5 {
                    self.frame_type = value;
                    self.state = ParserState::AwaitTimestamp;
                } else {
                    self.reset();
                    return ParserResult::InvalidFrame;
                }
            },
            ParserState::AwaitTimestamp => {
                if !self.timestamp_state {
                    self.timestamp = (value as u16) << 8;
                    self.timestamp_state = true;
                } else {
                    self.timestamp = self.timestamp | (value as u16);
                    self.timestamp_state = false;
                    self.state = ParserState::AwaitChannelAndSpeed;
                }
            },
            ParserState::AwaitChannelAndSpeed => {
                assert(value >> 5 <= 7) by (bit_vector);
                assert(value & 0x1F <= 31) by (bit_vector);
                self.channel = value >> 5;
                self.speed = value & 0x1F;
                self.state = ParserState::AwaitRegion;
            },
            ParserState::AwaitRegion => {
                match Region::from_native(value) {
                    Some(region) => {
                        self.region = region;
                        self.state = ParserState::AwaitRssi;
                    },
                    None => {
                        self.reset();
                        return ParserResult::InvalidFrame;
                    },
                }
            },
            ParserState::AwaitRssi => {
                self.rssi = value;
                self.state = ParserState::AwaitStartofDataOne;
            },
            ParserState::AwaitStartofDataOne => {
                if value == START_OF_DATA_ONE {
                    self.state = ParserState::AwaitStartofDataTwo;
                } else {
                    self.reset();
                    return ParserResult::InvalidFrame;
                }
            },
            ParserState::AwaitStartofDataTwo => {
                if value == START_OF_DATA_TWO {
                    self.state = ParserState::AwaitLength;
                } else {
                    self.reset();
                    return ParserResult::InvalidFrame;
                }
            },
            ParserState::AwaitLength => {
                if value == 0 {
                    return self.emit(Vec::new());
                } else {
                    self.payload_count = value;
                    self.state = ParserState::AwaitPayload;
                }
            },
            ParserState::AwaitPayload => {
                let mut payload: Vec<u8> = Vec::new();
                core::mem::swap(&mut self.payload, &mut payload);
                payload.push(value);
                if self.payload_count <= 1 {
                    return self.emit(payload);
                } else {
                    self.payload_count = self.payload_count - 1;
                    core::mem::swap(&mut self.payload, &mut payload);
                }
            },
        }
        ParserResult::IncompleteFrame
    }

    /// Feeds the bytes of `input` up to the first outcome other than
    /// `IncompleteFrame` and returns that outcome; the bytes behind it are
    /// not fed. `IncompleteFrame` when every byte was fed without another
    /// outcome.
    pub fn parse_bytes(&mut self, input: Vec<u8>) -> (result: ParserResult)
        ensures
            final(self)@ == feed_until_outcome(old(self)@, input@).0,
            result@ == feed_until_outcome(old(self)@, input@).1,
    {
        let mut i: usize = 0;
        assert(input@.skip(0) =~= input@);
        while i < input.len()
            invariant
                i <= input@.len(),
                feed_until_outcome(old(self)@, input@).0 == feed_until_outcome(
                    self@,
                    input@.skip(i as int),
                ).0,
                feed_until_outcome(old(self)@, input@).1 == feed_until_outcome(
                    self@,
                    input@.skip(i as int),
                ).1,
            decreases input@.len() - i,
        {
            assert(input@.skip(i as int).skip(1) =~= input@.skip(i + 1));
            let result = self.parse(input[i]);
            match result {
                ParserResult::IncompleteFrame => {},
                _ => {
                    return result;
                },
            }
            i += 1;
        }
        ParserResult::IncompleteFrame
    }
}

/// Views of a sequence of outcomes.
pub open spec fn outcome_views(outcomes: Seq<ParserResult>) -> Seq<ParserResultView> {
    outcomes.map_values(|o: ParserResult| o@)
}

/// The frames among outcomes, in order.
pub open spec fn frames_among(outcomes: Seq<ParserResultView>) -> Seq<FrameView>
    decreases outcomes.len(),
{
    if outcomes.len() == 0 {
        Seq::empty()
    } else {
        match outcomes.last() {
            ParserResultView::ValidFrame { frame } => frames_among(outcomes.drop_last()).push(frame),
            _ => frames_among(outcomes.drop_last()),
        }
    }
}

/// Feeding one byte more: the parser takes one step more, and the
/// outcome of the step, unless it is `IncompleteFrame`, comes behind the
/// outcomes so far.
pub proof fn lemma_feed_one_more(p: ParserView, input: Seq<u8>, i: int)
    requires
        0 <= i < input.len(),
    ensures
        feed_all(p, input.take(i + 1)).0 == step(feed_all(p, input.take(i)).0, input[i]).0,
        feed_all(p, input.take(i + 1)).1 == (if step(feed_all(p, input.take(i)).0, input[i]).1
            is IncompleteFrame {
            feed_all(p, input.take(i)).1
        } else {
            feed_all(p, input.take(i)).1.push(step(feed_all(p, input.take(i)).0, input[i]).1)
        }),
{
    let one = seq![input[i]];
    let so_far = feed_all(p, input.take(i));
    assert(input.take(i + 1) =~= input.take(i) + one);
    lemma_feed_in_two_chunks(p, input.take(i), one);
    let next = step(so_far.0, one[0]).0;
    assert(feed_all(next, one.skip(1)).1 =~= Seq::<ParserResultView>::empty());
}

impl Parser {
    /// Feeds every byte of `input`, one at a time, and hands out the
    /// outcomes other than `IncompleteFrame`, in order.
    pub fn parse_all(&mut self, input: &[u8]) -> (outcomes: Vec<ParserResult>)
        ensures
            final(self)@ == feed_all(old(self)@, input@).0,
            outcome_views(outcomes@) == feed_all(old(self)@, input@).1,
            forall|i: int|
                0 <= i < outcomes@.len() ==> ((#[trigger] outcomes@[i]) matches ParserResult::ValidFrame {
                    frame,
                } ==> frame@.well_formed()),
    {
        let mut outcomes: Vec<ParserResult> = Vec::new();
        let mut i: usize = 0;
        while i < input.len()
            invariant
                i <= input@.len(),
                self@ == feed_all(old(self)@, input@.take(i as int)).0,
                outcome_views(outcomes@) == feed_all(old(self)@, input@.take(i as int)).1,
                forall|j: int|
                    0 <= j < outcomes@.len() ==> ((#[trigger] outcomes@[j]) matches ParserResult::ValidFrame {
                        frame,
                    } ==> frame@.well_formed()),
            decreases input@.len() - i,
        {
            proof {
                lemma_feed_one_more(old(self)@, input@, i as int);
            }
            let outcome = self.parse(input[i]);
            match outcome {
                ParserResult::IncompleteFrame => {},
                _ => {
                    outcomes.push(outcome);
                },
            }
            i += 1;
        }
        assert(input@.take(input@.len() as int) =~= input@);
        outcomes
    }

    /// Feeds every byte of `input`, one at a time, and hands out the
    /// frames that became complete, in order.
    pub fn parse_frames(&mut self, input: &[u8]) -> (frames: Vec<Frame>)
        ensures
            final(self)@ == feed_all(old(self)@, input@).0,
            frames@.map_values(|f: Frame| f@) == frames_among(feed_all(old(self)@, input@).1),
            forall|i: int| 0 <= i < frames@.len() ==> (#[trigger] frames@[i])@.well_formed(),
    {
        let mut frames: Vec<Frame> = Vec::new();
        let mut i: usize = 0;
        while i < input.len()
            invariant
                i <= input@.len(),
                self@ == feed_all(old(self)@, input@.take(i as int)).0,
                frames@.map_values(|f: Frame| f@) == frames_among(
                    feed_all(old(self)@, input@.take(i as int)).1,
                ),
                forall|j: int| 0 <= j < frames@.len() ==> (#[trigger] frames@[j])@.well_formed(),
            decreases input@.len() - i,
        {
            let ghost outcomes = feed_all(old(self)@, input@.take(i as int)).1;
            proof {
                lemma_feed_one_more(old(self)@, input@, i as int);
            }
            let outcome = self.parse(input[i]);
            proof {
                if !(outcome is IncompleteFrame) {
                    assert(outcomes.push(outcome@).drop_last() =~= outcomes);
                }
            }
            match outcome {
                ParserResult::ValidFrame { frame } => {
                    frames.push(frame);
                },
                _ => {},
            }
            i += 1;
        }
        assert(input@.take(input@.len() as int) =~= input@);
        frames
    }
}

/// Command id of the request for the version of the device.
pub const COMMAND_GET_VERSION: u8 = 0x01;

/// Command id of the request that sets the region.
pub const COMMAND_SET_REGION: u8 = 0x02;

/// Command id of the request that starts the capture.
pub const COMMAND_START: u8 = 0x04;

/// Command id of the request that stops the capture.
pub const COMMAND_STOP: u8 = 0x05;

/// The bytes of a command request: `0x23`, the command id, the length of
/// the payload and the payload.
pub open spec fn command_request_of(id: u8, payload: Seq<u8>) -> Seq<u8> {
    seq![SOF_COMMAND, id, payload.len() as u8] + payload
}

/// The request for the version of the device.
pub fn get_version_request() -> (request: Vec<u8>)
    ensures
        request@ == command_request_of(COMMAND_GET_VERSION, Seq::empty()),
{
    let request = vec![SOF_COMMAND, COMMAND_GET_VERSION, 0];
    request
}

/// The request that sets the region of the device: its payload is the
/// native code of the region.
pub fn set_region_request(region: Region) -> (request: Vec<u8>)
    ensures
        request@ == command_request_of(COMMAND_SET_REGION, seq![region.native_code()]),
{
    let request = vec![SOF_COMMAND, COMMAND_SET_REGION, 1, region.to_native()];
    request
}

/// The request that starts the capture.
pub fn start_request() -> (request: Vec<u8>)
    ensures
        request@ == command_request_of(COMMAND_START, Seq::empty()),
{
    let request = vec![SOF_COMMAND, COMMAND_START, 0];
    request
}

/// The request that stops the capture.
pub fn stop_request() -> (request: Vec<u8>)
    ensures
        request@ == command_request_of(COMMAND_STOP, Seq::empty()),
{
    let request = vec![SOF_COMMAND, COMMAND_STOP, 0];
    request
}

/// What an idle parser makes of the payload of a command under way:
/// nothing before the last byte, the command with its whole payload at
/// the last byte.
proof fn lemma_payload_is_taken(p: ParserView, rest: Seq<u8>)
    requires
        p.state == ParserState::AwaitPayload,
        !is_frame_type(p.frame_type),
        p.payload_count == rest.len(),
        rest.len() >= 1,
    ensures
        feed_all(p, rest) == (
            ParserView::idle(),
            seq![
                ParserResultView::ValidCommand {
                    id: p.command_id,
                    payload: p.frame.payload + rest,
                },
            ],
        ),
    decreases rest.len(),
{
    let (next, outcome) = step(p, rest[0]);
    if rest.len() == 1 {
        assert(p.frame.payload.push(rest[0]) =~= p.frame.payload + rest);
        assert(feed_all(next, rest.skip(1)).1 =~= Seq::<ParserResultView>::empty());
    } else {
        lemma_payload_is_taken(next, rest.skip(1));
        assert(p.frame.payload.push(rest[0]) + rest.skip(1) =~= p.frame.payload + rest);
    }
}

/// Responses reuse the framing of requests: an idle parser that is fed the
/// bytes of a command request hands out that command with that payload,
/// and is idle again.
pub proof fn lemma_request_parses(id: u8, payload: Seq<u8>)
    requires
        is_command_id(id),
        payload.len() <= 255,
    ensures
        feed_all(ParserView::idle(), command_request_of(id, payload)) == (
            ParserView::idle(),
            seq![ParserResultView::ValidCommand { id: id, payload: payload }],
        ),
{
    let head = seq![SOF_COMMAND, id, payload.len() as u8];
    let idle = ParserView::idle();
    let (parser1, outcome1) = step(idle, head[0]);
    let (parser2, outcome2) = step(parser1, head[1]);
    let (parser3, outcome3) = step(parser2, head[2]);
    assert(feed_all(parser3, head.skip(1).skip(1).skip(1)) == (
        parser3,
        Seq::<ParserResultView>::empty(),
    ));
    assert(feed_all(parser2, head.skip(1).skip(1)).0 == parser3);
    assert(feed_all(parser1, head.skip(1)).0 == parser3);
    lemma_feed_in_two_chunks(idle, head, payload);
    if payload.len() == 0 {
        assert(payload =~= Seq::<u8>::empty());
    } else {
        lemma_payload_is_taken(parser3, payload);
    }
}

} // verus!
