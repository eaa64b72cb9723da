//! Replay of a capture file: which records are sent on, and at what pace.

use vstd::prelude::*;
use crate::zlf::ApiType;
use crate::zlf::ZlfRecord;

verus! {

/// Mathematical value of what the generator does with a record.
pub enum GeneratorActionView {
    Send { payload: Seq<u8>, delay_ms: u16 },
    Skip,
}

/// What the generator does with a record.
#[derive(Debug, Clone)]
pub enum GeneratorAction {
    /// Send the payload to the consumer, then wait.
    Send { payload: Vec<u8>, delay_ms: u16 },
    /// Send nothing and do not wait.
    Skip,
}

impl View for GeneratorAction {
    type V = GeneratorActionView;

    open spec fn view(&self) -> GeneratorActionView {
        match self {
            GeneratorAction::Send { payload, delay_ms } => GeneratorActionView::Send {
                payload: payload@,
                delay_ms: *delay_ms,
            },
            GeneratorAction::Skip => GeneratorActionView::Skip,
        }
    }
}

/// Replays the PTI records of a capture file to one consumer.
#[derive(Debug, Clone)]
pub struct FrameGenerator {
    file: String,
    delay: u16,
}

impl FrameGenerator {
    /// Path of the capture file.
    pub closed spec fn file_view(&self) -> Seq<char> {
        self.file@
    }

    /// Milliseconds to wait after each record that is sent.
    pub closed spec fn delay_view(&self) -> u16 {
        self.delay
    }

    /// What the generator does with a record: the payload of a PTI record
    /// is sent, with the delay of the generator; any other record is
    /// skipped.
    pub open spec fn action_of(&self, record: ZlfRecord) -> GeneratorActionView {
        match record {
            ZlfRecord::Other(raw) => if raw.api_type == ApiType::Pti {
                GeneratorActionView::Send { payload: raw.payload@, delay_ms: self.delay_view() }
            } else {
                GeneratorActionView::Skip
            },
            ZlfRecord::Data(_) => GeneratorActionView::Skip,
        }
    }

    /// A generator over the capture file at `file` that waits `delay`
    /// milliseconds after each record.
    pub fn new(file: String, delay: u16) -> (generator: FrameGenerator)
        ensures
            generator.file_view() == file@,
            generator.delay_view() == delay,
    {
        FrameGenerator { file, delay }
    }

    /// Path of the capture file.
    pub fn file(&self) -> (file: &String)
        ensures
            file@ == self.file_view(),
    {
        &self.file
    }

    /// Milliseconds to wait after each record that is sent.
    pub fn delay(&self) -> (delay: u16)
        ensures
            delay == self.delay_view(),
    {
        self.delay
    }

    /// What to do with a record.
    pub fn action_for(&self, record: ZlfRecord) -> (action: GeneratorAction)
        ensures
            action@ == self.action_of(record),
    {
        match record {
            ZlfRecord::Other(raw) => {
                if raw.api_type == ApiType::Pti {
                    GeneratorAction::Send { payload: raw.payload, delay_ms: self.delay }
                } else {
                    GeneratorAction::Skip
                }
            },
            ZlfRecord::Data(_) => GeneratorAction::Skip,
        }
    }
}

} // verus!
