//! Z-Wave sniffer library: frame reconstruction from Zniffer serial traffic and
//! from PTI traffic in Debug Channel envelopes, capture-file records, schema
//! driven frame decoding, and re-emission of frames in PTI framing.
//!
//! The contracts of the functions are stated over the mathematical views of
//! their arguments and proved against their bodies. Calls into other crates,
//! and into parts of the standard library that have no specification, stand
//! behind small wrappers in `text` and `zlf`; the contracts of those wrappers
//! are stated and not proved.

use vstd::prelude::*;

pub use types::Frame;
pub use types::Region;

pub mod decoders;
pub mod frame;
pub mod frame_definition;
pub mod generator;
pub mod ingest;
pub mod pti_parser;
pub mod proxy;
pub mod pti_writer;
pub mod render;
pub mod storage;
pub mod text;
pub mod types;
pub mod viewer;
pub mod xml;
pub mod xml_output;
pub mod zlf;
pub mod zniffer_parser;
pub mod zniffer_writer;
pub mod zw_headers;
pub mod zw_parser;
pub mod zwave_frame_decoder;

verus! {

/// Sum of two counters.
pub fn add(left: u64, right: u64) -> (sum: u64)
    requires
        left + right <= u64::MAX,
    ensures
        sum == left + right,
{
    left + right
}

} // verus!
