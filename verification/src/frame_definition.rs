//! The frame definition: the schema of Z-Wave headers.
//!
//! Every value is held as the text that the descriptor gives.

use vstd::prelude::*;

verus! {

/// The frame definition: radio frequencies, base headers, headers, define-sets and header filters.
#[derive(Debug, Clone, Default)]
pub struct FrameDefinition {
    pub text: Option<String>,
    pub radio_frequency: Vec<RadioFrequency>,
    pub base_header: Vec<BaseHeader>,
    pub header: Vec<Header>,
    pub define_set: Vec<DefineSet>,
    pub header_filter: Vec<HeaderFilter>,
}

/// A radio frequency and the base header that frames on it start with.
#[derive(Debug, Clone, Default)]
pub struct RadioFrequency {
    pub name: String,
    pub code: String,
    pub base_header: String,
    pub text: String,
}

/// A base header: the parameters that every frame of a kind starts with.
#[derive(Debug, Clone, Default)]
pub struct BaseHeader {
    pub key: String,
    pub name: String,
    pub base_header_text: String,
    pub text: Option<String>,
    pub param: Vec<FrameDefinitionBaseHeaderParam>,
    pub home_id: HomeId,
    pub source: Source,
    pub header_type: HeaderType,
    pub is_ltx: IsLtx,
    pub sequence_number: SequenceNumber,
    pub destination: Option<BaseHeaderDestination>,
}

/// A parameter of a base header, as many bits wide as `bits` says.
#[derive(Debug, Clone, Default)]
pub struct FrameDefinitionBaseHeaderParam {
    pub order: String,
    pub name: String,
    pub param_text: String,
    pub param_type: String,
    pub bits: String,
    pub text: Option<String>,
    pub param: Option<Vec<BaseHeaderParamParam>>,
}

/// A bit field within a parameter of a base header.
#[derive(Debug, Clone, Default)]
pub struct BaseHeaderParamParam {
    pub order: String,
    pub name: String,
    pub text: String,
    pub param_type: String,
    pub bits: String,
    pub defines: Option<String>,
}

/// Reference to the parameter that holds the home id.
#[derive(Debug, Clone, Default)]
pub struct HomeId {
    pub home_id_ref: String,
}

/// Reference to the parameter that holds the source node.
#[derive(Debug, Clone, Default)]
pub struct Source {
    pub source_ref: String,
}

/// Reference to the parameter that holds the header type.
#[derive(Debug, Clone, Default)]
pub struct HeaderType {
    pub header_type_ref: String,
}

/// Reference to the parameter that marks a low-power transmission.
#[derive(Debug, Clone, Default)]
pub struct IsLtx {
    pub is_ltx_ref: String,
}

/// Reference to the parameter that holds the sequence number.
#[derive(Debug, Clone, Default)]
pub struct SequenceNumber {
    pub sequence_number_ref: String,
}

/// Reference to the parameter that holds the destination node.
#[derive(Debug, Clone, Default)]
pub struct BaseHeaderDestination {
    pub destination_ref: String,
}

/// A header: the parameters that follow the base header in frames of one header type.
#[derive(Debug, Clone, Default)]
pub struct Header {
    pub key: String,
    pub name: String,
    pub header_text: String,
    pub base_header_key: Option<String>,
    pub is_ack: String,
    pub is_error: String,
    pub is_multicast: String,
    pub is_routed: String,
    pub text: Option<String>,
    pub repeaters: Option<Repeaters>,
    pub hops: Option<Hops>,
    pub destination: Option<HeaderDestination>,
    pub param: Vec<FrameDefinitionHeaderParam>,
    pub validation: Option<Vec<Validation>>,
}

/// Where the repeaters of a routed frame stand.
#[derive(Debug, Clone, Default)]
pub struct Repeaters {
    pub repeaters_ref: String,
    pub size_ref: String,
    pub is_bitmask: String,
    pub size_correction: String,
}

/// Reference to the parameter that holds the hop count.
#[derive(Debug, Clone, Default)]
pub struct Hops {
    pub hops_ref: String,
}

/// Where the destinations of a frame stand.
#[derive(Debug, Clone, Default)]
pub struct HeaderDestination {
    pub text: Option<String>,
    pub destinations: Option<Destinations>,
    pub destination: Option<Vec<DestinationDestination>>,
}

/// Where the destinations of a multicast frame stand.
#[derive(Debug, Clone, Default)]
pub struct Destinations {
    pub destinations_ref: String,
    pub size_ref: String,
    pub is_bitmask: String,
    pub size_correction: String,
}

/// Reference to a parameter that holds a destination node.
#[derive(Debug, Clone, Default)]
pub struct DestinationDestination {
    pub destination_ref: String,
}

/// A parameter of a header, as many bits wide as `bits` says.
#[derive(Debug, Clone, Default)]
pub struct FrameDefinitionHeaderParam {
    pub order: String,
    pub name: String,
    pub param_text: String,
    pub param_type: String,
    pub bits: String,
    pub opt_ref: Option<String>,
    pub size_ref: Option<String>,
    pub text: Option<String>,
    pub param: Option<Vec<HeaderParamParam>>,
}

/// A bit field within a parameter of a header.
#[derive(Debug, Clone, Default)]
pub struct HeaderParamParam {
    pub order: String,
    pub name: String,
    pub text: String,
    pub param_type: String,
    pub bits: String,
    pub defines: Option<String>,
}

/// A value that a parameter must have for a header to apply.
#[derive(Debug, Clone, Default)]
pub struct Validation {
    pub param_name: String,
    pub param_hex_value: String,
}

/// A named set of defines.
#[derive(Debug, Clone, Default)]
pub struct DefineSet {
    pub name: String,
    pub text: Option<String>,
    pub define: Vec<Define>,
}

/// A key of an enumeration and its name.
#[derive(Debug, Clone, Default)]
pub struct Define {
    pub key: String,
    pub name: String,
    pub text: String,
}

/// A filter over header codes.
#[derive(Debug, Clone, Default)]
pub struct HeaderFilter {
    pub order: String,
    pub header_filter_text: String,
    pub text: Option<String>,
    pub header_codes: HeaderCodes,
}

/// The header codes of a filter.
#[derive(Debug, Clone, Default)]
pub struct HeaderCodes {
    pub text: Option<String>,
    pub header_code: Vec<String>,
}

} // verus!
