//! Reader for capture files in the Z-Wave Log Format.
//!
//! A capture file is a preamble of 2048 bytes followed by records. The
//! preamble starts with the format version as a 32-bit little-endian
//! number and ends with the CRC-16/AUG-CCITT of its first 2046 bytes as a
//! 16-bit little-endian number. A record is a 64-bit little-endian
//! timestamp, a properties byte, the 32-bit little-endian length of the
//! payload, the payload and a byte that names the API the payload is from.

use vstd::prelude::*;
use vstd::slice::slice_subrange;
use vstd::slice::slice_to_vec;
use vstd::std_specs::convert::FromSpecImpl;
use vstd::std_specs::convert::TryFromSpecImpl;

verus! {

/// Format version that a capture file must name.
pub const ZLF_VERSION: u32 = 104;

/// Size of the preamble.
pub const ZLF_HEADER_SIZE: usize = 2048;

/// Bytes of the preamble that its checksum covers.
pub const ZLF_CHECKSUM_OFFSET: usize = 2046;

/// Bytes of a record before its payload: timestamp, properties and length.
pub const RECORD_PREFIX_SIZE: usize = 13;

/// API byte of a PTI record.
pub const API_TYPE_PTI: u8 = 0xF5;

/// API byte of a Zniffer record.
pub const API_TYPE_ZNIFFER: u8 = 0xFE;

/// The API that the payload of a record is from.
#[derive(Debug, Clone, Copy, PartialEq, Eq, Structural)]
pub enum ApiType {
    Pti,
    Zniffer,
    Unknown(u8),
}

impl ApiType {
    /// The API that a byte names.
    pub open spec fn of_byte(value: u8) -> ApiType {
        if value == API_TYPE_PTI {
            ApiType::Pti
        } else if value == API_TYPE_ZNIFFER {
            ApiType::Zniffer
        } else {
            ApiType::Unknown(value)
        }
    }
}

impl From<u8> for ApiType {
    fn from(value: u8) -> (api_type: ApiType) {
        if value == API_TYPE_PTI {
            ApiType::Pti
        } else if value == API_TYPE_ZNIFFER {
            ApiType::Zniffer
        } else {
            ApiType::Unknown(value)
        }
    }
}

impl FromSpecImpl<u8> for ApiType {
    open spec fn obeys_from_spec() -> bool {
        true
    }

    open spec fn from_spec(value: u8) -> ApiType {
        ApiType::of_byte(value)
    }
}

/// Kind of a frame in the serial traffic of a Zniffer device.
#[derive(Debug, Clone, Copy, PartialEq, Eq, Structural)]
pub enum FrameType {
    Command,
    Data,
    Beam,
    BeamStart,
    BeamStop,
}

/// A byte that names no kind of frame.
#[derive(Debug, Clone, Copy, PartialEq, Eq, Structural)]
pub struct UnknownFrameType;

impl FrameType {
    /// The kind of frame that a byte names, if any.
    pub open spec fn of_byte(value: u8) -> Option<FrameType> {
        if value == 0 {
            Some(FrameType::Command)
        } else if value == 1 {
            Some(FrameType::Data)
        } else if value == 2 {
            Some(FrameType::Beam)
        } else if value == 4 {
            Some(FrameType::BeamStart)
        } else if value == 5 {
            Some(FrameType::BeamStop)
        } else {
            None
        }
    }
}

impl TryFrom<u8> for FrameType {
    type Error = UnknownFrameType;

    fn try_from(value: u8) -> (frame_type: Result<FrameType, UnknownFrameType>) {
        match value {
            0 => Ok(FrameType::Command),
            1 => Ok(FrameType::Data),
            2 => Ok(FrameType::Beam),
            4 => Ok(FrameType::BeamStart),
            5 => Ok(FrameType::BeamStop),
            _ => Err(UnknownFrameType),
        }
    }
}

impl TryFromSpecImpl<u8> for FrameType {
    open spec fn obeys_try_from_spec() -> bool {
        true
    }

    open spec fn try_from_spec(value: u8) -> Result<FrameType, UnknownFrameType> {
        match FrameType::of_byte(value) {
            Some(frame_type) => Ok(frame_type),
            None => Err(UnknownFrameType),
        }
    }
}

/// Mathematical value of a record.
pub struct RawFrameView {
    pub timestamp: u64,
    pub properties: u8,
    pub api_type: ApiType,
    pub payload: Seq<u8>,
}

/// A record as it stands in the file.
#[derive(Debug, Clone)]
pub struct RawFrame {
    /// Capture time.
    pub timestamp: u64,
    pub properties: u8,
    /// The API that the payload is from: PTI or Zniffer.
    pub api_type: ApiType,
    pub payload: Vec<u8>,
}

impl View for RawFrame {
    type V = RawFrameView;

    open spec fn view(&self) -> RawFrameView {
        RawFrameView {
            timestamp: self.timestamp,
            properties: self.properties,
            api_type: self.api_type,
            payload: self.payload@,
        }
    }
}

/// The fields of a data frame of a Zniffer device.
#[derive(Debug, Clone)]
pub struct DataFrame {
    /// Device ticks; wraps.
    pub timestamp: u16,
    pub ch_and_speed: u8,
    pub region: u8,
    pub rssi: i8,
    pub mpdu: Vec<u8>,
}

/// A record of a capture file.
#[derive(Debug, Clone)]
pub enum ZlfRecord {
    /// A data frame taken apart.
    Data(DataFrame),
    /// A record as it stands in the file.
    Other(RawFrame),
}

/// Why a capture file cannot be opened or read on.
#[derive(Debug, Clone, Copy, PartialEq, Eq, Structural)]
pub enum ZlfError {
    /// The preamble names another format version.
    InvalidZlfVersion(u32),
    /// The checksum of the preamble does not match its bytes.
    InvalidPreamble,
    /// A record names an API other than PTI and Zniffer.
    InvalidApiType(u8),
    /// The file ends inside the preamble or inside a record.
    UnexpectedEof,
}

/// The 16-bit little-endian number at `at`.
pub open spec fn le16_at(bytes: Seq<u8>, at: int) -> int {
    bytes[at] + 256 * bytes[at + 1]
}

/// The 32-bit little-endian number at `at`.
pub open spec fn le32_at(bytes: Seq<u8>, at: int) -> int {
    bytes[at] + 256 * bytes[at + 1] + 65536 * bytes[at + 2] + 16777216 * bytes[at + 3]
}

/// The 64-bit little-endian number at `at`.
pub open spec fn le64_at(bytes: Seq<u8>, at: int) -> int {
    le32_at(bytes, at) + 4294967296 * le32_at(bytes, at + 4)
}

/// CRC-16/AUG-CCITT of a byte sequence: polynomial 0x1021, initial value
/// 0x1D0F, no reflection, no final xor.
pub uninterp spec fn crc16_aug_ccitt(data: Seq<u8>) -> u16;

/// Calls `crc16::State::<crc16::AUG_CCITT>::calculate`, which computes the
/// CRC-16/AUG-CCITT of `data` from its bytes alone.
#[verifier::external_body]
fn aug_ccitt_checksum(data: &[u8]) -> (crc: u16)
    ensures
        crc == crc16_aug_ccitt(data@),
{
    crc16::State::<crc16::AUG_CCITT>::calculate(data)
}

/// Judgement of a file's bytes as a preamble, given the checksum computed
/// over its first 2046 bytes: fewer than 2048 bytes end the file early; a
/// stored checksum other than `crc` is an invalid preamble; after that, a
/// version other than 104 is an invalid version.
pub open spec fn preamble_check(bytes: Seq<u8>, crc: u16) -> Result<(), ZlfError> {
    if bytes.len() < ZLF_HEADER_SIZE {
        Err(ZlfError::UnexpectedEof)
    } else if le16_at(bytes, ZLF_CHECKSUM_OFFSET as int) != crc {
        Err(ZlfError::InvalidPreamble)
    } else if le32_at(bytes, 0) != ZLF_VERSION {
        Err(ZlfError::InvalidZlfVersion(le32_at(bytes, 0) as u32))
    } else {
        Ok(())
    }
}

fn read_le16(bytes: &[u8], at: usize) -> (value: u16)
    requires
        at + 2 <= bytes@.len(),
    ensures
        value == le16_at(bytes@, at as int),
{
    bytes[at] as u16 + 256 * (bytes[at + 1] as u16)
}

fn read_le32(bytes: &[u8], at: usize) -> (value: u32)
    requires
        at + 4 <= bytes@.len(),
    ensures
        value == le32_at(bytes@, at as int),
{
    let low = bytes[at] as u32 + 256 * (bytes[at + 1] as u32);
    let high = bytes[at + 2] as u32 + 256 * (bytes[at + 3] as u32);
    low + 65536 * high
}

fn read_le64(bytes: &[u8], at: usize) -> (value: u64)
    requires
        at + 8 <= bytes@.len(),
    ensures
        value == le64_at(bytes@, at as int),
{
    assert(bytes@.len() <= usize::MAX) by {
        vstd::slice::axiom_spec_len(bytes);
    }
    let low = read_le32(bytes, at) as u64;
    let high = read_le32(bytes, at + 4) as u64;
    low + 4294967296 * high
}

/// Judges the bytes of a file as a preamble, given the checksum computed
/// over its first 2046 bytes.
pub fn check_preamble(bytes: &[u8], crc: u16) -> (checked: Result<(), ZlfError>)
    ensures
        checked == preamble_check(bytes@, crc),
{
    if bytes.len() < ZLF_HEADER_SIZE {
        return Err(ZlfError::UnexpectedEof);
    }
    if read_le16(bytes, ZLF_CHECKSUM_OFFSET) != crc {
        return Err(ZlfError::InvalidPreamble);
    }
    let version = read_le32(bytes, 0);
    if version != ZLF_VERSION {
        return Err(ZlfError::InvalidZlfVersion(version));
    }
    Ok(())
}

/// The record that starts at `pos`, and the position behind it.
///
/// At the end of the bytes there is no record. A record that the bytes end
/// in is an early end. A record whose API byte names neither PTI nor
/// Zniffer is invalid.
pub open spec fn record_at(bytes: Seq<u8>, pos: int) -> Result<Option<(RawFrameView, int)>, ZlfError> {
    let left = bytes.len() - pos;
    if left <= 0 {
        Ok(None)
    } else if left < RECORD_PREFIX_SIZE {
        Err(ZlfError::UnexpectedEof)
    } else {
        let payload_len = le32_at(bytes, pos + 9);
        let api_at = pos + RECORD_PREFIX_SIZE + payload_len;
        if left - RECORD_PREFIX_SIZE <= payload_len {
            Err(ZlfError::UnexpectedEof)
        } else if ApiType::of_byte(bytes[api_at]) is Unknown {
            Err(ZlfError::InvalidApiType(bytes[api_at]))
        } else {
            Ok(
                Some(
                    (
                        RawFrameView {
                            timestamp: le64_at(bytes, pos) as u64,
                            properties: bytes[pos + 8],
                            api_type: ApiType::of_byte(bytes[api_at]),
                            payload: bytes.subrange(pos + RECORD_PREFIX_SIZE, api_at),
                        },
                        api_at + 1,
                    ),
                ),
            )
        }
    }
}

/// The records from `pos` on, in order, up to the end of the bytes or to
/// the first record that cannot be read, and the error of that record.
pub open spec fn records_from(bytes: Seq<u8>, pos: int) -> (Seq<RawFrameView>, Option<ZlfError>)
    decreases bytes.len() - pos,
{
    match record_at(bytes, pos) {
        Ok(Some((raw, behind))) => if behind > pos {
            let rest = records_from(bytes, behind);
            (seq![raw] + rest.0, rest.1)
        } else {
            (Seq::empty(), None)
        },
        Ok(None) => (Seq::empty(), None),
        Err(e) => (Seq::empty(), Some(e)),
    }
}

/// Mathematical value of a reader.
pub struct ZlfReaderView {
    /// The bytes of the file.
    pub bytes: Seq<u8>,
    /// Where the next record starts.
    pub pos: int,
    /// Records read so far.
    pub frame_count: nat,
}

/// Reader of the records of a capture file.
pub struct ZlfReader {
    bytes: Vec<u8>,
    pos: usize,
    frame_counter: usize,
}

impl View for ZlfReader {
    type V = ZlfReaderView;

    closed spec fn view(&self) -> ZlfReaderView {
        ZlfReaderView {
            bytes: self.bytes@,
            pos: self.pos as int,
            frame_count: self.frame_counter as nat,
        }
    }
}

impl ZlfReader {
    #[verifier::type_invariant]
    spec fn inv(self) -> bool {
        ZLF_HEADER_SIZE <= self.pos <= self.bytes@.len() && self.frame_counter <= self.pos
    }

    /// Opens a capture file from its bytes.
    ///
    /// The result is the judgement of the bytes as a preamble, given the
    /// CRC-16/AUG-CCITT of the first 2046 bytes. A reader that is handed
    /// out stands behind the preamble, and the checksum that its file
    /// stores is the CRC-16/AUG-CCITT of the first 2046 bytes.
    pub fn new(bytes: Vec<u8>) -> (reader: Result<ZlfReader, ZlfError>)
        ensures
            bytes@.len() < ZLF_HEADER_SIZE ==> reader is Err && reader->Err_0
                == ZlfError::UnexpectedEof,
            bytes@.len() >= ZLF_HEADER_SIZE ==> match preamble_check(
                bytes@,
                crc16_aug_ccitt(bytes@.subrange(0, ZLF_CHECKSUM_OFFSET as int)),
            ) {
                Ok(_) => reader is Ok && reader->Ok_0@ == (ZlfReaderView {
                    bytes: bytes@,
                    pos: ZLF_HEADER_SIZE as int,
                    frame_count: 0,
                }),
                Err(e) => reader is Err && reader->Err_0 == e,
            },
            reader is Ok ==> crc16_aug_ccitt(bytes@.subrange(0, ZLF_CHECKSUM_OFFSET as int))
                == le16_at(bytes@, ZLF_CHECKSUM_OFFSET as int),
    {
        if bytes.len() < ZLF_HEADER_SIZE {
            return Err(ZlfError::UnexpectedEof);
        }
        let crc = aug_ccitt_checksum(slice_subrange(bytes.as_slice(), 0, ZLF_CHECKSUM_OFFSET));
        match check_preamble(bytes.as_slice(), crc) {
            Ok(_) => Ok(ZlfReader { bytes, pos: ZLF_HEADER_SIZE, frame_counter: 0 }),
            Err(e) => Err(e),
        }
    }

    /// The text-encoding tag of the preamble: the 32-bit little-endian
    /// number behind the version. It is kept as it stands in the file.
    pub fn encoding(&self) -> (tag: u32)
        ensures
            self@.bytes.len() >= ZLF_HEADER_SIZE,
            tag == le32_at(self@.bytes, 4),
    {
        proof {
            use_type_invariant(self);
        }
        read_le32(self.bytes.as_slice(), 4)
    }

    /// Number of records read so far.
    pub fn frame_count(&self) -> (count: usize)
        ensures
            count == self@.frame_count,
    {
        self.frame_counter
    }

    /// Reads the next record.
    ///
    /// `Ok(None)` at the end of the file. After a record, the reader stands
    /// behind it and has counted it. After `Ok(None)` and after an error the
    /// reader is as it was.
    pub fn next(&mut self) -> (record: Result<Option<ZlfRecord>, ZlfError>)
        ensures
            final(self)@.bytes == old(self)@.bytes,
            match record_at(old(self)@.bytes, old(self)@.pos) {
                Ok(Some((raw, behind))) => {
                    &&& record is Ok
                    &&& record->Ok_0 is Some
                    &&& record->Ok_0->Some_0 is Other
                    &&& record->Ok_0->Some_0->Other_0@ == raw
                    &&& final(self)@.pos == behind
                    &&& final(self)@.frame_count == old(self)@.frame_count + 1
                },
                Ok(None) => record is Ok && record->Ok_0 is None && final(self)@ == old(self)@,
                Err(e) => record is Err && record->Err_0 == e && final(self)@ == old(self)@,
            },
    {
        proof {
            use_type_invariant(&*self);
        }
        let left = self.bytes.len() - self.pos;
        if left == 0 {
            return Ok(None);
        }
        if left < RECORD_PREFIX_SIZE {
            return Err(ZlfError::UnexpectedEof);
        }
        let bytes = self.bytes.as_slice();
        let timestamp = read_le64(bytes, self.pos);
        let properties = bytes[self.pos + 8];
        let payload_len = read_le32(bytes, self.pos + 9) as usize;
        if left - RECORD_PREFIX_SIZE <= payload_len {
            return Err(ZlfError::UnexpectedEof);
        }
        let payload_at = self.pos + RECORD_PREFIX_SIZE;
        let api_at = payload_at + payload_len;
        let api_byte = bytes[api_at];
        let api_type = ApiType::from(api_byte);
        if let ApiType::Unknown(_) = api_type {
            return Err(ZlfError::InvalidApiType(api_byte));
        }
        let payload = slice_to_vec(slice_subrange(bytes, payload_at, api_at));
        self.pos = api_at + 1;
        self.frame_counter = self.frame_counter + 1;
        Ok(Some(ZlfRecord::Other(RawFrame { timestamp, properties, api_type, payload })))
    }
}

/// The payloads and fields of raw records.
pub open spec fn raw_views(records: Seq<RawFrame>) -> Seq<RawFrameView> {
    records.map_values(|r: RawFrame| r@)
}

impl ZlfReader {
    /// Reads the records that are left, in order. Where a record cannot
    /// be read, the records before it are handed out with its error, and
    /// the reader stands at that record.
    pub fn read_all(&mut self) -> (read: (Vec<RawFrame>, Option<ZlfError>))
        ensures
            final(self)@.bytes == old(self)@.bytes,
            raw_views(read.0@) == records_from(old(self)@.bytes, old(self)@.pos).0,
            read.1 == records_from(old(self)@.bytes, old(self)@.pos).1,
            final(self)@.frame_count == old(self)@.frame_count + read.0@.len(),
            records_from(final(self)@.bytes, final(self)@.pos) == (
                Seq::<RawFrameView>::empty(),
                read.1,
            ),
    {
        let mut records: Vec<RawFrame> = Vec::new();
        proof {
            use_type_invariant(&*self);
        }
        loop
            invariant
                self@.bytes == old(self)@.bytes,
                self@.pos <= self@.bytes.len(),
                self@.frame_count == old(self)@.frame_count + records@.len(),
                records_from(old(self)@.bytes, old(self)@.pos).0 == raw_views(records@)
                    + records_from(self@.bytes, self@.pos).0,
                records_from(old(self)@.bytes, old(self)@.pos).1 == records_from(
                    self@.bytes,
                    self@.pos,
                ).1,
            decreases self@.bytes.len() - self@.pos,
        {
            let next = self.next();
            proof {
                use_type_invariant(&*self);
            }
            match next {
                Ok(Some(ZlfRecord::Other(raw))) => {
                    records.push(raw);
                },
                Ok(Some(ZlfRecord::Data(_))) => {
                    return (records, None);
                },
                Ok(None) => {
                    return (records, None);
                },
                Err(e) => {
                    return (records, Some(e));
                },
            }
        }
    }
}

/// Writer of a capture file into memory.
pub struct ZlfWriter {
    bytes: Vec<u8>,
}

impl View for ZlfWriter {
    type V = Seq<u8>;

    /// The bytes written so far.
    closed spec fn view(&self) -> Seq<u8> {
        self.bytes@
    }
}

impl ZlfWriter {
    /// A writer behind the bytes of `sink`: it writes the format version
    /// as one byte.
    pub fn new(sink: Vec<u8>) -> (writer: Result<ZlfWriter, ZlfError>)
        ensures
            writer is Ok,
            writer->Ok_0@ == sink@.push(104u8),
    {
        let mut bytes = sink;
        bytes.push(104);
        Ok(ZlfWriter { bytes })
    }

    /// The bytes written.
    pub fn into_bytes(self) -> (bytes: Vec<u8>)
        ensures
            bytes@ == self@,
    {
        self.bytes
    }
}

} // verus!
