//! Shared value types: the radio region and the reconstructed radio frame.

use vstd::prelude::*;
use vstd::std_specs::convert::TryFromSpecImpl;
use crate::text::ascii_lowercase;
use crate::text::same_text;
use crate::text::to_ascii_lowercase;

verus! {

/// Z-Wave radio region.
///
/// A region has two numeric encodings: the native code that the Zniffer
/// device and the capture file use, and the PTI code that a Debug Channel
/// trailer carries.
#[derive(Copy, Clone, Debug, PartialEq, Eq, Structural)]
pub enum Region {
    EU,
    US,
    ANZ,
    HK,
    IN,
    IL,
    RU,
    CN,
    USLR,
    EULR,
    JP,
    KR,
}

/// PTI code of the US Long Range backup channel, which no native region stands for.
pub const PTI_REGION_USLR_BACK: u8 = 13;

/// PTI code of the US Long Range end device, which no native region stands for.
pub const PTI_REGION_USLR_END_DEVICE: u8 = 14;

impl Region {
    /// The native code of a region.
    pub open spec fn native_code(self) -> u8 {
        match self {
            Region::EU => 0,
            Region::US => 1,
            Region::ANZ => 2,
            Region::HK => 3,
            Region::IN => 5,
            Region::IL => 6,
            Region::RU => 7,
            Region::CN => 8,
            Region::USLR => 9,
            Region::EULR => 11,
            Region::JP => 32,
            Region::KR => 33,
        }
    }

    /// The PTI code of a region.
    pub open spec fn pti_code(self) -> u8 {
        match self {
            Region::EU => 1,
            Region::US => 2,
            Region::ANZ => 3,
            Region::HK => 4,
            Region::IN => 5,
            Region::JP => 7,
            Region::RU => 8,
            Region::IL => 9,
            Region::KR => 10,
            Region::CN => 11,
            Region::USLR => 12,
            Region::EULR => 15,
        }
    }

    /// The region that a native code stands for, if any.
    pub open spec fn of_native(code: u8) -> Option<Region> {
        if code == 0 {
            Some(Region::EU)
        } else if code == 1 {
            Some(Region::US)
        } else if code == 2 {
            Some(Region::ANZ)
        } else if code == 3 {
            Some(Region::HK)
        } else if code == 5 {
            Some(Region::IN)
        } else if code == 6 {
            Some(Region::IL)
        } else if code == 7 {
            Some(Region::RU)
        } else if code == 8 {
            Some(Region::CN)
        } else if code == 9 {
            Some(Region::USLR)
        } else if code == 11 {
            Some(Region::EULR)
        } else if code == 32 {
            Some(Region::JP)
        } else if code == 33 {
            Some(Region::KR)
        } else {
            None
        }
    }

    /// The region that a PTI code stands for, if any. The two PTI codes
    /// without a native region, 13 and 14, stand for none.
    pub open spec fn of_pti(code: u8) -> Option<Region> {
        if code == 1 {
            Some(Region::EU)
        } else if code == 2 {
            Some(Region::US)
        } else if code == 3 {
            Some(Region::ANZ)
        } else if code == 4 {
            Some(Region::HK)
        } else if code == 5 {
            Some(Region::IN)
        } else if code == 7 {
            Some(Region::JP)
        } else if code == 8 {
            Some(Region::RU)
        } else if code == 9 {
            Some(Region::IL)
        } else if code == 10 {
            Some(Region::KR)
        } else if code == 11 {
            Some(Region::CN)
        } else if code == 12 {
            Some(Region::USLR)
        } else if code == 15 {
            Some(Region::EULR)
        } else {
            None
        }
    }

    /// Native code of this region.
    pub fn to_native(self) -> (code: u8)
        ensures
            code == self.native_code(),
    {
        match self {
            Region::EU => 0,
            Region::US => 1,
            Region::ANZ => 2,
            Region::HK => 3,
            Region::IN => 5,
            Region::IL => 6,
            Region::RU => 7,
            Region::CN => 8,
            Region::USLR => 9,
            Region::EULR => 11,
            Region::JP => 32,
            Region::KR => 33,
        }
    }

    /// Region of a native code; `None` exactly for the codes that no region has.
    pub fn from_native(code: u8) -> (region: Option<Region>)
        ensures
            region == Region::of_native(code),
            region is Some <==> exists|r: Region| r.native_code() == code,
            region matches Some(r) ==> r.native_code() == code,
    {
        let region = match code {
            0 => Some(Region::EU),
            1 => Some(Region::US),
            2 => Some(Region::ANZ),
            3 => Some(Region::HK),
            5 => Some(Region::IN),
            6 => Some(Region::IL),
            7 => Some(Region::RU),
            8 => Some(Region::CN),
            9 => Some(Region::USLR),
            11 => Some(Region::EULR),
            32 => Some(Region::JP),
            33 => Some(Region::KR),
            _ => None,
        };
        proof {
            if let Some(r) = region {
                assert(r.native_code() == code);
            }
        }
        region
    }

    /// PTI code of this region.
    pub fn to_pti(self) -> (code: u8)
        ensures
            code == self.pti_code(),
    {
        match self {
            Region::EU => 1,
            Region::US => 2,
            Region::ANZ => 3,
            Region::HK => 4,
            Region::IN => 5,
            Region::JP => 7,
            Region::RU => 8,
            Region::IL => 9,
            Region::KR => 10,
            Region::CN => 11,
            Region::USLR => 12,
            Region::EULR => 15,
        }
    }

    /// Region of a PTI code; `None` exactly for the codes that no region has.
    pub fn from_pti(code: u8) -> (region: Option<Region>)
        ensures
            region == Region::of_pti(code),
            region is Some <==> exists|r: Region| r.pti_code() == code,
            region matches Some(r) ==> r.pti_code() == code,
    {
        let region = match code {
            1 => Some(Region::EU),
            2 => Some(Region::US),
            3 => Some(Region::ANZ),
            4 => Some(Region::HK),
            5 => Some(Region::IN),
            7 => Some(Region::JP),
            8 => Some(Region::RU),
            9 => Some(Region::IL),
            10 => Some(Region::KR),
            11 => Some(Region::CN),
            12 => Some(Region::USLR),
            15 => Some(Region::EULR),
            _ => None,
        };
        proof {
            if let Some(r) = region {
                assert(r.pti_code() == code);
            }
        }
        region
    }
}

impl Region {
    /// The token that names the region on the command line.
    pub open spec fn token(self) -> Seq<char> {
        match self {
            Region::EU => "eu"@,
            Region::US => "us"@,
            Region::ANZ => "anz"@,
            Region::HK => "hk"@,
            Region::IN => "in"@,
            Region::IL => "il"@,
            Region::RU => "ru"@,
            Region::CN => "cn"@,
            Region::USLR => "uslr"@,
            Region::EULR => "eulr"@,
            Region::JP => "jp"@,
            Region::KR => "kr"@,
        }
    }

    /// The region that a text names, whatever the case of its ASCII
    /// letters.
    pub open spec fn of_token(text: Seq<char>) -> Option<Region> {
        let lower = ascii_lowercase(text);
        if lower == Region::EU.token() {
            Some(Region::EU)
        } else if lower == Region::US.token() {
            Some(Region::US)
        } else if lower == Region::ANZ.token() {
            Some(Region::ANZ)
        } else if lower == Region::HK.token() {
            Some(Region::HK)
        } else if lower == Region::IN.token() {
            Some(Region::IN)
        } else if lower == Region::IL.token() {
            Some(Region::IL)
        } else if lower == Region::RU.token() {
            Some(Region::RU)
        } else if lower == Region::CN.token() {
            Some(Region::CN)
        } else if lower == Region::USLR.token() {
            Some(Region::USLR)
        } else if lower == Region::EULR.token() {
            Some(Region::EULR)
        } else if lower == Region::JP.token() {
            Some(Region::JP)
        } else if lower == Region::KR.token() {
            Some(Region::KR)
        } else {
            None
        }
    }

    /// The region that a text names; `None` where it names none.
    pub fn from_token(text: &str) -> (region: Option<Region>)
        ensures
            region == Region::of_token(text@),
    {
        let lower = to_ascii_lowercase(text);
        let token = lower.as_str();
        if same_text(token, "eu") {
            Some(Region::EU)
        } else if same_text(token, "us") {
            Some(Region::US)
        } else if same_text(token, "anz") {
            Some(Region::ANZ)
        } else if same_text(token, "hk") {
            Some(Region::HK)
        } else if same_text(token, "in") {
            Some(Region::IN)
        } else if same_text(token, "il") {
            Some(Region::IL)
        } else if same_text(token, "ru") {
            Some(Region::RU)
        } else if same_text(token, "cn") {
            Some(Region::CN)
        } else if same_text(token, "uslr") {
            Some(Region::USLR)
        } else if same_text(token, "eulr") {
            Some(Region::EULR)
        } else if same_text(token, "jp") {
            Some(Region::JP)
        } else if same_text(token, "kr") {
            Some(Region::KR)
        } else {
            None
        }
    }
}

/// A native code that no region has.
#[derive(Debug, Clone, Copy, PartialEq, Eq, Structural)]
pub struct UnknownRegion(pub u8);

impl TryFrom<u8> for Region {
    type Error = UnknownRegion;

    /// The region of a native code.
    fn try_from(code: u8) -> (region: Result<Region, UnknownRegion>) {
        match Region::from_native(code) {
            Some(region) => Ok(region),
            None => Err(UnknownRegion(code)),
        }
    }
}

impl TryFromSpecImpl<u8> for Region {
    open spec fn obeys_try_from_spec() -> bool {
        true
    }

    open spec fn try_from_spec(code: u8) -> Result<Region, UnknownRegion> {
        match Region::of_native(code) {
            Some(region) => Ok(region),
            None => Err(UnknownRegion(code)),
        }
    }
}

impl Default for Region {
    fn default() -> (region: Region)
        ensures
            region == Region::EU,
    {
        Region::EU
    }
}

/// Every region's native code stands for that region again.
pub proof fn lemma_native_code_round_trip(region: Region)
    ensures
        Region::of_native(region.native_code()) == Some(region),
{
}

/// Region conversion is a round trip: every region has a PTI code, that
/// code stands for the region again, and so the region of a native code
/// comes back with the native code that it had.
pub proof fn lemma_pti_code_round_trip(region: Region)
    ensures
        Region::of_pti(region.pti_code()) == Some(region),
        Region::of_pti(region.pti_code()).unwrap().native_code() == region.native_code(),
        region.pti_code() != PTI_REGION_USLR_BACK,
        region.pti_code() != PTI_REGION_USLR_END_DEVICE,
{
}

/// A PTI code that stands for a region is that region's PTI code, and no two
/// regions share a code in either encoding.
pub proof fn lemma_region_codes_injective(a: Region, b: Region)
    ensures
        a.pti_code() == b.pti_code() ==> a == b,
        a.native_code() == b.native_code() ==> a == b,
{
}

/// Mathematical value of a radio frame.
pub struct FrameView {
    pub region: Region,
    pub channel: u8,
    pub speed: u8,
    pub timestamp: u16,
    pub rssi: u8,
    pub payload: Seq<u8>,
}

/// A reconstructed radio frame: radio metadata and the over-the-air bytes.
#[derive(Debug, Clone, PartialEq)]
pub struct Frame {
    pub region: Region,
    pub channel: u8,
    /// Bitrate code: 0 is 9.6 kbps, 1 is 40 kbps, 2 is 100 kbps, 3 is Long Range.
    pub speed: u8,
    pub timestamp: u16,
    pub rssi: u8,
    pub payload: Vec<u8>,
}

impl View for Frame {
    type V = FrameView;

    open spec fn view(&self) -> FrameView {
        FrameView {
            region: self.region,
            channel: self.channel,
            speed: self.speed,
            timestamp: self.timestamp,
            rssi: self.rssi,
            payload: self.payload@,
        }
    }
}

impl FrameView {
    /// The frame that a parser starts from: region EU, every number zero, no payload.
    pub open spec fn empty() -> FrameView {
        FrameView {
            region: Region::EU,
            channel: 0,
            speed: 0,
            timestamp: 0,
            rssi: 0,
            payload: Seq::empty(),
        }
    }

    /// The channel is one of 0 to 63 and the payload has at most 255 bytes.
    pub open spec fn well_formed(self) -> bool {
        self.channel <= 63 && self.payload.len() <= 255
    }
}

impl Default for Frame {
    fn default() -> (frame: Frame)
        ensures
            frame@ == FrameView::empty(),
    {
        Frame { region: Region::EU, channel: 0, speed: 0, timestamp: 0, rssi: 0, payload: Vec::new() }
    }
}

} // verus!
