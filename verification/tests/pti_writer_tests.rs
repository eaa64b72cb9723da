use zniff_rs::pti_parser::{parse_dch_frame, PtiParseResult, PtiParser};
use zniff_rs::pti_writer::PtiWriteError;
use zniff_rs::types::{Frame, Region};

#[test]
fn envelope_bytes_are_exact() {
    let frame = Frame {
        region: Region::US,
        channel: 2,
        speed: 0,
        timestamp: 0x1234,
        rssi: 0x9D,
        payload: vec![0xE2, 0xEA, 0x36],
    };
    assert_eq!(
        frame.to_pti_vector(),
        Ok(vec![
            0x5B, 23, 0x00, 0x02, 0x00, 0, 0, 0, 0, 0, 0, 0, 0, 0, 0xF8, 0xE2, 0xEA, 0x36, 0xF9,
            0x9D, 0x02, 0x02, 0x06, 0x51, 0x5D,
        ])
    );
}

#[test]
fn length_field_is_little_endian() {
    let frame = Frame {
        region: Region::KR,
        channel: 0,
        speed: 2,
        timestamp: 0,
        rssi: 25,
        payload: vec![0x01; 255],
    };
    let bytes = frame.to_pti_vector().unwrap();
    assert_eq!(bytes.len(), 277);
    assert_eq!(&bytes[..5], &[0x5B, 0x13, 0x01, 0x02, 0x00]);
    assert_eq!(&bytes[271..], &[25, 10, 0, 0x06, 0x51, 0x5D]);
}

#[test]
fn too_long_a_payload_is_refused() {
    let mut frame = Frame {
        region: Region::EU,
        channel: 1,
        speed: 0,
        timestamp: 0,
        rssi: 0,
        payload: vec![0x01; 255],
    };
    assert_eq!(frame.to_pti_vector().map(|bytes| bytes.len()), Ok(277));
    frame.payload.push(0x02);
    assert_eq!(frame.to_pti_vector(), Err(PtiWriteError::PayloadTooLong));
    frame.payload = vec![0x01; 65515];
    assert_eq!(frame.to_pti_vector(), Err(PtiWriteError::PayloadTooLong));
}

#[test]
fn longest_payload_comes_back() {
    let frame = Frame {
        region: Region::ANZ,
        channel: 63,
        speed: 0,
        timestamp: 0,
        rssi: 128,
        payload: (0..255u32).map(|b| (b % 251) as u8 + 1).collect(),
    };
    let bytes = frame.to_pti_vector().unwrap();
    let mut parser = PtiParser::new();
    let frames = parser.parse(&bytes);
    assert_eq!(frames.len(), 1);
    assert_eq!(frames[0].payload, frame.payload);
    assert_eq!(frames[0].channel, 63);
    assert_eq!(frames[0].rssi, 128);
    assert_eq!(frames[0].region, Region::ANZ);
}

const REGIONS: [Region; 12] = [
    Region::EU,
    Region::US,
    Region::ANZ,
    Region::HK,
    Region::IN,
    Region::IL,
    Region::RU,
    Region::CN,
    Region::USLR,
    Region::EULR,
    Region::JP,
    Region::KR,
];

#[test]
fn round_trip_keeps_region_channel_rssi_and_payload() {
    for region in REGIONS {
        for channel in 0..=63u8 {
            for rssi in [25u8, 128] {
                let frame = Frame {
                    region,
                    channel,
                    speed: 1,
                    timestamp: 77,
                    rssi,
                    payload: vec![0xE2, 0xEA, 0x36, 0xC3, 0x01],
                };
                let bytes = frame.to_pti_vector().unwrap();
                let mut parser = PtiParser::new();
                let frames = parser.parse(&bytes);
                assert_eq!(frames.len(), 1);
                assert_eq!(parser.buffer_len(), 0);
                assert_eq!(frames[0].region, frame.region);
                assert_eq!(frames[0].channel, frame.channel);
                assert_eq!(frames[0].rssi, frame.rssi);
                assert_eq!(frames[0].payload, frame.payload);
                assert_eq!(frames[0].timestamp, 0);
            }
        }
    }
}

#[test]
fn reparsed_rssi_is_the_stored_rssi_of_the_byte() {
    let frame = Frame {
        region: Region::EU,
        channel: 1,
        speed: 0,
        timestamp: 0x6DCE,
        rssi: 0x9D,
        payload: vec![0xE2, 0xEA],
    };
    let bytes = frame.to_pti_vector().unwrap();
    assert_eq!(
        parse_dch_frame(&bytes),
        PtiParseResult::ValidFrame {
            frame: Frame {
                region: Region::EU,
                channel: 1,
                speed: 1,
                timestamp: 0,
                rssi: 128,
                payload: vec![0xE2, 0xEA],
            }
        }
    );
}

#[test]
fn frames_that_do_not_come_back() {
    let mut frame = Frame {
        region: Region::EU,
        channel: 1,
        speed: 0,
        timestamp: 0,
        rssi: 25,
        payload: vec![],
    };
    assert_eq!(parse_dch_frame(&frame.to_pti_vector().unwrap()), PtiParseResult::InvalidFrame);
    frame.payload = vec![0x55, 0x01];
    assert_eq!(parse_dch_frame(&frame.to_pti_vector().unwrap()), PtiParseResult::InvalidFrame);
    frame.payload = vec![0x01];
    frame.channel = 64;
    match parse_dch_frame(&frame.to_pti_vector().unwrap()) {
        PtiParseResult::ValidFrame { frame: back } => assert_eq!(back.channel, 0),
        _ => panic!("Expected ValidFrame"),
    }
}
