use zniff_rs::types::{Frame, Region};
use zniff_rs::zniffer_parser::{
    get_version_request, set_region_request, start_request, stop_request, Parser, ParserResult,
    ParserState,
};
use zniff_rs::zniffer_writer::ZnifferWriteError;

#[test]
fn command_requests() {
    assert_eq!(get_version_request(), vec![0x23, 0x01, 0x00]);
    assert_eq!(start_request(), vec![0x23, 0x04, 0x00]);
    assert_eq!(stop_request(), vec![0x23, 0x05, 0x00]);
    assert_eq!(set_region_request(Region::EU), vec![0x23, 0x02, 0x01, 0x00]);
    assert_eq!(set_region_request(Region::USLR), vec![0x23, 0x02, 0x01, 0x09]);
    assert_eq!(set_region_request(Region::KR), vec![0x23, 0x02, 0x01, 0x21]);
}

#[test]
fn responses_reuse_the_framing_of_requests() {
    let mut parser = Parser::new();
    assert_eq!(
        parser.parse_bytes(get_version_request()),
        ParserResult::ValidCommand { id: 1, payload: vec![] }
    );
    assert_eq!(
        parser.parse_bytes(set_region_request(Region::JP)),
        ParserResult::ValidCommand { id: 2, payload: vec![32] }
    );
    assert_eq!(
        parser.parse_bytes(start_request()),
        ParserResult::ValidCommand { id: 4, payload: vec![] }
    );
    assert_eq!(
        parser.parse_bytes(stop_request()),
        ParserResult::ValidCommand { id: 5, payload: vec![] }
    );
    assert_eq!(parser.state(), ParserState::AwaitStartOfFrame);
}

#[test]
fn data_frame_bytes_are_exact() {
    let frame = Frame {
        region: Region::EU,
        channel: 1,
        speed: 0,
        timestamp: 0x6DCE,
        rssi: 0x9D,
        payload: vec![0xE2, 0xEA, 0x36],
    };
    assert_eq!(
        frame.to_zniffer_vector(),
        Ok(vec![0x21, 0x01, 0x6D, 0xCE, 0x20, 0x00, 0x9D, 0x21, 0x03, 0x03, 0xE2, 0xEA, 0x36])
    );
    let frame = Frame {
        region: Region::KR,
        channel: 7,
        speed: 31,
        timestamp: 0x00FF,
        rssi: 0,
        payload: vec![],
    };
    assert_eq!(
        frame.to_zniffer_vector(),
        Ok(vec![0x21, 0x01, 0x00, 0xFF, 0xFF, 0x21, 0x00, 0x21, 0x03, 0x00])
    );
}

#[test]
fn frames_that_do_not_fit() {
    let mut frame = Frame {
        region: Region::EU,
        channel: 8,
        speed: 32,
        timestamp: 0,
        rssi: 0,
        payload: vec![0; 256],
    };
    assert_eq!(frame.to_zniffer_vector(), Err(ZnifferWriteError::ChannelOutOfRange));
    frame.channel = 7;
    assert_eq!(frame.to_zniffer_vector(), Err(ZnifferWriteError::SpeedOutOfRange));
    frame.speed = 31;
    assert_eq!(frame.to_zniffer_vector(), Err(ZnifferWriteError::PayloadTooLong));
    frame.payload.pop();
    assert_eq!(frame.to_zniffer_vector().map(|bytes| bytes.len()), Ok(265));
}

#[test]
fn native_round_trip() {
    let regions = [Region::EU, Region::US, Region::HK, Region::EULR, Region::JP];
    let mut parser = Parser::new();
    for (i, region) in regions.iter().enumerate() {
        for payload_len in [0usize, 1, 2, 18, 255] {
            let frame = Frame {
                region: *region,
                channel: (i as u8 * 3) % 8,
                speed: (payload_len % 32) as u8,
                timestamp: 0x8000 + (payload_len as u16) * 257,
                rssi: 0x9D,
                payload: (0..payload_len).map(|b| (b * 7) as u8).collect(),
            };
            let bytes = frame.to_zniffer_vector().unwrap();
            assert_eq!(parser.parse_bytes(bytes), ParserResult::ValidFrame { frame });
            assert_eq!(parser.state(), ParserState::AwaitStartOfFrame);
        }
    }
}
