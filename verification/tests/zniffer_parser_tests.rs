use zniff_rs::add;
use zniff_rs::types::{Frame, Region};
use zniff_rs::zniffer_parser::{Parser, ParserResult, ParserState, SOF_COMMAND, SOF_FRAME};

#[test]
fn it_works() {
    let result = add(2, 2);
    assert_eq!(result, 4);
}

#[test]
fn test_parser() {
    let mut parser = Parser::new();

    // Start of Frame
    let result: ParserResult = parser.parse_bytes(vec![SOF_COMMAND]);
    assert_eq!(result, ParserResult::IncompleteFrame);

    parser.timeout();
    assert_eq!(parser.state(), ParserState::AwaitStartOfFrame);

    let result = parser.parse_bytes(vec![SOF_FRAME]);
    assert_eq!(result, ParserResult::IncompleteFrame);
    assert_eq!(parser.state(), ParserState::AwaitType);
    parser.timeout();

    let result = parser.parse_bytes(vec![
        0x21, // FRAME SOF
        0x01, // FRAME TYPE
        0x6D, 0xCE, // TIMESTAMP
        0x20, // Channel and speed
        0x00, // Region
        0x9D, // RSSI
        0x21, 0x03, // Start of data
        0x12, // Length
        0xE2, 0xEA, 0x36, 0xC3, 0x01, 0x81,
        0x0D, 0x12, 0x20, 0x0B, 0x10, 0x02,
        0x41, 0x7F, 0x7F, 0x7F, 0x7F, 0xE5,
    ]);
    assert_eq!(result, ParserResult::ValidFrame {
        frame: Frame {
            region: Region::EU,
            channel: 0x01,
            speed: 0x00,
            timestamp: 0x6DCE,
            rssi: 0x9D,
            payload: vec![
                0xE2, 0xEA, 0x36, 0xC3, 0x01, 0x81,
                0x0D, 0x12, 0x20, 0x0B, 0x10, 0x02,
                0x41, 0x7F, 0x7F, 0x7F, 0x7F, 0xE5,
            ]
        }
    });

    let result = parser.parse_bytes(vec![
        0x21, 0x01, 0x63, 0xEF, 0x02, 0x00, 0xC8, 0x21, 0x03
    ]);
    assert_eq!(result, ParserResult::IncompleteFrame);
    parser.timeout();

    println!("New frame");

    let result = parser.parse_bytes(vec![
        0x21,
        0x01,
        0x44, 0x9E,
        0x02,
        0x00,
        0xC5,
        0x21, 0x03,
        0x15,
        0xE5, 0x07, 0x76, 0x83, 0x01, 0x41, 0x0C,
        0x15, 0x31, 0x98, 0x80, 0x3F, 0xF0, 0x2A,
        0xE0, 0x8C, 0x27, 0x72, 0x3D, 0xF1, 0x14,
    ]);
    assert_eq!(result, ParserResult::ValidFrame {
        frame: Frame {
            region: Region::EU,
            channel: 0x00,
            speed: 0x02,
            timestamp: 0x449E,
            rssi: 0xC5,
            payload: vec![
                0xE5, 0x07, 0x76, 0x83, 0x01, 0x41, 0x0C,
                0x15, 0x31, 0x98, 0x80, 0x3F, 0xF0, 0x2A,
                0xE0, 0x8C, 0x27, 0x72, 0x3D, 0xF1, 0x14,
            ]
        }
    });
}

/// Feeds every byte of `input` one at a time and collects the outcomes
/// other than `IncompleteFrame`.
fn feed_each(parser: &mut Parser, input: &[u8]) -> Vec<ParserResult> {
    let mut outcomes = Vec::new();
    for byte in input {
        match parser.parse(*byte) {
            ParserResult::IncompleteFrame => {}
            outcome => outcomes.push(outcome),
        }
    }
    outcomes
}

#[test]
fn zniffer_parser_test_parser() {
    let mut parser = Parser::new();

    // Start of Frame
    let outcomes = feed_each(&mut parser, &[SOF_COMMAND]);
    assert!(outcomes.is_empty());

    parser.timeout();
    assert_eq!(parser.state(), ParserState::AwaitStartOfFrame);

    let outcomes = feed_each(&mut parser, &[SOF_FRAME]);
    assert!(outcomes.is_empty());
    assert_eq!(parser.state(), ParserState::AwaitType);
    parser.timeout();

    let outcomes = feed_each(&mut parser, &[
        0x21, // FRAME SOF
        0x01, // FRAME TYPE
        0x6D, 0xCE, // TIMESTAMP
        0x20, // Channel and speed
        0x00, // Region
        0x9D, // RSSI
        0x21, 0x03, // Start of data
        0x12, // Length
        0xE2, 0xEA, 0x36, 0xC3, 0x01, 0x81,
        0x0D, 0x12, 0x20, 0x0B, 0x10, 0x02,
        0x41, 0x7F, 0x7F, 0x7F, 0x7F, 0xE5,
    ]);
    assert_eq!(outcomes, vec![ParserResult::ValidFrame {
        frame: Frame {
            region: Region::EU,
            channel: 0x01,
            speed: 0x00,
            timestamp: 0x6DCE,
            rssi: 0x9D,
            payload: vec![
                0xE2, 0xEA, 0x36, 0xC3, 0x01, 0x81,
                0x0D, 0x12, 0x20, 0x0B, 0x10, 0x02,
                0x41, 0x7F, 0x7F, 0x7F, 0x7F, 0xE5,
            ]
        }
    }]);

    let outcomes = feed_each(&mut parser, &[
        0x21, 0x01, 0x63, 0xEF, 0x02, 0x00, 0xC8, 0x21, 0x03
    ]);
    assert!(outcomes.is_empty());
    parser.timeout();

    println!("New frame");

    let outcomes = feed_each(&mut parser, &[
        0x21,
        0x01,
        0x44, 0x9E,
        0x02,
        0x00,
        0xC5,
        0x21, 0x03,
        0x15,
        0xE5, 0x07, 0x76, 0x83, 0x01, 0x41, 0x0C,
        0x15, 0x31, 0x98, 0x80, 0x3F, 0xF0, 0x2A,
        0xE0, 0x8C, 0x27, 0x72, 0x3D, 0xF1, 0x14,
    ]);
    assert_eq!(outcomes, vec![ParserResult::ValidFrame {
        frame: Frame {
            region: Region::EU,
            channel: 0x00,
            speed: 0x02,
            timestamp: 0x449E,
            rssi: 0xC5,
            payload: vec![
                0xE5, 0x07, 0x76, 0x83, 0x01, 0x41, 0x0C,
                0x15, 0x31, 0x98, 0x80, 0x3F, 0xF0, 0x2A,
                0xE0, 0x8C, 0x27, 0x72, 0x3D, 0xF1, 0x14,
            ]
        }
    }]);
}

#[test]
fn command_response_with_payload() {
    let mut parser = Parser::new();
    let result = parser.parse_bytes(vec![0x23, 0x01, 0x03, 0xAA, 0xBB, 0xCC]);
    assert_eq!(result, ParserResult::ValidCommand { id: 1, payload: vec![0xAA, 0xBB, 0xCC] });
    assert_eq!(parser.state(), ParserState::AwaitStartOfFrame);
}

#[test]
fn command_response_without_payload() {
    let mut parser = Parser::new();
    for id in [1u8, 2, 3, 4, 5, 14, 19] {
        let result = parser.parse_bytes(vec![0x23, id, 0x00]);
        assert_eq!(result, ParserResult::ValidCommand { id, payload: vec![] });
    }
}

#[test]
fn data_frame_of_length_zero_is_an_empty_frame() {
    let mut parser = Parser::new();
    let result = parser.parse_bytes(vec![0x21, 0x02, 0x12, 0x34, 0x63, 0x01, 0x40, 0x21, 0x03, 0x00]);
    assert_eq!(result, ParserResult::ValidFrame {
        frame: Frame {
            region: Region::US,
            channel: 3,
            speed: 3,
            timestamp: 0x1234,
            rssi: 0x40,
            payload: vec![],
        }
    });
}

#[test]
fn unknown_command_id_is_invalid() {
    let mut parser = Parser::new();
    assert_eq!(parser.parse_bytes(vec![0x23, 0x06]), ParserResult::InvalidFrame);
    assert_eq!(parser.state(), ParserState::AwaitStartOfFrame);
    assert_eq!(parser.parse_bytes(vec![0x23, 0x00]), ParserResult::InvalidFrame);
}

#[test]
fn unknown_frame_type_is_invalid() {
    let mut parser = Parser::new();
    assert_eq!(parser.parse_bytes(vec![0x21, 0x03]), ParserResult::InvalidFrame);
    assert_eq!(parser.parse_bytes(vec![0x21, 0x00]), ParserResult::InvalidFrame);
    assert_eq!(parser.state(), ParserState::AwaitStartOfFrame);
}

#[test]
fn unknown_region_is_invalid() {
    let mut parser = Parser::new();
    assert_eq!(
        parser.parse_bytes(vec![0x21, 0x01, 0x00, 0x00, 0x20, 0x04]),
        ParserResult::InvalidFrame
    );
    assert_eq!(parser.state(), ParserState::AwaitStartOfFrame);
}

#[test]
fn wrong_start_of_data_is_invalid() {
    let mut parser = Parser::new();
    assert_eq!(
        parser.parse_bytes(vec![0x21, 0x01, 0x00, 0x00, 0x20, 0x00, 0x9D, 0x22]),
        ParserResult::InvalidFrame
    );
    assert_eq!(
        parser.parse_bytes(vec![0x21, 0x01, 0x00, 0x00, 0x20, 0x00, 0x9D, 0x21, 0x04]),
        ParserResult::InvalidFrame
    );
}

#[test]
fn idle_parser_skips_other_bytes() {
    let mut parser = Parser::new();
    assert_eq!(parser.parse_bytes(vec![0x00, 0xFF, 0x22, 0x24]), ParserResult::IncompleteFrame);
    assert_eq!(parser.state(), ParserState::AwaitStartOfFrame);
}

#[test]
fn parse_bytes_stops_at_the_first_outcome() {
    let mut parser = Parser::new();
    // An invalid command id, then a complete command response.
    let input = vec![0x23, 0x07, 0x23, 0x04, 0x00];
    assert_eq!(parser.parse_bytes(input.clone()), ParserResult::InvalidFrame);
    // The rest is fed again by the caller.
    assert_eq!(
        parser.parse_bytes(input[2..].to_vec()),
        ParserResult::ValidCommand { id: 4, payload: vec![] }
    );
}

#[test]
fn every_chunking_gives_the_same_outcomes() {
    let stream: Vec<u8> = vec![
        0xFF, 0x23, 0x01, 0x02, 0x10, 0x20, 0x23, 0x09, 0x21, 0x01, 0x6D, 0xCE, 0x20, 0x00, 0x9D,
        0x21, 0x03, 0x03, 0xE2, 0xEA, 0x36, 0x21, 0x07, 0x21, 0x05, 0x00, 0x01, 0x45, 0x21, 0x10,
        0x21, 0x03, 0x01, 0x99,
    ];
    let mut whole = Parser::new();
    let expected = feed_each(&mut whole, &stream);
    assert_eq!(expected.len(), 5);
    for cut in 0..=stream.len() {
        for second in cut..=stream.len() {
            let mut parser = Parser::new();
            let mut outcomes = feed_each(&mut parser, &stream[..cut]);
            outcomes.extend(feed_each(&mut parser, &stream[cut..second]));
            outcomes.extend(feed_each(&mut parser, &stream[second..]));
            assert_eq!(outcomes, expected);
            assert_eq!(parser.state(), whole.state());
        }
    }
}

#[test]
fn timeout_drops_a_frame_under_way() {
    let mut parser = Parser::new();
    assert_eq!(
        parser.parse_bytes(vec![0x21, 0x01, 0x00, 0x00, 0x20, 0x00, 0x9D, 0x21, 0x03, 0x02, 0x11]),
        ParserResult::IncompleteFrame
    );
    assert_eq!(parser.state(), ParserState::AwaitPayload);
    parser.timeout();
    assert_eq!(parser.state(), ParserState::AwaitStartOfFrame);
    assert_eq!(
        parser.parse_bytes(vec![0x23, 0x05, 0x01, 0x77]),
        ParserResult::ValidCommand { id: 5, payload: vec![0x77] }
    );
}
