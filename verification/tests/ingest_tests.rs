use zniff_rs::ingest::Ingest;
use zniff_rs::types::{Frame, Region};
use zniff_rs::viewer::{AppMode, ViewerKey, ViewerState, Window};
use zniff_rs::zlf::{ApiType, RawFrame};
use zniff_rs::zniffer_parser::{Parser, ParserResult};

fn record(api_type: ApiType, payload: &[u8]) -> RawFrame {
    RawFrame { timestamp: 0, properties: 0, api_type, payload: payload.to_vec() }
}

#[test]
fn records_feed_the_parser_of_their_api() {
    let mut ingest = Ingest::new();
    // A data frame in two Zniffer records, with a PTI record in between.
    let first = record(ApiType::Zniffer, &[0x21, 0x01, 0x6D, 0xCE, 0x20, 0x00, 0x9D, 0x21]);
    assert_eq!(ingest.ingest(&first), vec![]);
    let envelope = Frame {
        region: Region::US,
        channel: 2,
        speed: 0,
        timestamp: 0,
        rssi: 25,
        payload: vec![0x0A, 0x0B],
    };
    let bytes = envelope.to_pti_vector().unwrap();
    let frames = ingest.ingest(&record(ApiType::Pti, &bytes[..10]));
    assert_eq!(frames, vec![]);
    let second = record(ApiType::Zniffer, &[0x03, 0x02, 0xE2, 0xEA, 0x21, 0x02]);
    assert_eq!(
        ingest.ingest(&second),
        vec![Frame {
            region: Region::EU,
            channel: 1,
            speed: 0,
            timestamp: 0x6DCE,
            rssi: 0x9D,
            payload: vec![0xE2, 0xEA],
        }]
    );
    let frames = ingest.ingest(&record(ApiType::Pti, &bytes[10..]));
    assert_eq!(frames, vec![Frame { speed: 0, ..envelope.clone() }]);
    assert_eq!(ingest.ingest(&record(ApiType::Unknown(7), &bytes)), vec![]);
    // The Zniffer parser still holds the start of a frame of type 2.
    let third = record(ApiType::Zniffer, &[0x00, 0x01, 0x45, 0x21, 0x10, 0x21, 0x03, 0x00]);
    assert_eq!(
        ingest.ingest(&third),
        vec![Frame {
            region: Region::KR,
            channel: 2,
            speed: 5,
            timestamp: 1,
            rssi: 0x10,
            payload: vec![],
        }]
    );
}

#[test]
fn all_outcomes_of_a_chunk() {
    let stream = [
        0xFF, 0x23, 0x01, 0x02, 0x10, 0x20, 0x23, 0x09, 0x21, 0x01, 0x6D, 0xCE, 0x20, 0x00, 0x9D,
        0x21, 0x03, 0x01, 0xE2, 0x21, 0x07, 0x21,
    ];
    let frame = Frame {
        region: Region::EU,
        channel: 1,
        speed: 0,
        timestamp: 0x6DCE,
        rssi: 0x9D,
        payload: vec![0xE2],
    };
    let mut parser = Parser::new();
    assert_eq!(
        parser.parse_all(&stream),
        vec![
            ParserResult::ValidCommand { id: 1, payload: vec![0x10, 0x20] },
            ParserResult::InvalidFrame,
            ParserResult::ValidFrame { frame: frame.clone() },
            ParserResult::InvalidFrame,
        ]
    );
    // The last byte started a frame.
    assert_eq!(parser.parse_all(&[0x01]), vec![]);
    assert_eq!(parser.parse_all(&[]), vec![]);
    let mut parser = Parser::new();
    assert_eq!(parser.parse_frames(&stream), vec![frame.clone()]);
    let mut parser = Parser::new();
    let mut frames = Vec::new();
    for chunk in stream.chunks(3) {
        frames.extend(parser.parse_frames(chunk));
    }
    assert_eq!(frames, vec![frame]);
}

fn state(total: usize, selected: usize, mode: AppMode) -> ViewerState {
    ViewerState { total, selected, mode }
}

fn press(from: ViewerState, key: ViewerKey, page_size: usize) -> (ViewerState, bool) {
    let mut viewer = from;
    let exit = viewer.handle_key_event(key, page_size);
    (viewer, exit)
}

#[test]
fn keys_in_the_list() {
    let start = ViewerState::new(10);
    assert_eq!(start, state(10, 0, AppMode::Normal));
    assert_eq!(press(start, ViewerKey::Quit, 5), (start, true));
    assert_eq!(press(start, ViewerKey::Enter, 5), (state(10, 0, AppMode::Detail), false));
    assert_eq!(press(start, ViewerKey::Down, 5), (state(10, 1, AppMode::Normal), false));
    assert_eq!(press(start, ViewerKey::Up, 5), (state(10, 9, AppMode::Normal), false));
    assert_eq!(press(start, ViewerKey::PageDown, 5), (state(10, 5, AppMode::Normal), false));
    assert_eq!(press(start, ViewerKey::PageDown, 50), (state(10, 9, AppMode::Normal), false));
    assert_eq!(press(start, ViewerKey::PageDown, usize::MAX), (state(10, 9, AppMode::Normal), false));
    assert_eq!(press(start, ViewerKey::End, 5), (state(10, 9, AppMode::Normal), false));
    assert_eq!(press(start, ViewerKey::Other, 5), (start, false));
    let end = state(10, 9, AppMode::Normal);
    assert_eq!(press(end, ViewerKey::Down, 5), (start, false));
    assert_eq!(press(end, ViewerKey::Up, 5), (state(10, 8, AppMode::Normal), false));
    assert_eq!(press(end, ViewerKey::PageUp, 4), (state(10, 5, AppMode::Normal), false));
    assert_eq!(press(end, ViewerKey::PageUp, 9), (start, false));
    assert_eq!(press(end, ViewerKey::PageUp, 10), (start, false));
    assert_eq!(press(end, ViewerKey::Home, 5), (start, false));
    assert_eq!(press(end, ViewerKey::PageDown, 1), (end, false));
}

#[test]
fn keys_in_the_details() {
    let open = state(10, 4, AppMode::Detail);
    let closed = state(10, 4, AppMode::Normal);
    assert_eq!(press(open, ViewerKey::Quit, 5), (closed, false));
    assert_eq!(press(open, ViewerKey::Enter, 5), (closed, false));
    assert_eq!(press(open, ViewerKey::Down, 5), (state(10, 5, AppMode::Detail), false));
    assert_eq!(press(open, ViewerKey::Up, 5), (state(10, 3, AppMode::Detail), false));
    for key in [ViewerKey::PageDown, ViewerKey::PageUp, ViewerKey::Home, ViewerKey::End, ViewerKey::Other] {
        assert_eq!(press(open, key, 5), (open, false));
    }
}

#[test]
fn viewer_without_rows() {
    let empty = ViewerState::new(0);
    for key in [
        ViewerKey::Down,
        ViewerKey::Up,
        ViewerKey::PageDown,
        ViewerKey::PageUp,
        ViewerKey::Home,
        ViewerKey::End,
        ViewerKey::Other,
    ] {
        assert_eq!(press(empty, key, 3), (empty, false));
    }
    assert_eq!(empty.window(10), Window { start: 0, count: 0 });
}

#[test]
fn rows_that_are_drawn() {
    let at = |selected: usize| state(100, selected, AppMode::Normal);
    assert_eq!(at(0).window(10), Window { start: 0, count: 10 });
    assert_eq!(at(5).window(10), Window { start: 0, count: 10 });
    assert_eq!(at(6).window(10), Window { start: 1, count: 10 });
    assert_eq!(at(50).window(10), Window { start: 45, count: 10 });
    assert_eq!(at(95).window(10), Window { start: 90, count: 10 });
    assert_eq!(at(99).window(10), Window { start: 90, count: 10 });
    assert_eq!(at(99).window(0), Window { start: 99, count: 0 });
    assert_eq!(at(99).window(1), Window { start: 99, count: 1 });
    assert_eq!(at(99).window(1000), Window { start: 0, count: 100 });
    assert_eq!(state(4, 3, AppMode::Detail).window(4), Window { start: 0, count: 4 });
    assert_eq!(state(4, 3, AppMode::Detail).window(3), Window { start: 1, count: 3 });
}

#[test]
fn states_that_the_viewer_takes() {
    assert!(ViewerState::new(0).is_well_formed());
    assert!(ViewerState::new(3).is_well_formed());
    assert!(state(3, 2, AppMode::Detail).is_well_formed());
    assert!(!state(3, 3, AppMode::Normal).is_well_formed());
    assert!(!state(0, 1, AppMode::Normal).is_well_formed());
}
