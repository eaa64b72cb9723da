use zniff_rs::generator::{FrameGenerator, GeneratorAction};
use zniff_rs::proxy::{ParseProxyProtocolError, ProxyProtocol, DEFAULT_PTI_PORT};
use zniff_rs::storage::{DbFrame, MemoryFrameDatabase};
use zniff_rs::zlf::{ApiType, DataFrame, RawFrame, ZlfRecord, ZlfWriter};

fn row(timestamp: i64, payload: &[u8]) -> DbFrame {
    DbFrame {
        id: 0,
        timestamp,
        speed: 5,
        rssi: -100,
        channel: 60,
        home_id: 12345,
        src_node_id: 1,
        dst_node_id: 2,
        payload: payload.to_vec(),
    }
}

fn ids(rows: &[DbFrame]) -> Vec<i64> {
    rows.iter().map(|r| r.id).collect()
}

#[test]
fn db_test_query() {
    let mut db = MemoryFrameDatabase::new();
    let frame = DbFrame {
        id: 0, // The index gives the id.
        timestamp: 1627849800,
        speed: 5,
        rssi: -100,
        channel: 60,
        home_id: 12345,
        src_node_id: 1,
        dst_node_id: 2,
        payload: vec![1, 2, 3, 4],
    };
    db.add_frame(frame);
}

#[test]
fn rows_get_ids_in_the_order_of_insertion() {
    let mut db = MemoryFrameDatabase::new();
    assert_eq!(db.len(), 0);
    assert!(db.get_frame(0).is_none());
    assert!(db.get_frame(1).is_none());
    assert_eq!(db.add_frame(row(1627849800, &[1, 2, 3, 4])), Some(1));
    let mut second = row(1627849801, &[5]);
    second.id = 77;
    assert_eq!(db.add_frame(second), Some(2));
    assert_eq!(db.add_frame(row(1627849802, &[])), Some(3));
    assert_eq!(db.len(), 3);
    let found = db.get_frame(2).unwrap();
    assert_eq!(found.id, 2);
    assert_eq!(found.timestamp, 1627849801);
    assert_eq!(found.payload, vec![5]);
    assert_eq!(found.home_id, 12345);
    assert_eq!(found.rssi, -100);
    assert_eq!(db.get_frame(1).unwrap().payload, vec![1, 2, 3, 4]);
    assert!(db.get_frame(0).is_none());
    assert!(db.get_frame(4).is_none());
    assert!(db.get_frame(u64::MAX).is_none());
}

#[test]
fn ranges_of_rows() {
    let mut db = MemoryFrameDatabase::new();
    for i in 0..10 {
        db.add_frame(row(i, &[i as u8]));
    }
    assert_eq!(ids(&db.get_frames(0, 3)), vec![1, 2, 3]);
    assert_eq!(ids(&db.get_frames(8, 5)), vec![9, 10]);
    assert_eq!(ids(&db.get_frames(9, 1)), vec![10]);
    assert_eq!(ids(&db.get_frames(10, 1)), Vec::<i64>::new());
    assert_eq!(ids(&db.get_frames(3, 0)), Vec::<i64>::new());
    assert_eq!(ids(&db.get_frames(usize::MAX, usize::MAX)), Vec::<i64>::new());
    assert_eq!(ids(&db.get_frames(2, usize::MAX)), vec![3, 4, 5, 6, 7, 8, 9, 10]);
    assert_eq!(db.get_frames(4, 2)[1].payload, vec![5]);
}

#[test]
fn generator_sends_pti_records() {
    let generator = FrameGenerator::new("trace.zlf".to_string(), 250);
    assert_eq!(generator.file(), "trace.zlf");
    assert_eq!(generator.delay(), 250);
    let pti = ZlfRecord::Other(RawFrame {
        timestamp: 1,
        properties: 0,
        api_type: ApiType::Pti,
        payload: vec![0x5B, 0x01],
    });
    match generator.action_for(pti) {
        GeneratorAction::Send { payload, delay_ms } => {
            assert_eq!(payload, vec![0x5B, 0x01]);
            assert_eq!(delay_ms, 250);
        }
        GeneratorAction::Skip => panic!("Expected the record to be sent"),
    }
    let zniffer = ZlfRecord::Other(RawFrame {
        timestamp: 1,
        properties: 0,
        api_type: ApiType::Zniffer,
        payload: vec![0x21],
    });
    assert!(matches!(generator.action_for(zniffer), GeneratorAction::Skip));
    let data = ZlfRecord::Data(DataFrame {
        timestamp: 1,
        ch_and_speed: 0x20,
        region: 0,
        rssi: -99,
        mpdu: vec![1],
    });
    assert!(matches!(generator.action_for(data), GeneratorAction::Skip));
}

#[test]
fn proxy_protocol_of_a_text() {
    assert_eq!(ProxyProtocol::parse("pti"), Ok(ProxyProtocol::Pti));
    assert_eq!(ProxyProtocol::parse("PTI"), Ok(ProxyProtocol::Pti));
    assert_eq!(ProxyProtocol::parse("Zniff-RS"), Ok(ProxyProtocol::ZniffRs));
    assert_eq!("zniff-rs".parse::<ProxyProtocol>(), Ok(ProxyProtocol::ZniffRs));
    assert_eq!(ProxyProtocol::parse("zniff_rs"), Err(ParseProxyProtocolError));
    assert_eq!(ProxyProtocol::parse(""), Err(ParseProxyProtocolError));
    assert_eq!(ProxyProtocol::parse(" pti"), Err(ParseProxyProtocolError));
    assert_eq!(ProxyProtocol::parse("p\u{0442}i"), Err(ParseProxyProtocolError));
    assert_eq!(ProxyProtocol::Pti.name(), "pti");
    assert_eq!(ProxyProtocol::ZniffRs.name(), "zniff-rs");
    assert_eq!(ParseProxyProtocolError.message(), "invalid proxy protocol");
    assert_eq!(DEFAULT_PTI_PORT, 4905);
}

#[test]
fn writer_writes_the_version() {
    let writer = ZlfWriter::new(vec![]);
    assert_eq!(writer.ok().map(|w| w.into_bytes()), Some(vec![104]));
    let writer = ZlfWriter::new(vec![1, 2]);
    assert_eq!(writer.ok().map(|w| w.into_bytes()), Some(vec![1, 2, 104]));
}
