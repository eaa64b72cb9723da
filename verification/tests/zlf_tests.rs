use zniff_rs::zlf::{ApiType, FrameType, UnknownFrameType, ZlfError, ZlfReader, ZlfRecord};

/// CRC-16/AUG-CCITT, bit by bit: polynomial 0x1021, initial value 0x1D0F.
fn aug_ccitt(data: &[u8]) -> u16 {
    let mut crc: u16 = 0x1D0F;
    for byte in data {
        crc ^= (*byte as u16) << 8;
        for _ in 0..8 {
            crc = if crc & 0x8000 != 0 { (crc << 1) ^ 0x1021 } else { crc << 1 };
        }
    }
    crc
}

fn preamble(version: u32) -> Vec<u8> {
    let mut bytes = vec![0u8; 2048];
    bytes[..4].copy_from_slice(&version.to_le_bytes());
    bytes[4..8].copy_from_slice(&[0xE9, 0xFD, 0x00, 0x00]);
    bytes[8..17].copy_from_slice(b"123456789");
    let crc = aug_ccitt(&bytes[..2046]);
    bytes[2046..].copy_from_slice(&crc.to_le_bytes());
    bytes
}

fn record(timestamp: u64, properties: u8, payload: &[u8], api_type: u8) -> Vec<u8> {
    let mut bytes = timestamp.to_le_bytes().to_vec();
    bytes.push(properties);
    bytes.extend_from_slice(&(payload.len() as u32).to_le_bytes());
    bytes.extend_from_slice(payload);
    bytes.push(api_type);
    bytes
}

fn raw(record: Option<ZlfRecord>) -> (u64, u8, ApiType, Vec<u8>) {
    match record {
        Some(ZlfRecord::Other(raw)) => (raw.timestamp, raw.properties, raw.api_type, raw.payload),
        other => panic!("Expected a raw record, got {:?}", other),
    }
}

#[test]
fn checksum_of_the_check_string() {
    assert_eq!(aug_ccitt(b"123456789"), 0xE5CC);
}

#[test]
fn opens_a_file_with_a_valid_preamble() {
    let reader = ZlfReader::new(preamble(104));
    assert!(reader.is_ok());
    let mut reader = reader.unwrap();
    assert_eq!(reader.encoding(), 0x0000_FDE9);
    assert_eq!(reader.frame_count(), 0);
    assert!(matches!(reader.next(), Ok(None)));
    assert_eq!(reader.frame_count(), 0);
}

#[test]
fn preamble_with_a_wrong_checksum_is_invalid() {
    let mut bytes = preamble(104);
    assert_eq!(&bytes[..4], &[0x68, 0x00, 0x00, 0x00]);
    bytes[2046] ^= 0x01;
    assert_eq!(ZlfReader::new(bytes).err(), Some(ZlfError::InvalidPreamble));
    let mut bytes = preamble(104);
    bytes[100] = 0x55;
    assert_eq!(ZlfReader::new(bytes).err(), Some(ZlfError::InvalidPreamble));
    let mut bytes = preamble(104);
    bytes[2046] = 0x23;
    bytes[2047] = 0x12;
    assert_eq!(ZlfReader::new(bytes).err(), Some(ZlfError::InvalidPreamble));
}

#[test]
fn stored_checksum_is_that_of_the_first_2046_bytes() {
    for version in [104u32, 1, 0xFFFF_FFFF] {
        let bytes = preamble(version);
        let stored = u16::from_le_bytes([bytes[2046], bytes[2047]]);
        assert_eq!(stored, aug_ccitt(&bytes[..2046]));
        match ZlfReader::new(bytes) {
            Ok(_) => assert_eq!(version, 104),
            Err(e) => assert_eq!(e, ZlfError::InvalidZlfVersion(version)),
        }
    }
}

#[test]
fn checksum_is_judged_before_the_version() {
    let mut bytes = preamble(105);
    bytes[2047] ^= 0x80;
    assert_eq!(ZlfReader::new(bytes).err(), Some(ZlfError::InvalidPreamble));
}

#[test]
fn short_file_ends_early() {
    assert_eq!(ZlfReader::new(vec![]).err(), Some(ZlfError::UnexpectedEof));
    let mut bytes = preamble(104);
    bytes.pop();
    assert_eq!(ZlfReader::new(bytes).err(), Some(ZlfError::UnexpectedEof));
}

#[test]
fn reads_records_in_order() {
    let mut bytes = preamble(104);
    bytes.extend(record(0x0102_0304_0506_0708, 0x81, &[0x21, 0x01, 0x6D], 0xFE));
    bytes.extend(record(u64::MAX, 0x00, &[], 0xF5));
    bytes.extend(record(7, 0x01, &[0xAA; 300], 0xF5));
    let mut reader = ZlfReader::new(bytes).unwrap();
    assert_eq!(
        raw(reader.next().unwrap()),
        (0x0102_0304_0506_0708, 0x81, ApiType::Zniffer, vec![0x21, 0x01, 0x6D])
    );
    assert_eq!(reader.frame_count(), 1);
    assert_eq!(raw(reader.next().unwrap()), (u64::MAX, 0x00, ApiType::Pti, vec![]));
    assert_eq!(reader.frame_count(), 2);
    assert_eq!(raw(reader.next().unwrap()), (7, 0x01, ApiType::Pti, vec![0xAA; 300]));
    assert_eq!(reader.frame_count(), 3);
    assert!(matches!(reader.next(), Ok(None)));
    assert!(matches!(reader.next(), Ok(None)));
    assert_eq!(reader.frame_count(), 3);
}

#[test]
fn unknown_api_type_is_invalid() {
    let mut bytes = preamble(104);
    bytes.extend(record(1, 0, &[0x01, 0x02], 0xFE));
    bytes.extend(record(2, 0, &[0x01, 0x02], 0x00));
    let mut reader = ZlfReader::new(bytes).unwrap();
    assert!(matches!(reader.next(), Ok(Some(_))));
    assert_eq!(reader.next().err(), Some(ZlfError::InvalidApiType(0x00)));
    assert_eq!(reader.next().err(), Some(ZlfError::InvalidApiType(0x00)));
    assert_eq!(reader.frame_count(), 1);
}

#[test]
fn truncated_record_ends_early() {
    let whole = record(0x1122, 0x81, &[0x01, 0x02, 0x03], 0xF5);
    for cut in 1..whole.len() {
        let mut bytes = preamble(104);
        bytes.extend_from_slice(&whole[..cut]);
        let mut reader = ZlfReader::new(bytes).unwrap();
        assert_eq!(reader.next().err(), Some(ZlfError::UnexpectedEof));
        assert_eq!(reader.frame_count(), 0);
    }
}

#[test]
fn reads_all_records_at_once() {
    let mut bytes = preamble(104);
    bytes.extend(record(1, 0x81, &[0x21, 0x01], 0xFE));
    bytes.extend(record(2, 0x00, &[0x5B], 0xF5));
    bytes.extend(record(3, 0x00, &[], 0xF5));
    let mut reader = ZlfReader::new(bytes.clone()).unwrap();
    let (records, error) = reader.read_all();
    assert_eq!(error, None);
    let found: Vec<(u64, Vec<u8>)> =
        records.iter().map(|r| (r.timestamp, r.payload.clone())).collect();
    assert_eq!(found, vec![(1, vec![0x21, 0x01]), (2, vec![0x5B]), (3, vec![])]);
    assert_eq!(reader.frame_count(), 3);
    assert!(matches!(reader.next(), Ok(None)));
    // Records behind one that was read by hand.
    let mut reader = ZlfReader::new(bytes.clone()).unwrap();
    assert!(matches!(reader.next(), Ok(Some(_))));
    let (records, error) = reader.read_all();
    assert_eq!(error, None);
    assert_eq!(records.len(), 2);
    assert_eq!(records[0].timestamp, 2);
    // A record that cannot be read ends the reading.
    bytes.extend(record(4, 0x00, &[0x01], 0x10));
    bytes.extend(record(5, 0x00, &[0x01], 0xF5));
    let mut reader = ZlfReader::new(bytes).unwrap();
    let (records, error) = reader.read_all();
    assert_eq!(records.len(), 3);
    assert_eq!(error, Some(ZlfError::InvalidApiType(0x10)));
    assert_eq!(reader.frame_count(), 3);
    let (records, error) = reader.read_all();
    assert_eq!(records.len(), 0);
    assert_eq!(error, Some(ZlfError::InvalidApiType(0x10)));
}

#[test]
fn api_type_of_a_byte() {
    assert_eq!(ApiType::from(0xF5), ApiType::Pti);
    assert_eq!(ApiType::from(0xFE), ApiType::Zniffer);
    assert_eq!(ApiType::from(0x00), ApiType::Unknown(0x00));
    assert_eq!(ApiType::from(0xFF), ApiType::Unknown(0xFF));
}

#[test]
fn frame_type_of_a_byte() {
    assert_eq!(FrameType::try_from(0x00), Ok(FrameType::Command));
    assert_eq!(FrameType::try_from(0x01), Ok(FrameType::Data));
    assert_eq!(FrameType::try_from(0x02), Ok(FrameType::Beam));
    assert_eq!(FrameType::try_from(0x03), Err(UnknownFrameType));
    assert_eq!(FrameType::try_from(0x04), Ok(FrameType::BeamStart));
    assert_eq!(FrameType::try_from(0x05), Ok(FrameType::BeamStop));
    assert_eq!(FrameType::try_from(0x06), Err(UnknownFrameType));
}
