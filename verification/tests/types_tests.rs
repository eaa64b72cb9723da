use zniff_rs::types::{Frame, Region, UnknownRegion};

const REGIONS: [Region; 12] = [
    Region::EU,
    Region::US,
    Region::ANZ,
    Region::HK,
    Region::IN,
    Region::IL,
    Region::RU,
    Region::CN,
    Region::USLR,
    Region::EULR,
    Region::JP,
    Region::KR,
];

#[test]
fn native_codes() {
    let codes: Vec<u8> = REGIONS.iter().map(|r| r.to_native()).collect();
    assert_eq!(codes, vec![0, 1, 2, 3, 5, 6, 7, 8, 9, 11, 32, 33]);
}

#[test]
fn pti_codes() {
    let codes: Vec<u8> = REGIONS.iter().map(|r| r.to_pti()).collect();
    assert_eq!(codes, vec![1, 2, 3, 4, 5, 9, 8, 11, 12, 15, 7, 10]);
}

#[test]
fn region_conversion_is_a_round_trip() {
    for region in REGIONS {
        assert_eq!(Region::from_native(region.to_native()), Some(region));
        assert_eq!(Region::from_pti(region.to_pti()), Some(region));
        let through_pti = Region::from_pti(Region::from_native(region.to_native()).unwrap().to_pti());
        assert_eq!(through_pti.map(|r| r.to_native()), Some(region.to_native()));
    }
}

#[test]
fn unknown_codes_stand_for_no_region() {
    let native: Vec<u8> = (0..=255u8).filter(|c| Region::from_native(*c).is_some()).collect();
    assert_eq!(native, vec![0, 1, 2, 3, 5, 6, 7, 8, 9, 11, 32, 33]);
    let pti: Vec<u8> = (0..=255u8).filter(|c| Region::from_pti(*c).is_some()).collect();
    assert_eq!(pti, vec![1, 2, 3, 4, 5, 7, 8, 9, 10, 11, 12, 15]);
    assert_eq!(Region::from_pti(13), None);
    assert_eq!(Region::from_pti(14), None);
}

#[test]
fn default_frame_is_empty() {
    let frame = Frame::default();
    assert_eq!(
        frame,
        Frame { region: Region::EU, channel: 0, speed: 0, timestamp: 0, rssi: 0, payload: vec![] }
    );
    assert_eq!(Region::default(), Region::EU);
}

#[test]
fn region_of_a_native_code() {
    assert_eq!(Region::try_from(0), Ok(Region::EU));
    assert_eq!(Region::try_from(9), Ok(Region::USLR));
    assert_eq!(Region::try_from(33), Ok(Region::KR));
    assert_eq!(Region::try_from(4), Err(UnknownRegion(4)));
    assert_eq!(Region::try_from(10), Err(UnknownRegion(10)));
    assert_eq!(Region::try_from(255), Err(UnknownRegion(255)));
}

#[test]
fn region_of_a_token() {
    let tokens = ["eu", "us", "anz", "hk", "in", "il", "ru", "cn", "uslr", "eulr", "jp", "kr"];
    for (token, region) in tokens.iter().zip(REGIONS) {
        assert_eq!(Region::from_token(token), Some(region));
        assert_eq!(Region::from_token(&token.to_uppercase()), Some(region));
    }
    assert_eq!(Region::from_token("UsLr"), Some(Region::USLR));
    assert_eq!(Region::from_token(""), None);
    assert_eq!(Region::from_token("e"), None);
    assert_eq!(Region::from_token("eu "), None);
    assert_eq!(Region::from_token("uslrback"), None);
    assert_eq!(Region::from_token("0"), None);
}
