use std::str::FromStr;
use ton_api_utility::models::{InvalidServiceId, ServiceId};

#[test]
fn parses_hyphenated_text() {
    let id = ServiceId::parse("a1a2a3a4-b1b2-c1c2-d1d2-d3d4d5d6d7d8").unwrap();
    assert_eq!(id.as_u128(), 0xa1a2a3a4b1b2c1c2d1d2d3d4d5d6d7d8);
    assert_eq!(id, ServiceId::new(0xa1a2a3a4b1b2c1c2d1d2d3d4d5d6d7d8));
}

#[test]
fn parses_simple_and_upper_case_text() {
    let id = ServiceId::parse("A1A2A3A4B1B2C1C2D1D2D3D4D5D6D7D8").unwrap();
    assert_eq!(id.as_u128(), 0xa1a2a3a4b1b2c1c2d1d2d3d4d5d6d7d8);
}

#[test]
fn refuses_text_that_is_no_uuid() {
    assert_eq!(ServiceId::parse(""), Err(InvalidServiceId));
    assert_eq!(ServiceId::parse("not-a-uuid"), Err(InvalidServiceId));
    assert_eq!(ServiceId::parse("a1a2a3a4-b1b2-c1c2-d1d2-d3d4d5d6d7"), Err(InvalidServiceId));
    assert_eq!(ServiceId::parse("g1a2a3a4-b1b2-c1c2-d1d2-d3d4d5d6d7d8"), Err(InvalidServiceId));
}

#[test]
fn writes_lower_case_hyphenated_text() {
    let id = ServiceId::new(0xA1A2A3A4B1B2C1C2D1D2D3D4D5D6D7D8);
    assert_eq!(id.to_hyphenated(), "a1a2a3a4-b1b2-c1c2-d1d2-d3d4d5d6d7d8");
    assert_eq!(ServiceId::new(1).to_hyphenated(), "00000000-0000-0000-0000-000000000001");
}

#[test]
fn text_reads_back() {
    for v in [0u128, 1, u128::MAX, 0x1234_5678_9abc_def0_0fed_cba9_8765_4321] {
        let id = ServiceId::new(v);
        assert_eq!(ServiceId::parse(&id.to_hyphenated()), Ok(id));
    }
}

#[test]
fn default_is_nil() {
    assert_eq!(ServiceId::default().as_u128(), 0);
    assert_eq!(ServiceId::default().to_hyphenated(), "00000000-0000-0000-0000-000000000000");
}

#[test]
fn from_str_agrees_with_parse() {
    assert_eq!(
        ServiceId::from_str("00000000-0000-0000-0000-00000000002a"),
        Ok(ServiceId::new(42))
    );
    assert_eq!(ServiceId::from_str("zz"), Err(InvalidServiceId));
}
