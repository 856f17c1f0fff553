//! End-to-end decoding of protocol messages.

use hq_tracker::packet::{DecodeError, Packet};
use hq_tracker::timestamp::Timestamp;

fn expect_v1(message: &str) -> (String, Timestamp, bool, (i64, i64), u64, u16, Option<u8>) {
    match Packet::from_message(message) {
        Ok(Packet::V1 { terminal_no, time, valid, position, speed, direction, battery }) => (
            terminal_no,
            time,
            valid,
            (position.latitude.scaled, position.longitude.scaled),
            speed.kmh_millionths,
            direction,
            battery,
        ),
        other => panic!("expected a V1 packet, got {:?}", other),
    }
}

#[test]
fn decodes_full_v1_message() {
    let (terminal, time, valid, (lat, lon), speed, direction, battery) =
        expect_v1("*HQ,123,V1,120000,A,3754.0000,N,14529.0000,E,10,null,010124,,,,,99#");
    assert_eq!(terminal, "123");
    assert_eq!(
        time,
        Timestamp { year: 2024, month: 1, day: 1, hour: 12, minute: 0, second: 0 }
    );
    assert!(valid);
    // 37 degrees 54 minutes = 37.9 degrees; 145 degrees 29 minutes = 145.48333...
    assert_eq!(lat, 22_740_000); // 37.9 * 600000
    assert_eq!(lon, 87_290_000); // 145.4833... * 600000
    assert_eq!(speed, 18_520_000); // 10 knots * 1.852 = 18.52 km/h
    assert_eq!(direction, 0);
    assert_eq!(battery, Some(99));
}

#[test]
fn hemisphere_south_west_negates() {
    let (_, _, _, (lat, lon), _, _, _) =
        expect_v1("*HQ,123,V1,120000,A,3754.0000,S,14529.0000,W,10,null,010124,,,,,99#");
    assert_eq!(lat, -22_740_000);
    assert_eq!(lon, -87_290_000);
}

#[test]
fn hemisphere_north_east_stays_positive() {
    let (_, _, _, (lat, lon), _, _, _) =
        expect_v1("*HQ,123,V1,120000,A,3754.0000,N,14529.0000,E,10,null,010124,,,,,99#");
    assert!(lat > 0);
    assert!(lon > 0);
}

#[test]
fn battery_over_hundred_is_absent() {
    let (_, _, _, _, _, _, battery) =
        expect_v1("*HQ,123,V1,120000,A,3754.0000,N,14529.0000,E,10,null,010124,,,,,150#");
    assert_eq!(battery, None);
}

#[test]
fn battery_unparsable_is_absent() {
    let (_, _, _, _, _, _, battery) =
        expect_v1("*HQ,123,V1,120000,A,3754.0000,N,14529.0000,E,10,null,010124,,,,,low#");
    assert_eq!(battery, None);
}

#[test]
fn null_speed_and_heading_decode_to_zero() {
    let (_, _, _, _, speed, direction, _) =
        expect_v1("*HQ,123,V1,120000,A,3754.0000,N,14529.0000,E,null,null,010124,,,,,99#");
    assert_eq!(speed, 0);
    assert_eq!(direction, 0);
}

#[test]
fn invalid_fix_flag_still_decodes() {
    let (_, _, valid, _, _, _, _) =
        expect_v1("*HQ,123,V1,120000,V,3754.0000,N,14529.0000,E,10,null,010124,,,,,99#");
    assert!(!valid);
}

#[test]
fn month_thirteen_is_a_decode_error() {
    let r = Packet::from_message(
        "*HQ,123,V1,120000,A,3754.0000,N,14529.0000,E,10,null,011324,,,,,99#",
    );
    assert_eq!(
        match r {
            Err(e) => Some(e),
            Ok(_) => None,
        },
        Some(DecodeError::InvalidDate)
    );
}

#[test]
fn hour_twenty_four_is_a_decode_error() {
    let r = Packet::from_message(
        "*HQ,123,V1,240000,A,3754.0000,N,14529.0000,E,10,null,010124,,,,,99#",
    );
    assert!(matches!(r, Err(DecodeError::InvalidTime)));
}

#[test]
fn leap_day_is_accepted_only_in_leap_years() {
    let ok = Packet::from_message(
        "*HQ,123,V1,120000,A,3754.0000,N,14529.0000,E,10,null,290224,,,,,99#",
    );
    assert!(matches!(ok, Ok(Packet::V1 { .. })));
    let bad = Packet::from_message(
        "*HQ,123,V1,120000,A,3754.0000,N,14529.0000,E,10,null,290223,,,,,99#",
    );
    assert!(matches!(bad, Err(DecodeError::InvalidDate)));
}

#[test]
fn bad_latitude_and_longitude_are_reported_in_order() {
    let bad_lat = Packet::from_message(
        "*HQ,123,V1,120000,A,north,N,14529.0000,E,10,null,010124,,,,,99#",
    );
    assert!(matches!(bad_lat, Err(DecodeError::InvalidLatitude)));
    let bad_lon = Packet::from_message(
        "*HQ,123,V1,120000,A,3754.0000,N,east,E,10,null,010124,,,,,99#",
    );
    assert!(matches!(bad_lon, Err(DecodeError::InvalidLongitude)));
}

#[test]
fn bad_speed_and_heading_are_decode_errors() {
    let bad_speed = Packet::from_message(
        "*HQ,123,V1,120000,A,3754.0000,N,14529.0000,E,fast,null,010124,,,,,99#",
    );
    assert!(matches!(bad_speed, Err(DecodeError::InvalidSpeed)));
    let bad_heading = Packet::from_message(
        "*HQ,123,V1,120000,A,3754.0000,N,14529.0000,E,10,west,010124,,,,,99#",
    );
    assert!(matches!(bad_heading, Err(DecodeError::InvalidDirection)));
}

#[test]
fn missing_terminator_is_refused() {
    let r = Packet::from_message("*HQ,123,V1");
    assert!(matches!(r, Err(DecodeError::MissingTerminator)));
}

#[test]
fn too_few_fields_is_refused() {
    assert!(matches!(
        Packet::from_message("hello#"),
        Err(DecodeError::TooFewFields)
    ));
    assert!(matches!(
        Packet::from_message("a,b#"),
        Err(DecodeError::TooFewFields)
    ));
}

#[test]
fn unrecognized_shape_is_unknown_not_error() {
    match Packet::from_message("*HQ,123,V2,120000,A#") {
        Ok(Packet::Unknown(text)) => assert_eq!(text, "*HQ,123,V2,120000,A"),
        other => panic!("expected Unknown, got {:?}", other),
    }
    // the right tokens but too few fields for the recognized arity
    match Packet::from_message("*HQ,123,V1,120000,A#") {
        Ok(Packet::Unknown(text)) => assert_eq!(text, "*HQ,123,V1,120000,A"),
        other => panic!("expected Unknown, got {:?}", other),
    }
}

#[test]
fn trailing_hashes_are_all_trimmed() {
    match Packet::from_message("x,y,z###") {
        Ok(Packet::Unknown(text)) => assert_eq!(text, "x,y,z"),
        other => panic!("expected Unknown, got {:?}", other),
    }
}
