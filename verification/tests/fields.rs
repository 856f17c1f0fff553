//! Unit checks of the single-field readers.

use hq_tracker::coord::{coord, coords};
use hq_tracker::packet::{battery, nullable, speed_kmh, DecodeError};
use hq_tracker::timestamp::{days_in_month, timestamp, Timestamp};

#[test]
fn nullable_reads_null_as_zero() {
    assert_eq!(nullable("null"), Some(0));
    assert_eq!(nullable("271"), Some(271));
    assert_eq!(nullable("0"), Some(0));
    assert_eq!(nullable(""), None);
    assert_eq!(nullable("12a"), None);
    assert_eq!(nullable("65535"), Some(65535));
    assert_eq!(nullable("65536"), None);
}

#[test]
fn battery_caps_at_one_hundred() {
    assert_eq!(battery("99"), Some(99));
    assert_eq!(battery("100"), Some(100));
    assert_eq!(battery("101"), None);
    assert_eq!(battery("150"), None);
    assert_eq!(battery("abc"), None);
    assert_eq!(battery(""), None);
}

#[test]
fn speed_converts_knots_to_kmh_exactly() {
    // 10 knots -> 18.52 km/h
    assert_eq!(speed_kmh("10").unwrap().kmh_millionths, 18_520_000);
    // 1.5 knots -> 2.778 km/h
    assert_eq!(speed_kmh("1.5").unwrap().kmh_millionths, 2_778_000);
    assert_eq!(speed_kmh("null").unwrap().kmh_millionths, 0);
    assert_eq!(speed_kmh("0").unwrap().kmh_millionths, 0);
    assert!(speed_kmh("fast").is_none());
    assert!(speed_kmh("").is_none());
}

#[test]
fn coord_converts_degree_minutes() {
    // 3754.0000 -> 37 degrees + 54/60 = 37.9 degrees
    assert_eq!(coord("3754.0000", "N").unwrap().scaled, 22_740_000);
    assert_eq!(coord("3754.0000", "S").unwrap().scaled, -22_740_000);
    assert_eq!(coord("3754", "N").unwrap().scaled, 22_740_000);
    // 14529.0000 -> 145 degrees + 29/60
    assert_eq!(coord("14529.0000", "E").unwrap().scaled, 87_290_000);
    assert_eq!(coord("14529.0000", "W").unwrap().scaled, -87_290_000);
    // an unknown hemisphere letter leaves the value positive
    assert_eq!(coord("3754.0000", "Q").unwrap().scaled, 22_740_000);
    // fractional minutes stay exact: 0.5 minutes = 1/120 degree = 5000 scaled
    assert_eq!(coord("0000.5000", "N").unwrap().scaled, 5_000);
    assert!(coord("", "N").is_none());
    assert!(coord("37.54.0", "N").is_none());
    assert!(coord("north", "N").is_none());
}

#[test]
fn coords_pairs_latitude_and_longitude() {
    let p = coords("3754.0000", "S", "14529.0000", "E").unwrap();
    assert_eq!(p.latitude.scaled, -22_740_000);
    assert_eq!(p.longitude.scaled, 87_290_000);
    assert_eq!(
        coords("bad", "N", "14529.0000", "E"),
        Err(DecodeError::InvalidLatitude)
    );
    assert_eq!(
        coords("3754.0000", "N", "bad", "E"),
        Err(DecodeError::InvalidLongitude)
    );
}

#[test]
fn timestamp_reads_ddmmyy_hhmmss() {
    assert_eq!(
        timestamp("311299", "235959"),
        Ok(Timestamp { year: 2099, month: 12, day: 31, hour: 23, minute: 59, second: 59 })
    );
    assert_eq!(timestamp("000124", "120000"), Err(DecodeError::InvalidDate));
    assert_eq!(timestamp("320124", "120000"), Err(DecodeError::InvalidDate));
    assert_eq!(timestamp("010124", "126000"), Err(DecodeError::InvalidTime));
    assert_eq!(timestamp("010124", "120060"), Err(DecodeError::InvalidTime));
    assert_eq!(timestamp("01012", "120000"), Err(DecodeError::InvalidDate));
    assert_eq!(timestamp("010124", "12000"), Err(DecodeError::InvalidTime));
    assert_eq!(timestamp("0a0124", "120000"), Err(DecodeError::InvalidDate));
}

#[test]
fn month_lengths_follow_the_calendar() {
    assert_eq!(days_in_month(2024, 2), 29);
    assert_eq!(days_in_month(2023, 2), 28);
    assert_eq!(days_in_month(2000, 2), 29);
    assert_eq!(days_in_month(2100, 2), 28);
    assert_eq!(days_in_month(2024, 4), 30);
    assert_eq!(days_in_month(2024, 12), 31);
}
