//! Coordinates in degrees-decimal-minutes wire form, converted to signed
//! decimal degrees held exactly as a fixed-point integer.

use vstd::prelude::*;
use crate::text::{dec_e4, is_dec_string, parse_dec_e4};
use crate::packet::DecodeError;

verus! {

/// A decimal-degree coordinate equals `scaled` / [`COORD_SCALE`].
///
/// The scale is sixty times ten thousand, so a wire value with four
/// fractional minute digits converts without rounding.
pub const COORD_SCALE: i64 = 600000;

/// The largest wire value accepted, scaled by ten thousand: one million
/// whole degree-minute units, far beyond any real bearing.
pub const MAX_COORD_E4: u64 = 10_000_000_000;

/// A signed decimal-degree coordinate: `scaled` counts
/// [`COORD_SCALE`]-ths of a degree.
#[derive(Clone, Copy, Debug, PartialEq, Eq, Structural)]
pub struct Coordinate {
    pub scaled: i64,
}

/// A latitude and a longitude.
#[derive(Clone, Copy, Debug, PartialEq, Eq, Structural)]
pub struct Position {
    pub latitude: Coordinate,
    pub longitude: Coordinate,
}

/// The hemisphere letters that negate a coordinate.
pub open spec fn is_south_west(d: Seq<char>) -> bool {
    d =~= seq!['S'] || d =~= seq!['W']
}

/// Decimal degrees scaled by [`COORD_SCALE`], from a degrees-decimal-minutes
/// value scaled by ten thousand: the leading digits above the two minute
/// digits are whole degrees, the rest are minutes converted at sixty per
/// degree.
pub open spec fn scaled_degrees_of_e4(v: int) -> int {
    let degrees = v / 1000000;
    let minutes_e4 = v % 1000000;
    degrees * 600000 + minutes_e4
}

/// What [`coord`] returns: the magnitude from the digits, negated when the
/// hemisphere letter is `S` or `W`, or nothing when the digits do not form a
/// decimal number in range.
pub open spec fn spec_coord(coord_str: Seq<char>, direction: Seq<char>) -> Option<int> {
    if is_dec_string(coord_str) && dec_e4(coord_str) <= MAX_COORD_E4 {
        let m = scaled_degrees_of_e4(dec_e4(coord_str));
        if is_south_west(direction) {
            Some(-m)
        } else {
            Some(m)
        }
    } else {
        None
    }
}

/// A decoded coordinate magnitude is non-negative and within the scale cap.
pub proof fn lemma_coord_magnitude_bounds(v: int)
    requires
        0 <= v <= MAX_COORD_E4,
    ensures
        0 <= scaled_degrees_of_e4(v) <= 6_001_000_000,
{
    vstd::arithmetic::div_mod::lemma_fundamental_div_mod(v, 1000000);
    vstd::arithmetic::div_mod::lemma_div_is_ordered(v, MAX_COORD_E4 as int, 1000000);
    vstd::arithmetic::div_mod::lemma_div_pos_is_pos(v, 1000000);
    vstd::arithmetic::div_mod::lemma_mod_bound(v, 1000000);
    vstd::arithmetic::mul::lemma_mul_inequality(v / 1000000, 10000, 600000);
    vstd::arithmetic::mul::lemma_mul_inequality(0, v / 1000000, 600000);
}

/// Hemisphere `S` or `W` negates the coordinate a positive hemisphere
/// yields, field for field; a positive-hemisphere coordinate is never
/// negative.
pub proof fn lemma_hemisphere_negates(
    coord_str: Seq<char>,
    pos_dir: Seq<char>,
    neg_dir: Seq<char>,
)
    requires
        !is_south_west(pos_dir),
        is_south_west(neg_dir),
    ensures
        spec_coord(coord_str, neg_dir) == match spec_coord(coord_str, pos_dir) {
            Some(m) => Some(-m),
            None => None::<int>,
        },
        spec_coord(coord_str, pos_dir) matches Some(m) ==> m >= 0,
{
    if is_dec_string(coord_str) && dec_e4(coord_str) <= MAX_COORD_E4 {
        crate::text::lemma_dec_e4_nonneg(coord_str);
        lemma_coord_magnitude_bounds(dec_e4(coord_str));
    }
}

/// Converts one wire coordinate, exactly as [`spec_coord`] states.
pub fn coord(coord_str: &str, direction: &str) -> (r: Option<Coordinate>)
    ensures
        r matches Some(c) ==> spec_coord(coord_str@, direction@) == Some(c.scaled as int),
        r is None <==> spec_coord(coord_str@, direction@) is None,
{
    let v = match parse_dec_e4(coord_str, MAX_COORD_E4) {
        Some(v) => v,
        None => {
            return None;
        },
    };
    proof {
        crate::text::lemma_dec_e4_nonneg(coord_str@);
        lemma_coord_magnitude_bounds(v as int);
    }
    let degrees = v / 1000000;
    let minutes_e4 = v % 1000000;
    let magnitude = (degrees * 600000 + minutes_e4) as i64;
    let scaled = if is_south_west_exec(direction) {
        -magnitude
    } else {
        magnitude
    };
    Some(Coordinate { scaled })
}

/// Whether the hemisphere field is the single letter `S` or `W`.
fn is_south_west_exec(direction: &str) -> (r: bool)
    ensures
        r == is_south_west(direction@),
{
    if direction.unicode_len() != 1 {
        proof {
            assert(direction@ !~= seq!['S']);
            assert(direction@ !~= seq!['W']);
        }
        return false;
    }
    let c = direction.get_char(0);
    proof {
        if c == 'S' {
            assert(direction@ =~= seq!['S']);
        } else if c == 'W' {
            assert(direction@ =~= seq!['W']);
        } else {
            assert(direction@ !~= seq!['S']);
            assert(direction@ !~= seq!['W']);
        }
    }
    c == 'S' || c == 'W'
}

/// Converts the two wire coordinates of one reading into a [`Position`]:
/// a bad latitude is reported first, then a bad longitude.
pub fn coords(
    latitude: &str,
    latitude_symbol: &str,
    longitude: &str,
    longitude_symbol: &str,
) -> (r: Result<Position, DecodeError>)
    ensures
        r matches Ok(p) ==> {
            &&& spec_coord(latitude@, latitude_symbol@) == Some(p.latitude.scaled as int)
            &&& spec_coord(longitude@, longitude_symbol@) == Some(p.longitude.scaled as int)
        },
        r == Err::<Position, DecodeError>(DecodeError::InvalidLatitude) <==> spec_coord(
            latitude@,
            latitude_symbol@,
        ) is None,
        r == Err::<Position, DecodeError>(DecodeError::InvalidLongitude) <==> (spec_coord(
            latitude@,
            latitude_symbol@,
        ) is Some && spec_coord(longitude@, longitude_symbol@) is None),
        r matches Err(e) ==> (e == DecodeError::InvalidLatitude || e
            == DecodeError::InvalidLongitude),
{
    let lat = match coord(latitude, latitude_symbol) {
        Some(c) => c,
        None => {
            return Err(DecodeError::InvalidLatitude);
        },
    };
    let lon = match coord(longitude, longitude_symbol) {
        Some(c) => c,
        None => {
            return Err(DecodeError::InvalidLongitude);
        },
    };
    Ok(Position { latitude: lat, longitude: lon })
}

} // verus!
