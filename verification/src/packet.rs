//! The protocol message grammar: a typed reading decoded from one frame.
//!
//! One shape is recognized: a `*HQ` header, a terminal identifier, a `V1`
//! version token, then time, validity, latitude and hemisphere, longitude
//! and hemisphere, speed, heading and date in fixed positions, a tolerated
//! variable middle, and a battery field last.  Every other shape decodes to
//! [`Packet::Unknown`], a normal outcome rather than an error.

use vstd::prelude::*;
use crate::coord::{coords, spec_coord, Coordinate, Position};
use crate::text::{
    all_digits, dec_e3, digits_val, is_dec_string, parse_dec_e3, parse_digits, spec_split,
    spec_trim_hashes, split_commas, str_eq, lemma_trim_hashes_take,
};
use crate::timestamp::{spec_timestamp, timestamp, Timestamp};

verus! {

/// Why a frame that matched the recognized shape still failed to decode.
#[derive(Clone, Copy, Debug, PartialEq, Eq, Structural)]
pub enum DecodeError {
    /// The message does not end with the `'#'` terminator.
    MissingTerminator,
    /// Fewer than three comma-separated fields.
    TooFewFields,
    /// The date field is not six digits or names no real calendar day.
    InvalidDate,
    /// The time field is not six digits or names no real time of day.
    InvalidTime,
    /// The latitude field is not a decimal number in range.
    InvalidLatitude,
    /// The longitude field is not a decimal number in range.
    InvalidLongitude,
    /// The speed field is neither `"null"` nor a decimal number in range.
    InvalidSpeed,
    /// The heading field is neither `"null"` nor a number up to `u16::MAX`.
    InvalidDirection,
}

/// The largest speed accepted from the wire, in thousandths of a knot.
pub const MAX_SPEED_E3: u64 = 1_000_000_000;

/// A ground speed: `kmh_millionths` counts millionths of a kilometre per
/// hour, so a wire value in thousandths of a knot converts by the exact
/// factor 1852/1000 without rounding.
#[derive(Clone, Copy, Debug, PartialEq, Eq, Structural)]
pub struct Speed {
    pub kmh_millionths: u64,
}

/// One decoded protocol message.
#[derive(Debug)]
pub enum Packet {
    /// A recognized position report.
    V1 {
        /// The reporting terminal's identifier, as sent.
        terminal_no: String,
        /// The naive date-time of the fix.
        time: Timestamp,
        /// The device's own fix-validity flag: the token `A` means valid.
        valid: bool,
        /// Latitude and longitude in signed decimal degrees.
        position: Position,
        /// Ground speed converted from knots to km/h.
        speed: Speed,
        /// Heading in degrees.
        direction: u16,
        /// Battery percent, absent when unparsable or above one hundred.
        battery: Option<u8>,
    },
    /// A frame of another shape, carried through untouched.
    Unknown(String),
}

/// The mathematical image of a [`Packet`]: text fields become character
/// sequences.
pub enum PacketModel {
    V1 {
        terminal_no: Seq<char>,
        time: Timestamp,
        valid: bool,
        position: Position,
        speed: Speed,
        direction: u16,
        battery: Option<u8>,
    },
    Unknown(Seq<char>),
}

impl View for Packet {
    type V = PacketModel;

    open spec fn view(&self) -> PacketModel {
        match self {
            Packet::V1 { terminal_no, time, valid, position, speed, direction, battery } => {
                PacketModel::V1 {
                    terminal_no: terminal_no@,
                    time: *time,
                    valid: *valid,
                    position: *position,
                    speed: *speed,
                    direction: *direction,
                    battery: *battery,
                }
            },
            Packet::Unknown(s) => PacketModel::Unknown(s@),
        }
    }
}

/// What [`nullable`] returns: zero for the literal `"null"`, else the digits
/// read as a number no larger than `u16::MAX`.
pub open spec fn spec_nullable(s: Seq<char>) -> Option<u16> {
    if s == "null"@ {
        Some(0u16)
    } else if s.len() > 0 && all_digits(s) && digits_val(s) <= u16::MAX {
        Some(digits_val(s) as u16)
    } else {
        None
    }
}

/// Reads a field where the device may send the literal `"null"` for zero,
/// exactly as [`spec_nullable`] states.
pub fn nullable(value: &str) -> (r: Option<u16>)
    ensures
        r == spec_nullable(value@),
{
    if str_eq(value, "null") {
        return Some(0);
    }
    match parse_digits(value) {
        Some(v) if v <= 0xFFFF => Some(v as u16),
        _ => None,
    }
}

/// What [`speed_kmh`] returns: zero for the literal `"null"`, else the
/// decimal knots value scaled by the exact factor 1852/1000 into millionths
/// of a km/h.
pub open spec fn spec_speed(s: Seq<char>) -> Option<int> {
    if s == "null"@ {
        Some(0int)
    } else if is_dec_string(s) && dec_e3(s) <= MAX_SPEED_E3 {
        Some(dec_e3(s) * 1852)
    } else {
        None
    }
}

/// Converts a wire speed field from knots to km/h, exactly as
/// [`spec_speed`] states.
pub fn speed_kmh(value: &str) -> (r: Option<Speed>)
    ensures
        r matches Some(sp) ==> spec_speed(value@) == Some(sp.kmh_millionths as int),
        r is None <==> spec_speed(value@) is None,
{
    if str_eq(value, "null") {
        return Some(Speed { kmh_millionths: 0 });
    }
    match parse_dec_e3(value, MAX_SPEED_E3) {
        Some(v) => {
            proof {
                crate::text::lemma_dec_e3_nonneg(value@);
            }
            Some(Speed { kmh_millionths: v * 1852 })
        },
        None => None,
    }
}

/// What [`battery`] returns: a percentage up to one hundred, absent for
/// anything else.
pub open spec fn spec_battery(s: Seq<char>) -> Option<u8> {
    if s.len() > 0 && all_digits(s) && digits_val(s) <= 100 {
        Some(digits_val(s) as u8)
    } else {
        None
    }
}

/// Reads the battery field; a value that does not parse or exceeds one
/// hundred is deliberately absent, never an error.
pub fn battery(value: &str) -> (r: Option<u8>)
    ensures
        r == spec_battery(value@),
{
    match parse_digits(value) {
        Some(v) if v <= 100 => Some(v as u8),
        _ => None,
    }
}

/// The recognized field layout: a `*HQ` header, a terminal identifier, a
/// `V1` version token, and at least thirteen fields in all.
pub open spec fn is_v1_shape(parts: Seq<Seq<char>>) -> bool {
    &&& parts.len() >= 13
    &&& parts[0] == "*HQ"@
    &&& parts[2] == "V1"@
}

/// The reading a recognized field list decodes to, or the first field error:
/// the timestamp is checked first, then latitude, longitude, speed and
/// heading; validity and battery cannot fail.
pub open spec fn spec_v1_fields(parts: Seq<Seq<char>>) -> Result<PacketModel, DecodeError> {
    match spec_timestamp(parts[11], parts[3]) {
        Err(e) => Err(e),
        Ok(time) => match spec_coord(parts[5], parts[6]) {
            None => Err(DecodeError::InvalidLatitude),
            Some(lat) => match spec_coord(parts[7], parts[8]) {
                None => Err(DecodeError::InvalidLongitude),
                Some(lon) => match spec_speed(parts[9]) {
                    None => Err(DecodeError::InvalidSpeed),
                    Some(sp) => match spec_nullable(parts[10]) {
                        None => Err(DecodeError::InvalidDirection),
                        Some(direction) => Ok(PacketModel::V1 {
                            terminal_no: parts[1],
                            time,
                            valid: parts[4] == "A"@,
                            position: Position {
                                latitude: Coordinate { scaled: lat as i64 },
                                longitude: Coordinate { scaled: lon as i64 },
                            },
                            speed: Speed { kmh_millionths: sp as u64 },
                            direction,
                            battery: spec_battery(parts.last()),
                        }),
                    },
                },
            },
        },
    }
}

/// What [`Packet::from_message`] returns for any message text.
///
/// A message not ending in `'#'` is refused; the text with its trailing
/// hashes trimmed is split at commas; fewer than three fields is refused;
/// any shape but the recognized one decodes to `Unknown` carrying the
/// trimmed text; the recognized shape decodes field by field.
pub open spec fn spec_from_message(s: Seq<char>) -> Result<PacketModel, DecodeError> {
    if !(s.len() > 0 && s.last() == '#') {
        Err(DecodeError::MissingTerminator)
    } else {
        let trimmed = spec_trim_hashes(s);
        let parts = spec_split(trimmed);
        if parts.len() < 3 {
            Err(DecodeError::TooFewFields)
        } else if !is_v1_shape(parts) {
            Ok(PacketModel::Unknown(trimmed))
        } else {
            spec_v1_fields(parts)
        }
    }
}

/// A frame whose shape is not the recognized one decodes to `Unknown`
/// carrying the trimmed text — never to an error.
pub proof fn lemma_unrecognized_shape_is_unknown(s: Seq<char>)
    requires
        s.len() > 0,
        s.last() == '#',
        spec_split(spec_trim_hashes(s)).len() >= 3,
        !is_v1_shape(spec_split(spec_trim_hashes(s))),
    ensures
        spec_from_message(s) == Ok::<PacketModel, DecodeError>(
            PacketModel::Unknown(spec_trim_hashes(s)),
        ),
{
}

impl Packet {
    /// Decodes one terminator-delimited message, exactly as
    /// [`spec_from_message`] states.
    pub fn from_message(message: &str) -> (r: Result<Packet, DecodeError>)
        ensures
            r matches Ok(p) ==> spec_from_message(message@) == Ok::<PacketModel, DecodeError>(p@),
            r matches Err(e) ==> spec_from_message(message@) == Err::<PacketModel, DecodeError>(e),
    {
        let n = message.unicode_len();
        if n == 0 || message.get_char(n - 1) != '#' {
            return Err(DecodeError::MissingTerminator);
        }
        let mut k = n;
        while k > 0 && message.get_char(k - 1) == '#'
            invariant
                0 <= k <= n,
                n == message@.len(),
                forall|j: int| k <= j < n ==> message@[j] == '#',
            decreases k,
        {
            k -= 1;
        }
        proof {
            lemma_trim_hashes_take(message@, k as int);
        }
        let trimmed = message.substring_char(0, k);
        proof {
            assert(trimmed@ =~= spec_trim_hashes(message@));
        }
        let parts = split_commas(trimmed);
        let ghost ps = spec_split(trimmed@);
        proof {
            assert(parts@.len() == ps.len());
            assert forall|i: int| 0 <= i < ps.len() implies #[trigger] ps[i] == parts@[i]@ by {
                assert(parts@.map_values(|p: String| p@)[i] == parts@[i]@);
            }
        }
        if parts.len() < 3 {
            return Err(DecodeError::TooFewFields);
        }
        if !(parts.len() >= 13 && str_eq(parts[0].as_str(), "*HQ") && str_eq(
            parts[2].as_str(),
            "V1",
        )) {
            return Ok(Packet::Unknown(trimmed.to_owned()));
        }
        let last = parts.len() - 1;
        proof {
            assert(ps.last() == ps[last as int]);
        }
        let time = match timestamp(parts[11].as_str(), parts[3].as_str()) {
            Ok(t) => t,
            Err(e) => {
                return Err(e);
            },
        };
        let position = match coords(
            parts[5].as_str(),
            parts[6].as_str(),
            parts[7].as_str(),
            parts[8].as_str(),
        ) {
            Ok(p) => p,
            Err(e) => {
                return Err(e);
            },
        };
        let speed = match speed_kmh(parts[9].as_str()) {
            Some(sp) => sp,
            None => {
                return Err(DecodeError::InvalidSpeed);
            },
        };
        let direction = match nullable(parts[10].as_str()) {
            Some(d) => d,
            None => {
                return Err(DecodeError::InvalidDirection);
            },
        };
        let battery_level = battery(parts[last].as_str());
        let valid = str_eq(parts[4].as_str(), "A");
        Ok(
            Packet::V1 {
                terminal_no: parts[1].clone(),
                time,
                valid,
                position,
                speed,
                direction,
                battery: battery_level,
            },
        )
    }
}

} // verus!
