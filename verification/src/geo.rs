//! Coordinates and distances as the library reads them.
//!
//! The bot receives angles and distances as `f64` values. The library does not
//! compute with them: it shows them, and it orders distances. So an angle is held
//! by the renderings it is shown with, and a distance by its IEEE-754 bits (which
//! fix its place in the total order of `f64::total_cmp`) and its rendering.

use vstd::prelude::*;
use crate::text::{trim_decimal, trimmed_decimal};

verus! {

/// An angle in degrees, held by the renderings the bot shows it with.
#[derive(Clone, Debug, PartialEq)]
pub struct Angle {
    /// The value written with seven fraction digits (`{:.7}`), sign included.
    pub fixed: String,
    /// The absolute value written with six fraction digits (`{:.6}`).
    pub magnitude: String,
    /// Whether the value is below zero.
    pub negative: bool,
}

/// A latitude/longitude pair in WGS84 degrees, validated by whoever built it
/// (latitude within -90..=90, longitude within -180..=180).
#[derive(Clone, Debug, PartialEq)]
pub struct Coordinates {
    /// Latitude in decimal degrees.
    pub latitude: Angle,
    /// Longitude in decimal degrees.
    pub longitude: Angle,
}

/// How the bot prints an angle: seven fraction digits, trailing zeros and a
/// bare decimal point dropped.
pub open spec fn decimal_text(angle: Angle) -> Seq<char> {
    trimmed_decimal(angle.fixed@)
}

/// Formats an angle compactly while keeping sub-meter precision: the seven-digit
/// rendering without trailing zeros (`41.7000000` becomes `41.7`).
pub fn decimal(fixed: &str) -> (r: String)
    ensures
        r@ == trimmed_decimal(fixed@),
{
    trim_decimal(fixed)
}

/// A distance: the `f64` by its IEEE-754 bits, and its text as the bot shows it.
#[derive(Clone, Debug, PartialEq)]
pub struct Distance {
    /// `f64::to_bits` of the distance.
    pub bits: u64,
    /// The distance written out with the precision the bot shows it with.
    pub text: String,
}

/// The place of an `f64` (given by its bits) in the order of `f64::total_cmp`:
/// values with the sign bit clear come after all values with it set, in the
/// order of their bits; values with the sign bit set in the reverse order of theirs.
pub open spec fn total_order_key(bits: u64) -> int {
    if bits < 0x8000_0000_0000_0000 {
        bits as int
    } else {
        0x7FFF_FFFF_FFFF_FFFF - bits as int
    }
}

/// The place of an optional distance: a known distance by its total order, an
/// unknown one after every known one.
pub open spec fn distance_key(d: Option<Distance>) -> int {
    match d {
        Some(x) => total_order_key(x.bits),
        None => 0x1_0000_0000_0000_0000,
    }
}

/// Computes `total_order_key` of the bits of a distance.
pub fn order_key(bits: u64) -> (r: i128)
    ensures
        r == total_order_key(bits),
{
    if bits < 0x8000_0000_0000_0000 {
        bits as i128
    } else {
        0x7FFF_FFFF_FFFF_FFFFi128 - bits as i128
    }
}

/// Computes `distance_key` of an optional distance.
pub fn optional_distance_key(d: &Option<Distance>) -> (r: i128)
    ensures
        r == distance_key(*d),
{
    match d {
        Some(x) => order_key(x.bits),
        None => 0x1_0000_0000_0000_0000i128,
    }
}

/// A distance as the library reasons about it: its bits and its text as characters.
pub struct DistanceView {
    pub bits: u64,
    pub text: Seq<char>,
}

impl View for Distance {
    type V = DistanceView;

    open spec fn view(&self) -> DistanceView {
        DistanceView { bits: self.bits, text: self.text@ }
    }
}

/// The view of an optional distance.
pub open spec fn opt_distance(d: Option<Distance>) -> Option<DistanceView> {
    match d {
        Some(x) => Some(x@),
        None => None,
    }
}

/// The place of an optional distance view, as `distance_key` places the distance.
pub open spec fn distance_view_key(d: Option<DistanceView>) -> int {
    match d {
        Some(x) => total_order_key(x.bits),
        None => 0x1_0000_0000_0000_0000,
    }
}

} // verus!
