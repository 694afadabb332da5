//! The EXIF details the bot shows next to coordinates, and the text rules they
//! are cleaned and written with.

use vstd::prelude::*;
use crate::encoding::{url_encode, url_encoded};
use crate::geo::Coordinates;
use crate::text::{
    blank, is_blank, join, opt_str, seq_join, trim, trim_decimal, trim_end_char, trim_matches,
    trim_start_char, trim_ws, trimmed_decimal, views,
};

verus! {

/// Extracted location and selected image metadata.
#[derive(Clone, Debug, PartialEq)]
pub struct ImageLocation {
    /// Coordinates from image metadata.
    pub coordinates: Coordinates,
    /// Compact EXIF metadata summary.
    pub exif: ExifSummary,
}

/// User-facing EXIF fields that are useful near coordinates. Measured values
/// are held written with two fraction digits (`{:.2}`).
#[derive(Clone, Debug, PartialEq)]
pub struct ExifSummary {
    /// Camera manufacturer.
    pub camera_make: Option<String>,
    /// Camera model.
    pub camera_model: Option<String>,
    /// Wikipedia search URL for the camera make/model.
    pub camera_wikipedia_url: Option<String>,
    /// Original capture datetime, when present.
    pub captured_at: Option<String>,
    /// Lens model.
    pub lens_model: Option<String>,
    /// Focal length in millimeters.
    pub focal_length_mm: Option<String>,
    /// 35mm-equivalent focal length.
    pub focal_length_35mm: Option<u32>,
    /// F-number.
    pub f_number: Option<String>,
    /// Exposure time, formatted for display.
    pub exposure_time: Option<String>,
    /// ISO speed rating.
    pub iso: Option<u32>,
    /// GPS altitude in meters.
    pub altitude_meters: Option<String>,
    /// Image direction in degrees from north.
    pub image_direction_degrees: Option<String>,
    /// GPS speed value with unit.
    pub gps_speed: Option<String>,
    /// Software that wrote the image metadata.
    pub software: Option<String>,
}

/// Whether no field of the summary, the Wikipedia link aside, holds a value.
pub open spec fn summary_is_empty(e: ExifSummary) -> bool {
    &&& e.camera_make is None
    &&& e.camera_model is None
    &&& e.captured_at is None
    &&& e.lens_model is None
    &&& e.focal_length_mm is None
    &&& e.focal_length_35mm is None
    &&& e.f_number is None
    &&& e.exposure_time is None
    &&& e.iso is None
    &&& e.altitude_meters is None
    &&& e.image_direction_degrees is None
    &&& e.gps_speed is None
    &&& e.software is None
}

impl Default for ExifSummary {
    fn default() -> (r: Self)
        ensures
            summary_is_empty(r),
            r.camera_wikipedia_url is None,
    {
        ExifSummary {
            camera_make: None,
            camera_model: None,
            camera_wikipedia_url: None,
            captured_at: None,
            lens_model: None,
            focal_length_mm: None,
            focal_length_35mm: None,
            f_number: None,
            exposure_time: None,
            iso: None,
            altitude_meters: None,
            image_direction_degrees: None,
            gps_speed: None,
            software: None,
        }
    }
}

impl ExifSummary {
    /// Returns true when no summary field is available (the Wikipedia link is
    /// not counted: it only accompanies the camera).
    pub fn is_empty(&self) -> (r: bool)
        ensures
            r == summary_is_empty(*self),
    {
        self.camera_make.is_none() && self.camera_model.is_none() && self.captured_at.is_none()
            && self.lens_model.is_none() && self.focal_length_mm.is_none()
            && self.focal_length_35mm.is_none() && self.f_number.is_none()
            && self.exposure_time.is_none() && self.iso.is_none()
            && self.altitude_meters.is_none() && self.image_direction_degrees.is_none()
            && self.gps_speed.is_none() && self.software.is_none()
    }
}

/// An EXIF text value cleaned: NUL characters removed from both ends, then trimmed.
pub open spec fn cleaned_text(s: Seq<char>) -> Seq<char> {
    trim_ws(trim_end_char(trim_start_char(s, '\0'), '\0'))
}

/// Cleans an EXIF text value: strips padding NULs at both ends, then white space.
pub fn clean_text(value: &str) -> (r: String)
    ensures
        r@ == cleaned_text(value@),
{
    let without_nul = trim_matches(value, '\0');
    trim(without_nul.as_str())
}

/// The trimmed value of an optional part, when something is left of it.
pub open spec fn query_part(part: Option<Seq<char>>) -> Seq<Seq<char>> {
    match part {
        Some(p) if !is_blank(p) => seq![trim_ws(p)],
        _ => Seq::empty(),
    }
}

/// The Wikipedia search words for a camera: its trimmed make and model, the
/// blank ones left out, joined by a space.
pub open spec fn camera_query(make: Option<Seq<char>>, model: Option<Seq<char>>) -> Seq<char> {
    seq_join(query_part(make) + query_part(model), " "@)
}

/// The Wikipedia search URL for a camera, when there are search words.
pub open spec fn camera_wikipedia_link(make: Option<Seq<char>>, model: Option<Seq<char>>) -> Option<Seq<char>> {
    let query = camera_query(make, model);
    if query.len() > 0 {
        Some("https://en.wikipedia.org/wiki/Special:Search?search="@ + url_encoded(query))
    } else {
        None
    }
}

/// Builds the Wikipedia search URL for a camera make and model.
pub fn camera_wikipedia_url(make: Option<&str>, model: Option<&str>) -> (r: Option<String>)
    ensures
        opt_string_view(r) == camera_wikipedia_link(opt_str(make), opt_str(model)),
{
    let mut parts: Vec<String> = Vec::new();
    if let Some(m) = make {
        if !blank(m) {
            parts.push(trim(m));
        }
    }
    let ghost first = views(parts@);
    assert(first =~= query_part(opt_str(make)));
    if let Some(m) = model {
        if !blank(m) {
            parts.push(trim(m));
        }
    }
    assert(views(parts@) =~= query_part(opt_str(make)) + query_part(opt_str(model)));
    let query = join(&parts, " ");
    if query.as_str().unicode_len() > 0 {
        let mut url = String::from_str("https://en.wikipedia.org/wiki/Special:Search?search=");
        let encoded = url_encode(query.as_str());
        url.append(encoded.as_str());
        Some(url)
    } else {
        None
    }
}

/// The character view of an optional string.
pub open spec fn opt_string_view(o: Option<String>) -> Option<Seq<char>> {
    crate::text::opt_string(o)
}

/// The speed unit that a GPS speed reference letter names.
pub open spec fn speed_unit(c: char) -> Seq<char> {
    if c == 'K' || c == 'k' {
        "km/h"@
    } else if c == 'M' || c == 'm' {
        "mph"@
    } else if c == 'N' || c == 'n' {
        "knots"@
    } else {
        "km/h"@
    }
}

/// Names the unit of a GPS speed reference letter (`K`, `M` or `N`, either case;
/// km/h for anything else).
pub fn gps_speed_unit(value: char) -> (r: &'static str)
    ensures
        r@ == speed_unit(value),
{
    if value == 'K' || value == 'k' {
        "km/h"
    } else if value == 'M' || value == 'm' {
        "mph"
    } else if value == 'N' || value == 'n' {
        "knots"
    } else {
        "km/h"
    }
}

/// A GPS speed as the bot shows it: the value (written with two fraction digits,
/// trailing zeros dropped), a space, and the unit named by the first letter of the
/// speed reference, km/h when there is none.
pub open spec fn gps_speed_display(value: Seq<char>, speed_ref: Option<Seq<char>>) -> Seq<char> {
    let unit = match speed_ref {
        Some(r) if r.len() > 0 => speed_unit(r[0]),
        _ => "km/h"@,
    };
    trimmed_decimal(value) + " "@ + unit
}

/// Writes a GPS speed from its two-digit rendering and its speed reference.
pub fn gps_speed_text(value: &str, speed_ref: Option<&str>) -> (r: String)
    ensures
        r@ == gps_speed_display(value@, opt_str(speed_ref)),
{
    let unit = match speed_ref {
        Some(r) => {
            if r.unicode_len() > 0 {
                gps_speed_unit(r.get_char(0))
            } else {
                "km/h"
            }
        },
        None => "km/h",
    };
    let mut text = trim_decimal(value);
    text.append(" ");
    text.append(unit);
    text
}

/// A duration in seconds as the bot shows it: the value (written with four
/// fraction digits, trailing zeros dropped) followed by ` s`.
pub open spec fn seconds_display(value: Seq<char>) -> Seq<char> {
    trimmed_decimal(value) + " s"@
}

/// Writes a duration in seconds from its four-digit rendering.
pub fn seconds_text(value: &str) -> (r: String)
    ensures
        r@ == seconds_display(value@),
{
    let mut text = trim_decimal(value);
    text.append(" s");
    text
}

} // verus!
