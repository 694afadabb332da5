//! Clickable map links for a coordinate pair.

use vstd::prelude::*;
use crate::encoding::{url_encode, url_encoded};
use crate::geo::{decimal, decimal_text, Angle, Coordinates};
use crate::text::{opt_str, push_char, trim, trim_ws};

verus! {

/// Clickable map links for a coordinate pair.
#[derive(Clone, Debug, PartialEq)]
pub struct MapLinks {
    /// Google Maps search URL with a pin.
    pub google_maps: String,
    /// Bing Maps URL centered on the point with a pin.
    pub bing_maps: String,
    /// Apple Maps URL centered on the point with a label.
    pub apple_maps: String,
    /// 2GIS web URL for the point.
    pub two_gis: String,
    /// Mapillary web app URL centered on nearby street-level imagery.
    pub mapillary: String,
    /// Yandex Maps URL centered on the point with a pin.
    pub yandex_maps: String,
    /// Wikimapia URL centered on the point.
    pub wikimapia: String,
    /// OpenStreetMap URL with a marker.
    pub openstreetmap: String,
    /// Google Earth web URL for the point.
    pub google_earth: String,
    /// GeoHack URL with camera-location parameters.
    pub geohack: String,
    /// Wikimedia Toolforge WikiMap URL centered on the point.
    pub wikimap_toolforge: String,
}

/// The characters a file name keeps in a GeoHack page name: no control
/// characters (Unicode `Cc`), no `/` and no `\`.
pub open spec fn file_name_char_kept(c: char) -> bool {
    let u = c as u32;
    !(u <= 0x1F || (0x7F <= u <= 0x9F)) && c != '/' && c != '\\'
}

/// `s` with the characters that a page name does not keep removed.
pub open spec fn kept_file_name_chars(s: Seq<char>) -> Seq<char>
    decreases s.len(),
{
    if s.len() == 0 {
        s
    } else if file_name_char_kept(s.last()) {
        kept_file_name_chars(s.drop_last()).push(s.last())
    } else {
        kept_file_name_chars(s.drop_last())
    }
}

/// A file name cleaned for a page name: unwanted characters removed, then trimmed.
pub open spec fn cleaned_file_name(s: Seq<char>) -> Seq<char> {
    trim_ws(kept_file_name_chars(s))
}

/// Removes control characters and path separators from a file name, then trims it.
pub fn clean_file_name(file_name: &str) -> (r: String)
    ensures
        r@ == cleaned_file_name(file_name@),
{
    let n = file_name.unicode_len();
    let mut kept = String::new();
    let mut i: usize = 0;
    while i < n
        invariant
            i <= n,
            n == file_name@.len(),
            kept@ == kept_file_name_chars(file_name@.subrange(0, i as int)),
        decreases n - i,
    {
        let c = file_name.get_char(i);
        let u = c as u32;
        assert(file_name@.subrange(0, i + 1).drop_last() =~= file_name@.subrange(0, i as int));
        if !(u <= 0x1F || (0x7F <= u && u <= 0x9F)) && c != '/' && c != '\\' {
            push_char(&mut kept, c);
        }
        i = i + 1;
    }
    assert(file_name@.subrange(0, n as int) =~= file_name@);
    trim(kept.as_str())
}

/// The file name a GeoHack link names: the cleaned name when one is given and
/// something is left of it, else `Photo.jpg`.
pub open spec fn geohack_file_name(file_name: Option<Seq<char>>) -> Seq<char> {
    match file_name {
        Some(name) if cleaned_file_name(name).len() > 0 => cleaned_file_name(name),
        _ => "Photo.jpg"@,
    }
}

/// `s` padded on the left with zeros to `width` characters, as `{:0width$}` pads.
pub open spec fn zero_padded(s: Seq<char>, width: nat) -> Seq<char> {
    if s.len() < width {
        Seq::new((width - s.len()) as nat, |i: int| '0') + s
    } else {
        s
    }
}

/// Pads `s` on the left with zeros to `width` characters.
pub fn pad_zeros(s: &str, width: usize) -> (r: String)
    ensures
        r@ == zero_padded(s@, width as nat),
{
    let n = s.unicode_len();
    if n >= width {
        return String::from_str(s);
    }
    let mut out = String::new();
    let mut i: usize = 0;
    while i < width - n
        invariant
            i <= width - n,
            n < width,
            out@ =~= Seq::new(i as nat, |k: int| '0'),
        decreases width - n - i,
    {
        push_char(&mut out, '0');
        i = i + 1;
    }
    out.append(s);
    out
}

/// The GeoHack `params` part of one angle: the zero-padded magnitude, `_`, and the
/// hemisphere letter (`negative` or `positive`).
pub open spec fn geohack_angle(angle: Angle, width: nat, negative: Seq<char>, positive: Seq<char>) -> Seq<char> {
    zero_padded(angle.magnitude@, width) + "_"@ + if angle.negative {
        negative
    } else {
        positive
    }
}

/// The GeoHack URL for a camera location.
pub open spec fn geohack_link(c: Coordinates, file_name: Seq<char>) -> Seq<char> {
    "https://geohack.toolforge.org/geohack.php?pagename="@ + url_encoded("File:"@ + file_name)
        + "&params="@ + geohack_angle(c.latitude, 10, "S"@, "N"@) + "_"@ + geohack_angle(
        c.longitude,
        11,
        "W"@,
        "E"@,
    ) + "_globe:Earth_type:camera__&language=en"@
}

/// Builds the GeoHack URL.
fn geohack_url(coordinates: &Coordinates, file_name: &str) -> (r: String)
    ensures
        r@ == geohack_link(*coordinates, file_name@),
{
    let mut page = String::from_str("File:");
    page.append(file_name);
    let pagename = url_encode(page.as_str());
    let latitude = pad_zeros(coordinates.latitude.magnitude.as_str(), 10);
    let longitude = pad_zeros(coordinates.longitude.magnitude.as_str(), 11);
    let mut r = String::from_str("https://geohack.toolforge.org/geohack.php?pagename=");
    r.append(pagename.as_str());
    r.append("&params=");
    r.append(latitude.as_str());
    r.append("_");
    r.append(if coordinates.latitude.negative { "S" } else { "N" });
    r.append("_");
    r.append(longitude.as_str());
    r.append("_");
    r.append(if coordinates.longitude.negative { "W" } else { "E" });
    r.append("_globe:Earth_type:camera__&language=en");
    r
}

/// The links that `MapLinks::for_coordinates` builds, with `lat` and `lon` the
/// printed angles and `file_name` the optional file name of the photo.
pub open spec fn map_links_for(c: Coordinates, file_name: Option<Seq<char>>) -> MapLinksView {
    let lat = decimal_text(c.latitude);
    let lon = decimal_text(c.longitude);
    MapLinksView {
        google_maps: "https://www.google.com/maps/search/?api=1&query="@ + lat + "%2C"@ + lon,
        bing_maps: "https://bing.com/maps/default.aspx?cp="@ + lat + "~"@ + lon
            + "&lvl=18&style=r&sp=point."@ + lat + "_"@ + lon + "_"@ + url_encoded(
            "Photo location"@,
        ),
        apple_maps: "https://maps.apple.com/?ll="@ + lat + ","@ + lon
            + "&q=Photo%20location&z=18"@,
        two_gis: "https://2gis.com/geo/"@ + lon + "%2C"@ + lat,
        mapillary: "https://www.mapillary.com/app/?lat="@ + lat + "&lng="@ + lon + "&z=17"@,
        yandex_maps: "https://yandex.com/maps/?ll="@ + lon + "%2C"@ + lat + "&z=18&pt="@ + lon
            + "%2C"@ + lat + ",pm2rdm"@,
        wikimapia: "https://wikimapia.org/#lat="@ + lat + "&lon="@ + lon + "&z=18&l=0&m=w"@,
        openstreetmap: "https://www.openstreetmap.org/?mlat="@ + lat + "&mlon="@ + lon
            + "#map=18/"@ + lat + "/"@ + lon,
        google_earth: "https://earth.google.com/web/search/"@ + lat + ","@ + lon,
        geohack: geohack_link(c, geohack_file_name(file_name)),
        wikimap_toolforge: "https://wikimap.toolforge.org/?lat="@ + lat + "&lon="@ + lon
            + "&zoom=18&lang=en&camera=true"@,
    }
}

/// The links of a `MapLinks` as character sequences.
pub struct MapLinksView {
    pub google_maps: Seq<char>,
    pub bing_maps: Seq<char>,
    pub apple_maps: Seq<char>,
    pub two_gis: Seq<char>,
    pub mapillary: Seq<char>,
    pub yandex_maps: Seq<char>,
    pub wikimapia: Seq<char>,
    pub openstreetmap: Seq<char>,
    pub google_earth: Seq<char>,
    pub geohack: Seq<char>,
    pub wikimap_toolforge: Seq<char>,
}

impl View for MapLinks {
    type V = MapLinksView;

    open spec fn view(&self) -> MapLinksView {
        MapLinksView {
            google_maps: self.google_maps@,
            bing_maps: self.bing_maps@,
            apple_maps: self.apple_maps@,
            two_gis: self.two_gis@,
            mapillary: self.mapillary@,
            yandex_maps: self.yandex_maps@,
            wikimapia: self.wikimapia@,
            openstreetmap: self.openstreetmap@,
            google_earth: self.google_earth@,
            geohack: self.geohack@,
            wikimap_toolforge: self.wikimap_toolforge@,
        }
    }
}

impl MapLinks {
    /// Builds map links in documented or commonly supported coordinate URL formats.
    pub fn for_coordinates(coordinates: &Coordinates, file_name: Option<&str>) -> (r: MapLinks)
        ensures
            r@ == map_links_for(*coordinates, opt_str(file_name)),
    {
        let lat = decimal(coordinates.latitude.fixed.as_str());
        let lon = decimal(coordinates.longitude.fixed.as_str());
        let latitude = lat.as_str();
        let longitude = lon.as_str();
        let bing_title = url_encode("Photo location");
        let geohack_file = match file_name {
            Some(name) => {
                let cleaned = clean_file_name(name);
                if cleaned.as_str().unicode_len() > 0 {
                    cleaned
                } else {
                    String::from_str("Photo.jpg")
                }
            },
            None => String::from_str("Photo.jpg"),
        };
        let mut google_maps = String::from_str("https://www.google.com/maps/search/?api=1&query=");
        google_maps.append(latitude);
        google_maps.append("%2C");
        google_maps.append(longitude);
        let mut bing_maps = String::from_str("https://bing.com/maps/default.aspx?cp=");
        bing_maps.append(latitude);
        bing_maps.append("~");
        bing_maps.append(longitude);
        bing_maps.append("&lvl=18&style=r&sp=point.");
        bing_maps.append(latitude);
        bing_maps.append("_");
        bing_maps.append(longitude);
        bing_maps.append("_");
        bing_maps.append(bing_title.as_str());
        let mut apple_maps = String::from_str("https://maps.apple.com/?ll=");
        apple_maps.append(latitude);
        apple_maps.append(",");
        apple_maps.append(longitude);
        apple_maps.append("&q=Photo%20location&z=18");
        let mut two_gis = String::from_str("https://2gis.com/geo/");
        two_gis.append(longitude);
        two_gis.append("%2C");
        two_gis.append(latitude);
        let mut mapillary = String::from_str("https://www.mapillary.com/app/?lat=");
        mapillary.append(latitude);
        mapillary.append("&lng=");
        mapillary.append(longitude);
        mapillary.append("&z=17");
        let mut yandex_maps = String::from_str("https://yandex.com/maps/?ll=");
        yandex_maps.append(longitude);
        yandex_maps.append("%2C");
        yandex_maps.append(latitude);
        yandex_maps.append("&z=18&pt=");
        yandex_maps.append(longitude);
        yandex_maps.append("%2C");
        yandex_maps.append(latitude);
        yandex_maps.append(",pm2rdm");
        let mut wikimapia = String::from_str("https://wikimapia.org/#lat=");
        wikimapia.append(latitude);
        wikimapia.append("&lon=");
        wikimapia.append(longitude);
        wikimapia.append("&z=18&l=0&m=w");
        let mut openstreetmap = String::from_str("https://www.openstreetmap.org/?mlat=");
        openstreetmap.append(latitude);
        openstreetmap.append("&mlon=");
        openstreetmap.append(longitude);
        openstreetmap.append("#map=18/");
        openstreetmap.append(latitude);
        openstreetmap.append("/");
        openstreetmap.append(longitude);
        let mut google_earth = String::from_str("https://earth.google.com/web/search/");
        google_earth.append(latitude);
        google_earth.append(",");
        google_earth.append(longitude);
        let mut wikimap_toolforge = String::from_str("https://wikimap.toolforge.org/?lat=");
        wikimap_toolforge.append(latitude);
        wikimap_toolforge.append("&lon=");
        wikimap_toolforge.append(longitude);
        wikimap_toolforge.append("&zoom=18&lang=en&camera=true");
        let geohack = geohack_url(coordinates, geohack_file.as_str());
        MapLinks {
            google_maps,
            bing_maps,
            apple_maps,
            two_gis,
            mapillary,
            yandex_maps,
            wikimapia,
            openstreetmap,
            google_earth,
            geohack,
            wikimap_toolforge,
        }
    }
}

/// The map links of a point do not depend on the file name, but for the GeoHack
/// page it names: a shared location gets the links an image taken there gets,
/// and two names cleaned alike give the same links.
pub proof fn law_links_depend_on_point(c: Coordinates, a: Option<Seq<char>>, b: Option<Seq<char>>)
    ensures
        map_links_for(c, a).google_maps == map_links_for(c, b).google_maps,
        map_links_for(c, a).bing_maps == map_links_for(c, b).bing_maps,
        map_links_for(c, a).apple_maps == map_links_for(c, b).apple_maps,
        map_links_for(c, a).two_gis == map_links_for(c, b).two_gis,
        map_links_for(c, a).mapillary == map_links_for(c, b).mapillary,
        map_links_for(c, a).yandex_maps == map_links_for(c, b).yandex_maps,
        map_links_for(c, a).wikimapia == map_links_for(c, b).wikimapia,
        map_links_for(c, a).openstreetmap == map_links_for(c, b).openstreetmap,
        map_links_for(c, a).google_earth == map_links_for(c, b).google_earth,
        map_links_for(c, a).wikimap_toolforge == map_links_for(c, b).wikimap_toolforge,
        geohack_file_name(a) == geohack_file_name(b) ==> map_links_for(c, a) == map_links_for(c, b),
{
}

} // verus!
