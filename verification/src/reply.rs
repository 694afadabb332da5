//! The texts the bot replies with.

use vstd::prelude::*;
use crate::exif_geo::{summary_is_empty, ExifSummary};
use crate::geo::{decimal, decimal_text, Coordinates, Distance};
use crate::links::{MapLinks, MapLinksView};
use crate::number::{decimal_text as number_text, u64_text};
use crate::text::{join, opt_str, opt_string, seq_join, trim_decimal, trimmed_decimal, views};
use crate::wikimedia::{NearbyWikidataItem, NearbyWikimedia, NearbyWikipediaArticle};

verus! {

/// One line, `prefix` followed by the value, when there is a value.
pub open spec fn opt_line(prefix: Seq<char>, value: Option<Seq<char>>) -> Seq<Seq<char>> {
    match value {
        Some(v) => seq![prefix + v],
        None => Seq::empty(),
    }
}

/// One line, `prefix`, the value and `unit`, when there is a value.
pub open spec fn opt_unit_line(prefix: Seq<char>, value: Option<Seq<char>>, unit: Seq<char>) -> Seq<
    Seq<char>,
> {
    match value {
        Some(v) => seq![prefix + v + unit],
        None => Seq::empty(),
    }
}

/// A measured value as shown: its two-digit rendering without trailing zeros.
pub open spec fn shown_measure(value: Option<String>) -> Option<Seq<char>> {
    match value {
        Some(v) => Some(trimmed_decimal(v@)),
        None => None,
    }
}

/// A count as shown: in decimal.
pub open spec fn shown_count(value: Option<u32>) -> Option<Seq<char>> {
    match value {
        Some(v) => Some(number_text(v as nat)),
        None => None,
    }
}

/// The value of an optional string as a sequence of zero or one strings.
pub open spec fn present(value: Option<String>) -> Seq<Seq<char>> {
    match value {
        Some(v) => seq![v@],
        None => Seq::empty(),
    }
}

/// The camera lines: make and model joined by a space, then the Wikipedia link when
/// there is one; nothing when neither make nor model is known.
pub open spec fn camera_lines(e: ExifSummary) -> Seq<Seq<char>> {
    if e.camera_make is Some || e.camera_model is Some {
        seq!["Camera: "@ + seq_join(present(e.camera_make) + present(e.camera_model), " "@)]
            + present(e.camera_wikipedia_url)
    } else {
        Seq::empty()
    }
}

/// The EXIF lines about the capture: time, lens, focal lengths and aperture.
pub open spec fn capture_lines(e: ExifSummary) -> Seq<Seq<char>> {
    opt_line("Captured: "@, opt_string(e.captured_at)) + opt_line(
        "Lens: "@,
        opt_string(e.lens_model),
    ) + opt_unit_line("Focal length: "@, shown_measure(e.focal_length_mm), " mm"@)
        + opt_unit_line("Focal length 35mm: "@, shown_count(e.focal_length_35mm), " mm"@)
        + opt_line("Aperture: f/"@, shown_measure(e.f_number))
}

/// The EXIF lines about exposure, position and software.
pub open spec fn exposure_lines(e: ExifSummary) -> Seq<Seq<char>> {
    opt_line("Exposure: "@, opt_string(e.exposure_time)) + opt_line("ISO: "@, shown_count(e.iso))
        + opt_unit_line("Altitude: "@, shown_measure(e.altitude_meters), " m"@) + opt_unit_line(
        "Image direction: "@,
        shown_measure(e.image_direction_degrees),
        " deg"@,
    ) + opt_line("GPS speed: "@, opt_string(e.gps_speed)) + opt_line(
        "Software: "@,
        opt_string(e.software),
    )
}

/// The EXIF block of a reply: a blank line, a heading, and one line per known field.
pub open spec fn exif_lines(e: ExifSummary) -> Seq<Seq<char>> {
    seq![Seq::empty(), "EXIF:"@] + camera_lines(e) + capture_lines(e) + exposure_lines(e)
}

/// Appends `line` to `lines`.
fn push_line(lines: &mut Vec<String>, line: String)
    ensures
        views(final(lines)@) == views(old(lines)@).push(line@),
{
    lines.push(line);
    assert(views(lines@) =~= views(old(lines)@).push(line@));
}

/// Appends `prefix` followed by `value`.
fn push_prefixed(lines: &mut Vec<String>, prefix: &str, value: &str)
    ensures
        views(final(lines)@) == views(old(lines)@).push(prefix@ + value@),
{
    let mut line = String::from_str(prefix);
    line.append(value);
    push_line(lines, line);
}

/// Appends `prefix`, `value` and `unit`.
fn push_with_unit(lines: &mut Vec<String>, prefix: &str, value: &str, unit: &str)
    ensures
        views(final(lines)@) == views(old(lines)@).push(prefix@ + value@ + unit@),
{
    let mut line = String::from_str(prefix);
    line.append(value);
    line.append(unit);
    push_line(lines, line);
}

/// Drops trailing zeros from a two-digit rendering, as the bot shows measured values.
pub fn short_number(value: &str) -> (r: String)
    ensures
        r@ == trimmed_decimal(value@),
{
    trim_decimal(value)
}

/// Appends `prefix` and the value, when there is a value.
fn push_opt(lines: &mut Vec<String>, prefix: &str, value: &Option<String>)
    ensures
        views(final(lines)@) == views(old(lines)@) + opt_line(prefix@, opt_string(*value)),
{
    if let Some(v) = value {
        push_prefixed(lines, prefix, v.as_str());
    }
    assert(views(lines@) =~= views(old(lines)@) + opt_line(prefix@, opt_string(*value)));
}

/// Appends `prefix`, the shown measured value and `unit`, when there is a value.
fn push_opt_measure(lines: &mut Vec<String>, prefix: &str, value: &Option<String>, unit: &str)
    ensures
        views(final(lines)@) == views(old(lines)@) + opt_unit_line(
            prefix@,
            shown_measure(*value),
            unit@,
        ),
{
    if let Some(v) = value {
        let shown = short_number(v.as_str());
        push_with_unit(lines, prefix, shown.as_str(), unit);
    }
    assert(views(lines@) =~= views(old(lines)@) + opt_unit_line(
        prefix@,
        shown_measure(*value),
        unit@,
    ));
}

/// Appends `prefix` and the shown measured value, when there is a value.
fn push_opt_shown_measure(lines: &mut Vec<String>, prefix: &str, value: &Option<String>)
    ensures
        views(final(lines)@) == views(old(lines)@) + opt_line(prefix@, shown_measure(*value)),
{
    if let Some(v) = value {
        let shown = short_number(v.as_str());
        push_prefixed(lines, prefix, shown.as_str());
    }
    assert(views(lines@) =~= views(old(lines)@) + opt_line(prefix@, shown_measure(*value)));
}

/// Appends `prefix` and the shown count, when there is a value.
fn push_opt_count(lines: &mut Vec<String>, prefix: &str, value: Option<u32>)
    ensures
        views(final(lines)@) == views(old(lines)@) + opt_line(prefix@, shown_count(value)),
{
    if let Some(v) = value {
        let shown = u64_text(v as u64);
        push_prefixed(lines, prefix, shown.as_str());
    }
    assert(views(lines@) =~= views(old(lines)@) + opt_line(prefix@, shown_count(value)));
}

/// Appends `prefix`, the shown count and `unit`, when there is a value.
fn push_opt_count_unit(lines: &mut Vec<String>, prefix: &str, value: Option<u32>, unit: &str)
    ensures
        views(final(lines)@) == views(old(lines)@) + opt_unit_line(
            prefix@,
            shown_count(value),
            unit@,
        ),
{
    if let Some(v) = value {
        let shown = u64_text(v as u64);
        push_with_unit(lines, prefix, shown.as_str(), unit);
    }
    assert(views(lines@) =~= views(old(lines)@) + opt_unit_line(
        prefix@,
        shown_count(value),
        unit@,
    ));
}

/// Appends the heading and camera lines of the EXIF block.
fn push_exif_heading(lines: &mut Vec<String>, exif: &ExifSummary)
    ensures
        views(final(lines)@) == views(old(lines)@) + seq![Seq::empty(), "EXIF:"@] + camera_lines(
            *exif,
        ),
{
    push_line(lines, String::new());
    push_line(lines, String::from_str("EXIF:"));
    assert(views(lines@) =~= views(old(lines)@) + seq![Seq::empty(), "EXIF:"@]);
    let ghost before_camera = views(lines@);
    if exif.camera_make.is_some() || exif.camera_model.is_some() {
        let mut parts: Vec<String> = Vec::new();
        if let Some(make) = &exif.camera_make {
            parts.push(make.clone());
        }
        if let Some(model) = &exif.camera_model {
            parts.push(model.clone());
        }
        assert(views(parts@) =~= present(exif.camera_make) + present(exif.camera_model));
        let camera = join(&parts, " ");
        push_prefixed(lines, "Camera: ", camera.as_str());
        if let Some(url) = &exif.camera_wikipedia_url {
            push_line(lines, url.clone());
        }
    }
    assert(views(lines@) =~= before_camera + camera_lines(*exif));
}

/// Appends the capture lines of the EXIF block.
fn push_capture_lines(lines: &mut Vec<String>, exif: &ExifSummary)
    ensures
        views(final(lines)@) == views(old(lines)@) + capture_lines(*exif),
{
    push_opt(lines, "Captured: ", &exif.captured_at);
    push_opt(lines, "Lens: ", &exif.lens_model);
    push_opt_measure(lines, "Focal length: ", &exif.focal_length_mm, " mm");
    push_opt_count_unit(lines, "Focal length 35mm: ", exif.focal_length_35mm, " mm");
    push_opt_shown_measure(lines, "Aperture: f/", &exif.f_number);
    assert(views(lines@) =~= views(old(lines)@) + capture_lines(*exif));
}

/// Appends the exposure lines of the EXIF block.
fn push_exposure_lines(lines: &mut Vec<String>, exif: &ExifSummary)
    ensures
        views(final(lines)@) == views(old(lines)@) + exposure_lines(*exif),
{
    push_opt(lines, "Exposure: ", &exif.exposure_time);
    push_opt_count(lines, "ISO: ", exif.iso);
    push_opt_measure(lines, "Altitude: ", &exif.altitude_meters, " m");
    push_opt_measure(lines, "Image direction: ", &exif.image_direction_degrees, " deg");
    push_opt(lines, "GPS speed: ", &exif.gps_speed);
    push_opt(lines, "Software: ", &exif.software);
    assert(views(lines@) =~= views(old(lines)@) + exposure_lines(*exif));
}

/// Appends the EXIF block of a reply.
pub fn append_exif_summary(lines: &mut Vec<String>, exif: &ExifSummary)
    ensures
        views(final(lines)@) == views(old(lines)@) + exif_lines(*exif),
{
    push_exif_heading(lines, exif);
    push_capture_lines(lines, exif);
    push_exposure_lines(lines, exif);
    assert(views(lines@) =~= views(old(lines)@) + exif_lines(*exif));
}

/// A link block: a blank line, the provider's name, and the URL.
pub open spec fn link_block(provider: Seq<char>, url: Seq<char>) -> Seq<Seq<char>> {
    seq![Seq::empty(), provider, url]
}

/// The link blocks of a reply, in the order the bot lists the providers.
pub open spec fn link_lines(links: MapLinksView) -> Seq<Seq<char>> {
    link_block("Google Maps"@, links.google_maps) + link_block("Apple Maps"@, links.apple_maps)
        + link_block("Bing Maps"@, links.bing_maps) + link_block(
        "Google Earth"@,
        links.google_earth,
    ) + link_block("Yandex Maps"@, links.yandex_maps) + link_block("2GIS"@, links.two_gis)
        + link_block("Mapillary"@, links.mapillary) + link_block(
        "OpenStreetMap"@,
        links.openstreetmap,
    ) + link_block("Wikimapia"@, links.wikimapia) + link_block("GeoHack"@, links.geohack)
        + link_block("Wikimap Toolforge"@, links.wikimap_toolforge)
}

/// Appends a link block.
pub fn append_link_block(lines: &mut Vec<String>, provider: &str, url: &str)
    ensures
        views(final(lines)@) == views(old(lines)@) + link_block(provider@, url@),
{
    push_line(lines, String::new());
    push_line(lines, String::from_str(provider));
    push_line(lines, String::from_str(url));
    assert(views(lines@) =~= views(old(lines)@) + link_block(provider@, url@));
}

/// Appends every link block of a reply.
fn append_links(lines: &mut Vec<String>, links: &MapLinks)
    ensures
        views(final(lines)@) == views(old(lines)@) + link_lines(links@),
{
    append_link_block(lines, "Google Maps", links.google_maps.as_str());
    append_link_block(lines, "Apple Maps", links.apple_maps.as_str());
    append_link_block(lines, "Bing Maps", links.bing_maps.as_str());
    append_link_block(lines, "Google Earth", links.google_earth.as_str());
    append_link_block(lines, "Yandex Maps", links.yandex_maps.as_str());
    append_link_block(lines, "2GIS", links.two_gis.as_str());
    append_link_block(lines, "Mapillary", links.mapillary.as_str());
    append_link_block(lines, "OpenStreetMap", links.openstreetmap.as_str());
    append_link_block(lines, "Wikimapia", links.wikimapia.as_str());
    append_link_block(lines, "GeoHack", links.geohack.as_str());
    append_link_block(lines, "Wikimap Toolforge", links.wikimap_toolforge.as_str());
    assert(views(lines@) =~= views(old(lines)@) + link_lines(links@));
}

/// A distance in kilometers with its direction, as an item line shows them.
pub open spec fn distance_km_display(distance: Option<Distance>, direction: Option<Seq<char>>) -> Seq<
    char,
> {
    match (distance, direction) {
        (Some(value), Some(direction)) => value.text@ + " km "@ + direction,
        (Some(value), None) => value.text@ + " km"@,
        (None, Some(direction)) => "distance unknown, "@ + direction,
        (None, None) => "distance unknown"@,
    }
}

/// A distance in meters with its direction, as an article line shows them.
pub open spec fn distance_meters_display(
    distance: Option<Distance>,
    direction: Option<Seq<char>>,
) -> Seq<char> {
    match (distance, direction) {
        (Some(value), Some(direction)) => value.text@ + " m "@ + direction,
        (Some(value), None) => value.text@ + " m"@,
        (None, Some(direction)) => "distance unknown, "@ + direction,
        (None, None) => "distance unknown"@,
    }
}

/// Writes a distance in kilometers (its text has two fraction digits) with its direction.
pub fn distance_km(distance: &Option<Distance>, direction: Option<&str>) -> (r: String)
    ensures
        r@ == distance_km_display(*distance, opt_str(direction)),
{
    match (distance, direction) {
        (Some(value), Some(direction)) => {
            let mut r = value.text.clone();
            r.append(" km ");
            r.append(direction);
            r
        },
        (Some(value), None) => {
            let mut r = value.text.clone();
            r.append(" km");
            r
        },
        (None, Some(direction)) => {
            let mut r = String::from_str("distance unknown, ");
            r.append(direction);
            r
        },
        (None, None) => String::from_str("distance unknown"),
    }
}

/// Writes a distance in meters (its text has no fraction digits) with its direction.
pub fn distance_meters(distance: &Option<Distance>, direction: Option<&str>) -> (r: String)
    ensures
        r@ == distance_meters_display(*distance, opt_str(direction)),
{
    match (distance, direction) {
        (Some(value), Some(direction)) => {
            let mut r = value.text.clone();
            r.append(" m ");
            r.append(direction);
            r
        },
        (Some(value), None) => {
            let mut r = value.text.clone();
            r.append(" m");
            r
        },
        (None, Some(direction)) => {
            let mut r = String::from_str("distance unknown, ");
            r.append(direction);
            r
        },
        (None, None) => String::from_str("distance unknown"),
    }
}

/// The reply line of a nearby Wikidata item.
pub open spec fn item_line(item: NearbyWikidataItem) -> Seq<char> {
    "- "@ + item.label@ + " ("@ + item.id@ + ", "@ + distance_km_display(
        item.distance_km,
        opt_string(item.direction),
    ) + "): "@ + item.url@
}

/// The reply line of a nearby Wikipedia article.
pub open spec fn article_line(article: NearbyWikipediaArticle) -> Seq<char> {
    "- "@ + article.title@ + " ["@ + article.language@ + "] ("@ + distance_meters_display(
        article.distance_meters,
        opt_string(article.direction),
    ) + ") "@ + article.url@
}

/// The nearby block of a reply: the Wikidata items, then the Wikipedia articles,
/// each list under a heading after a blank line, and left out when empty.
pub open spec fn nearby_lines(nearby: NearbyWikimedia) -> Seq<Seq<char>> {
    (if nearby.wikidata_items@.len() > 0 {
        seq![Seq::empty(), "Nearest Wikidata items (from this point):"@]
            + nearby.wikidata_items@.map_values(|i: NearbyWikidataItem| item_line(i))
    } else {
        Seq::empty()
    }) + (if nearby.wikipedia_articles@.len() > 0 {
        seq![Seq::empty(), "Nearest Wikipedia articles (from this point):"@]
            + nearby.wikipedia_articles@.map_values(|a: NearbyWikipediaArticle| article_line(a))
    } else {
        Seq::empty()
    })
}

/// Appends the Wikidata item lines.
fn append_items(lines: &mut Vec<String>, items: &Vec<NearbyWikidataItem>)
    ensures
        views(final(lines)@) == views(old(lines)@) + items@.map_values(
            |i: NearbyWikidataItem| item_line(i),
        ),
{
    let n = items.len();
    let mut k: usize = 0;
    while k < n
        invariant
            k <= n,
            n == items@.len(),
            views(lines@) == views(old(lines)@) + items@.take(k as int).map_values(
                |i: NearbyWikidataItem| item_line(i),
            ),
        decreases n - k,
    {
        let item = &items[k];
        let mut line = String::from_str("- ");
        line.append(item.label.as_str());
        line.append(" (");
        line.append(item.id.as_str());
        line.append(", ");
        let direction: Option<&str> = match &item.direction {
            Some(d) => Some(d.as_str()),
            None => None,
        };
        assert(opt_str(direction) == opt_string(item.direction));
        let shown = distance_km(&item.distance_km, direction);
        line.append(shown.as_str());
        line.append("): ");
        line.append(item.url.as_str());
        push_line(lines, line);
        assert(items@.take(k + 1).map_values(|i: NearbyWikidataItem| item_line(i))
            =~= items@.take(k as int).map_values(|i: NearbyWikidataItem| item_line(i)).push(
            item_line(items@[k as int]),
        ));
        k = k + 1;
    }
    assert(items@.take(n as int) =~= items@);
}

/// Appends the Wikipedia article lines.
fn append_articles(lines: &mut Vec<String>, articles: &Vec<NearbyWikipediaArticle>)
    ensures
        views(final(lines)@) == views(old(lines)@) + articles@.map_values(
            |a: NearbyWikipediaArticle| article_line(a),
        ),
{
    let n = articles.len();
    let mut k: usize = 0;
    while k < n
        invariant
            k <= n,
            n == articles@.len(),
            views(lines@) == views(old(lines)@) + articles@.take(k as int).map_values(
                |a: NearbyWikipediaArticle| article_line(a),
            ),
        decreases n - k,
    {
        let article = &articles[k];
        let mut line = String::from_str("- ");
        line.append(article.title.as_str());
        line.append(" [");
        line.append(article.language.as_str());
        line.append("] (");
        let direction: Option<&str> = match &article.direction {
            Some(d) => Some(d.as_str()),
            None => None,
        };
        assert(opt_str(direction) == opt_string(article.direction));
        let shown = distance_meters(&article.distance_meters, direction);
        line.append(shown.as_str());
        line.append(") ");
        line.append(article.url.as_str());
        push_line(lines, line);
        assert(articles@.take(k + 1).map_values(|a: NearbyWikipediaArticle| article_line(a))
            =~= articles@.take(k as int).map_values(
            |a: NearbyWikipediaArticle| article_line(a),
        ).push(article_line(articles@[k as int])));
        k = k + 1;
    }
    assert(articles@.take(n as int) =~= articles@);
}

/// Appends the nearby block of a reply.
fn append_nearby(lines: &mut Vec<String>, nearby: &NearbyWikimedia)
    ensures
        views(final(lines)@) == views(old(lines)@) + nearby_lines(*nearby),
{
    let ghost start = views(lines@);
    if nearby.wikidata_items.len() > 0 {
        push_line(lines, String::new());
        push_line(lines, String::from_str("Nearest Wikidata items (from this point):"));
        append_items(lines, &nearby.wikidata_items);
    }
    let ghost middle = views(lines@);
    assert(middle =~= start + (if nearby.wikidata_items@.len() > 0 {
        seq![Seq::empty(), "Nearest Wikidata items (from this point):"@]
            + nearby.wikidata_items@.map_values(|i: NearbyWikidataItem| item_line(i))
    } else {
        Seq::empty()
    }));
    if nearby.wikipedia_articles.len() > 0 {
        push_line(lines, String::new());
        push_line(lines, String::from_str("Nearest Wikipedia articles (from this point):"));
        append_articles(lines, &nearby.wikipedia_articles);
    }
    assert(views(lines@) =~= middle + (if nearby.wikipedia_articles@.len() > 0 {
        seq![Seq::empty(), "Nearest Wikipedia articles (from this point):"@]
            + nearby.wikipedia_articles@.map_values(|a: NearbyWikipediaArticle| article_line(a))
    } else {
        Seq::empty()
    }));
    assert(views(lines@) =~= start + nearby_lines(*nearby));
}

/// The coordinates line of a reply.
pub open spec fn coordinates_line(c: Coordinates) -> Seq<char> {
    "Coordinates: "@ + decimal_text(c.latitude) + ", "@ + decimal_text(c.longitude)
}

/// The place lines of a reply: the place and where its name comes from.
pub open spec fn place_lines(city: Option<Seq<char>>) -> Seq<Seq<char>> {
    match city {
        Some(city) => seq!["Place: "@ + city, "Place lookup: OpenStreetMap Nominatim"@],
        None => Seq::empty(),
    }
}

/// The lines of a location reply: the intro, the coordinates, the place when known,
/// the EXIF block when there are EXIF details, every map link, and the nearby block
/// when there are nearby results.
pub open spec fn reply_lines(
    intro: Seq<char>,
    c: Coordinates,
    city: Option<Seq<char>>,
    exif: Option<ExifSummary>,
    links: MapLinksView,
    nearby: Option<NearbyWikimedia>,
) -> Seq<Seq<char>> {
    seq![intro, coordinates_line(c)] + place_lines(city) + (match exif {
        Some(e) if !summary_is_empty(e) => exif_lines(e),
        _ => Seq::empty(),
    }) + link_lines(links) + (match nearby {
        Some(n) => nearby_lines(n),
        None => Seq::empty(),
    })
}

/// The text of an optional reference.
pub open spec fn opt_ref<T>(o: Option<&T>) -> Option<T> {
    match o {
        Some(v) => Some(*v),
        None => None,
    }
}

/// Formats the user-facing location reply: its lines joined by newlines.
pub fn location_reply_text(
    intro: &str,
    coordinates: &Coordinates,
    city: Option<&str>,
    exif: Option<&ExifSummary>,
    links: &MapLinks,
    nearby: Option<&NearbyWikimedia>,
) -> (r: String)
    ensures
        r@ == seq_join(
            reply_lines(intro@, *coordinates, opt_str(city), opt_ref(exif), links@, opt_ref(nearby)),
            "\n"@,
        ),
{
    let mut lines: Vec<String> = Vec::new();
    push_line(&mut lines, String::from_str(intro));
    let latitude = decimal(coordinates.latitude.fixed.as_str());
    let longitude = decimal(coordinates.longitude.fixed.as_str());
    let mut position = String::from_str("Coordinates: ");
    position.append(latitude.as_str());
    position.append(", ");
    position.append(longitude.as_str());
    push_line(&mut lines, position);
    assert(views(lines@) =~= seq![intro@, coordinates_line(*coordinates)]);
    let ghost mark = views(lines@);
    if let Some(city) = city {
        push_prefixed(&mut lines, "Place: ", city);
        push_line(&mut lines, String::from_str("Place lookup: OpenStreetMap Nominatim"));
    }
    assert(views(lines@) =~= mark + place_lines(opt_str(city)));
    let ghost mark = views(lines@);
    if let Some(exif) = exif {
        if !exif.is_empty() {
            append_exif_summary(&mut lines, exif);
        }
    }
    assert(views(lines@) =~= mark + (match opt_ref(exif) {
        Some(e) if !summary_is_empty(e) => exif_lines(e),
        _ => Seq::empty(),
    }));
    let ghost mark = views(lines@);
    append_links(&mut lines, links);
    let ghost mark2 = views(lines@);
    if let Some(nearby) = nearby {
        append_nearby(&mut lines, nearby);
    }
    assert(views(lines@) =~= mark2 + (match opt_ref(nearby) {
        Some(n) => nearby_lines(n),
        None => Seq::empty(),
    }));
    assert(views(lines@) =~= reply_lines(
        intro@,
        *coordinates,
        opt_str(city),
        opt_ref(exif),
        links@,
        opt_ref(nearby),
    ));
    join(&lines, "\n")
}

/// The help text: the project name, usage, repository, support contact, privacy
/// note and the command list.
pub open spec fn help_message(project_name: Seq<char>, github_url: Seq<char>) -> Seq<char> {
    project_name
        + "\n\nSend an original geotagged image as a file/document or share a Telegram location. If you send an image as a normal Telegram photo, Telegram may remove the EXIF GPS metadata.\n\nRepo: "@
        + github_url
        + "\nSupport: @vitaly_zdanevich\n\nPrivacy: this bot runs on stateless AWS Lambda. It processes each image in memory, extracts EXIF GPS metadata, replies, and does not store photos. Telegram, AWS Lambda logs, and external lookup services may still receive request metadata.\n\nCommands: /help"@
}

/// Writes the help text.
pub fn help_text(project_name: &str, github_url: &str) -> (r: String)
    ensures
        r@ == help_message(project_name@, github_url@),
{
    let mut text = String::from_str(project_name);
    text.append(
        "\n\nSend an original geotagged image as a file/document or share a Telegram location. If you send an image as a normal Telegram photo, Telegram may remove the EXIF GPS metadata.\n\nRepo: ",
    );
    text.append(github_url);
    text.append(
        "\nSupport: @vitaly_zdanevich\n\nPrivacy: this bot runs on stateless AWS Lambda. It processes each image in memory, extracts EXIF GPS metadata, replies, and does not store photos. Telegram, AWS Lambda logs, and external lookup services may still receive request metadata.\n\nCommands: /help",
    );
    text
}

/// A line found in `a` is found in `a + b`.
proof fn lemma_in_left(a: Seq<Seq<char>>, b: Seq<Seq<char>>, x: Seq<char>)
    requires
        a.contains(x),
    ensures
        (a + b).contains(x),
{
    let i = choose|i: int| 0 <= i < a.len() && a[i] == x;
    assert((a + b)[i] == x);
}

/// A line found in `b` is found in `a + b`.
proof fn lemma_in_right(a: Seq<Seq<char>>, b: Seq<Seq<char>>, x: Seq<char>)
    requires
        b.contains(x),
    ensures
        (a + b).contains(x),
{
    let i = choose|i: int| 0 <= i < b.len() && b[i] == x;
    assert((a + b)[a.len() + i] == x);
}

/// The one line of a present optional line is found in it.
proof fn lemma_in_one(x: Seq<char>)
    ensures
        seq![x].contains(x),
{
    assert(seq![x][0] == x);
}

/// Every EXIF line is a line of the reply, when the summary is not empty.
proof fn lemma_exif_line_in_reply(
    intro: Seq<char>,
    c: Coordinates,
    city: Option<Seq<char>>,
    e: ExifSummary,
    links: MapLinksView,
    nearby: Option<NearbyWikimedia>,
    x: Seq<char>,
)
    requires
        !summary_is_empty(e),
        exif_lines(e).contains(x),
    ensures
        reply_lines(intro, c, city, Some(e), links, nearby).contains(x),
{
    let head = seq![intro, coordinates_line(c)] + place_lines(city);
    lemma_in_right(head, exif_lines(e), x);
    lemma_in_left(head + exif_lines(e), link_lines(links), x);
    lemma_in_left(
        head + exif_lines(e) + link_lines(links),
        match nearby {
            Some(n) => nearby_lines(n),
            None => Seq::empty(),
        },
        x,
    );
}

/// A capture line is an EXIF line.
proof fn lemma_capture_line_in_exif(e: ExifSummary, x: Seq<char>)
    requires
        capture_lines(e).contains(x),
    ensures
        exif_lines(e).contains(x),
{
    let front = seq![Seq::<char>::empty(), "EXIF:"@] + camera_lines(e);
    lemma_in_right(front, capture_lines(e), x);
    lemma_in_left(front + capture_lines(e), exposure_lines(e), x);
}

/// An exposure line is an EXIF line.
proof fn lemma_exposure_line_in_exif(e: ExifSummary, x: Seq<char>)
    requires
        exposure_lines(e).contains(x),
    ensures
        exif_lines(e).contains(x),
{
    let front = seq![Seq::<char>::empty(), "EXIF:"@] + camera_lines(e) + capture_lines(e);
    lemma_in_right(front, exposure_lines(e), x);
}

/// A camera line is an EXIF line.
proof fn lemma_camera_line_in_exif(e: ExifSummary, x: Seq<char>)
    requires
        camera_lines(e).contains(x),
    ensures
        exif_lines(e).contains(x),
{
    let top = seq![Seq::<char>::empty(), "EXIF:"@];
    lemma_in_right(top, camera_lines(e), x);
    lemma_in_left(top + camera_lines(e), capture_lines(e), x);
    lemma_in_left(top + camera_lines(e) + capture_lines(e), exposure_lines(e), x);
}

/// The capture fields that are present have their lines in the reply.
proof fn lemma_capture_fields_shown(
    intro: Seq<char>,
    c: Coordinates,
    city: Option<Seq<char>>,
    e: ExifSummary,
    links: MapLinksView,
    nearby: Option<NearbyWikimedia>,
)
    ensures
        ({
            let lines = reply_lines(intro, c, city, Some(e), links, nearby);
            &&& e.captured_at matches Some(t) ==> lines.contains("Captured: "@ + t@)
            &&& e.lens_model matches Some(t) ==> lines.contains("Lens: "@ + t@)
            &&& e.focal_length_mm matches Some(v) ==> lines.contains(
                "Focal length: "@ + trimmed_decimal(v@) + " mm"@,
            )
            &&& e.focal_length_35mm matches Some(n) ==> lines.contains(
                "Focal length 35mm: "@ + number_text(n as nat) + " mm"@,
            )
            &&& e.f_number matches Some(v) ==> lines.contains("Aperture: f/"@ + trimmed_decimal(v@))
        }),
{
    let cap1 = opt_line("Captured: "@, opt_string(e.captured_at));
    let cap2 = opt_line("Lens: "@, opt_string(e.lens_model));
    let cap3 = opt_unit_line("Focal length: "@, shown_measure(e.focal_length_mm), " mm"@);
    let cap4 = opt_unit_line("Focal length 35mm: "@, shown_count(e.focal_length_35mm), " mm"@);
    let cap5 = opt_line("Aperture: f/"@, shown_measure(e.f_number));
    assert(capture_lines(e) == cap1 + cap2 + cap3 + cap4 + cap5);
    if let Some(t) = e.captured_at {
        let x = "Captured: "@ + t@;
        lemma_in_one(x);
        lemma_in_left(cap1, cap2, x);
        lemma_in_left(cap1 + cap2, cap3, x);
        lemma_in_left(cap1 + cap2 + cap3, cap4, x);
        lemma_in_left(cap1 + cap2 + cap3 + cap4, cap5, x);
        lemma_capture_line_in_exif(e, x);
        lemma_exif_line_in_reply(intro, c, city, e, links, nearby, x);
    }
    if let Some(t) = e.lens_model {
        let x = "Lens: "@ + t@;
        lemma_in_one(x);
        lemma_in_right(cap1, cap2, x);
        lemma_in_left(cap1 + cap2, cap3, x);
        lemma_in_left(cap1 + cap2 + cap3, cap4, x);
        lemma_in_left(cap1 + cap2 + cap3 + cap4, cap5, x);
        lemma_capture_line_in_exif(e, x);
        lemma_exif_line_in_reply(intro, c, city, e, links, nearby, x);
    }
    if let Some(v) = e.focal_length_mm {
        let x = "Focal length: "@ + trimmed_decimal(v@) + " mm"@;
        lemma_in_one(x);
        lemma_in_right(cap1 + cap2, cap3, x);
        lemma_in_left(cap1 + cap2 + cap3, cap4, x);
        lemma_in_left(cap1 + cap2 + cap3 + cap4, cap5, x);
        lemma_capture_line_in_exif(e, x);
        lemma_exif_line_in_reply(intro, c, city, e, links, nearby, x);
    }
    if let Some(n) = e.focal_length_35mm {
        let x = "Focal length 35mm: "@ + number_text(n as nat) + " mm"@;
        lemma_in_one(x);
        lemma_in_right(cap1 + cap2 + cap3, cap4, x);
        lemma_in_left(cap1 + cap2 + cap3 + cap4, cap5, x);
        lemma_capture_line_in_exif(e, x);
        lemma_exif_line_in_reply(intro, c, city, e, links, nearby, x);
    }
    if let Some(v) = e.f_number {
        let x = "Aperture: f/"@ + trimmed_decimal(v@);
        lemma_in_one(x);
        lemma_in_right(cap1 + cap2 + cap3 + cap4, cap5, x);
        lemma_capture_line_in_exif(e, x);
        lemma_exif_line_in_reply(intro, c, city, e, links, nearby, x);
    }
}

/// The exposure fields that are present have their lines in the reply.
proof fn lemma_exposure_fields_shown(
    intro: Seq<char>,
    c: Coordinates,
    city: Option<Seq<char>>,
    e: ExifSummary,
    links: MapLinksView,
    nearby: Option<NearbyWikimedia>,
)
    ensures
        ({
            let lines = reply_lines(intro, c, city, Some(e), links, nearby);
            &&& e.exposure_time matches Some(t) ==> lines.contains("Exposure: "@ + t@)
            &&& e.iso matches Some(n) ==> lines.contains("ISO: "@ + number_text(n as nat))
            &&& e.altitude_meters matches Some(v) ==> lines.contains(
                "Altitude: "@ + trimmed_decimal(v@) + " m"@,
            )
            &&& e.image_direction_degrees matches Some(v) ==> lines.contains(
                "Image direction: "@ + trimmed_decimal(v@) + " deg"@,
            )
            &&& e.gps_speed matches Some(t) ==> lines.contains("GPS speed: "@ + t@)
            &&& e.software matches Some(t) ==> lines.contains("Software: "@ + t@)
        }),
{
    let exp1 = opt_line("Exposure: "@, opt_string(e.exposure_time));
    let exp2 = opt_line("ISO: "@, shown_count(e.iso));
    let exp3 = opt_unit_line("Altitude: "@, shown_measure(e.altitude_meters), " m"@);
    let exp4 = opt_unit_line("Image direction: "@, shown_measure(e.image_direction_degrees), " deg"@);
    let exp5 = opt_line("GPS speed: "@, opt_string(e.gps_speed));
    let exp6 = opt_line("Software: "@, opt_string(e.software));
    assert(exposure_lines(e) == exp1 + exp2 + exp3 + exp4 + exp5 + exp6);
    if let Some(t) = e.exposure_time {
        let x = "Exposure: "@ + t@;
        lemma_in_one(x);
        lemma_in_left(exp1, exp2, x);
        lemma_in_left(exp1 + exp2, exp3, x);
        lemma_in_left(exp1 + exp2 + exp3, exp4, x);
        lemma_in_left(exp1 + exp2 + exp3 + exp4, exp5, x);
        lemma_in_left(exp1 + exp2 + exp3 + exp4 + exp5, exp6, x);
        lemma_exposure_line_in_exif(e, x);
        lemma_exif_line_in_reply(intro, c, city, e, links, nearby, x);
    }
    if let Some(n) = e.iso {
        let x = "ISO: "@ + number_text(n as nat);
        lemma_in_one(x);
        lemma_in_right(exp1, exp2, x);
        lemma_in_left(exp1 + exp2, exp3, x);
        lemma_in_left(exp1 + exp2 + exp3, exp4, x);
        lemma_in_left(exp1 + exp2 + exp3 + exp4, exp5, x);
        lemma_in_left(exp1 + exp2 + exp3 + exp4 + exp5, exp6, x);
        lemma_exposure_line_in_exif(e, x);
        lemma_exif_line_in_reply(intro, c, city, e, links, nearby, x);
    }
    if let Some(v) = e.altitude_meters {
        let x = "Altitude: "@ + trimmed_decimal(v@) + " m"@;
        lemma_in_one(x);
        lemma_in_right(exp1 + exp2, exp3, x);
        lemma_in_left(exp1 + exp2 + exp3, exp4, x);
        lemma_in_left(exp1 + exp2 + exp3 + exp4, exp5, x);
        lemma_in_left(exp1 + exp2 + exp3 + exp4 + exp5, exp6, x);
        lemma_exposure_line_in_exif(e, x);
        lemma_exif_line_in_reply(intro, c, city, e, links, nearby, x);
    }
    if let Some(v) = e.image_direction_degrees {
        let x = "Image direction: "@ + trimmed_decimal(v@) + " deg"@;
        lemma_in_one(x);
        lemma_in_right(exp1 + exp2 + exp3, exp4, x);
        lemma_in_left(exp1 + exp2 + exp3 + exp4, exp5, x);
        lemma_in_left(exp1 + exp2 + exp3 + exp4 + exp5, exp6, x);
        lemma_exposure_line_in_exif(e, x);
        lemma_exif_line_in_reply(intro, c, city, e, links, nearby, x);
    }
    if let Some(t) = e.gps_speed {
        let x = "GPS speed: "@ + t@;
        lemma_in_one(x);
        lemma_in_right(exp1 + exp2 + exp3 + exp4, exp5, x);
        lemma_in_left(exp1 + exp2 + exp3 + exp4 + exp5, exp6, x);
        lemma_exposure_line_in_exif(e, x);
        lemma_exif_line_in_reply(intro, c, city, e, links, nearby, x);
    }
    if let Some(t) = e.software {
        let x = "Software: "@ + t@;
        lemma_in_one(x);
        lemma_in_right(exp1 + exp2 + exp3 + exp4 + exp5, exp6, x);
        lemma_exposure_line_in_exif(e, x);
        lemma_exif_line_in_reply(intro, c, city, e, links, nearby, x);
    }
}

/// The camera and its link have their lines in the reply.
proof fn lemma_camera_shown(
    intro: Seq<char>,
    c: Coordinates,
    city: Option<Seq<char>>,
    e: ExifSummary,
    links: MapLinksView,
    nearby: Option<NearbyWikimedia>,
)
    ensures
        ({
            let lines = reply_lines(intro, c, city, Some(e), links, nearby);
            &&& (e.camera_make is Some && e.camera_model is Some) ==> lines.contains(
                "Camera: "@ + e.camera_make->0@ + " "@ + e.camera_model->0@,
            )
            &&& (e.camera_make is Some && e.camera_model is None) ==> lines.contains(
                "Camera: "@ + e.camera_make->0@,
            )
            &&& (e.camera_make is None && e.camera_model is Some) ==> lines.contains(
                "Camera: "@ + e.camera_model->0@,
            )
            &&& (e.camera_wikipedia_url is Some && (e.camera_make is Some || e.camera_model is Some))
                ==> lines.contains(e.camera_wikipedia_url->0@)
        }),
{
    if e.camera_make is Some || e.camera_model is Some {
        let names = present(e.camera_make) + present(e.camera_model);
        let line = "Camera: "@ + seq_join(names, " "@);
        let first = seq![line];
        let rest = present(e.camera_wikipedia_url);
        assert(camera_lines(e) == first + rest);
        if let Some(m) = e.camera_make {
            if let Some(d) = e.camera_model {
                assert(names =~= seq![m@, d@]);
                assert(names.drop_last() =~= seq![m@]);
                assert(seq_join(names.drop_last(), " "@) == m@);
                assert(names.last() == d@);
                assert(seq_join(names, " "@) == m@ + " "@ + d@);
                assert(line =~= "Camera: "@ + m@ + " "@ + d@);
            } else {
                assert(names =~= seq![m@]);
            }
        } else if let Some(d) = e.camera_model {
            assert(names =~= seq![d@]);
        }
        lemma_in_one(line);
        lemma_in_left(first, rest, line);
        lemma_camera_line_in_exif(e, line);
        lemma_exif_line_in_reply(intro, c, city, e, links, nearby, line);
        if let Some(u) = e.camera_wikipedia_url {
            lemma_in_one(u@);
            lemma_in_right(first, rest, u@);
            lemma_camera_line_in_exif(e, u@);
            lemma_exif_line_in_reply(intro, c, city, e, links, nearby, u@);
        }
    }
}

/// The reply shows every EXIF field that the summary holds, each on a line of
/// its own made of the field's label and its value: the capture time, lens,
/// focal lengths, aperture, exposure, ISO, altitude, image direction, GPS speed
/// and software, and the camera (make and model joined by a space) followed by
/// its Wikipedia link.
pub proof fn law_reply_shows_every_exif_field(
    intro: Seq<char>,
    c: Coordinates,
    city: Option<Seq<char>>,
    e: ExifSummary,
    links: MapLinksView,
    nearby: Option<NearbyWikimedia>,
)
    ensures
        ({
            let lines = reply_lines(intro, c, city, Some(e), links, nearby);
            &&& e.captured_at matches Some(t) ==> lines.contains("Captured: "@ + t@)
            &&& e.lens_model matches Some(t) ==> lines.contains("Lens: "@ + t@)
            &&& e.focal_length_mm matches Some(v) ==> lines.contains(
                "Focal length: "@ + trimmed_decimal(v@) + " mm"@,
            )
            &&& e.focal_length_35mm matches Some(n) ==> lines.contains(
                "Focal length 35mm: "@ + number_text(n as nat) + " mm"@,
            )
            &&& e.f_number matches Some(v) ==> lines.contains("Aperture: f/"@ + trimmed_decimal(v@))
            &&& e.exposure_time matches Some(t) ==> lines.contains("Exposure: "@ + t@)
            &&& e.iso matches Some(n) ==> lines.contains("ISO: "@ + number_text(n as nat))
            &&& e.altitude_meters matches Some(v) ==> lines.contains(
                "Altitude: "@ + trimmed_decimal(v@) + " m"@,
            )
            &&& e.image_direction_degrees matches Some(v) ==> lines.contains(
                "Image direction: "@ + trimmed_decimal(v@) + " deg"@,
            )
            &&& e.gps_speed matches Some(t) ==> lines.contains("GPS speed: "@ + t@)
            &&& e.software matches Some(t) ==> lines.contains("Software: "@ + t@)
            &&& (e.camera_make is Some && e.camera_model is Some) ==> lines.contains(
                "Camera: "@ + e.camera_make->0@ + " "@ + e.camera_model->0@,
            )
            &&& (e.camera_make is Some && e.camera_model is None) ==> lines.contains(
                "Camera: "@ + e.camera_make->0@,
            )
            &&& (e.camera_make is None && e.camera_model is Some) ==> lines.contains(
                "Camera: "@ + e.camera_model->0@,
            )
            &&& (e.camera_wikipedia_url is Some && (e.camera_make is Some || e.camera_model is Some))
                ==> lines.contains(e.camera_wikipedia_url->0@)
        }),
{
    lemma_capture_fields_shown(intro, c, city, e, links, nearby);
    lemma_exposure_fields_shown(intro, c, city, e, links, nearby);
    lemma_camera_shown(intro, c, city, e, links, nearby);
}

/// Whether line `b` comes right after line `a` somewhere in `lines`.
pub open spec fn line_follows(lines: Seq<Seq<char>>, a: Seq<char>, b: Seq<char>) -> bool {
    exists|i: int| 0 <= i && i + 1 < lines.len() && #[trigger] lines[i] == a && lines[i + 1] == b
}

/// Two lines that follow each other in `b` follow each other in `a + b + c`.
proof fn lemma_follows_inside(
    a: Seq<Seq<char>>,
    b: Seq<Seq<char>>,
    c: Seq<Seq<char>>,
    x: Seq<char>,
    y: Seq<char>,
)
    requires
        line_follows(b, x, y),
    ensures
        line_follows(a + b + c, x, y),
{
    let i = choose|i: int| 0 <= i && i + 1 < b.len() && #[trigger] b[i] == x && b[i + 1] == y;
    let s = a + b + c;
    assert(s[a.len() + i] == x);
    assert(s[a.len() + i + 1] == y);
}

/// Every map link comes right after the name of its provider.
proof fn lemma_links_follow_providers(links: MapLinksView)
    ensures
        line_follows(link_lines(links), "Google Maps"@, links.google_maps),
        line_follows(link_lines(links), "Apple Maps"@, links.apple_maps),
        line_follows(link_lines(links), "Bing Maps"@, links.bing_maps),
        line_follows(link_lines(links), "Google Earth"@, links.google_earth),
        line_follows(link_lines(links), "Yandex Maps"@, links.yandex_maps),
        line_follows(link_lines(links), "2GIS"@, links.two_gis),
        line_follows(link_lines(links), "Mapillary"@, links.mapillary),
        line_follows(link_lines(links), "OpenStreetMap"@, links.openstreetmap),
        line_follows(link_lines(links), "Wikimapia"@, links.wikimapia),
        line_follows(link_lines(links), "GeoHack"@, links.geohack),
        line_follows(link_lines(links), "Wikimap Toolforge"@, links.wikimap_toolforge),
{
    let l = link_lines(links);
    let flat = seq![
        Seq::<char>::empty(), "Google Maps"@, links.google_maps,
        Seq::<char>::empty(), "Apple Maps"@, links.apple_maps,
        Seq::<char>::empty(), "Bing Maps"@, links.bing_maps,
        Seq::<char>::empty(), "Google Earth"@, links.google_earth,
        Seq::<char>::empty(), "Yandex Maps"@, links.yandex_maps,
        Seq::<char>::empty(), "2GIS"@, links.two_gis,
        Seq::<char>::empty(), "Mapillary"@, links.mapillary,
        Seq::<char>::empty(), "OpenStreetMap"@, links.openstreetmap,
        Seq::<char>::empty(), "Wikimapia"@, links.wikimapia,
        Seq::<char>::empty(), "GeoHack"@, links.geohack,
        Seq::<char>::empty(), "Wikimap Toolforge"@, links.wikimap_toolforge,
    ];
    assert(l =~= flat);
    assert(l[1] == "Google Maps"@);
    assert(l[4] == "Apple Maps"@);
    assert(l[7] == "Bing Maps"@);
    assert(l[10] == "Google Earth"@);
    assert(l[13] == "Yandex Maps"@);
    assert(l[16] == "2GIS"@);
    assert(l[19] == "Mapillary"@);
    assert(l[22] == "OpenStreetMap"@);
    assert(l[25] == "Wikimapia"@);
    assert(l[28] == "GeoHack"@);
    assert(l[31] == "Wikimap Toolforge"@);
    assert(l[2] == links.google_maps);
    assert(l[5] == links.apple_maps);
    assert(l[8] == links.bing_maps);
    assert(l[11] == links.google_earth);
    assert(l[14] == links.yandex_maps);
    assert(l[17] == links.two_gis);
    assert(l[20] == links.mapillary);
    assert(l[23] == links.openstreetmap);
    assert(l[26] == links.wikimapia);
    assert(l[29] == links.geohack);
    assert(l[32] == links.wikimap_toolforge);
}

/// A reply opens with its introduction and the coordinates, latitude first;
/// with a place, the place and where its name comes from follow; and every map
/// link comes right after its provider's name.
pub proof fn law_reply_shows_point_place_and_links(
    intro: Seq<char>,
    c: Coordinates,
    city: Option<Seq<char>>,
    exif: Option<ExifSummary>,
    links: MapLinksView,
    nearby: Option<NearbyWikimedia>,
)
    ensures
        ({
            let lines = reply_lines(intro, c, city, exif, links, nearby);
            &&& lines[0] == intro
            &&& lines[1] == "Coordinates: "@ + decimal_text(c.latitude) + ", "@ + decimal_text(
                c.longitude,
            )
            &&& city is Some ==> lines[2] == "Place: "@ + city->0 && lines[3]
                == "Place lookup: OpenStreetMap Nominatim"@
            &&& line_follows(lines, "Google Maps"@, links.google_maps)
            &&& line_follows(lines, "Apple Maps"@, links.apple_maps)
            &&& line_follows(lines, "Bing Maps"@, links.bing_maps)
            &&& line_follows(lines, "Google Earth"@, links.google_earth)
            &&& line_follows(lines, "Yandex Maps"@, links.yandex_maps)
            &&& line_follows(lines, "2GIS"@, links.two_gis)
            &&& line_follows(lines, "Mapillary"@, links.mapillary)
            &&& line_follows(lines, "OpenStreetMap"@, links.openstreetmap)
            &&& line_follows(lines, "Wikimapia"@, links.wikimapia)
            &&& line_follows(lines, "GeoHack"@, links.geohack)
            &&& line_follows(lines, "Wikimap Toolforge"@, links.wikimap_toolforge)
        }),
{
    let head = seq![intro, coordinates_line(c)] + place_lines(city);
    let middle = match exif {
        Some(e) if !summary_is_empty(e) => exif_lines(e),
        _ => Seq::empty(),
    };
    let tail = match nearby {
        Some(n) => nearby_lines(n),
        None => Seq::empty(),
    };
    let lines = reply_lines(intro, c, city, exif, links, nearby);
    assert(lines == (head + middle) + link_lines(links) + tail);
    assert(lines[0] == head[0] && lines[1] == head[1]);
    if city is Some {
        assert(lines[2] == head[2] && lines[3] == head[3]);
    }
    lemma_links_follow_providers(links);
    lemma_follows_inside(head + middle, link_lines(links), tail, "Google Maps"@, links.google_maps);
    lemma_follows_inside(head + middle, link_lines(links), tail, "Apple Maps"@, links.apple_maps);
    lemma_follows_inside(head + middle, link_lines(links), tail, "Bing Maps"@, links.bing_maps);
    lemma_follows_inside(head + middle, link_lines(links), tail, "Google Earth"@, links.google_earth);
    lemma_follows_inside(head + middle, link_lines(links), tail, "Yandex Maps"@, links.yandex_maps);
    lemma_follows_inside(head + middle, link_lines(links), tail, "2GIS"@, links.two_gis);
    lemma_follows_inside(head + middle, link_lines(links), tail, "Mapillary"@, links.mapillary);
    lemma_follows_inside(head + middle, link_lines(links), tail, "OpenStreetMap"@, links.openstreetmap);
    lemma_follows_inside(head + middle, link_lines(links), tail, "Wikimapia"@, links.wikimapia);
    lemma_follows_inside(head + middle, link_lines(links), tail, "GeoHack"@, links.geohack);
    lemma_follows_inside(
        head + middle,
        link_lines(links),
        tail,
        "Wikimap Toolforge"@,
        links.wikimap_toolforge,
    );
}

} // verus!
