use telegram_photo_geolocator_bot::geo::{decimal, Angle, Coordinates};
use telegram_photo_geolocator_bot::links::{clean_file_name, pad_zeros, MapLinks};

fn angle(value: f64) -> Angle {
    Angle {
        fixed: format!("{value:.7}"),
        magnitude: format!("{:.6}", value.abs()),
        negative: value < 0.0,
    }
}

fn coordinates(latitude: f64, longitude: f64) -> Coordinates {
    Coordinates {
        latitude: angle(latitude),
        longitude: angle(longitude),
    }
}

#[test]
fn trims_coordinate_decimals() {
    assert_eq!(decimal(&format!("{:.7}", 41.7000000)), "41.7");
    assert_eq!(decimal(&format!("{:.7}", -122.3316393)), "-122.3316393");
}

#[test]
fn builds_all_map_links() {
    let links = MapLinks::for_coordinates(
        &coordinates(47.5951518, -122.3316393),
        Some("Lumen Field.jpg"),
    );

    assert_eq!(
        links.google_maps,
        "https://www.google.com/maps/search/?api=1&query=47.5951518%2C-122.3316393"
    );
    assert!(links.bing_maps.contains("cp=47.5951518~-122.3316393"));
    assert!(
        links
            .bing_maps
            .contains("sp=point.47.5951518_-122.3316393_Photo%20location")
    );
    assert_eq!(
        links.apple_maps,
        "https://maps.apple.com/?ll=47.5951518,-122.3316393&q=Photo%20location&z=18"
    );
    assert_eq!(
        links.two_gis,
        "https://2gis.com/geo/-122.3316393%2C47.5951518"
    );
    assert_eq!(
        links.mapillary,
        "https://www.mapillary.com/app/?lat=47.5951518&lng=-122.3316393&z=17"
    );
    assert_eq!(
        links.yandex_maps,
        "https://yandex.com/maps/?ll=-122.3316393%2C47.5951518&z=18&pt=-122.3316393%2C47.5951518,pm2rdm"
    );
    assert_eq!(
        links.wikimapia,
        "https://wikimapia.org/#lat=47.5951518&lon=-122.3316393&z=18&l=0&m=w"
    );
    assert_eq!(
        links.openstreetmap,
        "https://www.openstreetmap.org/?mlat=47.5951518&mlon=-122.3316393#map=18/47.5951518/-122.3316393"
    );
    assert_eq!(
        links.google_earth,
        "https://earth.google.com/web/search/47.5951518,-122.3316393"
    );
    assert_eq!(
        links.geohack,
        "https://geohack.toolforge.org/geohack.php?pagename=File%3ALumen%20Field.jpg&params=047.595152_N_0122.331639_W_globe:Earth_type:camera__&language=en"
    );
    assert_eq!(
        links.wikimap_toolforge,
        "https://wikimap.toolforge.org/?lat=47.5951518&lon=-122.3316393&zoom=18&lang=en&camera=true"
    );
}

#[test]
fn geohack_falls_back_to_a_default_file_name() {
    let place = coordinates(-1.5, 2.25);
    let without_name = MapLinks::for_coordinates(&place, None);
    let blank_name = MapLinks::for_coordinates(&place, Some(" /\u{7}\\ "));
    let expected = "https://geohack.toolforge.org/geohack.php?pagename=File%3APhoto.jpg&params=001.500000_S_0002.250000_E_globe:Earth_type:camera__&language=en";
    assert_eq!(without_name.geohack, expected);
    assert_eq!(blank_name.geohack, expected);
}

#[test]
fn geohack_encodes_non_ascii_file_names() {
    let links = MapLinks::for_coordinates(&coordinates(0.0, 0.0), Some("Тбилиси.jpg"));
    assert!(links.geohack.starts_with(
        "https://geohack.toolforge.org/geohack.php?pagename=File%3A%D0%A2%D0%B1%D0%B8%D0%BB%D0%B8%D1%81%D0%B8.jpg&params="
    ));
    assert!(links.geohack.contains("&params=000.000000_N_0000.000000_E_"));
}

#[test]
fn cleans_file_names() {
    assert_eq!(clean_file_name("  a/b\\c\td.jpg  "), "abcd.jpg");
    assert_eq!(clean_file_name("\u{85}x\u{9f}"), "x");
    assert_eq!(clean_file_name("/\\"), "");
}

#[test]
fn pads_with_zeros_to_width() {
    assert_eq!(pad_zeros("1.5", 6), "0001.5");
    assert_eq!(pad_zeros("123.456789", 10), "123.456789");
    assert_eq!(pad_zeros("1234.567890", 10), "1234.567890");
}

#[test]
fn every_link_carries_the_printed_coordinates() {
    let links = MapLinks::for_coordinates(&coordinates(10.0, -20.5), None);
    for link in [
        &links.google_maps,
        &links.bing_maps,
        &links.apple_maps,
        &links.two_gis,
        &links.mapillary,
        &links.yandex_maps,
        &links.wikimapia,
        &links.openstreetmap,
        &links.google_earth,
        &links.wikimap_toolforge,
    ] {
        assert!(link.contains("10"));
        assert!(link.contains("-20.5"));
        assert!(!link.contains("10.0"));
    }
}

#[test]
fn shared_locations_get_the_same_links() {
    let point = coordinates(41.715137, 44.827096);
    let from_image = MapLinks::for_coordinates(&point, Some("tbilisi.jpg"));
    let shared = MapLinks::for_coordinates(&point, None);
    assert_eq!(
        MapLinks {
            geohack: shared.geohack.clone(),
            ..from_image.clone()
        },
        shared
    );
    assert_ne!(from_image.geohack, shared.geohack);
    assert!(shared.geohack.contains("pagename=File%3APhoto.jpg"));
    assert_eq!(
        MapLinks::for_coordinates(&point, Some(" \u{7}/ ")),
        shared
    );
}
