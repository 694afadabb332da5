use telegram_photo_geolocator_bot::exif_geo::ExifSummary;
use telegram_photo_geolocator_bot::geo::{Angle, Coordinates, Distance};
use telegram_photo_geolocator_bot::links::MapLinks;
use telegram_photo_geolocator_bot::reply::{
    distance_km, distance_meters, help_text, location_reply_text, short_number,
};
use telegram_photo_geolocator_bot::wikimedia::{
    NearbyWikidataItem, NearbyWikimedia, NearbyWikipediaArticle,
};

fn angle(value: f64) -> Angle {
    Angle {
        fixed: format!("{value:.7}"),
        magnitude: format!("{:.6}", value.abs()),
        negative: value < 0.0,
    }
}

fn coordinates(latitude: f64, longitude: f64) -> Coordinates {
    Coordinates {
        latitude: angle(latitude),
        longitude: angle(longitude),
    }
}

fn distance(value: f64, precision: usize) -> Distance {
    Distance {
        bits: value.to_bits(),
        text: format!("{value:.precision$}"),
    }
}

fn measure(value: f64) -> String {
    format!("{value:.2}")
}

#[test]
fn formats_reply_with_city_and_all_links() {
    let coordinates = coordinates(41.715137, 44.827096);
    let links = MapLinks::for_coordinates(&coordinates, Some("tbilisi.jpg"));
    let reply = location_reply_text(
        "Location found in EXIF metadata.",
        &coordinates,
        Some("Tbilisi, Georgia"),
        None,
        &links,
        None,
    );

    assert!(reply.contains("Location found in EXIF metadata."));
    assert!(reply.contains("Place: Tbilisi, Georgia"));
    assert!(reply.contains("\n\nGoogle Maps\nhttps://www.google.com/maps/search/"));
    assert!(reply.contains("\n\nApple Maps\nhttps://maps.apple.com/"));
    assert!(reply.contains("\n\nBing Maps\nhttps://bing.com/maps/"));
    assert!(reply.contains("\n\nGoogle Earth\nhttps://earth.google.com/web/search/"));
    assert!(reply.contains("\n\nYandex Maps\nhttps://yandex.com/maps/"));
    assert!(reply.contains("\n\n2GIS\nhttps://2gis.com/geo/"));
    assert!(reply.contains("\n\nMapillary\nhttps://www.mapillary.com/app/"));
    assert!(reply.contains("\n\nOpenStreetMap\nhttps://www.openstreetmap.org/"));
    assert!(reply.contains("\n\nWikimapia\nhttps://wikimapia.org/"));
    assert!(reply.contains("\n\nGeoHack\nhttps://geohack.toolforge.org/"));
    assert!(reply.contains("\n\nWikimap Toolforge\nhttps://wikimap.toolforge.org/"));
    assert!(!reply.contains("Google Maps:"));
}

#[test]
fn formats_nearby_results_with_distance_and_direction() {
    let coordinates = coordinates(41.715137, 44.827096);
    let links = MapLinks::for_coordinates(&coordinates, None);
    let nearby = NearbyWikimedia {
        wikidata_items: vec![NearbyWikidataItem {
            id: "Q1".to_string(),
            label: "Nearby item".to_string(),
            url: "https://www.wikidata.org/wiki/Q1".to_string(),
            distance_km: Some(distance(0.42, 2)),
            direction: Some("NE".to_string()),
        }],
        wikipedia_articles: vec![NearbyWikipediaArticle {
            title: "Nearby article".to_string(),
            language: "en".to_string(),
            url: "https://en.wikipedia.org/wiki/Nearby_article".to_string(),
            distance_meters: Some(distance(180.0, 0)),
            direction: Some("W".to_string()),
        }],
    };
    let reply = location_reply_text(
        "Location received from Telegram.",
        &coordinates,
        None,
        None,
        &links,
        Some(&nearby),
    );

    assert!(reply.contains("Nearby item (Q1, 0.42 km NE)"));
    assert!(reply.contains("Nearby article [en] (180 m W)"));
}

#[test]
fn formats_exif_summary_with_camera_wikipedia_link() {
    let coordinates = coordinates(41.715137, 44.827096);
    let links = MapLinks::for_coordinates(&coordinates, None);
    let exif = ExifSummary {
        camera_make: Some("Apple".to_string()),
        camera_model: Some("iPhone 15 Pro".to_string()),
        camera_wikipedia_url: Some(
            "https://en.wikipedia.org/wiki/Special:Search?search=Apple%20iPhone%2015%20Pro"
                .to_string(),
        ),
        f_number: Some(measure(1.78)),
        iso: Some(80),
        ..ExifSummary::default()
    };
    let reply = location_reply_text(
        "Location found in EXIF metadata.",
        &coordinates,
        None,
        Some(&exif),
        &links,
        None,
    );

    assert!(reply.contains("EXIF:"));
    assert!(reply.contains("Camera: Apple iPhone 15 Pro\nhttps://en.wikipedia.org/wiki/Special:Search?search=Apple%20iPhone%2015%20Pro"));
    assert!(reply.contains("Aperture: f/1.78"));
    assert!(reply.contains("ISO: 80"));
}

#[test]
fn formats_help_with_repo_support_and_privacy() {
    let help = help_text(
        "Telegram Photo Geolocator",
        "https://github.com/vitaly-zdanevich/bot_telegram_geolocation_from_photo",
    );

    assert!(help.contains(
        "Repo: https://github.com/vitaly-zdanevich/bot_telegram_geolocation_from_photo"
    ));
    assert!(help.contains("Support: @vitaly_zdanevich"));
    assert!(help.contains("stateless AWS Lambda"));
    assert!(help.contains("does not store photos"));
    assert!(help.contains("Commands: /help"));
    assert!(!help.contains("/privacy"));
}

#[test]
fn reply_lines_come_in_a_fixed_order() {
    let coordinates = coordinates(-33.858667, 151.2085);
    let links = MapLinks::for_coordinates(&coordinates, None);
    let exif = ExifSummary {
        camera_make: Some("Canon".to_string()),
        focal_length_mm: Some(measure(50.0)),
        focal_length_35mm: Some(80),
        altitude_meters: Some(measure(-12.5)),
        image_direction_degrees: Some(measure(271.25)),
        gps_speed: Some("3.5 km/h".to_string()),
        software: Some("Firmware 1.0".to_string()),
        ..ExifSummary::default()
    };
    let reply = location_reply_text(
        "Intro",
        &coordinates,
        Some("Sydney, Australia"),
        Some(&exif),
        &links,
        None,
    );
    let lines: Vec<&str> = reply.split('\n').collect();
    assert_eq!(lines[0], "Intro");
    assert_eq!(lines[1], "Coordinates: -33.858667, 151.2085");
    assert_eq!(lines[2], "Place: Sydney, Australia");
    assert_eq!(lines[3], "Place lookup: OpenStreetMap Nominatim");
    assert_eq!(lines[4], "");
    assert_eq!(lines[5], "EXIF:");
    assert_eq!(lines[6], "Camera: Canon");
    assert_eq!(lines[7], "Focal length: 50 mm");
    assert_eq!(lines[8], "Focal length 35mm: 80 mm");
    assert_eq!(lines[9], "Altitude: -12.5 m");
    assert_eq!(lines[10], "Image direction: 271.25 deg");
    assert_eq!(lines[11], "GPS speed: 3.5 km/h");
    assert_eq!(lines[12], "Software: Firmware 1.0");
    assert_eq!(lines[13], "");
    assert_eq!(lines[14], "Google Maps");
    assert_eq!(lines[15], links.google_maps);
    assert_eq!(lines.last().copied(), Some(links.wikimap_toolforge.as_str()));
    assert_eq!(lines.len(), 13 + 3 * 11);
}

#[test]
fn empty_exif_summary_is_left_out() {
    let coordinates = coordinates(1.0, 2.0);
    let links = MapLinks::for_coordinates(&coordinates, None);
    let exif = ExifSummary {
        camera_wikipedia_url: Some("https://example.org".to_string()),
        ..ExifSummary::default()
    };
    assert!(exif.is_empty());
    let reply = location_reply_text("Intro", &coordinates, None, Some(&exif), &links, None);
    assert!(!reply.contains("EXIF:"));
    assert!(!reply.contains("https://example.org"));
}

#[test]
fn empty_nearby_lists_get_no_heading() {
    let coordinates = coordinates(1.0, 2.0);
    let links = MapLinks::for_coordinates(&coordinates, None);
    let nearby = NearbyWikimedia {
        wikidata_items: Vec::new(),
        wikipedia_articles: vec![NearbyWikipediaArticle {
            title: "Far".to_string(),
            language: "ru".to_string(),
            url: "https://ru.wikipedia.org/wiki/Far".to_string(),
            distance_meters: None,
            direction: None,
        }],
    };
    let reply = location_reply_text("Intro", &coordinates, None, None, &links, Some(&nearby));
    assert!(!reply.contains("Nearest Wikidata items"));
    assert!(reply.ends_with(
        "\n\nNearest Wikipedia articles (from this point):\n- Far [ru] (distance unknown) https://ru.wikipedia.org/wiki/Far"
    ));
}

#[test]
fn writes_distances_with_and_without_direction() {
    assert_eq!(distance_km(&Some(distance(1.5, 2)), Some("N")), "1.50 km N");
    assert_eq!(distance_km(&Some(distance(1.5, 2)), None), "1.50 km");
    assert_eq!(distance_km(&None, Some("SW")), "distance unknown, SW");
    assert_eq!(distance_km(&None, None), "distance unknown");
    assert_eq!(distance_meters(&Some(distance(12.4, 0)), Some("E")), "12 m E");
    assert_eq!(distance_meters(&Some(distance(12.4, 0)), None), "12 m");
    assert_eq!(distance_meters(&None, Some("E")), "distance unknown, E");
    assert_eq!(distance_meters(&None, None), "distance unknown");
}

#[test]
fn short_numbers_drop_trailing_zeros() {
    assert_eq!(short_number(&measure(1.78)), "1.78");
    assert_eq!(short_number(&measure(2.5)), "2.5");
    assert_eq!(short_number(&measure(4.0)), "4");
    assert_eq!(short_number(&measure(100.0)), "100");
}
