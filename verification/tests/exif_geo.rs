use telegram_photo_geolocator_bot::exif_geo::{
    camera_wikipedia_url, clean_text, gps_speed_text, gps_speed_unit, seconds_text, ExifSummary,
};

#[test]
fn builds_camera_wikipedia_search_url() {
    assert_eq!(
        camera_wikipedia_url(Some("Apple"), Some("iPhone 15 Pro")).as_deref(),
        Some("https://en.wikipedia.org/wiki/Special:Search?search=Apple%20iPhone%2015%20Pro")
    );
    assert_eq!(
        camera_wikipedia_url(Some("  "), Some(" NIKON Z 6_2 ")).as_deref(),
        Some("https://en.wikipedia.org/wiki/Special:Search?search=NIKON%20Z%206_2")
    );
    assert_eq!(
        camera_wikipedia_url(Some("Fujifilm"), None).as_deref(),
        Some("https://en.wikipedia.org/wiki/Special:Search?search=Fujifilm")
    );
    assert_eq!(camera_wikipedia_url(Some(" "), Some("")), None);
    assert_eq!(camera_wikipedia_url(None, None), None);
    assert_eq!(
        camera_wikipedia_url(Some("Sony"), Some("α7 IV")).as_deref(),
        Some("https://en.wikipedia.org/wiki/Special:Search?search=Sony%20%CE%B17%20IV")
    );
}

#[test]
fn cleans_exif_text() {
    assert_eq!(clean_text("Canon\0\0"), "Canon");
    assert_eq!(clean_text("\0 EOS R5 \0"), "EOS R5");
    assert_eq!(clean_text("  \0x\0  "), "\0x\0");
    assert_eq!(clean_text("\0\0"), "");
}

#[test]
fn names_gps_speed_units() {
    assert_eq!(gps_speed_unit('K'), "km/h");
    assert_eq!(gps_speed_unit('m'), "mph");
    assert_eq!(gps_speed_unit('N'), "knots");
    assert_eq!(gps_speed_unit('x'), "km/h");
    assert_eq!(gps_speed_text(&format!("{:.2}", 12.5), Some("M")), "12.5 mph");
    assert_eq!(gps_speed_text(&format!("{:.2}", 3.0), Some("N")), "3 knots");
    assert_eq!(gps_speed_text(&format!("{:.2}", 0.126), None), "0.13 km/h");
}

#[test]
fn writes_seconds() {
    assert_eq!(seconds_text(&format!("{:.4}", 2.5)), "2.5 s");
    assert_eq!(seconds_text(&format!("{:.4}", 0.3)), "0.3 s");
    assert_eq!(seconds_text(&format!("{:.4}", 30.0)), "30 s");
}

#[test]
fn summary_is_empty_only_without_fields() {
    assert!(ExifSummary::default().is_empty());
    let summary = ExifSummary {
        iso: Some(100),
        ..ExifSummary::default()
    };
    assert!(!summary.is_empty());
}
