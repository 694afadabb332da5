use telegram_photo_geolocator_bot::geo::{Angle, Coordinates};
use telegram_photo_geolocator_bot::geocoder::{
    reverse_query, NominatimAddress, NominatimReverseResponse,
};

#[test]
fn formats_city_with_country() {
    let response = NominatimReverseResponse {
        address: Some(NominatimAddress {
            city: Some("Tbilisi".to_string()),
            country: Some("Georgia".to_string()),
            ..NominatimAddress::default()
        }),
    };

    assert_eq!(response.city_label().as_deref(), Some("Tbilisi, Georgia"));
}

#[test]
fn falls_back_to_town_or_state() {
    let response = NominatimReverseResponse {
        address: Some(NominatimAddress {
            town: Some("Sutton Coldfield".to_string()),
            country: Some("United Kingdom".to_string()),
            ..NominatimAddress::default()
        }),
    };
    assert_eq!(
        response.city_label().as_deref(),
        Some("Sutton Coldfield, United Kingdom")
    );

    let response = NominatimReverseResponse {
        address: Some(NominatimAddress {
            state: Some("Nevada".to_string()),
            country: Some("United States".to_string()),
            ..NominatimAddress::default()
        }),
    };
    assert_eq!(
        response.city_label().as_deref(),
        Some("Nevada, United States")
    );
}

#[test]
fn falls_back_to_village_or_hamlet() {
    let response = NominatimReverseResponse {
        address: Some(NominatimAddress {
            village: Some("Porozovo".to_string()),
            country: Some("Belarus".to_string()),
            ..NominatimAddress::default()
        }),
    };
    assert_eq!(response.city_label().as_deref(), Some("Porozovo, Belarus"));

    let response = NominatimReverseResponse {
        address: Some(NominatimAddress {
            hamlet: Some("Small Place".to_string()),
            country: Some("Ireland".to_string()),
            ..NominatimAddress::default()
        }),
    };
    assert_eq!(
        response.city_label().as_deref(),
        Some("Small Place, Ireland")
    );
}

#[test]
fn skips_blank_places_and_repeated_country() {
    let response = NominatimReverseResponse {
        address: Some(NominatimAddress {
            city: Some("  ".to_string()),
            municipality: Some("Monaco".to_string()),
            country: Some("Monaco".to_string()),
            ..NominatimAddress::default()
        }),
    };
    assert_eq!(response.city_label().as_deref(), Some("Monaco"));

    let response = NominatimReverseResponse {
        address: Some(NominatimAddress {
            county: Some("Kent".to_string()),
            country: Some(" ".to_string()),
            ..NominatimAddress::default()
        }),
    };
    assert_eq!(response.city_label().as_deref(), Some("Kent"));

    let response = NominatimReverseResponse {
        address: Some(NominatimAddress {
            country: Some("Antarctica".to_string()),
            ..NominatimAddress::default()
        }),
    };
    assert_eq!(response.city_label(), None);
    assert_eq!(NominatimReverseResponse { address: None }.city_label(), None);
}

#[test]
fn builds_reverse_geocoding_query() {
    let coordinates = Coordinates {
        latitude: Angle {
            fixed: "41.7151370".to_string(),
            magnitude: "41.715137".to_string(),
            negative: false,
        },
        longitude: Angle {
            fixed: "-0.5000000".to_string(),
            magnitude: "0.500000".to_string(),
            negative: true,
        },
    };
    let query = reverse_query(&coordinates, Some("me@example.org"));
    let pairs: Vec<(&str, &str)> = query.iter().map(|(n, v)| (n.as_str(), v.as_str())).collect();
    assert_eq!(
        pairs,
        vec![
            ("format", "jsonv2"),
            ("addressdetails", "1"),
            ("zoom", "10"),
            ("layer", "address"),
            ("lat", "41.715137"),
            ("lon", "-0.5"),
            ("email", "me@example.org"),
        ]
    );
    assert_eq!(reverse_query(&coordinates, None).len(), 6);
}
