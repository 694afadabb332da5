use serde_json::Value;
use telegram_photo_geolocator_bot::geo::{Angle, Coordinates, Distance};
use telegram_photo_geolocator_bot::wikimedia::{
    deduplicate_articles, geosearch_articles, into_article, language_rank, sitelink_articles,
    wikidata_id_from_url, wikidata_items, wikidata_label_languages, wikipedia_endpoints,
    wikipedia_language_from_url, wikipedia_title_from_url, GeoPage, NearbyWikidataItem,
    NearbyWikipediaArticle, SitelinkBinding, WikidataItemBinding, WikimediaSearch,
};

// The geometry below is what the bot's runtime does with the `f64` values
// before it hands rows to the library.

fn angle(value: f64) -> Angle {
    Angle {
        fixed: format!("{value:.7}"),
        magnitude: format!("{:.6}", value.abs()),
        negative: value < 0.0,
    }
}

fn coordinates(latitude: f64, longitude: f64) -> Coordinates {
    Coordinates {
        latitude: angle(latitude),
        longitude: angle(longitude),
    }
}

fn distance(value: f64, precision: usize) -> Distance {
    Distance {
        bits: value.to_bits(),
        text: format!("{value:.precision$}"),
    }
}

fn parse_wkt_point(value: &str) -> Option<(f64, f64)> {
    let inner = value.strip_prefix("Point(")?.strip_suffix(')')?;
    let mut parts = inner.split_whitespace();
    let longitude = parts.next()?.parse::<f64>().ok()?;
    let latitude = parts.next()?.parse::<f64>().ok()?;
    ((-90.0..=90.0).contains(&latitude) && (-180.0..=180.0).contains(&longitude))
        .then_some((latitude, longitude))
}

fn distance_km_between(origin: (f64, f64), target: (f64, f64)) -> f64 {
    let lat1 = origin.0.to_radians();
    let lat2 = target.0.to_radians();
    let delta_lat = (target.0 - origin.0).to_radians();
    let delta_lon = (target.1 - origin.1).to_radians();
    let a =
        (delta_lat / 2.0).sin().powi(2) + lat1.cos() * lat2.cos() * (delta_lon / 2.0).sin().powi(2);
    6371.0088 * 2.0 * a.sqrt().atan2((1.0 - a).sqrt())
}

fn compass_direction(origin: (f64, f64), target: (f64, f64)) -> Option<String> {
    const DIRECTIONS: [&str; 16] = [
        "N", "NNE", "NE", "ENE", "E", "ESE", "SE", "SSE", "S", "SSW", "SW", "WSW", "W", "WNW",
        "NW", "NNW",
    ];
    if (origin.0 - target.0).abs() < f64::EPSILON && (origin.1 - target.1).abs() < f64::EPSILON {
        return None;
    }
    let lat1 = origin.0.to_radians();
    let lat2 = target.0.to_radians();
    let delta_lon = (target.1 - origin.1).to_radians();
    let y = delta_lon.sin() * lat2.cos();
    let x = lat1.cos() * lat2.sin() - lat1.sin() * lat2.cos() * delta_lon.cos();
    let bearing = (y.atan2(x).to_degrees() + 360.0) % 360.0;
    Some(DIRECTIONS[((bearing + 11.25) / 22.5).floor() as usize % 16].to_string())
}

fn text(binding: &Value, field: &str) -> Option<String> {
    binding
        .get(field)
        .and_then(|value| value.get("value"))
        .and_then(Value::as_str)
        .map(str::to_string)
}

fn geometry(binding: &Value, origin: (f64, f64)) -> (Option<f64>, Option<String>) {
    let reported = text(binding, "distance").and_then(|value| value.parse::<f64>().ok());
    let location = text(binding, "location").and_then(|value| parse_wkt_point(&value));
    let km = reported.or_else(|| location.map(|target| distance_km_between(origin, target)));
    (km, location.and_then(|target| compass_direction(origin, target)))
}

fn item_rows(json: &str, origin: (f64, f64)) -> Vec<WikidataItemBinding> {
    let value: Value = serde_json::from_str(json).unwrap();
    value["results"]["bindings"]
        .as_array()
        .unwrap()
        .iter()
        .map(|binding| {
            let (km, direction) = geometry(binding, origin);
            WikidataItemBinding {
                item: text(binding, "item").unwrap(),
                item_label: text(binding, "itemLabel"),
                distance_km: km.map(|km| distance(km, 2)),
                direction,
            }
        })
        .collect()
}

fn sitelink_rows(json: &str, origin: (f64, f64)) -> Vec<SitelinkBinding> {
    let value: Value = serde_json::from_str(json).unwrap();
    value["results"]["bindings"]
        .as_array()
        .unwrap()
        .iter()
        .map(|binding| {
            let (km, direction) = geometry(binding, origin);
            SitelinkBinding {
                item: text(binding, "item").unwrap(),
                article: text(binding, "article"),
                distance_meters: km.map(|km| distance(km * 1000.0, 0)),
                direction,
            }
        })
        .collect()
}

fn geosearch_pages(json: &str, origin: (f64, f64)) -> Vec<GeoPage> {
    let value: Value = serde_json::from_str(json).unwrap();
    value["query"]["geosearch"]
        .as_array()
        .unwrap()
        .iter()
        .map(|page| {
            let target = page["lat"]
                .as_f64()
                .zip(page["lon"].as_f64())
                .filter(|(lat, lon)| (-90.0..=90.0).contains(lat) && (-180.0..=180.0).contains(lon));
            let meters = page["dist"]
                .as_f64()
                .or_else(|| target.map(|target| distance_km_between(origin, target) * 1000.0));
            GeoPage {
                title: page["title"].as_str().unwrap().to_string(),
                distance_meters: meters.map(|meters| distance(meters, 0)),
                direction: target.and_then(|target| compass_direction(origin, target)),
            }
        })
        .collect()
}

fn km(item: &NearbyWikidataItem) -> Option<f64> {
    item.distance_km.as_ref().map(|d| f64::from_bits(d.bits))
}

fn meters(article: &NearbyWikipediaArticle) -> Option<f64> {
    article.distance_meters.as_ref().map(|d| f64::from_bits(d.bits))
}

#[test]
fn parses_wikidata_sparql_response() {
    let json = r#"{
			"results": {
				"bindings": [{
					"item": {"type": "uri", "value": "http://www.wikidata.org/entity/Q9188"},
					"itemLabel": {"xml:lang": "en", "type": "literal", "value": "Empire State Building"},
					"location": {"datatype": "http://www.opengis.net/ont/geosparql#wktLiteral", "type": "literal", "value": "Point(-73.985656 40.748433)"},
					"distance": {"datatype": "http://www.w3.org/2001/XMLSchema#double", "type": "literal", "value": "0.012"}
				}]
			}
		}"#;
    let items = wikidata_items(item_rows(json, (40.7484, -73.9857)), 5);

    assert_eq!(items[0].id, "Q9188");
    assert_eq!(items[0].label, "Empire State Building");
    assert_eq!(km(&items[0]), Some(0.012));
    assert!(items[0].direction.is_some());
}

#[test]
fn parses_wikipedia_geosearch_response() {
    let json = r#"{
			"query": {
				"geosearch": [{
					"pageid": 18618509,
					"ns": 0,
					"title": "Wikimedia Foundation",
					"lat": 37.7891838,
					"lon": -122.4033522,
					"dist": 0
				}]
			}
		}"#;
    let articles = geosearch_articles(geosearch_pages(json, (37.789, -122.403)), "en", 5);

    assert_eq!(articles[0].title, "Wikimedia Foundation");
    assert_eq!(articles[0].language, "en");
    assert_eq!(
        articles[0].url,
        "https://en.wikipedia.org/wiki/Wikimedia_Foundation"
    );
    assert_eq!(meters(&articles[0]), Some(0.0));
    assert!(articles[0].direction.is_some());
}

#[test]
fn sorts_results_by_distance() {
    let wikidata_json = r#"{
			"results": {
				"bindings": [
					{
						"item": {"type": "uri", "value": "http://www.wikidata.org/entity/Q2"},
						"itemLabel": {"type": "literal", "value": "Far"},
						"distance": {"type": "literal", "value": "5"}
					},
					{
						"item": {"type": "uri", "value": "http://www.wikidata.org/entity/Q1"},
						"itemLabel": {"type": "literal", "value": "Near"},
						"distance": {"type": "literal", "value": "1"}
					}
				]
			}
		}"#;
    let origin = (0.0, 0.0);
    let items = wikidata_items(item_rows(wikidata_json, origin), 5);
    assert_eq!(items[0].id, "Q1");

    let wikipedia_json = r#"{
			"query": {
				"geosearch": [
					{"title": "Far", "dist": 5000},
					{"title": "Near", "dist": 1000}
				]
			}
		}"#;
    let articles = geosearch_articles(geosearch_pages(wikipedia_json, origin), "en", 5);
    assert_eq!(articles[0].title, "Near");
}

#[test]
fn picks_preferred_language_from_wikidata_sitelinks() {
    let json = r#"{
			"results": {
				"bindings": [
					{
						"item": {"type": "uri", "value": "http://www.wikidata.org/entity/Q1"},
						"article": {"type": "uri", "value": "https://fr.wikipedia.org/wiki/French_title"},
						"distance": {"type": "literal", "value": "0.1"}
					},
					{
						"item": {"type": "uri", "value": "http://www.wikidata.org/entity/Q1"},
						"article": {"type": "uri", "value": "https://ru.wikipedia.org/wiki/Russian_title"},
						"distance": {"type": "literal", "value": "0.1"}
					},
					{
						"item": {"type": "uri", "value": "http://www.wikidata.org/entity/Q2"},
						"article": {"type": "uri", "value": "https://be.wikipedia.org/wiki/Belarusian_title"},
						"distance": {"type": "literal", "value": "0.2"}
					}
				]
			}
		}"#;
    let origin = (0.0, 0.0);
    let preferred_languages = vec!["en".to_string(), "ru".to_string(), "be".to_string()];
    let articles = sitelink_articles(sitelink_rows(json, origin), 5, &preferred_languages);

    assert_eq!(articles[0].title, "Russian title");
    assert_eq!(articles[0].language, "ru");
    assert_eq!(articles[1].title, "Belarusian title");
    assert_eq!(articles[1].language, "be");
}

fn item_row(qid: &str, label: Option<&str>, km: Option<f64>) -> WikidataItemBinding {
    WikidataItemBinding {
        item: format!("http://www.wikidata.org/entity/{qid}"),
        item_label: label.map(str::to_string),
        distance_km: km.map(|km| distance(km, 2)),
        direction: None,
    }
}

#[test]
fn items_keep_ties_in_order_and_unknown_distances_last() {
    let rows = vec![
        item_row("Q5", Some("unknown"), None),
        item_row("Q3", Some("b"), Some(1.0)),
        item_row("L7", Some("lexeme"), Some(0.0)),
        item_row("Q4", Some("   "), Some(1.0)),
        item_row("Q1", None, Some(0.5)),
    ];
    let items = wikidata_items(rows, 10);
    let ids: Vec<&str> = items.iter().map(|item| item.id.as_str()).collect();
    assert_eq!(ids, vec!["Q1", "Q3", "Q4", "Q5"]);
    assert_eq!(items[0].label, "Q1");
    assert_eq!(items[2].label, "Q4");
    assert_eq!(items[0].url, "http://www.wikidata.org/entity/Q1");
    let two = wikidata_items(vec![item_row("Q2", None, Some(2.0)), item_row("Q1", None, Some(1.0)), item_row("Q3", None, Some(3.0))], 2);
    assert_eq!(two.len(), 2);
    assert_eq!(two[1].id, "Q2");
    assert!(wikidata_items(vec![item_row("Q1", None, None)], 0).is_empty());
}

#[test]
fn sitelinks_pick_one_article_per_item_up_to_the_limit() {
    let row = |qid: &str, url: &str, meters: f64| SitelinkBinding {
        item: format!("http://www.wikidata.org/entity/{qid}"),
        article: Some(url.to_string()),
        distance_meters: Some(distance(meters, 0)),
        direction: None,
    };
    let preferred = vec!["en".to_string()];
    let rows = vec![
        row("Q1", "https://de.wikipedia.org/wiki/Eins", 10.0),
        row("Q1", "https://en.wikipedia.org/wiki/One", 10.0),
        row("Q2", "https://en.wikipedia.org/wiki/Two", 20.0),
        row("Q3", "https://en.wikipedia.org/wiki/Three", 30.0),
        row("Q4", "https://example.org/wiki/Four", 1.0),
    ];
    let two = sitelink_articles(rows.clone(), 2, &preferred);
    let titles: Vec<&str> = two.iter().map(|a| a.title.as_str()).collect();
    assert_eq!(titles, vec!["One", "Two"]);
    let at_least_one = sitelink_articles(rows, 0, &preferred);
    assert_eq!(at_least_one.len(), 1);
    assert_eq!(at_least_one[0].title, "One");
}

#[test]
fn reads_wikimedia_urls() {
    assert_eq!(
        wikidata_id_from_url("http://www.wikidata.org/entity/Q42").as_deref(),
        Some("Q42")
    );
    assert_eq!(wikidata_id_from_url("http://www.wikidata.org/entity/Q"), None);
    assert_eq!(wikidata_id_from_url("http://www.wikidata.org/entity/P31"), None);
    assert_eq!(wikidata_id_from_url("Q12x"), None);
    assert_eq!(
        wikipedia_language_from_url("https://be-tarask.wikipedia.org/wiki/X").as_deref(),
        Some("be-tarask")
    );
    assert_eq!(
        wikipedia_language_from_url("http://en.wikipedia.org").as_deref(),
        Some("en")
    );
    assert_eq!(wikipedia_language_from_url("https://.wikipedia.org/wiki/X"), None);
    assert_eq!(wikipedia_language_from_url("ftp://en.wikipedia.org/wiki/X"), None);
    assert_eq!(wikipedia_language_from_url("https://en.wikivoyage.org/wiki/X"), None);
    assert_eq!(
        wikipedia_title_from_url("https://ru.wikipedia.org/wiki/%D0%9C%D0%B8%D0%BD%D1%81%D0%BA")
            .as_deref(),
        Some("Минск")
    );
    assert_eq!(
        wikipedia_title_from_url("https://en.wikipedia.org/wiki/A_b/wiki/c").as_deref(),
        Some("A b")
    );
    assert_eq!(
        wikipedia_title_from_url("https://en.wikipedia.org/wiki/100%_x%zz").as_deref(),
        Some("100% x%zz")
    );
    assert_eq!(wikipedia_title_from_url("https://en.wikipedia.org/w/index.php"), None);
    assert_eq!(wikipedia_title_from_url("https://en.wikipedia.org/wiki/%FF"), None);
}

#[test]
fn ranks_languages_and_lists_label_languages() {
    let preferred = vec!["en".to_string(), "ru".to_string()];
    assert_eq!(language_rank("en", &preferred), 0);
    assert_eq!(language_rank("ru", &preferred), 1);
    assert_eq!(language_rank("be", &preferred), 2);
    assert_eq!(wikidata_label_languages(&preferred), "en,ru,mul");
    assert_eq!(wikidata_label_languages(&vec!["mul".to_string()]), "mul,en");
    assert_eq!(wikidata_label_languages(&Vec::new()), "mul,en");
}

#[test]
fn lists_wikipedia_endpoints() {
    let languages = vec!["ru".to_string(), "be".to_string()];
    let endpoints = wikipedia_endpoints(&languages, None);
    assert_eq!(endpoints.len(), 2);
    assert_eq!(endpoints[1].language, "be");
    assert_eq!(endpoints[1].api_url, "https://be.wikipedia.org/w/api.php");
    let custom = wikipedia_endpoints(&languages, Some("http://localhost/api.php".to_string()));
    assert_eq!(custom.len(), 1);
    assert_eq!(custom[0].language, "ru");
    let fallback = wikipedia_endpoints(&Vec::new(), Some("http://localhost/api.php".to_string()));
    assert_eq!(fallback[0].language, "en");
}

#[test]
fn builds_search_queries() {
    let search = WikimediaSearch::new(
        "agent".to_string(),
        Vec::new(),
        None,
        "https://query.wikidata.org/sparql".to_string(),
        1500,
        5,
    );
    assert_eq!(search.wikipedia_languages, vec!["en"]);
    assert_eq!(search.wikipedia_endpoints[0].api_url, "https://en.wikipedia.org/w/api.php");
    let point = coordinates(41.715137, 44.827096);
    let query = search.wikidata_query(&point);
    assert_eq!(
        query,
        "SELECT ?item ?itemLabel ?location ?distance WHERE {\n\tSERVICE wikibase:around {\n\t\t?item wdt:P625 ?location .\n\t\tbd:serviceParam wikibase:center \"Point(44.827096 41.715137)\"^^geo:wktLiteral .\n\t\tbd:serviceParam wikibase:radius \"1.5\" .\n\t\tbd:serviceParam wikibase:distance ?distance .\n\t}\n\tSERVICE wikibase:label { bd:serviceParam wikibase:language \"en,mul\" . }\n}\nORDER BY ASC(?distance)\nLIMIT 5"
    );
    let article_query = search.wikidata_article_query(&point);
    assert!(article_query.contains("\t\tLIMIT 20\n\t}\n\t?article schema:about ?item ;"));
    assert!(article_query.ends_with("}\nORDER BY ASC(?distance)"));
    let params = search.geosearch_query(&point);
    assert_eq!(params[3], ("gscoord".to_string(), "41.715137|44.827096".to_string()));
    assert_eq!(params[4], ("gsradius".to_string(), "1500".to_string()));
    assert_eq!(params[5], ("gslimit".to_string(), "5".to_string()));
    for meters in [0u32, 1, 999, 1000, 10000, 12345, u32::MAX] {
        let search = WikimediaSearch::new(String::new(), Vec::new(), None, String::new(), meters, u32::MAX);
        let expected = format!("{:.7}", meters as f64 / 1000.0);
        let expected = expected.trim_end_matches('0').trim_end_matches('.');
        assert!(search
            .wikidata_query(&point)
            .contains(&format!("wikibase:radius \"{expected}\"")));
        assert!(search.wikidata_article_query(&point).contains(&format!("LIMIT {}\n", u32::MAX)));
    }
}

fn article(title: &str, language: &str, meters: Option<f64>) -> NearbyWikipediaArticle {
    NearbyWikipediaArticle {
        title: title.to_string(),
        language: language.to_string(),
        url: format!("https://{language}.wikipedia.org/wiki/{title}"),
        distance_meters: meters.map(|m| distance(m, 0)),
        direction: None,
    }
}

#[test]
fn merges_articles_without_duplicates() {
    let search = WikimediaSearch::new(
        String::new(),
        vec!["en".to_string(), "ru".to_string()],
        None,
        String::new(),
        10000,
        3,
    );
    let merged = search.merge_articles(
        vec![article("A", "ru", Some(5.0)), article("B", "en", Some(9.0)), article("C", "en", None)],
        vec![article("A", "ru", Some(1.0)), article("D", "en", Some(5.0)), article("E", "de", Some(2.0))],
    );
    let titles: Vec<&str> = merged.iter().map(|a| a.title.as_str()).collect();
    assert_eq!(titles, vec!["E", "D", "A"]);
    let mut articles = vec![article("A", "en", None), article("A", "en", Some(1.0)), article("B", "en", None)];
    deduplicate_articles(&mut articles);
    assert_eq!(articles.len(), 2);
    assert_eq!(articles[0].distance_meters, None);
}

#[test]
fn reads_back_the_article_urls_it_writes() {
    for (language, title) in [
        ("en", "Wikimedia Foundation"),
        ("ru", "Минск"),
        ("be-tarask", "A/B? 100% & more"),
    ] {
        let article = into_article(
            GeoPage {
                title: title.to_string(),
                distance_meters: None,
                direction: None,
            },
            language,
        );
        assert_eq!(wikipedia_language_from_url(&article.url).as_deref(), Some(language));
        assert_eq!(wikipedia_title_from_url(&article.url).as_deref(), Some(title));
    }
    let article = into_article(
        GeoPage {
            title: "Snake_case".to_string(),
            distance_meters: None,
            direction: None,
        },
        "en",
    );
    assert_eq!(article.url, "https://en.wikipedia.org/wiki/Snake_case");
    assert_eq!(wikipedia_title_from_url(&article.url).as_deref(), Some("Snake case"));
}
