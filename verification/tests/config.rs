use telegram_photo_geolocator_bot::config::{
    clean_language_code, default_wikipedia_languages, env_bool, env_string,
    max_file_size_fits_env, parse_language_codes, wikipedia_languages_from_env, Config,
    ConfigError, EnvVars,
};

fn env(vars: &[(&str, &str)]) -> EnvVars {
    EnvVars {
        vars: vars
            .iter()
            .map(|(name, value)| (name.to_string(), value.to_string()))
            .collect(),
    }
}

#[test]
fn parses_boolean_values() {
    assert!(env_bool(&env(&[("TEST_BOOL", "yes")]), "TEST_BOOL", false).unwrap());
    assert!(!env_bool(&env(&[("TEST_BOOL", "0")]), "TEST_BOOL", true).unwrap());
}

#[test]
fn parses_wikipedia_language_list() {
    assert_eq!(parse_language_codes("en, ru be,en"), vec!["en", "ru", "be"]);
}

#[test]
fn boolean_words_in_any_case_and_defaults() {
    for word in ["1", "TRUE", "Yes", "on", " true "] {
        assert_eq!(env_bool(&env(&[("B", word)]), "B", false), Ok(true));
    }
    for word in ["0", "False", "NO", "off"] {
        assert_eq!(env_bool(&env(&[("B", word)]), "B", true), Ok(false));
    }
    assert_eq!(env_bool(&env(&[]), "B", true), Ok(true));
    assert_eq!(env_bool(&env(&[("B", "   ")]), "B", false), Ok(false));
    let error = env_bool(&env(&[("B", "maybe")]), "B", true).unwrap_err();
    assert_eq!(error, ConfigError::NotBoolean("B".to_string()));
    assert_eq!(error.message(), "B must be a boolean");
}

#[test]
fn env_strings_are_trimmed_and_blank_ones_unset() {
    let vars = env(&[("A", "  value \n"), ("B", " \t ")]);
    assert_eq!(env_string(&vars, "A").as_deref(), Some("value"));
    assert_eq!(env_string(&vars, "B"), None);
    assert_eq!(env_string(&vars, "C"), None);
}

#[test]
fn cleans_language_codes() {
    assert_eq!(clean_language_code("EN!").as_deref(), Some("en"));
    assert_eq!(clean_language_code("zh-Hant").as_deref(), Some("zh-hant"));
    assert_eq!(clean_language_code("??"), None);
    assert_eq!(parse_language_codes(" ,, \u{3000}"), Vec::<String>::new());
    assert_eq!(parse_language_codes("DE\tfr\nde"), vec!["de", "fr"]);
}

#[test]
fn reads_defaults_from_a_minimal_environment() {
    let config = Config::from_env(&env(&[("TELEGRAM_BOT_TOKEN", " 123:abc ")])).unwrap();
    assert_eq!(config.telegram_bot_token, "123:abc");
    assert_eq!(config.telegram_webhook_secret, None);
    assert_eq!(config.max_file_bytes, 20 * 1024 * 1024);
    assert_eq!(config.project_name, "telegram-photo-geolocator-bot");
    assert_eq!(
        config.github_url,
        "https://github.com/vitaly-zdanevich/bot_telegram_geolocation_from_photo"
    );
    assert!(config.enable_reverse_geocoding);
    assert_eq!(
        config.nominatim_base_url,
        "https://nominatim.openstreetmap.org/reverse"
    );
    assert_eq!(
        config.nominatim_user_agent,
        "telegram-photo-geolocator-bot/0.1 (https://github.com/vitaly-zdanevich/bot_telegram_geolocation_from_photo)"
    );
    assert_eq!(config.wikimedia_user_agent, config.nominatim_user_agent);
    assert!(config.enable_wikimedia_lookup);
    assert_eq!(config.wikipedia_languages, default_wikipedia_languages());
    assert_eq!(config.wikipedia_languages, vec!["en", "ru", "be"]);
    assert_eq!(config.wikipedia_api_url, None);
    assert_eq!(config.wikidata_sparql_url, "https://query.wikidata.org/sparql");
    assert_eq!(config.wikimedia_radius_meters, 10000);
    assert_eq!(config.wikimedia_limit, 5);
}

#[test]
fn reads_every_setting() {
    let config = Config::from_env(&env(&[
        ("TELEGRAM_BOT_TOKEN", "t"),
        ("TELEGRAM_WEBHOOK_SECRET", "s"),
        ("MAX_FILE_MB", "+7"),
        ("PROJECT_NAME", "geo"),
        ("GITHUB_URL", "https://example.org/geo"),
        ("ENABLE_REVERSE_GEOCODING", "off"),
        ("NOMINATIM_EMAIL", "me@example.org"),
        ("NOMINATIM_ACCEPT_LANGUAGE", "de"),
        ("ENABLE_WIKIMEDIA_LOOKUP", "no"),
        ("WIKIMEDIA_USER_AGENT", "agent"),
        ("WIKIPEDIA_LANGUAGES", " , "),
        ("WIKIPEDIA_LANGUAGE", "fr"),
        ("WIKIPEDIA_API_URL", "https://wiki.example.org/api.php"),
        ("WIKIMEDIA_RADIUS_METERS", "2500"),
        ("WIKIMEDIA_LIMIT", "99"),
    ]))
    .unwrap();
    assert_eq!(config.telegram_webhook_secret.as_deref(), Some("s"));
    assert_eq!(config.max_file_bytes, 7 * 1024 * 1024);
    assert_eq!(config.nominatim_user_agent, "geo/0.1 (https://example.org/geo)");
    assert!(!config.enable_reverse_geocoding);
    assert!(!config.enable_wikimedia_lookup);
    assert_eq!(config.nominatim_email.as_deref(), Some("me@example.org"));
    assert_eq!(config.nominatim_accept_language.as_deref(), Some("de"));
    assert_eq!(config.wikimedia_user_agent, "agent");
    assert_eq!(config.wikipedia_languages, vec!["en", "ru", "be"]);
    assert_eq!(
        config.wikipedia_api_url.as_deref(),
        Some("https://wiki.example.org/api.php")
    );
    assert_eq!(config.wikimedia_radius_meters, 2500);
    assert_eq!(config.wikimedia_limit, 10);
}

#[test]
fn limit_is_clamped_and_legacy_languages_read() {
    let config = Config::from_env(&env(&[
        ("TELEGRAM_BOT_TOKEN", "t"),
        ("WIKIMEDIA_LIMIT", "0"),
        ("WIKIPEDIA_LANGUAGE", "PL, uk"),
    ]))
    .unwrap();
    assert_eq!(config.wikimedia_limit, 1);
    assert_eq!(config.wikipedia_languages, vec!["pl", "uk"]);
}

#[test]
fn reports_each_configuration_error_in_order() {
    let missing = Config::from_env(&env(&[("MAX_FILE_MB", "x")])).unwrap_err();
    assert_eq!(missing, ConfigError::MissingToken);
    assert_eq!(missing.message(), "TELEGRAM_BOT_TOKEN is required");

    let size = Config::from_env(&env(&[
        ("TELEGRAM_BOT_TOKEN", "t"),
        ("MAX_FILE_MB", "-1"),
        ("ENABLE_REVERSE_GEOCODING", "x"),
    ]))
    .unwrap_err();
    assert_eq!(size.message(), "MAX_FILE_MB must be an integer");

    let switch = Config::from_env(&env(&[
        ("TELEGRAM_BOT_TOKEN", "t"),
        ("ENABLE_WIKIMEDIA_LOOKUP", "maybe"),
    ]))
    .unwrap_err();
    assert_eq!(
        switch,
        ConfigError::NotBoolean("ENABLE_WIKIMEDIA_LOOKUP".to_string())
    );

    let radius = Config::from_env(&env(&[
        ("TELEGRAM_BOT_TOKEN", "t"),
        ("WIKIMEDIA_RADIUS_METERS", "4294967296"),
    ]))
    .unwrap_err();
    assert_eq!(radius.message(), "WIKIMEDIA_RADIUS_METERS must be an integer");

    let limit = Config::from_env(&env(&[
        ("TELEGRAM_BOT_TOKEN", "t"),
        ("WIKIMEDIA_LIMIT", "five"),
    ]))
    .unwrap_err();
    assert_eq!(limit, ConfigError::NotInteger("WIKIMEDIA_LIMIT".to_string()));
}

#[test]
fn reads_wikipedia_languages_with_fallbacks() {
    assert_eq!(
        wikipedia_languages_from_env(&env(&[
            ("WIKIPEDIA_LANGUAGES", "DE, fr"),
            ("WIKIPEDIA_LANGUAGE", "ru")
        ])),
        vec!["de", "fr"]
    );
    assert_eq!(
        wikipedia_languages_from_env(&env(&[("WIKIPEDIA_LANGUAGE", "uk,pl")])),
        vec!["uk", "pl"]
    );
    assert_eq!(
        wikipedia_languages_from_env(&env(&[("WIKIPEDIA_LANGUAGES", " ,;; ")])),
        vec!["en", "ru", "be"]
    );
    assert_eq!(wikipedia_languages_from_env(&env(&[])), vec!["en", "ru", "be"]);
}

#[test]
fn tells_when_the_size_limit_would_overflow() {
    assert!(max_file_size_fits_env(&env(&[("TELEGRAM_BOT_TOKEN", "t")])));
    assert!(max_file_size_fits_env(&env(&[
        ("TELEGRAM_BOT_TOKEN", "t"),
        ("MAX_FILE_MB", "17592186044415")
    ])));
    assert!(!max_file_size_fits_env(&env(&[
        ("TELEGRAM_BOT_TOKEN", "t"),
        ("MAX_FILE_MB", "17592186044416")
    ])));
    assert!(max_file_size_fits_env(&env(&[("MAX_FILE_MB", "17592186044416")])));
    assert!(max_file_size_fits_env(&env(&[
        ("TELEGRAM_BOT_TOKEN", "t"),
        ("MAX_FILE_MB", "lots")
    ])));
    let config = Config::from_env(&env(&[
        ("TELEGRAM_BOT_TOKEN", "t"),
        ("MAX_FILE_MB", "17592186044415"),
    ]))
    .unwrap();
    assert_eq!(config.max_file_bytes, 17592186044415 * 1024 * 1024);
}
