//! Runtime configuration, read from the process environment.

use vstd::prelude::*;
use crate::number::{parse_unsigned, parsed_unsigned};
use crate::text::{
    ascii_lower, contains, contains_text, is_white_space, is_whitespace, opt_string, push_char,
    str_eq, to_ascii_lowercase, trim, trim_ws, views,
};

verus! {

/// The process environment as the configuration reads it: the variables whose
/// names and values are valid Unicode, as name/value pairs.
#[derive(Clone, Debug, PartialEq)]
pub struct EnvVars {
    /// Name and value of each variable.
    pub vars: Vec<(String, String)>,
}

/// The value of the first variable called `name`.
pub open spec fn env_lookup(vars: Seq<(String, String)>, name: Seq<char>) -> Option<Seq<char>>
    decreases vars.len(),
{
    if vars.len() == 0 {
        None
    } else if vars[0].0@ == name {
        Some(vars[0].1@)
    } else {
        env_lookup(vars.drop_first(), name)
    }
}

/// A variable's trimmed value, when it is set and not blank.
pub open spec fn env_text(env: EnvVars, name: Seq<char>) -> Option<Seq<char>> {
    match env_lookup(env.vars@, name) {
        Some(v) if trim_ws(v).len() > 0 => Some(trim_ws(v)),
        _ => None,
    }
}

/// Reads a variable's trimmed value; nothing when it is unset or blank.
pub fn env_string(env: &EnvVars, name: &str) -> (r: Option<String>)
    ensures
        opt_string(r) == env_text(*env, name@),
{
    let n = env.vars.len();
    let mut i: usize = 0;
    assert(env.vars@.skip(0) =~= env.vars@);
    while i < n
        invariant
            i <= n,
            n == env.vars@.len(),
            env_lookup(env.vars@, name@) == env_lookup(env.vars@.skip(i as int), name@),
        decreases n - i,
    {
        assert(env.vars@.skip(i as int).drop_first() =~= env.vars@.skip(i + 1));
        if str_eq(env.vars[i].0.as_str(), name) {
            let value = trim(env.vars[i].1.as_str());
            if value.as_str().unicode_len() > 0 {
                return Some(value);
            } else {
                return None;
            }
        }
        i = i + 1;
    }
    None
}

/// How a boolean setting is read: `1`, `true`, `yes`, `on` and `0`, `false`, `no`,
/// `off`, in any ASCII case; anything else is not a boolean.
pub open spec fn bool_word(s: Seq<char>) -> Option<bool> {
    let w = ascii_lower(s);
    if w == "1"@ || w == "true"@ || w == "yes"@ || w == "on"@ {
        Some(true)
    } else if w == "0"@ || w == "false"@ || w == "no"@ || w == "off"@ {
        Some(false)
    } else {
        None
    }
}

/// A boolean setting: `default` when unset, else the word read; `None` when the
/// value is not a boolean.
pub open spec fn env_flag(env: EnvVars, name: Seq<char>, default: bool) -> Option<bool> {
    match env_text(env, name) {
        None => Some(default),
        Some(v) => bool_word(v),
    }
}

/// Why the configuration could not be read.
#[derive(Clone, Debug, PartialEq)]
pub enum ConfigError {
    /// `TELEGRAM_BOT_TOKEN` is unset.
    MissingToken,
    /// The named variable is not an unsigned integer of its type.
    NotInteger(String),
    /// The named variable is not a boolean.
    NotBoolean(String),
}

/// A configuration error with its variable name as characters.
pub enum ConfigErrorView {
    MissingToken,
    NotInteger(Seq<char>),
    NotBoolean(Seq<char>),
}

impl View for ConfigError {
    type V = ConfigErrorView;

    open spec fn view(&self) -> ConfigErrorView {
        match self {
            ConfigError::MissingToken => ConfigErrorView::MissingToken,
            ConfigError::NotInteger(name) => ConfigErrorView::NotInteger(name@),
            ConfigError::NotBoolean(name) => ConfigErrorView::NotBoolean(name@),
        }
    }
}

/// The message of a configuration error.
pub open spec fn config_error_message(e: ConfigErrorView) -> Seq<char> {
    match e {
        ConfigErrorView::MissingToken => "TELEGRAM_BOT_TOKEN is required"@,
        ConfigErrorView::NotInteger(name) => name + " must be an integer"@,
        ConfigErrorView::NotBoolean(name) => name + " must be a boolean"@,
    }
}

impl ConfigError {
    /// Writes the error message.
    pub fn message(&self) -> (r: String)
        ensures
            r@ == config_error_message(self@),
    {
        match self {
            ConfigError::MissingToken => String::from_str("TELEGRAM_BOT_TOKEN is required"),
            ConfigError::NotInteger(name) => {
                let mut m = name.clone();
                m.append(" must be an integer");
                m
            },
            ConfigError::NotBoolean(name) => {
                let mut m = name.clone();
                m.append(" must be a boolean");
                m
            },
        }
    }
}

/// Reads a boolean setting.
pub fn env_bool(env: &EnvVars, name: &str, default: bool) -> (r: Result<bool, ConfigError>)
    ensures
        r matches Ok(b) ==> env_flag(*env, name@, default) == Some(b),
        r matches Err(e) ==> env_flag(*env, name@, default) is None && e@ == ConfigErrorView::NotBoolean(name@),
{
    let value = match env_string(env, name) {
        None => return Ok(default),
        Some(v) => v,
    };
    let word = to_ascii_lowercase(value.as_str());
    let w = word.as_str();
    if str_eq(w, "1") || str_eq(w, "true") || str_eq(w, "yes") || str_eq(w, "on") {
        Ok(true)
    } else if str_eq(w, "0") || str_eq(w, "false") || str_eq(w, "no") || str_eq(w, "off") {
        Ok(false)
    } else {
        Err(ConfigError::NotBoolean(String::from_str(name)))
    }
}

/// Whether `c` separates language codes: a comma or white space.
pub open spec fn is_language_separator(c: char) -> bool {
    c == ',' || is_white_space(c)
}

/// The pieces of `s` between separators, empty ones included (`str::split`).
pub open spec fn language_pieces(s: Seq<char>) -> Seq<Seq<char>>
    decreases s.len(),
{
    if s.len() == 0 {
        seq![Seq::empty()]
    } else {
        let pieces = language_pieces(s.drop_last());
        if is_language_separator(s.last()) {
            pieces.push(Seq::empty())
        } else {
            pieces.update(pieces.len() - 1, pieces.last().push(s.last()))
        }
    }
}

/// The characters a language code keeps: ASCII letters and digits and `-`.
pub open spec fn language_char_kept(c: char) -> bool {
    ('0' <= c <= '9') || ('A' <= c <= 'Z') || ('a' <= c <= 'z') || c == '-'
}

/// `s` with only the characters a language code keeps.
pub open spec fn kept_language_chars(s: Seq<char>) -> Seq<char>
    decreases s.len(),
{
    if s.len() == 0 {
        s
    } else if language_char_kept(s.last()) {
        kept_language_chars(s.drop_last()).push(s.last())
    } else {
        kept_language_chars(s.drop_last())
    }
}

/// A piece cleaned into a language code: its kept characters in lower case, or
/// nothing when none is kept.
pub open spec fn cleaned_language(piece: Seq<char>) -> Option<Seq<char>> {
    let kept = kept_language_chars(piece);
    if kept.len() == 0 {
        None
    } else {
        Some(ascii_lower(kept))
    }
}

/// The language codes of the pieces, in order.
pub open spec fn cleaned_languages(pieces: Seq<Seq<char>>) -> Seq<Seq<char>>
    decreases pieces.len(),
{
    if pieces.len() == 0 {
        Seq::empty()
    } else {
        let rest = cleaned_languages(pieces.drop_last());
        match cleaned_language(pieces.last()) {
            Some(code) => rest.push(code),
            None => rest,
        }
    }
}

/// `s` with every element after its first occurrence removed.
pub open spec fn first_occurrences(s: Seq<Seq<char>>) -> Seq<Seq<char>>
    decreases s.len(),
{
    if s.len() == 0 {
        s
    } else {
        let rest = first_occurrences(s.drop_last());
        if rest.contains(s.last()) {
            rest
        } else {
            rest.push(s.last())
        }
    }
}

/// The language codes of a list such as `en, ru be`: its comma- or space-separated
/// pieces cleaned to codes, each code once, in the order of first appearance.
pub open spec fn language_codes(value: Seq<char>) -> Seq<Seq<char>> {
    first_occurrences(cleaned_languages(language_pieces(value)))
}

/// Cleans one piece into a language code.
pub fn clean_language_code(value: &str) -> (r: Option<String>)
    ensures
        opt_string(r) == cleaned_language(value@),
{
    let n = value.unicode_len();
    let mut kept = String::new();
    let mut i: usize = 0;
    while i < n
        invariant
            i <= n,
            n == value@.len(),
            kept@ == kept_language_chars(value@.subrange(0, i as int)),
        decreases n - i,
    {
        let c = value.get_char(i);
        assert(value@.subrange(0, i + 1).drop_last() =~= value@.subrange(0, i as int));
        if ('0' <= c && c <= '9') || ('A' <= c && c <= 'Z') || ('a' <= c && c <= 'z') || c == '-' {
            push_char(&mut kept, c);
        }
        i = i + 1;
    }
    assert(value@.subrange(0, n as int) =~= value@);
    if kept.as_str().unicode_len() == 0 {
        None
    } else {
        Some(to_ascii_lowercase(kept.as_str()))
    }
}

/// Splits a list at commas and white space.
fn split_language_list(value: &str) -> (r: Vec<String>)
    ensures
        views(r@) == language_pieces(value@),
{
    let n = value.unicode_len();
    let mut done: Vec<String> = Vec::new();
    let mut current = String::new();
    let mut i: usize = 0;
    assert(value@.subrange(0, 0) =~= Seq::<char>::empty());
    assert(views(done@).push(current@) =~= seq![Seq::<char>::empty()]);
    while i < n
        invariant
            i <= n,
            n == value@.len(),
            language_pieces(value@.subrange(0, i as int)) == views(done@).push(current@),
        decreases n - i,
    {
        let c = value.get_char(i);
        assert(value@.subrange(0, i + 1).drop_last() =~= value@.subrange(0, i as int));
        assert(value@.subrange(0, i + 1).last() == c);
        if c == ',' || is_whitespace(c) {
            let piece = current;
            done.push(piece);
            current = String::new();
            assert(views(done@).push(current@) =~= views(done@.drop_last()).push(piece@).push(
                Seq::empty(),
            ));
        } else {
            let ghost before = current@;
            push_char(&mut current, c);
            assert(views(done@).push(current@) =~= views(done@).push(before).update(
                views(done@).len() as int,
                before.push(c),
            ));
        }
        i = i + 1;
    }
    assert(value@.subrange(0, n as int) =~= value@);
    done.push(current);
    assert(views(done@) =~= views(done@.drop_last()).push(done@.last()@));
    done
}

/// Reads a comma- or space-separated list of language codes.
pub fn parse_language_codes(value: &str) -> (r: Vec<String>)
    ensures
        views(r@) == language_codes(value@),
{
    let pieces = split_language_list(value);
    let n = pieces.len();
    let mut codes: Vec<String> = Vec::new();
    let mut languages: Vec<String> = Vec::new();
    let mut i: usize = 0;
    while i < n
        invariant
            i <= n,
            n == pieces@.len(),
            views(codes@) == cleaned_languages(views(pieces@).take(i as int)),
            views(languages@) == first_occurrences(views(codes@)),
        decreases n - i,
    {
        assert(views(pieces@).take(i + 1).drop_last() =~= views(pieces@).take(i as int));
        match clean_language_code(pieces[i].as_str()) {
            Some(code) => {
                let ghost codes_before = views(codes@);
                let known = contains(&languages, code.as_str());
                codes.push(code.clone());
                assert(views(codes@) =~= codes_before.push(code@));
                assert(views(codes@).drop_last() =~= codes_before);
                proof {
                    assert(known == views(languages@).contains(code@)) by {
                        if known {
                            let k = choose|k: int| 0 <= k < languages@.len() && languages@[k]@ == code@;
                            assert(views(languages@)[k] == code@);
                        }
                        if views(languages@).contains(code@) {
                            let k = choose|k: int| 0 <= k < views(languages@).len() && views(languages@)[k] == code@;
                            assert(languages@[k]@ == code@);
                        }
                    }
                }
                if !known {
                    languages.push(code);
                    assert(views(languages@) =~= first_occurrences(codes_before).push(code@));
                }
            },
            None => {},
        }
        i = i + 1;
    }
    assert(views(pieces@).take(n as int) =~= views(pieces@));
    languages
}

/// Runtime configuration read from the process environment.
#[derive(Clone, Debug, PartialEq)]
pub struct Config {
    /// Telegram bot token from BotFather.
    pub telegram_bot_token: String,
    /// Optional webhook secret checked against Telegram's secret-token header.
    pub telegram_webhook_secret: Option<String>,
    /// Maximum Telegram file size to download.
    pub max_file_bytes: u64,
    /// Project name used in replies and User-Agent strings.
    pub project_name: String,
    /// Public project URL used in documentation and User-Agent strings.
    pub github_url: String,
    /// Enables Nominatim reverse geocoding for city names.
    pub enable_reverse_geocoding: bool,
    /// Reverse geocoder endpoint.
    pub nominatim_base_url: String,
    /// Optional email parameter for Nominatim operator contact.
    pub nominatim_email: Option<String>,
    /// Preferred response language for reverse geocoding.
    pub nominatim_accept_language: Option<String>,
    /// User-Agent sent to Nominatim.
    pub nominatim_user_agent: String,
    /// Enables nearby Wikidata and Wikipedia lookups.
    pub enable_wikimedia_lookup: bool,
    /// Wikimedia API User-Agent.
    pub wikimedia_user_agent: String,
    /// Wikipedia language editions for nearby article search.
    pub wikipedia_languages: Vec<String>,
    /// Optional MediaWiki Action API URL override for nearby article search.
    pub wikipedia_api_url: Option<String>,
    /// Wikidata SPARQL endpoint for nearby item search.
    pub wikidata_sparql_url: String,
    /// Nearby search radius in meters for Wikimedia lookups.
    pub wikimedia_radius_meters: u32,
    /// Maximum number of nearby Wikidata and Wikipedia results each.
    pub wikimedia_limit: u32,
}

/// A variable's value, or `default` when it is unset or blank.
pub open spec fn text_or(value: Option<Seq<char>>, default: Seq<char>) -> Seq<char> {
    match value {
        Some(v) => v,
        None => default,
    }
}

/// `MAX_FILE_MB` (default 20) read as a `u64`.
pub open spec fn max_file_mb_setting(env: EnvVars) -> Option<int> {
    parsed_unsigned(text_or(env_text(env, "MAX_FILE_MB"@), "20"@), u64::MAX as int)
}

/// `WIKIMEDIA_RADIUS_METERS` (default 10000) read as a `u32`.
pub open spec fn radius_setting(env: EnvVars) -> Option<int> {
    parsed_unsigned(text_or(env_text(env, "WIKIMEDIA_RADIUS_METERS"@), "10000"@), u32::MAX as int)
}

/// `WIKIMEDIA_LIMIT` (default 5) read as a `u32`.
pub open spec fn limit_setting(env: EnvVars) -> Option<int> {
    parsed_unsigned(text_or(env_text(env, "WIKIMEDIA_LIMIT"@), "5"@), u32::MAX as int)
}

/// `v` brought into `lo..=hi`.
pub open spec fn clamped(v: int, lo: int, hi: int) -> int {
    if v < lo {
        lo
    } else if v > hi {
        hi
    } else {
        v
    }
}

/// The first problem with the environment, in the order the settings are read:
/// the token, `MAX_FILE_MB`, the two switches, the radius and the limit.
pub open spec fn config_error(env: EnvVars) -> Option<ConfigErrorView> {
    if env_text(env, "TELEGRAM_BOT_TOKEN"@) is None {
        Some(ConfigErrorView::MissingToken)
    } else if max_file_mb_setting(env) is None {
        Some(ConfigErrorView::NotInteger("MAX_FILE_MB"@))
    } else if env_flag(env, "ENABLE_REVERSE_GEOCODING"@, true) is None {
        Some(ConfigErrorView::NotBoolean("ENABLE_REVERSE_GEOCODING"@))
    } else if env_flag(env, "ENABLE_WIKIMEDIA_LOOKUP"@, true) is None {
        Some(ConfigErrorView::NotBoolean("ENABLE_WIKIMEDIA_LOOKUP"@))
    } else if radius_setting(env) is None {
        Some(ConfigErrorView::NotInteger("WIKIMEDIA_RADIUS_METERS"@))
    } else if limit_setting(env) is None {
        Some(ConfigErrorView::NotInteger("WIKIMEDIA_LIMIT"@))
    } else {
        None
    }
}

/// The Wikipedia languages: the codes of `WIKIPEDIA_LANGUAGES`, or when that is
/// unset of `WIKIPEDIA_LANGUAGE`; `en`, `ru`, `be` when the list read has no code.
pub open spec fn languages_setting(env: EnvVars) -> Seq<Seq<char>> {
    let listed = match env_text(env, "WIKIPEDIA_LANGUAGES"@) {
        Some(v) => Some(v),
        None => env_text(env, "WIKIPEDIA_LANGUAGE"@),
    };
    match listed {
        Some(v) if language_codes(v).len() > 0 => language_codes(v),
        _ => seq!["en"@, "ru"@, "be"@],
    }
}

/// The project name, by default `telegram-photo-geolocator-bot`.
pub open spec fn project_name_setting(env: EnvVars) -> Seq<char> {
    text_or(env_text(env, "PROJECT_NAME"@), "telegram-photo-geolocator-bot"@)
}

/// The project URL, by default the repository on GitHub.
pub open spec fn github_url_setting(env: EnvVars) -> Seq<char> {
    text_or(
        env_text(env, "GITHUB_URL"@),
        "https://github.com/vitaly-zdanevich/bot_telegram_geolocation_from_photo"@,
    )
}

/// The Nominatim User-Agent: `NOMINATIM_USER_AGENT`, else `<project>/0.1 (<url>)`.
pub open spec fn nominatim_user_agent_setting(env: EnvVars) -> Seq<char> {
    text_or(
        env_text(env, "NOMINATIM_USER_AGENT"@),
        project_name_setting(env) + "/0.1 ("@ + github_url_setting(env) + ")"@,
    )
}

/// Every field of `c` as the environment sets it.
pub open spec fn config_from_env(c: Config, env: EnvVars) -> bool {
    &&& Some(c.telegram_bot_token@) == env_text(env, "TELEGRAM_BOT_TOKEN"@)
    &&& opt_string(c.telegram_webhook_secret) == env_text(env, "TELEGRAM_WEBHOOK_SECRET"@)
    &&& max_file_mb_setting(env) matches Some(mb) && c.max_file_bytes == mb * 1048576
    &&& c.project_name@ == project_name_setting(env)
    &&& c.github_url@ == github_url_setting(env)
    &&& env_flag(env, "ENABLE_REVERSE_GEOCODING"@, true) == Some(c.enable_reverse_geocoding)
    &&& c.nominatim_base_url@ == text_or(
        env_text(env, "NOMINATIM_BASE_URL"@),
        "https://nominatim.openstreetmap.org/reverse"@,
    )
    &&& opt_string(c.nominatim_email) == env_text(env, "NOMINATIM_EMAIL"@)
    &&& opt_string(c.nominatim_accept_language) == env_text(env, "NOMINATIM_ACCEPT_LANGUAGE"@)
    &&& c.nominatim_user_agent@ == nominatim_user_agent_setting(env)
    &&& env_flag(env, "ENABLE_WIKIMEDIA_LOOKUP"@, true) == Some(c.enable_wikimedia_lookup)
    &&& c.wikimedia_user_agent@ == text_or(
        env_text(env, "WIKIMEDIA_USER_AGENT"@),
        nominatim_user_agent_setting(env),
    )
    &&& views(c.wikipedia_languages@) == languages_setting(env)
    &&& opt_string(c.wikipedia_api_url) == env_text(env, "WIKIPEDIA_API_URL"@)
    &&& c.wikidata_sparql_url@ == text_or(
        env_text(env, "WIKIDATA_SPARQL_URL"@),
        "https://query.wikidata.org/sparql"@,
    )
    &&& radius_setting(env) == Some(c.wikimedia_radius_meters as int)
    &&& limit_setting(env) matches Some(limit) && c.wikimedia_limit == clamped(limit, 1, 10)
}

/// Whether `MAX_FILE_MB` megabytes fit a `u64` count of bytes, whenever the token
/// is set and the setting is read (the multiplication overflows otherwise).
pub open spec fn max_file_size_fits(env: EnvVars) -> bool {
    env_text(env, "TELEGRAM_BOT_TOKEN"@) is Some ==> (max_file_mb_setting(env) matches Some(mb)
        ==> mb * 1048576 <= u64::MAX)
}

/// Tells whether `Config::from_env` can read this environment without the
/// size limit overflowing.
pub fn max_file_size_fits_env(env: &EnvVars) -> (r: bool)
    ensures
        r == max_file_size_fits(*env),
{
    if env_string(env, "TELEGRAM_BOT_TOKEN").is_none() {
        return true;
    }
    let text = env_string_or(env, "MAX_FILE_MB", "20");
    match parse_unsigned(text.as_str(), u64::MAX) {
        Some(mb) => {
            assert(mb <= 17592186044415 <==> mb * 1048576 <= u64::MAX) by (nonlinear_arith);
            mb <= 17592186044415
        },
        None => true,
    }
}

/// Reads a variable's value, or `default` when it is unset or blank.
fn env_string_or(env: &EnvVars, name: &str, default: &str) -> (r: String)
    ensures
        r@ == text_or(env_text(*env, name@), default@),
{
    match env_string(env, name) {
        Some(v) => v,
        None => String::from_str(default),
    }
}

/// Reads an unsigned integer setting no larger than `max`.
fn env_number(env: &EnvVars, name: &str, default: &str, max: u64) -> (r: Result<u64, ConfigError>)
    ensures
        r matches Ok(v) ==> parsed_unsigned(text_or(env_text(*env, name@), default@), max as int)
            == Some(v as int),
        r matches Err(e) ==> parsed_unsigned(text_or(env_text(*env, name@), default@), max as int)
            is None && e@ == ConfigErrorView::NotInteger(name@),
{
    let text = env_string_or(env, name, default);
    match parse_unsigned(text.as_str(), max) {
        Some(v) => Ok(v),
        None => Err(ConfigError::NotInteger(String::from_str(name))),
    }
}

/// Reads the Wikipedia language list.
pub fn wikipedia_languages_from_env(env: &EnvVars) -> (r: Vec<String>)
    ensures
        views(r@) == languages_setting(*env),
{
    let listed = match env_string(env, "WIKIPEDIA_LANGUAGES") {
        Some(v) => Some(v),
        None => env_string(env, "WIKIPEDIA_LANGUAGE"),
    };
    if let Some(value) = listed {
        let languages = parse_language_codes(value.as_str());
        if languages.len() > 0 {
            return languages;
        }
    }
    default_wikipedia_languages()
}

/// The default Wikipedia languages, in fallback order.
pub fn default_wikipedia_languages() -> (r: Vec<String>)
    ensures
        views(r@) == seq!["en"@, "ru"@, "be"@],
{
    let mut languages: Vec<String> = Vec::new();
    languages.push(String::from_str("en"));
    languages.push(String::from_str("ru"));
    languages.push(String::from_str("be"));
    assert(views(languages@) =~= seq!["en"@, "ru"@, "be"@]);
    languages
}

impl Config {
    /// Builds the configuration from the environment.
    pub fn from_env(env: &EnvVars) -> (r: Result<Config, ConfigError>)
        requires
            max_file_size_fits(*env),
        ensures
            r is Err <==> config_error(*env) is Some,
            r matches Err(e) ==> config_error(*env) == Some(e@),
            r matches Ok(c) ==> config_from_env(c, *env),
    {
        let project_name = env_string_or(env, "PROJECT_NAME", "telegram-photo-geolocator-bot");
        let github_url = env_string_or(
            env,
            "GITHUB_URL",
            "https://github.com/vitaly-zdanevich/bot_telegram_geolocation_from_photo",
        );
        let telegram_bot_token = match env_string(env, "TELEGRAM_BOT_TOKEN") {
            Some(token) => token,
            None => return Err(ConfigError::MissingToken),
        };
        let max_file_mb = env_number(env, "MAX_FILE_MB", "20", u64::MAX)?;
        let nominatim_user_agent = match env_string(env, "NOMINATIM_USER_AGENT") {
            Some(agent) => agent,
            None => {
                let mut agent = project_name.clone();
                agent.append("/0.1 (");
                agent.append(github_url.as_str());
                agent.append(")");
                agent
            },
        };
        let wikipedia_languages = wikipedia_languages_from_env(env);
        let wikipedia_api_url = env_string(env, "WIKIPEDIA_API_URL");
        let telegram_webhook_secret = env_string(env, "TELEGRAM_WEBHOOK_SECRET");
        let max_file_bytes = max_file_mb * 1024 * 1024;
        let enable_reverse_geocoding = env_bool(env, "ENABLE_REVERSE_GEOCODING", true)?;
        let nominatim_base_url = env_string_or(
            env,
            "NOMINATIM_BASE_URL",
            "https://nominatim.openstreetmap.org/reverse",
        );
        let nominatim_email = env_string(env, "NOMINATIM_EMAIL");
        let nominatim_accept_language = env_string(env, "NOMINATIM_ACCEPT_LANGUAGE");
        let enable_wikimedia_lookup = env_bool(env, "ENABLE_WIKIMEDIA_LOOKUP", true)?;
        let wikimedia_user_agent = match env_string(env, "WIKIMEDIA_USER_AGENT") {
            Some(agent) => agent,
            None => nominatim_user_agent.clone(),
        };
        let wikidata_sparql_url = env_string_or(
            env,
            "WIKIDATA_SPARQL_URL",
            "https://query.wikidata.org/sparql",
        );
        let wikimedia_radius_meters = env_number(
            env,
            "WIKIMEDIA_RADIUS_METERS",
            "10000",
            u32::MAX as u64,
        )? as u32;
        let limit = env_number(env, "WIKIMEDIA_LIMIT", "5", u32::MAX as u64)? as u32;
        let wikimedia_limit = if limit < 1 {
            1
        } else if limit > 10 {
            10
        } else {
            limit
        };
        Ok(Config {
            telegram_bot_token,
            telegram_webhook_secret,
            max_file_bytes,
            project_name,
            github_url,
            enable_reverse_geocoding,
            nominatim_base_url,
            nominatim_email,
            nominatim_accept_language,
            nominatim_user_agent,
            enable_wikimedia_lookup,
            wikimedia_user_agent,
            wikipedia_languages,
            wikipedia_api_url,
            wikidata_sparql_url,
            wikimedia_radius_meters,
            wikimedia_limit,
        })
    }
}

/// Whether a character may stand in a cleaned language code: an ASCII digit, a
/// lower-case ASCII letter or `-`.
pub open spec fn is_code_char(c: char) -> bool {
    ('0' <= c <= '9') || ('a' <= c <= 'z') || c == '-'
}

proof fn lemma_kept_language_chars(s: Seq<char>)
    ensures
        forall|i: int| 0 <= i < kept_language_chars(s).len() ==> language_char_kept(
            #[trigger] kept_language_chars(s)[i],
        ),
    decreases s.len(),
{
    if s.len() > 0 {
        lemma_kept_language_chars(s.drop_last());
        let prev = kept_language_chars(s.drop_last());
        let all = kept_language_chars(s);
        assert forall|i: int| 0 <= i < all.len() implies language_char_kept(#[trigger] all[i]) by {
            if i < prev.len() {
                assert(all[i] == prev[i]);
            }
        }
    }
}

proof fn lemma_cleaned_languages(pieces: Seq<Seq<char>>)
    ensures
        forall|i: int| 0 <= i < cleaned_languages(pieces).len() ==> {
            let code = #[trigger] cleaned_languages(pieces)[i];
            &&& code.len() > 0
            &&& forall|k: int| 0 <= k < code.len() ==> is_code_char(#[trigger] code[k])
        },
    decreases pieces.len(),
{
    if pieces.len() > 0 {
        lemma_cleaned_languages(pieces.drop_last());
        let kept = kept_language_chars(pieces.last());
        lemma_kept_language_chars(pieces.last());
        let prev = cleaned_languages(pieces.drop_last());
        let all = cleaned_languages(pieces);
        assert forall|i: int| 0 <= i < all.len() implies {
            let code = #[trigger] all[i];
            &&& code.len() > 0
            &&& forall|k: int| 0 <= k < code.len() ==> is_code_char(#[trigger] code[k])
        } by {
            if i < prev.len() {
                assert(all[i] == prev[i]);
            } else {
                assert(all[i] == ascii_lower(kept));
                assert forall|k: int| 0 <= k < ascii_lower(kept).len() implies is_code_char(
                    #[trigger] ascii_lower(kept)[k],
                ) by {
                    assert(language_char_kept(kept[k]));
                }
            }
        }
    }
}

proof fn lemma_first_occurrences(s: Seq<Seq<char>>)
    ensures
        forall|i: int, j: int|
            0 <= i < j < first_occurrences(s).len() ==> #[trigger] first_occurrences(s)[i]
                != #[trigger] first_occurrences(s)[j],
        forall|k: int| 0 <= k < first_occurrences(s).len() ==> s.contains(#[trigger] first_occurrences(s)[k]),
    decreases s.len(),
{
    if s.len() > 0 {
        lemma_first_occurrences(s.drop_last());
        let r = first_occurrences(s.drop_last());
        let t = first_occurrences(s);
        assert forall|k: int| 0 <= k < t.len() implies s.contains(#[trigger] t[k]) by {
            if k < r.len() {
                assert(t[k] == r[k]);
                let m = choose|m: int| 0 <= m < s.drop_last().len() && s.drop_last()[m] == r[k];
                assert(s[m] == r[k]);
            } else {
                assert(t[k] == s[s.len() - 1]);
            }
        }
        assert forall|i: int, j: int| 0 <= i < j < t.len() implies #[trigger] t[i] != #[trigger] t[j] by {
            if j < r.len() {
                assert(t[i] == r[i] && t[j] == r[j]);
            } else {
                assert(t[i] == r[i]);
                assert(r.contains(r[i]));
            }
        }
    }
}

/// The language codes read from a list are distinct, not empty, and made of ASCII
/// digits, lower-case ASCII letters and `-` only.
pub proof fn law_language_codes_clean(value: Seq<char>)
    ensures
        forall|i: int, j: int|
            0 <= i < j < language_codes(value).len() ==> #[trigger] language_codes(value)[i]
                != #[trigger] language_codes(value)[j],
        forall|i: int| 0 <= i < language_codes(value).len() ==> {
            let code = #[trigger] language_codes(value)[i];
            &&& code.len() > 0
            &&& forall|k: int| 0 <= k < code.len() ==> is_code_char(#[trigger] code[k])
        },
{
    let cleaned = cleaned_languages(language_pieces(value));
    lemma_cleaned_languages(language_pieces(value));
    lemma_first_occurrences(cleaned);
    let codes = language_codes(value);
    assert forall|i: int| 0 <= i < codes.len() implies {
        let code = #[trigger] codes[i];
        &&& code.len() > 0
        &&& forall|k: int| 0 <= k < code.len() ==> is_code_char(#[trigger] code[k])
    } by {
        assert(cleaned.contains(codes[i]));
        let m = choose|m: int| 0 <= m < cleaned.len() && cleaned[m] == codes[i];
    }
}

/// A configuration read from the environment asks for between 1 and 10 nearby
/// results of each kind, and searches at least one Wikipedia language, each once.
pub proof fn law_config_bounds(c: Config, env: EnvVars)
    requires
        config_from_env(c, env),
    ensures
        1 <= c.wikimedia_limit <= 10,
        c.wikipedia_languages@.len() > 0,
        forall|i: int, j: int|
            0 <= i < j < c.wikipedia_languages@.len() ==> (#[trigger] c.wikipedia_languages@[i])@
                != (#[trigger] c.wikipedia_languages@[j])@,
{
    let listed = match env_text(env, "WIKIPEDIA_LANGUAGES"@) {
        Some(v) => Some(v),
        None => env_text(env, "WIKIPEDIA_LANGUAGE"@),
    };
    let langs = views(c.wikipedia_languages@);
    assert(langs.len() == c.wikipedia_languages@.len());
    match listed {
        Some(v) if language_codes(v).len() > 0 => {
            law_language_codes_clean(v);
            assert forall|i: int, j: int| 0 <= i < j < c.wikipedia_languages@.len() implies (
            #[trigger] c.wikipedia_languages@[i])@ != (#[trigger] c.wikipedia_languages@[j])@ by {
                assert(langs[i] == c.wikipedia_languages@[i]@);
                assert(langs[j] == c.wikipedia_languages@[j]@);
            }
        },
        _ => {
            reveal_strlit("en");
            reveal_strlit("ru");
            reveal_strlit("be");
            assert forall|i: int, j: int| 0 <= i < j < c.wikipedia_languages@.len() implies (
            #[trigger] c.wikipedia_languages@[i])@ != (#[trigger] c.wikipedia_languages@[j])@ by {
                assert(langs[i] == c.wikipedia_languages@[i]@);
                assert(langs[j] == c.wikipedia_languages@[j]@);
                assert("en"@[1] != "ru"@[1]);
                assert("en"@[0] != "be"@[0]);
                assert("ru"@[0] != "be"@[0]);
            }
        },
    }
}

/// Whether the variable `name` is set in `env` to a value that is not blank,
/// and that value with its surrounding white space removed is `v`.
pub open spec fn set_to(env: EnvVars, name: Seq<char>, v: Seq<char>) -> bool {
    env_lookup(env.vars@, name) matches Some(raw) && trim_ws(raw).len() > 0 && trim_ws(raw) == v
}

/// Whether the variable `name` is unset or blank in `env`.
pub open spec fn unset(env: EnvVars, name: Seq<char>) -> bool {
    match env_lookup(env.vars@, name) {
        None => true,
        Some(raw) => trim_ws(raw).len() == 0,
    }
}

/// A configuration takes every setting that the environment gives, trimmed; an
/// unset setting takes its default. The Nominatim User-Agent is
/// `NOMINATIM_USER_AGENT`, else `<project name>/0.1 (<project URL>)`; the
/// Wikimedia one is `WIKIMEDIA_USER_AGENT`, else the Nominatim one.
pub proof fn law_config_takes_settings(c: Config, env: EnvVars)
    requires
        config_from_env(c, env),
    ensures
        forall|v: Seq<char>| set_to(env, "TELEGRAM_BOT_TOKEN"@, v) ==> c.telegram_bot_token@ == v,
        forall|v: Seq<char>| set_to(env, "TELEGRAM_WEBHOOK_SECRET"@, v)
            ==> opt_string(c.telegram_webhook_secret) == Some(v),
        unset(env, "TELEGRAM_WEBHOOK_SECRET"@) ==> c.telegram_webhook_secret is None,
        forall|v: Seq<char>| set_to(env, "PROJECT_NAME"@, v) ==> c.project_name@ == v,
        unset(env, "PROJECT_NAME"@) ==> c.project_name@ == "telegram-photo-geolocator-bot"@,
        forall|v: Seq<char>| set_to(env, "GITHUB_URL"@, v) ==> c.github_url@ == v,
        unset(env, "GITHUB_URL"@) ==> c.github_url@
            == "https://github.com/vitaly-zdanevich/bot_telegram_geolocation_from_photo"@,
        forall|v: Seq<char>| set_to(env, "NOMINATIM_BASE_URL"@, v) ==> c.nominatim_base_url@ == v,
        unset(env, "NOMINATIM_BASE_URL"@) ==> c.nominatim_base_url@
            == "https://nominatim.openstreetmap.org/reverse"@,
        forall|v: Seq<char>| set_to(env, "NOMINATIM_EMAIL"@, v)
            ==> opt_string(c.nominatim_email) == Some(v),
        unset(env, "NOMINATIM_EMAIL"@) ==> c.nominatim_email is None,
        forall|v: Seq<char>| set_to(env, "NOMINATIM_ACCEPT_LANGUAGE"@, v)
            ==> opt_string(c.nominatim_accept_language) == Some(v),
        unset(env, "NOMINATIM_ACCEPT_LANGUAGE"@) ==> c.nominatim_accept_language is None,
        forall|v: Seq<char>| set_to(env, "NOMINATIM_USER_AGENT"@, v) ==> c.nominatim_user_agent@ == v,
        unset(env, "NOMINATIM_USER_AGENT"@) ==> c.nominatim_user_agent@ == c.project_name@
            + "/0.1 ("@ + c.github_url@ + ")"@,
        forall|v: Seq<char>| set_to(env, "WIKIMEDIA_USER_AGENT"@, v) ==> c.wikimedia_user_agent@ == v,
        unset(env, "WIKIMEDIA_USER_AGENT"@) ==> c.wikimedia_user_agent@ == c.nominatim_user_agent@,
        forall|v: Seq<char>| set_to(env, "WIKIPEDIA_API_URL"@, v)
            ==> opt_string(c.wikipedia_api_url) == Some(v),
        unset(env, "WIKIPEDIA_API_URL"@) ==> c.wikipedia_api_url is None,
        forall|v: Seq<char>| set_to(env, "WIKIDATA_SPARQL_URL"@, v) ==> c.wikidata_sparql_url@ == v,
        unset(env, "WIKIDATA_SPARQL_URL"@) ==> c.wikidata_sparql_url@
            == "https://query.wikidata.org/sparql"@,
        unset(env, "ENABLE_REVERSE_GEOCODING"@) ==> c.enable_reverse_geocoding,
        unset(env, "ENABLE_WIKIMEDIA_LOOKUP"@) ==> c.enable_wikimedia_lookup,
{
    lemma_env_text_settings(env, "TELEGRAM_BOT_TOKEN"@);
    lemma_env_text_settings(env, "TELEGRAM_WEBHOOK_SECRET"@);
    lemma_env_text_settings(env, "PROJECT_NAME"@);
    lemma_env_text_settings(env, "GITHUB_URL"@);
    lemma_env_text_settings(env, "NOMINATIM_BASE_URL"@);
    lemma_env_text_settings(env, "NOMINATIM_EMAIL"@);
    lemma_env_text_settings(env, "NOMINATIM_ACCEPT_LANGUAGE"@);
    lemma_env_text_settings(env, "NOMINATIM_USER_AGENT"@);
    lemma_env_text_settings(env, "WIKIMEDIA_USER_AGENT"@);
    lemma_env_text_settings(env, "WIKIPEDIA_API_URL"@);
    lemma_env_text_settings(env, "WIKIDATA_SPARQL_URL"@);
    lemma_env_text_settings(env, "ENABLE_REVERSE_GEOCODING"@);
    lemma_env_text_settings(env, "ENABLE_WIKIMEDIA_LOOKUP"@);
}

/// How `env_text` reads a set or an unset variable.
proof fn lemma_env_text_settings(env: EnvVars, name: Seq<char>)
    ensures
        forall|v: Seq<char>| set_to(env, name, v) ==> env_text(env, name) == Some(v),
        unset(env, name) ==> env_text(env, name) is None,
{
}

/// The default numbers read as the numbers they write.
proof fn lemma_default_numbers()
    ensures
        parsed_unsigned("20"@, u64::MAX as int) == Some(20int),
        parsed_unsigned("10000"@, u32::MAX as int) == Some(10000int),
        parsed_unsigned("5"@, u32::MAX as int) == Some(5int),
{
    reveal_strlit("20");
    reveal_strlit("10000");
    reveal_strlit("5");
    let twenty = "20"@;
    assert(twenty.drop_last() =~= seq!['2']);
    assert(seq!['2'].drop_last() =~= Seq::<char>::empty());
    assert(crate::number::digit_value('2') == 2);
    assert(crate::number::digit_value('0') == 0);
    assert(crate::number::digit_value('1') == 1);
    assert(crate::number::digit_value('5') == 5);
    assert(seq!['2'].last() == '2');
    assert(crate::number::digits_value(Seq::<char>::empty()) == 0);
    assert(crate::number::digits_value(seq!['2']) == 2);
    assert(crate::number::digits_value(twenty) == 20);
    let five = "5"@;
    assert(five.drop_last() =~= Seq::<char>::empty());
    assert(crate::number::digits_value(five) == 5);
    let big = "10000"@;
    let d1 = seq!['1'];
    let d2 = seq!['1', '0'];
    let d3 = seq!['1', '0', '0'];
    let d4 = seq!['1', '0', '0', '0'];
    assert(d1.drop_last() =~= Seq::<char>::empty());
    assert(d2.drop_last() =~= d1);
    assert(d3.drop_last() =~= d2);
    assert(d4.drop_last() =~= d3);
    assert(big.drop_last() =~= d4);
    assert(crate::number::digits_value(d1) == 1);
    assert(crate::number::digits_value(d2) == 10);
    assert(crate::number::digits_value(d3) == 100);
    assert(crate::number::digits_value(d4) == 1000);
    assert(crate::number::digits_value(big) == 10000);
}

/// A configuration reads its numbers and switches from the environment: the
/// size limit is `MAX_FILE_MB` mebibytes (20 by default), the radius is
/// `WIKIMEDIA_RADIUS_METERS` (10000 by default), the limit is `WIKIMEDIA_LIMIT`
/// brought into 1..=10 (5 by default), each switch is the word it is set to
/// (on by default), and the languages are those listed in `WIKIPEDIA_LANGUAGES`
/// (`en`, `ru`, `be` when neither list is set).
pub proof fn law_config_takes_numbers_and_switches(c: Config, env: EnvVars)
    requires
        config_from_env(c, env),
    ensures
        forall|v: Seq<char>| set_to(env, "MAX_FILE_MB"@, v) ==> (parsed_unsigned(v, u64::MAX as int)
            matches Some(mb) && c.max_file_bytes == mb * 1048576),
        unset(env, "MAX_FILE_MB"@) ==> c.max_file_bytes == 20 * 1048576,
        forall|v: Seq<char>| set_to(env, "WIKIMEDIA_RADIUS_METERS"@, v) ==> parsed_unsigned(
            v,
            u32::MAX as int,
        ) == Some(c.wikimedia_radius_meters as int),
        unset(env, "WIKIMEDIA_RADIUS_METERS"@) ==> c.wikimedia_radius_meters == 10000,
        forall|v: Seq<char>| set_to(env, "WIKIMEDIA_LIMIT"@, v) ==> (parsed_unsigned(v, u32::MAX as int)
            matches Some(n) && (n < 1 ==> c.wikimedia_limit == 1) && (n > 10 ==> c.wikimedia_limit
            == 10) && (1 <= n <= 10 ==> c.wikimedia_limit == n)),
        unset(env, "WIKIMEDIA_LIMIT"@) ==> c.wikimedia_limit == 5,
        forall|v: Seq<char>, b: bool| set_to(env, "ENABLE_REVERSE_GEOCODING"@, v) && bool_word(v)
            == Some(b) ==> c.enable_reverse_geocoding == b,
        forall|v: Seq<char>, b: bool| set_to(env, "ENABLE_WIKIMEDIA_LOOKUP"@, v) && bool_word(v)
            == Some(b) ==> c.enable_wikimedia_lookup == b,
        forall|v: Seq<char>| set_to(env, "WIKIPEDIA_LANGUAGES"@, v) && language_codes(v).len() > 0
            ==> views(c.wikipedia_languages@) == language_codes(v),
        unset(env, "WIKIPEDIA_LANGUAGES"@) && unset(env, "WIKIPEDIA_LANGUAGE"@) ==> views(
            c.wikipedia_languages@,
        ) == seq!["en"@, "ru"@, "be"@],
{
    lemma_default_numbers();
    lemma_env_text_settings(env, "MAX_FILE_MB"@);
    lemma_env_text_settings(env, "WIKIMEDIA_RADIUS_METERS"@);
    lemma_env_text_settings(env, "WIKIMEDIA_LIMIT"@);
    lemma_env_text_settings(env, "ENABLE_REVERSE_GEOCODING"@);
    lemma_env_text_settings(env, "ENABLE_WIKIMEDIA_LOOKUP"@);
    lemma_env_text_settings(env, "WIKIPEDIA_LANGUAGES"@);
    lemma_env_text_settings(env, "WIKIPEDIA_LANGUAGE"@);
}

} // verus!
