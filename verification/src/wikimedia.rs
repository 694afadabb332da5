//! Nearby Wikidata items and Wikipedia articles: query building and the
//! processing of the answers.

use vstd::prelude::*;
use crate::encoding::{
    law_url_decode_undoes_encode, lemma_percent_encoded_ascii, url_decode, url_decoded, url_encode,
    url_encoded,
};
use crate::geo::{
    decimal, decimal_text, distance_view_key, opt_distance, optional_distance_key, Coordinates,
    Distance, DistanceView,
};
use crate::geocoder::{pair_views, push_pair};
use crate::links::{pad_zeros, zero_padded};
use crate::number::{all_digits, decimal_text as number_text, u64_text};
use crate::order::{
    distinct_by, key_before, lemma_sorted_distinct, lemma_sorted_payloads_ordered, lemma_truncated_keeps,
    ordered_by, payloads, sort_by_key, sorted_by_key, strip_keys, truncated, SortKey,
};
use crate::text::{
    after_last, blank, contains, has_prefix, has_suffix, is_blank, join, last_piece, opt_string,
    push_char, seq_join, str_eq, strip_prefix, strip_suffix, trimmed_decimal, views,
};

verus! {

/// Nearby Wikimedia results for a coordinate.
#[derive(Clone, Debug, PartialEq)]
pub struct NearbyWikimedia {
    /// Nearby Wikidata items with labels.
    pub wikidata_items: Vec<NearbyWikidataItem>,
    /// Nearby Wikipedia articles.
    pub wikipedia_articles: Vec<NearbyWikipediaArticle>,
}

impl NearbyWikimedia {
    /// Returns true when no nearby Wikimedia data was found.
    pub fn is_empty(&self) -> (r: bool)
        ensures
            r == (self.wikidata_items@.len() == 0 && self.wikipedia_articles@.len() == 0),
    {
        self.wikidata_items.len() == 0 && self.wikipedia_articles.len() == 0
    }
}

/// Nearby Wikidata item.
#[derive(Clone, Debug, PartialEq)]
pub struct NearbyWikidataItem {
    /// QID, for example `Q9188`.
    pub id: String,
    /// Best available label.
    pub label: String,
    /// Wikidata item URL.
    pub url: String,
    /// Distance from the point in kilometers, shown with two fraction digits.
    pub distance_km: Option<Distance>,
    /// Compass direction from the source point to the item.
    pub direction: Option<String>,
}

/// Nearby Wikipedia article.
#[derive(Clone, Debug, PartialEq)]
pub struct NearbyWikipediaArticle {
    /// Article title.
    pub title: String,
    /// Wikipedia language edition, for example `en` or `ru`.
    pub language: String,
    /// Article URL.
    pub url: String,
    /// Distance from the point in meters, shown with no fraction digits.
    pub distance_meters: Option<Distance>,
    /// Compass direction from the source point to the article coordinate.
    pub direction: Option<String>,
}

/// A nearby Wikidata item as the library reasons about it.
pub struct WikidataItemView {
    pub id: Seq<char>,
    pub label: Seq<char>,
    pub url: Seq<char>,
    pub distance_km: Option<DistanceView>,
    pub direction: Option<Seq<char>>,
}

impl View for NearbyWikidataItem {
    type V = WikidataItemView;

    open spec fn view(&self) -> WikidataItemView {
        WikidataItemView {
            id: self.id@,
            label: self.label@,
            url: self.url@,
            distance_km: opt_distance(self.distance_km),
            direction: opt_string(self.direction),
        }
    }
}

/// A nearby Wikipedia article as the library reasons about it.
pub struct WikipediaArticleView {
    pub title: Seq<char>,
    pub language: Seq<char>,
    pub url: Seq<char>,
    pub distance_meters: Option<DistanceView>,
    pub direction: Option<Seq<char>>,
}

impl View for NearbyWikipediaArticle {
    type V = WikipediaArticleView;

    open spec fn view(&self) -> WikipediaArticleView {
        WikipediaArticleView {
            title: self.title@,
            language: self.language@,
            url: self.url@,
            distance_meters: opt_distance(self.distance_meters),
            direction: opt_string(self.direction),
        }
    }
}

/// The views of a sequence of items.
pub open spec fn item_views(s: Seq<NearbyWikidataItem>) -> Seq<WikidataItemView> {
    s.map_values(|i: NearbyWikidataItem| i@)
}

/// The views of a sequence of articles.
pub open spec fn article_views(s: Seq<NearbyWikipediaArticle>) -> Seq<WikipediaArticleView> {
    s.map_values(|a: NearbyWikipediaArticle| a@)
}

/// The QID that ends a Wikidata entity URL: the part after the last `/`, when it
/// is `Q` followed by at least one ASCII digit.
pub open spec fn wikidata_id(url: Seq<char>) -> Option<Seq<char>> {
    let id = after_last(url, '/');
    if id.len() > 1 && id[0] == 'Q' && all_digits(id.drop_first()) {
        Some(id)
    } else {
        None
    }
}

/// Extracts the QID from a Wikidata entity URL.
pub fn wikidata_id_from_url(url: &str) -> (r: Option<String>)
    ensures
        opt_string(r) == wikidata_id(url@),
{
    let id = last_piece(url, '/');
    let s = id.as_str();
    let n = s.unicode_len();
    if n <= 1 || s.get_char(0) != 'Q' {
        return None;
    }
    let mut i: usize = 1;
    while i < n
        invariant
            1 <= i <= n,
            n == s@.len(),
            s@ == after_last(url@, '/'),
            forall|k: int| 1 <= k < i ==> crate::number::is_digit(#[trigger] s@[k]),
        decreases n - i,
    {
        let c = s.get_char(i);
        if !('0' <= c && c <= '9') {
            assert(!crate::number::is_digit(s@.drop_first()[i - 1]));
            return None;
        }
        i = i + 1;
    }
    assert forall|k: int| 0 <= k < s@.drop_first().len() implies crate::number::is_digit(
        #[trigger] s@.drop_first()[k],
    ) by {
        assert(s@.drop_first()[k] == s@[k + 1]);
    }
    Some(id)
}

/// The part of `s` before its first `c`; all of `s` when it holds no `c`
/// (the first piece that `str::split` yields).
pub open spec fn before_first(s: Seq<char>, c: char) -> Seq<char>
    decreases s.len(),
{
    if s.len() == 0 {
        s
    } else if s[0] == c {
        Seq::empty()
    } else {
        seq![s[0]] + before_first(s.drop_first(), c)
    }
}

/// Returns the part of `s` before its first `c`, or all of `s`.
pub fn first_piece(s: &str, c: char) -> (r: String)
    ensures
        r@ == before_first(s@, c),
{
    let n = s.unicode_len();
    let mut i: usize = 0;
    assert(s@.subrange(0, n as int) =~= s@);
    assert(s@.subrange(0, 0) + before_first(s@, c) =~= before_first(s@, c));
    while i < n && s.get_char(i) != c
        invariant
            i <= n,
            n == s@.len(),
            before_first(s@, c) == s@.subrange(0, i as int) + before_first(
                s@.subrange(i as int, n as int),
                c,
            ),
            forall|k: int| 0 <= k < i ==> s@[k] != c,
        decreases n - i,
    {
        assert(s@.subrange(i as int, n as int).drop_first() =~= s@.subrange(i + 1, n as int));
        assert(s@.subrange(0, i + 1) =~= s@.subrange(0, i as int) + seq![s@[i as int]]);
        i = i + 1;
    }
    proof {
        if i == 0 {
            assert(s@.subrange(0, n as int) =~= s@);
            assert(s@.subrange(0, 0) + before_first(s@, c) =~= before_first(s@, c));
        }
    }
    assert(before_first(s@.subrange(i as int, n as int), c) =~= Seq::<char>::empty());
    assert(s@.subrange(0, i as int) + Seq::<char>::empty() =~= s@.subrange(0, i as int));
    String::from_str(s.substring_char(0, i))
}

/// `url` without its `https://` or, failing that, `http://` prefix.
pub open spec fn without_scheme(url: Seq<char>) -> Option<Seq<char>> {
    if has_prefix(url, "https://"@) {
        Some(url.subrange("https://"@.len() as int, url.len() as int))
    } else if has_prefix(url, "http://"@) {
        Some(url.subrange("http://"@.len() as int, url.len() as int))
    } else {
        None
    }
}

/// The language edition that a Wikipedia URL names: the host (up to the first
/// `/` after the scheme) without `.wikipedia.org`, when that is not empty.
pub open spec fn wikipedia_language(url: Seq<char>) -> Option<Seq<char>> {
    match without_scheme(url) {
        None => None,
        Some(rest) => {
            let host = before_first(rest, '/');
            let suffix = ".wikipedia.org"@;
            if has_suffix(host, suffix) && host.len() > suffix.len() {
                Some(host.subrange(0, host.len() - suffix.len()))
            } else {
                None
            }
        },
    }
}

/// Extracts the language edition from a Wikipedia article URL.
pub fn wikipedia_language_from_url(url: &str) -> (r: Option<String>)
    ensures
        opt_string(r) == wikipedia_language(url@),
{
    let rest = match strip_prefix(url, "https://") {
        Some(rest) => rest,
        None => match strip_prefix(url, "http://") {
            Some(rest) => rest,
            None => return None,
        },
    };
    let host = first_piece(rest.as_str(), '/');
    match strip_suffix(host.as_str(), ".wikipedia.org") {
        Some(language) => {
            if language.as_str().unicode_len() > 0 {
                Some(language)
            } else {
                None
            }
        },
        None => None,
    }
}

/// Whether `p` occurs in `s` at index `i`.
pub open spec fn occurs_at(s: Seq<char>, p: Seq<char>, i: int) -> bool {
    0 <= i && i + p.len() <= s.len() && s.subrange(i, i + p.len()) == p
}

/// The first index, from `i` on, where `p` occurs in `s`.
pub open spec fn find_from(s: Seq<char>, p: Seq<char>, i: int) -> Option<int>
    decreases s.len() + 1 - i,
{
    if i < 0 || i + p.len() > s.len() {
        None
    } else if s.subrange(i, i + p.len()) == p {
        Some(i)
    } else {
        find_from(s, p, i + 1)
    }
}

/// Finds the first occurrence of `p` in `s`.
pub fn find(s: &str, p: &str) -> (r: Option<usize>)
    ensures
        match r {
            Some(i) => find_from(s@, p@, 0) == Some(i as int),
            None => find_from(s@, p@, 0) is None,
        },
{
    let n = s.unicode_len();
    let m = p.unicode_len();
    if m > n {
        return None;
    }
    let mut i: usize = 0;
    loop
        invariant
            m <= n,
            i <= n - m,
            n == s@.len(),
            m == p@.len(),
            find_from(s@, p@, 0) == find_from(s@, p@, i as int),
        decreases n - m - i,
    {
        if str_eq(s.substring_char(i, i + m), p) {
            return Some(i);
        }
        if i == n - m {
            assert(find_from(s@, p@, i + 1) is None);
            return None;
        }
        i = i + 1;
    }
}

/// The piece of `s` between the first and the second occurrence of `p` (to its
/// end when there is no second one); none when `p` does not occur (the second
/// piece that `str::split` yields).
pub open spec fn second_piece(s: Seq<char>, p: Seq<char>) -> Option<Seq<char>> {
    match find_from(s, p, 0) {
        None => None,
        Some(i) => {
            let rest = s.subrange(i + p.len(), s.len() as int);
            match find_from(rest, p, 0) {
                Some(j) => Some(rest.subrange(0, j)),
                None => Some(rest),
            }
        },
    }
}

proof fn lemma_find_from_range(s: Seq<char>, p: Seq<char>, i: int)
    ensures
        find_from(s, p, i) matches Some(j) ==> i <= j && j + p.len() <= s.len() && s.subrange(
            j,
            j + p.len(),
        ) == p,
    decreases s.len() + 1 - i,
{
    if !(i < 0 || i + p.len() > s.len()) && s.subrange(i, i + p.len()) != p {
        lemma_find_from_range(s, p, i + 1);
    }
}

/// `s` with every `from` replaced by `to`.
pub open spec fn replaced(s: Seq<char>, from: char, to: char) -> Seq<char> {
    s.map_values(|c: char| if c == from { to } else { c })
}

/// Replaces every `from` in `s` by `to`.
pub fn replace_char(s: &str, from: char, to: char) -> (r: String)
    ensures
        r@ == replaced(s@, from, to),
{
    let n = s.unicode_len();
    let mut out = String::new();
    let mut i: usize = 0;
    while i < n
        invariant
            i <= n,
            n == s@.len(),
            out@ == replaced(s@.subrange(0, i as int), from, to),
        decreases n - i,
    {
        let c = s.get_char(i);
        push_char(&mut out, if c == from { to } else { c });
        assert(replaced(s@.subrange(0, i + 1), from, to) =~= replaced(s@.subrange(0, i as int), from, to).push(
            if c == from { to } else { c },
        ));
        i = i + 1;
    }
    assert(s@.subrange(0, n as int) =~= s@);
    out
}

/// The title an article URL names: the piece after `/wiki/`, percent-decoded,
/// with underscores as spaces; none without `/wiki/` or when decoding fails.
pub open spec fn wikipedia_title(url: Seq<char>) -> Option<Seq<char>> {
    match second_piece(url, "/wiki/"@) {
        None => None,
        Some(raw) => match url_decoded(raw) {
            None => None,
            Some(decoded) => Some(replaced(decoded, '_', ' ')),
        },
    }
}

/// Extracts the article title from a Wikipedia article URL.
pub fn wikipedia_title_from_url(url: &str) -> (r: Option<String>)
    ensures
        opt_string(r) == wikipedia_title(url@),
{
    let marker = "/wiki/";
    let n = url.unicode_len();
    let m = marker.unicode_len();
    let start = match find(url, marker) {
        Some(i) => i,
        None => return None,
    };
    proof {
        lemma_find_from_range(url@, marker@, 0);
    }
    let rest = url.substring_char(start + m, n);
    let raw = match find(rest, marker) {
        Some(j) => {
            proof {
                lemma_find_from_range(rest@, marker@, 0);
            }
            rest.substring_char(0, j)
        },
        None => rest,
    };
    match url_decode(raw) {
        Some(decoded) => Some(replace_char(decoded.as_str(), '_', ' ')),
        None => None,
    }
}

/// The place of `language` among the preferred languages; after all of them
/// when it is not one.
pub open spec fn rank_of(language: Seq<char>, preferred: Seq<Seq<char>>) -> nat
    decreases preferred.len(),
{
    if preferred.len() == 0 {
        0
    } else if preferred[0] == language {
        0
    } else {
        1 + rank_of(language, preferred.drop_first())
    }
}

/// Returns the place of `language` among the preferred languages.
pub fn language_rank(language: &str, preferred_languages: &Vec<String>) -> (r: usize)
    ensures
        r == rank_of(language@, views(preferred_languages@)),
{
    let n = preferred_languages.len();
    let mut i: usize = 0;
    let ghost all = views(preferred_languages@);
    assert(all.skip(0) =~= all);
    while i < n
        invariant
            i <= n,
            n == all.len(),
            all == views(preferred_languages@),
            rank_of(language@, all) == i + rank_of(language@, all.skip(i as int)),
        decreases n - i,
    {
        assert(all.skip(i as int).drop_first() =~= all.skip(i + 1));
        if str_eq(preferred_languages[i].as_str(), language) {
            return i;
        }
        i = i + 1;
    }
    i
}

/// The label languages of the Wikidata query: the preferred languages, then `mul`
/// and `en` when they are not among them, joined by commas.
pub open spec fn label_languages(preferred: Seq<Seq<char>>) -> Seq<char> {
    let with_mul = if preferred.contains("mul"@) {
        preferred
    } else {
        preferred.push("mul"@)
    };
    let with_en = if with_mul.contains("en"@) {
        with_mul
    } else {
        with_mul.push("en"@)
    };
    seq_join(with_en, ","@)
}

proof fn lemma_contains_views(v: Seq<String>, s: Seq<char>)
    ensures
        crate::text::contains_text(v, s) == views(v).contains(s),
{
    if crate::text::contains_text(v, s) {
        let k = choose|k: int| 0 <= k < v.len() && v[k]@ == s;
        assert(views(v)[k] == s);
    }
    if views(v).contains(s) {
        let k = choose|k: int| 0 <= k < views(v).len() && views(v)[k] == s;
        assert(v[k]@ == s);
    }
}

/// Lists the label languages of the Wikidata query.
pub fn wikidata_label_languages(preferred_languages: &Vec<String>) -> (r: String)
    ensures
        r@ == label_languages(views(preferred_languages@)),
{
    let mut languages: Vec<String> = Vec::new();
    let n = preferred_languages.len();
    let mut i: usize = 0;
    while i < n
        invariant
            i <= n,
            n == preferred_languages@.len(),
            views(languages@) == views(preferred_languages@).take(i as int),
        decreases n - i,
    {
        let ghost before = views(languages@);
        let language = preferred_languages[i].clone();
        languages.push(language);
        assert(views(languages@) =~= before.push(preferred_languages@[i as int]@));
        assert(views(languages@) =~= views(preferred_languages@).take(i + 1));
        i = i + 1;
    }
    assert(views(preferred_languages@).take(n as int) =~= views(preferred_languages@));
    let ghost p = views(languages@);
    proof {
        lemma_contains_views(languages@, "mul"@);
    }
    if !contains(&languages, "mul") {
        languages.push(String::from_str("mul"));
        assert(views(languages@) =~= p.push("mul"@));
    }
    let ghost q = views(languages@);
    proof {
        lemma_contains_views(languages@, "en"@);
    }
    if !contains(&languages, "en") {
        languages.push(String::from_str("en"));
        assert(views(languages@) =~= q.push("en"@));
    }
    join(&languages, ",")
}

/// A Wikipedia API endpoint with the language edition it serves.
#[derive(Clone, Debug, PartialEq)]
pub struct WikipediaEndpoint {
    /// Language edition, for example `en`.
    pub language: String,
    /// MediaWiki Action API URL.
    pub api_url: String,
}

/// An endpoint as characters: language and API URL.
pub open spec fn endpoint_views(s: Seq<WikipediaEndpoint>) -> Seq<(Seq<char>, Seq<char>)> {
    s.map_values(|e: WikipediaEndpoint| (e.language@, e.api_url@))
}

/// The endpoint of a language edition.
pub open spec fn language_endpoint(language: Seq<char>) -> (Seq<char>, Seq<char>) {
    (language, "https://"@ + language + ".wikipedia.org/w/api.php"@)
}

/// The endpoints searched: the one given URL, serving the first language (`en`
/// when there is none); else one endpoint per language on its own Wikipedia.
pub open spec fn endpoints_for(languages: Seq<Seq<char>>, api_url: Option<Seq<char>>) -> Seq<
    (Seq<char>, Seq<char>),
> {
    match api_url {
        Some(url) => seq![
            (if languages.len() > 0 {
                languages[0]
            } else {
                "en"@
            }, url),
        ],
        None => languages.map_values(|l: Seq<char>| language_endpoint(l)),
    }
}

/// Lists the Wikipedia endpoints to search.
pub fn wikipedia_endpoints(languages: &Vec<String>, api_url: Option<String>) -> (r: Vec<
    WikipediaEndpoint,
>)
    ensures
        endpoint_views(r@) == endpoints_for(views(languages@), opt_string(api_url)),
{
    let mut endpoints: Vec<WikipediaEndpoint> = Vec::new();
    if let Some(api_url) = api_url {
        let language = if languages.len() > 0 {
            languages[0].clone()
        } else {
            String::from_str("en")
        };
        endpoints.push(WikipediaEndpoint { language, api_url });
        assert(endpoint_views(endpoints@) =~= endpoints_for(views(languages@), opt_string(Some(api_url))));
        return endpoints;
    }
    let n = languages.len();
    let mut i: usize = 0;
    while i < n
        invariant
            i <= n,
            n == languages@.len(),
            endpoint_views(endpoints@) == views(languages@).take(i as int).map_values(
                |l: Seq<char>| language_endpoint(l),
            ),
        decreases n - i,
    {
        let ghost before = endpoint_views(endpoints@);
        let language = languages[i].clone();
        let mut api = String::from_str("https://");
        api.append(language.as_str());
        api.append(".wikipedia.org/w/api.php");
        assert(language@ == views(languages@)[i as int]);
        endpoints.push(WikipediaEndpoint { language, api_url: api });
        assert(endpoint_views(endpoints@) =~= before.push(language_endpoint(views(languages@)[i as int])));
        assert(endpoint_views(endpoints@) =~= views(languages@).take(i + 1).map_values(
            |l: Seq<char>| language_endpoint(l),
        ));
        i = i + 1;
    }
    assert(views(languages@).take(n as int) =~= views(languages@));
    endpoints
}

/// The settings of nearby Wikimedia searches and the requests made from them.
#[derive(Clone, Debug, PartialEq)]
pub struct WikimediaSearch {
    /// User-Agent (and Api-User-Agent) of every request.
    pub user_agent: String,
    /// The Wikipedia endpoints to search.
    pub wikipedia_endpoints: Vec<WikipediaEndpoint>,
    /// Preferred Wikipedia languages, in order.
    pub wikipedia_languages: Vec<String>,
    /// Wikidata SPARQL endpoint.
    pub wikidata_sparql_url: String,
    /// Search radius in meters.
    pub radius_meters: u32,
    /// Maximum number of results of each kind.
    pub limit: u32,
}

/// The languages searched: the given ones, or `en` when none is given.
pub open spec fn effective_languages(languages: Seq<Seq<char>>) -> Seq<Seq<char>> {
    if languages.len() == 0 {
        seq!["en"@]
    } else {
        languages
    }
}

impl WikimediaSearch {
    /// Sets up the searches: the languages (`en` when none is given) and their endpoints.
    pub fn new(
        user_agent: String,
        wikipedia_languages: Vec<String>,
        wikipedia_api_url: Option<String>,
        wikidata_sparql_url: String,
        radius_meters: u32,
        limit: u32,
    ) -> (r: WikimediaSearch)
        ensures
            r.user_agent == user_agent,
            views(r.wikipedia_languages@) == effective_languages(views(wikipedia_languages@)),
            endpoint_views(r.wikipedia_endpoints@) == endpoints_for(
                effective_languages(views(wikipedia_languages@)),
                opt_string(wikipedia_api_url),
            ),
            r.wikidata_sparql_url == wikidata_sparql_url,
            r.radius_meters == radius_meters,
            r.limit == limit,
    {
        let languages = if wikipedia_languages.len() == 0 {
            let mut only_english: Vec<String> = Vec::new();
            only_english.push(String::from_str("en"));
            assert(views(only_english@) =~= seq!["en"@]);
            only_english
        } else {
            wikipedia_languages
        };
        let endpoints = wikipedia_endpoints(&languages, wikipedia_api_url);
        WikimediaSearch {
            user_agent,
            wikipedia_endpoints: endpoints,
            wikipedia_languages: languages,
            wikidata_sparql_url,
            radius_meters,
            limit,
        }
    }
}

/// A radius in meters written in kilometers as the bot prints it: seven fraction
/// digits (exact, since meters have three), trailing zeros dropped.
pub open spec fn radius_km_text(meters: u32) -> Seq<char> {
    trimmed_decimal(
        number_text((meters / 1000) as nat) + "."@ + zero_padded(
            number_text((meters % 1000) as nat),
            3,
        ) + "0000"@,
    )
}

/// Writes a radius in meters in kilometers.
pub fn radius_km(meters: u32) -> (r: String)
    ensures
        r@ == radius_km_text(meters),
{
    let mut fixed = u64_text((meters / 1000) as u64);
    fixed.append(".");
    let fraction = pad_zeros(u64_text((meters % 1000) as u64).as_str(), 3);
    fixed.append(fraction.as_str());
    fixed.append("0000");
    decimal(fixed.as_str())
}

/// The SPARQL query for nearby Wikidata items with labels, nearest first.
pub open spec fn items_query(
    c: Coordinates,
    radius_meters: u32,
    languages: Seq<Seq<char>>,
    limit: u32,
) -> Seq<char> {
    "SELECT ?item ?itemLabel ?location ?distance WHERE {\n\tSERVICE wikibase:around {\n\t\t?item wdt:P625 ?location .\n\t\tbd:serviceParam wikibase:center \"Point("@
        + decimal_text(c.longitude) + " "@ + decimal_text(c.latitude)
        + ")\"^^geo:wktLiteral .\n\t\tbd:serviceParam wikibase:radius \""@ + radius_km_text(
        radius_meters,
    )
        + "\" .\n\t\tbd:serviceParam wikibase:distance ?distance .\n\t}\n\tSERVICE wikibase:label { bd:serviceParam wikibase:language \""@
        + label_languages(languages) + "\" . }\n}\nORDER BY ASC(?distance)\nLIMIT "@
        + number_text(limit as nat)
}

/// How many items the sitelink query looks at: four times the limit, saturating.
pub open spec fn sitelink_item_limit(limit: u32) -> u32 {
    if 4 * limit > u32::MAX {
        u32::MAX
    } else {
        (4 * limit) as u32
    }
}

/// The SPARQL query for the Wikipedia articles about the items nearest the point.
pub open spec fn sitelinks_query(c: Coordinates, radius_meters: u32, limit: u32) -> Seq<char> {
    "SELECT ?item ?article ?location ?distance WHERE {\n\t{\n\t\tSELECT ?item ?location ?distance WHERE {\n\t\t\tSERVICE wikibase:around {\n\t\t\t\t?item wdt:P625 ?location .\n\t\t\t\tbd:serviceParam wikibase:center \"Point("@
        + decimal_text(c.longitude) + " "@ + decimal_text(c.latitude)
        + ")\"^^geo:wktLiteral .\n\t\t\t\tbd:serviceParam wikibase:radius \""@
        + radius_km_text(radius_meters)
        + "\" .\n\t\t\t\tbd:serviceParam wikibase:distance ?distance .\n\t\t\t}\n\t\t}\n\t\tORDER BY ASC(?distance)\n\t\tLIMIT "@
        + number_text(sitelink_item_limit(limit) as nat)
        + "\n\t}\n\t?article schema:about ?item ;\n\t\tschema:isPartOf ?wiki .\n\t?wiki wikibase:wikiGroup \"wikipedia\" .\n}\nORDER BY ASC(?distance)"@
}

/// The query parameters of a Wikipedia geosearch request.
pub open spec fn geosearch_query_params(c: Coordinates, radius_meters: u32, limit: u32) -> Seq<
    (Seq<char>, Seq<char>),
> {
    seq![
        ("action"@, "query"@),
        ("format"@, "json"@),
        ("list"@, "geosearch"@),
        ("gscoord"@, decimal_text(c.latitude) + "|"@ + decimal_text(c.longitude)),
        ("gsradius"@, number_text(radius_meters as nat)),
        ("gslimit"@, number_text(limit as nat)),
        ("gsnamespace"@, "0"@),
    ]
}

impl WikimediaSearch {
    /// Writes the SPARQL query for nearby Wikidata items.
    pub fn wikidata_query(&self, coordinates: &Coordinates) -> (r: String)
        ensures
            r@ == items_query(
                *coordinates,
                self.radius_meters,
                views(self.wikipedia_languages@),
                self.limit,
            ),
    {
        let longitude = decimal(coordinates.longitude.fixed.as_str());
        let latitude = decimal(coordinates.latitude.fixed.as_str());
        let radius = radius_km(self.radius_meters);
        let languages = wikidata_label_languages(&self.wikipedia_languages);
        let mut query = String::from_str(
            "SELECT ?item ?itemLabel ?location ?distance WHERE {\n\tSERVICE wikibase:around {\n\t\t?item wdt:P625 ?location .\n\t\tbd:serviceParam wikibase:center \"Point(",
        );
        query.append(longitude.as_str());
        query.append(" ");
        query.append(latitude.as_str());
        query.append(")\"^^geo:wktLiteral .\n\t\tbd:serviceParam wikibase:radius \"");
        query.append(radius.as_str());
        query.append(
            "\" .\n\t\tbd:serviceParam wikibase:distance ?distance .\n\t}\n\tSERVICE wikibase:label { bd:serviceParam wikibase:language \"",
        );
        query.append(languages.as_str());
        query.append("\" . }\n}\nORDER BY ASC(?distance)\nLIMIT ");
        let limit = u64_text(self.limit as u64);
        query.append(limit.as_str());
        query
    }

    /// Writes the SPARQL query for the Wikipedia articles about nearby items.
    pub fn wikidata_article_query(&self, coordinates: &Coordinates) -> (r: String)
        ensures
            r@ == sitelinks_query(*coordinates, self.radius_meters, self.limit),
    {
        let longitude = decimal(coordinates.longitude.fixed.as_str());
        let latitude = decimal(coordinates.latitude.fixed.as_str());
        let radius = radius_km(self.radius_meters);
        let item_limit = if self.limit > u32::MAX / 4 {
            u32::MAX
        } else {
            self.limit * 4
        };
        let item_limit = if item_limit < self.limit { self.limit } else { item_limit };
        let mut query = String::from_str(
            "SELECT ?item ?article ?location ?distance WHERE {\n\t{\n\t\tSELECT ?item ?location ?distance WHERE {\n\t\t\tSERVICE wikibase:around {\n\t\t\t\t?item wdt:P625 ?location .\n\t\t\t\tbd:serviceParam wikibase:center \"Point(",
        );
        query.append(longitude.as_str());
        query.append(" ");
        query.append(latitude.as_str());
        query.append(")\"^^geo:wktLiteral .\n\t\t\t\tbd:serviceParam wikibase:radius \"");
        query.append(radius.as_str());
        query.append(
            "\" .\n\t\t\t\tbd:serviceParam wikibase:distance ?distance .\n\t\t\t}\n\t\t}\n\t\tORDER BY ASC(?distance)\n\t\tLIMIT ",
        );
        let limit = u64_text(item_limit as u64);
        query.append(limit.as_str());
        query.append(
            "\n\t}\n\t?article schema:about ?item ;\n\t\tschema:isPartOf ?wiki .\n\t?wiki wikibase:wikiGroup \"wikipedia\" .\n}\nORDER BY ASC(?distance)",
        );
        query
    }

    /// Lists the query parameters of a Wikipedia geosearch request.
    pub fn geosearch_query(&self, coordinates: &Coordinates) -> (r: Vec<(String, String)>)
        ensures
            pair_views(r@) == geosearch_query_params(*coordinates, self.radius_meters, self.limit),
    {
        let mut params: Vec<(String, String)> = Vec::new();
        push_pair(&mut params, "action", String::from_str("query"));
        push_pair(&mut params, "format", String::from_str("json"));
        push_pair(&mut params, "list", String::from_str("geosearch"));
        let mut point = decimal(coordinates.latitude.fixed.as_str());
        point.append("|");
        let longitude = decimal(coordinates.longitude.fixed.as_str());
        point.append(longitude.as_str());
        push_pair(&mut params, "gscoord", point);
        push_pair(&mut params, "gsradius", u64_text(self.radius_meters as u64));
        push_pair(&mut params, "gslimit", u64_text(self.limit as u64));
        push_pair(&mut params, "gsnamespace", String::from_str("0"));
        assert(pair_views(params@) =~= geosearch_query_params(
            *coordinates,
            self.radius_meters,
            self.limit,
        ));
        params
    }
}

/// A row of the nearby-items query, with its distance (in kilometers, shown with
/// two fraction digits) and direction from the point already worked out: the
/// distance SPARQL reports, or else the one between the point and the item's
/// location; the direction towards that location.
#[derive(Clone, Debug, PartialEq)]
pub struct WikidataItemBinding {
    /// Wikidata entity URL.
    pub item: String,
    /// The item's label, when the query found one.
    pub item_label: Option<String>,
    /// Distance from the point.
    pub distance_km: Option<Distance>,
    /// Compass direction from the point.
    pub direction: Option<String>,
}

/// The item a row describes: none when its URL does not end in a QID; its label
/// falls back to the QID when missing or blank.
pub open spec fn item_of(b: WikidataItemBinding) -> Option<WikidataItemView> {
    match wikidata_id(b.item@) {
        None => None,
        Some(id) => Some(
            WikidataItemView {
                id,
                label: match b.item_label {
                    Some(label) if !is_blank(label@) => label@,
                    _ => id,
                },
                url: b.item@,
                distance_km: opt_distance(b.distance_km),
                direction: opt_string(b.direction),
            },
        ),
    }
}

/// The items the rows describe, in row order.
pub open spec fn items_of(rows: Seq<WikidataItemBinding>) -> Seq<WikidataItemView>
    decreases rows.len(),
{
    if rows.len() == 0 {
        Seq::empty()
    } else {
        match item_of(rows.last()) {
            Some(item) => items_of(rows.drop_last()).push(item),
            None => items_of(rows.drop_last()),
        }
    }
}

/// Makes the item a row describes.
pub fn into_item(row: WikidataItemBinding) -> (r: Option<NearbyWikidataItem>)
    ensures
        match r {
            Some(item) => item_of(row) == Some(item@),
            None => item_of(row) is None,
        },
{
    let id = match wikidata_id_from_url(row.item.as_str()) {
        Some(id) => id,
        None => return None,
    };
    let label = match row.item_label {
        Some(label) => if blank(label.as_str()) {
            id.clone()
        } else {
            label
        },
        None => id.clone(),
    };
    Some(
        NearbyWikidataItem {
            id,
            label,
            url: row.item,
            distance_km: row.distance_km,
            direction: row.direction,
        },
    )
}

/// The sort key of an item: its distance, no rank.
pub open spec fn item_key(item: WikidataItemView) -> SortKey {
    SortKey { distance: distance_view_key(item.distance_km) as i128, rank: 0 }
}

/// Items with their sort keys.
pub open spec fn keyed_items(s: Seq<WikidataItemView>) -> Seq<(SortKey, WikidataItemView)> {
    s.map_values(|i: WikidataItemView| (item_key(i), i))
}

/// Keyed items as the library reasons about them.
pub open spec fn keyed_item_views(s: Seq<(SortKey, NearbyWikidataItem)>) -> Seq<
    (SortKey, WikidataItemView),
> {
    s.map_values(|p: (SortKey, NearbyWikidataItem)| (p.0, p.1@))
}

/// The nearest items of the rows: the items the rows describe, ordered by
/// distance (unknown distances last, ties in row order), at most `limit` of them.
pub open spec fn nearest_items(rows: Seq<WikidataItemBinding>, limit: u32) -> Seq<WikidataItemView> {
    truncated(payloads(sorted_by_key(keyed_items(items_of(rows)))), limit as nat)
}

/// Turns the rows of the nearby-items query into the nearest items.
pub fn wikidata_items(rows: Vec<WikidataItemBinding>, limit: u32) -> (r: Vec<NearbyWikidataItem>)
    ensures
        item_views(r@) == nearest_items(rows@, limit),
{
    let ghost all = rows@;
    let mut rest = rows;
    let mut keyed: Vec<(SortKey, NearbyWikidataItem)> = Vec::new();
    let n = rest.len();
    let mut i: usize = 0;
    assert(all.skip(0) =~= all);
    assert(keyed_item_views(keyed@) =~= keyed_items(items_of(all.take(0))));
    while i < n
        invariant
            i <= n,
            n == all.len(),
            rest@ == all.skip(i as int),
            keyed_item_views(keyed@) == keyed_items(items_of(all.take(i as int))),
        decreases n - i,
    {
        let row = rest.remove(0);
        assert(row == all[i as int]);
        assert(rest@ =~= all.skip(i + 1));
        assert(all.take(i + 1).drop_last() =~= all.take(i as int));
        let ghost before = keyed_item_views(keyed@);
        match into_item(row) {
            Some(item) => {
                let key = SortKey { distance: optional_distance_key(&item.distance_km), rank: 0 };
                let ghost v = item@;
                keyed.push((key, item));
                assert(keyed_item_views(keyed@) =~= before.push((key, v)));
            },
            None => {
                assert(keyed_item_views(keyed@) =~= before);
            },
        }
        i = i + 1;
    }
    assert(all.take(n as int) =~= all);
    let sorted = sort_by_key(keyed);
    proof {
        crate::order::lemma_sorted_map(keyed@, |t: NearbyWikidataItem| t@);
        assert(keyed_item_views(keyed@) =~= keyed@.map_values(
            |p: (SortKey, NearbyWikidataItem)| (p.0, (|t: NearbyWikidataItem| t@)(p.1)),
        ));
        assert(keyed_item_views(sorted@) =~= sorted@.map_values(
            |p: (SortKey, NearbyWikidataItem)| (p.0, (|t: NearbyWikidataItem| t@)(p.1)),
        ));
    }
    let mut items = strip_keys(sorted);
    assert(item_views(items@) =~= payloads(keyed_item_views(sorted@)));
    items.truncate(limit as usize);
    items
}

/// A page of a Wikipedia geosearch answer, with its distance (in meters, shown
/// with no fraction digits) and direction from the point already worked out: the
/// distance the API reports, or else the one to the page's coordinates; the
/// direction towards those coordinates.
#[derive(Clone, Debug, PartialEq)]
pub struct GeoPage {
    /// Page title.
    pub title: String,
    /// Distance from the point.
    pub distance_meters: Option<Distance>,
    /// Compass direction from the point.
    pub direction: Option<String>,
}

/// The URL of an article: its title with underscores for spaces, percent-encoded,
/// on the Wikipedia of `language`.
pub open spec fn article_url(language: Seq<char>, title: Seq<char>) -> Seq<char> {
    "https://"@ + language + ".wikipedia.org/wiki/"@ + url_encoded(replaced(title, ' ', '_'))
}

/// The article a geosearch page is.
pub open spec fn page_article(page: GeoPage, language: Seq<char>) -> WikipediaArticleView {
    WikipediaArticleView {
        title: page.title@,
        language,
        url: article_url(language, page.title@),
        distance_meters: opt_distance(page.distance_meters),
        direction: opt_string(page.direction),
    }
}

/// Makes the article a geosearch page is.
pub fn into_article(page: GeoPage, language: &str) -> (r: NearbyWikipediaArticle)
    ensures
        r@ == page_article(page, language@),
{
    let url_title = replace_char(page.title.as_str(), ' ', '_');
    let encoded = url_encode(url_title.as_str());
    let mut url = String::from_str("https://");
    url.append(language);
    url.append(".wikipedia.org/wiki/");
    url.append(encoded.as_str());
    NearbyWikipediaArticle {
        title: page.title,
        language: String::from_str(language),
        url,
        distance_meters: page.distance_meters,
        direction: page.direction,
    }
}

/// The sort key of an article: its distance, then `rank`.
pub open spec fn article_key(article: WikipediaArticleView, rank: nat) -> SortKey {
    SortKey { distance: distance_view_key(article.distance_meters) as i128, rank: rank as usize }
}

/// Keyed articles as the library reasons about them.
pub open spec fn keyed_article_views(s: Seq<(SortKey, NearbyWikipediaArticle)>) -> Seq<
    (SortKey, WikipediaArticleView),
> {
    s.map_values(|p: (SortKey, NearbyWikipediaArticle)| (p.0, p.1@))
}

/// The nearest articles of a geosearch answer: the pages as articles of `language`,
/// ordered by distance (unknown distances last, ties in page order), at most `limit`.
pub open spec fn nearest_pages(pages: Seq<GeoPage>, language: Seq<char>, limit: u32) -> Seq<
    WikipediaArticleView,
> {
    truncated(
        payloads(
            sorted_by_key(
                pages.map_values(
                    |p: GeoPage| (article_key(page_article(p, language), 0), page_article(p, language)),
                ),
            ),
        ),
        limit as nat,
    )
}

/// Sorts keyed articles stably by key and keeps the first `limit` of them.
fn sorted_articles(keyed: Vec<(SortKey, NearbyWikipediaArticle)>, limit: usize) -> (r: Vec<
    NearbyWikipediaArticle,
>)
    ensures
        article_views(r@) == truncated(
            payloads(sorted_by_key(keyed_article_views(keyed@))),
            limit as nat,
        ),
{
    let sorted = sort_by_key(keyed);
    proof {
        crate::order::lemma_sorted_map(keyed@, |t: NearbyWikipediaArticle| t@);
        assert(keyed_article_views(keyed@) =~= keyed@.map_values(
            |p: (SortKey, NearbyWikipediaArticle)| (p.0, (|t: NearbyWikipediaArticle| t@)(p.1)),
        ));
        assert(keyed_article_views(sorted@) =~= sorted@.map_values(
            |p: (SortKey, NearbyWikipediaArticle)| (p.0, (|t: NearbyWikipediaArticle| t@)(p.1)),
        ));
    }
    let mut articles = strip_keys(sorted);
    assert(article_views(articles@) =~= payloads(keyed_article_views(sorted@)));
    articles.truncate(limit);
    articles
}

/// Turns the pages of a geosearch answer into the nearest articles.
pub fn geosearch_articles(pages: Vec<GeoPage>, language: &str, limit: u32) -> (r: Vec<
    NearbyWikipediaArticle,
>)
    ensures
        article_views(r@) == nearest_pages(pages@, language@, limit),
{
    let ghost all = pages@;
    let ghost entry = |p: GeoPage| (article_key(page_article(p, language@), 0), page_article(p, language@));
    let mut rest = pages;
    let mut keyed: Vec<(SortKey, NearbyWikipediaArticle)> = Vec::new();
    let n = rest.len();
    let mut i: usize = 0;
    assert(all.skip(0) =~= all);
    while i < n
        invariant
            i <= n,
            n == all.len(),
            rest@ == all.skip(i as int),
            entry == (|p: GeoPage| (article_key(page_article(p, language@), 0), page_article(p, language@))),
            keyed_article_views(keyed@) == all.take(i as int).map_values(entry),
        decreases n - i,
    {
        let page = rest.remove(0);
        assert(page == all[i as int]);
        assert(rest@ =~= all.skip(i + 1));
        let ghost before = keyed_article_views(keyed@);
        let article = into_article(page, language);
        let key = SortKey { distance: optional_distance_key(&article.distance_meters), rank: 0 };
        let ghost v = article@;
        keyed.push((key, article));
        assert(keyed_article_views(keyed@) =~= before.push((key, v)));
        assert(all.take(i + 1).map_values(entry) =~= all.take(i as int).map_values(entry).push(entry(all[i as int])));
        i = i + 1;
    }
    assert(all.take(n as int) =~= all);
    sorted_articles(keyed, limit as usize)
}

/// A row of the sitelink query, with its distance (in meters, shown with no
/// fraction digits) and direction from the point already worked out as for
/// `WikidataItemBinding`.
#[derive(Clone, Debug, PartialEq)]
pub struct SitelinkBinding {
    /// Wikidata entity URL.
    pub item: String,
    /// URL of a Wikipedia article about the item.
    pub article: Option<String>,
    /// Distance from the point.
    pub distance_meters: Option<Distance>,
    /// Compass direction from the point.
    pub direction: Option<String>,
}

/// A candidate article with the QID of the item it is about.
#[derive(Clone, Debug, PartialEq)]
pub struct SitelinkCandidate {
    /// QID of the item.
    pub item_id: String,
    /// The article.
    pub article: NearbyWikipediaArticle,
}

/// The views of a sequence of candidates.
pub open spec fn candidate_views(s: Seq<SitelinkCandidate>) -> Seq<CandidateView> {
    s.map_values(|c: SitelinkCandidate| c@)
}

/// A candidate as the library reasons about it.
pub struct CandidateView {
    pub item_id: Seq<char>,
    pub article: WikipediaArticleView,
}

impl View for SitelinkCandidate {
    type V = CandidateView;

    open spec fn view(&self) -> CandidateView {
        CandidateView { item_id: self.item_id@, article: self.article@ }
    }
}

/// The candidate a row gives, ranked by its language among the preferred ones:
/// none unless the item URL ends in a QID and the row has an article URL naming
/// a language edition and a title.
pub open spec fn candidate_of(row: SitelinkBinding, preferred: Seq<Seq<char>>) -> Option<(SortKey, CandidateView)> {
    match (wikidata_id(row.item@), row.article) {
        (Some(item_id), Some(url)) => match (wikipedia_language(url@), wikipedia_title(url@)) {
            (Some(language), Some(title)) => {
                let article = WikipediaArticleView {
                    title,
                    language,
                    url: url@,
                    distance_meters: opt_distance(row.distance_meters),
                    direction: opt_string(row.direction),
                };
                Some((article_key(article, rank_of(language, preferred)), CandidateView { item_id, article }))
            },
            _ => None,
        },
        _ => None,
    }
}

/// The candidates the rows give, in row order.
pub open spec fn candidates_of(rows: Seq<SitelinkBinding>, preferred: Seq<Seq<char>>) -> Seq<
    (SortKey, CandidateView),
>
    decreases rows.len(),
{
    if rows.len() == 0 {
        Seq::empty()
    } else {
        match candidate_of(rows.last(), preferred) {
            Some(c) => candidates_of(rows.drop_last(), preferred).push(c),
            None => candidates_of(rows.drop_last(), preferred),
        }
    }
}

/// Makes the candidate a row gives.
pub fn into_candidate(row: SitelinkBinding, preferred_languages: &Vec<String>) -> (r: Option<
    (SortKey, SitelinkCandidate),
>)
    ensures
        match r {
            Some(c) => candidate_of(row, views(preferred_languages@)) == Some((c.0, c.1@)),
            None => candidate_of(row, views(preferred_languages@)) is None,
        },
{
    let item_id = match wikidata_id_from_url(row.item.as_str()) {
        Some(id) => id,
        None => return None,
    };
    let url = match row.article {
        Some(url) => url,
        None => return None,
    };
    let language = match wikipedia_language_from_url(url.as_str()) {
        Some(language) => language,
        None => return None,
    };
    let title = match wikipedia_title_from_url(url.as_str()) {
        Some(title) => title,
        None => return None,
    };
    let rank = language_rank(language.as_str(), preferred_languages);
    let key = SortKey { distance: optional_distance_key(&row.distance_meters), rank };
    let article = NearbyWikipediaArticle {
        title,
        language,
        url,
        distance_meters: row.distance_meters,
        direction: row.direction,
    };
    Some((key, SitelinkCandidate { item_id, article }))
}

/// Keyed candidates as the library reasons about them.
pub open spec fn keyed_candidate_views(s: Seq<(SortKey, SitelinkCandidate)>) -> Seq<
    (SortKey, CandidateView),
> {
    s.map_values(|p: (SortKey, SitelinkCandidate)| (p.0, p.1@))
}

/// Whether some candidate of `s` is about the item `id`.
pub open spec fn has_item(s: Seq<CandidateView>, id: Seq<char>) -> bool {
    exists|k: int| 0 <= k < s.len() && s[k].item_id == id
}

/// The first candidate about each item, in order.
pub open spec fn first_per_item(s: Seq<CandidateView>) -> Seq<CandidateView>
    decreases s.len(),
{
    if s.len() == 0 {
        s
    } else {
        let rest = first_per_item(s.drop_last());
        if has_item(rest, s.last().item_id) {
            rest
        } else {
            rest.push(s.last())
        }
    }
}

/// The first candidates about each item of a prefix are the first of those of the whole.
proof fn lemma_first_per_item_prefix(s: Seq<CandidateView>, i: int)
    requires
        0 <= i <= s.len(),
    ensures
        first_per_item(s.take(i)).len() <= first_per_item(s).len(),
        first_per_item(s).take(first_per_item(s.take(i)).len() as int) == first_per_item(s.take(i)),
    decreases s.len() - i,
{
    if i < s.len() {
        lemma_first_per_item_prefix(s, i + 1);
        let a = first_per_item(s.take(i));
        let b = first_per_item(s.take(i + 1));
        assert(s.take(i + 1).drop_last() =~= s.take(i));
        assert(b.take(a.len() as int) =~= a);
        assert(first_per_item(s).take(a.len() as int) =~= first_per_item(s).take(b.len() as int).take(
            a.len() as int,
        ));
    } else {
        assert(s.take(i) =~= s);
        assert(first_per_item(s).take(first_per_item(s).len() as int) =~= first_per_item(s));
    }
}

/// The articles of the candidates, in order.
pub open spec fn candidate_articles(s: Seq<CandidateView>) -> Seq<WikipediaArticleView> {
    s.map_values(|c: CandidateView| c.article)
}

/// The articles of the sitelink answer: the candidates ordered by distance and then
/// by language preference, the first one about each item, until `limit` of them
/// (and at least one, when there is any) are picked.
pub open spec fn nearest_sitelinks(rows: Seq<SitelinkBinding>, limit: u32, preferred: Seq<Seq<char>>) -> Seq<
    WikipediaArticleView,
> {
    candidate_articles(
        truncated(
            first_per_item(payloads(sorted_by_key(candidates_of(rows, preferred)))),
            if limit == 0 {
                1
            } else {
                limit as nat
            },
        ),
    )
}

/// Picks the first candidate about each item until `limit` articles are picked.
fn pick_per_item(candidates: Vec<SitelinkCandidate>, limit: u32) -> (r: Vec<NearbyWikipediaArticle>)
    ensures
        article_views(r@) == candidate_articles(
            truncated(
                first_per_item(candidate_views(candidates@)),
                if limit == 0 {
                    1
                } else {
                    limit as nat
                },
            ),
        ),
{
    let ghost all = candidate_views(candidates@);
    let ghost cap: nat = if limit == 0 {
        1
    } else {
        limit as nat
    };
    let mut rest = candidates;
    assert(candidate_views(rest@) =~= all.skip(0));
    let mut seen: Vec<String> = Vec::new();
    let mut articles: Vec<NearbyWikipediaArticle> = Vec::new();
    let n = rest.len();
    let mut i: usize = 0;
    assert(all.take(0) =~= Seq::<CandidateView>::empty());
    while i < n
        invariant
            i <= n,
            n == all.len(),
            candidate_views(rest@) == all.skip(i as int),
            all == candidate_views(candidates@),
            rest@.len() == n - i,
            views(seen@) == first_per_item(all.take(i as int)).map_values(|c: CandidateView| c.item_id),
            article_views(articles@) == candidate_articles(first_per_item(all.take(i as int))),
            articles@.len() < cap,
            cap == (if limit == 0 { 1 } else { limit as nat }),
        decreases n - i,
    {
        let ghost rest_before = rest@;
        let candidate = rest.remove(0);
        assert(candidate@ == all[i as int]) by {
            assert(candidate_views(rest_before)[0] == all.skip(i as int)[0]);
        }
        assert(rest@ =~= rest_before.subrange(1, rest_before.len() as int));
        assert(candidate_views(rest_before) == all.skip(i as int));
        assert forall|k: int| 0 <= k < rest@.len() implies #[trigger] candidate_views(rest@)[k] == all.skip(i + 1)[k] by {
            assert(rest@[k] == rest_before[k + 1]);
            assert(candidate_views(rest_before)[k + 1] == all.skip(i as int)[k + 1]);
        }
        assert(candidate_views(rest@) =~= all.skip(i + 1));
        let ghost prefix = all.take(i as int);
        let ghost before = first_per_item(prefix);
        assert(views(seen@).len() == before.len());
        assert(all.take(i + 1).drop_last() =~= prefix);
        let known = contains(&seen, candidate.item_id.as_str());
        proof {
            if known {
                let k = choose|k: int| 0 <= k < seen@.len() && seen@[k]@ == candidate.item_id@;
                assert(views(seen@)[k] == candidate.item_id@);
                assert(before[k].item_id == candidate.item_id@);
            }
            if has_item(before, candidate.item_id@) {
                let k = choose|k: int| 0 <= k < before.len() && before[k].item_id == candidate.item_id@;
                assert(views(seen@)[k] == candidate.item_id@);
                assert(seen@[k]@ == candidate.item_id@);
            }
        }
        if !known {
            let ghost cv = candidate@;
            let ghost seen_before = views(seen@);
            let ghost articles_before = article_views(articles@);
            seen.push(candidate.item_id);
            articles.push(candidate.article);
            assert(views(seen@) =~= seen_before.push(cv.item_id));
            assert(article_views(articles@) =~= articles_before.push(cv.article));
            assert(first_per_item(all.take(i + 1)) =~= before.push(cv));
            assert(views(seen@) =~= first_per_item(all.take(i + 1)).map_values(|c: CandidateView| c.item_id));
            assert(article_views(articles@) =~= candidate_articles(first_per_item(all.take(i + 1))));
            if articles.len() as u64 >= limit as u64 {
                proof {
                    lemma_first_per_item_prefix(all, i + 1);
                    assert(truncated(first_per_item(all), cap) =~= first_per_item(all.take(i + 1)));
                }
                return articles;
            }
        }
        i = i + 1;
    }
    assert(all.take(n as int) =~= all);
    articles
}

/// Turns the rows of the sitelink query into articles.
pub fn sitelink_articles(
    rows: Vec<SitelinkBinding>,
    limit: u32,
    preferred_languages: &Vec<String>,
) -> (r: Vec<NearbyWikipediaArticle>)
    ensures
        article_views(r@) == nearest_sitelinks(rows@, limit, views(preferred_languages@)),
{
    let ghost all = rows@;
    let ghost preferred = views(preferred_languages@);
    let mut rest = rows;
    let mut keyed: Vec<(SortKey, SitelinkCandidate)> = Vec::new();
    let n = rest.len();
    let mut i: usize = 0;
    assert(all.skip(0) =~= all);
    assert(keyed_candidate_views(keyed@) =~= candidates_of(all.take(0), preferred));
    while i < n
        invariant
            i <= n,
            n == all.len(),
            preferred == views(preferred_languages@),
            rest@ == all.skip(i as int),
            keyed_candidate_views(keyed@) == candidates_of(all.take(i as int), preferred),
        decreases n - i,
    {
        let row = rest.remove(0);
        assert(row == all[i as int]);
        assert(rest@ =~= all.skip(i + 1));
        assert(all.take(i + 1).drop_last() =~= all.take(i as int));
        let ghost before = keyed_candidate_views(keyed@);
        match into_candidate(row, preferred_languages) {
            Some(entry) => {
                let ghost v = (entry.0, entry.1@);
                keyed.push(entry);
                assert(keyed_candidate_views(keyed@) =~= before.push(v));
            },
            None => {
                assert(keyed_candidate_views(keyed@) =~= before);
            },
        }
        i = i + 1;
    }
    assert(all.take(n as int) =~= all);
    let sorted = sort_by_key(keyed);
    proof {
        crate::order::lemma_sorted_map(keyed@, |t: SitelinkCandidate| t@);
        assert(keyed_candidate_views(keyed@) =~= keyed@.map_values(
            |p: (SortKey, SitelinkCandidate)| (p.0, (|t: SitelinkCandidate| t@)(p.1)),
        ));
        assert(keyed_candidate_views(sorted@) =~= sorted@.map_values(
            |p: (SortKey, SitelinkCandidate)| (p.0, (|t: SitelinkCandidate| t@)(p.1)),
        ));
    }
    let candidates = strip_keys(sorted);
    assert(candidate_views(candidates@) =~= payloads(keyed_candidate_views(sorted@)));
    pick_per_item(candidates, limit)
}

/// Whether some article of `s` has the URL `url`.
pub open spec fn has_url(s: Seq<WikipediaArticleView>, url: Seq<char>) -> bool {
    exists|k: int| 0 <= k < s.len() && s[k].url == url
}

/// The first article with each URL, in order.
pub open spec fn first_per_url(s: Seq<WikipediaArticleView>) -> Seq<WikipediaArticleView>
    decreases s.len(),
{
    if s.len() == 0 {
        s
    } else {
        let rest = first_per_url(s.drop_last());
        if has_url(rest, s.last().url) {
            rest
        } else {
            rest.push(s.last())
        }
    }
}

/// Keeps the first article with each URL.
pub fn deduplicate_articles(articles: &mut Vec<NearbyWikipediaArticle>)
    ensures
        article_views(final(articles)@) == first_per_url(article_views(old(articles)@)),
{
    let mut rest: Vec<NearbyWikipediaArticle> = Vec::new();
    std::mem::swap(&mut rest, articles);
    let ghost all = article_views(rest@);
    let mut seen: Vec<String> = Vec::new();
    let mut kept: Vec<NearbyWikipediaArticle> = Vec::new();
    let n = rest.len();
    let mut i: usize = 0;
    assert(article_views(rest@) =~= all.skip(0));
    assert(all.take(0) =~= Seq::<WikipediaArticleView>::empty());
    while i < n
        invariant
            i <= n,
            n == all.len(),
            article_views(rest@) == all.skip(i as int),
            rest@.len() == n - i,
            views(seen@) == first_per_url(all.take(i as int)).map_values(
                |a: WikipediaArticleView| a.url,
            ),
            article_views(kept@) == first_per_url(all.take(i as int)),
        decreases n - i,
    {
        let ghost rest_before = rest@;
        let article = rest.remove(0);
        assert(article@ == all[i as int]) by {
            assert(article_views(rest_before)[0] == all.skip(i as int)[0]);
        }
        assert(rest@ =~= rest_before.subrange(1, rest_before.len() as int));
        assert forall|k: int| 0 <= k < rest@.len() implies #[trigger] article_views(rest@)[k]
            == all.skip(i + 1)[k] by {
            assert(rest@[k] == rest_before[k + 1]);
            assert(article_views(rest_before)[k + 1] == all.skip(i as int)[k + 1]);
        }
        assert(article_views(rest@) =~= all.skip(i + 1));
        let ghost before = first_per_url(all.take(i as int));
        assert(all.take(i + 1).drop_last() =~= all.take(i as int));
        assert(views(seen@).len() == before.len());
        let known = contains(&seen, article.url.as_str());
        proof {
            if known {
                let k = choose|k: int| 0 <= k < seen@.len() && seen@[k]@ == article.url@;
                assert(views(seen@)[k] == article.url@);
                assert(before[k].url == article.url@);
            }
            if has_url(before, article.url@) {
                let k = choose|k: int| 0 <= k < before.len() && before[k].url == article.url@;
                assert(views(seen@)[k] == article.url@);
                assert(seen@[k]@ == article.url@);
            }
        }
        if !known {
            let ghost av = article@;
            let ghost seen_before = views(seen@);
            let ghost kept_before = article_views(kept@);
            seen.push(article.url.clone());
            kept.push(article);
            assert(views(seen@) =~= seen_before.push(av.url));
            assert(article_views(kept@) =~= kept_before.push(av));
            assert(first_per_url(all.take(i + 1)) =~= before.push(av));
        }
        i = i + 1;
    }
    assert(all.take(n as int) =~= all);
    *articles = kept;
}

/// The articles found on the Wikipedia endpoints and through Wikidata, merged: the
/// first article with each URL, ordered by distance and then by language
/// preference (ties in the order found), at most `limit` of them.
pub open spec fn merged_articles(
    found: Seq<WikipediaArticleView>,
    preferred: Seq<Seq<char>>,
    limit: u32,
) -> Seq<WikipediaArticleView> {
    truncated(
        payloads(
            sorted_by_key(
                first_per_url(found).map_values(
                    |a: WikipediaArticleView| (article_key(a, rank_of(a.language, preferred)), a),
                ),
            ),
        ),
        limit as nat,
    )
}

impl WikimediaSearch {
    /// Merges the articles found on the Wikipedia endpoints with those found
    /// through Wikidata sitelinks.
    pub fn merge_articles(
        &self,
        from_endpoints: Vec<NearbyWikipediaArticle>,
        from_wikidata: Vec<NearbyWikipediaArticle>,
    ) -> (r: Vec<NearbyWikipediaArticle>)
        ensures
            article_views(r@) == merged_articles(
                article_views(from_endpoints@) + article_views(from_wikidata@),
                views(self.wikipedia_languages@),
                self.limit,
            ),
    {
        let mut articles = from_endpoints;
        let mut fallback = from_wikidata;
        articles.append(&mut fallback);
        assert(article_views(articles@) =~= article_views(from_endpoints@) + article_views(
            from_wikidata@,
        ));
        deduplicate_articles(&mut articles);
        let ghost unique = article_views(articles@);
        let ghost preferred = views(self.wikipedia_languages@);
        let ghost entry = |a: WikipediaArticleView| (article_key(a, rank_of(a.language, preferred)), a);
        let mut rest = articles;
        let mut keyed: Vec<(SortKey, NearbyWikipediaArticle)> = Vec::new();
        let n = rest.len();
        let mut i: usize = 0;
        assert(article_views(rest@) =~= unique.skip(0));
        while i < n
            invariant
                i <= n,
                n == unique.len(),
                preferred == views(self.wikipedia_languages@),
                entry == (|a: WikipediaArticleView| (article_key(a, rank_of(a.language, preferred)), a)),
                article_views(rest@) == unique.skip(i as int),
                rest@.len() == n - i,
                keyed_article_views(keyed@) == unique.take(i as int).map_values(entry),
            decreases n - i,
        {
            let ghost rest_before = rest@;
            let article = rest.remove(0);
            assert(article@ == unique[i as int]) by {
                assert(article_views(rest_before)[0] == unique.skip(i as int)[0]);
            }
            assert(rest@ =~= rest_before.subrange(1, rest_before.len() as int));
            assert forall|k: int| 0 <= k < rest@.len() implies #[trigger] article_views(rest@)[k]
                == unique.skip(i + 1)[k] by {
                assert(rest@[k] == rest_before[k + 1]);
                assert(article_views(rest_before)[k + 1] == unique.skip(i as int)[k + 1]);
            }
            assert(article_views(rest@) =~= unique.skip(i + 1));
            let rank = language_rank(article.language.as_str(), &self.wikipedia_languages);
            let key = SortKey { distance: optional_distance_key(&article.distance_meters), rank };
            let ghost before = keyed_article_views(keyed@);
            let ghost v = article@;
            keyed.push((key, article));
            assert(keyed_article_views(keyed@) =~= before.push((key, v)));
            assert(unique.take(i + 1).map_values(entry) =~= unique.take(i as int).map_values(
                entry,
            ).push(entry(unique[i as int])));
            i = i + 1;
        }
        assert(unique.take(n as int) =~= unique);
        sorted_articles(keyed, self.limit as usize)
    }
}

/// Every key of an optional distance fits an `i128`.
proof fn lemma_distance_key_range(d: Option<DistanceView>)
    ensures
        -0x8000_0000_0000_0000 <= distance_view_key(d) <= 0x1_0000_0000_0000_0000,
{
}

/// The key of an item, as an integer.
pub open spec fn item_distance(item: WikidataItemView) -> int {
    distance_view_key(item.distance_km)
}

/// The key of an article, as an integer.
pub open spec fn article_distance(article: WikipediaArticleView) -> int {
    distance_view_key(article.distance_meters)
}

/// Nearby Wikidata items come nearest first (those of unknown distance last), and
/// there are never more of them than the limit.
pub proof fn law_items_nearest_first(rows: Seq<WikidataItemBinding>, limit: u32)
    ensures
        nearest_items(rows, limit).len() <= limit,
        forall|i: int, j: int|
            0 <= i < j < nearest_items(rows, limit).len() ==> item_distance(
                #[trigger] nearest_items(rows, limit)[i],
            ) <= item_distance(#[trigger] nearest_items(rows, limit)[j]),
{
    let s = keyed_items(items_of(rows));
    let key = |i: WikidataItemView| item_key(i);
    assert forall|i: int| 0 <= i < s.len() implies (#[trigger] s[i]).0 == key(s[i].1) by {}
    lemma_sorted_payloads_ordered(s, key, limit as nat);
    let t = nearest_items(rows, limit);
    assert forall|i: int, j: int| 0 <= i < j < t.len() implies item_distance(#[trigger] t[i])
        <= item_distance(#[trigger] t[j]) by {
        assert(!key_before(key(t[j]), key(t[i])));
        lemma_distance_key_range(t[i].distance_km);
        lemma_distance_key_range(t[j].distance_km);
    }
}

/// The articles of a geosearch answer come nearest first (those of unknown distance
/// last), and there are never more of them than the limit.
pub proof fn law_geosearch_nearest_first(pages: Seq<GeoPage>, language: Seq<char>, limit: u32)
    ensures
        nearest_pages(pages, language, limit).len() <= limit,
        forall|i: int, j: int|
            0 <= i < j < nearest_pages(pages, language, limit).len() ==> article_distance(
                #[trigger] nearest_pages(pages, language, limit)[i],
            ) <= article_distance(#[trigger] nearest_pages(pages, language, limit)[j]),
{
    let s = pages.map_values(
        |p: GeoPage| (article_key(page_article(p, language), 0), page_article(p, language)),
    );
    let key = |a: WikipediaArticleView| article_key(a, 0);
    assert forall|i: int| 0 <= i < s.len() implies (#[trigger] s[i]).0 == key(s[i].1) by {}
    lemma_sorted_payloads_ordered(s, key, limit as nat);
    let t = nearest_pages(pages, language, limit);
    assert forall|i: int, j: int| 0 <= i < j < t.len() implies article_distance(#[trigger] t[i])
        <= article_distance(#[trigger] t[j]) by {
        assert(!key_before(key(t[j]), key(t[i])));
        lemma_distance_key_range(t[i].distance_meters);
        lemma_distance_key_range(t[j].distance_meters);
    }
}

/// The key a candidate is sorted by: its article's distance, then the rank of its
/// article's language among the preferred ones.
pub open spec fn candidate_key(c: CandidateView, preferred: Seq<Seq<char>>) -> SortKey {
    article_key(c.article, rank_of(c.article.language, preferred))
}

proof fn lemma_candidates_keyed(rows: Seq<SitelinkBinding>, preferred: Seq<Seq<char>>)
    ensures
        forall|i: int|
            0 <= i < candidates_of(rows, preferred).len() ==> (#[trigger] candidates_of(
                rows,
                preferred,
            )[i]).0 == candidate_key(candidates_of(rows, preferred)[i].1, preferred),
    decreases rows.len(),
{
    if rows.len() > 0 {
        lemma_candidates_keyed(rows.drop_last(), preferred);
        let prev = candidates_of(rows.drop_last(), preferred);
        let all = candidates_of(rows, preferred);
        assert forall|i: int| 0 <= i < all.len() implies (#[trigger] all[i]).0 == candidate_key(
            all[i].1,
            preferred,
        ) by {
            if i < prev.len() {
                assert(all[i] == prev[i]);
            } else {
                let c = candidate_of(rows.last(), preferred);
                assert(c is Some);
                assert(all[i] == c->0);
            }
        }
    }
}

proof fn lemma_first_per_item_members(s: Seq<CandidateView>)
    ensures
        forall|k: int|
            0 <= k < first_per_item(s).len() ==> exists|m: int|
                0 <= m < s.len() && s[m] == #[trigger] first_per_item(s)[k],
    decreases s.len(),
{
    if s.len() > 0 {
        lemma_first_per_item_members(s.drop_last());
        let r = first_per_item(s.drop_last());
        assert forall|k: int| 0 <= k < first_per_item(s).len() implies exists|m: int|
            0 <= m < s.len() && s[m] == #[trigger] first_per_item(s)[k] by {
            if k < r.len() {
                let m = choose|m: int| 0 <= m < s.drop_last().len() && s.drop_last()[m] == r[k];
                assert(s[m] == first_per_item(s)[k]);
            } else {
                assert(first_per_item(s)[k] == s[s.len() - 1]);
            }
        }
    }
}

/// Keeping the first candidate per item keeps the candidates in order.
proof fn lemma_first_per_item_ordered(s: Seq<CandidateView>, key: spec_fn(CandidateView) -> SortKey)
    requires
        ordered_by(s, key),
    ensures
        ordered_by(first_per_item(s), key),
    decreases s.len(),
{
    if s.len() > 0 {
        let d = s.drop_last();
        assert forall|i: int, j: int| 0 <= i < j < d.len() implies !key_before(
            key(#[trigger] d[j]),
            key(#[trigger] d[i]),
        ) by {
            assert(d[i] == s[i] && d[j] == s[j]);
        }
        lemma_first_per_item_ordered(d, key);
        lemma_first_per_item_members(d);
        let r = first_per_item(d);
        let t = first_per_item(s);
        assert forall|i: int, j: int| 0 <= i < j < t.len() implies !key_before(
            key(#[trigger] t[j]),
            key(#[trigger] t[i]),
        ) by {
            if j < r.len() {
                assert(t[i] == r[i] && t[j] == r[j]);
            } else {
                assert(t[j] == s[s.len() - 1]);
                assert(t[i] == r[i]);
                let m = choose|m: int| 0 <= m < d.len() && d[m] == r[i];
                assert(s[m] == r[i]);
            }
        }
    }
}

/// Keeping the first candidate per item leaves one candidate per item.
pub proof fn law_one_candidate_per_item(s: Seq<CandidateView>)
    ensures
        distinct_by(first_per_item(s), |c: CandidateView| c.item_id),
        forall|i: int| 0 <= i < s.len() ==> has_item(first_per_item(s), #[trigger] s[i].item_id),
    decreases s.len(),
{
    if s.len() > 0 {
        let d = s.drop_last();
        law_one_candidate_per_item(d);
        let r = first_per_item(d);
        let t = first_per_item(s);
        assert forall|i: int, j: int| 0 <= i < j < t.len() implies (|c: CandidateView| c.item_id)(
            #[trigger] t[i],
        ) != (|c: CandidateView| c.item_id)(#[trigger] t[j]) by {
            if j < r.len() {
                assert(t[i] == r[i] && t[j] == r[j]);
            } else {
                assert(t[i] == r[i]);
            }
        }
        assert forall|i: int| 0 <= i < s.len() implies has_item(t, #[trigger] s[i].item_id) by {
            if i < d.len() {
                assert(s[i] == d[i]);
                assert(has_item(r, d[i].item_id));
                let k = choose|k: int| 0 <= k < r.len() && r[k].item_id == d[i].item_id;
                assert(t[k] == r[k]);
            } else if !has_item(r, s.last().item_id) {
                assert(t[r.len() as int] == s.last());
            } else {
                let k = choose|k: int| 0 <= k < r.len() && r[k].item_id == s.last().item_id;
                assert(t[k] == r[k]);
            }
        }
    }
}

/// The articles picked from Wikidata sitelinks come in order of distance and then
/// of language preference, one per Wikidata item, and never more than the limit
/// (at least one when the limit is 0 and there is a candidate).
pub proof fn law_sitelinks_in_order(rows: Seq<SitelinkBinding>, limit: u32, preferred: Seq<Seq<char>>)
    ensures
        ({
            let cap: nat = if limit == 0 { 1 } else { limit as nat };
            let picked = truncated(
                first_per_item(payloads(sorted_by_key(candidates_of(rows, preferred)))),
                cap,
            );
            &&& picked.len() <= cap
            &&& ordered_by(picked, |c: CandidateView| candidate_key(c, preferred))
            &&& distinct_by(picked, |c: CandidateView| c.item_id)
            &&& candidate_articles(picked) == nearest_sitelinks(rows, limit, preferred)
        }),
{
    let cap: nat = if limit == 0 { 1 } else { limit as nat };
    let s = candidates_of(rows, preferred);
    let key = |c: CandidateView| candidate_key(c, preferred);
    lemma_candidates_keyed(rows, preferred);
    assert forall|i: int| 0 <= i < s.len() implies (#[trigger] s[i]).0 == key(s[i].1) by {}
    crate::order::lemma_sorted_len(s);
    lemma_sorted_payloads_ordered(s, key, s.len());
    let sorted = payloads(sorted_by_key(s));
    assert(truncated(sorted, s.len()) == sorted);
    lemma_first_per_item_ordered(sorted, key);
    law_one_candidate_per_item(sorted);
    let id = |c: CandidateView| c.item_id;
    assert(distinct_by(first_per_item(sorted), id)) by {
        assert forall|i: int, j: int| 0 <= i < j < first_per_item(sorted).len() implies id(
            #[trigger] first_per_item(sorted)[i],
        ) != id(#[trigger] first_per_item(sorted)[j]) by {}
    }
    lemma_truncated_keeps(first_per_item(sorted), cap, id, key);
}

/// The merged Wikipedia articles have distinct URLs, come in order of distance and
/// then of language preference, and are never more than the limit.
pub proof fn law_merged_articles(found: Seq<WikipediaArticleView>, preferred: Seq<Seq<char>>, limit: u32)
    ensures
        merged_articles(found, preferred, limit).len() <= limit,
        distinct_by(merged_articles(found, preferred, limit), |a: WikipediaArticleView| a.url),
        ordered_by(
            merged_articles(found, preferred, limit),
            |a: WikipediaArticleView| article_key(a, rank_of(a.language, preferred)),
        ),
{
    let unique = first_per_url(found);
    let entry = |a: WikipediaArticleView| (article_key(a, rank_of(a.language, preferred)), a);
    let key = |a: WikipediaArticleView| article_key(a, rank_of(a.language, preferred));
    let url = |a: WikipediaArticleView| a.url;
    let s = unique.map_values(entry);
    assert forall|i: int| 0 <= i < s.len() implies (#[trigger] s[i]).0 == key(s[i].1) by {}
    lemma_sorted_payloads_ordered(s, key, limit as nat);
    law_first_per_url_distinct(found);
    assert(payloads(s) =~= unique);
    assert(distinct_by(payloads(s), url)) by {
        assert forall|i: int, j: int| 0 <= i < j < payloads(s).len() implies url(
            #[trigger] payloads(s)[i],
        ) != url(#[trigger] payloads(s)[j]) by {}
    }
    lemma_sorted_distinct(s, url);
    lemma_truncated_keeps(payloads(sorted_by_key(s)), limit as nat, url, key);
}

/// Keeping the first article per URL leaves distinct URLs, and keeps every URL.
pub proof fn law_first_per_url_distinct(s: Seq<WikipediaArticleView>)
    ensures
        forall|i: int, j: int|
            0 <= i < j < first_per_url(s).len() ==> (#[trigger] first_per_url(s)[i]).url
                != (#[trigger] first_per_url(s)[j]).url,
        forall|i: int| 0 <= i < s.len() ==> has_url(first_per_url(s), #[trigger] s[i].url),
    decreases s.len(),
{
    if s.len() > 0 {
        let d = s.drop_last();
        law_first_per_url_distinct(d);
        let r = first_per_url(d);
        let t = first_per_url(s);
        assert forall|i: int, j: int| 0 <= i < j < t.len() implies (#[trigger] t[i]).url
            != (#[trigger] t[j]).url by {
            if j < r.len() {
                assert(t[i] == r[i] && t[j] == r[j]);
            } else {
                assert(t[i] == r[i]);
            }
        }
        assert forall|i: int| 0 <= i < s.len() implies has_url(t, #[trigger] s[i].url) by {
            if i < d.len() {
                assert(s[i] == d[i]);
                assert(has_url(r, d[i].url));
                let k = choose|k: int| 0 <= k < r.len() && r[k].url == d[i].url;
                assert(t[k] == r[k]);
            } else if !has_url(r, s.last().url) {
                assert(t[r.len() as int] == s.last());
            } else {
                let k = choose|k: int| 0 <= k < r.len() && r[k].url == s.last().url;
                assert(t[k] == r[k]);
            }
        }
    }
}

/// The part before the first `c` of `a + b`, when `a` holds no `c`, is `a` and
/// the part of `b` before its first `c`.
proof fn lemma_before_first_concat(a: Seq<char>, b: Seq<char>, c: char)
    requires
        forall|i: int| 0 <= i < a.len() ==> a[i] != c,
    ensures
        before_first(a + b, c) == a + before_first(b, c),
    decreases a.len(),
{
    if a.len() == 0 {
        assert(a + b =~= b);
        assert(a + before_first(b, c) =~= before_first(b, c));
    } else {
        assert((a + b)[0] == a[0]);
        assert((a + b).drop_first() =~= a.drop_first() + b);
        lemma_before_first_concat(a.drop_first(), b, c);
        assert(seq![a[0]] + (a.drop_first() + before_first(b, c)) =~= a + before_first(b, c));
    }
}

/// `find_from` from `i` finds `p` at `k` when it occurs there and nowhere in between.
proof fn lemma_find_from_at(s: Seq<char>, p: Seq<char>, i: int, k: int)
    requires
        0 <= i <= k,
        occurs_at(s, p, k),
        forall|j: int| i <= j < k ==> !#[trigger] occurs_at(s, p, j),
    ensures
        find_from(s, p, i) == Some(k),
    decreases k - i,
{
    if i < k {
        assert(!occurs_at(s, p, i));
        lemma_find_from_at(s, p, i + 1, k);
    }
}

/// A pattern whose first character `s` lacks is not found in `s`.
proof fn lemma_find_from_none(s: Seq<char>, p: Seq<char>, i: int)
    requires
        p.len() > 0,
        forall|j: int| 0 <= j < s.len() ==> s[j] != p[0],
    ensures
        find_from(s, p, i) is None,
    decreases s.len() + 1 - i,
{
    if !(i < 0 || i + p.len() > s.len()) {
        assert(s.subrange(i, i + p.len())[0] == s[i]);
        lemma_find_from_none(s, p, i + 1);
    }
}

/// Reading back an article URL that the bot writes gives the language and the
/// title it was written from, when the language is not empty and holds no `/`
/// and the title holds no underscore (an underscore reads back as a space).
pub proof fn law_article_url_round_trip(language: Seq<char>, title: Seq<char>)
    requires
        language.len() > 0,
        !language.contains('/'),
        !title.contains('_'),
    ensures
        wikipedia_language(article_url(language, title)) == Some(language),
        wikipedia_title(article_url(language, title)) == Some(title),
{
    reveal_strlit("https://");
    reveal_strlit("http://");
    reveal_strlit(".wikipedia.org/wiki/");
    reveal_strlit(".wikipedia.org");
    reveal_strlit("/wiki/");
    let scheme = "https://"@;
    let site = ".wikipedia.org/wiki/"@;
    let host_suffix = ".wikipedia.org"@;
    let marker = "/wiki/"@;
    let spaced = replaced(title, ' ', '_');
    let encoded = url_encoded(spaced);
    let url = article_url(language, title);
    assert(url == scheme + language + site + encoded);
    assert forall|i: int| 0 <= i < language.len() implies language[i] != '/' by {
        if language[i] == '/' {
            assert(language.contains('/'));
        }
    }
    lemma_percent_encoded_ascii(vstd::utf8::encode_utf8(spaced));

    // The language: the host is the language followed by `.wikipedia.org`.
    let rest = url.subrange(8, url.len() as int);
    assert(url.subrange(0, 8) =~= scheme);
    assert(rest =~= language + (site + encoded));
    assert(site + encoded =~= host_suffix + (marker + encoded));
    lemma_before_first_concat(host_suffix, marker + encoded, '/');
    assert(before_first(marker + encoded, '/') =~= Seq::<char>::empty());
    assert(host_suffix + Seq::<char>::empty() =~= host_suffix);
    lemma_before_first_concat(language, site + encoded, '/');
    let host = language + host_suffix;
    assert(before_first(rest, '/') == host);
    assert(host.subrange(host.len() - 14, host.len() as int) =~= host_suffix);
    assert(host.subrange(0, host.len() - 14) =~= language);

    // The title: `/wiki/` first occurs right after the host, and not in the
    // encoded title, which holds no `/`.
    let k: int = 8 + language.len() as int + 14;
    assert(url.subrange(k, k + 6) =~= marker);
    assert forall|j: int| 0 <= j < k implies !#[trigger] occurs_at(url, marker, j) by {
        if occurs_at(url, marker, j) {
            assert(url.subrange(j, j + 6)[0] == url[j]);
            assert(url.subrange(j, j + 6)[5] == url[j + 5]);
            assert(url[j] == '/' && url[j + 5] == '/');
            if j < 8 {
                assert(url[j] == scheme[j]);
                assert(j == 6 || j == 7);
                if j + 5 < 8 + language.len() {
                    assert(url[j + 5] == language[j + 5 - 8]);
                } else {
                    assert(url[j + 5] == site[j + 5 - 8 - language.len()]);
                }
            } else if j < 8 + language.len() {
                assert(url[j] == language[j - 8]);
            } else {
                assert(url[j] == site[j - 8 - language.len()]);
            }
        }
    }
    lemma_find_from_at(url, marker, 0, k);
    let after = url.subrange(k + 6, url.len() as int);
    assert(after =~= encoded);
    assert forall|j: int| 0 <= j < encoded.len() implies encoded[j] != marker[0] by {
        assert(encoded[j] == crate::encoding::percent_encoded_bytes(vstd::utf8::encode_utf8(spaced))[j]);
    }
    lemma_find_from_none(encoded, marker, 0);
    assert(second_piece(url, marker) == Some(encoded));
    law_url_decode_undoes_encode(spaced);
    assert forall|i: int| 0 <= i < title.len() implies title[i] != '_' by {
        if title[i] == '_' {
            assert(title.contains('_'));
        }
    }
    assert(replaced(spaced, '_', ' ') =~= title);
}

/// The WKT center of a SPARQL search around a point: `Point(` with the printed
/// longitude first, then the printed latitude.
pub open spec fn wkt_center(c: Coordinates) -> Seq<char> {
    "wikibase:center \"Point("@ + decimal_text(c.longitude) + " "@ + decimal_text(c.latitude) + ")\""@
}

/// `p + mid + q` holds `w` at `p.len() - k` when `p` ends with the first `k`
/// characters of `w` and the rest of `w` is `mid` followed by a prefix of `q`.
proof fn lemma_occurs_across(p: Seq<char>, mid: Seq<char>, q: Seq<char>, r: Seq<char>, w: Seq<char>, k: int, m: int)
    requires
        0 <= k <= p.len(),
        0 <= m <= q.len(),
        w =~= p.subrange(p.len() - k, p.len() as int) + mid + q.subrange(0, m),
    ensures
        occurs_at(p + mid + q + r, w, p.len() - k),
{
    let s = p + mid + q + r;
    let i = p.len() - k;
    assert(s.subrange(i, i + w.len()) =~= w);
}

/// Both SPARQL queries, for nearby items and for the Wikipedia articles about
/// them, search around the point given: their center is `Point(longitude
/// latitude)` with the point's own printed longitude and latitude. The
/// geosearch asks around `latitude|longitude`, within the radius, for at most
/// the limit.
pub proof fn law_queries_center_on_the_point(
    c: Coordinates,
    radius_meters: u32,
    languages: Seq<Seq<char>>,
    limit: u32,
)
    ensures
        exists|i: int| occurs_at(items_query(c, radius_meters, languages, limit), wkt_center(c), i),
        exists|i: int| occurs_at(sitelinks_query(c, radius_meters, limit), wkt_center(c), i),
        geosearch_query_params(c, radius_meters, limit).contains(
            ("gscoord"@, decimal_text(c.latitude) + "|"@ + decimal_text(c.longitude)),
        ),
        geosearch_query_params(c, radius_meters, limit).contains(
            ("gsradius"@, number_text(radius_meters as nat)),
        ),
        geosearch_query_params(c, radius_meters, limit).contains(("gslimit"@, number_text(limit as nat))),
{
    assert(geosearch_query_params(c, radius_meters, limit)[3] == (
        "gscoord"@,
        decimal_text(c.latitude) + "|"@ + decimal_text(c.longitude),
    ));
    assert(geosearch_query_params(c, radius_meters, limit)[4] == (
        "gsradius"@,
        number_text(radius_meters as nat),
    ));
    assert(geosearch_query_params(c, radius_meters, limit)[5] == ("gslimit"@, number_text(limit as nat)));
    let lon = decimal_text(c.longitude);
    let lat = decimal_text(c.latitude);
    let marker = "wikibase:center \"Point("@;
    let close = ")\""@;
    reveal_strlit("wikibase:center \"Point(");
    reveal_strlit(")\"");
    let p1 = "SELECT ?item ?itemLabel ?location ?distance WHERE {\n\tSERVICE wikibase:around {\n\t\t?item wdt:P625 ?location .\n\t\tbd:serviceParam wikibase:center \"Point("@;
    let q1 = ")\"^^geo:wktLiteral .\n\t\tbd:serviceParam wikibase:radius \""@;
    reveal_strlit("SELECT ?item ?itemLabel ?location ?distance WHERE {\n\tSERVICE wikibase:around {\n\t\t?item wdt:P625 ?location .\n\t\tbd:serviceParam wikibase:center \"Point(");
    reveal_strlit(")\"^^geo:wktLiteral .\n\t\tbd:serviceParam wikibase:radius \"");
    let q = items_query(c, radius_meters, languages, limit);
    let r1 = q.subrange((p1 + (lon + " "@ + lat) + q1).len() as int, q.len() as int);
    assert(q =~= p1 + (lon + " "@ + lat) + q1 + r1);
    assert(p1.subrange(p1.len() - 23, p1.len() as int) =~= marker);
    assert(q1.subrange(0, 2) =~= close);
    lemma_occurs_across(p1, lon + " "@ + lat, q1, r1, wkt_center(c), 23, 2);

    let p2 = "SELECT ?item ?article ?location ?distance WHERE {\n\t{\n\t\tSELECT ?item ?location ?distance WHERE {\n\t\t\tSERVICE wikibase:around {\n\t\t\t\t?item wdt:P625 ?location .\n\t\t\t\tbd:serviceParam wikibase:center \"Point("@;
    let q2 = ")\"^^geo:wktLiteral .\n\t\t\t\tbd:serviceParam wikibase:radius \""@;
    reveal_strlit("SELECT ?item ?article ?location ?distance WHERE {\n\t{\n\t\tSELECT ?item ?location ?distance WHERE {\n\t\t\tSERVICE wikibase:around {\n\t\t\t\t?item wdt:P625 ?location .\n\t\t\t\tbd:serviceParam wikibase:center \"Point(");
    reveal_strlit(")\"^^geo:wktLiteral .\n\t\t\t\tbd:serviceParam wikibase:radius \"");
    let t = sitelinks_query(c, radius_meters, limit);
    let r2 = t.subrange((p2 + (lon + " "@ + lat) + q2).len() as int, t.len() as int);
    assert(t =~= p2 + (lon + " "@ + lat) + q2 + r2);
    assert(p2.subrange(p2.len() - 23, p2.len() as int) =~= marker);
    assert(q2.subrange(0, 2) =~= close);
    lemma_occurs_across(p2, lon + " "@ + lat, q2, r2, wkt_center(c), 23, 2);
}

/// Whether a sitelink row names an item and a Wikipedia article: its item URL
/// ends in a QID, and its article URL names a language edition and a title.
pub open spec fn names_article(row: SitelinkBinding) -> bool {
    &&& wikidata_id(row.item@) is Some
    &&& row.article is Some
    &&& wikipedia_language(row.article->0@) is Some
    &&& wikipedia_title(row.article->0@) is Some
}

/// The candidates picked from the sitelink rows, before their articles are taken.
pub open spec fn picked_candidates(rows: Seq<SitelinkBinding>, limit: u32, preferred: Seq<Seq<char>>) -> Seq<
    CandidateView,
> {
    truncated(
        first_per_item(payloads(sorted_by_key(candidates_of(rows, preferred)))),
        if limit == 0 {
            1
        } else {
            limit as nat
        },
    )
}

/// Every item that a row names an article for has a candidate among those of the rows.
proof fn lemma_candidates_cover(rows: Seq<SitelinkBinding>, preferred: Seq<Seq<char>>)
    ensures
        forall|i: int|
            0 <= i < rows.len() && names_article(#[trigger] rows[i]) ==> exists|k: int|
                0 <= k < candidates_of(rows, preferred).len() && (#[trigger] candidates_of(
                    rows,
                    preferred,
                )[k]).1.item_id == wikidata_id(rows[i].item@)->0,
    decreases rows.len(),
{
    if rows.len() > 0 {
        let d = rows.drop_last();
        lemma_candidates_cover(d, preferred);
        let cs = candidates_of(rows, preferred);
        let ds = candidates_of(d, preferred);
        assert forall|i: int| 0 <= i < rows.len() && names_article(#[trigger] rows[i]) implies exists|k: int|
            0 <= k < cs.len() && (#[trigger] cs[k]).1.item_id == wikidata_id(rows[i].item@)->0 by {
            if i < d.len() {
                assert(rows[i] == d[i]);
                let k = choose|k: int| 0 <= k < ds.len() && (#[trigger] ds[k]).1.item_id == wikidata_id(d[i].item@)->0;
                assert(cs[k] == ds[k]);
            } else {
                assert(cs[ds.len() as int] == candidate_of(rows.last(), preferred)->0);
            }
        }
    }
}

/// Every sitelink row that names an item and an article gives a candidate for
/// that article, whatever its language: the preferred languages only order the
/// candidates. Each such item has an article picked unless the limit is reached
/// first, so at least one article is picked whenever a row names one, and a
/// single such row always gives its article.
pub proof fn law_sitelinks_keep_every_language(
    rows: Seq<SitelinkBinding>,
    limit: u32,
    preferred: Seq<Seq<char>>,
)
    ensures
        forall|row: SitelinkBinding|
            #![trigger candidate_of(row, preferred)]
            names_article(row) ==> (candidate_of(row, preferred) matches Some(k) && k.1.item_id
                == wikidata_id(row.item@)->0 && k.1.article.url == row.article->0@
                && k.1.article.language == wikipedia_language(row.article->0@)->0
                && k.1.article.title == wikipedia_title(row.article->0@)->0
                && k.1.article.distance_meters == opt_distance(row.distance_meters)
                && k.1.article.direction == opt_string(row.direction)),
        forall|i: int|
            0 <= i < rows.len() && names_article(#[trigger] rows[i]) ==> picked_candidates(
                rows,
                limit,
                preferred,
            ).len() == (if limit == 0 {
                1
            } else {
                limit as nat
            }) || has_item(picked_candidates(rows, limit, preferred), wikidata_id(rows[i].item@)->0),
        (exists|i: int| 0 <= i < rows.len() && names_article(#[trigger] rows[i]))
            ==> nearest_sitelinks(rows, limit, preferred).len() >= 1,
        forall|row: SitelinkBinding|
            #![trigger nearest_sitelinks(seq![row], limit, preferred)]
            names_article(row) ==> nearest_sitelinks(seq![row], limit, preferred).len() == 1
                && nearest_sitelinks(seq![row], limit, preferred)[0].url == row.article->0@,
{
    broadcast use vstd::seq_lib::group_to_multiset_ensures;

    let cap: nat = if limit == 0 { 1 } else { limit as nat };
    let cs = candidates_of(rows, preferred);
    let sorted = payloads(sorted_by_key(cs));
    let first = first_per_item(sorted);
    let picked = picked_candidates(rows, limit, preferred);
    lemma_candidates_cover(rows, preferred);
    crate::order::lemma_sorted_is_permutation(cs);
    crate::order::lemma_sorted_len(cs);
    law_one_candidate_per_item(sorted);
    assert forall|i: int| 0 <= i < rows.len() && names_article(#[trigger] rows[i]) implies picked.len() == cap
        || has_item(picked, wikidata_id(rows[i].item@)->0) by {
        let id = wikidata_id(rows[i].item@)->0;
        let k = choose|k: int| 0 <= k < cs.len() && (#[trigger] cs[k]).1.item_id == id;
        assert(cs.contains(cs[k]));
        assert(cs.to_multiset().count(cs[k]) > 0);
        assert(sorted_by_key(cs).contains(cs[k]));
        let j = choose|j: int| 0 <= j < sorted_by_key(cs).len() && sorted_by_key(cs)[j] == cs[k];
        assert(sorted[j].item_id == id);
        assert(has_item(first, sorted[j].item_id));
        if cap >= first.len() {
            assert(picked == first);
        } else {
            assert(picked.len() == cap);
        }
    }
    if exists|i: int| 0 <= i < rows.len() && names_article(#[trigger] rows[i]) {
        let i = choose|i: int| 0 <= i < rows.len() && names_article(#[trigger] rows[i]);
        assert(picked.len() == cap || has_item(picked, wikidata_id(rows[i].item@)->0));
        assert(nearest_sitelinks(rows, limit, preferred) == candidate_articles(picked));
    }
    assert forall|row: SitelinkBinding| names_article(row) implies nearest_sitelinks(
        seq![row],
        limit,
        preferred,
    ).len() == 1 && nearest_sitelinks(seq![row], limit, preferred)[0].url == row.article->0@ by {
        let one = seq![row];
        let cand = candidate_of(row, preferred)->0;
        assert(one.drop_last() =~= Seq::<SitelinkBinding>::empty());
        assert(one.last() == row);
        assert(candidate_of(row, preferred) is Some);
        assert(candidates_of(one.drop_last(), preferred) =~= Seq::<(SortKey, CandidateView)>::empty());
        assert(candidates_of(one, preferred) =~= seq![cand]);
        let single = seq![cand];
        let none = Seq::<(SortKey, CandidateView)>::empty();
        assert(single.drop_last() =~= none);
        assert(single.last() == cand);
        assert(sorted_by_key(none) == none);
        assert(crate::order::insert_index(none, cand.0) == 0);
        assert(none.insert(0, cand) =~= single);
        assert(sorted_by_key(single) =~= single);
        let p = payloads(single);
        assert(p =~= seq![cand.1]);
        assert(p.drop_last() =~= Seq::<CandidateView>::empty());
        let nothing = Seq::<CandidateView>::empty();
        assert(p.last() == cand.1);
        assert(first_per_item(p.drop_last()) == first_per_item(nothing));
        assert(first_per_item(nothing) == nothing);
        assert(!has_item(nothing, cand.1.item_id));
        assert(nothing.push(cand.1) =~= seq![cand.1]);
        assert(first_per_item(p) =~= seq![cand.1]);
    }
}

} // verus!
