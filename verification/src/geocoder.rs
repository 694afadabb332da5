//! Reverse geocoding with a Nominatim-compatible API: the query the bot sends
//! and the place label it makes of the answer.

use vstd::prelude::*;
use crate::geo::{decimal, decimal_text, Coordinates};
use crate::text::{blank, has_prefix, is_blank, opt_str, str_eq};

verus! {

/// The address part of a Nominatim reverse-geocoding answer.
#[derive(Clone, Debug, PartialEq)]
pub struct NominatimAddress {
    pub city: Option<String>,
    pub town: Option<String>,
    pub village: Option<String>,
    pub hamlet: Option<String>,
    pub municipality: Option<String>,
    pub county: Option<String>,
    pub state: Option<String>,
    pub country: Option<String>,
}

/// A Nominatim reverse-geocoding answer.
#[derive(Clone, Debug, PartialEq)]
pub struct NominatimReverseResponse {
    pub address: Option<NominatimAddress>,
}

impl Default for NominatimAddress {
    fn default() -> (r: Self)
        ensures
            r.city is None && r.town is None && r.village is None && r.hamlet is None
                && r.municipality is None && r.county is None && r.state is None
                && r.country is None,
    {
        NominatimAddress {
            city: None,
            town: None,
            village: None,
            hamlet: None,
            municipality: None,
            county: None,
            state: None,
            country: None,
        }
    }
}

/// A field that names a place: set and not blank.
pub open spec fn names_place(field: Option<String>) -> bool {
    field matches Some(v) && !is_blank(v@)
}

/// The first field that names a place, from the smallest kind of place to the
/// largest: city, town, village, hamlet, municipality, county, state.
pub open spec fn address_place(a: NominatimAddress) -> Option<Seq<char>> {
    if names_place(a.city) {
        Some(a.city->0@)
    } else if names_place(a.town) {
        Some(a.town->0@)
    } else if names_place(a.village) {
        Some(a.village->0@)
    } else if names_place(a.hamlet) {
        Some(a.hamlet->0@)
    } else if names_place(a.municipality) {
        Some(a.municipality->0@)
    } else if names_place(a.county) {
        Some(a.county->0@)
    } else if names_place(a.state) {
        Some(a.state->0@)
    } else {
        None
    }
}

/// The place label of an address: the place, followed by `, ` and the country
/// when the country is named and differs from the place; none without a place.
pub open spec fn address_label(a: NominatimAddress) -> Option<Seq<char>> {
    match address_place(a) {
        None => None,
        Some(place) => Some(
            match a.country {
                Some(country) if !is_blank(country@) && country@ != place => place + ", "@
                    + country@,
                _ => place,
            },
        ),
    }
}

/// Tests whether a field names a place.
fn named(field: &Option<String>) -> (r: bool)
    ensures
        r == names_place(*field),
{
    match field {
        Some(v) => !blank(v.as_str()),
        None => false,
    }
}

impl NominatimAddress {
    /// Returns the place label of the address.
    pub fn city_label(&self) -> (r: Option<String>)
        ensures
            crate::text::opt_string(r) == address_label(*self),
    {
        let place: &String = if named(&self.city) {
            self.city.as_ref().unwrap()
        } else if named(&self.town) {
            self.town.as_ref().unwrap()
        } else if named(&self.village) {
            self.village.as_ref().unwrap()
        } else if named(&self.hamlet) {
            self.hamlet.as_ref().unwrap()
        } else if named(&self.municipality) {
            self.municipality.as_ref().unwrap()
        } else if named(&self.county) {
            self.county.as_ref().unwrap()
        } else if named(&self.state) {
            self.state.as_ref().unwrap()
        } else {
            return None;
        };
        assert(address_place(*self) == Some(place@));
        match &self.country {
            Some(country) => {
                if !blank(country.as_str()) && !str_eq(country.as_str(), place.as_str()) {
                    let mut label = place.clone();
                    label.append(", ");
                    label.append(country.as_str());
                    Some(label)
                } else {
                    Some(place.clone())
                }
            },
            None => Some(place.clone()),
        }
    }
}

/// The place label of an answer: that of its address, when it has one.
pub open spec fn response_label(r: NominatimReverseResponse) -> Option<Seq<char>> {
    match r.address {
        Some(a) => address_label(a),
        None => None,
    }
}

impl NominatimReverseResponse {
    /// Returns a human-readable place label.
    pub fn city_label(&self) -> (r: Option<String>)
        ensures
            crate::text::opt_string(r) == response_label(*self),
    {
        match &self.address {
            Some(address) => address.city_label(),
            None => None,
        }
    }
}

/// The query parameters of a reverse-geocoding request, names and values.
pub open spec fn reverse_query_params(c: Coordinates, email: Option<Seq<char>>) -> Seq<
    (Seq<char>, Seq<char>),
> {
    seq![
        ("format"@, "jsonv2"@),
        ("addressdetails"@, "1"@),
        ("zoom"@, "10"@),
        ("layer"@, "address"@),
        ("lat"@, decimal_text(c.latitude)),
        ("lon"@, decimal_text(c.longitude)),
    ] + match email {
        Some(e) => seq![("email"@, e)],
        None => Seq::empty(),
    }
}

/// The character views of name/value pairs.
pub open spec fn pair_views(v: Seq<(String, String)>) -> Seq<(Seq<char>, Seq<char>)> {
    v.map_values(|p: (String, String)| (p.0@, p.1@))
}

/// Appends one name/value pair.
pub(crate) fn push_pair(params: &mut Vec<(String, String)>, name: &str, value: String)
    ensures
        pair_views(final(params)@) == pair_views(old(params)@).push((name@, value@)),
{
    params.push((String::from_str(name), value));
    assert(pair_views(params@) =~= pair_views(old(params)@).push((name@, value@)));
}

/// Builds the query of a reverse-geocoding request: JSON v2 with address details
/// at city zoom, the printed coordinates, and the operator's email when set.
pub fn reverse_query(coordinates: &Coordinates, email: Option<&str>) -> (r: Vec<(String, String)>)
    ensures
        pair_views(r@) == reverse_query_params(*coordinates, opt_str(email)),
{
    let mut params: Vec<(String, String)> = Vec::new();
    push_pair(&mut params, "format", String::from_str("jsonv2"));
    push_pair(&mut params, "addressdetails", String::from_str("1"));
    push_pair(&mut params, "zoom", String::from_str("10"));
    push_pair(&mut params, "layer", String::from_str("address"));
    push_pair(&mut params, "lat", decimal(coordinates.latitude.fixed.as_str()));
    push_pair(&mut params, "lon", decimal(coordinates.longitude.fixed.as_str()));
    if let Some(email) = email {
        push_pair(&mut params, "email", String::from_str(email));
    }
    assert(pair_views(params@) =~= reverse_query_params(*coordinates, opt_str(email)));
    params
}

/// Whether `label` is `place`, followed by `, ` and the country when the country
/// is set, not blank and not the place itself.
pub open spec fn labels_place(label: Option<Seq<char>>, place: Seq<char>, country: Option<String>) -> bool {
    match country {
        Some(k) if !is_blank(k@) && k@ != place => label == Some(place + ", "@ + k@),
        _ => label == Some(place),
    }
}

/// The place label names the smallest kind of place the address names: the
/// city when it is set and not blank; otherwise the town; then the village, the
/// hamlet, the municipality, the county and the state, each used only when every
/// smaller one is missing or blank. There is no label when none is named.
pub proof fn law_place_label_smallest_first(a: NominatimAddress)
    ensures
        names_place(a.city) ==> labels_place(address_label(a), a.city->0@, a.country),
        !names_place(a.city) && names_place(a.town) ==> labels_place(
            address_label(a),
            a.town->0@,
            a.country,
        ),
        !names_place(a.city) && !names_place(a.town) && names_place(a.village) ==> labels_place(
            address_label(a),
            a.village->0@,
            a.country,
        ),
        !names_place(a.city) && !names_place(a.town) && !names_place(a.village) && names_place(
            a.hamlet,
        ) ==> labels_place(address_label(a), a.hamlet->0@, a.country),
        !names_place(a.city) && !names_place(a.town) && !names_place(a.village) && !names_place(
            a.hamlet,
        ) && names_place(a.municipality) ==> labels_place(
            address_label(a),
            a.municipality->0@,
            a.country,
        ),
        !names_place(a.city) && !names_place(a.town) && !names_place(a.village) && !names_place(
            a.hamlet,
        ) && !names_place(a.municipality) && names_place(a.county) ==> labels_place(
            address_label(a),
            a.county->0@,
            a.country,
        ),
        !names_place(a.city) && !names_place(a.town) && !names_place(a.village) && !names_place(
            a.hamlet,
        ) && !names_place(a.municipality) && !names_place(a.county) && names_place(a.state)
            ==> labels_place(address_label(a), a.state->0@, a.country),
        !names_place(a.city) && !names_place(a.town) && !names_place(a.village) && !names_place(
            a.hamlet,
        ) && !names_place(a.municipality) && !names_place(a.county) && !names_place(a.state)
            ==> address_label(a) is None,
        address_label(a) matches Some(label) ==> names_place(a.city) ==> has_prefix(label, a.city->0@),
{
    if names_place(a.city) {
        let c = a.city->0@;
        assert(address_label(a) matches Some(label) && label.subrange(0, c.len() as int) =~= c);
    }
}

} // verus!
