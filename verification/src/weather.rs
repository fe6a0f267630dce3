//! The weather: where it is asked for, and what is told of it.
use vstd::prelude::*;
use crate::config::WeatherConfig;
use crate::json;
use crate::json::{Json, JsonTree};
use crate::music::{error_json, error_tree};
use crate::speech::opt_str;
use crate::text;
use crate::urls;
use crate::urls::UrlParts;

verus! {

/// Whether a text is a place as the service names them: coordinates, or a number.
pub open spec fn is_service_location(location: Seq<char>) -> bool {
    location.contains(',') || forall|i: int|
        0 <= i < location.len() ==> text::is_digit(#[trigger] location[i])
}

/// Whether a text is a place as the service names them.
pub fn looks_like_qweather_location(location: &str) -> (r: bool)
    ensures
        r == is_service_location(location@),
{
    if text::contains_char(location, ',') {
        return true;
    }
    let chars: Vec<char> = text::chars_of(location);
    let mut i: usize = 0;
    while i < chars.len()
        invariant
            i <= chars@.len(),
            chars@ == location@,
            !location@.contains(','),
            forall|j: int| 0 <= j < i ==> text::is_digit(#[trigger] location@[j]),
        decreases chars@.len() - i,
    {
        if !text::digit(chars[i]) {
            assert(!text::is_digit(location@[i as int]));
            return false;
        }
        i = i + 1;
    }
    true
}

/// How many characters a preview shows.
pub const PREVIEW_CHARS: usize = 240;

/// The start of a text, marked where more follows.
pub open spec fn previewed(s: Seq<char>) -> Seq<char> {
    if s.len() > PREVIEW_CHARS {
        s.take(PREVIEW_CHARS as int) + "..."@
    } else {
        s
    }
}

/// The start of a text, marked where more follows.
pub fn preview(s: &str) -> (r: String)
    ensures
        r@ == previewed(s@),
{
    let chars: Vec<char> = text::chars_of(s);
    if chars.len() > PREVIEW_CHARS {
        let mut out: String = text::string_between(chars.as_slice(), 0, PREVIEW_CHARS);
        assert(s@.subrange(0, PREVIEW_CHARS as int) =~= s@.take(PREVIEW_CHARS as int));
        out.append("...");
        out
    } else {
        text::string_of(chars.as_slice())
    }
}

// --------------------------------------------------------------- where to ask

/// How the place is found.
#[derive(Debug)]
pub enum LocationPlan {
    /// By the address that the speaker has on the net.
    ByAddress,
    /// It is given.
    Given(String),
    /// By looking up a city.
    LookUp(String),
}

/// How the place is found for a request, or why there is no weather.
pub fn location_plan(config: &WeatherConfig, requested: &str) -> (r: Result<LocationPlan, String>)
    ensures
        ({
            let place = text::trimmed(requested@);
            if text::is_blank(config.qweather_url@) {
                r matches Err(e) && e@ == "agent.weather.qweather_url is empty"@
            } else if place.len() == 0 {
                r matches Ok(LocationPlan::ByAddress)
            } else if is_service_location(place) {
                r matches Ok(LocationPlan::Given(x)) && x@ == place
            } else {
                r matches Ok(LocationPlan::LookUp(x)) && x@ == place
            }
        }),
{
    if text::blank(config.qweather_url.as_str()) {
        return Err("agent.weather.qweather_url is empty".to_owned());
    }
    let place: String = text::trim(requested);
    if place.as_str().is_empty() {
        Ok(LocationPlan::ByAddress)
    } else if looks_like_qweather_location(place.as_str()) {
        Ok(LocationPlan::Given(place))
    } else {
        Ok(LocationPlan::LookUp(place))
    }
}

/// A place: what the service calls it, and what it is called in the answer.
#[derive(Debug)]
pub struct Place {
    pub location: String,
    pub label: String,
}

/// The place that is given.
pub fn given_place(location: &str) -> (r: Place)
    ensures
        r@ == (PlaceModel { location: location@, label: location@ }),
{
    Place { location: location.to_owned(), label: location.to_owned() }
}

/// The place by default, when the address said nothing.
pub fn default_place(config: &WeatherConfig, message: &str) -> (r: Place)
    ensures
        r@ == default_place_of(*config, message@),
{
    let mut label: String = "default location ".to_owned();
    label.append(config.default_location.as_str());
    label.append(" (");
    label.append(message);
    label.append(")");
    Place { location: config.default_location.clone(), label }
}

/// The place as it was asked for, when it could not be looked up.
pub fn unknown_place(requested: &str, message: &str) -> (r: Place)
    ensures
        r@ == unknown_place_of(requested@, message@),
{
    let mut label: String = requested.to_owned();
    label.append(" (");
    label.append(message);
    label.append(")");
    Place { location: requested.to_owned(), label }
}

/// The texts that are there, with spaces between them.
pub open spec fn spaced(items: Seq<Option<Seq<char>>>) -> Seq<char>
    decreases items.len(),
{
    if items.len() == 0 {
        Seq::empty()
    } else {
        let before = spaced(items.drop_last());
        match items.last() {
            None => before,
            Some(s) => if any_given(items.drop_last()) {
                before + " "@ + s
            } else {
                s
            },
        }
    }
}

/// Whether any of some texts is there.
pub open spec fn any_given(items: Seq<Option<Seq<char>>>) -> bool {
    exists|i: int| 0 <= i < items.len() && (#[trigger] items[i]) is Some
}

fn join_spaced(items: &Vec<Option<String>>) -> (r: String)
    ensures
        r@ == spaced(items@.map_values(|s: Option<String>| crate::speech::opt_text(s))),
{
    let ghost all = items@.map_values(|s: Option<String>| crate::speech::opt_text(s));
    let mut out = String::new();
    let mut any: bool = false;
    let mut i: usize = 0;
    assert(all.take(0) =~= Seq::empty());
    while i < items.len()
        invariant
            i <= items@.len(),
            all == items@.map_values(|s: Option<String>| crate::speech::opt_text(s)),
            any == any_given(all.take(i as int)),
            out@ == spaced(all.take(i as int)),
        decreases items@.len() - i,
    {
        let ghost before = all.take(i as int);
        let ghost after = all.take(i + 1);
        assert(after.drop_last() =~= before);
        assert(after.last() == all[i as int]);
        if let Some(s) = &items[i] {
            if any {
                out.append(" ");
                out.append(s.as_str());
            } else {
                out = s.clone();
            }
            any = true;
            assert(after[i as int] is Some);
        } else {
            proof {
                if any_given(after) {
                    let k = choose|k: int| 0 <= k < after.len() && (#[trigger] after[k]) is Some;
                    assert(before[k] is Some);
                }
                if any_given(before) {
                    let k = choose|k: int| 0 <= k < before.len() && (#[trigger] before[k]) is Some;
                    assert(after[k] is Some);
                }
            }
        }
        i = i + 1;
    }
    assert(all.take(i as int) =~= all);
    out
}

/// The number of an optional value with four places behind the point, where it is
/// one.
pub open spec fn coordinate_of(value: Option<JsonTree>) -> Option<Seq<char>> {
    match value {
        Some(JsonTree::Number(n)) => json::four_decimals(n),
        _ => None,
    }
}

fn coordinate(value: Option<&Json>) -> (r: Option<String>)
    ensures
        match coordinate_of(json::opt_tree(value)) {
            Some(s) => r matches Some(x) && x@ == s,
            None => r is None,
        },
{
    match value {
        Some(Json::Number(n)) => json::four_places(n),
        _ => None,
    }
}

/// The names of the place in an answer to where an address is.
pub open spec fn address_label(data: JsonTree) -> Seq<char> {
    spaced(
        seq![
            json::text_of(json::member(data, "city"@)),
            json::text_of(
                json::either(json::member(data, "region"@), json::member(data, "regionName"@)),
            ),
            json::text_of(
                json::either(json::member(data, "country_name"@), json::member(data, "country"@)),
            ),
        ],
    )
}

/// Reads the place in an answer to where an address is: its coordinates, the
/// longitude first.
pub fn place_by_address(data: &Json) -> (r: Result<Place, String>)
    ensures
        match address_place(json::tree(*data)) {
            Ok(place) => r matches Ok(x) && x@ == place,
            Err(e) => r matches Err(x) && x@ == e,
        },
{
    let lat: Option<String> = coordinate(json::get_either(data, "latitude", "lat"));
    let lon: Option<String> = coordinate(json::get_either(data, "longitude", "lon"));
    match (lat, lon) {
        (Some(lat), Some(lon)) => {
            let mut names: Vec<Option<String>> = Vec::new();
            names.push(json::str_of(data.get("city")));
            names.push(json::str_of(json::get_either(data, "region", "regionName")));
            names.push(json::str_of(json::get_either(data, "country_name", "country")));
            let label: String = join_spaced(&names);
            proof {
                let given = names@.map_values(|s: Option<String>| crate::speech::opt_text(s));
                let d = json::tree(*data);
                assert(given =~= seq![
                    json::text_of(json::member(d, "city"@)),
                    json::text_of(
                        json::either(json::member(d, "region"@), json::member(d, "regionName"@)),
                    ),
                    json::text_of(
                        json::either(
                            json::member(d, "country_name"@),
                            json::member(d, "country"@),
                        ),
                    ),
                ]);
            }
            let mut location: String = lon;
            location.append(",");
            location.append(lat.as_str());
            Ok(Place { location, label })
        },
        _ => Err("IP location response does not contain latitude/longitude".to_owned()),
    }
}

/// What the service calls a city that it found: its identifier, else its
/// coordinates.
pub open spec fn city_location(item: JsonTree) -> Option<Seq<char>> {
    match json::text_of(json::member(item, "id"@)) {
        Some(id) => Some(id),
        None => match (
            json::text_of(json::member(item, "lon"@)),
            json::text_of(json::member(item, "lat"@)),
        ) {
            (Some(lon), Some(lat)) => Some(lon + ","@ + lat),
            _ => None,
        },
    }
}

/// The names of a city that was found.
pub open spec fn city_label(item: JsonTree) -> Seq<char> {
    spaced(
        seq![
            json::text_of(json::member(item, "name"@)),
            json::text_of(json::member(item, "adm2"@)),
            json::text_of(json::member(item, "adm1"@)),
            json::text_of(json::member(item, "country"@)),
        ],
    )
}

/// Reads the city that was found.
pub fn place_by_lookup(data: &Json) -> (r: Result<Place, String>)
    ensures
        match lookup_place(json::tree(*data)) {
            Ok(place) => r matches Ok(x) && x@ == place,
            Err(e) => r matches Err(x) && x@ == e,
        },
{
    let items: &Vec<Json> = match json::array_of(data.get("location")) {
        Some(items) => items,
        None => {
            return Err("QWeather city lookup returned no candidates".to_owned());
        },
    };
    if items.len() == 0 {
        return Err("QWeather city lookup returned no candidates".to_owned());
    }
    let item: &Json = &items[0];
    assert(json::list_tree(items@)[0] == json::tree(*item));
    let location: String = match json::str_of(item.get("id")) {
        Some(id) => id,
        None => match (json::str_of(item.get("lon")), json::str_of(item.get("lat"))) {
            (Some(lon), Some(lat)) => {
                let mut out: String = lon;
                out.append(",");
                out.append(lat.as_str());
                out
            },
            _ => {
                return Err(
                    "QWeather city lookup candidate has no id or coordinates".to_owned(),
                );
            },
        },
    };
    let mut names: Vec<Option<String>> = Vec::new();
    names.push(json::str_of(item.get("name")));
    names.push(json::str_of(item.get("adm2")));
    names.push(json::str_of(item.get("adm1")));
    names.push(json::str_of(item.get("country")));
    let label: String = join_spaced(&names);
    proof {
        let given = names@.map_values(|s: Option<String>| crate::speech::opt_text(s));
        let d = json::tree(*item);
        assert(given =~= seq![
            json::text_of(json::member(d, "name"@)),
            json::text_of(json::member(d, "adm2"@)),
            json::text_of(json::member(d, "adm1"@)),
            json::text_of(json::member(d, "country"@)),
        ]);
    }
    Ok(Place { location, label })
}

// ----------------------------------------------------------------------- URLs

/// Whether one of some pairs has the name.
pub open spec fn names_pair(pairs: Seq<(Seq<char>, Seq<char>)>, name: Seq<char>) -> bool {
    exists|i: int| 0 <= i < pairs.len() && (#[trigger] pairs[i]).0 == name
}

/// The pairs with those that are replaced taken out, and the replacements behind
/// them.
pub open spec fn replaced_pairs(
    pairs: Seq<(Seq<char>, Seq<char>)>,
    replacements: Seq<(Seq<char>, Seq<char>)>,
) -> Seq<(Seq<char>, Seq<char>)> {
    pairs.filter(|p: (Seq<char>, Seq<char>)| !names_pair(replacements, p.0)) + replacements
}

fn has_name(pairs: &Vec<(String, String)>, name: &str) -> (r: bool)
    ensures
        r == names_pair(urls::pairs_of(pairs@), name@),
{
    let ghost all = urls::pairs_of(pairs@);
    let mut i: usize = 0;
    while i < pairs.len()
        invariant
            i <= pairs@.len(),
            all == urls::pairs_of(pairs@),
            forall|j: int| 0 <= j < i ==> (#[trigger] all[j]).0 != name@,
        decreases pairs@.len() - i,
    {
        assert(all[i as int].0 == pairs@[i as int].0@);
        if text::same_text(pairs[i].0.as_str(), name) {
            return true;
        }
        i = i + 1;
    }
    false
}

/// The pairs with some of them replaced.
pub fn replace_pairs(
    pairs: &Vec<(String, String)>,
    replacements: &Vec<(String, String)>,
) -> (r: Vec<(String, String)>)
    ensures
        urls::pairs_of(r@) == replaced_pairs(
            urls::pairs_of(pairs@),
            urls::pairs_of(replacements@),
        ),
{
    let ghost all = urls::pairs_of(pairs@);
    let ghost new = urls::pairs_of(replacements@);
    let ghost keep = |p: (Seq<char>, Seq<char>)| !names_pair(new, p.0);
    let mut out: Vec<(String, String)> = Vec::new();
    let mut i: usize = 0;
    proof {
        reveal(Seq::filter);
        assert(all.take(0) =~= Seq::empty());
        assert(urls::pairs_of(out@) =~= all.take(0).filter(keep));
    }
    while i < pairs.len()
        invariant
            i <= pairs@.len(),
            all == urls::pairs_of(pairs@),
            new == urls::pairs_of(replacements@),
            keep == (|p: (Seq<char>, Seq<char>)| !names_pair(new, p.0)),
            urls::pairs_of(out@) == all.take(i as int).filter(keep),
        decreases pairs@.len() - i,
    {
        let ghost before = out@;
        proof {
            reveal(Seq::filter);
            assert(all.take(i + 1).drop_last() =~= all.take(i as int));
            assert(all.take(i + 1).last() == all[i as int]);
        }
        if !has_name(replacements, pairs[i].0.as_str()) {
            out.push(urls::pair(pairs[i].0.as_str(), pairs[i].1.as_str()));
            assert(urls::pairs_of(out@) =~= urls::pairs_of(before).push(all[i as int]));
        }
        i = i + 1;
    }
    assert(all.take(i as int) =~= all);
    let ghost kept = urls::pairs_of(out@);
    let mut k: usize = 0;
    assert(kept + new.take(0) =~= kept);
    while k < replacements.len()
        invariant
            k <= replacements@.len(),
            new == urls::pairs_of(replacements@),
            urls::pairs_of(out@) == kept + new.take(k as int),
        decreases replacements@.len() - k,
    {
        let ghost before = out@;
        out.push(urls::pair(replacements[k].0.as_str(), replacements[k].1.as_str()));
        assert(urls::pairs_of(out@) =~= urls::pairs_of(before).push(new[k as int]));
        assert(kept + new.take(k + 1) =~= (kept + new.take(k as int)).push(new[k as int]));
        k = k + 1;
    }
    assert(new.take(k as int) =~= new);
    out
}

/// A URL with another path, where one is given, and with some pairs of its query
/// replaced.
pub open spec fn requeried(
    url: urls::UrlModel,
    path: Option<Seq<char>>,
    replacements: Seq<(Seq<char>, Seq<char>)>,
) -> Result<Seq<char>, Seq<char>> {
    urls::edited(url.href, path, true, replaced_pairs(url.pairs, replacements))
}

/// Whether there is room for that.
pub open spec fn requery_room(
    url: urls::UrlModel,
    path: Option<Seq<char>>,
    replacements: Seq<(Seq<char>, Seq<char>)>,
) -> bool {
    urls::edit_room(url.href, path, true, replaced_pairs(url.pairs, replacements))
}

/// A URL with another path, where one is given, and with some pairs of its query
/// replaced.
pub fn replace_query_pairs(
    url: &UrlParts,
    path: Option<&str>,
    replacements: &Vec<(String, String)>,
) -> (r: Result<String, String>)
    requires
        requery_room(url@, opt_str(path), urls::pairs_of(replacements@)),
    ensures
        match requeried(url@, opt_str(path), urls::pairs_of(replacements@)) {
            Ok(s) => r matches Ok(x) && x@ == s,
            Err(e) => r matches Err(x) && x@ == e,
        },
{
    let all: Vec<(String, String)> = replace_pairs(&url.pairs, replacements);
    urls::edit_url(url.href.as_str(), path, true, &all)
}

fn has_requery_room(
    url: &UrlParts,
    path: Option<&str>,
    replacements: &Vec<(String, String)>,
) -> (r: bool)
    ensures
        r == requery_room(url@, opt_str(path), urls::pairs_of(replacements@)),
{
    let all: Vec<(String, String)> = replace_pairs(&url.pairs, replacements);
    urls::has_edit_room(url.href.as_str(), path, true, &all)
}

/// What the forecast for a place is asked with.
pub open spec fn forecast_pairs(location: Seq<char>) -> Seq<(Seq<char>, Seq<char>)> {
    seq![("location"@, location)]
}

fn forecast_params(location: &str) -> (r: Vec<(String, String)>)
    ensures
        urls::pairs_of(r@) == forecast_pairs(location@),
{
    let mut out: Vec<(String, String)> = Vec::new();
    out.push(urls::pair("location", location));
    assert(urls::pairs_of(out@) =~= forecast_pairs(location@));
    out
}

/// The URL of the forecast for a place.
pub open spec fn forecast_url_of(base: Seq<char>, location: Seq<char>) -> Result<
    Seq<char>,
    Seq<char>,
> {
    match urls::spelled_url(base) {
        Err(e) => Err(e),
        Ok(url) => requeried(url, None, forecast_pairs(location)),
    }
}

/// Whether there is room for the URL of the forecast for a place.
pub open spec fn forecast_room(base: Seq<char>, location: Seq<char>) -> bool {
    urls::spelled_url(base) matches Ok(url) ==> requery_room(url, None, forecast_pairs(location))
}

/// The URL of the forecast for a place.
pub fn forecast_url(config: &WeatherConfig, location: &str) -> (r: Result<String, String>)
    requires
        forecast_room(config.qweather_url@, location@),
    ensures
        match forecast_url_of(config.qweather_url@, location@) {
            Ok(s) => r matches Ok(x) && x@ == s,
            Err(e) => r matches Err(x) && x@ == e,
        },
{
    match urls::parse_url(config.qweather_url.as_str()) {
        Err(e) => Err(e),
        Ok(url) => replace_query_pairs(&url, None, &forecast_params(location)),
    }
}

fn has_forecast_room(config: &WeatherConfig, location: &str) -> (r: bool)
    ensures
        r == forecast_room(config.qweather_url@, location@),
{
    match urls::parse_url(config.qweather_url.as_str()) {
        Err(_) => true,
        Ok(url) => has_requery_room(&url, None, &forecast_params(location)),
    }
}

/// What a city is looked up with.
pub open spec fn lookup_pairs(location: Seq<char>) -> Seq<(Seq<char>, Seq<char>)> {
    seq![("location"@, location), ("number"@, "1"@)]
}

fn lookup_params(location: &str) -> (r: Vec<(String, String)>)
    ensures
        urls::pairs_of(r@) == lookup_pairs(location@),
{
    let mut out: Vec<(String, String)> = Vec::new();
    out.push(urls::pair("location", location));
    out.push(urls::pair("number", "1"));
    assert(urls::pairs_of(out@) =~= lookup_pairs(location@));
    out
}

/// The URL at which a city is looked up.
pub open spec fn lookup_url_of(base: Seq<char>, location: Seq<char>) -> Result<
    Seq<char>,
    Seq<char>,
> {
    match urls::spelled_url(base) {
        Err(e) => Err(e),
        Ok(url) => requeried(url, Some("/geo/v2/city/lookup"@), lookup_pairs(location)),
    }
}

/// Whether there is room for the URL at which a city is looked up.
pub open spec fn lookup_room(base: Seq<char>, location: Seq<char>) -> bool {
    urls::spelled_url(base) matches Ok(url) ==> requery_room(
        url,
        Some("/geo/v2/city/lookup"@),
        lookup_pairs(location),
    )
}

/// The URL at which a city is looked up.
pub fn lookup_url(config: &WeatherConfig, location: &str) -> (r: Result<String, String>)
    requires
        lookup_room(config.qweather_url@, location@),
    ensures
        match lookup_url_of(config.qweather_url@, location@) {
            Ok(s) => r matches Ok(x) && x@ == s,
            Err(e) => r matches Err(x) && x@ == e,
        },
{
    match urls::parse_url(config.qweather_url.as_str()) {
        Err(e) => Err(e),
        Ok(url) => replace_query_pairs(
            &url,
            Some("/geo/v2/city/lookup"),
            &lookup_params(location),
        ),
    }
}

fn has_lookup_room(config: &WeatherConfig, location: &str) -> (r: bool)
    ensures
        r == lookup_room(config.qweather_url@, location@),
{
    match urls::parse_url(config.qweather_url.as_str()) {
        Err(_) => true,
        Ok(url) => has_requery_room(
            &url,
            Some("/geo/v2/city/lookup"),
            &lookup_params(location),
        ),
    }
}

// -------------------------------------------------------------------- answers

/// What the service answered, or why it is no answer.
pub open spec fn service_answer(success: bool, status: Seq<char>, body: Seq<char>) -> Result<
    JsonTree,
    Seq<char>,
> {
    if !success {
        Err("QWeather HTTP "@ + status + ": "@ + previewed(body))
    } else {
        match json::spelled_json(body) {
            Ok(data) => Ok(data),
            Err(e) => Err("QWeather returned non-JSON body: "@ + previewed(body)),
        }
    }
}

/// Reads what the service answered.
pub fn read_answer(success: bool, status: &str, body: &str) -> (r: Result<Json, String>)
    ensures
        match service_answer(success, status@, body@) {
            Ok(data) => r matches Ok(x) && json::tree(x) == data,
            Err(e) => r matches Err(x) && x@ == e,
        },
{
    if !success {
        let mut out: String = "QWeather HTTP ".to_owned();
        out.append(status);
        out.append(": ");
        out.append(preview(body).as_str());
        return Err(out);
    }
    match json::parse_json(body) {
        Ok(data) => Ok(data),
        Err(_) => {
            let mut out: String = "QWeather returned non-JSON body: ".to_owned();
            out.append(preview(body).as_str());
            Err(out)
        },
    }
}

/// A member, null where it is not there.
pub open spec fn member_or_null(value: JsonTree, name: Seq<char>) -> JsonTree {
    match json::member(value, name) {
        Some(member) => member,
        None => JsonTree::Null,
    }
}

fn copy_member(value: &Json, name: &str) -> (r: Json)
    ensures
        json::tree(r) == member_or_null(json::tree(*value), name@),
{
    match value.get(name) {
        Some(member) => member.copy(),
        None => Json::Null,
    }
}

/// The forecast for a day.
pub open spec fn day_tree(item: JsonTree) -> JsonTree {
    JsonTree::Object(
        seq![
            ("date"@, member_or_null(item, "fxDate"@)),
            ("day"@, member_or_null(item, "textDay"@)),
            ("night"@, member_or_null(item, "textNight"@)),
            ("temp_min_c"@, member_or_null(item, "tempMin"@)),
            ("temp_max_c"@, member_or_null(item, "tempMax"@)),
            ("humidity"@, member_or_null(item, "humidity"@)),
            ("wind"@, member_or_null(item, "windDirDay"@)),
            ("wind_scale"@, member_or_null(item, "windScaleDay"@)),
        ],
    )
}

fn day_json(item: &Json) -> (r: Json)
    ensures
        json::tree(r) == day_tree(json::tree(*item)),
{
    let mut out: Vec<(String, Json)> = Vec::new();
    out.push(json::entry("date", copy_member(item, "fxDate")));
    out.push(json::entry("day", copy_member(item, "textDay")));
    out.push(json::entry("night", copy_member(item, "textNight")));
    out.push(json::entry("temp_min_c", copy_member(item, "tempMin")));
    out.push(json::entry("temp_max_c", copy_member(item, "tempMax")));
    out.push(json::entry("humidity", copy_member(item, "humidity")));
    out.push(json::entry("wind", copy_member(item, "windDirDay")));
    out.push(json::entry("wind_scale", copy_member(item, "windScaleDay")));
    assert(json::members_tree(out@) =~= day_tree(json::tree(*item))->Object_0);
    json::object(out)
}

/// The first three days, or fewer.
pub open spec fn first_days(daily: Seq<JsonTree>) -> Seq<JsonTree> {
    if daily.len() <= 3 {
        daily
    } else {
        daily.take(3)
    }
}

/// What is told of the weather at a place: the first days, or all of the answer
/// where it has no days.
pub open spec fn weather_tree(data: JsonTree, label: Seq<char>) -> JsonTree {
    match json::list_of(json::member(data, "daily"@)) {
        None => JsonTree::Object(seq![("location"@, JsonTree::Text(label)), ("raw"@, data)]),
        Some(daily) => JsonTree::Object(
            seq![
                ("location"@, JsonTree::Text(label)),
                ("qweather_code"@, member_or_null(data, "code"@)),
                ("updated_at"@, member_or_null(data, "updateTime"@)),
                (
                    "forecast"@,
                    JsonTree::List(
                        first_days(daily).map_values(|item: JsonTree| day_tree(item)),
                    ),
                ),
            ],
        ),
    }
}

/// What is told of the weather at a place.
pub fn summarize_daily_weather(data: &Json, label: &str) -> (r: Json)
    ensures
        json::tree(r) == weather_tree(json::tree(*data), label@),
{
    let ghost expected = weather_tree(json::tree(*data), label@);
    let mut out: Vec<(String, Json)> = Vec::new();
    out.push(json::entry("location", json::text_json(label)));
    match json::array_of(data.get("daily")) {
        None => {
            out.push(json::entry("raw", data.copy()));
        },
        Some(daily) => {
            let n: usize = if daily.len() < 3 {
                daily.len()
            } else {
                3
            };
            let mut days: Vec<Json> = Vec::new();
            let mut i: usize = 0;
            while i < n
                invariant
                    i <= n <= daily@.len(),
                    days@.len() == i,
                    forall|j: int|
                        0 <= j < i ==> json::tree(#[trigger] days@[j]) == day_tree(
                            json::tree(daily@[j]),
                        ),
                decreases n - i,
            {
                days.push(day_json(&daily[i]));
                i = i + 1;
            }
            proof {
                let shown = first_days(json::list_tree(daily@));
                assert(json::list_tree(days@) =~= shown.map_values(
                    |item: JsonTree| day_tree(item),
                ));
            }
            out.push(json::entry("qweather_code", copy_member(data, "code")));
            out.push(json::entry("updated_at", copy_member(data, "updateTime")));
            out.push(json::entry("forecast", json::list(days)));
        },
    }
    assert(json::members_tree(out@) =~= expected->Object_0);
    json::object(out)
}

// ------------------------------------------------------------------- requests

/// A place, as a mathematical value.
pub struct PlaceModel {
    pub location: Seq<char>,
    pub label: Seq<char>,
}

impl View for Place {
    type V = PlaceModel;

    open spec fn view(&self) -> PlaceModel {
        PlaceModel { location: self.location@, label: self.label@ }
    }
}

/// What a request for the weather waits for.
#[derive(Debug)]
pub enum WeatherPhase {
    /// Where the speaker's address is.
    ByAddress,
    /// A city that is looked up.
    LookingUp(String),
    /// The forecast for a place with this name.
    Forecasting(String),
    /// Nothing: the request is answered, or given up.
    Over,
}

/// What a request for the weather waits for, as a mathematical value.
pub enum WeatherWait {
    ByAddress,
    LookingUp(Seq<char>),
    Forecasting(Seq<char>),
    Over,
}

impl View for WeatherPhase {
    type V = WeatherWait;

    open spec fn view(&self) -> WeatherWait {
        match self {
            WeatherPhase::ByAddress => WeatherWait::ByAddress,
            WeatherPhase::LookingUp(city) => WeatherWait::LookingUp(city@),
            WeatherPhase::Forecasting(label) => WeatherWait::Forecasting(label@),
            WeatherPhase::Over => WeatherWait::Over,
        }
    }
}

/// Something to do for a request for the weather.
#[derive(Debug)]
pub enum WeatherTask {
    /// Ask where the speaker's address is: any status but success is an error, and
    /// the body is JSON.
    FetchAddress(String),
    /// Ask the weather service.
    Fetch(String),
    /// The request is answered.
    Answer(Json),
    /// There is no room for the URL to ask at: nothing is asked, and the request is
    /// not answered.
    GiveUp,
}

/// Something to do for a request for the weather, as a mathematical value.
pub enum WeatherDeed {
    FetchAddress(Seq<char>),
    Fetch(Seq<char>),
    Answer(JsonTree),
    GiveUp,
}

impl View for WeatherTask {
    type V = WeatherDeed;

    open spec fn view(&self) -> WeatherDeed {
        match self {
            WeatherTask::FetchAddress(url) => WeatherDeed::FetchAddress(url@),
            WeatherTask::Fetch(url) => WeatherDeed::Fetch(url@),
            WeatherTask::Answer(answer) => WeatherDeed::Answer(json::tree(*answer)),
            WeatherTask::GiveUp => WeatherDeed::GiveUp,
        }
    }
}

/// An answer of the weather service, as it came.
#[derive(Debug)]
pub struct Reply {
    pub success: bool,
    pub status: String,
    pub body: String,
}

/// The end of a request in an error.
pub open spec fn weather_error(e: Seq<char>) -> (WeatherWait, WeatherDeed) {
    (WeatherWait::Over, WeatherDeed::Answer(error_tree(e)))
}

/// Asking for the forecast for a place.
pub open spec fn forecasting(config: WeatherConfig, place: PlaceModel) -> (WeatherWait, WeatherDeed) {
    if !forecast_room(config.qweather_url@, place.location) {
        (WeatherWait::Over, WeatherDeed::GiveUp)
    } else {
        match forecast_url_of(config.qweather_url@, place.location) {
            Ok(url) => (WeatherWait::Forecasting(place.label), WeatherDeed::Fetch(url)),
            Err(e) => weather_error(e),
        }
    }
}

/// The place as it was asked for, when it could not be looked up.
pub open spec fn unknown_place_of(city: Seq<char>, e: Seq<char>) -> PlaceModel {
    PlaceModel { location: city, label: city + " ("@ + e + ")"@ }
}

/// The place by default, when the address said nothing.
pub open spec fn default_place_of(config: WeatherConfig, e: Seq<char>) -> PlaceModel {
    PlaceModel {
        location: config.default_location@,
        label: "default location "@ + config.default_location@ + " ("@ + e + ")"@,
    }
}

/// The start of a request for the weather at a place.
pub open spec fn weather_start(config: WeatherConfig, requested: Seq<char>) -> (
    WeatherWait,
    WeatherDeed,
) {
    let place = text::trimmed(requested);
    if text::is_blank(config.qweather_url@) {
        weather_error("agent.weather.qweather_url is empty"@)
    } else if place.len() == 0 {
        (WeatherWait::ByAddress, WeatherDeed::FetchAddress(config.ip_lookup_url@))
    } else if is_service_location(place) {
        forecasting(config, PlaceModel { location: place, label: place })
    } else if !lookup_room(config.qweather_url@, place) {
        (WeatherWait::Over, WeatherDeed::GiveUp)
    } else {
        match lookup_url_of(config.qweather_url@, place) {
            Ok(url) => (WeatherWait::LookingUp(place), WeatherDeed::Fetch(url)),
            Err(e) => forecasting(config, unknown_place_of(place, e)),
        }
    }
}

/// The place that an answer to where an address is gives.
pub open spec fn address_place(data: JsonTree) -> Result<PlaceModel, Seq<char>> {
    let lat = coordinate_of(
        json::either(json::member(data, "latitude"@), json::member(data, "lat"@)),
    );
    let lon = coordinate_of(
        json::either(json::member(data, "longitude"@), json::member(data, "lon"@)),
    );
    match (lat, lon) {
        (Some(lat), Some(lon)) => Ok(
            PlaceModel { location: lon + ","@ + lat, label: address_label(data) },
        ),
        _ => Err("IP location response does not contain latitude/longitude"@),
    }
}

/// The place that an answer to a lookup gives.
pub open spec fn lookup_place(data: JsonTree) -> Result<PlaceModel, Seq<char>> {
    match json::list_of(json::member(data, "location"@)) {
        Some(items) if items.len() > 0 => match city_location(items[0]) {
            Some(location) => Ok(PlaceModel { location, label: city_label(items[0]) }),
            None => Err("QWeather city lookup candidate has no id or coordinates"@),
        },
        _ => Err("QWeather city lookup returned no candidates"@),
    }
}

/// It was asked where the address is.
pub open spec fn address_step(
    config: WeatherConfig,
    answer: Result<JsonTree, Seq<char>>,
) -> (WeatherWait, WeatherDeed) {
    match answer {
        Err(e) => forecasting(config, default_place_of(config, e)),
        Ok(data) => match address_place(data) {
            Err(e) => forecasting(config, default_place_of(config, e)),
            Ok(place) => forecasting(config, place),
        },
    }
}

/// What the weather service answered, as far as it is sound.
pub open spec fn reply_data(reply: Result<Reply, String>) -> Result<JsonTree, Seq<char>> {
    match reply {
        Err(e) => Err(e@),
        Ok(reply) => service_answer(reply.success, reply.status@, reply.body@),
    }
}

/// The weather service was asked.
pub open spec fn weather_step(
    config: WeatherConfig,
    phase: WeatherWait,
    data: Result<JsonTree, Seq<char>>,
) -> (WeatherWait, WeatherDeed) {
    match phase {
        WeatherWait::LookingUp(city) => match data {
            Err(e) => forecasting(config, unknown_place_of(city, e)),
            Ok(data) => match lookup_place(data) {
                Err(e) => forecasting(config, unknown_place_of(city, e)),
                Ok(place) => forecasting(config, place),
            },
        },
        WeatherWait::Forecasting(label) => match data {
            Err(e) => weather_error(e),
            Ok(data) => (WeatherWait::Over, WeatherDeed::Answer(weather_tree(data, label))),
        },
        _ => (phase, WeatherDeed::Answer(JsonTree::Null)),
    }
}

fn fail_weather(e: &str) -> (r: (WeatherPhase, WeatherTask))
    ensures
        (r.0@, r.1@) == weather_error(e@),
{
    (WeatherPhase::Over, WeatherTask::Answer(error_json(e)))
}

fn ask_forecast(config: &WeatherConfig, place: Place) -> (r: (WeatherPhase, WeatherTask))
    ensures
        (r.0@, r.1@) == forecasting(*config, place@),
{
    if !has_forecast_room(config, place.location.as_str()) {
        return (WeatherPhase::Over, WeatherTask::GiveUp);
    }
    match forecast_url(config, place.location.as_str()) {
        Ok(url) => (WeatherPhase::Forecasting(place.label), WeatherTask::Fetch(url)),
        Err(e) => fail_weather(e.as_str()),
    }
}

/// Starts a request for the weather at a place; without one, where the speaker is.
pub fn get_weather(config: &WeatherConfig, requested: &str) -> (r: (WeatherPhase, WeatherTask))
    ensures
        (r.0@, r.1@) == weather_start(*config, requested@),
{
    match location_plan(config, requested) {
        Err(e) => fail_weather(e.as_str()),
        Ok(LocationPlan::ByAddress) => (
            WeatherPhase::ByAddress,
            WeatherTask::FetchAddress(config.ip_lookup_url.clone()),
        ),
        Ok(LocationPlan::Given(place)) => ask_forecast(config, given_place(place.as_str())),
        Ok(LocationPlan::LookUp(city)) => {
            if !has_lookup_room(config, city.as_str()) {
                return (WeatherPhase::Over, WeatherTask::GiveUp);
            }
            match lookup_url(config, city.as_str()) {
                Ok(url) => (WeatherPhase::LookingUp(city), WeatherTask::Fetch(url)),
                Err(e) => ask_forecast(config, unknown_place(city.as_str(), e.as_str())),
            }
        },
    }
}

/// Goes on with a request when it was asked where the address is.
pub fn address_answered(config: &WeatherConfig, answer: &Result<Json, String>) -> (r: (
    WeatherPhase,
    WeatherTask,
))
    ensures
        (r.0@, r.1@) == address_step(
            *config,
            match *answer {
                Ok(data) => Ok(json::tree(data)),
                Err(e) => Err(e@),
            },
        ),
{
    match answer {
        Err(e) => ask_forecast(config, default_place(config, e.as_str())),
        Ok(data) => match place_by_address(data) {
            Err(e) => ask_forecast(config, default_place(config, e.as_str())),
            Ok(place) => ask_forecast(config, place),
        },
    }
}

/// Goes on with a request that looks up a city or waits for the forecast, when
/// the weather service was asked.
pub fn weather_answered(
    config: &WeatherConfig,
    phase: &WeatherPhase,
    reply: &Result<Reply, String>,
) -> (r: (WeatherPhase, WeatherTask))
    requires
        phase@ is LookingUp || phase@ is Forecasting,
    ensures
        (r.0@, r.1@) == weather_step(*config, phase@, reply_data(*reply)),
{
    let data: Result<Json, String> = match reply {
        Err(e) => Err(e.clone()),
        Ok(reply) => read_answer(reply.success, reply.status.as_str(), reply.body.as_str()),
    };
    match phase {
        WeatherPhase::LookingUp(city) => match data {
            Err(e) => ask_forecast(config, unknown_place(city.as_str(), e.as_str())),
            Ok(data) => match place_by_lookup(&data) {
                Err(e) => ask_forecast(config, unknown_place(city.as_str(), e.as_str())),
                Ok(place) => ask_forecast(config, place),
            },
        },
        WeatherPhase::Forecasting(label) => match data {
            Err(e) => fail_weather(e.as_str()),
            Ok(data) => (
                WeatherPhase::Over,
                WeatherTask::Answer(summarize_daily_weather(&data, label.as_str())),
            ),
        },
        _ => (WeatherPhase::Over, WeatherTask::Answer(Json::Null)),
    }
}

// ----------------------------------------------------------------------- laws

/// A request for the weather comes to an answer: after the place is known, or not,
/// the forecast is asked for, and after the forecast there is an answer. It is given
/// up only where there is no room for the URL of the forecast.
pub proof fn law_weather_is_answered(
    config: WeatherConfig,
    phase: WeatherWait,
    address: Result<JsonTree, Seq<char>>,
    data: Result<JsonTree, Seq<char>>,
)
    ensures
        address_step(config, address).0 is Forecasting || address_step(config, address).0 is Over,
        address_step(config, address).1 is GiveUp ==> exists|location: Seq<char>|
            !#[trigger] forecast_room(config.qweather_url@, location),
        phase is LookingUp ==> weather_step(config, phase, data).0 is Forecasting || weather_step(
            config,
            phase,
            data,
        ).0 is Over,
        phase is Forecasting ==> weather_step(config, phase, data).0 is Over && weather_step(
            config,
            phase,
            data,
        ).1 is Answer,
{
}

/// A replaced pair stands in a query exactly as it replaces: no pair that was
/// there before has the name of a replacement.
pub proof fn law_replacements_win(
    pairs: Seq<(Seq<char>, Seq<char>)>,
    replacements: Seq<(Seq<char>, Seq<char>)>,
    i: int,
)
    requires
        0 <= i < replaced_pairs(pairs, replacements).len() - replacements.len(),
    ensures
        !names_pair(replacements, replaced_pairs(pairs, replacements)[i].0),
        pairs.contains(replaced_pairs(pairs, replacements)[i]),
        replaced_pairs(pairs, replacements).skip(
            replaced_pairs(pairs, replacements).len() - replacements.len(),
        ) == replacements,
{
    let keep = |p: (Seq<char>, Seq<char>)| !names_pair(replacements, p.0);
    let kept = pairs.filter(keep);
    pairs.lemma_filter_pred(keep, i);
    assert(kept.contains(kept[i]));
    pairs.lemma_filter_contains_rev(keep, kept[i]);
    assert(keep(kept[i]));
    assert(replaced_pairs(pairs, replacements).skip(kept.len() as int) =~= replacements);
}

/// A preview is never longer than its limit and the mark, and a short text is
/// shown whole.
pub proof fn law_preview_is_short(s: Seq<char>)
    ensures
        previewed(s).len() <= PREVIEW_CHARS + 3,
        s.len() <= PREVIEW_CHARS ==> previewed(s) == s,
{
    reveal_strlit("...");
}

proof fn lemma_names_differ()
    ensures
        "date"@.len() == 4 && "date"@[0] == 'd',
        "day"@.len() == 3 && "day"@[0] == 'd',
        "night"@.len() == 5 && "night"@[0] == 'n',
        "temp_min_c"@.len() == 10 && "temp_min_c"@[6] == 'i',
        "temp_max_c"@.len() == 10 && "temp_max_c"@[6] == 'a',
        "humidity"@.len() == 8 && "humidity"@[0] == 'h',
        "wind"@.len() == 4 && "wind"@[0] == 'w',
        "wind_scale"@.len() == 10 && "wind_scale"@[6] == 'c',
        "location"@.len() == 8 && "location"@[0] == 'l',
        "raw"@.len() == 3 && "raw"@[0] == 'r',
        "qweather_code"@.len() == 13 && "qweather_code"@[0] == 'q',
        "updated_at"@.len() == 10 && "updated_at"@[0] == 'u',
        "forecast"@.len() == 8 && "forecast"@[0] == 'f',
        "latitude"@.len() == 8 && "latitude"@[0] == 'l',
        "longitude"@.len() == 9 && "longitude"@[0] == 'l',
        "lat"@.len() == 3 && "lat"@[1] == 'a',
        "lon"@.len() == 3 && "lon"@[1] == 'o',
        "city"@.len() == 4 && "city"@[0] == 'c',
        "region"@.len() == 6 && "region"@[0] == 'r',
        "regionName"@.len() == 10 && "regionName"@[0] == 'r',
        "country_name"@.len() == 12 && "country_name"@[0] == 'c',
        "country"@.len() == 7 && "country"@[0] == 'c',
        "id"@.len() == 2 && "id"@[0] == 'i',
        "name"@.len() == 4 && "name"@[0] == 'n',
        "adm1"@.len() == 4 && "adm1"@[3] == '1',
        "adm2"@.len() == 4 && "adm2"@[3] == '2',
        "adm1"@[0] == 'a' && "adm2"@[0] == 'a',
        "temp_min_c"@[0] == 't' && "temp_max_c"@[0] == 't' && "wind_scale"@[0] == 'w',
{
    reveal_strlit("date");
    reveal_strlit("day");
    reveal_strlit("night");
    reveal_strlit("temp_min_c");
    reveal_strlit("temp_max_c");
    reveal_strlit("humidity");
    reveal_strlit("wind");
    reveal_strlit("wind_scale");
    reveal_strlit("location");
    reveal_strlit("raw");
    reveal_strlit("qweather_code");
    reveal_strlit("updated_at");
    reveal_strlit("forecast");
    reveal_strlit("latitude");
    reveal_strlit("longitude");
    reveal_strlit("lat");
    reveal_strlit("lon");
    reveal_strlit("city");
    reveal_strlit("region");
    reveal_strlit("regionName");
    reveal_strlit("country_name");
    reveal_strlit("country");
    reveal_strlit("id");
    reveal_strlit("name");
    reveal_strlit("adm1");
    reveal_strlit("adm2");
}

/// What is told of a day is what the service said of it, each under its own name;
/// what the service did not say is null.
pub proof fn law_days_are_told(item: JsonTree)
    ensures
        ({
            let told = |name: Seq<char>, source: Seq<char>|
                {
                    &&& json::member(item, source) is Some ==> json::member(day_tree(item), name)
                        == json::member(item, source)
                    &&& json::member(item, source) is None ==> json::member(day_tree(item), name)
                        == Some(JsonTree::Null)
                };
            &&& told("date"@, "fxDate"@)
            &&& told("day"@, "textDay"@)
            &&& told("night"@, "textNight"@)
            &&& told("temp_min_c"@, "tempMin"@)
            &&& told("temp_max_c"@, "tempMax"@)
            &&& told("humidity"@, "humidity"@)
            &&& told("wind"@, "windDirDay"@)
            &&& told("wind_scale"@, "windScaleDay"@)
        }),
{
    lemma_names_differ();
    reveal_with_fuel(json::member_from, 9);
}

/// At most three days are told, the first of the forecast, in its order, with the
/// place they are for, the code of the service and the time of its last change. An
/// answer without days is told whole.
pub proof fn law_first_three_days_are_told(
    data: JsonTree,
    daily: Seq<JsonTree>,
    label: Seq<char>,
    i: int,
)
    ensures
        json::member(weather_tree(data, label), "location"@) == Some(JsonTree::Text(label)),
        json::member(data, "daily"@) == Some(JsonTree::List(daily)) ==> ({
            let told = weather_tree(data, label);
            let days = json::list_of(json::member(told, "forecast"@));
            &&& json::member(told, "raw"@) is None
            &&& days is Some
            &&& days->0.len() == if daily.len() < 3 {
                daily.len()
            } else {
                3
            }
            &&& 0 <= i < days->0.len() ==> days->0[i] == day_tree(daily[i])
            &&& json::member(data, "code"@) is Some ==> json::member(told, "qweather_code"@)
                == json::member(data, "code"@)
            &&& json::member(data, "updateTime"@) is Some ==> json::member(told, "updated_at"@)
                == json::member(data, "updateTime"@)
        }),
        json::list_of(json::member(data, "daily"@)) is None ==> json::member(
            weather_tree(data, label),
            "raw"@,
        ) == Some(data) && json::member(weather_tree(data, label), "forecast"@) is None,
{
    lemma_names_differ();
    reveal_with_fuel(json::member_from, 6);
}

/// Names are joined with one space between two; a name that is not there leaves no
/// space.
pub proof fn law_names_are_joined(items: Seq<Option<Seq<char>>>, a: Seq<char>, b: Seq<char>)
    ensures
        spaced(seq![Some(a), Some(b)]) == a + " "@ + b,
        spaced(seq![None, Some(a), None]) == a,
        spaced(seq![Some(a), None, Some(b)]) == a + " "@ + b,
        spaced(seq![None, Some(a), Some(b)]) == a + " "@ + b,
        spaced(items.push(None)) == spaced(items),
        spaced(items.push(Some(a)).push(Some(b))) == spaced(items.push(Some(a))) + " "@ + b,
        spaced(Seq::empty()) == Seq::<char>::empty(),
{
    lemma_one_more(items, a, b);
    assert(items.push(None).drop_last() =~= items);
    let none = Seq::<Option<Seq<char>>>::empty();
    assert(spaced(none.push(Some(a))) == a) by {
        assert(none.push(Some(a)).drop_last() =~= none);
        assert(!any_given(none));
    }
    lemma_one_more(none, a, b);
    assert(none.push(Some(a)).push(Some(b)) =~= seq![Some(a), Some(b)]);
    let gap = none.push(None);
    assert(gap.drop_last() =~= none);
    assert(!any_given(gap));
    assert(gap.push(Some(a)).drop_last() =~= gap);
    assert(spaced(gap.push(Some(a))) == a);
    let gap_behind = gap.push(Some(a)).push(None);
    assert(gap_behind.drop_last() =~= gap.push(Some(a)));
    assert(gap_behind =~= seq![None, Some(a), None]);
    lemma_one_more(gap, a, b);
    assert(gap.push(Some(a)).push(Some(b)) =~= seq![None, Some(a), Some(b)]);
    let between = none.push(Some(a)).push(None);
    assert(between.drop_last() =~= none.push(Some(a)));
    assert(between[0] is Some);
    assert(any_given(between));
    assert(spaced(between) == a);
    assert(between.push(Some(b)).drop_last() =~= between);
    assert(spaced(between.push(Some(b))) == a + " "@ + b);
    assert(between.push(Some(b)) =~= seq![Some(a), None, Some(b)]);
}

proof fn lemma_one_more(items: Seq<Option<Seq<char>>>, a: Seq<char>, b: Seq<char>)
    ensures
        spaced(items.push(Some(a)).push(Some(b))) == spaced(items.push(Some(a))) + " "@ + b,
{
    let one = items.push(Some(a));
    assert(one[items.len() as int] is Some);
    assert(any_given(one));
    assert(one.push(Some(b)).drop_last() =~= one);
}

/// A text is a place of the service's own exactly where it has a comma, or where
/// every character is a digit from 0 to 9.
pub proof fn law_places_of_the_service(a: Seq<char>, b: Seq<char>, c: char)
    ensures
        is_service_location(a.push(',') + b),
        (forall|i: int| 0 <= i < a.len() ==> '0' <= #[trigger] a[i] && a[i] <= '9')
            ==> is_service_location(a),
        c != ',' && !a.contains(',') && !b.contains(',') && !('0' <= c && c <= '9')
            ==> !is_service_location(a.push(c) + b),
{
    let with = a.push(',') + b;
    assert(with[a.len() as int] == ',');
    let s = a.push(c) + b;
    assert(s[a.len() as int] == c);
    if c != ',' && !a.contains(',') && !b.contains(',') {
        if s.contains(',') {
            let k = choose|k: int| 0 <= k < s.len() && s[k] == ',';
            if k < a.len() {
                assert(a[k] == ',');
            } else {
                assert(b[k - a.len() - 1] == ',');
            }
        }
    }
}

/// Where an address is: its coordinates with four places, the longitude first, under
/// either of the two names that they go by.
pub proof fn law_addresses_have_coordinates(
    latitude: json::NumberTree,
    longitude: json::NumberTree,
    lat: Seq<char>,
    lon: Seq<char>,
)
    requires
        json::four_decimals(latitude) == Some(lat),
        json::four_decimals(longitude) == Some(lon),
    ensures
        ({
            let y = JsonTree::Number(latitude);
            let x = JsonTree::Number(longitude);
            let long = JsonTree::Object(seq![("latitude"@, y), ("longitude"@, x)]);
            let short = JsonTree::Object(seq![("lon"@, x), ("lat"@, y)]);
            &&& address_place(long) matches Ok(place) && place.location == lon + ","@ + lat
            &&& address_place(short) matches Ok(place) && place.location == lon + ","@ + lat
            &&& address_place(JsonTree::Object(seq![("latitude"@, y)])) is Err
            &&& address_place(JsonTree::Object(seq![("longitude"@, x)])) is Err
        }),
{
    lemma_names_differ();
    reveal_with_fuel(json::member_from, 3);
}

/// The names of an address are its city, its region and its country, in this order.
pub proof fn law_addresses_are_named(city: Seq<char>, region: Seq<char>, country: Seq<char>)
    ensures
        address_label(
            JsonTree::Object(
                seq![
                    ("city"@, JsonTree::Text(city)),
                    ("region"@, JsonTree::Text(region)),
                    ("country_name"@, JsonTree::Text(country)),
                ],
            ),
        ) == city + " "@ + region + " "@ + country,
        address_label(
            JsonTree::Object(
                seq![
                    ("country"@, JsonTree::Text(country)),
                    ("regionName"@, JsonTree::Text(region)),
                    ("city"@, JsonTree::Text(city)),
                ],
            ),
        ) == city + " "@ + region + " "@ + country,
{
    lemma_names_differ();
    reveal_with_fuel(json::member_from, 4);
    let none = Seq::<Option<Seq<char>>>::empty();
    law_names_are_joined(none, city, region);
    lemma_one_more(none.push(Some(city)), region, country);
    assert(none.push(Some(city)).push(Some(region)) =~= seq![Some(city), Some(region)]);
    assert(none.push(Some(city)).push(Some(region)).push(Some(country)) =~= seq![
        Some(city),
        Some(region),
        Some(country),
    ]);
}

/// The first city that was found is taken: by its identifier, else by its
/// coordinates, the longitude first. Its names are its own, then those of what it
/// belongs to.
pub proof fn law_first_city_is_taken(
    id: Seq<char>,
    lon: Seq<char>,
    lat: Seq<char>,
    name: Seq<char>,
    country: Seq<char>,
    more: Seq<JsonTree>,
)
    ensures
        ({
            let city = |known: bool|
                JsonTree::Object(
                    seq![
                        (
                            "id"@,
                            if known {
                                JsonTree::Text(id)
                            } else {
                                JsonTree::Null
                            },
                        ),
                        ("lat"@, JsonTree::Text(lat)),
                        ("lon"@, JsonTree::Text(lon)),
                        ("country"@, JsonTree::Text(country)),
                        ("name"@, JsonTree::Text(name)),
                    ],
                );
            let found = |known: bool|
                lookup_place(
                    JsonTree::Object(
                        seq![("location"@, JsonTree::List(seq![city(known)] + more))],
                    ),
                );
            &&& found(true) matches Ok(place) && place.location == id
            &&& found(false) matches Ok(place) && place.location == lon + ","@ + lat
            &&& found(true) matches Ok(place) && place.label == name + " "@ + country
        }),
        lookup_place(JsonTree::Object(seq![("location"@, JsonTree::List(Seq::empty()))])) is Err,
        lookup_place(JsonTree::Null) is Err,
{
    lemma_names_differ();
    reveal_with_fuel(json::member_from, 6);
    let none = Seq::<Option<Seq<char>>>::empty();
    let given = none.push(Some(name)).push(None).push(None);
    assert(given.drop_last() =~= none.push(Some(name)).push(None));
    assert(given.drop_last().drop_last() =~= none.push(Some(name)));
    assert(none.push(Some(name)).drop_last() =~= none);
    assert(!any_given(none));
    assert(spaced(none.push(Some(name))) == name);
    assert(spaced(none.push(Some(name)).push(None)) == name);
    assert(spaced(given) == name);
    assert(given[0] is Some);
    assert(any_given(given));
    assert(given.push(Some(country)).drop_last() =~= given);
    assert(given.push(Some(country)) =~= seq![Some(name), None, None, Some(country)]);
    let first = |known: bool|
        JsonTree::Object(
            seq![
                (
                    "id"@,
                    if known {
                        JsonTree::Text(id)
                    } else {
                        JsonTree::Null
                    },
                ),
                ("lat"@, JsonTree::Text(lat)),
                ("lon"@, JsonTree::Text(lon)),
                ("country"@, JsonTree::Text(country)),
                ("name"@, JsonTree::Text(name)),
            ],
        );
    assert((seq![first(true)] + more)[0] == first(true));
    assert((seq![first(false)] + more)[0] == first(false));
    assert(city_label(first(true)) == name + " "@ + country);
}

/// What is asked for a place. A place of the service's own is asked for at once. A
/// name is looked up first; where that fails, the forecast is asked for by the name
/// itself. Without a place it is asked where the speaker is; where that fails, the
/// forecast is that of the place by default. In each case what is answered names the
/// place, and why it is this one where a step failed.
pub proof fn law_places_are_tried_in_turn(
    config: WeatherConfig,
    place: Seq<char>,
    url: Seq<char>,
    e: Seq<char>,
    data: JsonTree,
)
    requires
        !text::is_blank(config.qweather_url@),
        text::trimmed(place) == place,
    ensures
        place.len() == 0 ==> weather_start(config, place).1 == WeatherDeed::FetchAddress(
            config.ip_lookup_url@,
        ),
        place.len() > 0 && is_service_location(place) && forecast_room(config.qweather_url@, place)
            && forecast_url_of(config.qweather_url@, place) == Ok::<Seq<char>, Seq<char>>(url) ==> ({
            let (wait, deed) = weather_start(config, place);
            &&& deed == WeatherDeed::Fetch(url)
            &&& weather_step(config, wait, Ok(data)).1 == WeatherDeed::Answer(
                weather_tree(data, place),
            )
        }),
        place.len() > 0 && !is_service_location(place) && lookup_room(config.qweather_url@, place)
            && lookup_url_of(config.qweather_url@, place) == Ok::<Seq<char>, Seq<char>>(url)
            ==> ({
            let (wait, deed) = weather_start(config, place);
            &&& deed == WeatherDeed::Fetch(url)
            &&& wait == WeatherWait::LookingUp(place)
        }),
        forecast_room(config.qweather_url@, place) && forecast_url_of(config.qweather_url@, place)
            == Ok::<Seq<char>, Seq<char>>(url) ==> ({
            let (wait, deed) = weather_step(config, WeatherWait::LookingUp(place), Err(e));
            &&& deed == WeatherDeed::Fetch(url)
            &&& weather_step(config, wait, Ok(data)).1 == WeatherDeed::Answer(
                weather_tree(data, place + " ("@ + e + ")"@),
            )
        }),
        forecast_room(config.qweather_url@, config.default_location@) && forecast_url_of(
            config.qweather_url@,
            config.default_location@,
        ) == Ok::<Seq<char>, Seq<char>>(url) ==> ({
            let (wait, deed) = address_step(config, Err(e));
            &&& deed == WeatherDeed::Fetch(url)
            &&& weather_step(config, wait, Ok(data)).1 == WeatherDeed::Answer(
                weather_tree(
                    data,
                    "default location "@ + config.default_location@ + " ("@ + e + ")"@,
                ),
            )
        }),
{
}

/// A place that was found is the one that the forecast is for, and its name the one
/// that is told. A forecast that fails is answered with the error, and so is a
/// request where no service is set up.
pub proof fn law_found_places_are_used(
    config: WeatherConfig,
    requested: Seq<char>,
    answer: JsonTree,
    label: Seq<char>,
    url: Seq<char>,
    e: Seq<char>,
    data: JsonTree,
)
    ensures
        address_place(answer) matches Ok(place) ==> forecast_room(
            config.qweather_url@,
            place.location,
        ) && forecast_url_of(config.qweather_url@, place.location) == Ok::<Seq<char>, Seq<char>>(url)
            ==> ({
            let (wait, deed) = address_step(config, Ok(answer));
            &&& deed == WeatherDeed::Fetch(url)
            &&& weather_step(config, wait, Ok(data)).1 == WeatherDeed::Answer(
                weather_tree(data, place.label),
            )
        }),
        lookup_place(answer) matches Ok(place) ==> forecast_room(
            config.qweather_url@,
            place.location,
        ) && forecast_url_of(config.qweather_url@, place.location) == Ok::<Seq<char>, Seq<char>>(url)
            ==> ({
            let (wait, deed) = weather_step(config, WeatherWait::LookingUp(label), Ok(answer));
            &&& deed == WeatherDeed::Fetch(url)
            &&& weather_step(config, wait, Ok(data)).1 == WeatherDeed::Answer(
                weather_tree(data, place.label),
            )
        }),
        weather_step(config, WeatherWait::Forecasting(label), Err(e)).1 == WeatherDeed::Answer(
            JsonTree::Object(seq![("error"@, JsonTree::Text(e))]),
        ),
        text::is_blank(config.qweather_url@) ==> weather_start(config, requested).1
            == WeatherDeed::Answer(
            JsonTree::Object(
                seq![("error"@, JsonTree::Text("agent.weather.qweather_url is empty"@))],
            ),
        ),
{
}

/// A forecast is asked for at the URL that is set up, a lookup at its own path there;
/// both name the place, a lookup also that one city is wanted. What else the query
/// held stays, in its order, and a name that it held before is held once.
pub proof fn law_queries_name_the_place(
    base: Seq<char>,
    url: urls::UrlModel,
    location: Seq<char>,
)
    requires
        urls::spelled_url(base) == Ok::<urls::UrlModel, Seq<char>>(url),
    ensures
        forecast_url_of(base, location) == urls::edited(
            url.href,
            None,
            true,
            url.pairs.filter(|p: (Seq<char>, Seq<char>)| p.0 != "location"@).push(
                ("location"@, location),
            ),
        ),
        lookup_url_of(base, location) == urls::edited(
            url.href,
            Some("/geo/v2/city/lookup"@),
            true,
            url.pairs.filter(
                |p: (Seq<char>, Seq<char>)| p.0 != "location"@ && p.0 != "number"@,
            ).push(("location"@, location)).push(("number"@, "1"@)),
        ),
{
    let asked = forecast_pairs(location);
    assert(asked[0].0 == "location"@);
    assert forall|p: (Seq<char>, Seq<char>)|
        names_pair(asked, p.0) == (p.0 == "location"@) by {}
    let one = |p: (Seq<char>, Seq<char>)| !names_pair(asked, p.0);
    let other = |p: (Seq<char>, Seq<char>)| p.0 != "location"@;
    assert(one =~= other);
    assert(replaced_pairs(url.pairs, asked) =~= url.pairs.filter(other).push(
        ("location"@, location),
    ));
    let looked = lookup_pairs(location);
    assert(looked[0].0 == "location"@ && looked[1].0 == "number"@);
    assert forall|p: (Seq<char>, Seq<char>)|
        names_pair(looked, p.0) == (p.0 == "location"@ || p.0 == "number"@) by {}
    let first = |p: (Seq<char>, Seq<char>)| !names_pair(looked, p.0);
    let second = |p: (Seq<char>, Seq<char>)| p.0 != "location"@ && p.0 != "number"@;
    assert(first =~= second);
    assert(replaced_pairs(url.pairs, looked) =~= url.pairs.filter(second).push(
        ("location"@, location),
    ).push(("number"@, "1"@)));
}

/// An answer of the service is what its body says, where the status is success and
/// the body is JSON; else it is an error that shows the start of the body, at most
/// 240 characters of it, and where that is not all of it, says so.
pub proof fn law_answers_are_sound(
    status: Seq<char>,
    body: Seq<char>,
    data: JsonTree,
    more: Seq<char>,
)
    ensures
        json::spelled_json(body) == Ok::<JsonTree, Seq<char>>(data) ==> service_answer(
            true,
            status,
            body,
        ) == Ok::<JsonTree, Seq<char>>(data),
        body.len() <= 240 ==> service_answer(false, status, body) == Err::<JsonTree, Seq<char>>(
            "QWeather HTTP "@ + status + ": "@ + body,
        ),
        body.len() <= 240 && json::spelled_json(body) is Err ==> service_answer(true, status, body)
            == Err::<JsonTree, Seq<char>>("QWeather returned non-JSON body: "@ + body),
        body.len() == 240 && more.len() > 0 ==> service_answer(false, status, body + more)
            == Err::<JsonTree, Seq<char>>("QWeather HTTP "@ + status + ": "@ + (body + "..."@)),
{
    if body.len() == 240 && more.len() > 0 {
        assert((body + more).take(240) =~= body);
    }
}

/// Why a place was not found is said: no city, or one that cannot be asked for, or an
/// address without coordinates.
pub proof fn law_unfound_places_are_explained(more: Seq<JsonTree>)
    ensures
        lookup_place(JsonTree::Null) == Err::<PlaceModel, Seq<char>>(
            "QWeather city lookup returned no candidates"@,
        ),
        lookup_place(
            JsonTree::Object(seq![("location"@, JsonTree::List(seq![JsonTree::Null] + more))]),
        ) == Err::<PlaceModel, Seq<char>>("QWeather city lookup candidate has no id or coordinates"@),
        address_place(JsonTree::Null) == Err::<PlaceModel, Seq<char>>(
            "IP location response does not contain latitude/longitude"@,
        ),
{
    assert((seq![JsonTree::Null] + more)[0] == JsonTree::Null);
    reveal_with_fuel(json::member_from, 2);
}

} // verus!
