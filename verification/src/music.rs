//! Music: what is asked of the services, and with what credentials.
use vstd::prelude::*;
use crate::config;
use crate::config::{MusicConfig, NavidromeConfig, NeteaseConfig};
use crate::json;
use crate::json::{Json, JsonTree};
use crate::songs;
use crate::songs::{Provider, Song};
use crate::text;
use crate::urls;

verus! {

// ------------------------------------------------------------------- answers

/// An answer that is an error.
pub open spec fn error_tree(message: Seq<char>) -> JsonTree {
    JsonTree::Object(seq![("error"@, JsonTree::Text(message))])
}

/// An answer that is an error.
pub fn error_json(message: &str) -> (r: Json)
    ensures
        json::tree(r) == error_tree(message@),
{
    let mut out: Vec<(String, Json)> = Vec::new();
    out.push(json::entry("error", json::text_json(message)));
    assert(json::members_tree(out@) =~= error_tree(message@)->Object_0);
    json::object(out)
}

/// An answer that says whether something holds.
pub open spec fn flag_tree(name: Seq<char>, value: bool) -> JsonTree {
    JsonTree::Object(seq![(name, JsonTree::Bool(value))])
}

/// An answer that says that something does not hold, and why.
pub open spec fn refused_tree(name: Seq<char>, message: Seq<char>) -> JsonTree {
    JsonTree::Object(seq![(name, JsonTree::Bool(false)), ("error"@, JsonTree::Text(message))])
}

/// Whether something was done, as an answer: that it was, or that it was not and
/// why.
pub open spec fn outcome_tree(name: Seq<char>, outcome: Result<(), String>) -> JsonTree {
    match outcome {
        Ok(()) => flag_tree(name, true),
        Err(e) => refused_tree(name, e@),
    }
}

/// Whether something was done, as an answer.
pub fn outcome_json(name: &str, outcome: &Result<(), String>) -> (r: Json)
    ensures
        json::tree(r) == outcome_tree(name@, *outcome),
{
    let mut out: Vec<(String, Json)> = Vec::new();
    match outcome {
        Ok(()) => {
            out.push(json::entry(name, Json::Bool(true)));
        },
        Err(e) => {
            out.push(json::entry(name, Json::Bool(false)));
            out.push(json::entry("error", json::text_json(e.as_str())));
        },
    }
    assert(json::members_tree(out@) =~= outcome_tree(name@, *outcome)->Object_0);
    json::object(out)
}

/// The answer to a search.
pub fn search_answer(found: &Result<Vec<Song>, String>) -> (r: Json)
    ensures
        json::tree(r) == match *found {
            Ok(found) => songs::songs_tree(songs::song_models(found@)),
            Err(e) => error_tree(e@),
        },
{
    match found {
        Ok(found) => songs::songs_json(found),
        Err(e) => error_json(e.as_str()),
    }
}

// ----------------------------------------------------------------- what to ask

/// How many songs a search may find: at least one, at most twenty.
pub fn search_limit(asked: usize) -> (r: usize)
    ensures
        r == if asked < 1 {
            1
        } else if asked > 20 {
            20
        } else {
            asked as int
        },
{
    if asked < 1 {
        1
    } else if asked > 20 {
        20
    } else {
        asked
    }
}

/// How many songs may be drawn at random: at least one, at most a hundred.
pub fn random_limit(asked: usize) -> (r: usize)
    ensures
        r == if asked < 1 {
            1
        } else if asked > 100 {
            100
        } else {
            asked as int
        },
{
    if asked < 1 {
        1
    } else if asked > 100 {
        100
    } else {
        asked
    }
}

/// The service that is searched, or why none is.
pub open spec fn search_provider_of(config: MusicConfig) -> Result<Provider, Seq<char>> {
    if !config.enabled {
        Err("music.enabled is false"@)
    } else if config.provider@ == "netease"@ {
        Ok(Provider::Netease)
    } else if config.provider@ == "navidrome"@ {
        Ok(Provider::Navidrome)
    } else {
        Err("Unsupported music provider: "@ + config.provider@)
    }
}

/// The service that is searched.
pub fn search_provider(config: &MusicConfig) -> (r: Result<Provider, String>)
    ensures
        match search_provider_of(*config) {
            Ok(p) => r == Ok::<Provider, String>(p),
            Err(e) => r matches Err(x) && x@ == e,
        },
{
    match config::require_music_enabled(config) {
        Err(e) => {
            return Err(e);
        },
        Ok(()) => {},
    }
    if text::same_text(config.provider.as_str(), "netease") {
        Ok(Provider::Netease)
    } else if text::same_text(config.provider.as_str(), "navidrome") {
        Ok(Provider::Navidrome)
    } else {
        let mut out: String = "Unsupported music provider: ".to_owned();
        out.append(config.provider.as_str());
        Err(out)
    }
}

/// The service that single songs come from: NetEase, but for Navidrome.
pub open spec fn song_provider_of(config: MusicConfig) -> Provider {
    if config.provider@ == "navidrome"@ {
        Provider::Navidrome
    } else {
        Provider::Netease
    }
}

/// The service that single songs come from.
pub fn song_provider(config: &MusicConfig) -> (r: Provider)
    ensures
        r == song_provider_of(*config),
{
    if text::same_text(config.provider.as_str(), "navidrome") {
        Provider::Navidrome
    } else {
        Provider::Netease
    }
}

/// The service that random songs come from, or why none do.
pub fn random_provider(config: &MusicConfig) -> (r: Result<Provider, String>)
    ensures
        match r {
            Ok(p) => config.enabled && p == song_provider_of(*config),
            Err(e) => !config.enabled && e@ == "music.enabled is false"@,
        },
{
    match config::require_music_enabled(config) {
        Err(e) => Err(e),
        Ok(()) => Ok(song_provider(config)),
    }
}

/// Something to ask of a service: a path and parameters.
#[derive(Debug)]
pub struct Query {
    pub path: String,
    pub params: Vec<(String, String)>,
}

/// Something to ask of a service, as a mathematical value.
pub struct QueryModel {
    pub path: Seq<char>,
    pub params: Seq<(Seq<char>, Seq<char>)>,
}

impl View for Query {
    type V = QueryModel;

    open spec fn view(&self) -> QueryModel {
        QueryModel { path: self.path@, params: urls::pairs_of(self.params@) }
    }
}

/// How a service is asked for songs.
pub open spec fn search_query_of(provider: Provider, query: Seq<char>, limit: nat) -> QueryModel {
    match provider {
        Provider::Netease => QueryModel {
            path: "/cloudsearch"@,
            params: seq![("keywords"@, query), ("limit"@, text::decimal(limit))],
        },
        Provider::Navidrome => QueryModel {
            path: "/rest/search3.view"@,
            params: seq![
                ("query"@, query),
                ("songCount"@, text::decimal(limit)),
                ("artistCount"@, "3"@),
                ("albumCount"@, "3"@),
            ],
        },
    }
}

/// How a service is asked for songs.
pub fn search_query(provider: Provider, query: &str, limit: usize) -> (r: Query)
    ensures
        r@ == search_query_of(provider, query@, limit as nat),
{
    let count: String = text::decimal_text(limit as u64);
    let mut params: Vec<(String, String)> = Vec::new();
    let path: &str = match provider {
        Provider::Netease => {
            params.push(urls::pair("keywords", query));
            params.push(urls::pair("limit", count.as_str()));
            "/cloudsearch"
        },
        Provider::Navidrome => {
            params.push(urls::pair("query", query));
            params.push(urls::pair("songCount", count.as_str()));
            params.push(urls::pair("artistCount", "3"));
            params.push(urls::pair("albumCount", "3"));
            "/rest/search3.view"
        },
    };
    assert(urls::pairs_of(params@) =~= search_query_of(provider, query@, limit as nat).params);
    Query { path: path.to_owned(), params }
}

/// How a service is asked for random songs.
pub open spec fn random_query_of(provider: Provider, limit: nat) -> QueryModel {
    match provider {
        Provider::Netease => search_query_of(provider, Seq::empty(), limit),
        Provider::Navidrome => QueryModel {
            path: "/rest/getRandomSongs.view"@,
            params: seq![("size"@, text::decimal(limit))],
        },
    }
}

/// How a service is asked for random songs.
pub fn random_query(provider: Provider, limit: usize) -> (r: Query)
    ensures
        r@ == random_query_of(provider, limit as nat),
{
    match provider {
        Provider::Netease => {
            let nothing: String = String::new();
            search_query(provider, nothing.as_str(), limit)
        },
        Provider::Navidrome => {
            let mut params: Vec<(String, String)> = Vec::new();
            params.push(urls::pair("size", text::decimal_text(limit as u64).as_str()));
            assert(urls::pairs_of(params@) =~= random_query_of(provider, limit as nat).params);
            Query { path: "/rest/getRandomSongs.view".to_owned(), params }
        },
    }
}

/// How Navidrome is asked for a song.
pub fn detail_query(song_id: &str) -> (r: Query)
    ensures
        r@ == (QueryModel { path: "/rest/getSong.view"@, params: seq![("id"@, song_id@)] }),
{
    let mut params: Vec<(String, String)> = Vec::new();
    params.push(urls::pair("id", song_id));
    assert(urls::pairs_of(params@) =~= seq![("id"@, song_id@)]);
    Query { path: "/rest/getSong.view".to_owned(), params }
}

/// How NetEase is asked where a song can be played from.
pub fn url_query(song_id: &str, level: &str) -> (r: Query)
    ensures
        r@ == (QueryModel {
            path: "/song/url/v1"@,
            params: seq![("id"@, song_id@), ("level"@, level@)],
        }),
{
    let mut params: Vec<(String, String)> = Vec::new();
    params.push(urls::pair("id", song_id));
    params.push(urls::pair("level", level));
    assert(urls::pairs_of(params@) =~= seq![("id"@, song_id@), ("level"@, level@)]);
    Query { path: "/song/url/v1".to_owned(), params }
}

/// The telephone number to log in with: the one given, else the account.
pub open spec fn phone_of(config: NeteaseConfig) -> Seq<char> {
    if text::is_blank(config.phone@) {
        text::trimmed(config.account@)
    } else {
        text::trimmed(config.phone@)
    }
}

/// The telephone number to log in with.
pub fn netease_phone(config: &NeteaseConfig) -> (r: String)
    ensures
        r@ == phone_of(*config),
{
    if text::blank(config.phone.as_str()) {
        text::trim(config.account.as_str())
    } else {
        text::trim(config.phone.as_str())
    }
}

/// How NetEase is asked for a login code.
pub fn login_code_query(config: &NeteaseConfig) -> (r: Query)
    ensures
        r@ == (QueryModel {
            path: "/captcha/sent"@,
            params: seq![("phone"@, phone_of(*config))],
        }),
{
    let mut params: Vec<(String, String)> = Vec::new();
    params.push(urls::pair("phone", netease_phone(config).as_str()));
    assert(urls::pairs_of(params@) =~= seq![("phone"@, phone_of(*config))]);
    Query { path: "/captcha/sent".to_owned(), params }
}

/// How NetEase is asked to check a login code, and then to log in with it.
pub fn login_query(config: &NeteaseConfig, code: &str, verified: bool) -> (r: Query)
    ensures
        r@ == (QueryModel {
            path: if verified {
                "/login/cellphone"@
            } else {
                "/captcha/verify"@
            },
            params: seq![("phone"@, phone_of(*config)), ("captcha"@, code@)],
        }),
{
    let mut params: Vec<(String, String)> = Vec::new();
    params.push(urls::pair("phone", netease_phone(config).as_str()));
    params.push(urls::pair("captcha", code));
    assert(urls::pairs_of(params@) =~= seq![("phone"@, phone_of(*config)), ("captcha"@, code@)]);
    let path: &str = if verified {
        "/login/cellphone"
    } else {
        "/captcha/verify"
    };
    Query { path: path.to_owned(), params }
}

/// The answer to a login that failed, before or after the code was checked.
pub fn login_failure(message: &str, verified: bool) -> (r: Json)
    ensures
        json::tree(r) == JsonTree::Object(
            seq![("error"@, JsonTree::Text(message@)), ("verified"@, JsonTree::Bool(verified))],
        ),
{
    let mut out: Vec<(String, Json)> = Vec::new();
    out.push(json::entry("error", json::text_json(message)));
    out.push(json::entry("verified", Json::Bool(verified)));
    assert(json::members_tree(out@) =~= seq![
        ("error"@, JsonTree::Text(message@)),
        ("verified"@, JsonTree::Bool(verified)),
    ]);
    json::object(out)
}

// -------------------------------------------------------------------- cookies

/// The cookie that a login answered with, where it did.
pub fn cookie_of_response(data: &Json) -> (r: Option<String>)
    ensures
        match json::text_of(json::member(json::tree(*data), "cookie"@)) {
            Some(cookie) => r matches Some(x) && x@ == cookie,
            None => r is None,
        },
{
    json::str_of(data.get("cookie"))
}

/// The cookie in a file: the member of that name where the file is JSON and has
/// it, else the text without white space around it. An empty cookie is none.
pub open spec fn seed_cookie(parsed: Option<JsonTree>, content: Seq<char>) -> Option<Seq<char>> {
    let found = match json::text_of(json::member_of(parsed, "cookie"@)) {
        Some(cookie) => cookie,
        None => text::trimmed(content),
    };
    if found.len() == 0 {
        None
    } else {
        Some(found)
    }
}

/// The cookie in a file, given what its text spells.
pub fn cookie_from(parsed: Option<&Json>, content: &str) -> (r: Option<String>)
    ensures
        match seed_cookie(json::opt_tree(parsed), content@) {
            Some(cookie) => r matches Some(x) && x@ == cookie,
            None => r is None,
        },
{
    let found: String = match json::str_of(json::get_of(parsed, "cookie")) {
        Some(cookie) => cookie,
        None => text::trim(content),
    };
    if found.as_str().is_empty() {
        None
    } else {
        Some(found)
    }
}

/// The cookie in a file.
pub fn cookie_from_text(content: &str) -> (r: Option<String>)
    ensures
        match seed_cookie(
            match json::spelled_json(content@) {
                Ok(value) => Some(value),
                Err(_) => None,
            },
            content@,
        ) {
            Some(cookie) => r matches Some(x) && x@ == cookie,
            None => r is None,
        },
{
    match json::parse_json(content) {
        Ok(parsed) => cookie_from(Some(&parsed), content),
        Err(_) => cookie_from(None, content),
    }
}

/// The cookie of the process: the last that a login gave, kept in memory only. A
/// file may hold one to begin with.
#[derive(Debug)]
pub struct CookieJar {
    pub cookie: Option<String>,
}

impl CookieJar {
    /// A jar that holds nothing.
    pub fn new() -> (r: Self)
        ensures
            r.cookie is None,
    {
        CookieJar { cookie: None }
    }

    /// Whether the file need not be read.
    pub fn has_cookie(&self) -> (r: bool)
        ensures
            r == (self.cookie is Some),
    {
        self.cookie.is_some()
    }

    /// The cookie to send: the one in memory, else that of the file.
    pub fn read_cookie(&self, seed: Option<&str>) -> (r: Option<String>)
        ensures
            crate::speech::opt_text(r) == match (self.cookie, seed) {
                (Some(cookie), _) => Some(cookie@),
                (None, Some(content)) => seed_cookie(
                    match json::spelled_json(content@) {
                        Ok(value) => Some(value),
                        Err(_) => None,
                    },
                    content@,
                ),
                (None, None) => None,
            },
    {
        match &self.cookie {
            Some(cookie) => Some(cookie.clone()),
            None => match seed {
                Some(content) => cookie_from_text(content),
                None => None,
            },
        }
    }

    /// Keeps the cookie that a login answered with, where it did.
    pub fn remember(&mut self, data: &Json)
        ensures
            match json::text_of(json::member(json::tree(*data), "cookie"@)) {
                Some(cookie) => final(self).cookie matches Some(x) && x@ == cookie,
                None => final(self).cookie == old(self).cookie,
            },
    {
        if let Some(cookie) = cookie_of_response(data) {
            self.cookie = Some(cookie);
        }
    }
}

// ----------------------------------------------------------------------- URLs

/// The parameters that have a value, and the cookie behind them.
pub open spec fn netease_pairs(
    params: Seq<(Seq<char>, Seq<char>)>,
    cookie: Option<Seq<char>>,
) -> Seq<(Seq<char>, Seq<char>)> {
    let given = params.filter(|p: (Seq<char>, Seq<char>)| p.1.len() > 0);
    match cookie {
        Some(cookie) => given.push(("cookie"@, cookie)),
        None => given,
    }
}

/// A URL of a service with a path and further parameters.
pub open spec fn service_url(
    base: Result<urls::UrlModel, Seq<char>>,
    path: Seq<char>,
    pairs: Seq<(Seq<char>, Seq<char>)>,
) -> Result<Seq<char>, Seq<char>> {
    match base {
        Err(e) => Err(e),
        Ok(url) => urls::edited(url.href, Some(path), false, pairs),
    }
}

/// Whether there is room for such a URL.
pub open spec fn service_room(
    base: Result<urls::UrlModel, Seq<char>>,
    path: Seq<char>,
    pairs: Seq<(Seq<char>, Seq<char>)>,
) -> bool {
    base matches Ok(url) ==> urls::edit_room(url.href, Some(path), false, pairs)
}

/// A URL of a service with a path and further parameters.
pub fn build_url(base: &str, path: &str, pairs: &Vec<(String, String)>) -> (r: Result<
    String,
    String,
>)
    requires
        service_room(urls::spelled_url(base@), path@, urls::pairs_of(pairs@)),
    ensures
        match service_url(urls::spelled_url(base@), path@, urls::pairs_of(pairs@)) {
            Ok(s) => r matches Ok(x) && x@ == s,
            Err(e) => r matches Err(x) && x@ == e,
        },
{
    match urls::parse_url(base) {
        Ok(url) => urls::edit_url(url.href.as_str(), Some(path), false, pairs),
        Err(e) => Err(e),
    }
}

/// A URL of a service with a path and further parameters; nothing where there is no
/// room for it.
pub fn checked_url(base: &str, path: &str, pairs: &Vec<(String, String)>) -> (r: Option<
    Result<String, String>,
>)
    ensures
        r is Some <==> service_room(urls::spelled_url(base@), path@, urls::pairs_of(pairs@)),
        r matches Some(made) ==> match service_url(
            urls::spelled_url(base@),
            path@,
            urls::pairs_of(pairs@),
        ) {
            Ok(s) => made matches Ok(x) && x@ == s,
            Err(e) => made matches Err(x) && x@ == e,
        },
{
    let fits: bool = match urls::parse_url(base) {
        Ok(url) => urls::has_edit_room(url.href.as_str(), Some(path), false, pairs),
        Err(_) => true,
    };
    if fits {
        Some(build_url(base, path, pairs))
    } else {
        None
    }
}

/// The parameters that have a value, and the cookie behind them.
pub fn netease_params(params: &Vec<(String, String)>, cookie: Option<&str>) -> (r: Vec<
    (String, String),
>)
    ensures
        urls::pairs_of(r@) == netease_pairs(
            urls::pairs_of(params@),
            crate::speech::opt_str(cookie),
        ),
{
    let ghost all = urls::pairs_of(params@);
    let ghost keep = |p: (Seq<char>, Seq<char>)| p.1.len() > 0;
    let mut out: Vec<(String, String)> = Vec::new();
    let mut i: usize = 0;
    proof {
        assert(all.take(0) =~= Seq::empty());
        reveal(Seq::filter);
        assert(urls::pairs_of(out@) =~= all.take(0).filter(keep));
    }
    while i < params.len()
        invariant
            i <= params@.len(),
            all == urls::pairs_of(params@),
            keep == (|p: (Seq<char>, Seq<char>)| p.1.len() > 0),
            urls::pairs_of(out@) == all.take(i as int).filter(keep),
        decreases params@.len() - i,
    {
        let ghost before = out@;
        proof {
            reveal(Seq::filter);
            assert(all.take(i + 1).drop_last() =~= all.take(i as int));
            assert(all.take(i + 1).last() == (params@[i as int].0@, params@[i as int].1@));
        }
        let name: &str = params[i].0.as_str();
        let value: &str = params[i].1.as_str();
        if !value.is_empty() {
            out.push(urls::pair(name, value));
            assert(urls::pairs_of(out@) =~= urls::pairs_of(before).push((name@, value@)));
        }
        i = i + 1;
    }
    assert(all.take(i as int) =~= all);
    if let Some(cookie) = cookie {
        let ghost before = out@;
        out.push(urls::pair("cookie", cookie));
        assert(urls::pairs_of(out@) =~= urls::pairs_of(before).push(("cookie"@, cookie@)));
    }
    out
}

/// The URL of a request to NetEase; nothing where there is no room for it.
pub fn netease_url(config: &NeteaseConfig, query: &Query, cookie: Option<&str>) -> (r: Option<
    Result<String, String>,
>)
    ensures
        ({
            let base = urls::spelled_url(config.api_base_url@);
            let pairs = netease_pairs(query@.params, crate::speech::opt_str(cookie));
            &&& r is Some <==> service_room(base, query@.path, pairs)
            &&& r matches Some(made) ==> match service_url(base, query@.path, pairs) {
                Ok(s) => made matches Ok(x) && x@ == s,
                Err(e) => made matches Err(x) && x@ == e,
            }
        }),
{
    let pairs: Vec<(String, String)> = netease_params(&query.params, cookie);
    checked_url(config.api_base_url.as_str(), query.path.as_str(), &pairs)
}

/// The MD5 digest of a text, in hexadecimal.
pub uninterp spec fn md5_of(s: Seq<char>) -> Seq<char>;

/// `md5::compute`, formatted in hexadecimal: a function of the text.
#[verifier::external_body]
fn md5_text(s: &str) -> (r: String)
    ensures
        r@ == md5_of(s@),
{
    format!("{:x}", md5::compute(s))
}

/// The salt that eight bytes spell, and the token that goes with it: the digest
/// of the password and the salt.
pub fn subsonic_token_from(password: &str, bytes: &[u8; 8]) -> (r: (String, String))
    ensures
        r.0@ == text::hex_bytes(bytes@),
        r.1@ == md5_of(password@ + r.0@),
{
    let salt: String = text::hex_text(bytes.as_slice());
    let mut salted: String = password.to_owned();
    salted.append(salt.as_str());
    let token: String = md5_text(salted.as_str());
    (salt, token)
}

/// A salt drawn at random, and the token that goes with it.
pub fn subsonic_token(password: &str) -> (r: (String, String))
    ensures
        r.0@.len() == 16,
        forall|i: int| 0 <= i < r.0@.len() ==> text::is_hex_lower(#[trigger] r.0@[i]),
        r.1@ == md5_of(password@ + r.0@),
{
    let drawn: [u8; 16] = crate::speech::random_bytes();
    let bytes: [u8; 8] = [
        drawn[0],
        drawn[1],
        drawn[2],
        drawn[3],
        drawn[4],
        drawn[5],
        drawn[6],
        drawn[7],
    ];
    proof {
        text::lemma_hex_bytes(bytes@);
    }
    subsonic_token_from(password, &bytes)
}

/// The credentials that every request to Navidrome carries.
pub open spec fn navidrome_credentials(
    config: NavidromeConfig,
    salt: Seq<char>,
    token: Seq<char>,
) -> Seq<(Seq<char>, Seq<char>)> {
    seq![
        ("u"@, config.username@),
        ("t"@, token),
        ("s"@, salt),
        ("v"@, config.api_version@),
        ("c"@, "dodo-edge"@),
        ("f"@, "json"@),
    ]
}

/// The URL of a request to Navidrome under a salt and its token; nothing where there
/// is no room for it.
pub fn navidrome_url_with(
    config: &NavidromeConfig,
    query: &Query,
    salt: &str,
    token: &str,
) -> (r: Option<Result<String, String>>)
    ensures
        ({
            let base = urls::spelled_url(config.base_url@);
            let pairs = navidrome_credentials(*config, salt@, token@) + query@.params;
            &&& r is Some <==> service_room(base, query@.path, pairs)
            &&& r matches Some(made) ==> match service_url(base, query@.path, pairs) {
                Ok(s) => made matches Ok(x) && x@ == s,
                Err(e) => made matches Err(x) && x@ == e,
            }
        }),
{
    let mut pairs: Vec<(String, String)> = Vec::new();
    pairs.push(urls::pair("u", config.username.as_str()));
    pairs.push(urls::pair("t", token));
    pairs.push(urls::pair("s", salt));
    pairs.push(urls::pair("v", config.api_version.as_str()));
    pairs.push(urls::pair("c", "dodo-edge"));
    pairs.push(urls::pair("f", "json"));
    let ghost all = query@.params;
    let ghost head = navidrome_credentials(*config, salt@, token@);
    assert(urls::pairs_of(pairs@) =~= head + all.take(0));
    let mut i: usize = 0;
    while i < query.params.len()
        invariant
            i <= query.params@.len(),
            all == urls::pairs_of(query.params@),
            urls::pairs_of(pairs@) == head + all.take(i as int),
        decreases query.params@.len() - i,
    {
        let ghost before = pairs@;
        pairs.push(urls::pair(query.params[i].0.as_str(), query.params[i].1.as_str()));
        assert(urls::pairs_of(pairs@) =~= urls::pairs_of(before).push(all[i as int]));
        assert(all.take(i + 1) =~= all.take(i as int).push(all[i as int]));
        assert(head + all.take(i + 1) =~= (head + all.take(i as int)).push(all[i as int]));
        i = i + 1;
    }
    assert(all.take(i as int) =~= all);
    checked_url(config.base_url.as_str(), query.path.as_str(), &pairs)
}

/// The URL of a request to Navidrome, under a salt drawn at random; nothing where
/// there is no room for it.
pub fn navidrome_url(config: &NavidromeConfig, query: &Query) -> (r: Option<
    Result<String, String>,
>)
    ensures
        exists|salt: Seq<char>|
            {
                let base = urls::spelled_url(config.base_url@);
                let pairs = #[trigger] navidrome_credentials(
                    *config,
                    salt,
                    md5_of(config.password@ + salt),
                ) + query@.params;
                &&& salt.len() == 16
                &&& r is Some <==> service_room(base, query@.path, pairs)
                &&& r matches Some(made) ==> match service_url(base, query@.path, pairs) {
                    Ok(s) => made matches Ok(x) && x@ == s,
                    Err(e) => made matches Err(x) && x@ == e,
                }
            },
{
    let (salt, token): (String, String) = subsonic_token(config.password.as_str());
    let r: Option<Result<String, String>> = navidrome_url_with(
        config,
        query,
        salt.as_str(),
        token.as_str(),
    );
    assert(token@ == md5_of(config.password@ + salt@));
    r
}

/// How Navidrome is asked for the audio of a song.
pub fn stream_query(song_id: &str) -> (r: Query)
    ensures
        r@ == (QueryModel { path: "/rest/stream.view"@, params: seq![("id"@, song_id@)] }),
{
    let mut params: Vec<(String, String)> = Vec::new();
    params.push(urls::pair("id", song_id));
    assert(urls::pairs_of(params@) =~= seq![("id"@, song_id@)]);
    Query { path: "/rest/stream.view".to_owned(), params }
}

// --------------------------------------------------------- the NetEase server

/// Where it can be seen whether the NetEase server runs.
pub fn netease_status_url(config: &NeteaseConfig) -> (r: String)
    ensures
        r@ == text::without_trailing(config.api_base_url@, '/') + "/login/status"@,
{
    let mut url: String = text::trim_end_char(config.api_base_url.as_str(), '/');
    url.append("/login/status");
    url
}

/// Whether the NetEase server is to be started: an error where it is not there
/// and cannot be.
pub fn netease_server_plan(config: &NeteaseConfig, reachable: bool, started: bool) -> (r: Result<
    bool,
    String,
>)
    ensures
        match r {
            Ok(start) => if reachable {
                !start
            } else {
                config.auto_start && start == !started && (start ==> config.start_command@.len()
                    > 0)
            },
            Err(e) => !reachable && if !config.auto_start {
                e@ == "Netease API is not reachable"@
            } else {
                !started && config.start_command@.len() == 0 && e@
                    == "music.netease.start_command is empty"@
            },
        },
{
    if reachable {
        return Ok(false);
    }
    if !config.auto_start {
        return Err("Netease API is not reachable".to_owned());
    }
    if started {
        return Ok(false);
    }
    if config.start_command.len() == 0 {
        return Err("music.netease.start_command is empty".to_owned());
    }
    Ok(true)
}

/// The port that the NetEase server is to listen on, where its URL gives one.
pub fn netease_port(config: &NeteaseConfig) -> (r: Option<u16>)
    ensures
        r == match urls::spelled_url(config.api_base_url@) {
            Ok(url) => url.port,
            Err(_) => None,
        },
{
    match urls::parse_url(config.api_base_url.as_str()) {
        Ok(url) => url.port,
        Err(_) => None,
    }
}

// ----------------------------------------------------------------------- laws

/// What is sent to NetEase: every parameter that has a value, in order and once, none
/// that has not, and the cookie behind them where there is one.
pub proof fn law_given_parameters_are_sent(
    params: Seq<(Seq<char>, Seq<char>)>,
    name: Seq<char>,
    value: Seq<char>,
    cookie: Seq<char>,
)
    ensures
        netease_pairs(Seq::empty(), None).len() == 0,
        netease_pairs(params.push((name, value)), None) == if value.len() > 0 {
            netease_pairs(params, None).push((name, value))
        } else {
            netease_pairs(params, None)
        },
        netease_pairs(params, Some(cookie)) == netease_pairs(params, None).push(
            ("cookie"@, cookie),
        ),
{
    reveal(Seq::filter);
    assert(params.push((name, value)).drop_last() =~= params);
}

/// What every request to Navidrome carries: who asks, the token and the salt that it
/// was made with, the version, and that JSON is wanted. The password is not sent.
pub proof fn law_navidrome_requests_carry(config: NavidromeConfig, salt: Seq<char>)
    ensures
        ({
            let sent = navidrome_credentials(config, salt, md5_of(config.password@ + salt));
            &&& sent.len() == 6
            &&& sent[0] == ("u"@, config.username@)
            &&& sent[1] == ("t"@, md5_of(config.password@ + salt))
            &&& sent[2] == ("s"@, salt)
            &&& sent[3] == ("v"@, config.api_version@)
            &&& sent[4] == ("c"@, "dodo-edge"@)
            &&& sent[5] == ("f"@, "json"@)
        }),
{
}

/// How the services are asked for songs: by their own paths and names, with the words
/// as they are and the number of songs that may be found.
pub proof fn law_searches_ask_for_the_words(query: Seq<char>, limit: nat)
    ensures
        ({
            let netease = search_query_of(Provider::Netease, query, limit);
            let navidrome = search_query_of(Provider::Navidrome, query, limit);
            let drawn = random_query_of(Provider::Navidrome, limit);
            &&& netease.path == "/cloudsearch"@
            &&& netease.params == seq![("keywords"@, query), ("limit"@, text::decimal(limit))]
            &&& navidrome.path == "/rest/search3.view"@
            &&& navidrome.params == seq![
                ("query"@, query),
                ("songCount"@, text::decimal(limit)),
                ("artistCount"@, "3"@),
                ("albumCount"@, "3"@),
            ]
            &&& drawn.path == "/rest/getRandomSongs.view"@
            &&& drawn.params == seq![("size"@, text::decimal(limit))]
            &&& random_query_of(Provider::Netease, limit) == search_query_of(
                Provider::Netease,
                Seq::empty(),
                limit,
            )
        }),
{
}

/// Which service is asked. Music that is turned off is not searched for; only the two
/// services are known; and single songs come from NetEase unless Navidrome is set.
pub proof fn law_known_services_are_asked(config: MusicConfig)
    ensures
        !config.enabled ==> search_provider_of(config) == Err::<Provider, Seq<char>>(
            "music.enabled is false"@,
        ),
        config.enabled && config.provider@ == "netease"@ ==> search_provider_of(config) == Ok::<
            Provider,
            Seq<char>,
        >(Provider::Netease),
        config.enabled && config.provider@ == "navidrome"@ ==> search_provider_of(config) == Ok::<
            Provider,
            Seq<char>,
        >(Provider::Navidrome),
        config.enabled && config.provider@ != "netease"@ && config.provider@ != "navidrome"@
            ==> search_provider_of(config) == Err::<Provider, Seq<char>>(
            "Unsupported music provider: "@ + config.provider@,
        ),
        song_provider_of(config) == if config.provider@ == "navidrome"@ {
            Provider::Navidrome
        } else {
            Provider::Netease
        },
{
    reveal_strlit("navidrome");
    reveal_strlit("netease");
    assert("navidrome"@.len() == 9 && "netease"@.len() == 7);
}

/// The cookie that a file holds: the member of that name, as it is; else all of the
/// file without white space around it. Nothing is no cookie.
pub proof fn law_seeds_hold_cookies(value: JsonTree, cookie: Seq<char>, content: Seq<char>)
    ensures
        json::member(value, "cookie"@) == Some(JsonTree::Text(cookie)) && cookie.len() > 0
            ==> seed_cookie(Some(value), content) == Some(cookie),
        json::member(value, "cookie"@) is None && text::trimmed(content).len() > 0 ==> seed_cookie(
            Some(value),
            content,
        ) == Some(text::trimmed(content)),
        text::trimmed(content).len() > 0 ==> seed_cookie(None, content) == Some(
            text::trimmed(content),
        ),
        text::trimmed(content).len() == 0 ==> seed_cookie(None, content) is None,
{
}

/// Who logs in: the telephone number where one is given, else the account, without
/// white space around it.
pub proof fn law_phone_comes_first(config: NeteaseConfig)
    ensures
        text::trimmed(config.phone@).len() > 0 ==> phone_of(config) == text::trimmed(config.phone@),
        text::trimmed(config.phone@).len() == 0 ==> phone_of(config) == text::trimmed(
            config.account@,
        ),
{
}

/// The URL of a request is that of the service with its path in place of its own, and
/// its parameters behind those of the service, none of which is lost.
pub proof fn law_requests_go_to_the_service(
    url: urls::UrlModel,
    path: Seq<char>,
    moved: Seq<char>,
    pairs: Seq<(Seq<char>, Seq<char>)>,
    e: Seq<char>,
)
    ensures
        urls::url_with_path(url.href, path) == Ok::<Seq<char>, Seq<char>>(moved) ==> service_url(
            Ok(url),
            path,
            pairs,
        ) == urls::url_with_pairs(moved, pairs),
        service_url(Err(e), path, pairs) == Err::<Seq<char>, Seq<char>>(e),
{
}

/// What was done is told under its name as true; what was not, as false, with the
/// reason.
pub proof fn law_outcomes_are_told(name: Seq<char>, e: String)
    ensures
        outcome_tree(name, Ok(())) == JsonTree::Object(seq![(name, JsonTree::Bool(true))]),
        outcome_tree(name, Err(e)) == JsonTree::Object(
            seq![(name, JsonTree::Bool(false)), ("error"@, JsonTree::Text(e@))],
        ),
        error_tree(e@) == JsonTree::Object(seq![("error"@, JsonTree::Text(e@))]),
{
}

} // verus!
