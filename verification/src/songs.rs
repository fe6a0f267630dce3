//! Songs as the music services describe them.
use vstd::prelude::*;
use crate::json;
use crate::json::{Json, JsonTree, NumberTree};
use crate::text;

verus! {

/// A song.
#[derive(Debug)]
pub struct Song {
    pub id: String,
    pub name: String,
    pub artists: Vec<String>,
    pub album: String,
    pub duration_ms: Option<u64>,
    pub fee: Option<Json>,
}

/// A song, as a mathematical value.
pub struct SongModel {
    pub id: Seq<char>,
    pub name: Seq<char>,
    pub artists: Seq<Seq<char>>,
    pub album: Seq<char>,
    pub duration_ms: Option<u64>,
    pub fee: Option<JsonTree>,
}

impl View for Song {
    type V = SongModel;

    open spec fn view(&self) -> SongModel {
        SongModel {
            id: self.id@,
            name: self.name@,
            artists: text::texts(self.artists@),
            album: self.album@,
            duration_ms: self.duration_ms,
            fee: match self.fee {
                Some(fee) => Some(json::tree(fee)),
                None => None,
            },
        }
    }
}

/// A list of songs as mathematical values.
pub open spec fn song_models(songs: Seq<Song>) -> Seq<SongModel> {
    songs.map_values(|s: Song| s@)
}

impl Song {
    /// A copy.
    pub fn copy(&self) -> (r: Song)
        ensures
            r@ == self@,
    {
        Song {
            id: self.id.clone(),
            name: self.name.clone(),
            artists: text::copy_texts(&self.artists),
            album: self.album.clone(),
            duration_ms: self.duration_ms,
            fee: match &self.fee {
                Some(fee) => Some(fee.copy()),
                None => None,
            },
        }
    }
}

/// A song of which only the identifier is known.
pub open spec fn bare_song(id: Seq<char>) -> SongModel {
    SongModel {
        id,
        name: id,
        artists: Seq::empty(),
        album: Seq::empty(),
        duration_ms: None,
        fee: None,
    }
}

/// A song of which only the identifier is known.
pub fn song_by_id(id: &str) -> (r: Song)
    ensures
        r@ == bare_song(id@),
{
    let r = Song {
        id: id.to_owned(),
        name: id.to_owned(),
        artists: Vec::new(),
        album: String::new(),
        duration_ms: None,
        fee: None,
    };
    assert(r@.artists =~= Seq::empty());
    r
}

// --------------------------------------------------------------------- as JSON

/// An optional number as a JSON value.
pub open spec fn number_tree(value: Option<u64>) -> JsonTree {
    match value {
        Some(n) => JsonTree::Number(NumberTree::Unsigned(n)),
        None => JsonTree::Null,
    }
}

/// Texts as a JSON value.
pub open spec fn texts_tree(items: Seq<Seq<char>>) -> JsonTree {
    JsonTree::List(items.map_values(|s: Seq<char>| JsonTree::Text(s)))
}

/// A song as a JSON value.
pub open spec fn song_tree(song: SongModel) -> JsonTree {
    JsonTree::Object(
        seq![
            ("id"@, JsonTree::Text(song.id)),
            ("name"@, JsonTree::Text(song.name)),
            ("artists"@, texts_tree(song.artists)),
            ("album"@, JsonTree::Text(song.album)),
            ("duration_ms"@, number_tree(song.duration_ms)),
            (
                "fee"@,
                match song.fee {
                    Some(fee) => fee,
                    None => JsonTree::Null,
                },
            ),
        ],
    )
}

/// Songs as a JSON value.
pub open spec fn songs_tree(songs: Seq<SongModel>) -> JsonTree {
    JsonTree::List(songs.map_values(|s: SongModel| song_tree(s)))
}

fn texts_json(items: &Vec<String>) -> (r: Json)
    ensures
        json::tree(r) == texts_tree(text::texts(items@)),
{
    let mut out: Vec<Json> = Vec::new();
    let mut i: usize = 0;
    while i < items.len()
        invariant
            i <= items@.len(),
            out@.len() == i,
            forall|j: int|
                0 <= j < i ==> json::tree(#[trigger] out@[j]) == JsonTree::Text(items@[j]@),
        decreases items@.len() - i,
    {
        out.push(json::text_json(items[i].as_str()));
        i = i + 1;
    }
    assert(json::list_tree(out@) =~= texts_tree(text::texts(items@))->List_0);
    json::list(out)
}

/// A song as a JSON value.
pub fn song_json(song: &Song) -> (r: Json)
    ensures
        json::tree(r) == song_tree(song@),
{
    let mut out: Vec<(String, Json)> = Vec::new();
    out.push(json::entry("id", json::text_json(song.id.as_str())));
    out.push(json::entry("name", json::text_json(song.name.as_str())));
    out.push(json::entry("artists", texts_json(&song.artists)));
    out.push(json::entry("album", json::text_json(song.album.as_str())));
    out.push(
        json::entry(
            "duration_ms",
            match song.duration_ms {
                Some(n) => json::number_json(n),
                None => Json::Null,
            },
        ),
    );
    out.push(
        json::entry(
            "fee",
            match &song.fee {
                Some(fee) => fee.copy(),
                None => Json::Null,
            },
        ),
    );
    assert(json::members_tree(out@) =~= song_tree(song@)->Object_0);
    json::object(out)
}

/// Songs as a JSON value.
pub fn songs_json(songs: &Vec<Song>) -> (r: Json)
    ensures
        json::tree(r) == songs_tree(song_models(songs@)),
{
    let mut out: Vec<Json> = Vec::new();
    let mut i: usize = 0;
    while i < songs.len()
        invariant
            i <= songs@.len(),
            out@.len() == i,
            forall|j: int| 0 <= j < i ==> json::tree(#[trigger] out@[j]) == song_tree(songs@[j]@),
        decreases songs@.len() - i,
    {
        out.push(song_json(&songs[i]));
        i = i + 1;
    }
    assert(json::list_tree(out@) =~= songs_tree(song_models(songs@))->List_0);
    json::list(out)
}

// ------------------------------------------------------------------- from JSON

/// A value as a text: a text itself, else the way it is written without quotation
/// marks around it.
pub open spec fn shown_value(value: JsonTree) -> Seq<char> {
    match value {
        JsonTree::Text(s) => s,
        _ => text::without_trailing(
            text::without_leading(json::written_json(value), '"'),
            '"',
        ),
    }
}

/// A value as a text.
pub fn value_string(value: &Json) -> (r: String)
    ensures
        r@ == shown_value(json::tree(*value)),
{
    match value {
        Json::Text(s) => s.clone(),
        _ => text::trim_char(json::json_text(value).as_str(), '"'),
    }
}

/// A member as a text; one that is not there counts as null.
pub open spec fn shown_member(item: JsonTree, name: Seq<char>) -> Seq<char> {
    shown_value(
        match json::member(item, name) {
            Some(value) => value,
            None => JsonTree::Null,
        },
    )
}

fn member_string(item: &Json, name: &str) -> (r: String)
    ensures
        r@ == shown_member(json::tree(*item), name@),
{
    match item.get(name) {
        Some(value) => value_string(value),
        None => value_string(&Json::Null),
    }
}

/// The texts under a name in those items of a list that have one.
pub open spec fn names_in(items: Seq<JsonTree>, name: Seq<char>) -> Seq<Seq<char>>
    decreases items.len(),
{
    if items.len() == 0 {
        Seq::empty()
    } else {
        let before = names_in(items.drop_last(), name);
        match json::text_of(json::member(items.last(), name)) {
            Some(s) => before.push(s),
            None => before,
        }
    }
}

/// The names in an optional list of artists.
pub open spec fn artists_of(value: Option<JsonTree>) -> Seq<Seq<char>> {
    match json::list_of(value) {
        Some(items) => names_in(items, "name"@),
        None => Seq::empty(),
    }
}

fn artist_names(value: Option<&Json>) -> (r: Vec<String>)
    ensures
        text::texts(r@) == artists_of(json::opt_tree(value)),
{
    let mut out: Vec<String> = Vec::new();
    assert(text::texts(out@) =~= Seq::empty());
    if let Some(items) = json::array_of(value) {
        let ghost all = json::list_tree(items@);
        let mut i: usize = 0;
        assert(all.take(0) =~= Seq::empty());
        while i < items.len()
            invariant
                i <= items@.len(),
                all == json::list_tree(items@),
                text::texts(out@) == names_in(all.take(i as int), "name"@),
            decreases items@.len() - i,
        {
            let ghost before = out@;
            assert(all.take(i + 1).drop_last() =~= all.take(i as int));
            assert(all.take(i + 1).last() == json::tree(items@[i as int]));
            if let Some(name) = json::str_of(items[i].get("name")) {
                out.push(name);
                assert(text::texts(out@) =~= text::texts(before).push(name@));
            }
            i = i + 1;
        }
        assert(all.take(i as int) =~= all);
    }
    out
}

/// A text, or nothing.
pub open spec fn or_empty(value: Option<Seq<char>>) -> Seq<char> {
    match value {
        Some(s) => s,
        None => Seq::empty(),
    }
}

fn str_or_empty(value: Option<&Json>) -> (r: String)
    ensures
        r@ == or_empty(json::text_of(json::opt_tree(value))),
{
    match json::str_of(value) {
        Some(s) => s,
        None => String::new(),
    }
}

/// A song as NetEase describes it.
pub open spec fn netease_song(item: JsonTree) -> SongModel {
    SongModel {
        id: shown_member(item, "id"@),
        name: shown_member(item, "name"@),
        artists: artists_of(
            json::either(json::member(item, "ar"@), json::member(item, "artists"@)),
        ),
        album: or_empty(
            json::text_of(
                json::member_of(
                    json::either(json::member(item, "al"@), json::member(item, "album"@)),
                    "name"@,
                ),
            ),
        ),
        duration_ms: json::u64_of(
            json::either(json::member(item, "dt"@), json::member(item, "duration"@)),
        ),
        fee: json::member(item, "fee"@),
    }
}

/// Reads a song as NetEase describes it.
pub fn parse_netease_song(item: &Json) -> (r: Song)
    ensures
        r@ == netease_song(json::tree(*item)),
{
    Song {
        id: member_string(item, "id"),
        name: member_string(item, "name"),
        artists: artist_names(json::get_either(item, "ar", "artists")),
        album: str_or_empty(json::get_of(json::get_either(item, "al", "album"), "name")),
        duration_ms: match json::get_either(item, "dt", "duration") {
            Some(value) => value.as_u64(),
            None => None,
        },
        fee: match item.get("fee") {
            Some(fee) => Some(fee.copy()),
            None => None,
        },
    }
}

/// The artists of a song as Navidrome describes it: a list, else one name.
pub open spec fn navidrome_artists(item: JsonTree) -> Seq<Seq<char>> {
    let listed = artists_of(json::member(item, "artists"@));
    if listed.len() > 0 {
        listed
    } else {
        match json::text_of(json::member(item, "artist"@)) {
            Some(artist) => seq![artist],
            None => listed,
        }
    }
}

/// A song as Navidrome describes it. It counts durations in seconds; milliseconds
/// are counted in 64 bits.
pub open spec fn navidrome_song(item: JsonTree) -> SongModel {
    SongModel {
        id: shown_member(item, "id"@),
        name: or_empty(
            json::text_of(
                json::either(json::member(item, "title"@), json::member(item, "name"@)),
            ),
        ),
        artists: navidrome_artists(item),
        album: or_empty(json::text_of(json::member(item, "album"@))),
        duration_ms: match json::u64_of(json::member(item, "duration"@)) {
            Some(seconds) => Some((seconds as int * 1000 % 0x1_0000_0000_0000_0000) as u64),
            None => None,
        },
        fee: None,
    }
}

/// Reads a song as Navidrome describes it.
pub fn parse_navidrome_song(item: &Json) -> (r: Song)
    ensures
        r@ == navidrome_song(json::tree(*item)),
{
    let mut artists: Vec<String> = artist_names(item.get("artists"));
    if artists.len() == 0 {
        if let Some(artist) = json::str_of(item.get("artist")) {
            artists.push(artist);
            assert(text::texts(artists@) =~= seq![artist@]);
        }
    }
    let duration_ms: Option<u64> = match item.get("duration") {
        Some(value) => match value.as_u64() {
            Some(seconds) => Some((seconds as u128 * 1000 % 0x1_0000_0000_0000_0000) as u64),
            None => None,
        },
        None => None,
    };
    Song {
        id: member_string(item, "id"),
        name: str_or_empty(json::get_either(item, "title", "name")),
        artists,
        album: str_or_empty(item.get("album")),
        duration_ms,
        fee: None,
    }
}

/// The music services.
#[derive(Debug, Clone, Copy, PartialEq, Eq, Structural)]
pub enum Provider {
    Netease,
    Navidrome,
}

/// A song as a service describes it.
pub open spec fn provider_song(provider: Provider, item: JsonTree) -> SongModel {
    match provider {
        Provider::Netease => netease_song(item),
        Provider::Navidrome => navidrome_song(item),
    }
}

/// The songs in an optional list, as a service describes them.
pub open spec fn provider_songs(provider: Provider, value: Option<JsonTree>) -> Seq<SongModel> {
    match json::list_of(value) {
        Some(items) => items.map_values(|item: JsonTree| provider_song(provider, item)),
        None => Seq::empty(),
    }
}

/// Reads the songs in an optional list.
pub fn parse_songs(provider: Provider, value: Option<&Json>) -> (r: Vec<Song>)
    ensures
        song_models(r@) == provider_songs(provider, json::opt_tree(value)),
{
    let mut out: Vec<Song> = Vec::new();
    assert(song_models(out@) =~= Seq::empty());
    if let Some(items) = json::array_of(value) {
        let mut i: usize = 0;
        while i < items.len()
            invariant
                i <= items@.len(),
                out@.len() == i,
                forall|j: int|
                    0 <= j < i ==> (#[trigger] out@[j])@ == provider_song(
                        provider,
                        json::tree(items@[j]),
                    ),
            decreases items@.len() - i,
        {
            let song: Song = match provider {
                Provider::Netease => parse_netease_song(&items[i]),
                Provider::Navidrome => parse_navidrome_song(&items[i]),
            };
            out.push(song);
            i = i + 1;
        }
        assert(song_models(out@) =~= provider_songs(provider, json::opt_tree(value)));
    }
    out
}

/// The songs that a search found.
pub open spec fn found_songs(provider: Provider, data: JsonTree) -> Seq<SongModel> {
    match provider {
        Provider::Netease => provider_songs(
            provider,
            json::member_of(json::member(data, "result"@), "songs"@),
        ),
        Provider::Navidrome => provider_songs(
            provider,
            json::member_of(json::member(data, "searchResult3"@), "song"@),
        ),
    }
}

/// Reads the songs that a search found.
pub fn search_songs(provider: Provider, data: &Json) -> (r: Vec<Song>)
    ensures
        song_models(r@) == found_songs(provider, json::tree(*data)),
{
    match provider {
        Provider::Netease => parse_songs(provider, json::get_of(data.get("result"), "songs")),
        Provider::Navidrome => parse_songs(
            provider,
            json::get_of(data.get("searchResult3"), "song"),
        ),
    }
}

/// The songs that were drawn at random; NetEase draws none, it searches.
pub open spec fn drawn_songs(provider: Provider, data: JsonTree) -> Seq<SongModel> {
    match provider {
        Provider::Netease => found_songs(provider, data),
        Provider::Navidrome => provider_songs(
            provider,
            json::member_of(json::member(data, "randomSongs"@), "song"@),
        ),
    }
}

/// Reads the songs that were drawn at random.
pub fn random_songs(provider: Provider, data: &Json) -> (r: Vec<Song>)
    ensures
        song_models(r@) == drawn_songs(provider, json::tree(*data)),
{
    match provider {
        Provider::Netease => search_songs(provider, data),
        Provider::Navidrome => parse_songs(provider, json::get_of(data.get("randomSongs"), "song")),
    }
}

/// Reads the song that Navidrome was asked for.
pub fn song_detail(data: &Json) -> (r: Result<Song, String>)
    ensures
        match json::member(json::tree(*data), "song"@) {
            Some(item) => r matches Ok(song) && song@ == navidrome_song(item),
            None => r matches Err(e) && e@ == "song detail not found"@,
        },
{
    match data.get("song") {
        Some(item) => Ok(parse_navidrome_song(item)),
        None => Err("song detail not found".to_owned()),
    }
}

/// Where NetEase says that a song can be played from.
pub open spec fn netease_play_url(data: JsonTree) -> Option<Seq<char>> {
    match json::list_of(json::member(data, "data"@)) {
        Some(items) if items.len() > 0 => json::text_of(json::member(items[0], "url"@)),
        _ => None,
    }
}

/// Reads where NetEase says that a song can be played from.
pub fn netease_song_url(data: &Json) -> (r: Result<String, String>)
    ensures
        match netease_play_url(json::tree(*data)) {
            Some(url) => r matches Ok(x) && x@ == url,
            None => r matches Err(e) && e@ == "song has no playable url"@,
        },
{
    if let Some(items) = json::array_of(data.get("data")) {
        if items.len() > 0 {
            assert(json::list_tree(items@)[0] == json::tree(items@[0]));
            if let Some(url) = json::str_of(items[0].get("url")) {
                return Ok(url);
            }
        }
    }
    Err("song has no playable url".to_owned())
}

/// What Navidrome answered, or why it refused.
pub open spec fn navidrome_answer(data: JsonTree) -> Result<JsonTree, Seq<char>> {
    match json::member(data, "subsonic-response"@) {
        None => Err("Invalid Navidrome response"@),
        Some(response) => if json::text_of(json::member(response, "status"@)) == Some("ok"@) {
            Ok(response)
        } else {
            match json::text_of(json::member_of(json::member(response, "error"@), "message"@)) {
                Some(message) => Err(message),
                None => Err("Navidrome request failed"@),
            }
        },
    }
}

/// Reads what Navidrome answered.
pub fn navidrome_response(data: &Json) -> (r: Result<Json, String>)
    ensures
        match navidrome_answer(json::tree(*data)) {
            Ok(response) => r matches Ok(x) && json::tree(x) == response,
            Err(e) => r matches Err(x) && x@ == e,
        },
{
    let response: &Json = match data.get("subsonic-response") {
        Some(response) => response,
        None => {
            return Err("Invalid Navidrome response".to_owned());
        },
    };
    if let Some(status) = json::str_of(response.get("status")) {
        if text::same_text(status.as_str(), "ok") {
            return Ok(response.copy());
        }
    }
    match json::str_of(json::get_of(response.get("error"), "message")) {
        Some(message) => Err(message),
        None => Err("Navidrome request failed".to_owned()),
    }
}

// ----------------------------------------------------------------------- laws

/// The names of members differ.
proof fn lemma_names_differ()
    ensures
        "id"@.len() == 2 && "id"@[0] == 'i',
        "ar"@.len() == 2 && "ar"@[0] == 'a' && "ar"@[1] == 'r',
        "al"@.len() == 2 && "al"@[0] == 'a' && "al"@[1] == 'l',
        "dt"@.len() == 2 && "dt"@[0] == 'd',
        "fee"@.len() == 3,
        "name"@.len() == 4,
        "album"@.len() == 5 && "album"@[0] == 'a',
        "title"@.len() == 5 && "title"@[0] == 't',
        "artist"@.len() == 6,
        "artists"@.len() == 7,
        "duration"@.len() == 8,
        "duration_ms"@.len() == 11,
{
    reveal_strlit("id");
    reveal_strlit("ar");
    reveal_strlit("al");
    reveal_strlit("dt");
    reveal_strlit("fee");
    reveal_strlit("name");
    reveal_strlit("album");
    reveal_strlit("title");
    reveal_strlit("artist");
    reveal_strlit("artists");
    reveal_strlit("duration");
    reveal_strlit("duration_ms");
}

/// Artists as the services describe them.
pub open spec fn artist_list(names: Seq<Seq<char>>) -> JsonTree {
    JsonTree::List(
        names.map_values(|name: Seq<char>| JsonTree::Object(seq![("name"@, JsonTree::Text(name))])),
    )
}

proof fn lemma_artists(names: Seq<Seq<char>>)
    ensures
        artists_of(Some(artist_list(names))) == names,
    decreases names.len(),
{
    let items = artist_list(names)->List_0;
    if names.len() == 0 {
        assert(names =~= Seq::empty());
    } else {
        lemma_artists(names.drop_last());
        assert(items.drop_last() =~= artist_list(names.drop_last())->List_0);
        reveal_with_fuel(json::member_from, 2);
        assert(names.drop_last().push(names.last()) =~= names);
    }
}

/// A song that NetEase describes is read back whole, under the short names that it
/// uses or the long ones: identifier, name, all artists in order, album, duration in
/// milliseconds, and fee.
pub proof fn law_netease_songs_are_read(song: SongModel, fee: JsonTree, ms: u64)
    requires
        song.fee == Some(fee),
        song.duration_ms == Some(ms),
    ensures
        netease_song(
            JsonTree::Object(
                seq![
                    ("id"@, JsonTree::Text(song.id)),
                    ("name"@, JsonTree::Text(song.name)),
                    ("ar"@, artist_list(song.artists)),
                    ("al"@, JsonTree::Object(seq![("name"@, JsonTree::Text(song.album))])),
                    ("dt"@, JsonTree::Number(NumberTree::Unsigned(ms))),
                    ("fee"@, fee),
                ],
            ),
        ) == song,
        netease_song(
            JsonTree::Object(
                seq![
                    ("id"@, JsonTree::Text(song.id)),
                    ("name"@, JsonTree::Text(song.name)),
                    ("artists"@, artist_list(song.artists)),
                    ("album"@, JsonTree::Object(seq![("name"@, JsonTree::Text(song.album))])),
                    ("duration"@, JsonTree::Number(NumberTree::Unsigned(ms))),
                    ("fee"@, fee),
                ],
            ),
        ) == song,
{
    lemma_names_differ();
    lemma_artists(song.artists);
    reveal_with_fuel(json::member_from, 7);
}

/// A song that Navidrome describes is read back: its title, all artists in order or
/// else the one, the album, and the duration, which is given in seconds and kept in
/// milliseconds. There is no fee.
pub proof fn law_navidrome_songs_are_read(song: SongModel, seconds: u64, artist: Seq<char>)
    requires
        song.fee is None,
        seconds * 1000 <= u64::MAX,
        song.duration_ms == Some((seconds * 1000) as u64),
    ensures
        song.artists.len() > 0 ==> navidrome_song(
            JsonTree::Object(
                seq![
                    ("id"@, JsonTree::Text(song.id)),
                    ("title"@, JsonTree::Text(song.name)),
                    ("artists"@, artist_list(song.artists)),
                    ("artist"@, JsonTree::Text(artist)),
                    ("album"@, JsonTree::Text(song.album)),
                    ("duration"@, JsonTree::Number(NumberTree::Unsigned(seconds))),
                ],
            ),
        ) == song,
        song.artists == seq![artist] ==> navidrome_song(
            JsonTree::Object(
                seq![
                    ("id"@, JsonTree::Text(song.id)),
                    ("name"@, JsonTree::Text(song.name)),
                    ("artist"@, JsonTree::Text(artist)),
                    ("album"@, JsonTree::Text(song.album)),
                    ("duration"@, JsonTree::Number(NumberTree::Unsigned(seconds))),
                ],
            ),
        ) == song,
{
    lemma_names_differ();
    lemma_artists(song.artists);
    reveal_with_fuel(json::member_from, 7);
}

/// A song that is told holds all that is known of it, under the same names whichever
/// service it comes from; what is not known is null.
pub proof fn law_songs_are_told_whole(song: SongModel)
    ensures
        ({
            let told = |name: Seq<char>| json::member(song_tree(song), name);
            &&& told("id"@) == Some(JsonTree::Text(song.id))
            &&& told("name"@) == Some(JsonTree::Text(song.name))
            &&& told("album"@) == Some(JsonTree::Text(song.album))
            &&& told("artists"@) == Some(
                JsonTree::List(song.artists.map_values(|s: Seq<char>| JsonTree::Text(s))),
            )
            &&& song.duration_ms matches Some(ms) ==> told("duration_ms"@) == Some(
                JsonTree::Number(NumberTree::Unsigned(ms)),
            )
            &&& song.duration_ms is None ==> told("duration_ms"@) == Some(JsonTree::Null)
            &&& song.fee matches Some(fee) ==> told("fee"@) == Some(fee)
            &&& song.fee is None ==> told("fee"@) == Some(JsonTree::Null)
        }),
{
    lemma_names_differ();
    reveal_with_fuel(json::member_from, 7);
}

/// What a search or a draw found stands where the services put it, and every song is
/// read, in order.
pub proof fn law_found_songs_are_read(items: Seq<JsonTree>, i: int)
    requires
        0 <= i < items.len(),
    ensures
        ({
            let under = |outer: Seq<char>, inner: Seq<char>|
                JsonTree::Object(
                    seq![(outer, JsonTree::Object(seq![(inner, JsonTree::List(items))]))],
                );
            let netease = found_songs(Provider::Netease, under("result"@, "songs"@));
            let navidrome = found_songs(Provider::Navidrome, under("searchResult3"@, "song"@));
            let drawn = drawn_songs(Provider::Navidrome, under("randomSongs"@, "song"@));
            &&& netease.len() == items.len() && netease[i] == netease_song(items[i])
            &&& navidrome.len() == items.len() && navidrome[i] == navidrome_song(items[i])
            &&& drawn.len() == items.len() && drawn[i] == navidrome_song(items[i])
            &&& drawn_songs(Provider::Netease, under("result"@, "songs"@)) == netease
        }),
{
    reveal_with_fuel(json::member_from, 2);
}

/// Where NetEase says that a song plays from is what its first entry says; without an
/// entry, or a text in it, the song cannot be played.
pub proof fn law_first_url_is_taken(items: Seq<JsonTree>, url: Seq<char>)
    ensures
        ({
            let data = JsonTree::Object(seq![("data"@, JsonTree::List(items))]);
            &&& items.len() > 0 && json::member(items[0], "url"@) == Some(JsonTree::Text(url))
                ==> netease_play_url(data) == Some(url)
            &&& items.len() == 0 ==> netease_play_url(data) is None
            &&& items.len() > 0 && !(json::member(items[0], "url"@) matches Some(JsonTree::Text(_)))
                ==> netease_play_url(data) is None
        }),
{
    reveal_with_fuel(json::member_from, 2);
}

/// Navidrome's answer is taken exactly where it says that it is well; otherwise what
/// it says went wrong is the error.
pub proof fn law_navidrome_answers(response: JsonTree, status: Seq<char>, message: Seq<char>)
    requires
        json::member(response, "status"@) == Some(JsonTree::Text(status)),
    ensures
        ({
            let data = JsonTree::Object(seq![("subsonic-response"@, response)]);
            &&& status == "ok"@ ==> navidrome_answer(data) == Ok::<JsonTree, Seq<char>>(response)
            &&& status != "ok"@ && json::text_of(
                json::member_of(json::member(response, "error"@), "message"@),
            ) == Some(message) ==> navidrome_answer(data) == Err::<JsonTree, Seq<char>>(message)
            &&& status != "ok"@ && json::text_of(
                json::member_of(json::member(response, "error"@), "message"@),
            ) is None ==> navidrome_answer(data) == Err::<JsonTree, Seq<char>>(
                "Navidrome request failed"@,
            )
        }),
{
    reveal_with_fuel(json::member_from, 2);
}

} // verus!
