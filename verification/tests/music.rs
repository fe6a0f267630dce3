use xiaoai_agent::config::{
    MusicConfig, MusicInterruptionConfig, NavidromeConfig, NeteaseConfig, WeatherConfig,
};
use xiaoai_agent::json::{parse_json, Json, JsonNumber};
use xiaoai_agent::music::{
    cookie_from_text, cookie_of_response, detail_query, error_json, login_code_query,
    login_failure, login_query, navidrome_url, navidrome_url_with, netease_phone, netease_port,
    netease_server_plan, netease_status_url, netease_url, outcome_json, random_limit,
    random_provider, random_query, search_answer, search_limit, search_provider, search_query,
    song_provider, stream_query, subsonic_token, subsonic_token_from, url_query,
};
use xiaoai_agent::playlist::{
    added_json, first_song, interruption_mode, lookups, playing_json,
    playing_queue_json, resolve_one, split_many, unplayable_json, Interruption,
    InterruptionAction, Lookup, MusicState, QueueItem,
};
use xiaoai_agent::songs::{
    navidrome_response, netease_song_url, parse_navidrome_song, parse_netease_song, random_songs,
    search_songs, song_by_id, song_detail, value_string, Provider, Song,
};
use xiaoai_agent::weather::{
    default_place, forecast_url, given_place, location_plan, lookup_url,
    looks_like_qweather_location, place_by_address, place_by_lookup, preview, read_answer,
    summarize_daily_weather, unknown_place, LocationPlan,
};

fn json(text: &str) -> Json {
    parse_json(text).unwrap()
}

fn item(id: &str) -> QueueItem {
    QueueItem {
        song: song_by_id(id),
        url: format!("http://x/{id}"),
    }
}

fn navidrome() -> NavidromeConfig {
    NavidromeConfig {
        base_url: "http://music.example:4533/app".to_string(),
        username: "me".to_string(),
        password: "sesame".to_string(),
        ..NavidromeConfig::default()
    }
}

#[test]
fn netease_songs_are_read() {
    let song = parse_netease_song(&json(
        r#"{"id": 42, "name": "晴天", "ar": [{"name": "周杰伦"}, {"id": 1}, {"name": "B"}],
            "al": {"name": "叶惠美"}, "dt": 269000, "fee": 8}"#,
    ));
    assert_eq!(song.id, "42");
    assert_eq!(song.name, "晴天");
    assert_eq!(song.artists, ["周杰伦", "B"]);
    assert_eq!(song.album, "叶惠美");
    assert_eq!(song.duration_ms, Some(269_000));
    assert!(matches!(
        song.fee,
        Some(Json::Number(JsonNumber::Unsigned(8)))
    ));
    let song = parse_netease_song(&json(
        r#"{"artists": [{"name": "A"}], "album": {"name": "L"}, "duration": 5}"#,
    ));
    assert_eq!(song.id, "null");
    assert_eq!(song.artists, ["A"]);
    assert_eq!(song.album, "L");
    assert_eq!(song.duration_ms, Some(5));
    assert!(song.fee.is_none());
}

#[test]
fn navidrome_songs_are_read() {
    let song = parse_navidrome_song(&json(
        r#"{"id": "a1", "title": "T", "name": "N", "artist": "Solo", "album": "L", "duration": 3}"#,
    ));
    assert_eq!(song.id, "a1");
    assert_eq!(song.name, "T");
    assert_eq!(song.artists, ["Solo"]);
    assert_eq!(song.album, "L");
    assert_eq!(song.duration_ms, Some(3_000));
    let song = parse_navidrome_song(&json(r#"{"name": "N", "artists": [{"name": "X"}]}"#));
    assert_eq!(song.name, "N");
    assert_eq!(song.artists, ["X"]);
    assert_eq!(song.album, "");
    assert_eq!(song.duration_ms, None);
}

#[test]
fn values_are_shown_as_texts() {
    assert_eq!(value_string(&json("\"x\"")), "x");
    assert_eq!(value_string(&json("17")), "17");
    assert_eq!(value_string(&json("null")), "null");
    assert_eq!(value_string(&json("[\"a\"]")), "[\"a\"]");
}

#[test]
fn answers_of_the_services_are_read() {
    let found = search_songs(
        Provider::Netease,
        &json(r#"{"result": {"songs": [{"id": 1}, {"id": 2}]}}"#),
    );
    assert_eq!(found.len(), 2);
    let found = search_songs(
        Provider::Navidrome,
        &json(r#"{"searchResult3": {"song": [{"id": "s"}]}}"#),
    );
    assert_eq!(found[0].id, "s");
    assert!(search_songs(Provider::Navidrome, &json("{}")).is_empty());
    let drawn = random_songs(
        Provider::Navidrome,
        &json(r#"{"randomSongs": {"song": [{"id": "r"}]}}"#),
    );
    assert_eq!(drawn[0].id, "r");
    assert_eq!(
        song_detail(&json(r#"{"song": {"id": "d"}}"#)).unwrap().id,
        "d"
    );
    assert_eq!(
        song_detail(&json("{}")).unwrap_err(),
        "song detail not found"
    );
    assert_eq!(
        netease_song_url(&json(r#"{"data": [{"url": "http://u"}]}"#)).unwrap(),
        "http://u"
    );
    for missing in [r#"{"data": []}"#, r#"{"data": [{"url": null}]}"#, "{}"] {
        assert_eq!(
            netease_song_url(&json(missing)).unwrap_err(),
            "song has no playable url"
        );
    }
}

#[test]
fn navidrome_refusals_are_read() {
    let ok = navidrome_response(&json(r#"{"subsonic-response": {"status": "ok", "n": 1}}"#));
    assert_eq!(ok.unwrap().to_text(), r#"{"n":1,"status":"ok"}"#);
    assert_eq!(
        navidrome_response(&json("{}")).unwrap_err(),
        "Invalid Navidrome response"
    );
    assert_eq!(
        navidrome_response(&json(
            r#"{"subsonic-response": {"status": "failed", "error": {"message": "no"}}}"#
        ))
        .unwrap_err(),
        "no"
    );
    assert_eq!(
        navidrome_response(&json(r#"{"subsonic-response": {}}"#)).unwrap_err(),
        "Navidrome request failed"
    );
}

#[test]
fn tokens_are_digests_of_password_and_salt() {
    let (salt, token) = subsonic_token_from("sesame", &[0xc1, 0x9b, 0x2d, 0, 1, 2, 3, 4]);
    assert_eq!(salt, "c19b2d0001020304");
    assert_eq!(token, format!("{:x}", md5::compute("sesamec19b2d0001020304")));
    let (salt, token) = subsonic_token("sesame");
    assert_eq!(salt.len(), 16);
    assert_eq!(token, format!("{:x}", md5::compute(format!("sesame{salt}"))));
    assert_ne!(subsonic_token("sesame").0, salt);
}

#[test]
fn navidrome_urls_carry_credentials() {
    let url = navidrome_url_with(&navidrome(), &stream_query("a b"), "salt", "token")
        .unwrap()
        .unwrap();
    assert_eq!(
        url,
        "http://music.example:4533/rest/stream.view?u=me&t=token&s=salt&v=1.16.1&c=dodo-edge&f=json&id=a+b"
    );
    let url = navidrome_url(&navidrome(), &detail_query("x")).unwrap().unwrap();
    assert!(url.starts_with("http://music.example:4533/rest/getSong.view?u=me&t="));
    assert!(url.ends_with("&v=1.16.1&c=dodo-edge&f=json&id=x"));
    let mut broken = navidrome();
    broken.base_url = "nothing".to_string();
    assert_eq!(
        navidrome_url(&broken, &detail_query("x"))
            .unwrap()
            .unwrap_err(),
        "relative URL without a base"
    );
}

#[test]
fn netease_urls_leave_out_what_is_empty() {
    let config = NeteaseConfig::default();
    let url = netease_url(&config, &search_query(Provider::Netease, "", 3), Some("c=1"))
        .unwrap()
        .unwrap();
    assert_eq!(
        url,
        "http://127.0.0.1:3300/cloudsearch?limit=3&cookie=c%3D1"
    );
    let url = netease_url(&config, &url_query("7", "standard"), None)
        .unwrap()
        .unwrap();
    assert_eq!(url, "http://127.0.0.1:3300/song/url/v1?id=7&level=standard");
    assert_eq!(
        netease_status_url(&config),
        "http://127.0.0.1:3300/login/status"
    );
    assert_eq!(netease_port(&config), Some(3300));
}

#[test]
fn searches_ask_the_right_service() {
    let mut config = MusicConfig::default();
    assert_eq!(
        search_provider(&config).unwrap_err(),
        "music.enabled is false"
    );
    assert_eq!(
        random_provider(&config).unwrap_err(),
        "music.enabled is false"
    );
    config.enabled = true;
    assert_eq!(search_provider(&config), Ok(Provider::Navidrome));
    assert_eq!(random_provider(&config), Ok(Provider::Navidrome));
    config.provider = "spotify".to_string();
    assert_eq!(
        search_provider(&config).unwrap_err(),
        "Unsupported music provider: spotify"
    );
    assert_eq!(song_provider(&config), Provider::Netease);
    assert_eq!([search_limit(0), search_limit(7), search_limit(99)], [1, 7, 20]);
    assert_eq!(
        [random_limit(0), random_limit(7), random_limit(999)],
        [1, 7, 100]
    );
    let query = search_query(Provider::Navidrome, "q", 5);
    assert_eq!(query.path, "/rest/search3.view");
    assert_eq!(query.params.len(), 4);
    assert_eq!(random_query(Provider::Navidrome, 9).params[0].1, "9");
    assert_eq!(random_query(Provider::Netease, 9).path, "/cloudsearch");
}

#[test]
fn logging_in_uses_the_phone_or_the_account() {
    let mut config = NeteaseConfig::default();
    config.account = " acc ".to_string();
    assert_eq!(netease_phone(&config), "acc");
    config.phone = " 123 ".to_string();
    assert_eq!(netease_phone(&config), "123");
    assert_eq!(login_code_query(&config).path, "/captcha/sent");
    assert_eq!(login_query(&config, "99", false).path, "/captcha/verify");
    let query = login_query(&config, "99", true);
    assert_eq!(query.path, "/login/cellphone");
    assert_eq!(query.params[1].1, "99");
    assert_eq!(
        login_failure("e", true).to_text(),
        r#"{"error":"e","verified":true}"#
    );
}

#[test]
fn cookies_are_read_from_json_or_text() {
    assert_eq!(
        cookie_from_text(r#"{"cookie": "MUSIC_U=1"}"#).as_deref(),
        Some("MUSIC_U=1")
    );
    assert_eq!(cookie_from_text(" MUSIC_U=2 \n").as_deref(), Some("MUSIC_U=2"));
    assert_eq!(cookie_from_text(r#"{"cookie": ""}"#), None);
    assert_eq!(cookie_from_text("  "), None);
    assert_eq!(cookie_from_text("{}").as_deref(), Some("{}"));
    assert_eq!(
        cookie_of_response(&json(r#"{"cookie": "x"}"#)).as_deref(),
        Some("x")
    );
    assert_eq!(cookie_of_response(&json("{}")), None);
}

#[test]
fn the_netease_server_is_started_once() {
    let mut config = NeteaseConfig::default();
    assert_eq!(netease_server_plan(&config, true, false), Ok(false));
    assert_eq!(
        netease_server_plan(&config, false, false).unwrap_err(),
        "Netease API is not reachable"
    );
    config.auto_start = true;
    assert_eq!(netease_server_plan(&config, false, false), Ok(true));
    assert_eq!(netease_server_plan(&config, false, true), Ok(false));
    config.start_command.clear();
    assert_eq!(
        netease_server_plan(&config, false, false).unwrap_err(),
        "music.netease.start_command is empty"
    );
}

#[test]
fn going_on_and_back_undo_each_other() {
    let mut player = MusicState::new();
    assert!(player.enqueue(&vec![item("a"), item("b")]));
    assert_eq!(player.play_next().unwrap().song.id, "a");
    assert!(!player.enqueue(&vec![item("c")]));
    assert_eq!(player.play_next().unwrap().url, "http://x/b");
    assert_eq!(player.history.len(), 1);
    assert_eq!(player.play_previous().unwrap().song.id, "a");
    assert_eq!(player.queue.len(), 2);
    assert_eq!(player.play_previous().unwrap_err(), "history is empty");
    player.play_next().unwrap();
    player.play_next().unwrap();
    assert_eq!(player.play_next().unwrap_err(), "queue is empty");
    assert_eq!(player.current.as_ref().unwrap().song.id, "c");
    player.play_only(item("z"));
    assert!(player.queue.is_empty() && player.history.is_empty());
    player.replace_queue(vec![item("q")]);
    assert!(!player.has_current());
    player.clear();
    assert!(player.queue.is_empty());
}

#[test]
fn interruptions_are_undone() {
    let mut player = MusicState::new();
    let mode = interruption_mode(&MusicInterruptionConfig::default().mode);
    assert_eq!(mode, InterruptionAction::Pause);
    assert_eq!(player.begin_interruption(mode), Interruption::Nothing);
    assert!(!player.interrupted(mode));
    player.play_only(item("a"));
    assert_eq!(player.begin_interruption(mode), Interruption::Perform(mode));
    assert!(player.interrupted(mode));
    assert!(player.paused);
    assert_eq!(player.begin_interruption(mode), Interruption::Already);
    assert_eq!(player.take_interruption(), Some(mode));
    player.resumed();
    assert!(!player.paused && player.interruption.is_none());
    player.set_paused(true);
    assert_eq!(player.begin_interruption(mode), Interruption::Nothing);
    assert_eq!(interruption_mode(" volume "), InterruptionAction::Duck);
    assert_eq!(interruption_mode("keep_playing"), InterruptionAction::Keep);
}

#[test]
fn answers_about_music_are_written() {
    let song = Song {
        id: "1".to_string(),
        name: "n".to_string(),
        artists: vec!["a".to_string()],
        album: "l".to_string(),
        duration_ms: Some(5),
        fee: None,
    };
    let shown = r#"{"album":"l","artists":["a"],"duration_ms":5,"fee":null,"id":"1","name":"n"}"#;
    assert_eq!(
        playing_json(&song).to_text(),
        format!(r#"{{"playing":true,"song":{shown}}}"#)
    );
    assert_eq!(
        playing_queue_json(&song, 3).to_text(),
        format!(r#"{{"playing":true,"queue_size":3,"song":{shown}}}"#)
    );
    let Json::Object(members) = unplayable_json("bad", &song) else {
        panic!("expected an object");
    };
    assert_eq!(members[0].0, "error");
    assert_eq!(search_answer(&Ok(vec![song])).to_text(), format!("[{shown}]"));
    let queue: Vec<QueueItem> = (0..12).map(|i| item(&i.to_string())).collect();
    let Json::Object(members) = added_json(&queue) else {
        panic!("expected an object");
    };
    assert!(matches!(&members[0].1, Json::List(items) if items.len() == 12));
    let mut player = MusicState::new();
    player.enqueue(&queue);
    let Json::Object(members) = player.status() else {
        panic!("expected an object");
    };
    assert!(matches!(members[4].1, Json::Number(JsonNumber::Unsigned(12))));
    assert!(matches!(&members[5].1, Json::List(items) if items.len() == 10));
    assert_eq!(
        outcome_json("paused", &Ok(())).to_text(),
        r#"{"paused":true}"#
    );
    assert_eq!(
        outcome_json("paused", &Err("e".to_string())).to_text(),
        r#"{"error":"e","paused":false}"#
    );
    assert!(matches!(error_json("x"), Json::Object(m) if m[0].0 == "error"));
}

#[test]
fn lists_are_split_at_their_separators() {
    assert_eq!(split_many(" a ;b\n\n；c；  "), ["a", "b", "c"]);
    assert!(split_many("").is_empty());
    let found = lookups("x;y", "1");
    assert!(
        matches!(&found[..], [Lookup::ById(a), Lookup::ByQuery(b), Lookup::ByQuery(c)] if a == "1" && b == "x" && c == "y")
    );
    assert!(matches!(resolve_one("q", " 5 "), Lookup::ById(id) if id == "5"));
    assert!(matches!(resolve_one("q", " "), Lookup::ByQuery(q) if q == "q"));
    assert_eq!(first_song(&vec![]).unwrap_err(), "no songs found");
    assert_eq!(first_song(&vec![song_by_id("k")]).unwrap().name, "k");
}

fn weather() -> WeatherConfig {
    WeatherConfig {
        qweather_url: "https://w.example/v7/weather/3d?key=k&location=old".to_string(),
        default_location: "101".to_string(),
        ..WeatherConfig::default()
    }
}

#[test]
fn places_are_found_by_what_is_asked() {
    let plan = |place: &str| location_plan(&weather(), place).unwrap();
    assert!(matches!(plan("  "), LocationPlan::ByAddress));
    assert!(matches!(plan(" 116.4,39.9 "), LocationPlan::Given(x) if x == "116.4,39.9"));
    assert!(matches!(plan("101010100"), LocationPlan::Given(_)));
    assert!(matches!(plan("北京"), LocationPlan::LookUp(x) if x == "北京"));
    assert_eq!(
        location_plan(&WeatherConfig::default(), "x").unwrap_err(),
        "agent.weather.qweather_url is empty"
    );
    assert!(looks_like_qweather_location(""));
    assert_eq!(given_place("1").label, "1");
    assert_eq!(
        default_place(&weather(), "e").label,
        "default location 101 (e)"
    );
    assert_eq!(unknown_place("x", "e").label, "x (e)");
}

#[test]
fn weather_urls_replace_the_place() {
    assert_eq!(
        forecast_url(&weather(), "1,2").unwrap(),
        "https://w.example/v7/weather/3d?key=k&location=1%2C2"
    );
    assert_eq!(
        lookup_url(&weather(), "北京").unwrap(),
        "https://w.example/geo/v2/city/lookup?key=k&location=%E5%8C%97%E4%BA%AC&number=1"
    );
    let mut broken = weather();
    broken.qweather_url = "nothing".to_string();
    assert_eq!(
        forecast_url(&broken, "1").unwrap_err(),
        "relative URL without a base"
    );
}

#[test]
fn places_are_read() {
    let place = place_by_address(&json(
        r#"{"latitude": 39.9, "lon": 116, "city": "Beijing", "country": "China"}"#,
    ))
    .unwrap();
    assert_eq!(place.location, "116.0000,39.9000");
    assert_eq!(place.label, "Beijing China");
    assert_eq!(
        place_by_address(&json(r#"{"latitude": "39.9", "lon": 116}"#)).unwrap_err(),
        "IP location response does not contain latitude/longitude"
    );
    let place = place_by_lookup(&json(
        r#"{"location": [{"id": "101", "name": "A", "adm1": "B", "country": "C"}]}"#,
    ))
    .unwrap();
    assert_eq!((place.location.as_str(), place.label.as_str()), ("101", "A B C"));
    let place =
        place_by_lookup(&json(r#"{"location": [{"lon": "1", "lat": "2", "name": "A"}]}"#)).unwrap();
    assert_eq!(place.location, "1,2");
    assert_eq!(
        place_by_lookup(&json(r#"{"location": []}"#)).unwrap_err(),
        "QWeather city lookup returned no candidates"
    );
    assert_eq!(
        place_by_lookup(&json(r#"{"location": [{"lon": "1"}]}"#)).unwrap_err(),
        "QWeather city lookup candidate has no id or coordinates"
    );
}

#[test]
fn the_weather_is_summarised() {
    let data = json(
        r#"{"code": "200", "updateTime": "t", "daily": [{"fxDate": "1", "tempMin": "2"}, {}, {}, {}]}"#,
    );
    let Json::Object(members) = summarize_daily_weather(&data, "here") else {
        panic!("expected an object");
    };
    assert!(matches!(&members[3].1, Json::List(days) if days.len() == 3));
    assert!(matches!(&members[1].1, Json::Text(code) if code == "200"));
    let Json::Object(members) = summarize_daily_weather(&json("{}"), "here") else {
        panic!("expected an object");
    };
    assert_eq!(members[1].0, "raw");
    assert_eq!(
        read_answer(false, "404 Not Found", "gone").unwrap_err(),
        "QWeather HTTP 404 Not Found: gone"
    );
    assert_eq!(
        read_answer(true, "200 OK", "<html>").unwrap_err(),
        "QWeather returned non-JSON body: <html>"
    );
    assert!(read_answer(true, "200 OK", "{}").is_ok());
    let long = "天".repeat(300);
    assert_eq!(preview(&long), format!("{}...", "天".repeat(240)));
    assert_eq!(preview("x"), "x");
}
