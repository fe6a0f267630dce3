use xiaoai_agent::config::{McpConfig, McpServerConfig, MusicConfig, WeatherConfig};
use xiaoai_agent::jobs::{
    add_random, add_to_queue, interrupt_for_wake, interrupting_command, interruption_performed,
    interruption_undone, pause, paused, play_query, play_random, restore_after_interruption,
    restoring_command, resume, resumed, step, stepped,
    stopped, DeviceCommand, MusicEvent, MusicJob, MusicTask,
};
use xiaoai_agent::json::{parse_json, Json};
use xiaoai_agent::mcp::servers_to_connect;
use xiaoai_agent::music::CookieJar;
use xiaoai_agent::native::file_name;
use xiaoai_agent::playlist::{Interruption, InterruptionAction, MusicState, QueueItem};
use xiaoai_agent::songs::{song_by_id, Provider};
use xiaoai_agent::weather::{
    address_answered, get_weather, weather_answered, Reply, WeatherPhase, WeatherTask,
};

fn json(text: &str) -> Json {
    parse_json(text).unwrap()
}

fn config(provider: &str) -> MusicConfig {
    let mut config = MusicConfig::default();
    config.enabled = true;
    config.provider = provider.to_string();
    config
}

fn answered(text: &str) -> MusicEvent {
    MusicEvent::Answered(Ok(json(text)))
}

fn url(text: &str) -> MusicEvent {
    MusicEvent::Url(Ok(text.to_string()))
}

fn answer(task: Option<MusicTask>) -> String {
    match task {
        Some(MusicTask::Answer(answer)) => answer.to_text(),
        other => panic!("expected an answer, got {other:?}"),
    }
}

fn asked(task: &MusicTask) -> (Provider, String) {
    match task {
        MusicTask::Ask { provider, query } => {
            let params: Vec<String> = query
                .params
                .iter()
                .map(|(name, value)| format!("{name}={value}"))
                .collect();
            (*provider, format!("{}?{}", query.path, params.join("&")))
        }
        other => panic!("expected a question, got {other:?}"),
    }
}

fn item(id: &str) -> QueueItem {
    QueueItem {
        song: song_by_id(id),
        url: format!("http://x/{id}"),
    }
}

fn drive(
    job: &mut MusicJob,
    config: &MusicConfig,
    player: &mut MusicState,
    events: Vec<MusicEvent>,
) -> Option<MusicTask> {
    let mut last = None;
    for event in events {
        last = job.happen(config, player, event);
    }
    last
}

#[test]
fn a_song_is_looked_up_located_and_played() {
    let config = config("navidrome");
    let mut player = MusicState::new();
    player.enqueue(&vec![item("old")]);
    let (mut job, task) = play_query(&config, &mut player, " q", "");
    assert_eq!(
        asked(&task),
        (
            Provider::Navidrome,
            "/rest/search3.view?query= q&songCount=1&artistCount=3&albumCount=3".to_string()
        )
    );
    let task = job.happen(
        &config,
        &mut player,
        answered(r#"{"searchResult3": {"song": [{"id": "a", "title": "A"}, {"id": "b"}]}}"#),
    );
    assert!(matches!(task, Some(MusicTask::StreamUrl(id)) if id == "a"));
    let task = job.happen(&config, &mut player, url("http://s/a"));
    assert!(matches!(task, Some(MusicTask::Play(u)) if u == "http://s/a"));
    assert!(job.happen(&config, &mut player, url("x")).is_none());
    let done = answer(job.happen(&config, &mut player, MusicEvent::Played(Ok(()))));
    assert!(done.starts_with(r#"{"playing":true,"queue_size":0,"song":{"#));
    assert!(player.queue.is_empty());
    assert_eq!(player.current.as_ref().unwrap().song.name, "A");
    assert!(job
        .happen(&config, &mut player, MusicEvent::Played(Ok(())))
        .is_none());
}

#[test]
fn what_goes_wrong_with_one_song_is_the_answer() {
    let config = config("navidrome");
    let mut player = MusicState::new();
    let (mut job, _) = play_query(&config, &mut player, "q", "");
    assert_eq!(
        answer(job.happen(&config, &mut player, answered("{}"))),
        r#"{"error":"no songs found"}"#
    );
    let (mut job, task) = play_query(&config, &mut player, "q", " 9 ");
    assert_eq!(asked(&task).1, "/rest/getSong.view?id=9");
    assert_eq!(
        answer(job.happen(&config, &mut player, answered("{}"))),
        r#"{"error":"song detail not found"}"#
    );
    let (mut job, _) = play_query(&config, &mut player, "q", "9");
    let last = drive(
        &mut job,
        &config,
        &mut player,
        vec![
            answered(r#"{"song": {"id": "9"}}"#),
            MusicEvent::Url(Err("bad url".to_string())),
        ],
    );
    assert_eq!(answer(last), r#"{"error":"bad url"}"#);
    let (mut job, _) = play_query(&config, &mut player, "q", "9");
    let last = drive(
        &mut job,
        &config,
        &mut player,
        vec![
            answered(r#"{"song": {"id": "9"}}"#),
            url("u"),
            MusicEvent::Played(Err("mute".to_string())),
        ],
    );
    assert!(answer(last).starts_with(r#"{"error":"mute","song":{"#));
    assert!(player.current.is_none());
    let (_, task) = play_query(&MusicConfig::default(), &mut player, "q", "");
    assert_eq!(answer(Some(task)), r#"{"error":"music.enabled is false"}"#);
}

#[test]
fn netease_songs_are_located_by_asking() {
    let config = config("netease");
    let mut player = MusicState::new();
    let (mut job, task) = play_query(&config, &mut player, "", "7");
    assert_eq!(
        asked(&task),
        (
            Provider::Netease,
            "/song/url/v1?id=7&level=standard".to_string()
        )
    );
    let task = job.happen(&config, &mut player, answered(r#"{"data": [{"url": "http://n"}]}"#));
    assert!(matches!(task, Some(MusicTask::Play(u)) if u == "http://n"));
    let (mut job, _) = play_query(&config, &mut player, "", "7");
    assert_eq!(
        answer(job.happen(&config, &mut player, answered("{}"))),
        r#"{"error":"song has no playable url"}"#
    );
}

#[test]
fn songs_that_cannot_be_found_are_passed_over_in_a_list() {
    let config = config("navidrome");
    let mut player = MusicState::new();
    let (mut job, task) = add_to_queue(&config, &mut player, "x", "1;2");
    assert_eq!(asked(&task).1, "/rest/getSong.view?id=1");
    let task = job.happen(
        &config,
        &mut player,
        MusicEvent::Answered(Err("down".to_string())),
    );
    assert_eq!(asked(&task.unwrap()).1, "/rest/getSong.view?id=2");
    let last = drive(
        &mut job,
        &config,
        &mut player,
        vec![
            answered(r#"{"song": {"id": "2"}}"#),
            url("u2"),
            answered(r#"{"searchResult3": {"song": [{"id": "3"}]}}"#),
            url("u3"),
        ],
    );
    assert!(matches!(last, Some(MusicTask::Play(u)) if u == "u2"));
    assert_eq!(player.queue.len(), 1);
    let done = answer(job.happen(&config, &mut player, MusicEvent::Played(Ok(()))));
    assert!(done.starts_with(r#"{"added":[{"#));
    assert_eq!(done.matches("\"id\"").count(), 2);

    let (mut job, _) = add_to_queue(&config, &mut player, "", "4");
    let last = drive(
        &mut job,
        &config,
        &mut player,
        vec![answered(r#"{"song": {"id": "4"}}"#), url("u4")],
    );
    assert!(answer(last).starts_with(r#"{"added":[{"#));
    assert_eq!(player.queue.len(), 2);

    let (_, task) = add_to_queue(&config, &mut player, " ", "");
    assert_eq!(
        answer(Some(task)),
        r#"{"error":"no playable songs resolved"}"#
    );
    let mut other = config;
    other.provider = "other".to_string();
    let (_, task) = add_to_queue(&other, &mut player, "a;b", "");
    assert_eq!(
        answer(Some(task)),
        r#"{"error":"no playable songs resolved"}"#
    );
}

#[test]
fn random_songs_replace_or_extend_the_queue() {
    let config = config("navidrome");
    let mut player = MusicState::new();
    player.play_only(item("old"));
    let (mut job, task) = play_random(&config, 500);
    assert_eq!(asked(&task).1, "/rest/getRandomSongs.view?size=100");
    let last = drive(
        &mut job,
        &config,
        &mut player,
        vec![
            answered(r#"{"randomSongs": {"song": [{"id": "a"}, {"id": "b"}, {"id": "c"}]}}"#),
            url("ua"),
            MusicEvent::Url(Err("e".to_string())),
            url("uc"),
        ],
    );
    assert!(matches!(last, Some(MusicTask::Play(u)) if u == "ua"));
    let done = answer(job.happen(&config, &mut player, MusicEvent::Played(Ok(()))));
    assert!(done.starts_with(r#"{"playing":true,"queue_size":1,"#));
    assert!(player.history.is_empty());

    let (mut job, _) = add_random(&config, 1);
    let last = drive(
        &mut job,
        &config,
        &mut player,
        vec![answered(r#"{"randomSongs": {"song": [{"id": "d"}]}}"#), url("ud")],
    );
    assert!(answer(last).starts_with(r#"{"added":"#));
    assert_eq!(player.queue.len(), 2);

    let (mut job, _) = add_random(&config, 1);
    assert_eq!(
        answer(job.happen(&config, &mut player, answered("{}"))),
        r#"{"error":"no playable random songs resolved"}"#
    );
    let (mut job, _) = play_random(&config, 1);
    assert_eq!(
        answer(job.happen(&config, &mut player, MusicEvent::Answered(Err("x".to_string())))),
        r#"{"error":"x"}"#
    );
    let (_, task) = play_random(&MusicConfig::default(), 1);
    assert_eq!(answer(Some(task)), r#"{"error":"music.enabled is false"}"#);
}

#[test]
fn the_player_is_controlled() {
    let ok: Result<(), String> = Ok(());
    let bad: Result<(), String> = Err("e".to_string());
    let mut player = MusicState::new();
    assert_eq!(
        pause(&player).unwrap_err().to_text(),
        r#"{"error":"no current song","paused":false}"#
    );
    assert_eq!(
        resume(&player).unwrap_err().to_text(),
        r#"{"error":"no current song","playing":false}"#
    );
    assert_eq!(
        step(&mut player, true).unwrap_err().to_text(),
        r#"{"error":"queue is empty"}"#
    );
    assert_eq!(
        step(&mut player, false).unwrap_err().to_text(),
        r#"{"error":"history is empty"}"#
    );
    player.enqueue(&vec![item("a"), item("b")]);
    assert_eq!(step(&mut player, true).unwrap().song.id, "a");
    assert!(matches!(pause(&player), Ok(DeviceCommand::Pause)));
    assert_eq!(paused(&mut player, &ok).to_text(), r#"{"paused":true}"#);
    assert!(player.paused);
    assert!(matches!(resume(&player), Ok(DeviceCommand::Resume)));
    assert_eq!(
        resumed(&mut player, &bad).to_text(),
        r#"{"error":"e","playing":false}"#
    );
    assert!(player.paused);
    resumed(&mut player, &ok);
    assert!(!player.paused);
    assert_eq!(step(&mut player, true).unwrap().song.id, "b");
    assert_eq!(step(&mut player, false).unwrap().song.id, "a");
    assert!(stepped(&song_by_id("a"), &ok)
        .to_text()
        .starts_with(r#"{"playing":true,"#));
    assert_eq!(
        stepped(&song_by_id("a"), &bad).to_text(),
        r#"{"error":"e"}"#
    );
    assert_eq!(
        stopped(&mut player, &bad).to_text(),
        r#"{"error":"e","stopped":false}"#
    );
    assert!(player.current.is_none() && player.queue.is_empty());
}

#[test]
fn the_player_is_interrupted_and_restored() {
    let ok: Result<(), String> = Ok(());
    let mut player = MusicState::new();
    player.play_only(item("a"));
    let action = InterruptionAction::Pause;
    assert_eq!(interrupting_command(action), Some(DeviceCommand::Pause));
    assert_eq!(
        interrupting_command(InterruptionAction::Duck),
        Some(DeviceCommand::Duck)
    );
    assert_eq!(interrupting_command(InterruptionAction::Keep), None);
    assert!(!interruption_performed(&mut player, action, &Err("e".to_string())));
    assert!(player.interruption.is_none());
    assert!(interruption_performed(&mut player, action, &ok));
    let taken = player.take_interruption();
    assert_eq!(restoring_command(taken), Some(DeviceCommand::Resume));
    interruption_undone(&mut player, taken, &ok);
    assert!(!player.paused);
    assert_eq!(
        restoring_command(Some(InterruptionAction::Duck)),
        Some(DeviceCommand::Unduck)
    );
    assert_eq!(restoring_command(None), None);
}

fn weather() -> WeatherConfig {
    WeatherConfig {
        qweather_url: "https://w.example/v7/weather/3d?key=k".to_string(),
        default_location: "101".to_string(),
        ..WeatherConfig::default()
    }
}

fn reply(body: &str) -> Result<Reply, String> {
    Ok(Reply {
        success: true,
        status: "200 OK".to_string(),
        body: body.to_string(),
    })
}

#[test]
fn the_weather_is_asked_for_a_city() {
    let config = weather();
    let (phase, task) = get_weather(&config, " 上海 ");
    assert!(
        matches!(task, WeatherTask::Fetch(u) if u.starts_with("https://w.example/geo/v2/city/lookup?key=k&location="))
    );
    let (phase, task) = weather_answered(
        &config,
        &phase,
        &reply(r#"{"location": [{"id": "7", "name": "上海"}]}"#),
    );
    assert!(
        matches!(task, WeatherTask::Fetch(u) if u == "https://w.example/v7/weather/3d?key=k&location=7")
    );
    let (phase, task) = weather_answered(&config, &phase, &reply(r#"{"daily": []}"#));
    assert!(matches!(phase, WeatherPhase::Over));
    assert!(
        matches!(task, WeatherTask::Answer(a) if a.to_text() == r#"{"forecast":[],"location":"上海","qweather_code":null,"updated_at":null}"#)
    );
}

#[test]
fn the_weather_falls_back_when_a_place_is_unknown() {
    let config = weather();
    let (phase, _) = get_weather(&config, "x");
    let (phase, task) = weather_answered(&config, &phase, &Err("off".to_string()));
    assert!(matches!(phase, WeatherPhase::Forecasting(label) if label == "x (off)"));
    assert!(matches!(task, WeatherTask::Fetch(_)));
    let (phase, task) = get_weather(&config, "");
    assert!(matches!(phase, WeatherPhase::ByAddress));
    assert!(matches!(task, WeatherTask::FetchAddress(u) if u == "https://ipapi.co/json/"));
    let (phase, _) = address_answered(&config, &Err("off".to_string()));
    assert!(
        matches!(phase, WeatherPhase::Forecasting(label) if label == "default location 101 (off)")
    );
    let (phase, _) = address_answered(&config, &Ok(json(r#"{"lat": 1, "lon": 2.5, "city": "c"}"#)));
    assert!(matches!(&phase, WeatherPhase::Forecasting(label) if label == "c"));
    let (_, task) = weather_answered(
        &config,
        &phase,
        &Ok(Reply {
            success: false,
            status: "500".to_string(),
            body: "x".to_string(),
        }),
    );
    assert!(
        matches!(task, WeatherTask::Answer(a) if a.to_text() == r#"{"error":"QWeather HTTP 500: x"}"#)
    );
    let (_, task) = get_weather(&WeatherConfig::default(), "x");
    assert!(
        matches!(task, WeatherTask::Answer(a) if a.to_text() == r#"{"error":"agent.weather.qweather_url is empty"}"#)
    );
    let (_, task) = get_weather(&config, "1,2");
    assert!(matches!(task, WeatherTask::Fetch(u) if u.ends_with("location=1%2C2")));
}

#[test]
fn cookies_are_kept_in_memory() {
    let mut jar = CookieJar::new();
    assert!(!jar.has_cookie());
    assert_eq!(jar.read_cookie(None), None);
    assert_eq!(jar.read_cookie(Some(" seed ")).as_deref(), Some("seed"));
    jar.remember(&json("{}"));
    assert!(!jar.has_cookie());
    jar.remember(&json(r#"{"cookie": "new"}"#));
    assert_eq!(jar.read_cookie(Some("seed")).as_deref(), Some("new"));
}

#[test]
fn only_used_servers_are_connected_to() {
    let mut config = McpConfig::default();
    for (name, enabled, url) in [("a", true, "http://a"), ("b", false, "http://b"), ("c", true, " ")] {
        config.servers.push(McpServerConfig {
            name: name.to_string(),
            enabled,
            url: url.to_string(),
            token: String::new(),
            timeout_ns: 1,
            tools: vec![],
        });
    }
    config.home_assistant.enabled = true;
    let names: Vec<String> = servers_to_connect(&config)
        .into_iter()
        .map(|server| server.name)
        .collect();
    assert_eq!(names, ["a", "home_assistant"]);
}

#[test]
fn file_names_agree_with_std() {
    for path in [
        "", "/", "a", "/a/b", "a/", "a//", "a/.", "a/./.", ".", "./", "..", "a/..", "/.", "a/b/../",
        ".hidden", "x/.hidden", "a/..b", "//x", "./a", "a/./b/./",
    ] {
        let expected = std::path::Path::new(path)
            .file_name()
            .map(|name| name.to_string_lossy().into_owned());
        assert_eq!(file_name(path), expected, "{path}");
    }
}

#[test]
fn paths_agree_with_std() {
    for root in ["/data", "/data/", "", "."] {
        for path in ["a", "a/b", "/x", ""] {
            let expected = std::path::Path::new(root).join(path);
            assert_eq!(
                xiaoai_agent::config::resolve_path(root, path),
                expected.to_string_lossy()
            );
        }
    }
}

#[test]
fn interrupted_music_is_restored_in_every_mode() {
    let ok = Ok(());
    for (mode, told, restored) in [
        ("pause", Some(DeviceCommand::Pause), Some(DeviceCommand::Resume)),
        ("lower_volume", Some(DeviceCommand::Duck), Some(DeviceCommand::Unduck)),
        ("keep_playing", None, None),
    ] {
        let mut config = MusicConfig::default();
        config.interruption.mode = mode.to_string();
        let mut player = MusicState::new();
        assert_eq!(
            interrupt_for_wake(&config, &player),
            (Interruption::Nothing, None)
        );
        player.play_only(QueueItem {
            song: song_by_id("1"),
            url: "u".to_string(),
        });
        let before = player.status().to_text();
        let (interruption, command) = interrupt_for_wake(&config, &player);
        assert_eq!(command, told);
        let Interruption::Perform(action) = interruption else {
            panic!("expected an interruption");
        };
        assert!(interruption_performed(&mut player, action, &ok));
        assert_eq!(
            interrupt_for_wake(&config, &player),
            (Interruption::Already, None)
        );
        let (taken, command) = restore_after_interruption(&mut player);
        assert_eq!(command, restored);
        interruption_undone(&mut player, taken, &ok);
        assert_eq!(player.status().to_text(), before);
        assert_eq!(restore_after_interruption(&mut player), (None, None));
    }
}
