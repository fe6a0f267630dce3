use std::time::Duration;
use xiaoai_agent::airplay::{
    aplay_args, parse_hwaddr, receiver_settings, validate_output_config, AirPlayService,
};
use xiaoai_agent::config::{
    openai_base_url, require_music_enabled, resolve_optional_path, resolve_path, AirPlayConfig,
    AirPlayOutputConfig, AgentConfig, DeviceConfig, McpConfig, McpServerConfig, MusicConfig,
    RuntimeConfig,
};
use xiaoai_agent::device::{check_script, fill_template, Device};
use xiaoai_agent::legacy_sse::{
    absolutize_endpoint, endpoint_event, message_event, LegacySseTransportError,
};
use xiaoai_agent::mcp::{
    auth_token, configured_servers, is_legacy_sse_url, is_used, next_reconnect_delay,
    McpToolHandler, Supervisor,
};
use xiaoai_agent::shell::command_result;

fn server(name: &str) -> McpServerConfig {
    McpServerConfig {
        name: name.to_string(),
        enabled: true,
        url: "http://h/mcp".to_string(),
        token: String::new(),
        timeout_ns: 1,
        tools: vec!["t".to_string()],
    }
}

#[test]
fn reconnect_delay_is_exponential_and_capped() {
    assert_eq!(
        next_reconnect_delay(Duration::from_secs(1)),
        Duration::from_secs(2)
    );
    assert_eq!(
        next_reconnect_delay(Duration::from_secs(32)),
        Duration::from_secs(60)
    );
    assert_eq!(
        next_reconnect_delay(Duration::from_secs(60)),
        Duration::from_secs(60)
    );
}

#[test]
fn reconnect_delay_starts_over() {
    let mut supervisor = Supervisor::new();
    let mut delays = Vec::new();
    for _ in 0..7 {
        supervisor.failed();
        delays.push(supervisor.delay.as_secs());
    }
    assert_eq!(delays, [2, 4, 8, 16, 32, 60, 60]);
    supervisor.connected();
    assert_eq!(supervisor.delay, Duration::from_secs(1));
    assert_eq!(next_reconnect_delay(Duration::MAX), Duration::from_secs(60));
}

#[test]
fn detects_legacy_sse_urls() {
    assert!(is_legacy_sse_url(
        "http://homeassistant.local/mcp_server/sse"
    ));
    assert!(!is_legacy_sse_url(
        "http://homeassistant.local/api/webhook/mcp_secret"
    ));
}

#[test]
fn slashes_behind_a_legacy_url_do_not_matter() {
    assert!(is_legacy_sse_url("http://h/sse//"));
    assert!(!is_legacy_sse_url("http://h/sse/x"));
}

#[test]
fn filters_tools_when_allowlist_is_present() {
    let handler = McpToolHandler::new("test".to_string(), &vec!["ha_search".to_string()]);
    assert!(handler.tool_allowed("ha_search"));
    assert!(!handler.tool_allowed("ha_restart"));
}

#[test]
fn tools_are_replaced() {
    let mut handler = McpToolHandler::new("s".to_string(), &vec!["b".to_string()]);
    assert_eq!(handler.server_name(), "s");
    let offered = vec!["a".to_string(), "b".to_string(), "b".to_string()];
    assert_eq!(handler.wanted(&offered), [1, 2]);
    assert_eq!(handler.note_added("b".to_string()), 1);
    assert_eq!(handler.note_added("c".to_string()), 2);
    assert_eq!(handler.take_managed(), ["b", "c"]);
    assert!(handler.take_managed().is_empty());
    let open = McpToolHandler::new("s".to_string(), &vec![]);
    assert_eq!(open.wanted(&offered), [0, 1, 2]);
}

#[test]
fn home_assistant_is_added_where_it_is_missing() {
    let mut config = McpConfig::default();
    assert!(configured_servers(&config).is_empty());
    config.home_assistant.enabled = true;
    config.servers.push(server("other"));
    let servers = configured_servers(&config);
    assert_eq!(servers.len(), 2);
    assert_eq!(servers[0].tools, ["t"]);
    assert_eq!(servers[1].name, "home_assistant");
    assert_eq!(
        servers[1].url,
        "http://homeassistant.local:8123/mcp_server/sse"
    );
    config.servers.push(server("home_assistant"));
    assert_eq!(configured_servers(&config).len(), 2);
    assert!(is_used(&config.servers[0]));
    config.servers[0].url = "  ".to_string();
    assert!(!is_used(&config.servers[0]));
    config.servers[1].enabled = false;
    assert!(!is_used(&config.servers[1]));
    assert_eq!(auth_token(" "), None);
    assert_eq!(auth_token("t").as_deref(), Some("t"));
}

#[test]
fn endpoints_are_seen_from_the_server() {
    assert_eq!(
        absolutize_endpoint("http://h:8123/mcp_server/sse", "/mcp_server/messages/1").unwrap(),
        "http://h:8123/mcp_server/messages/1"
    );
    assert!(matches!(
        absolutize_endpoint("nothing", "/x"),
        Err(LegacySseTransportError::Url(e)) if e == "relative URL without a base"
    ));
    assert!(matches!(
        endpoint_event("http://h/sse", Some("ping"), Some("x")),
        Ok(None)
    ));
    assert!(matches!(
        endpoint_event("http://h/sse", Some("endpoint"), None),
        Err(LegacySseTransportError::MissingEndpoint)
    ));
    assert!(matches!(
        endpoint_event("http://h/a/sse", Some("endpoint"), Some("m")),
        Ok(Some(url)) if url == "http://h/a/m"
    ));
}

#[test]
fn messages_are_told_from_other_events() {
    assert_eq!(message_event(None, Some("{}")), Some("{}"));
    assert_eq!(message_event(Some(""), Some("{}")), Some("{}"));
    assert_eq!(message_event(Some("message"), Some("{}")), Some("{}"));
    assert_eq!(message_event(Some("ping"), Some("{}")), None);
    assert_eq!(message_event(None, Some("  ")), None);
    assert_eq!(message_event(None, None), None);
}

#[test]
fn transport_errors_say_what_happened() {
    let e = |text: &str| text.to_string();
    assert_eq!(
        LegacySseTransportError::Http(e("x")).message(),
        "HTTP client error: x"
    );
    assert_eq!(
        LegacySseTransportError::Sse(e("x")).message(),
        "SSE stream error: x"
    );
    assert_eq!(
        LegacySseTransportError::Url(e("x")).message(),
        "invalid SSE endpoint URL: x"
    );
    assert_eq!(
        LegacySseTransportError::MissingEndpoint.message(),
        "legacy SSE endpoint event was not received"
    );
    assert_eq!(
        LegacySseTransportError::Closed.message(),
        "legacy SSE endpoint closed"
    );
    assert_eq!(
        LegacySseTransportError::Json(e("x")).message(),
        "legacy SSE message parse error: x"
    );
    assert_eq!(
        LegacySseTransportError::Join(e("x")).message(),
        "worker join error: x"
    );
}

#[test]
fn hardware_addresses_are_read() {
    assert_eq!(
        parse_hwaddr("0A:1b-2c 3D4e5F").unwrap(),
        [0x0a, 0x1b, 0x2c, 0x3d, 0x4e, 0x5f]
    );
    assert_eq!(
        parse_hwaddr("0a:1b").unwrap_err(),
        "airplay.hwaddr must contain 6 bytes"
    );
}

#[test]
fn receivers_are_built_from_their_settings() {
    let mut config = AirPlayConfig::default();
    let settings = receiver_settings(&config).unwrap();
    assert!(settings.password.is_none() && settings.hwaddr.is_none());
    config.password = "p".to_string();
    config.hwaddr = "000000000001".to_string();
    let settings = receiver_settings(&config).unwrap();
    assert_eq!(settings.password.as_deref(), Some("p"));
    assert_eq!(settings.hwaddr.unwrap(), [0, 0, 0, 0, 0, 1]);
    config.hwaddr = "1".to_string();
    assert!(receiver_settings(&config).is_err());
    config.output.format = "S32_LE".to_string();
    assert_eq!(
        receiver_settings(&config).unwrap_err(),
        "unsupported airplay.output.format: S32_LE"
    );
    config.output.backend = "jack".to_string();
    assert_eq!(
        validate_output_config(&config.output).unwrap_err(),
        "unsupported airplay.output.backend: jack"
    );
    assert_eq!(
        aplay_args(&AirPlayOutputConfig::default(), 0, 44_100),
        ["-q", "-D", "default", "-t", "raw", "-f", "S16_LE", "-c", "1", "-r", "44100"]
    );
}

#[test]
fn streams_play_more_quietly_while_the_agent_listens() {
    let mut config = AirPlayConfig::default();
    let mut service = AirPlayService::new(&config);
    assert!(!service.interrupt_for_wake());
    service.state.session_started();
    assert!(service.state.is_active());
    assert!(service.interrupt_for_wake());
    assert!(service.state.ducked);
    assert!(!service.state.set_ducked(true));
    service.restore_after_interruption();
    assert!(!service.state.ducked);
    service.state.session_ended();
    assert!(!service.state.is_active());
    config.interruption_mode = "pause".to_string();
    let mut service = AirPlayService::new(&config);
    service.state.session_started();
    assert!(!service.interrupt_for_wake());
}

#[test]
fn base_urls_end_in_their_version() {
    assert_eq!(openai_base_url("http://h"), "http://h/v1");
    assert_eq!(openai_base_url("http://h/v1//"), "http://h/v1");
    assert_eq!(openai_base_url("http://h/"), "http://h/v1");
    assert_eq!(openai_base_url(&openai_base_url("x")), "x/v1");
}

#[test]
fn paths_are_seen_from_the_root() {
    assert_eq!(resolve_path("/data", "cookie.json"), "/data/cookie.json");
    assert_eq!(resolve_path("/data", "/etc/x"), "/etc/x");
    let mut path = Some("c".to_string());
    resolve_optional_path("/r", &mut path);
    assert_eq!(path.as_deref(), Some("/r/c"));
    let mut none = None;
    resolve_optional_path("/r", &mut none);
    assert_eq!(none, None);
}

#[test]
fn settings_have_their_defaults() {
    let runtime = RuntimeConfig::default();
    assert_eq!(runtime.kws_sample_rate, 48_000);
    assert_eq!(runtime.acknowledge_text, ["在", "我在", "哎"]);
    assert_eq!(AgentConfig::default().timezone, "Asia/Shanghai");
    let mut music = MusicConfig::default();
    assert_eq!(
        require_music_enabled(&music).unwrap_err(),
        "music.enabled is false"
    );
    music.enabled = true;
    assert_eq!(require_music_enabled(&music), Ok(()));
    assert_eq!(music.navidrome.api_version, "1.16.1");
}

#[test]
fn the_speaker_is_driven_by_scripts() {
    let device = Device::new(DeviceConfig::default());
    assert_eq!(device.speak("  "), None);
    assert_eq!(
        device.speak("it's {url}").unwrap(),
        r"/usr/sbin/tts_play.sh 'it'\''s {url}'"
    );
    assert_eq!(
        device.play_url("http://x/a?b=1"),
        "killall miplayer 2>/dev/null; miplayer -f 'http://x/a?b=1' >/tmp/xiaoai-miplayer.log 2>&1 &"
    );
    assert_eq!(
        device.show_led(3).unwrap(),
        "/bin/show_led 3 >/dev/null 2>&1"
    );
    assert_eq!(
        device.shut_led(3).unwrap(),
        "/bin/shut_led 3 >/dev/null 2>&1"
    );
    assert_eq!(device.show_led(0), None);
    let mut config = DeviceConfig::default();
    config.led_enabled = false;
    assert_eq!(Device::new(config).shut_led(3), None);
    assert!(device.stop_audio().starts_with("killall tts_play.sh"));
    assert!(device.pause_audio().contains("kill -STOP"));
    assert!(device.resume_audio().contains("kill -CONT"));
    assert!(device.duck_audio().contains("25%"));
    assert!(device.unduck_audio().contains("mysoftvol.before"));
    assert!(device.abort_current_output().contains("player_play_operation"));
    assert_eq!(device.config().led_speaking, 5);
}

#[test]
fn templates_are_filled_key_by_key() {
    let values = vec![
        ("a".to_string(), "{b}".to_string()),
        ("b".to_string(), "x".to_string()),
    ];
    assert_eq!(fill_template("{a} {a} {c}", &values), "x x {c}");
}

#[test]
fn commands_are_judged_by_their_code() {
    let result = command_result(b"out", &[b'e', 0xff, b'\n'], Some(3));
    assert_eq!(result.stdout, "out");
    assert_eq!(
        check_script(&result).unwrap_err(),
        "command failed exit=3 stderr=e\u{fffd}"
    );
    assert_eq!(check_script(&command_result(b"", b"", Some(0))), Ok(()));
    assert_eq!(
        check_script(&command_result(b"", b"", None)).unwrap_err(),
        "command failed exit=-1 stderr="
    );
}
