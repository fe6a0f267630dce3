//! The settings of the agent.
use vstd::prelude::*;
use crate::json::JsonNumber;
use crate::text;
use crate::vad::VadSettings;

verus! {

/// The wake-word engine and the session around it.
#[derive(Debug)]
pub struct RuntimeConfig {
    pub kws_vpm_lib: String,
    pub kws_vpm_config_dir: String,
    pub kws_pcm: String,
    pub kws_sample_rate: u32,
    pub kws_channels: u32,
    pub kws_bits_per_sample: u32,
    pub kws_frame_ms: u32,
    pub kws_period_size: u32,
    pub kws_buffer_size: u32,
    pub kws_ref_channel_index: u32,
    pub kws_start_status: Option<i32>,
    pub acknowledge_text: Vec<String>,
    pub session_idle_timeout_ns: u64,
}

impl Default for RuntimeConfig {
    fn default() -> (r: Self)
        ensures
            r.kws_vpm_lib@ == "/usr/lib/libvpm.so"@,
            r.kws_vpm_config_dir@ == "/usr/share/mipns/vpm/json_segment"@,
            r.kws_pcm@ == "noop"@,
            r.kws_sample_rate == 48_000,
            r.kws_channels == 4,
            r.kws_bits_per_sample == 32,
            r.kws_frame_ms == 8,
            r.kws_period_size == 384,
            r.kws_buffer_size == 4096,
            r.kws_ref_channel_index == 3,
            r.kws_start_status == Some(6i32),
            text::texts(r.acknowledge_text@) == seq!["在"@, "我在"@, "哎"@],
            r.session_idle_timeout_ns == 20_000_000_000,
    {
        let mut acknowledge_text: Vec<String> = Vec::new();
        acknowledge_text.push("在".to_owned());
        acknowledge_text.push("我在".to_owned());
        acknowledge_text.push("哎".to_owned());
        assert(text::texts(acknowledge_text@) =~= seq!["在"@, "我在"@, "哎"@]);
        RuntimeConfig {
            kws_vpm_lib: "/usr/lib/libvpm.so".to_owned(),
            kws_vpm_config_dir: "/usr/share/mipns/vpm/json_segment".to_owned(),
            kws_pcm: "noop".to_owned(),
            kws_sample_rate: 48_000,
            kws_channels: 4,
            kws_bits_per_sample: 32,
            kws_frame_ms: 8,
            kws_period_size: 384,
            kws_buffer_size: 4096,
            kws_ref_channel_index: 3,
            kws_start_status: Some(6),
            acknowledge_text,
            session_idle_timeout_ns: 20_000_000_000,
        }
    }
}

/// The commands that drive the speaker. `{text}` and `{url}` stand for what is
/// spoken and played.
#[derive(Debug)]
pub struct DeviceConfig {
    pub tts_command: String,
    pub play_url_command: String,
    pub stop_audio_command: String,
    pub pause_audio_command: String,
    pub resume_audio_command: String,
    pub duck_audio_command: String,
    pub unduck_audio_command: String,
    pub abort_command: String,
    pub led_enabled: bool,
    pub led_listening: u8,
    pub led_user_speaking: u8,
    pub led_thinking: u8,
    pub led_speaking: u8,
}

impl Default for DeviceConfig {
    fn default() -> (r: Self)
        ensures
            r.tts_command@ == "/usr/sbin/tts_play.sh {text}"@,
            r.play_url_command@
                == "killall miplayer 2>/dev/null; miplayer -f {url} >/tmp/xiaoai-miplayer.log 2>&1 &"@,
            r.stop_audio_command@
                == "killall tts_play.sh miplayer 2>/dev/null; mphelper pause"@,
            r.pause_audio_command@
                == "mphelper pause 2>/dev/null || true; for p in $(pidof miplayer 2>/dev/null); do kill -STOP \"$p\" 2>/dev/null || true; done"@,
            r.resume_audio_command@
                == "for p in $(pidof miplayer 2>/dev/null); do kill -CONT \"$p\" 2>/dev/null || true; done; mphelper play 2>/dev/null || true"@,
            r.duck_audio_command@
                == "amixer sget mysoftvol | awk -F'[][]' '/%/ {print $2; exit}' | tr -d '%' >/tmp/xiaoai-mysoftvol.before; amixer sset mysoftvol 25% >/dev/null 2>&1 || true"@,
            r.unduck_audio_command@
                == "v=$(cat /tmp/xiaoai-mysoftvol.before 2>/dev/null); if [ -n \"$v\" ]; then amixer sset mysoftvol \"${v}%\" >/dev/null 2>&1 || true; fi; rm -f /tmp/xiaoai-mysoftvol.before"@,
            r.abort_command@
                == "killall tts_play.sh miplayer 2>/dev/null; mphelper pause 2>/dev/null || true; ubus call mediaplayer media_control '{\"player\":\"mediaplayer\",\"action\":\"pause\",\"volume\":0}' 2>/dev/null || true; ubus call mediaplayer player_play_operation '{\"media\":\"app_ios\",\"action\":\"stop\"}' 2>/dev/null || true"@,
            r.led_enabled,
            r.led_listening == 3,
            r.led_user_speaking == 4,
            r.led_thinking == 2,
            r.led_speaking == 5,
    {
        DeviceConfig {
            tts_command: "/usr/sbin/tts_play.sh {text}".to_owned(),
            play_url_command:
                "killall miplayer 2>/dev/null; miplayer -f {url} >/tmp/xiaoai-miplayer.log 2>&1 &".to_owned(),
            stop_audio_command: "killall tts_play.sh miplayer 2>/dev/null; mphelper pause".to_owned(),
            pause_audio_command:
                "mphelper pause 2>/dev/null || true; for p in $(pidof miplayer 2>/dev/null); do kill -STOP \"$p\" 2>/dev/null || true; done".to_owned(),
            resume_audio_command:
                "for p in $(pidof miplayer 2>/dev/null); do kill -CONT \"$p\" 2>/dev/null || true; done; mphelper play 2>/dev/null || true".to_owned(),
            duck_audio_command:
                "amixer sget mysoftvol | awk -F'[][]' '/%/ {print $2; exit}' | tr -d '%' >/tmp/xiaoai-mysoftvol.before; amixer sset mysoftvol 25% >/dev/null 2>&1 || true".to_owned(),
            unduck_audio_command:
                "v=$(cat /tmp/xiaoai-mysoftvol.before 2>/dev/null); if [ -n \"$v\" ]; then amixer sset mysoftvol \"${v}%\" >/dev/null 2>&1 || true; fi; rm -f /tmp/xiaoai-mysoftvol.before".to_owned(),
            abort_command:
                "killall tts_play.sh miplayer 2>/dev/null; mphelper pause 2>/dev/null || true; ubus call mediaplayer media_control '{\"player\":\"mediaplayer\",\"action\":\"pause\",\"volume\":0}' 2>/dev/null || true; ubus call mediaplayer player_play_operation '{\"media\":\"app_ios\",\"action\":\"stop\"}' 2>/dev/null || true".to_owned(),
            led_enabled: true,
            led_listening: 3,
            led_user_speaking: 4,
            led_thinking: 2,
            led_speaking: 5,
        }
    }
}

/// How an utterance is captured.
#[derive(Debug)]
pub struct CaptureConfig {
    pub pcm: String,
    pub channels: u16,
    pub bits_per_sample: u16,
    pub period_size: u32,
    pub buffer_size: u32,
    pub print_levels: bool,
    pub vad: VadSettings,
}

/// The level of six thousandths of full scale: levels are compared by the bits of
/// floating-point numbers, which order as the numbers do where none is negative.
pub const DEFAULT_THRESHOLD: u64 = 0x3f78_9374_bc6a_7efa;

impl Default for CaptureConfig {
    fn default() -> (r: Self)
        ensures
            r.pcm@ == "vpm_asr"@,
            r.channels == 1,
            r.bits_per_sample == 16,
            r.period_size == 360,
            r.buffer_size == 1440,
            !r.print_levels,
            r.vad == (VadSettings {
                sample_rate: 16_000,
                block_ms: 100,
                pre_roll_ms: 300,
                silence_ms: 1_500,
                min_speech_ms: 300,
                max_utterance_ms: 15_000,
                cooldown_ns: 700_000_000,
                threshold: DEFAULT_THRESHOLD,
            }),
            r.vad.fits(),
    {
        CaptureConfig {
            pcm: "vpm_asr".to_owned(),
            channels: 1,
            bits_per_sample: 16,
            period_size: 360,
            buffer_size: 1440,
            print_levels: false,
            vad: VadSettings {
                sample_rate: 16_000,
                block_ms: 100,
                pre_roll_ms: 300,
                silence_ms: 1_500,
                min_speech_ms: 300,
                max_utterance_ms: 15_000,
                cooldown_ns: 700_000_000,
                threshold: DEFAULT_THRESHOLD,
            },
        }
    }
}

/// Which recogniser is used.
#[derive(Debug, Clone, Copy, PartialEq, Eq, Structural)]
pub enum AsrProvider {
    OpenAi,
    OpenAiRealtime,
}

/// A recogniser that takes whole recordings.
#[derive(Debug)]
pub struct OpenAiAsrConfig {
    pub base_url: String,
    pub api_key: String,
    pub model: String,
    pub language: String,
    pub prompt: String,
    pub timeout_ns: u64,
    pub retries: u32,
}

impl Default for OpenAiAsrConfig {
    fn default() -> (r: Self)
        ensures
            r.base_url@ == "https://api.openai.com/v1"@,
            r.api_key@ == "EMPTY"@,
            r.model@ == "whisper-1"@,
            r.language@ == "zh"@,
            r.prompt@ == ""@,
            r.timeout_ns == 30_000_000_000,
            r.retries == 0,
    {
        OpenAiAsrConfig {
            base_url: "https://api.openai.com/v1".to_owned(),
            api_key: "EMPTY".to_owned(),
            model: "whisper-1".to_owned(),
            language: "zh".to_owned(),
            prompt: "".to_owned(),
            timeout_ns: 30_000_000_000,
            retries: 0,
        }
    }
}

/// How a realtime recogniser finds the ends of utterances.
#[derive(Debug)]
pub struct ServerVadConfig {
    pub enabled: bool,
    pub prefix_padding_ms: u64,
    pub silence_duration_ms: u64,
    pub threshold: JsonNumber,
}

/// A recogniser that takes audio as it comes.
#[derive(Debug)]
pub struct OpenAiRealtimeAsrConfig {
    pub base_url: String,
    pub api_key: String,
    pub model: String,
    pub timeout_ns: u64,
    pub retries: u32,
    pub target_sample_rate: u32,
    pub server_vad: ServerVadConfig,
}

/// Speech recognition.
#[derive(Debug)]
pub struct AsrConfig {
    pub provider: AsrProvider,
    pub open_ai: OpenAiAsrConfig,
    pub openai_realtime: OpenAiRealtimeAsrConfig,
}

/// The language model.
#[derive(Debug)]
pub struct LlmConfig {
    pub base_url: String,
    pub api_key: String,
    pub model: String,
    pub timeout_ns: u64,
    pub max_tokens: u64,
    pub retries: u32,
}

impl Default for LlmConfig {
    fn default() -> (r: Self)
        ensures
            r.base_url@ == "https://api.openai.com/v1"@,
            r.api_key@ == "EMPTY"@,
            r.model@ == "gpt-5.4-mini"@,
            r.timeout_ns == 35_000_000_000,
            r.max_tokens == 300,
            r.retries == 1,
    {
        LlmConfig {
            base_url: "https://api.openai.com/v1".to_owned(),
            api_key: "EMPTY".to_owned(),
            model: "gpt-5.4-mini".to_owned(),
            timeout_ns: 35_000_000_000,
            max_tokens: 300,
            retries: 1,
        }
    }
}

/// The weather service.
#[derive(Debug)]
pub struct WeatherConfig {
    pub qweather_url: String,
    pub default_location: String,
    pub ip_lookup_url: String,
    pub timeout_ns: u64,
}

/// Whether these are the settings of the weather service when none are given.
pub open spec fn default_weather(c: WeatherConfig) -> bool {
    &&& c.qweather_url@ == ""@
    &&& c.default_location@ == ""@
    &&& c.ip_lookup_url@ == "https://ipapi.co/json/"@
    &&& c.timeout_ns == 10_000_000_000
}

impl Default for WeatherConfig {
    fn default() -> (r: Self)
        ensures
            default_weather(r),
    {
        WeatherConfig {
            qweather_url: "".to_owned(),
            default_location: "".to_owned(),
            ip_lookup_url: "https://ipapi.co/json/".to_owned(),
            timeout_ns: 10_000_000_000,
        }
    }
}

/// The agent itself.
#[derive(Debug)]
pub struct AgentConfig {
    pub timezone: String,
    pub weather: WeatherConfig,
}

impl Default for AgentConfig {
    fn default() -> (r: Self)
        ensures
            r.timezone@ == "Asia/Shanghai"@,
            default_weather(r.weather),
    {
        AgentConfig { timezone: "Asia/Shanghai".to_owned(), weather: WeatherConfig::default() }
    }
}

/// A tool server. An empty list of tools means all of them.
#[derive(Debug)]
pub struct McpServerConfig {
    pub name: String,
    pub enabled: bool,
    pub url: String,
    pub token: String,
    pub timeout_ns: u64,
    pub tools: Vec<String>,
}

/// The tool server that Home Assistant brings with it.
#[derive(Debug)]
pub struct HomeAssistantMcpConfig {
    pub enabled: bool,
    pub url: String,
    pub token: String,
    pub timeout_ns: u64,
}

/// Whether these are the settings of that server when none are given.
pub open spec fn default_home_assistant(c: HomeAssistantMcpConfig) -> bool {
    &&& !c.enabled
    &&& c.url@ == "http://homeassistant.local:8123/mcp_server/sse"@
    &&& c.token@ == ""@
    &&& c.timeout_ns == 10_000_000_000
}

impl Default for HomeAssistantMcpConfig {
    fn default() -> (r: Self)
        ensures
            default_home_assistant(r),
    {
        HomeAssistantMcpConfig {
            enabled: false,
            url: "http://homeassistant.local:8123/mcp_server/sse".to_owned(),
            token: "".to_owned(),
            timeout_ns: 10_000_000_000,
        }
    }
}

/// The tool servers.
#[derive(Debug)]
pub struct McpConfig {
    pub servers: Vec<McpServerConfig>,
    pub home_assistant: HomeAssistantMcpConfig,
}

impl Default for McpConfig {
    fn default() -> (r: Self)
        ensures
            r.servers@.len() == 0,
            default_home_assistant(r.home_assistant),
    {
        McpConfig { servers: Vec::new(), home_assistant: HomeAssistantMcpConfig::default() }
    }
}

/// What music does while the agent is spoken to.
#[derive(Debug)]
pub struct MusicInterruptionConfig {
    pub mode: String,
}

/// Whether this is the setting when none is given.
pub open spec fn default_interruption(c: MusicInterruptionConfig) -> bool {
    &&& c.mode@ == "pause"@
}

impl Default for MusicInterruptionConfig {
    fn default() -> (r: Self)
        ensures
            default_interruption(r),
    {
        MusicInterruptionConfig { mode: "pause".to_owned() }
    }
}

/// The NetEase music service.
#[derive(Debug)]
pub struct NeteaseConfig {
    pub api_base_url: String,
    pub auto_start: bool,
    pub start_command: Vec<String>,
    pub login_mode: String,
    pub account: String,
    pub phone: String,
    pub password: String,
    pub md5_password: String,
    pub cookie_file: Option<String>,
    pub default_level: String,
    pub timeout_ns: u64,
    pub login_on_start: bool,
}

/// Whether these are the settings of the NetEase service when none are given.
pub open spec fn default_netease(c: NeteaseConfig) -> bool {
    &&& c.api_base_url@ == "http://127.0.0.1:3300"@
    &&& !c.auto_start
    &&& text::texts(c.start_command@) == seq![
        "npx"@,
        "--yes"@,
        "@neteasecloudmusicapienhanced/api"@,
    ]
    &&& c.login_mode@ == "captcha"@
    &&& c.account@ == ""@
    &&& c.phone@ == ""@
    &&& c.password@ == ""@
    &&& c.md5_password@ == ""@
    &&& c.cookie_file is None
    &&& c.default_level@ == "standard"@
    &&& c.timeout_ns == 15_000_000_000
    &&& c.login_on_start
}

impl Default for NeteaseConfig {
    fn default() -> (r: Self)
        ensures
            default_netease(r),
    {
        let mut start_command: Vec<String> = Vec::new();
        start_command.push("npx".to_owned());
        start_command.push("--yes".to_owned());
        start_command.push("@neteasecloudmusicapienhanced/api".to_owned());
        assert(text::texts(start_command@) =~= seq![
            "npx"@,
            "--yes"@,
            "@neteasecloudmusicapienhanced/api"@,
        ]);
        NeteaseConfig {
            api_base_url: "http://127.0.0.1:3300".to_owned(),
            auto_start: false,
            start_command,
            login_mode: "captcha".to_owned(),
            account: "".to_owned(),
            phone: "".to_owned(),
            password: "".to_owned(),
            md5_password: "".to_owned(),
            cookie_file: None,
            default_level: "standard".to_owned(),
            timeout_ns: 15_000_000_000,
            login_on_start: true,
        }
    }
}

/// A Navidrome server.
#[derive(Debug)]
pub struct NavidromeConfig {
    pub base_url: String,
    pub username: String,
    pub password: String,
    pub api_version: String,
    pub timeout_ns: u64,
}

/// Whether these are the settings of a Navidrome server when none are given.
pub open spec fn default_navidrome(c: NavidromeConfig) -> bool {
    &&& c.base_url@ == "http://127.0.0.1:4533"@
    &&& c.username@ == ""@
    &&& c.password@ == ""@
    &&& c.api_version@ == "1.16.1"@
    &&& c.timeout_ns == 15_000_000_000
}

impl Default for NavidromeConfig {
    fn default() -> (r: Self)
        ensures
            default_navidrome(r),
    {
        NavidromeConfig {
            base_url: "http://127.0.0.1:4533".to_owned(),
            username: "".to_owned(),
            password: "".to_owned(),
            api_version: "1.16.1".to_owned(),
            timeout_ns: 15_000_000_000,
        }
    }
}

/// Music.
#[derive(Debug)]
pub struct MusicConfig {
    pub enabled: bool,
    pub provider: String,
    pub interruption: MusicInterruptionConfig,
    pub netease: NeteaseConfig,
    pub navidrome: NavidromeConfig,
}

impl Default for MusicConfig {
    fn default() -> (r: Self)
        ensures
            !r.enabled,
            r.provider@ == "navidrome"@,
            default_interruption(r.interruption),
            default_netease(r.netease),
            default_navidrome(r.navidrome),
    {
        MusicConfig {
            enabled: false,
            provider: "navidrome".to_owned(),
            interruption: MusicInterruptionConfig::default(),
            netease: NeteaseConfig::default(),
            navidrome: NavidromeConfig::default(),
        }
    }
}

/// Where AirPlay audio goes.
#[derive(Debug)]
pub struct AirPlayOutputConfig {
    pub backend: String,
    pub aplay_path: String,
    pub device: String,
    pub format: String,
}

/// Whether these are the settings of the output when none are given.
pub open spec fn default_airplay_output(c: AirPlayOutputConfig) -> bool {
    &&& c.backend@ == "aplay"@
    &&& c.aplay_path@ == "/usr/bin/aplay"@
    &&& c.device@ == "default"@
    &&& c.format@ == "S16_LE"@
}

impl Default for AirPlayOutputConfig {
    fn default() -> (r: Self)
        ensures
            default_airplay_output(r),
    {
        AirPlayOutputConfig {
            backend: "aplay".to_owned(),
            aplay_path: "/usr/bin/aplay".to_owned(),
            device: "default".to_owned(),
            format: "S16_LE".to_owned(),
        }
    }
}

/// The AirPlay receiver.
#[derive(Debug)]
pub struct AirPlayConfig {
    pub enabled: bool,
    pub name: String,
    pub port: u16,
    pub password: String,
    pub hwaddr: String,
    pub output: AirPlayOutputConfig,
    pub interruption_mode: String,
}

impl Default for AirPlayConfig {
    fn default() -> (r: Self)
        ensures
            !r.enabled,
            r.name@ == "XiaoAI AirPlay"@,
            r.port == 5000,
            r.password@ == ""@,
            r.hwaddr@ == ""@,
            default_airplay_output(r.output),
            r.interruption_mode@ == "duck"@,
    {
        AirPlayConfig {
            enabled: false,
            name: "XiaoAI AirPlay".to_owned(),
            port: 5000,
            password: "".to_owned(),
            hwaddr: "".to_owned(),
            output: AirPlayOutputConfig::default(),
            interruption_mode: "duck".to_owned(),
        }
    }
}

/// All settings.
#[derive(Debug)]
pub struct AppConfig {
    pub root: Option<String>,
    pub runtime: RuntimeConfig,
    pub device: DeviceConfig,
    pub capture: CaptureConfig,
    pub asr: AsrConfig,
    pub llm: LlmConfig,
    pub agent: AgentConfig,
    pub mcp: McpConfig,
    pub music: MusicConfig,
    pub airplay: AirPlayConfig,
}

// ------------------------------------------------------------------ base URLs

/// The base of an OpenAI-compatible service: without slashes at its end, and
/// ending in its version.
pub open spec fn base_url_of(raw: Seq<char>) -> Seq<char> {
    let base = text::without_trailing(raw, '/');
    if text::has_suffix(base, "/v1"@) {
        base
    } else {
        base + "/v1"@
    }
}

/// The base of an OpenAI-compatible service.
pub fn openai_base_url(raw: &str) -> (r: String)
    ensures
        r@ == base_url_of(raw@),
{
    let mut base: String = text::trim_end_char(raw, '/');
    if !text::ends_with(base.as_str(), "/v1") {
        base.append("/v1");
    }
    base
}

/// The base of a service is the base of itself: once brought to that form it
/// stays as it is, and it ends in the version.
pub proof fn law_base_url_is_stable(raw: Seq<char>)
    ensures
        base_url_of(base_url_of(raw)) == base_url_of(raw),
        text::has_suffix(base_url_of(raw), "/v1"@),
{
    let base = text::without_trailing(raw, '/');
    let out = base_url_of(raw);
    reveal_strlit("/v1");
    if !text::has_suffix(base, "/v1"@) {
        assert(out.skip(out.len() - 3) =~= "/v1"@);
    }
    assert(out.last() == out.skip(out.len() - 3)[2]);
    assert(text::without_trailing(out, '/') == out);
}

// ---------------------------------------------------------------------- paths

/// Whether a path is absolute: it begins at the root.
pub open spec fn path_is_absolute(path: Seq<char>) -> bool {
    path.len() > 0 && path[0] == '/'
}

/// A relative path below another, with one slash between them.
pub open spec fn path_joined(root: Seq<char>, path: Seq<char>) -> Seq<char> {
    if root.len() == 0 || root.last() == '/' {
        root + path
    } else {
        root + "/"@ + path
    }
}

/// A path seen from a root: absolute paths stay as they are.
pub open spec fn resolved_path(root: Seq<char>, path: Seq<char>) -> Seq<char> {
    if path_is_absolute(path) {
        path
    } else {
        path_joined(root, path)
    }
}

/// Resolves a path from a root.
pub fn resolve_path(root: &str, path: &str) -> (r: String)
    ensures
        r@ == resolved_path(root@, path@),
{
    let given: Vec<char> = text::chars_of(path);
    if given.len() > 0 && given[0] == '/' {
        return path.to_owned();
    }
    let above: Vec<char> = text::chars_of(root);
    let mut out: String = root.to_owned();
    if above.len() > 0 && above[above.len() - 1] != '/' {
        out.append("/");
    }
    out.append(path);
    out
}

/// Resolves a path from a root, where there is a path.
pub fn resolve_optional_path(root: &str, path: &mut Option<String>)
    ensures
        match *old(path) {
            Some(p) => *final(path) matches Some(q) && q@ == resolved_path(root@, p@),
            None => *final(path) is None,
        },
{
    let resolved: Option<String> = match path {
        Some(p) => Some(resolve_path(root, p.as_str())),
        None => None,
    };
    *path = resolved;
}

/// A resolved path stays what it is: seen from anywhere, once it is absolute.
pub proof fn law_resolved_paths_stay(root: Seq<char>, other: Seq<char>, path: Seq<char>)
    requires
        path_is_absolute(root),
    ensures
        path_is_absolute(resolved_path(root, path)),
        resolved_path(other, resolved_path(root, path)) == resolved_path(root, path),
{
}

impl AppConfig {
    /// Brings settings that were just read into shape: `found_root` is the root
    /// where none was given, paths are seen from the root, and the bases of the
    /// services are brought to their form.
    pub fn finish(&mut self, found_root: String)
        ensures
            final(self).root matches Some(root) && {
                &&& root@ == match old(self).root {
                    Some(given) => given@,
                    None => found_root@,
                }
                &&& match old(self).music.netease.cookie_file {
                    Some(p) => final(self).music.netease.cookie_file matches Some(q) && q@
                        == resolved_path(root@, p@),
                    None => final(self).music.netease.cookie_file is None,
                }
            },
            final(self).llm.base_url@ == base_url_of(old(self).llm.base_url@),
            final(self).asr.open_ai.base_url@ == base_url_of(old(self).asr.open_ai.base_url@),
            *final(self) == (AppConfig {
                root: final(self).root,
                llm: LlmConfig { base_url: final(self).llm.base_url, ..old(self).llm },
                asr: AsrConfig {
                    open_ai: OpenAiAsrConfig {
                        base_url: final(self).asr.open_ai.base_url,
                        ..old(self).asr.open_ai
                    },
                    ..old(self).asr
                },
                music: MusicConfig {
                    netease: NeteaseConfig {
                        cookie_file: final(self).music.netease.cookie_file,
                        ..old(self).music.netease
                    },
                    ..old(self).music
                },
                ..*old(self)
            }),
    {
        let root: String = match &self.root {
            Some(given) => given.clone(),
            None => found_root,
        };
        resolve_optional_path(root.as_str(), &mut self.music.netease.cookie_file);
        self.llm.base_url = openai_base_url(self.llm.base_url.as_str());
        self.asr.open_ai.base_url = openai_base_url(self.asr.open_ai.base_url.as_str());
        self.root = Some(root);
    }
}

/// Whether music may be played at all.
pub fn require_music_enabled(config: &MusicConfig) -> (r: Result<(), String>)
    ensures
        r is Ok <==> config.enabled,
        r matches Err(e) ==> e@ == "music.enabled is false"@,
{
    if config.enabled {
        Ok(())
    } else {
        Err("music.enabled is false".to_owned())
    }
}

/// The base of a service always ends in its version: where it is not named it is
/// added, and slashes at the end are taken off first.
pub proof fn law_base_urls_name_the_version(raw: Seq<char>)
    ensures
        ({
            let base = text::without_trailing(raw, '/');
            &&& text::has_suffix(base_url_of(raw), "/v1"@)
            &&& text::has_suffix(base, "/v1"@) ==> base_url_of(raw) == base
            &&& !text::has_suffix(base, "/v1"@) ==> base_url_of(raw) == base + "/v1"@
            &&& base_url_of(raw.push('/')) == base_url_of(raw)
        }),
{
    let base = text::without_trailing(raw, '/');
    assert((base + "/v1"@).skip(base.len() as int) =~= "/v1"@);
    assert(raw.push('/').drop_last() =~= raw);
    assert(raw.push('/').last() == '/');
}

/// A path that starts at the root stays as it is; any other is seen from the given
/// root, with one slash between.
pub proof fn law_paths_are_seen_from_the_root(root: Seq<char>, path: Seq<char>)
    ensures
        resolved_path(root, seq!['/'] + path) == seq!['/'] + path,
        path.len() == 0 || path[0] != '/' ==> ({
            &&& root.len() > 0 && root.last() != '/' ==> resolved_path(root, path) == root + "/"@
                + path
            &&& root.len() > 0 && root.last() == '/' ==> resolved_path(root, path) == root + path
            &&& root.len() == 0 ==> resolved_path(root, path) == path
        }),
{
    assert((seq!['/'] + path)[0] == '/');
    assert(Seq::<char>::empty() + path =~= path);
    if root.len() == 0 {
        assert(root + path =~= path);
    }
}

/// What holds where nothing is set: who is asked, how long is waited, and that neither
/// Home Assistant nor a service of its own is started.
pub proof fn law_settings_by_default(
    weather: WeatherConfig,
    home: HomeAssistantMcpConfig,
    netease: NeteaseConfig,
    navidrome: NavidromeConfig,
    output: AirPlayOutputConfig,
    interruption: MusicInterruptionConfig,
)
    requires
        default_weather(weather),
        default_home_assistant(home),
        default_netease(netease),
        default_navidrome(navidrome),
        default_airplay_output(output),
        default_interruption(interruption),
    ensures
        weather.timeout_ns == 10_000_000_000 && home.timeout_ns == 10_000_000_000,
        netease.timeout_ns == 15_000_000_000 && navidrome.timeout_ns == 15_000_000_000,
        weather.ip_lookup_url@ == "https://ipapi.co/json/"@,
        weather.qweather_url@ == ""@ && weather.default_location@ == ""@,
        !home.enabled && home.token@ == ""@,
        home.url@ == "http://homeassistant.local:8123/mcp_server/sse"@,
        netease.api_base_url@ == "http://127.0.0.1:3300"@,
        !netease.auto_start && netease.login_on_start && netease.cookie_file is None,
        netease.login_mode@ == "captcha"@ && netease.default_level@ == "standard"@,
        netease.account@ == ""@ && netease.phone@ == ""@,
        navidrome.base_url@ == "http://127.0.0.1:4533"@ && navidrome.api_version@ == "1.16.1"@,
        output.backend@ == "aplay"@ && output.aplay_path@ == "/usr/bin/aplay"@,
        output.device@ == "default"@ && output.format@ == "S16_LE"@,
        interruption.mode@ == "pause"@,
{
}

} // verus!
