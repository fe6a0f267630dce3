//! Speech recognition: by whole recordings, and by a stream of audio.
use vstd::prelude::*;
use crate::audio;
use crate::config::{AsrConfig, AsrProvider, OpenAiAsrConfig, OpenAiRealtimeAsrConfig};
use crate::config::ServerVadConfig;
use crate::faults::{caused, plain, Fault, FaultModel};
use crate::json;
use crate::json::{Json, JsonTree, NumberTree};
use crate::text;
use crate::urls;
use crate::urls::UrlParts;

verus! {

/// What a realtime recogniser says of a turn. Times are in milliseconds of audio.
#[derive(Debug, Clone, PartialEq, Eq)]
pub enum RealtimeAsrEvent {
    SpeechStarted { audio_start_ms: u64 },
    SpeechStopped { audio_end_ms: u64 },
    Transcript(String),
}

/// What a realtime recogniser says of a turn, as a mathematical value.
pub enum AsrNotice {
    SpeechStarted(u64),
    SpeechStopped(u64),
    Transcript(Seq<char>),
}

impl View for RealtimeAsrEvent {
    type V = AsrNotice;

    open spec fn view(&self) -> AsrNotice {
        match self {
            RealtimeAsrEvent::SpeechStarted { audio_start_ms } => AsrNotice::SpeechStarted(
                *audio_start_ms,
            ),
            RealtimeAsrEvent::SpeechStopped { audio_end_ms } => AsrNotice::SpeechStopped(
                *audio_end_ms,
            ),
            RealtimeAsrEvent::Transcript(text) => AsrNotice::Transcript(text@),
        }
    }
}

// -------------------------------------------------------------------- clients

/// The recogniser in use.
pub enum AsrClient {
    OpenAi(OpenAiAsr),
    OpenAiRealtime(OpenAiRealtimeAsr),
}

impl AsrClient {
    /// The recogniser that the settings ask for.
    pub fn new(config: AsrConfig) -> (r: Self)
        ensures
            match config.provider {
                AsrProvider::OpenAi => r matches AsrClient::OpenAi(asr) && asr.config
                    == config.open_ai,
                AsrProvider::OpenAiRealtime => r matches AsrClient::OpenAiRealtime(asr)
                    && asr.config == config.openai_realtime,
            },
    {
        match config.provider {
            AsrProvider::OpenAi => AsrClient::OpenAi(OpenAiAsr::new(config.open_ai)),
            AsrProvider::OpenAiRealtime => AsrClient::OpenAiRealtime(
                OpenAiRealtimeAsr::new(config.openai_realtime),
            ),
        }
    }

    /// Whether audio is sent while it is recorded.
    pub fn streams(&self) -> (r: bool)
        ensures
            r == (self is OpenAiRealtime),
    {
        match self {
            AsrClient::OpenAi(_) => false,
            AsrClient::OpenAiRealtime(_) => true,
        }
    }
}

/// A recogniser that takes whole recordings.
pub struct OpenAiAsr {
    pub config: OpenAiAsrConfig,
}

/// A recogniser that takes audio as it comes.
pub struct OpenAiRealtimeAsr {
    pub config: OpenAiRealtimeAsrConfig,
}

/// The tries that a request is given: one, and as many more as there are retries.
#[derive(Debug, Clone, Copy, PartialEq, Eq, Structural)]
pub struct Attempts {
    /// The number of the try that runs, from one on.
    pub current: u32,
    pub total: u32,
}

/// The number of tries for a number of retries.
pub open spec fn attempts_for(retries: u32) -> u32 {
    if retries == u32::MAX {
        u32::MAX
    } else {
        (retries + 1) as u32
    }
}

impl Attempts {
    /// Whether the running try is one of those there are.
    pub open spec fn ok(self) -> bool {
        1 <= self.current <= self.total
    }

    /// The first try.
    pub fn new(retries: u32) -> (r: Self)
        ensures
            r == (Attempts { current: 1, total: attempts_for(retries) }),
            r.ok(),
    {
        Attempts { current: 1, total: retries.saturating_add(1) }
    }

    /// Goes on to the next try after a failure, where there is one.
    pub fn failed(&mut self) -> (again: bool)
        requires
            old(self).ok(),
        ensures
            final(self).ok(),
            again == (old(self).current < old(self).total),
            *final(self) == if again {
                Attempts { current: (old(self).current + 1) as u32, ..*old(self) }
            } else {
                *old(self)
            },
    {
        if self.current < self.total {
            self.current = self.current + 1;
            true
        } else {
            false
        }
    }
}

/// The credentials to send with a request: none for a blank key or a stand-in.
pub open spec fn bearer_of(api_key: Seq<char>) -> Option<Seq<char>> {
    if !text::is_blank(api_key) && api_key != "EMPTY"@ {
        Some(api_key)
    } else {
        None
    }
}

/// The credentials to send with a request.
pub fn bearer(api_key: &str) -> (r: Option<String>)
    ensures
        match bearer_of(api_key@) {
            Some(key) => r matches Some(x) && x@ == key,
            None => r is None,
        },
{
    if !text::blank(api_key) && !text::same_text(api_key, "EMPTY") {
        Some(api_key.to_owned())
    } else {
        None
    }
}

// ----------------------------------------------------------- whole recordings

/// A request to transcribe a recording: a form with text fields and the file
/// `speech.wav`.
#[derive(Debug)]
pub struct TranscriptionRequest {
    pub url: String,
    pub fields: Vec<(String, String)>,
    pub wav: Vec<u8>,
    pub bearer: Option<String>,
}

/// The text fields of a transcription request: language and prompt only where
/// they are not blank.
pub open spec fn transcription_fields(config: OpenAiAsrConfig) -> Seq<(Seq<char>, Seq<char>)> {
    let model = seq![("model"@, config.model@)];
    let language = if text::is_blank(config.language@) {
        model
    } else {
        model.push(("language"@, config.language@))
    };
    if text::is_blank(config.prompt@) {
        language
    } else {
        language.push(("prompt"@, config.prompt@))
    }
}

impl OpenAiAsr {
    /// A recogniser with the settings.
    pub fn new(config: OpenAiAsrConfig) -> (r: Self)
        ensures
            r.config == config,
    {
        OpenAiAsr { config }
    }

    /// The tries that a recording is given.
    pub fn attempts(&self) -> (r: Attempts)
        ensures
            r == (Attempts { current: 1, total: attempts_for(self.config.retries) }),
    {
        Attempts::new(self.config.retries)
    }

    /// The request that transcribes a recording.
    pub fn transcription_request(&self, pcm: &[u8], sample_rate: u32) -> (r: TranscriptionRequest)
        requires
            sample_rate * 2 <= u32::MAX,
            36 + pcm@.len() as int % 0x1_0000_0000 <= u32::MAX,
        ensures
            r.url@ == text::without_trailing(self.config.base_url@, '/')
                + "/audio/transcriptions"@,
            urls::pairs_of(r.fields@) == transcription_fields(self.config),
            r.wav@ == audio::wav_header(
                pcm@.len() as int % 0x1_0000_0000,
                sample_rate as int,
            ) + pcm@,
            match bearer_of(self.config.api_key@) {
                Some(key) => r.bearer matches Some(x) && x@ == key,
                None => r.bearer is None,
            },
    {
        let mut url: String = text::trim_end_char(self.config.base_url.as_str(), '/');
        url.append("/audio/transcriptions");
        let mut fields: Vec<(String, String)> = Vec::new();
        fields.push(urls::pair("model", self.config.model.as_str()));
        if !text::blank(self.config.language.as_str()) {
            fields.push(urls::pair("language", self.config.language.as_str()));
        }
        if !text::blank(self.config.prompt.as_str()) {
            fields.push(urls::pair("prompt", self.config.prompt.as_str()));
        }
        assert(urls::pairs_of(fields@) =~= transcription_fields(self.config));
        TranscriptionRequest {
            url,
            fields,
            wav: audio::wav_bytes(pcm, sample_rate),
            bearer: bearer(self.config.api_key.as_str()),
        }
    }
}

/// What a transcription came to: the text without white space around it, or why
/// there is none. `parsed` is the text that the body holds, or the parser's
/// error, which is then the cause.
pub fn transcription_result(
    success: bool,
    status: &str,
    body: &str,
    parsed: Result<String, String>,
) -> (r: Result<String, Fault>)
    ensures
        match r {
            Ok(t) => success && parsed is Ok && t@ == text::trimmed(parsed->Ok_0@),
            Err(e) => if !success {
                e@ == plain("ASR request failed status="@ + status@ + " body="@ + body@)
            } else {
                parsed is Err && e@ == caused(
                    "invalid ASR response: "@ + body@,
                    plain(parsed->Err_0@),
                )
            },
        },
{
    if !success {
        let mut out: String = "ASR request failed status=".to_owned();
        out.append(status);
        out.append(" body=");
        out.append(body);
        return Err(Fault::new(out.as_str()));
    }
    match parsed {
        Ok(t) => Ok(text::trim(t.as_str())),
        Err(e) => {
            let mut out: String = "invalid ASR response: ".to_owned();
            out.append(body);
            Err(Fault::new(e.as_str()).context(out.as_str()))
        },
    }
}

// ------------------------------------------------------------ opening a stream

/// The scheme of the socket of a service.
pub open spec fn socket_scheme(scheme: Seq<char>) -> Option<Seq<char>> {
    if scheme == "http"@ || scheme == "ws"@ {
        Some("ws"@)
    } else if scheme == "https"@ || scheme == "wss"@ {
        Some("wss"@)
    } else {
        None
    }
}

/// The path of the socket of a service whose own path is `path`.
pub open spec fn realtime_path(path: Seq<char>) -> Seq<char> {
    let base = text::without_trailing(path, '/');
    if base.len() == 0 {
        "/v1/realtime"@
    } else if text::has_suffix(base, "/realtime"@) {
        base
    } else if text::has_suffix(base, "/v1"@) {
        base + "/realtime"@
    } else {
        base + "/v1/realtime"@
    }
}

/// The socket URL of a service at `url`, asking for `model`.
pub open spec fn realtime_url(url: urls::UrlModel, model: Seq<char>) -> Result<
    Seq<char>,
    FaultModel,
> {
    match socket_scheme(url.scheme) {
        None => Err(plain("unsupported Realtime ASR URL scheme: "@ + url.scheme)),
        Some(scheme) => match urls::url_with_scheme(url.href, scheme) {
            None => Err(plain("unsupported Realtime ASR URL scheme: "@ + scheme)),
            Some(href) => match urls::edited(
                href,
                Some(realtime_path(url.path)),
                true,
                seq![("model"@, model)],
            ) {
                Ok(href) => Ok(href),
                Err(e) => Err(plain(e)),
            },
        },
    }
}

/// Whether there is room for that URL.
pub open spec fn realtime_room(url: urls::UrlModel, model: Seq<char>) -> bool {
    socket_scheme(url.scheme) matches Some(scheme) ==> {
        &&& urls::room(url.href, urls::size(scheme))
        &&& urls::url_with_scheme(url.href, scheme) matches Some(href) ==> urls::edit_room(
            href,
            Some(realtime_path(url.path)),
            true,
            seq![("model"@, model)],
        )
    }
}

/// The socket URL of a service, or why it has none.
pub open spec fn realtime_url_of(base_url: Seq<char>, model: Seq<char>) -> Result<
    Seq<char>,
    FaultModel,
> {
    match urls::spelled_url(text::without_trailing(base_url, '/')) {
        Err(e) => Err(caused("invalid Realtime ASR base_url: "@ + base_url, plain(e))),
        Ok(url) => realtime_url(url, model),
    }
}

/// The path of the socket of a service whose own path is `path`.
pub fn make_realtime_path(path: &str) -> (r: String)
    ensures
        r@ == realtime_path(path@),
{
    let mut base: String = text::trim_end_char(path, '/');
    if base.as_str().is_empty() {
        return "/v1/realtime".to_owned();
    }
    if text::ends_with(base.as_str(), "/realtime") {
        return base;
    }
    if text::ends_with(base.as_str(), "/v1") {
        base.append("/realtime");
    } else {
        base.append("/v1/realtime");
    }
    base
}

/// The socket URL of the service at a URL that was taken apart.
pub fn realtime_ws_url_from(url: &UrlParts, model: &str) -> (r: Result<String, Fault>)
    requires
        realtime_room(url@, model@),
    ensures
        match realtime_url(url@, model@) {
            Ok(s) => r matches Ok(x) && x@ == s,
            Err(e) => r matches Err(x) && x@ == e,
        },
{
    let scheme: &str = match socket_scheme_for(url.scheme.as_str()) {
        Some(scheme) => scheme,
        None => {
            let mut out: String = "unsupported Realtime ASR URL scheme: ".to_owned();
            out.append(url.scheme.as_str());
            return Err(Fault::new(out.as_str()));
        },
    };
    let href: String = match urls::set_scheme(url.href.as_str(), scheme) {
        Some(href) => href,
        None => {
            let mut out: String = "unsupported Realtime ASR URL scheme: ".to_owned();
            out.append(scheme);
            return Err(Fault::new(out.as_str()));
        },
    };
    let path: String = make_realtime_path(url.path.as_str());
    let pairs: Vec<(String, String)> = model_pairs(model);
    match urls::edit_url(href.as_str(), Some(path.as_str()), true, &pairs) {
        Ok(href) => Ok(href),
        Err(e) => Err(Fault::new(e.as_str())),
    }
}

fn socket_scheme_for(given: &str) -> (r: Option<&'static str>)
    ensures
        match socket_scheme(given@) {
            Some(scheme) => r matches Some(x) && x@ == scheme,
            None => r is None,
        },
{
    if text::same_text(given, "http") || text::same_text(given, "ws") {
        Some("ws")
    } else if text::same_text(given, "https") || text::same_text(given, "wss") {
        Some("wss")
    } else {
        None
    }
}

fn model_pairs(model: &str) -> (r: Vec<(String, String)>)
    ensures
        urls::pairs_of(r@) == seq![("model"@, model@)],
{
    let mut pairs: Vec<(String, String)> = Vec::new();
    pairs.push(urls::pair("model", model));
    assert(urls::pairs_of(pairs@) =~= seq![("model"@, model@)]);
    pairs
}

fn has_realtime_room(url: &UrlParts, model: &str) -> (r: bool)
    ensures
        r == realtime_room(url@, model@),
{
    let scheme: &str = match socket_scheme_for(url.scheme.as_str()) {
        Some(scheme) => scheme,
        None => {
            return true;
        },
    };
    if !urls::has_room(url.href.as_str(), urls::size_of(scheme)) {
        return false;
    }
    match urls::set_scheme(url.href.as_str(), scheme) {
        Some(href) => {
            let path: String = make_realtime_path(url.path.as_str());
            let pairs: Vec<(String, String)> = model_pairs(model);
            urls::has_edit_room(href.as_str(), Some(path.as_str()), true, &pairs)
        },
        None => true,
    }
}

/// Whether there is room for the socket URL of a service.
pub open spec fn realtime_room_at(base_url: Seq<char>, model: Seq<char>) -> bool {
    urls::spelled_url(text::without_trailing(base_url, '/')) matches Ok(url) ==> realtime_room(
        url,
        model,
    )
}

/// The socket URL of a service.
pub fn realtime_ws_url(base_url: &str, model: &str) -> (r: Result<String, Fault>)
    requires
        realtime_room_at(base_url@, model@),
    ensures
        match realtime_url_of(base_url@, model@) {
            Ok(s) => r matches Ok(x) && x@ == s,
            Err(e) => r matches Err(x) && x@ == e,
        },
{
    let base: String = text::trim_end_char(base_url, '/');
    match urls::parse_url(base.as_str()) {
        Ok(url) => realtime_ws_url_from(&url, model),
        Err(e) => {
            let mut out: String = "invalid Realtime ASR base_url: ".to_owned();
            out.append(base_url);
            Err(Fault::new(e.as_str()).context(out.as_str()))
        },
    }
}

/// How the service is asked to find the ends of utterances.
pub open spec fn turn_detection_tree(vad: ServerVadConfig) -> JsonTree {
    if vad.enabled {
        JsonTree::Object(
            seq![
                ("type"@, JsonTree::Text("server_vad"@)),
                (
                    "prefix_padding_ms"@,
                    JsonTree::Number(NumberTree::Unsigned(vad.prefix_padding_ms)),
                ),
                (
                    "silence_duration_ms"@,
                    JsonTree::Number(NumberTree::Unsigned(vad.silence_duration_ms)),
                ),
                ("threshold"@, JsonTree::Number(vad.threshold@)),
            ],
        )
    } else {
        JsonTree::Null
    }
}

/// An object with one member.
pub open spec fn single(name: Seq<char>, value: JsonTree) -> JsonTree {
    JsonTree::Object(seq![(name, value)])
}

/// The first event of a stream: what is sent, and what is wanted of it.
pub open spec fn session_update_tree(model: Seq<char>, vad: ServerVadConfig) -> JsonTree {
    let input = JsonTree::Object(
        seq![
            ("format"@, JsonTree::Text("pcm16"@)),
            ("turn_detection"@, turn_detection_tree(vad)),
            ("transcription"@, single("model"@, JsonTree::Text(model))),
        ],
    );
    JsonTree::Object(
        seq![
            ("type"@, JsonTree::Text("session.update"@)),
            (
                "session"@,
                JsonTree::Object(
                    seq![
                        ("type"@, JsonTree::Text("transcription"@)),
                        ("audio"@, single("input"@, input)),
                    ],
                ),
            ),
        ],
    )
}

fn single_json(name: &str, value: Json) -> (r: Json)
    ensures
        json::tree(r) == single(name@, json::tree(value)),
{
    let mut members: Vec<(String, Json)> = Vec::new();
    members.push(json::entry(name, value));
    assert(json::members_tree(members@) =~= seq![(name@, json::tree(value))]);
    json::object(members)
}

fn turn_detection_json(vad: &ServerVadConfig) -> (r: Json)
    ensures
        json::tree(r) == turn_detection_tree(*vad),
{
    if !vad.enabled {
        return Json::Null;
    }
    let mut members: Vec<(String, Json)> = Vec::new();
    members.push(json::entry("type", json::text_json("server_vad")));
    members.push(json::entry("prefix_padding_ms", json::number_json(vad.prefix_padding_ms)));
    members.push(json::entry("silence_duration_ms", json::number_json(vad.silence_duration_ms)));
    members.push(json::entry("threshold", Json::Number(vad.threshold.copy())));
    assert(json::members_tree(members@) =~= turn_detection_tree(*vad)->Object_0);
    json::object(members)
}

impl OpenAiRealtimeAsr {
    /// A recogniser with the settings.
    pub fn new(config: OpenAiRealtimeAsrConfig) -> (r: Self)
        ensures
            r.config == config,
    {
        OpenAiRealtimeAsr { config }
    }

    /// The tries that a recording is given.
    pub fn attempts(&self) -> (r: Attempts)
        ensures
            r == (Attempts { current: 1, total: attempts_for(self.config.retries) }),
    {
        Attempts::new(self.config.retries)
    }

    /// The socket to open; nothing where there is no room for its URL.
    pub fn socket_url(&self) -> (r: Option<Result<String, Fault>>)
        ensures
            r is Some <==> realtime_room_at(self.config.base_url@, self.config.model@),
            r matches Some(made) ==> match realtime_url_of(
                self.config.base_url@,
                self.config.model@,
            ) {
                Ok(s) => made matches Ok(x) && x@ == s,
                Err(e) => made matches Err(x) && x@ == e,
            },
    {
        let base: String = text::trim_end_char(self.config.base_url.as_str(), '/');
        let fits: bool = match urls::parse_url(base.as_str()) {
            Ok(url) => has_realtime_room(&url, self.config.model.as_str()),
            Err(_) => true,
        };
        if fits {
            Some(realtime_ws_url(self.config.base_url.as_str(), self.config.model.as_str()))
        } else {
            None
        }
    }

    /// The headers to open the socket with.
    pub fn socket_headers(&self) -> (r: Vec<(String, String)>)
        ensures
            urls::pairs_of(r@) == match bearer_of(self.config.api_key@) {
                Some(key) => seq![
                    ("openai-beta"@, "realtime=v1"@),
                    ("authorization"@, "Bearer "@ + key),
                ],
                None => seq![("openai-beta"@, "realtime=v1"@)],
            },
    {
        let mut out: Vec<(String, String)> = Vec::new();
        out.push(urls::pair("openai-beta", "realtime=v1"));
        if let Some(key) = bearer(self.config.api_key.as_str()) {
            let mut value: String = "Bearer ".to_owned();
            value.append(key.as_str());
            out.push(urls::pair("authorization", value.as_str()));
        }
        assert(urls::pairs_of(out@) =~= match bearer_of(self.config.api_key@) {
            Some(key) => seq![
                ("openai-beta"@, "realtime=v1"@),
                ("authorization"@, "Bearer "@ + key),
            ],
            None => seq![("openai-beta"@, "realtime=v1"@)],
        });
        out
    }

    /// The first event of a stream.
    pub fn session_update(&self) -> (r: Json)
        ensures
            json::tree(r) == session_update_tree(self.config.model@, self.config.server_vad),
    {
        let ghost expected = session_update_tree(self.config.model@, self.config.server_vad);
        let mut input: Vec<(String, Json)> = Vec::new();
        input.push(json::entry("format", json::text_json("pcm16")));
        input.push(json::entry("turn_detection", turn_detection_json(&self.config.server_vad)));
        input.push(
            json::entry(
                "transcription",
                single_json("model", json::text_json(self.config.model.as_str())),
            ),
        );
        let ghost wanted = seq![
            ("format"@, JsonTree::Text("pcm16"@)),
            ("turn_detection"@, turn_detection_tree(self.config.server_vad)),
            ("transcription"@, single("model"@, JsonTree::Text(self.config.model@))),
        ];
        assert(json::members_tree(input@) =~= wanted);
        let input: Json = json::object(input);
        let mut session: Vec<(String, Json)> = Vec::new();
        session.push(json::entry("type", json::text_json("transcription")));
        session.push(json::entry("audio", single_json("input", input)));
        assert(json::members_tree(session@) =~= seq![
            ("type"@, JsonTree::Text("transcription"@)),
            ("audio"@, single("input"@, JsonTree::Object(wanted))),
        ]);
        let session: Json = json::object(session);
        let mut out: Vec<(String, Json)> = Vec::new();
        out.push(json::entry("type", json::text_json("session.update")));
        out.push(json::entry("session", session));
        assert(json::members_tree(out@) =~= expected->Object_0);
        json::object(out)
    }

    /// The first event of a stream, as it is sent.
    pub fn session_update_text(&self) -> (r: String)
        ensures
            r@ == json::written_json(
                session_update_tree(self.config.model@, self.config.server_vad),
            ),
    {
        json::json_text(&self.session_update())
    }

    /// An open stream for audio at a sample rate.
    pub fn session(&self, sample_rate: u32) -> (r: RealtimeAsrSession)
        ensures
            r == (RealtimeAsrSession {
                sample_rate,
                target_sample_rate: self.config.target_sample_rate,
                server_vad_enabled: self.config.server_vad.enabled,
            }),
    {
        RealtimeAsrSession {
            sample_rate,
            target_sample_rate: self.config.target_sample_rate,
            server_vad_enabled: self.config.server_vad.enabled,
        }
    }
}

// -------------------------------------------------------------- feeding audio

/// An open stream.
#[derive(Debug, Clone, Copy, PartialEq, Eq, Structural)]
pub struct RealtimeAsrSession {
    pub sample_rate: u32,
    pub target_sample_rate: u32,
    pub server_vad_enabled: bool,
}

impl RealtimeAsrSession {
    /// What audio is fed through.
    pub fn appender(&self) -> (r: RealtimeAsrAppender)
        ensures
            r == (RealtimeAsrAppender {
                sample_rate: self.sample_rate,
                target_sample_rate: self.target_sample_rate,
            }),
    {
        RealtimeAsrAppender {
            sample_rate: self.sample_rate,
            target_sample_rate: self.target_sample_rate,
        }
    }

    /// Whether the service finds the ends of utterances.
    pub fn server_vad_enabled(&self) -> (r: bool)
        ensures
            r == self.server_vad_enabled,
    {
        self.server_vad_enabled
    }
}

/// What audio is fed through.
#[derive(Debug, Clone, Copy, PartialEq, Eq, Structural)]
pub struct RealtimeAsrAppender {
    pub sample_rate: u32,
    pub target_sample_rate: u32,
}

/// What a stream can be told.
#[derive(Debug)]
pub enum RealtimeStreamCommand {
    Append(Vec<u8>),
    Clear,
    Commit,
    Close,
}

impl RealtimeAsrAppender {
    /// The command that feeds audio, at the rate of the service. No audio needs
    /// none.
    pub fn append_pcm(&self, pcm: &[u8]) -> (r: Result<Option<RealtimeStreamCommand>, String>)
        requires
            (pcm@.len() / 2) * self.target_sample_rate <= u64::MAX,
            self.sample_rate > 0 ==> 2 * audio::output_len(
                (pcm@.len() / 2) as int,
                self.sample_rate as int,
                self.target_sample_rate as int,
            ) <= usize::MAX,
        ensures
            match audio::resample_refusal(
                pcm@.len() as int,
                self.sample_rate as int,
                self.target_sample_rate as int,
            ) {
                Some(reason) => r matches Err(e) && e@ == reason,
                None => {
                    let resampled = audio::resampled_pcm(
                        pcm@,
                        self.sample_rate as int,
                        self.target_sample_rate as int,
                    );
                    if resampled.len() == 0 {
                        r matches Ok(None)
                    } else {
                        r matches Ok(Some(RealtimeStreamCommand::Append(out))) && out@ == resampled
                    }
                },
            },
    {
        match audio::resample_pcm16_mono_linear(pcm, self.sample_rate, self.target_sample_rate) {
            Ok(out) => {
                if out.len() == 0 {
                    Ok(None)
                } else {
                    Ok(Some(RealtimeStreamCommand::Append(out)))
                }
            },
            Err(e) => Err(e),
        }
    }
}

// ---------------------------------------------------------- running a stream

/// Bytes in the standard Base64 alphabet, with padding.
pub uninterp spec fn base64_of(bytes: Seq<u8>) -> Seq<char>;

/// `base64::engine::general_purpose::STANDARD.encode`: a function of the bytes.
#[verifier::external_body]
fn base64_text(bytes: &[u8]) -> (r: String)
    requires
        bytes@.len() <= usize::MAX / 2,
    ensures
        r@ == base64_of(bytes@),
{
    base64::Engine::encode(&base64::engine::general_purpose::STANDARD, bytes)
}

/// What the socket of a stream says.
#[derive(Debug)]
pub enum SocketMessage {
    Text(String),
    Close,
    Other,
    Failed(String),
    Ended,
}

/// Something for a stream to do.
#[derive(Debug)]
pub enum StreamAction {
    /// Send a text message.
    Send(String),
    /// Hand an event to the owner.
    Emit(RealtimeAsrEvent),
    /// Hand an error to the owner.
    EmitError(Fault),
    /// Close the socket.
    CloseSocket,
    /// The stream is over.
    Stop,
}

/// Something for a stream to do, as a mathematical value.
pub enum StreamDeed {
    Send(Seq<char>),
    Emit(AsrNotice),
    EmitError(FaultModel),
    CloseSocket,
    Stop,
}

impl View for StreamAction {
    type V = StreamDeed;

    open spec fn view(&self) -> StreamDeed {
        match self {
            StreamAction::Send(text) => StreamDeed::Send(text@),
            StreamAction::Emit(event) => StreamDeed::Emit(event@),
            StreamAction::EmitError(message) => StreamDeed::EmitError(message@),
            StreamAction::CloseSocket => StreamDeed::CloseSocket,
            StreamAction::Stop => StreamDeed::Stop,
        }
    }
}

/// A list of things to do as mathematical values.
pub open spec fn stream_deeds(actions: Seq<StreamAction>) -> Seq<StreamDeed> {
    actions.map_values(|a: StreamAction| a@)
}

/// An event with a type and nothing else.
pub open spec fn bare_event(kind: Seq<char>) -> JsonTree {
    single("type"@, JsonTree::Text(kind))
}

/// The event that carries audio.
pub open spec fn append_event(audio: Seq<u8>) -> JsonTree {
    JsonTree::Object(
        seq![
            ("type"@, JsonTree::Text("input_audio_buffer.append"@)),
            ("audio"@, JsonTree::Text(base64_of(audio))),
        ],
    )
}

/// A stream: what has been recognised so far.
#[derive(Debug)]
pub struct RealtimeStream {
    pub last_delta: String,
}

/// What a command does to a stream that has recognised `delta` so far.
pub open spec fn command_step(delta: Seq<char>, command: Option<RealtimeStreamCommand>) -> (
    Seq<char>,
    Seq<StreamDeed>,
) {
    match command {
        None => (delta, seq![StreamDeed::CloseSocket, StreamDeed::Stop]),
        Some(RealtimeStreamCommand::Close) => (
            delta,
            seq![StreamDeed::CloseSocket, StreamDeed::Stop],
        ),
        Some(RealtimeStreamCommand::Append(audio)) => (
            delta,
            seq![StreamDeed::Send(json::written_json(append_event(audio@)))],
        ),
        Some(RealtimeStreamCommand::Clear) => (
            Seq::empty(),
            seq![StreamDeed::Send(json::written_json(bare_event("input_audio_buffer.clear"@)))],
        ),
        Some(RealtimeStreamCommand::Commit) => (
            delta,
            seq![StreamDeed::Send(json::written_json(bare_event("input_audio_buffer.commit"@)))],
        ),
    }
}

/// The start or end of speech that an event tells of.
pub open spec fn turn_event(event: JsonTree) -> Option<AsrNotice> {
    let kind = json::text_of(json::member(event, "type"@));
    if kind == Some("input_audio_buffer.speech_started"@) {
        Some(AsrNotice::SpeechStarted(or_zero(json::u64_of(json::member(event, "audio_start_ms"@)))))
    } else if kind == Some("input_audio_buffer.speech_stopped"@) {
        Some(AsrNotice::SpeechStopped(or_zero(json::u64_of(json::member(event, "audio_end_ms"@)))))
    } else {
        None
    }
}

/// A number, or zero.
pub open spec fn or_zero(value: Option<u64>) -> u64 {
    match value {
        Some(n) => n,
        None => 0,
    }
}

/// What an event says is wrong: its message, else its code, else all of it.
pub open spec fn error_text(event: JsonTree) -> Seq<char> {
    let error = json::member(event, "error"@);
    match json::text_of(json::member_of(error, "message"@)) {
        Some(message) => message,
        None => match json::text_of(json::member_of(error, "code"@)) {
            Some(code) => code,
            None => json::written_json(event),
        },
    }
}

/// What an event does to a stream that has recognised `delta` so far.
pub open spec fn event_step(delta: Seq<char>, event: JsonTree) -> (Seq<char>, Seq<StreamDeed>) {
    let kind = json::text_of(json::member(event, "type"@));
    if turn_event(event) is Some {
        (delta, seq![StreamDeed::Emit(turn_event(event)->0)])
    } else if kind == Some("conversation.item.input_audio_transcription.completed"@) {
        let transcript = match json::text_of(json::member(event, "transcript"@)) {
            Some(transcript) => transcript,
            None => Seq::empty(),
        };
        (
            delta,
            seq![
                StreamDeed::Emit(AsrNotice::Transcript(text::trimmed(transcript))),
                StreamDeed::CloseSocket,
                StreamDeed::Stop,
            ],
        )
    } else if kind == Some("conversation.item.input_audio_transcription.delta"@) {
        (
            match json::text_of(json::member(event, "delta"@)) {
                Some(more) => delta + more,
                None => delta,
            },
            Seq::empty(),
        )
    } else if kind == Some("error"@) {
        (
            delta,
            seq![
                StreamDeed::EmitError(plain("Realtime ASR error: "@ + error_text(event))),
                StreamDeed::Stop,
            ],
        )
    } else if kind == Some("conversation.item.input_audio_transcription.failed"@) {
        (
            delta,
            seq![
                StreamDeed::EmitError(
                    plain("Realtime ASR transcription failed: "@ + error_text(event)),
                ),
                StreamDeed::Stop,
            ],
        )
    } else {
        (delta, Seq::empty())
    }
}

/// What a stream that has recognised `delta` so far does with a text message.
pub open spec fn text_step(delta: Seq<char>, message: Seq<char>) -> (Seq<char>, Seq<StreamDeed>) {
    match json::spelled_json(message) {
        Ok(event) => event_step(delta, event),
        Err(e) => (
            delta,
            seq![
                StreamDeed::EmitError(
                    plain("invalid Realtime ASR event JSON: "@ + e + ": "@ + message),
                ),
                StreamDeed::Stop,
            ],
        ),
    }
}

/// What a stream that has recognised `delta` so far does with a message. When the
/// socket ends by itself, what was recognised so far is the transcript.
pub open spec fn socket_step(delta: Seq<char>, message: SocketMessage) -> (
    Seq<char>,
    Seq<StreamDeed>,
) {
    match message {
        SocketMessage::Text(message) => text_step(delta, message@),
        SocketMessage::Other => (delta, Seq::empty()),
        SocketMessage::Close => (
            delta,
            seq![
                StreamDeed::EmitError(
                    plain("Realtime ASR websocket closed before transcript completed"@),
                ),
                StreamDeed::Stop,
            ],
        ),
        SocketMessage::Failed(e) => (
            delta,
            seq![
                StreamDeed::EmitError(plain("read Realtime ASR websocket message: "@ + e@)),
                StreamDeed::Stop,
            ],
        ),
        SocketMessage::Ended => (
            delta,
            if text::is_blank(delta) {
                seq![
                    StreamDeed::EmitError(
                        plain("Realtime ASR websocket ended before transcript completed"@),
                    ),
                    StreamDeed::Stop,
                ]
            } else {
                seq![
                    StreamDeed::Emit(AsrNotice::Transcript(text::trimmed(delta))),
                    StreamDeed::Stop,
                ]
            },
        ),
    }
}

/// The start or end of speech that an event tells of.
pub fn realtime_turn_event(event: &Json) -> (r: Option<RealtimeAsrEvent>)
    ensures
        match turn_event(json::tree(*event)) {
            Some(notice) => r matches Some(e) && e@ == notice,
            None => r is None,
        },
{
    let kind: String = match json::str_of(event.get("type")) {
        Some(kind) => kind,
        None => {
            return None;
        },
    };
    if text::same_text(kind.as_str(), "input_audio_buffer.speech_started") {
        let audio_start_ms: u64 = match event.get("audio_start_ms") {
            Some(value) => match value.as_u64() {
                Some(n) => n,
                None => 0,
            },
            None => 0,
        };
        Some(RealtimeAsrEvent::SpeechStarted { audio_start_ms })
    } else if text::same_text(kind.as_str(), "input_audio_buffer.speech_stopped") {
        let audio_end_ms: u64 = match event.get("audio_end_ms") {
            Some(value) => match value.as_u64() {
                Some(n) => n,
                None => 0,
            },
            None => 0,
        };
        Some(RealtimeAsrEvent::SpeechStopped { audio_end_ms })
    } else {
        None
    }
}

/// What an event says is wrong.
pub fn realtime_error_message(event: &Json) -> (r: String)
    ensures
        r@ == error_text(json::tree(*event)),
{
    let error: Option<&Json> = event.get("error");
    if let Some(message) = json::str_of(json::get_of(error, "message")) {
        return message;
    }
    if let Some(code) = json::str_of(json::get_of(error, "code")) {
        return code;
    }
    json::json_text(event)
}

impl RealtimeStream {
    /// A stream that has recognised nothing.
    pub fn new() -> (r: Self)
        ensures
            r.last_delta@ == Seq::<char>::empty(),
    {
        RealtimeStream { last_delta: String::new() }
    }

    /// The owner commands, or is gone.
    pub fn command(&mut self, command: Option<RealtimeStreamCommand>) -> (r: Vec<StreamAction>)
        requires
            command matches Some(RealtimeStreamCommand::Append(audio)) ==> audio@.len()
                <= usize::MAX / 2,
        ensures
            (final(self).last_delta@, stream_deeds(r@)) == command_step(
                old(self).last_delta@,
                command,
            ),
    {
        let ghost expected = command_step(self.last_delta@, command);
        let mut out: Vec<StreamAction> = Vec::new();
        match command {
            None => {
                out.push(StreamAction::CloseSocket);
                out.push(StreamAction::Stop);
            },
            Some(RealtimeStreamCommand::Close) => {
                out.push(StreamAction::CloseSocket);
                out.push(StreamAction::Stop);
            },
            Some(RealtimeStreamCommand::Append(audio)) => {
                let mut members: Vec<(String, Json)> = Vec::new();
                members.push(json::entry("type", json::text_json("input_audio_buffer.append")));
                let encoded: String = base64_text(audio.as_slice());
                members.push(json::entry("audio", json::text_json(encoded.as_str())));
                assert(json::members_tree(members@) =~= append_event(audio@)->Object_0);
                out.push(StreamAction::Send(json::json_text(&json::object(members))));
            },
            Some(RealtimeStreamCommand::Clear) => {
                self.last_delta = String::new();
                let event: Json = single_json("type", json::text_json("input_audio_buffer.clear"));
                out.push(StreamAction::Send(json::json_text(&event)));
            },
            Some(RealtimeStreamCommand::Commit) => {
                let event: Json = single_json("type", json::text_json("input_audio_buffer.commit"));
                out.push(StreamAction::Send(json::json_text(&event)));
            },
        }
        assert(stream_deeds(out@) =~= expected.1);
        out
    }

    /// A message could not be sent.
    pub fn send_failed(&self, fault: Fault) -> (r: Vec<StreamAction>)
        ensures
            stream_deeds(r@) == seq![StreamDeed::EmitError(fault@), StreamDeed::Stop],
    {
        let mut out: Vec<StreamAction> = Vec::new();
        out.push(StreamAction::EmitError(fault));
        out.push(StreamAction::Stop);
        assert(stream_deeds(out@) =~= seq![StreamDeed::EmitError(fault@), StreamDeed::Stop]);
        out
    }

    /// The service sends an event.
    pub fn event(&mut self, event: &Json) -> (r: Vec<StreamAction>)
        ensures
            (final(self).last_delta@, stream_deeds(r@)) == event_step(
                old(self).last_delta@,
                json::tree(*event),
            ),
    {
        let ghost expected = event_step(self.last_delta@, json::tree(*event));
        let mut out: Vec<StreamAction> = Vec::new();
        if let Some(notice) = realtime_turn_event(event) {
            out.push(StreamAction::Emit(notice));
            assert(stream_deeds(out@) =~= expected.1);
            return out;
        }
        if let Some(kind) = json::str_of(event.get("type")) {
            let kind: &str = kind.as_str();
            if text::same_text(kind, "conversation.item.input_audio_transcription.completed") {
                let transcript: String = match json::str_of(event.get("transcript")) {
                    Some(transcript) => transcript,
                    None => String::new(),
                };
                out.push(
                    StreamAction::Emit(
                        RealtimeAsrEvent::Transcript(text::trim(transcript.as_str())),
                    ),
                );
                out.push(StreamAction::CloseSocket);
                out.push(StreamAction::Stop);
            } else if text::same_text(kind, "conversation.item.input_audio_transcription.delta") {
                if let Some(more) = json::str_of(event.get("delta")) {
                    self.last_delta.append(more.as_str());
                }
            } else if text::same_text(kind, "error") {
                let mut message: String = "Realtime ASR error: ".to_owned();
                message.append(realtime_error_message(event).as_str());
                out.push(StreamAction::EmitError(Fault::new(message.as_str())));
                out.push(StreamAction::Stop);
            } else if text::same_text(kind, "conversation.item.input_audio_transcription.failed") {
                let mut message: String = "Realtime ASR transcription failed: ".to_owned();
                message.append(realtime_error_message(event).as_str());
                out.push(StreamAction::EmitError(Fault::new(message.as_str())));
                out.push(StreamAction::Stop);
            }
        }
        assert(stream_deeds(out@) =~= expected.1);
        out
    }

    /// The socket says something.
    pub fn message(&mut self, message: SocketMessage) -> (r: Vec<StreamAction>)
        ensures
            (final(self).last_delta@, stream_deeds(r@)) == socket_step(
                old(self).last_delta@,
                message,
            ),
    {
        let ghost expected = socket_step(self.last_delta@, message);
        let mut out: Vec<StreamAction> = Vec::new();
        match message {
            SocketMessage::Text(message) => match json::parse_json(message.as_str()) {
                Ok(event) => {
                    return self.event(&event);
                },
                Err(e) => {
                    let mut text: String = "invalid Realtime ASR event JSON: ".to_owned();
                    text.append(e.as_str());
                    text.append(": ");
                    text.append(message.as_str());
                    out.push(StreamAction::EmitError(Fault::new(text.as_str())));
                    out.push(StreamAction::Stop);
                },
            },
            SocketMessage::Other => {},
            SocketMessage::Close => {
                out.push(
                    StreamAction::EmitError(
                        Fault::new("Realtime ASR websocket closed before transcript completed"),
                    ),
                );
                out.push(StreamAction::Stop);
            },
            SocketMessage::Failed(e) => {
                let mut text: String = "read Realtime ASR websocket message: ".to_owned();
                text.append(e.as_str());
                out.push(StreamAction::EmitError(Fault::new(text.as_str())));
                out.push(StreamAction::Stop);
            },
            SocketMessage::Ended => {
                let transcript: String = text::trim(self.last_delta.as_str());
                if transcript.as_str().is_empty() {
                    out.push(
                        StreamAction::EmitError(
                            Fault::new("Realtime ASR websocket ended before transcript completed"),
                        ),
                    );
                } else {
                    out.push(StreamAction::Emit(RealtimeAsrEvent::Transcript(transcript)));
                }
                out.push(StreamAction::Stop);
            },
        }
        assert(stream_deeds(out@) =~= expected.1);
        out
    }
}

/// The transcript, where an event is one: what a caller that only wants the
/// transcript waits for.
pub fn transcript_of(event: RealtimeAsrEvent) -> (r: Option<String>)
    ensures
        match event@ {
            AsrNotice::Transcript(t) => r matches Some(x) && x@ == t,
            _ => r is None,
        },
{
    match event {
        RealtimeAsrEvent::Transcript(t) => Some(t),
        _ => None,
    }
}

// ----------------------------------------------------------------------- laws

/// A stream is over exactly where that is the last thing an event or message
/// leads to, and it says so at most once.
pub proof fn law_stream_stops_last(delta: Seq<char>, message: SocketMessage, i: int)
    requires
        0 <= i < socket_step(delta, message).1.len(),
        socket_step(delta, message).1[i] is Stop,
    ensures
        i == socket_step(delta, message).1.len() - 1,
{
    if let SocketMessage::Text(text) = message {
        if let Ok(event) = json::spelled_json(text@) {
            assert(socket_step(delta, message) == event_step(delta, event));
        }
    }
}

/// What is recognised piece by piece adds up.
pub proof fn law_deltas_add_up(delta: Seq<char>, event: JsonTree, more: Seq<char>)
    requires
        json::text_of(json::member(event, "type"@)) == Some(
            "conversation.item.input_audio_transcription.delta"@,
        ),
        json::text_of(json::member(event, "delta"@)) == Some(more),
    ensures
        event_step(delta, event) == (delta + more, Seq::<StreamDeed>::empty()),
{
    reveal_strlit("conversation.item.input_audio_transcription.delta");
    reveal_strlit("conversation.item.input_audio_transcription.completed");
    reveal_strlit("input_audio_buffer.speech_started");
    reveal_strlit("input_audio_buffer.speech_stopped");
    assert("conversation.item.input_audio_transcription.delta"@.len() == 49);
    assert("conversation.item.input_audio_transcription.completed"@.len() == 53);
    assert("input_audio_buffer.speech_started"@.len() == 33);
    assert("input_audio_buffer.speech_stopped"@.len() == 33);
}

/// A request gets one try more than it has retries, until the count is full.
pub proof fn law_attempts(retries: u32)
    ensures
        attempts_for(retries) >= 1,
        retries < u32::MAX ==> attempts_for(retries) == retries + 1,
{
}

/// The types of events differ.
proof fn lemma_types_differ()
    ensures
        "input_audio_buffer.speech_started"@ != "input_audio_buffer.speech_stopped"@,
        "conversation.item.input_audio_transcription.completed"@.len() == 53,
        "conversation.item.input_audio_transcription.delta"@.len() == 49,
        "conversation.item.input_audio_transcription.failed"@.len() == 50,
        "input_audio_buffer.speech_started"@.len() == 33,
        "input_audio_buffer.speech_stopped"@.len() == 33,
        "error"@.len() == 5,
{
    reveal_strlit("conversation.item.input_audio_transcription.completed");
    reveal_strlit("conversation.item.input_audio_transcription.delta");
    reveal_strlit("conversation.item.input_audio_transcription.failed");
    reveal_strlit("input_audio_buffer.speech_started");
    reveal_strlit("input_audio_buffer.speech_stopped");
    reveal_strlit("error");
    assert("input_audio_buffer.speech_started"@[28] == 'a');
    assert("input_audio_buffer.speech_stopped"@[28] == 'o');
}

/// The final transcript is the whole of it: whatever was recognised before, piece by
/// piece, has no part in it. Then the socket is closed and the stream is over.
pub proof fn law_final_transcript_is_the_whole(
    delta: Seq<char>,
    event: JsonTree,
    transcript: Seq<char>,
)
    requires
        json::text_of(json::member(event, "type"@)) == Some(
            "conversation.item.input_audio_transcription.completed"@,
        ),
    ensures
        json::text_of(json::member(event, "transcript"@)) == Some(transcript) ==> event_step(
            delta,
            event,
        ).1 == seq![
            StreamDeed::Emit(AsrNotice::Transcript(text::trimmed(transcript))),
            StreamDeed::CloseSocket,
            StreamDeed::Stop,
        ],
        json::text_of(json::member(event, "transcript"@)) is None ==> event_step(delta, event).1
            == seq![
            StreamDeed::Emit(AsrNotice::Transcript(text::trimmed(Seq::empty()))),
            StreamDeed::CloseSocket,
            StreamDeed::Stop,
        ],
        forall|other: Seq<char>|
            #[trigger] event_step(other, event).1 == event_step(delta, event).1,
{
    lemma_types_differ();
}

/// What a stream does with events, one after another.
pub open spec fn stream_run(delta: Seq<char>, events: Seq<JsonTree>) -> (
    Seq<char>,
    Seq<StreamDeed>,
)
    decreases events.len(),
{
    if events.len() == 0 {
        (delta, Seq::empty())
    } else {
        let (before, done) = stream_run(delta, events.drop_last());
        let (after, more) = event_step(before, events.last());
        (after, done + more)
    }
}

/// Texts one after another.
pub open spec fn joined(pieces: Seq<Seq<char>>) -> Seq<char>
    decreases pieces.len(),
{
    if pieces.len() == 0 {
        Seq::empty()
    } else {
        joined(pieces.drop_last()) + pieces.last()
    }
}

/// Where the socket ends by itself, the pieces recognised so far, one after another,
/// are the transcript; without any there is none, and that is an error. Clearing the
/// audio forgets them.
pub proof fn law_pieces_are_the_transcript_at_the_end(
    events: Seq<JsonTree>,
    pieces: Seq<Seq<char>>,
)
    requires
        events.len() == pieces.len(),
        forall|i: int|
            0 <= i < events.len() ==> json::text_of(json::member(#[trigger] events[i], "type"@))
                == Some("conversation.item.input_audio_transcription.delta"@) && json::text_of(
                json::member(events[i], "delta"@),
            ) == Some(pieces[i]),
    ensures
        ({
            let (delta, done) = stream_run(Seq::empty(), events);
            let out = socket_step(delta, SocketMessage::Ended).1;
            &&& done.len() == 0
            &&& text::trimmed(joined(pieces)).len() > 0 ==> out == seq![
                StreamDeed::Emit(AsrNotice::Transcript(text::trimmed(joined(pieces)))),
                StreamDeed::Stop,
            ]
            &&& text::trimmed(joined(pieces)).len() == 0 ==> out == seq![
                StreamDeed::EmitError(
                    plain("Realtime ASR websocket ended before transcript completed"@),
                ),
                StreamDeed::Stop,
            ]
            &&& command_step(delta, Some(RealtimeStreamCommand::Clear)).0.len() == 0
            &&& command_step(delta, Some(RealtimeStreamCommand::Commit)).0 == delta
        }),
{
    lemma_pieces(events, pieces);
}

proof fn lemma_pieces(events: Seq<JsonTree>, pieces: Seq<Seq<char>>)
    requires
        events.len() == pieces.len(),
        forall|i: int|
            0 <= i < events.len() ==> json::text_of(json::member(#[trigger] events[i], "type"@))
                == Some("conversation.item.input_audio_transcription.delta"@) && json::text_of(
                json::member(events[i], "delta"@),
            ) == Some(pieces[i]),
    ensures
        stream_run(Seq::empty(), events) == (joined(pieces), Seq::<StreamDeed>::empty()),
    decreases events.len(),
{
    lemma_types_differ();
    if events.len() > 0 {
        let front = events.drop_last();
        let some = pieces.drop_last();
        assert forall|i: int| 0 <= i < front.len() implies json::text_of(
            json::member(#[trigger] front[i], "type"@),
        ) == Some("conversation.item.input_audio_transcription.delta"@) && json::text_of(
            json::member(front[i], "delta"@),
        ) == Some(some[i]) by {
            assert(front[i] == events[i]);
        }
        lemma_pieces(front, some);
        assert(events[events.len() - 1] == events.last());
        assert(Seq::<StreamDeed>::empty() + Seq::<StreamDeed>::empty() =~= Seq::<
            StreamDeed,
        >::empty());
    }
}

/// What the service tells of speech is handed on with its time, and an error of the
/// service, or of a transcription, ends the stream with what it says of itself: its
/// message, else its code, else all of the event. Any other event is passed over.
pub proof fn law_events_are_handed_on(delta: Seq<char>, event: JsonTree, kind: Seq<char>)
    requires
        json::text_of(json::member(event, "type"@)) == Some(kind),
    ensures
        ({
            let out = event_step(delta, event);
            let number = |name: Seq<char>|
                match json::member(event, name) {
                    Some(JsonTree::Number(NumberTree::Unsigned(n))) => n,
                    _ => 0u64,
                };
            let error = json::member(event, "error"@);
            let reason = match (
                json::text_of(json::member_of(error, "message"@)),
                json::text_of(json::member_of(error, "code"@)),
            ) {
                (Some(message), _) => message,
                (None, Some(code)) => code,
                (None, None) => json::written_json(event),
            };
            &&& kind == "input_audio_buffer.speech_started"@ ==> out == (
                delta,
                seq![StreamDeed::Emit(AsrNotice::SpeechStarted(number("audio_start_ms"@)))],
            )
            &&& kind == "input_audio_buffer.speech_stopped"@ ==> out == (
                delta,
                seq![StreamDeed::Emit(AsrNotice::SpeechStopped(number("audio_end_ms"@)))],
            )
            &&& kind == "error"@ ==> out == (
                delta,
                seq![
                    StreamDeed::EmitError(plain("Realtime ASR error: "@ + reason)),
                    StreamDeed::Stop,
                ],
            )
            &&& kind == "conversation.item.input_audio_transcription.failed"@ ==> out == (
                delta,
                seq![
                    StreamDeed::EmitError(plain("Realtime ASR transcription failed: "@ + reason)),
                    StreamDeed::Stop,
                ],
            )
            &&& kind != "input_audio_buffer.speech_started"@ && kind
                != "input_audio_buffer.speech_stopped"@ && kind != "error"@ && kind
                != "conversation.item.input_audio_transcription.failed"@ && kind
                != "conversation.item.input_audio_transcription.completed"@ && kind
                != "conversation.item.input_audio_transcription.delta"@ ==> out == (
                delta,
                Seq::<StreamDeed>::empty(),
            )
        }),
{
    lemma_types_differ();
}

/// What a stream is told becomes one message to the service, which carries the audio
/// and nothing is lost of it; closing, or losing its owner, ends the stream.
pub proof fn law_commands_become_messages(delta: Seq<char>, audio: Vec<u8>)
    ensures
        command_step(delta, Some(RealtimeStreamCommand::Append(audio))) == (
            delta,
            seq![
                StreamDeed::Send(
                    json::written_json(
                        JsonTree::Object(
                            seq![
                                ("type"@, JsonTree::Text("input_audio_buffer.append"@)),
                                ("audio"@, JsonTree::Text(base64_of(audio@))),
                            ],
                        ),
                    ),
                ),
            ],
        ),
        command_step(delta, Some(RealtimeStreamCommand::Commit)).1 == seq![
            StreamDeed::Send(
                json::written_json(
                    JsonTree::Object(
                        seq![("type"@, JsonTree::Text("input_audio_buffer.commit"@))],
                    ),
                ),
            ),
        ],
        command_step(delta, Some(RealtimeStreamCommand::Clear)).1 == seq![
            StreamDeed::Send(
                json::written_json(
                    JsonTree::Object(
                        seq![("type"@, JsonTree::Text("input_audio_buffer.clear"@))],
                    ),
                ),
            ),
        ],
        command_step(delta, Some(RealtimeStreamCommand::Close)).1 == seq![
            StreamDeed::CloseSocket,
            StreamDeed::Stop,
        ],
        command_step(delta, None).1 == seq![StreamDeed::CloseSocket, StreamDeed::Stop],
{
}

/// A socket that closes or fails ends the stream with the reason, whatever was
/// recognised; what is no text is passed over, and a text that is no JSON is an
/// error.
pub proof fn law_sockets_that_fail_end_the_stream(
    delta: Seq<char>,
    reason: String,
    message: String,
    e: Seq<char>,
)
    ensures
        socket_step(delta, SocketMessage::Close).1 == seq![
            StreamDeed::EmitError(
                plain("Realtime ASR websocket closed before transcript completed"@),
            ),
            StreamDeed::Stop,
        ],
        socket_step(delta, SocketMessage::Failed(reason)).1 == seq![
            StreamDeed::EmitError(plain("read Realtime ASR websocket message: "@ + reason@)),
            StreamDeed::Stop,
        ],
        socket_step(delta, SocketMessage::Other) == (delta, Seq::<StreamDeed>::empty()),
        json::spelled_json(message@) == Err::<JsonTree, Seq<char>>(e) ==> socket_step(
            delta,
            SocketMessage::Text(message),
        ).1 == seq![
            StreamDeed::EmitError(
                plain("invalid Realtime ASR event JSON: "@ + e + ": "@ + message@),
            ),
            StreamDeed::Stop,
        ],
        forall|event: JsonTree|
            json::spelled_json(message@) == Ok::<JsonTree, Seq<char>>(event) ==> socket_step(
                delta,
                SocketMessage::Text(message),
            ) == #[trigger] event_step(delta, event),
{
}

/// The path of the socket always ends in `/realtime`, keeps what the service's path
/// says before, names the version where that path does not, and is not changed
/// again.
pub proof fn law_socket_paths(path: Seq<char>)
    ensures
        ({
            let base = text::without_trailing(path, '/');
            let made = realtime_path(path);
            &&& text::has_suffix(made, "/realtime"@)
            &&& text::has_suffix(base, "/realtime"@) ==> made == base
            &&& !text::has_suffix(base, "/realtime"@) && text::has_suffix(base, "/v1"@) ==> made
                == base + "/realtime"@
            &&& !text::has_suffix(base, "/realtime"@) && !text::has_suffix(base, "/v1"@) ==> made
                == base + "/v1/realtime"@
            &&& realtime_path(made) == made
        }),
{
    let base = text::without_trailing(path, '/');
    let made = realtime_path(path);
    reveal_strlit("/realtime");
    reveal_strlit("/v1/realtime");
    reveal_strlit("/v1");
    let tail = "/realtime"@;
    let long = "/v1/realtime"@;
    assert(long.skip(3) =~= tail);
    if base.len() == 0 {
        assert(base + long =~= long);
        assert(made.skip(made.len() - tail.len()) =~= tail);
    } else if !text::has_suffix(base, tail) {
        assert(made.skip(made.len() - tail.len()) =~= tail);
    }
    assert(made.last() == tail.last());
    assert(text::without_trailing(made, '/') == made);
}

/// The socket of a service is as safe as the service: what is served over TLS is
/// spoken to over TLS, and nothing else has a socket.
pub proof fn law_socket_schemes(scheme: Seq<char>)
    ensures
        scheme == "http"@ || scheme == "ws"@ ==> socket_scheme(scheme) == Some("ws"@),
        scheme == "https"@ || scheme == "wss"@ ==> socket_scheme(scheme) == Some("wss"@),
        scheme != "http"@ && scheme != "ws"@ && scheme != "https"@ && scheme != "wss"@
            ==> socket_scheme(scheme) is None,
{
    reveal_strlit("http");
    reveal_strlit("ws");
    reveal_strlit("https");
    reveal_strlit("wss");
    assert("http"@.len() == 4 && "ws"@.len() == 2 && "https"@.len() == 5 && "wss"@.len() == 3);
}

/// A key is sent exactly where one is given: neither white space nor the stand-in is
/// one. It is sent as it is.
pub proof fn law_keys_are_sent(api_key: Seq<char>)
    ensures
        bearer_of(api_key) is Some <==> text::trimmed(api_key).len() > 0 && api_key != "EMPTY"@,
        bearer_of(api_key) matches Some(key) ==> key == api_key,
{
}

/// A recording is sent with the model always, and with the language and the prompt
/// where they are given, each as it is.
pub proof fn law_transcription_asks_for_what_is_set(config: OpenAiAsrConfig)
    ensures
        ({
            let fields = transcription_fields(config);
            let language = text::trimmed(config.language@).len() > 0;
            let prompt = text::trimmed(config.prompt@).len() > 0;
            &&& fields[0] == ("model"@, config.model@)
            &&& language ==> fields[1] == ("language"@, config.language@)
            &&& prompt ==> fields.last() == ("prompt"@, config.prompt@)
            &&& fields.len() == 1 + (if language {
                1nat
            } else {
                0
            }) + (if prompt {
                1nat
            } else {
                0
            })
        }),
{
}

/// The first event of a stream says that it is to be transcribed, in which format it
/// is sent and by which model; where the service is to find the ends of utterances,
/// how, else that it is not to.
pub proof fn law_streams_say_what_they_want(model: Seq<char>, vad: ServerVadConfig)
    ensures
        ({
            let event = session_update_tree(model, vad);
            let session = json::member(event, "session"@);
            let input = json::member_of(json::member_of(session, "audio"@), "input"@);
            let ends = json::member_of(input, "turn_detection"@);
            let number = |n: u64| Some(JsonTree::Number(NumberTree::Unsigned(n)));
            &&& json::member(event, "type"@) == Some(JsonTree::Text("session.update"@))
            &&& json::member_of(session, "type"@) == Some(JsonTree::Text("transcription"@))
            &&& json::member_of(input, "format"@) == Some(JsonTree::Text("pcm16"@))
            &&& json::member_of(json::member_of(input, "transcription"@), "model"@) == Some(
                JsonTree::Text(model),
            )
            &&& !vad.enabled ==> ends == Some(JsonTree::Null)
            &&& vad.enabled ==> {
                &&& json::member_of(ends, "type"@) == Some(JsonTree::Text("server_vad"@))
                &&& json::member_of(ends, "prefix_padding_ms"@) == number(vad.prefix_padding_ms)
                &&& json::member_of(ends, "silence_duration_ms"@) == number(vad.silence_duration_ms)
                &&& json::member_of(ends, "threshold"@) == Some(JsonTree::Number(vad.threshold@))
            }
        }),
{
    reveal_strlit("type");
    reveal_strlit("session");
    reveal_strlit("audio");
    reveal_strlit("input");
    reveal_strlit("format");
    reveal_strlit("turn_detection");
    reveal_strlit("transcription");
    reveal_strlit("prefix_padding_ms");
    reveal_strlit("silence_duration_ms");
    reveal_strlit("threshold");
    assert("type"@.len() == 4 && "session"@.len() == 7 && "audio"@.len() == 5);
    assert("format"@.len() == 6 && "turn_detection"@.len() == 14 && "transcription"@.len() == 13);
    assert("prefix_padding_ms"@.len() == 17 && "silence_duration_ms"@.len() == 19);
    assert("threshold"@.len() == 9);
    reveal_with_fuel(json::member_from, 5);
}

/// The socket of a service is asked for under the scheme of sockets, at its own path,
/// with the model and nothing else behind it; slashes at the end of the base do not
/// matter.
pub proof fn law_sockets_are_asked_for_the_model(
    base: Seq<char>,
    url: urls::UrlModel,
    scheme: Seq<char>,
    href: Seq<char>,
    asked: Seq<char>,
    model: Seq<char>,
)
    requires
        text::without_trailing(base, '/') == base,
        urls::spelled_url(base) == Ok::<urls::UrlModel, Seq<char>>(url),
        socket_scheme(url.scheme) == Some(scheme),
        urls::url_with_scheme(url.href, scheme) == Some(href),
        urls::edited(href, Some(realtime_path(url.path)), true, seq![("model"@, model)]) == Ok::<
            Seq<char>,
            Seq<char>,
        >(asked),
    ensures
        realtime_url_of(base, model) == Ok::<Seq<char>, FaultModel>(asked),
        realtime_url_of(base.push('/'), model) == Ok::<Seq<char>, FaultModel>(asked),
{
    assert(base.push('/').drop_last() =~= base);
    assert(base.push('/').last() == '/');
}

/// What an event says is wrong: its message where it has one, else its code, else all
/// of it as it is written.
pub proof fn law_errors_are_told(event: JsonTree, message: Seq<char>, code: Seq<char>)
    ensures
        ({
            let wrong = |error: JsonTree| error_text(JsonTree::Object(seq![("error"@, error)]));
            &&& wrong(
                JsonTree::Object(
                    seq![("code"@, JsonTree::Text(code)), ("message"@, JsonTree::Text(message))],
                ),
            ) == message
            &&& wrong(JsonTree::Object(seq![("code"@, JsonTree::Text(code))])) == code
            &&& json::member(event, "error"@) is None ==> error_text(event) == json::written_json(
                event,
            )
        }),
{
    reveal_strlit("code");
    reveal_strlit("message");
    assert("code"@.len() == 4 && "message"@.len() == 7);
    reveal_with_fuel(json::member_from, 3);
}

} // verus!
