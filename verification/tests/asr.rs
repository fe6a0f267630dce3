use xiaoai_agent::asr::{
    bearer, make_realtime_path, realtime_error_message, realtime_turn_event, realtime_ws_url,
    transcript_of, transcription_result, AsrClient, Attempts, OpenAiAsr, OpenAiRealtimeAsr,
    RealtimeAsrEvent, RealtimeStream, RealtimeStreamCommand, SocketMessage, StreamAction,
};
use xiaoai_agent::audio::{resample_pcm16_mono_linear, wav_bytes};
use xiaoai_agent::config::{
    AsrConfig, AsrProvider, OpenAiAsrConfig, OpenAiRealtimeAsrConfig, ServerVadConfig,
};
use xiaoai_agent::faults::Fault;
use xiaoai_agent::json::{parse_json, Json, JsonNumber};

fn json(text: &str) -> Json {
    parse_json(text).unwrap()
}

fn whole() -> OpenAiAsrConfig {
    OpenAiAsrConfig {
        base_url: "https://asr.example/v1/".to_string(),
        api_key: "key".to_string(),
        model: "whisper-1".to_string(),
        language: "zh".to_string(),
        prompt: "  ".to_string(),
        timeout_ns: 30_000_000_000,
        retries: 2,
    }
}

fn realtime(api_key: &str, vad: bool) -> OpenAiRealtimeAsrConfig {
    OpenAiRealtimeAsrConfig {
        base_url: "https://asr.example".to_string(),
        api_key: api_key.to_string(),
        model: "m".to_string(),
        timeout_ns: 1,
        retries: 0,
        target_sample_rate: 24_000,
        server_vad: ServerVadConfig {
            enabled: vad,
            prefix_padding_ms: 300,
            silence_duration_ms: 500,
            threshold: JsonNumber::Float("0.5".to_string()),
        },
    }
}

fn samples(values: &[i16]) -> Vec<u8> {
    values.iter().flat_map(|v| v.to_le_bytes()).collect()
}

#[test]
fn realtime_ws_url_normalizes_http_base() {
    let url = realtime_ws_url("http://100.83.50.55:4400/v1", "gpt-realtime-whisper").unwrap();
    assert_eq!(
        url,
        "ws://100.83.50.55:4400/v1/realtime?model=gpt-realtime-whisper"
    );
}

#[test]
fn realtime_urls_of_other_bases() {
    assert_eq!(
        realtime_ws_url("https://asr.example/", "a b").unwrap(),
        "wss://asr.example/v1/realtime?model=a+b"
    );
    assert_eq!(
        realtime_ws_url("wss://asr.example/x/realtime?old=1", "m").unwrap(),
        "wss://asr.example/x/realtime?model=m"
    );
    assert_eq!(
        realtime_ws_url("ftp://asr.example", "m").unwrap_err(),
        Fault::new("unsupported Realtime ASR URL scheme: ftp")
    );
    assert_eq!(
        realtime_ws_url("no url/", "m").unwrap_err(),
        Fault::new("relative URL without a base")
            .context("invalid Realtime ASR base_url: no url/")
    );
    assert_eq!(make_realtime_path("/"), "/v1/realtime");
    assert_eq!(make_realtime_path("/api//"), "/api/v1/realtime");
    assert_eq!(make_realtime_path("/api/v1"), "/api/v1/realtime");
}

#[test]
fn realtime_resampler_upsamples_16k_to_24k() {
    let pcm = [0i16, 16_000, -16_000, 0]
        .into_iter()
        .flat_map(i16::to_le_bytes)
        .collect::<Vec<_>>();
    let resampled = resample_pcm16_mono_linear(&pcm, 16_000, 24_000).unwrap();
    assert_eq!(resampled.len(), 6 * 2);
    assert_eq!(
        resampled,
        samples(&[0, 10_667, 5_333, -16_000, -5_333, 0])
    );
}

#[test]
fn resampling_down_and_not_at_all() {
    let pcm = samples(&[1, 2, 3, 4, 5]);
    assert_eq!(
        resample_pcm16_mono_linear(&pcm, 16_000, 16_000).unwrap(),
        pcm
    );
    assert_eq!(
        resample_pcm16_mono_linear(&pcm, 16_000, 8_000).unwrap(),
        samples(&[1, 3, 5])
    );
    assert_eq!(
        resample_pcm16_mono_linear(&samples(&[-1, 0]), 1, 2).unwrap(),
        samples(&[-1, -1, 0, 0])
    );
    assert!(resample_pcm16_mono_linear(&[], 8_000, 16_000)
        .unwrap()
        .is_empty());
}

#[test]
fn the_resampler_matches_floating_point() {
    let values: Vec<i16> = (0..500).map(|i| ((i * 7919) % 60_000 - 30_000) as i16).collect();
    for (rate, target) in [
        (16_000_u32, 24_000_u32),
        (24_000, 16_000),
        (8_000, 24_000),
        (44_100, 16_000),
        (16_000, 44_100),
        (11_025, 48_000),
        (48_000, 44_100),
        (3, 7),
        (u32::MAX, u32::MAX - 1),
        (1, 3_000),
        (4_000_000_000, 123_456_789),
    ] {
        let out = resample_pcm16_mono_linear(&samples(&values), rate, target).unwrap();
        let ratio = rate as f64 / target as f64;
        for (i, pair) in out.chunks_exact(2).enumerate() {
            let src = i as f64 * ratio;
            let idx = src.floor() as usize;
            let frac = src - idx as f64;
            let a = values[idx.min(values.len() - 1)] as f64;
            let b = values[(idx + 1).min(values.len() - 1)] as f64;
            let value = (a + (b - a) * frac).round() as i16;
            assert_eq!(i16::from_le_bytes([pair[0], pair[1]]), value);
        }
    }
}

#[test]
fn the_resampler_rounds_as_double_precision_does() {
    let mut values = [0_i16; 46];
    values[44] = 1;
    values[45] = -4;
    let out = resample_pcm16_mono_linear(&samples(&values), 44_100, 16_000).unwrap();
    assert_eq!(&out[32..34], &0_i16.to_le_bytes());
}

#[test]
fn whole_ratios_keep_samples() {
    let values: Vec<i16> = (0..30).map(|i| i * 1_000 - 15_000).collect();
    let kept: Vec<i16> = values.iter().copied().step_by(3).collect();
    assert_eq!(
        resample_pcm16_mono_linear(&samples(&values), 48_000, 16_000).unwrap(),
        samples(&kept)
    );
}

#[test]
fn audio_that_cannot_be_resampled() {
    assert_eq!(
        resample_pcm16_mono_linear(&[1], 1, 2).unwrap_err(),
        "PCM16 byte length is odd"
    );
    assert_eq!(
        resample_pcm16_mono_linear(&[1, 2], 0, 2).unwrap_err(),
        "sample_rate must be positive"
    );
    assert_eq!(
        resample_pcm16_mono_linear(&[1, 2], 1, 0).unwrap_err(),
        "target_sample_rate must be positive"
    );
}

#[test]
fn wav_files_have_their_header() {
    let wav = wav_bytes(&[1, 2, 3, 4], 16_000);
    assert_eq!(wav.len(), 48);
    assert_eq!(&wav[..4], b"RIFF");
    assert_eq!(&wav[4..8], &40_u32.to_le_bytes());
    assert_eq!(&wav[8..16], b"WAVEfmt ");
    assert_eq!(&wav[16..20], &16_u32.to_le_bytes());
    assert_eq!(&wav[20..24], &[1, 0, 1, 0]);
    assert_eq!(&wav[24..28], &16_000_u32.to_le_bytes());
    assert_eq!(&wav[28..32], &32_000_u32.to_le_bytes());
    assert_eq!(&wav[32..36], &[2, 0, 16, 0]);
    assert_eq!(&wav[36..40], b"data");
    assert_eq!(&wav[40..44], &4_u32.to_le_bytes());
    assert_eq!(&wav[44..], &[1, 2, 3, 4]);
}

#[test]
fn parses_server_vad_turn_events() {
    assert_eq!(
        realtime_turn_event(&json(
            r#"{"type": "input_audio_buffer.speech_started", "audio_start_ms": 120}"#
        )),
        Some(RealtimeAsrEvent::SpeechStarted {
            audio_start_ms: 120,
        })
    );
    assert_eq!(
        realtime_turn_event(&json(
            r#"{"type": "input_audio_buffer.speech_stopped", "audio_end_ms": 980}"#
        )),
        Some(RealtimeAsrEvent::SpeechStopped { audio_end_ms: 980 })
    );
}

#[test]
fn turn_events_without_a_time_count_from_zero() {
    assert_eq!(
        realtime_turn_event(&json(
            r#"{"type": "input_audio_buffer.speech_started", "audio_start_ms": -1}"#
        )),
        Some(RealtimeAsrEvent::SpeechStarted { audio_start_ms: 0 })
    );
    assert_eq!(realtime_turn_event(&json(r#"{"type": "other"}"#)), None);
    assert_eq!(realtime_turn_event(&json("[]")), None);
}

#[test]
fn error_events_say_what_is_wrong() {
    assert_eq!(
        realtime_error_message(&json(r#"{"error": {"message": "m", "code": "c"}}"#)),
        "m"
    );
    assert_eq!(
        realtime_error_message(&json(r#"{"error": {"code": "c"}}"#)),
        "c"
    );
    assert_eq!(
        realtime_error_message(&json(r#"{"b": 1.5, "a": [null, true, -2, "x"]}"#)),
        r#"{"a":[null,true,-2,"x"],"b":1.5}"#
    );
}

#[test]
fn a_stream_sends_audio_and_commands() {
    let mut stream = RealtimeStream::new();
    let actions = stream.command(Some(RealtimeStreamCommand::Append(vec![0, 1, 2, 255])));
    let [StreamAction::Send(text)] = actions.as_slice() else {
        panic!("expected a message");
    };
    assert_eq!(
        text,
        r#"{"audio":"AAEC/w==","type":"input_audio_buffer.append"}"#
    );
    let actions = stream.command(Some(RealtimeStreamCommand::Commit));
    assert!(
        matches!(&actions[..], [StreamAction::Send(text)] if text == r#"{"type":"input_audio_buffer.commit"}"#)
    );
    let actions = stream.command(Some(RealtimeStreamCommand::Clear));
    assert!(
        matches!(&actions[..], [StreamAction::Send(text)] if text == r#"{"type":"input_audio_buffer.clear"}"#)
    );
    for command in [None, Some(RealtimeStreamCommand::Close)] {
        assert!(matches!(
            &stream.command(command)[..],
            [StreamAction::CloseSocket, StreamAction::Stop]
        ));
    }
    assert!(
        matches!(&stream.send_failed(Fault::new("io").context("gone"))[..], [StreamAction::EmitError(e), StreamAction::Stop] if e.message == "gone" && e.causes == ["io"])
    );
}

fn text(message: &str) -> SocketMessage {
    SocketMessage::Text(message.to_string())
}

#[test]
fn a_stream_reads_what_was_recognised() {
    let mut stream = RealtimeStream::new();
    let delta = r#"{"type":"conversation.item.input_audio_transcription.delta","delta":" 你"}"#;
    assert!(stream.message(text(delta)).is_empty());
    assert!(stream.message(text(delta)).is_empty());
    assert_eq!(stream.last_delta, " 你 你");
    assert!(
        matches!(&stream.message(SocketMessage::Ended)[..], [StreamAction::Emit(RealtimeAsrEvent::Transcript(t)), StreamAction::Stop] if t == "你 你")
    );
    stream.command(Some(RealtimeStreamCommand::Clear));
    assert!(
        matches!(&stream.message(SocketMessage::Ended)[..], [StreamAction::EmitError(e), StreamAction::Stop] if e.message == "Realtime ASR websocket ended before transcript completed")
    );
    let done =
        r#"{"type":"conversation.item.input_audio_transcription.completed","transcript":" 好 "}"#;
    assert!(
        matches!(&stream.message(text(done))[..], [StreamAction::Emit(RealtimeAsrEvent::Transcript(t)), StreamAction::CloseSocket, StreamAction::Stop] if t == "好")
    );
}

#[test]
fn a_stream_reports_what_goes_wrong() {
    let mut stream = RealtimeStream::new();
    let check = |actions: Vec<StreamAction>, expected: &str| match &actions[..] {
        [StreamAction::EmitError(e), StreamAction::Stop] => assert_eq!(*e, Fault::new(expected)),
        _ => panic!("expected an error"),
    };
    check(
        stream.message(text(r#"{"type":"error","error":{"message":"bad"}}"#)),
        "Realtime ASR error: bad",
    );
    check(
        stream.message(text(
            r#"{"type":"conversation.item.input_audio_transcription.failed","error":{"code":"x"}}"#,
        )),
        "Realtime ASR transcription failed: x",
    );
    check(
        stream.message(SocketMessage::Close),
        "Realtime ASR websocket closed before transcript completed",
    );
    check(
        stream.message(SocketMessage::Failed("io".to_string())),
        "read Realtime ASR websocket message: io",
    );
    let actions = stream.message(text("{"));
    let [StreamAction::EmitError(e), StreamAction::Stop] = &actions[..] else {
        panic!("expected an error");
    };
    assert!(e.message.starts_with("invalid Realtime ASR event JSON: "));
    assert!(e.message.ends_with(": {"));
    assert!(stream.message(SocketMessage::Other).is_empty());
    assert!(stream.message(text(r#"{"type":"session.created"}"#)).is_empty());
    assert!(
        matches!(&stream.message(text(r#"{"type":"input_audio_buffer.speech_started"}"#))[..], [StreamAction::Emit(RealtimeAsrEvent::SpeechStarted { audio_start_ms: 0 })])
    );
}

#[test]
fn sessions_are_opened_with_their_settings() {
    let asr = OpenAiRealtimeAsr::new(realtime("secret", true));
    assert_eq!(
        asr.socket_url().unwrap().unwrap(),
        "wss://asr.example/v1/realtime?model=m"
    );
    assert_eq!(
        asr.socket_headers(),
        vec![
            ("openai-beta".to_string(), "realtime=v1".to_string()),
            ("authorization".to_string(), "Bearer secret".to_string()),
        ]
    );
    assert_eq!(
        asr.session_update_text(),
        r#"{"session":{"audio":{"input":{"format":"pcm16","transcription":{"model":"m"},"turn_detection":{"prefix_padding_ms":300,"silence_duration_ms":500,"threshold":0.5,"type":"server_vad"}}},"type":"transcription"},"type":"session.update"}"#
    );
    let session = asr.session(16_000);
    assert!(session.server_vad_enabled());
    let appender = session.appender();
    assert!(
        matches!(appender.append_pcm(&samples(&[1, 2])), Ok(Some(RealtimeStreamCommand::Append(pcm))) if pcm == samples(&[1, 2, 2]))
    );
    assert!(matches!(appender.append_pcm(&[]), Ok(None)));
    assert!(appender.append_pcm(&[1]).is_err());

    let asr = OpenAiRealtimeAsr::new(realtime("EMPTY", false));
    assert_eq!(asr.socket_headers().len(), 1);
    assert!(asr.session_update_text().contains(r#""turn_detection":null"#));
    assert_eq!(asr.attempts(), Attempts { current: 1, total: 1 });
}

#[test]
fn whole_recordings_are_sent_as_a_form() {
    let asr = OpenAiAsr::new(whole());
    let request = asr.transcription_request(&[1, 2], 16_000);
    assert_eq!(
        request.url,
        "https://asr.example/v1/audio/transcriptions"
    );
    assert_eq!(
        request.fields,
        vec![
            ("model".to_string(), "whisper-1".to_string()),
            ("language".to_string(), "zh".to_string()),
        ]
    );
    assert_eq!(request.wav, wav_bytes(&[1, 2], 16_000));
    assert_eq!(request.bearer.as_deref(), Some("key"));
    let mut attempts = asr.attempts();
    assert!(attempts.failed());
    assert!(attempts.failed());
    assert!(!attempts.failed());
}

#[test]
fn transcriptions_are_read() {
    assert_eq!(
        transcription_result(true, "200 OK", "{}", Ok(" 好 ".to_string())),
        Ok("好".to_string())
    );
    assert_eq!(
        transcription_result(false, "500", "oops", Ok(String::new())).unwrap_err(),
        Fault::new("ASR request failed status=500 body=oops")
    );
    assert_eq!(
        transcription_result(true, "200", "x", Err("bad".to_string())).unwrap_err(),
        Fault::new("bad").context("invalid ASR response: x")
    );
    assert_eq!(bearer("  "), None);
    assert_eq!(bearer("EMPTY"), None);
    assert_eq!(bearer(" k").as_deref(), Some(" k"));
    assert_eq!(
        transcript_of(RealtimeAsrEvent::Transcript("t".to_string())).as_deref(),
        Some("t")
    );
    assert_eq!(
        transcript_of(RealtimeAsrEvent::SpeechStarted { audio_start_ms: 1 }),
        None
    );
}

#[test]
fn the_recogniser_is_the_one_asked_for() {
    let config = |provider| AsrConfig {
        provider,
        open_ai: whole(),
        openai_realtime: realtime("k", true),
    };
    assert!(!AsrClient::new(config(AsrProvider::OpenAi)).streams());
    assert!(AsrClient::new(config(AsrProvider::OpenAiRealtime)).streams());
}

#[test]
fn endless_retries_do_not_overflow() {
    assert_eq!(Attempts::new(u32::MAX).total, u32::MAX);
}

#[test]
fn recognition_has_default_settings() {
    let config = OpenAiAsrConfig::default();
    assert_eq!(config.base_url, "https://api.openai.com/v1");
    assert_eq!(config.model, "whisper-1");
    assert_eq!(config.language, "zh");
    assert_eq!(config.timeout_ns, 30_000_000_000);
    assert_eq!(config.retries, 0);
}
