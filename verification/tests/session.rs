use xiaoai_agent::agent::{
    additional_params, llm_attempts, AgentControl, AgentMemory, AgentTurnResult,
    SPEAKER_AGENT_INSTRUCTIONS,
};
use xiaoai_agent::asr::{Attempts, RealtimeAsrEvent, RealtimeAsrSession};
use xiaoai_agent::capture::{
    idle_timeout_ns, CaptureAction, EnergyCapture, ServerCapture, ServerEvent,
};
use xiaoai_agent::config::{DeviceConfig, LlmConfig};
use xiaoai_agent::faults::Fault;
use xiaoai_agent::json::{parse_json, Json};
use xiaoai_agent::session::{
    cleanup_turn_leds, followup_answer, followup_granted, is_capture_timeout, led_number,
    playback_interrupted, record_mode, reject_orphaned_turn, session_checked, session_over,
    speech_failed, turn_opened, ActiveSession, Led, MainAction, Phase, RecordMode, Session, SessionAction,
    SessionEvent, ASR_SERVICE_ERROR_PROMPT, LLM_SERVICE_ERROR_PROMPT,
};
use xiaoai_agent::shell::CommandResult;
use xiaoai_agent::speech::{ActivationMode, SpeechInput};
use xiaoai_agent::vad::SpeechEvent;

fn reply(text: &str, should_end: bool) -> SessionEvent {
    SessionEvent::Replied(AgentTurnResult {
        text: text.to_string(),
        should_end,
        end_reason: String::new(),
    })
}

fn thinking() -> Session {
    let (mut session, _) = Session::begin(7);
    session.advance(SessionEvent::StreamOpened(RecordMode::Whole));
    session.advance(SessionEvent::RecordedAudio(vec![1]));
    session.advance(SessionEvent::Transcribed("你好".to_string()));
    session
}

#[test]
fn a_conversation_goes_from_the_wake_word_to_the_follow_up() {
    let (mut session, actions) = Session::begin(7);
    assert!(matches!(
        &actions[..],
        [
            SessionAction::ShowLed(Led::Listening),
            SessionAction::OpenStream
        ]
    ));
    let actions = session.advance(SessionEvent::StreamOpened(RecordMode::Whole));
    assert!(matches!(
        &actions[..],
        [SessionAction::Record(RecordMode::Whole)]
    ));
    let actions = session.advance(SessionEvent::RecordedAudio(vec![1, 2]));
    assert!(
        matches!(&actions[..], [SessionAction::ShowLed(Led::Thinking), SessionAction::Transcribe(pcm)] if *pcm == [1, 2])
    );
    let actions = session.advance(SessionEvent::Transcribed("  开灯 ".to_string()));
    assert!(matches!(&actions[..], [SessionAction::RunAgent(text)] if text == "开灯"));
    let actions = session.advance(reply("好的", false));
    assert!(
        matches!(&actions[..], [SessionAction::ShutLed(Led::Thinking), SessionAction::ShowLed(Led::Speaking), SessionAction::Speak(text)] if text == "好的")
    );
    let actions = session.advance(SessionEvent::Done);
    assert!(matches!(&actions[..], [SessionAction::ContinueDialog(7)]));
    let actions = session.advance(SessionEvent::Done);
    assert!(matches!(&actions[..], [SessionAction::RequestFollowup]));
    let actions = session.advance(SessionEvent::Done);
    assert!(matches!(
        &actions[..],
        [
            SessionAction::ShutLed(Led::Speaking),
            SessionAction::ShowLed(Led::Listening),
            SessionAction::AwaitFollowup
        ]
    ));
    let actions = session.advance(SessionEvent::Followup(8));
    assert!(matches!(
        &actions[..],
        [
            SessionAction::ShowLed(Led::Listening),
            SessionAction::OpenStream
        ]
    ));
    assert_eq!(session.turn_id, 8);
}

#[test]
fn the_agent_ends_a_conversation() {
    let mut session = thinking();
    let actions = session.advance(reply(" ", true));
    assert!(matches!(
        &actions[..],
        [
            SessionAction::ShutLed(Led::Thinking),
            SessionAction::FinishDialog(7)
        ]
    ));
    let actions = session.advance(SessionEvent::Done);
    assert!(
        matches!(&actions[..], [SessionAction::ResetAgent(reason), SessionAction::End] if reason == "agent ended conversation")
    );
    assert_eq!(session.phase, Phase::Over);
    assert!(session.advance(SessionEvent::Done).is_empty());
}

#[test]
fn nothing_said_ends_a_conversation() {
    let (mut session, _) = Session::begin(3);
    session.advance(SessionEvent::StreamOpened(RecordMode::ServerVad));
    let actions = session.advance(SessionEvent::RecordedText(" ".to_string()));
    assert!(matches!(&actions[..], [SessionAction::FinishDialog(3)]));
    let actions = session.advance(SessionEvent::Done);
    assert!(
        matches!(&actions[..], [SessionAction::ResetAgent(reason), SessionAction::End] if reason == "empty ASR result")
    );
}

#[test]
fn silence_ends_a_conversation_quietly() {
    for mode in [
        RecordMode::Whole,
        RecordMode::Streaming,
        RecordMode::ServerVad,
    ] {
        let (mut session, _) = Session::begin(3);
        session.advance(SessionEvent::StreamOpened(mode));
        let fault = Fault::new("timed out waiting for user speech");
        let actions = session.advance(SessionEvent::RecordFailed(fault));
        assert!(matches!(
            actions.last(),
            Some(SessionAction::FinishDialog(3))
        ));
        assert_eq!(actions.len(), if mode == RecordMode::Whole { 1 } else { 2 });
    }
    let (mut session, _) = Session::begin(3);
    session.advance(SessionEvent::StreamOpened(RecordMode::Whole));
    let hidden = Fault::new("timed out waiting for user speech").context("capture");
    let actions = session.advance(SessionEvent::RecordFailed(hidden));
    assert!(matches!(&actions[..], [SessionAction::Fail(e)] if e.message == "capture"));
    assert!(is_capture_timeout("x: timed out waiting for user speech"));
    assert!(!is_capture_timeout("timed out"));
}

#[test]
fn failures_of_recognition_are_apologised_for() {
    let apologises = |actions: &[SessionAction], cause: &str| {
        let fault = Fault::new(cause).context("ASR failed after retries");
        assert_eq!(fault.message, "ASR failed after retries");
        assert_eq!(fault.causes, [cause]);
        let n = actions.len();
        assert!(matches!(
            &actions[n - 4..],
            [SessionAction::ShutLed(Led::Thinking), SessionAction::ShowLed(Led::Speaking), SessionAction::SpeakAnyway(prompt), SessionAction::Fail(e)]
                if prompt == ASR_SERVICE_ERROR_PROMPT && *e == fault
        ));
    };
    let (mut session, _) = Session::begin(1);
    let actions = session.advance(SessionEvent::StreamFailed(Fault::new("x")));
    apologises(&actions, "x");

    let (mut session, _) = Session::begin(1);
    session.advance(SessionEvent::StreamOpened(RecordMode::ServerVad));
    let actions = session.advance(SessionEvent::RecordFailed(Fault::new("y")));
    assert!(matches!(actions[0], SessionAction::CloseStream));
    apologises(&actions, "y");

    let (mut session, _) = Session::begin(1);
    session.advance(SessionEvent::StreamOpened(RecordMode::Streaming));
    let actions = session.advance(SessionEvent::RecordedAudio(vec![]));
    assert!(matches!(actions[1], SessionAction::CommitStream));
    let actions = session.advance(SessionEvent::TranscribeFailed(Fault::new("z")));
    apologises(&actions, "z");

    let (mut session, _) = Session::begin(1);
    session.advance(SessionEvent::StreamOpened(RecordMode::Streaming));
    let actions = session.advance(SessionEvent::RecordFailed(Fault::new("w")));
    assert!(
        matches!(&actions[..], [SessionAction::CloseStream, SessionAction::Fail(e)] if *e == Fault::new("w"))
    );
}

#[test]
fn failures_of_the_language_model_are_apologised_for() {
    let mut session = thinking();
    let actions = session.advance(SessionEvent::ReplyFailed(Fault::new("down")));
    assert!(matches!(
        &actions[..],
        [_, _, SessionAction::SpeakAnyway(prompt), SessionAction::Fail(e)]
            if prompt == LLM_SERVICE_ERROR_PROMPT && *e == Fault::new("down").context("LLM failed after retries")
    ));
}

#[test]
fn follow_ups_that_do_not_come_end_a_conversation() {
    for (event, expected) in [
        (SessionEvent::FollowupClosed, "speech frontend stopped"),
        (SessionEvent::FollowupTimedOut, "session idle timeout"),
    ] {
        let mut session = Session {
            turn_id: 5,
            phase: Phase::AwaitingFollowup,
        };
        let actions = session.advance(event);
        assert!(matches!(&actions[..], [SessionAction::FinishDialog(5)]));
        let actions = session.advance(SessionEvent::Done);
        assert!(
            matches!(&actions[..], [SessionAction::ResetAgent(reason), SessionAction::End] if reason == expected)
        );
    }
}

#[test]
fn failed_steps_end_a_session_with_their_error() {
    for phase in [
        Phase::Speaking { should_end: false },
        Phase::Continuing,
        Phase::Requesting,
    ] {
        let mut session = Session { turn_id: 5, phase };
        let actions = session.advance(SessionEvent::Failed(Fault::new("e")));
        assert!(matches!(&actions[..], [SessionAction::Fail(e)] if *e == Fault::new("e")));
    }
}

#[test]
fn unexpected_events_change_nothing() {
    let (mut session, _) = Session::begin(1);
    assert!(session.advance(SessionEvent::Done).is_empty());
    assert!(session.advance(SessionEvent::Followup(2)).is_empty());
    assert_eq!(session.phase, Phase::Opening);
}

#[test]
fn turns_start_sessions_or_join_them() {
    assert!(matches!(
        &turn_opened(ActivationMode::Wakeup, 1, ActiveSession::Running)[..],
        [
            MainAction::AbortSession,
            MainAction::JoinSession,
            MainAction::InterruptPlayback
        ]
    ));
    assert!(matches!(
        &turn_opened(ActivationMode::Wakeup, 1, ActiveSession::Finished)[..],
        [MainAction::JoinSession, MainAction::InterruptPlayback]
    ));
    assert!(matches!(
        &turn_opened(ActivationMode::Wakeup, 1, ActiveSession::Absent)[..],
        [MainAction::InterruptPlayback]
    ));
    assert!(matches!(
        &turn_opened(ActivationMode::FollowUp, 1, ActiveSession::Running)[..],
        [MainAction::Forward]
    ));
    assert!(matches!(
        &turn_opened(ActivationMode::Unknown(3), 1, ActiveSession::Finished)[..],
        [MainAction::StopCapture, MainAction::FinishDialog(1)]
    ));
    assert_eq!(reject_orphaned_turn(4).len(), 2);
}

#[test]
fn the_wake_word_cuts_off_what_was_not_interrupted() {
    let actions = playback_interrupted(false, false);
    assert!(matches!(actions[0], MainAction::AbortOutput));
    assert_eq!(actions.len(), 7);
    let actions = playback_interrupted(true, false);
    assert!(matches!(
        &actions[..],
        [MainAction::ShutLed(Led::Speaking), MainAction::ShutLed(Led::Thinking), MainAction::ShutLed(Led::UserSpeaking), MainAction::ShutLed(Led::Listening), MainAction::ResetAgent(reason), MainAction::StartSession]
            if reason == "wake keyword"
    ));
    let mut out = Vec::new();
    cleanup_turn_leds(&mut out);
    assert_eq!(out.len(), 4);
}

#[test]
fn sessions_are_cleaned_up() {
    let actions = session_over(true, 9);
    assert!(
        matches!(&actions[..2], [MainAction::FinishDialog(9), MainAction::ResetAgent(reason)] if reason == "turn failed")
    );
    assert!(matches!(actions.last(), Some(MainAction::RestorePlayback)));
    assert_eq!(session_over(false, 9).len(), 5);
    assert!(session_checked(ActiveSession::Running).is_empty());
    assert!(matches!(
        &session_checked(ActiveSession::Finished)[..],
        [MainAction::JoinSession, MainAction::BlinkReady]
    ));
    assert_eq!(
        speech_failed(None),
        "speech.usock service stopped unexpectedly"
    );
    assert_eq!(speech_failed(Some("m".to_string())), "m");
}

#[test]
fn leds_have_their_numbers() {
    let config = DeviceConfig::default();
    assert_eq!(led_number(&config, Led::Listening), 3);
    assert_eq!(led_number(&config, Led::UserSpeaking), 4);
    assert_eq!(led_number(&config, Led::Thinking), 2);
    assert_eq!(led_number(&config, Led::Speaking), 5);
}

fn result(stdout: &str, exit_code: i32) -> CommandResult {
    CommandResult {
        stdout: stdout.to_string(),
        stderr: " err \n".to_string(),
        exit_code,
    }
}

#[test]
fn follow_ups_are_granted_or_refused() {
    assert_eq!(followup_granted(&result(r#"{"code":0}"#, 0)), Ok(()));
    assert_eq!(
        followup_granted(&result("{\"code\":1}\n", 0)).unwrap_err(),
        Fault::new("pnshelper rejected follow-up capture: {\"code\":1}")
    );
    assert_eq!(
        followup_granted(&result("", 4)).unwrap_err(),
        Fault::new("pnshelper follow-up request failed exit=4 stderr=err")
    );
    let fault = followup_granted(&result("x", 0)).unwrap_err();
    assert_eq!(fault.message, "pnshelper returned an invalid follow-up response");
    assert_eq!(fault.causes, [parse_json("x").unwrap_err()]);
    assert!(followup_answer(&parse_json(r#"{"code":0.0}"#).unwrap(), "s").is_err());
    assert!(followup_answer(&parse_json("[]").unwrap(), "s").is_err());
}

#[test]
fn the_agent_remembers_and_forgets() {
    let mut memory = AgentMemory::new();
    assert_eq!(memory.begin_turn("你好"), "你好");
    memory.control.should_end = true;
    memory.control.end_reason = "bye".to_string();
    let result = memory.complete_turn("你好", " 再见 ");
    assert_eq!(result.text, "再见");
    assert!(result.should_end);
    assert_eq!(result.end_reason, "bye");
    assert_eq!(
        memory.begin_turn("还在吗"),
        "最近对话历史：\n用户：你好\n助手：再见\n当前用户：还在吗"
    );
    assert!(!memory.control.should_end);
    memory.reset_session("wake keyword");
    assert_eq!(memory.control.end_reason, "wake keyword");
    assert_eq!(memory.prompt_with_history("x"), "x");
    let control = AgentControl::default();
    assert!(!control.should_end && control.end_reason.is_empty());
}

#[test]
fn the_language_model_is_asked_with_its_settings() {
    assert_eq!(
        llm_attempts(&LlmConfig::default()),
        Attempts { current: 1, total: 2 }
    );
    let Json::Object(members) = additional_params() else {
        panic!("expected an object");
    };
    assert_eq!(members[0].0, "reasoning_effort");
    assert_eq!(members.len(), 3);
    assert!(SPEAKER_AGENT_INSTRUCTIONS.starts_with("你是小爱同学，一个运行在小爱音箱上的中文语音助手。你运行"));
    assert!(SPEAKER_AGENT_INSTRUCTIONS.ends_with("如果工具返回错误或信息不足，要坦率说明无法确认。"));
}

#[test]
fn recordings_end_by_energy() {
    let mut capture = EnergyCapture::new(true);
    assert!(capture.idle_armed());
    let actions = capture.heard(SpeechEvent::SpeechStart(vec![1]));
    assert!(
        matches!(&actions[..], [CaptureAction::NotifyStart, CaptureAction::Audio(pcm)] if *pcm == [1])
    );
    assert!(!capture.idle_armed());
    assert!(capture.idle_elapsed().is_empty());
    assert!(
        matches!(&capture.heard(SpeechEvent::SpeechChunk(vec![2]))[..], [CaptureAction::Audio(pcm)] if *pcm == [2])
    );
    assert!(matches!(
        &capture.heard(SpeechEvent::SpeechRejected)[..],
        [CaptureAction::NotifyRejected, CaptureAction::ResetIdle]
    ));
    assert!(
        matches!(&capture.idle_elapsed()[..], [CaptureAction::ReportNoise, CaptureAction::StopCapture { must_succeed: false }, CaptureAction::Fail(e)] if e.message == "timed out waiting for user speech")
    );
    assert!(
        matches!(&capture.heard(SpeechEvent::Utterance(vec![3]))[..], [CaptureAction::StopCapture { must_succeed: true }, CaptureAction::FinishAudio(pcm)] if *pcm == [3])
    );

    let mut quiet = EnergyCapture::new(false);
    assert_eq!(quiet.heard(SpeechEvent::SpeechStart(vec![1])).len(), 1);
    assert!(quiet.heard(SpeechEvent::SpeechChunk(vec![1])).is_empty());
    assert_eq!(quiet.heard(SpeechEvent::SpeechRejected).len(), 1);
}

#[test]
fn recordings_fail_when_their_turn_ends() {
    let capture = EnergyCapture::new(false);
    let message = |input| match &capture.input(&input)[..] {
        [CaptureAction::Fail(e)] => e.message.clone(),
        _ => panic!("expected a failure"),
    };
    assert_eq!(
        message(Some(SpeechInput::End)),
        "mipns ended the stream before an utterance was captured"
    );
    assert_eq!(
        message(Some(SpeechInput::Cancelled)),
        "mipns cancelled the speech stream"
    );
    assert_eq!(
        message(None),
        "speech.usock service stopped during capture"
    );
    assert!(capture.input(&Some(SpeechInput::Pcm(vec![1]))).is_empty());
}

#[test]
fn recordings_end_by_the_recogniser() {
    let mut capture = ServerCapture::new();
    assert!(capture.idle_armed() && !capture.max_armed() && !capture.transcript_armed());
    assert!(capture.input_armed());
    let actions = capture.happen(ServerEvent::Input(Some(SpeechInput::Pcm(vec![1]))));
    assert!(matches!(&actions[..], [CaptureAction::Audio(_)]));
    let started = || {
        ServerEvent::Asr(RealtimeAsrEvent::SpeechStarted { audio_start_ms: 1 })
    };
    assert!(matches!(
        &capture.happen(started())[..],
        [CaptureAction::StartMax, CaptureAction::NotifyStart]
    ));
    assert!(capture.happen(started()).is_empty());
    assert!(capture.happen(ServerEvent::IdleElapsed).is_empty());
    assert!(capture.max_armed());
    let stopped = || {
        ServerEvent::Asr(RealtimeAsrEvent::SpeechStopped { audio_end_ms: 2 })
    };
    assert!(matches!(
        &capture.happen(stopped())[..],
        [
            CaptureAction::StopCapture { must_succeed: true },
            CaptureAction::StartTranscript,
            CaptureAction::NotifyStop
        ]
    ));
    assert!(capture.happen(stopped()).is_empty());
    assert!(capture.happen(ServerEvent::MaxElapsed).is_empty());
    assert!(!capture.input_armed() && capture.transcript_armed());
    assert!(capture
        .happen(ServerEvent::Input(Some(SpeechInput::Pcm(vec![1]))))
        .is_empty());
    let done = ServerEvent::Asr(RealtimeAsrEvent::Transcript("t".to_string()));
    assert!(matches!(&capture.happen(done)[..], [CaptureAction::FinishText(t)] if t == "t"));
}

#[test]
fn recordings_by_the_recogniser_have_a_last_resort() {
    let mut capture = ServerCapture {
        speech_started: true,
        input_closed: false,
    };
    assert!(matches!(
        &capture.happen(ServerEvent::MaxElapsed)[..],
        [
            CaptureAction::StopCapture { must_succeed: true },
            CaptureAction::StartTranscript,
            CaptureAction::Commit,
            CaptureAction::NotifyStop
        ]
    ));
    assert!(
        matches!(&capture.happen(ServerEvent::TranscriptElapsed)[..], [CaptureAction::Fail(e)] if e.message == "timed out waiting for Realtime ASR transcript")
    );
    let mut capture = ServerCapture {
        speech_started: true,
        input_closed: false,
    };
    assert_eq!(
        capture.happen(ServerEvent::Input(Some(SpeechInput::End))).len(),
        3
    );
    let mut capture = ServerCapture::new();
    let fails = |actions: Vec<CaptureAction>, expected: &str| match actions.last() {
        Some(CaptureAction::Fail(e)) => assert_eq!(*e, Fault::new(expected)),
        _ => panic!("expected a failure"),
    };
    fails(
        capture.happen(ServerEvent::Input(Some(SpeechInput::End))),
        "mipns ended the stream before server VAD detected speech",
    );
    fails(
        capture.happen(ServerEvent::Input(Some(SpeechInput::Cancelled))),
        "mipns cancelled the speech stream",
    );
    fails(
        capture.happen(ServerEvent::Input(None)),
        "speech.usock service stopped during capture",
    );
    fails(
        capture.happen(ServerEvent::AsrFailed(Fault::new("x"))),
        "x",
    );
    fails(
        capture.happen(ServerEvent::IdleElapsed),
        "timed out waiting for user speech",
    );
    let early = ServerEvent::Asr(RealtimeAsrEvent::Transcript("t".to_string()));
    assert_eq!(capture.happen(early).len(), 2);
    assert_eq!(idle_timeout_ns(1), 1_000_000_000);
    assert_eq!(idle_timeout_ns(2_000_000_000), 2_000_000_000);
}

#[test]
fn a_stream_without_server_vad_is_cut_here() {
    let stream = |server_vad_enabled: bool| RealtimeAsrSession {
        sample_rate: 16_000,
        target_sample_rate: 16_000,
        server_vad_enabled,
    };
    assert_eq!(record_mode(None), RecordMode::Whole);
    assert_eq!(record_mode(Some(&stream(true))), RecordMode::ServerVad);
    assert_eq!(record_mode(Some(&stream(false))), RecordMode::Streaming);
}
