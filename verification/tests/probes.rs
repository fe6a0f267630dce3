use xiaoai_agent::aivs::{
    check_build, check_event, chunk_size, chunks, client_info, engine_settings, find_mapping_base,
    finish_event_json, finish_event_with, is_recognize_result, json_i64_field, json_string_field,
    make_id, make_id_at, miio_auth_suffix, miot_auth_suffix, miot_auth_suffix_from_parts,
    miot_header_field, normalize_auth_header, parse_asr_options, parse_command, parse_i32_arg,
    parse_slot, parse_u64_arg, read_identity, read_json_arg, recognize_event_json,
    recognize_event_with, report_finding, result_line, string_layout, AivsCommand, Finding,
    JsonArg,
};
use xiaoai_agent::asr_probe::{
    activate_name, dump_message, ensure_native_aivs_stopped, interact_name, next_arg, next_tick,
    packet_file_name, parse_args, process_ids_named, run_dir_name, socket_plan, stream_name, Args,
    ProbeAction, ProbeState, Request, Stream, Tick, DEFAULT_OUTPUT_DIR, DEFAULT_SOCKET,
};
use xiaoai_agent::kws::{
    asr_packet_taken, event_report, kws_audio, log_wanted, request_vpm_status,
    wakeup_data_report, KwsFeed, KwsMonitorEvent, VpmCommand, VpmMailbox,
};
use xiaoai_agent::native::{
    full_duplex_plan, isolation_plan, join_pids, must_isolate, pids_named, FullDuplexPlan,
    IsolationPlan, ProcessEntry, DEFAULT_SOCKET_PATH,
};
use xiaoai_agent::speech::{
    DOWN_DIALOG_FINISH, DOWN_REGISTER_RESPONSE, SPEECH_TYPE_DOWNWARD, SPEECH_TYPE_UPWARD,
    STREAM_ASR, UP_REGISTER, UP_STREAM_END, UP_STREAM_PREPARE, UP_STREAM_TRANSMITTING,
};
use xiaoai_agent::vpm::{
    arecord_args, check_call, check_word_size, frame_bytes, init_image, sample_format_code,
    write_ptr, write_u32, ByteOrder, VpmAddresses, VpmAudio, Wording, INIT_SIZE,
};
use xiaoai_agent::vpm_probe::{
    audio_warning, head_len, is_kws_event, show_bytes, upper_event_name, AudioLoop, ProbeLimits,
    ReadFailure,
};
use xiaoai_agent::wire::{
    bytes_field, find_bytes, find_varint, message, parse_fields, string_field, varint_field,
};

fn strings(items: &[&str]) -> Vec<String> {
    items.iter().map(|item| item.to_string()).collect()
}

fn upward(body: Vec<Vec<u8>>) -> Vec<u8> {
    message(vec![
        varint_field(1, SPEECH_TYPE_UPWARD),
        bytes_field(2, &message(body)),
    ])
}

fn said(actions: &[ProbeAction]) -> Vec<String> {
    actions
        .iter()
        .filter_map(|action| match action {
            ProbeAction::Say(line) => Some(line.clone()),
            _ => None,
        })
        .collect()
}

// ------------------------------------------------------- the speech probe

#[test]
fn sends_response_to_mipns_datagram_peer() {
    let mut state = ProbeState::new();
    let args = Args::default();
    let peer = Some("/tmp/client.sock");
    let actions = state.receive(
        &args,
        peer,
        &upward(vec![varint_field(1, UP_REGISTER)]),
    );
    let sent: Vec<&Vec<u8>> = actions
        .iter()
        .filter_map(|action| match action {
            ProbeAction::Send(frame) => Some(frame),
            _ => None,
        })
        .collect();
    let outer = parse_fields(sent[0]).unwrap();
    assert_eq!(find_varint(&outer, 1), Some(SPEECH_TYPE_DOWNWARD));
    let down = parse_fields(find_bytes(&outer, 3).unwrap()).unwrap();
    assert_eq!(find_varint(&down, 1), Some(DOWN_REGISTER_RESPONSE));

    let actions = state.receive(&args, peer, &upward(vec![varint_field(1, UP_STREAM_END)]));
    let ProbeAction::Send(frame) = &actions[1] else {
        panic!("expected a datagram");
    };
    let outer = parse_fields(frame).unwrap();
    let down = parse_fields(find_bytes(&outer, 3).unwrap()).unwrap();
    assert_eq!(find_varint(&down, 1), Some(DOWN_DIALOG_FINISH));
    let body = parse_fields(find_bytes(&down, 6).unwrap()).unwrap();
    assert_eq!(find_varint(&body, 1), Some(0));
    assert_eq!(find_varint(&body, 2), Some(0));
    assert_eq!(find_varint(&body, 3), Some(0));
}

#[test]
fn probe_arguments_are_read() {
    let Ok(Request::Run(args)) = parse_args(&strings(&[])) else {
        panic!("expected a run");
    };
    assert_eq!(args.socket, DEFAULT_SOCKET);
    assert_eq!(args.output_dir, DEFAULT_OUTPUT_DIR);
    assert!(args.reply && args.auto_finish && !args.replace && !args.dump);
    let Ok(Request::Run(args)) = parse_args(&strings(&[
        "--socket",
        "/s",
        "--output-dir",
        "/o",
        "--replace",
        "--dump",
        "--no-reply",
        "--no-auto-finish",
        "--timeout-ms",
        "250",
    ])) else {
        panic!("expected a run");
    };
    assert_eq!((args.socket.as_str(), args.output_dir.as_str()), ("/s", "/o"));
    assert!(args.replace && args.dump && !args.reply && !args.auto_finish);
    assert_eq!(args.timeout_ms, Some(250));
    assert!(matches!(
        parse_args(&strings(&["--dump", "-h", "--bogus"])),
        Ok(Request::Help)
    ));
    assert!(
        matches!(parse_args(&strings(&["--timeout-ms", "0"])), Ok(Request::Run(a)) if a.timeout_ms.is_none())
    );
    assert_eq!(
        parse_args(&strings(&["--bogus\n"])).unwrap_err(),
        "unknown argument \"--bogus\\n\"; use --help"
    );
    assert_eq!(
        parse_args(&strings(&["--socket"])).unwrap_err(),
        "missing value for --socket"
    );
    assert_eq!(
        parse_args(&strings(&["--timeout-ms", "x"])).unwrap_err(),
        "invalid --timeout-ms: invalid digit found in string"
    );
    assert_eq!(next_arg(&strings(&["v"]), 0, "--x").unwrap(), "v");
}

#[test]
fn packets_are_written_down_per_stream() {
    let mut state = ProbeState::new();
    let args = Args::default();
    let packet = |kind: u64, data: &[u8]| {
        upward(vec![
            varint_field(1, UP_STREAM_TRANSMITTING),
            bytes_field(
                4,
                &message(vec![varint_field(1, kind), bytes_field(2, data)]),
            ),
        ])
    };
    let actions = state.receive(&args, Some("p"), &packet(STREAM_ASR, &[9, 8]));
    assert!(matches!(
        &actions[1],
        ProbeAction::Create { id: 1, stream: Stream::Asr }
    ));
    assert!(
        matches!(&actions[2], ProbeAction::Append { stream: Stream::Asr, bytes } if *bytes == [2, 0, 0, 0, 9, 8])
    );
    assert_eq!(
        said(&actions),
        [
            "created implicit session=1",
            "stream type=asr(2) chunks=1 bytes=2 codec=unknown"
        ]
    );
    let actions = state.receive(&args, Some("p"), &packet(STREAM_ASR, &[1]));
    assert!(matches!(&actions[..], [ProbeAction::Append { .. }]));
    state.receive(&args, Some("p"), &packet(77, &[1, 2, 3]));
    let actions = state.finish_session();
    assert!(matches!(actions[0], ProbeAction::Close));
    assert_eq!(
        said(&actions),
        ["session=1 complete wakeup=0/0 wakeup_end=0/0 asr=2/3 unknown=1/3"]
    );
    assert!(state.finish_session().is_empty());
    assert_eq!(
        packet_file_name(12, Stream::WakeupEnd),
        "session-0012-wakeup-end.packets"
    );
    assert_eq!(
        packet_file_name(12345, Stream::Unknown),
        "session-12345-unknown.packets"
    );
}

#[test]
fn a_probe_answers_as_it_is_told() {
    let register = upward(vec![
        varint_field(1, UP_REGISTER),
        bytes_field(
            2,
            &message(vec![string_field(1, "xiaomi"), string_field(2, "opus32")]),
        ),
    ]);
    let mut state = ProbeState::new();
    let mut args = Args::default();
    let actions = state.receive(&args, None, &register);
    assert!(
        matches!(&actions[..], [ProbeAction::Say(line), ProbeAction::Fail(e)]
            if line == "register vendor=xiaomi codec=opus32 peer=<unnamed>"
                && e == "mipns used an unnamed socket; cannot send a response")
    );
    args.reply = false;
    let actions = state.receive(&args, Some("p"), &register);
    assert_eq!(actions.len(), 1);
    let prepare = upward(vec![varint_field(1, UP_STREAM_PREPARE)]);
    let actions = state.receive(&args, Some("p"), &prepare);
    assert_eq!(
        said(&actions),
        ["stream_prepare activate=wakeup(0) interact=noncontinuous(0) session=1"]
    );
    let actions = state.receive(&args, Some("p"), &upward(vec![varint_field(1, 99)]));
    assert_eq!(said(&actions), ["unknown upward type=99"]);
    let actions = state.receive(&args, Some("p"), &varint_field(1, 1));
    assert_eq!(
        said(&actions),
        ["ignored non-upward speech message (2 bytes)"]
    );
    let actions = state.receive(&args, Some("p"), &[0x80]);
    assert!(
        matches!(&actions[..], [ProbeAction::Complain(line)] if line == "failed to decode upward message: truncated varint")
    );
}

#[test]
fn messages_are_dumped_field_by_field() {
    let inner = message(vec![varint_field(1, 0), varint_field(2, 7)]);
    let mut bytes = message(vec![
        varint_field(1, 300),
        string_field(2, "he said \"x\"\n"),
        bytes_field(3, &inner),
    ]);
    bytes.extend([0x25, 1, 2, 0xff, 4]);
    assert_eq!(
        dump_message("speech", &bytes, 0),
        [
            "speech.1: varint 300",
            "speech.2: string \"he said \\\"x\\\"\\n\"",
            "speech.3: bytes len=4",
            "  speech.3.1: varint 0",
            "  speech.3.2: varint 7",
            "speech.4: fixed32 [01, 02, ff, 04]",
        ]
    );
    assert_eq!(
        dump_message("m", &[0x80], 2),
        ["  m: decode error: truncated varint"]
    );
}

#[test]
fn dumping_shows_the_datagram_first() {
    let mut state = ProbeState::new();
    let mut args = Args::default();
    args.dump = true;
    let actions = state.receive(&args, Some("/p"), &varint_field(1, 1));
    assert_eq!(
        said(&actions),
        [
            "datagram 2 bytes from /p",
            "speech.1: varint 1",
            "ignored non-upward speech message (2 bytes)"
        ]
    );
}

#[test]
fn modes_and_streams_have_names() {
    assert_eq!(activate_name(0), "wakeup(0)");
    assert_eq!(activate_name(1), "nonwakeup(1)");
    assert_eq!(activate_name(9), "unknown(9)");
    assert_eq!(interact_name(0), "noncontinuous(0)");
    assert_eq!(interact_name(1), "continuous(1)");
    assert_eq!(interact_name(9), "unknown(9)");
    assert_eq!(stream_name(0), "wakeup(0)");
    assert_eq!(stream_name(1), "wakeup_end(1)");
    assert_eq!(stream_name(2), "asr(2)");
    assert_eq!(stream_name(u64::MAX), "unknown(18446744073709551615)");
}

#[test]
fn the_probe_stops_and_checks_in_time() {
    let mut args = Args::default();
    assert_eq!(next_tick(&args, u128::MAX, 0), Tick::Receive);
    assert_eq!(next_tick(&args, 0, 1_000_000_000), Tick::CheckThenReceive);
    args.timeout_ms = Some(2);
    assert_eq!(next_tick(&args, 1_999_999, 0), Tick::Receive);
    assert_eq!(next_tick(&args, 2_000_000, 0), Tick::Stop);
    assert_eq!(run_dir_name(5, 6), "run-5-6");
    assert_eq!(socket_plan("/s", true, true), Ok(true));
    assert_eq!(socket_plan("/s", false, false), Ok(false));
    assert_eq!(
        socket_plan("/s", true, false).unwrap_err(),
        "/s already exists; stop mico_aivs_lab and pass --replace"
    );
}

// ------------------------------------------------- the vendor's processes

fn process(name: &str, line: Option<&[u8]>) -> ProcessEntry {
    ProcessEntry {
        name: name.to_string(),
        command_line: line.map(<[u8]>::to_vec),
    }
}

fn processes() -> Vec<ProcessEntry> {
    vec![
        process("77", Some(b"/usr/bin/mico_aivs_lab\0-x\0")),
        process("self", Some(b"/usr/bin/mico_aivs_lab\0")),
        process("12", Some(b"mico_aivs_lab")),
        process("13", Some(b"/usr/bin/other\0mico_aivs_lab")),
        process("14", None),
    ]
}

#[test]
fn the_native_process_is_found() {
    assert_eq!(pids_named(&processes(), "mico_aivs_lab"), [77, 12]);
    assert_eq!(process_ids_named(&processes(), "mico_aivs_lab"), [12, 77]);
    assert_eq!(join_pids(&vec![1, 22, 3]), "1,22,3");
    assert_eq!(join_pids(&vec![]), "");
    assert_eq!(
        ensure_native_aivs_stopped(DEFAULT_SOCKET, &processes()).unwrap_err(),
        "mico_aivs_lab is still running (PID 12,77); stop it before binding /tmp/mico_aivs_lab/usock/speech.usock"
    );
    assert_eq!(ensure_native_aivs_stopped("/s", &processes()), Ok(()));
    assert_eq!(ensure_native_aivs_stopped(DEFAULT_SOCKET, &vec![]), Ok(()));
}

#[test]
fn the_native_socket_is_set_aside() {
    let all = processes();
    assert!(matches!(isolation_plan(&vec![], false, false), IsolationPlan::Leave));
    assert!(matches!(isolation_plan(&all, true, true), IsolationPlan::RemoveStale));
    assert!(matches!(isolation_plan(&all, true, false), IsolationPlan::Leave));
    assert!(matches!(isolation_plan(&all, false, true), IsolationPlan::SetAside));
    assert!(
        matches!(isolation_plan(&all, false, false), IsolationPlan::NotReady(e)
            if e == "mico_aivs_lab is running (PID 77,12) but its speech socket is not ready")
    );
    assert!(must_isolate(DEFAULT_SOCKET_PATH, true));
    assert!(!must_isolate("/s", true) && !must_isolate(DEFAULT_SOCKET_PATH, false));
    assert_eq!(
        full_duplex_plan(DEFAULT_SOCKET_PATH, true, true, true),
        FullDuplexPlan::Remove
    );
    assert_eq!(
        full_duplex_plan(DEFAULT_SOCKET_PATH, true, true, false),
        FullDuplexPlan::SetAside
    );
    assert_eq!(full_duplex_plan("/s", true, true, false), FullDuplexPlan::Leave);
    let doubled = DEFAULT_SOCKET_PATH.replacen("/usock", "//usock", 1);
    assert_eq!(
        full_duplex_plan(&doubled, true, true, false),
        FullDuplexPlan::SetAside
    );
    assert!(must_isolate(&doubled, true));
    assert!(ensure_native_aivs_stopped(&doubled, &all).is_err());
    assert_eq!(
        full_duplex_plan(DEFAULT_SOCKET_PATH, true, false, false),
        FullDuplexPlan::Leave
    );
}

// -------------------------------------------------------- the wake word

fn audio() -> VpmAudio {
    kws_audio(&xiaoai_agent::config::RuntimeConfig::default())
}

#[test]
fn frames_have_their_size() {
    assert_eq!(frame_bytes(&audio(), Wording::Monitor), Ok(384 * 4 * 4));
    let mut bad = audio();
    bad.bits_per_sample = 7;
    assert_eq!(
        frame_bytes(&bad, Wording::Monitor).unwrap_err(),
        "invalid KWS bits value 7"
    );
    assert_eq!(
        frame_bytes(&bad, Wording::Probe).unwrap_err(),
        "invalid bits value 7"
    );
    let mut bad = audio();
    bad.sample_rate = u32::MAX;
    assert_eq!(
        frame_bytes(&bad, Wording::Probe).unwrap_err(),
        "sample_rate * frame_ms overflow"
    );
    let mut bad = audio();
    bad.channels = u32::MAX;
    assert_eq!(
        frame_bytes(&bad, Wording::Monitor).unwrap_err(),
        "KWS frame byte count overflow"
    );
}

#[test]
fn the_recorder_is_started_with_its_format() {
    assert_eq!(
        arecord_args(&audio(), Wording::Monitor).unwrap(),
        [
            "--quiet", "-D", "noop", "-t", "raw", "-f", "S32_LE", "-r", "48000", "-c", "4",
            "--buffer-size", "4096", "--period-size", "384"
        ]
    );
    let mut bad = audio();
    bad.bits_per_sample = 8;
    assert_eq!(
        arecord_args(&bad, Wording::Probe).unwrap_err(),
        "unsupported bits value 8"
    );
    assert_eq!(sample_format_code(8, Wording::Probe), Ok(1));
    assert_eq!(sample_format_code(24, Wording::Probe), Ok(2));
    assert_eq!(
        sample_format_code(12, Wording::Monitor).unwrap_err(),
        "unsupported KWS bits value 12"
    );
}

fn addresses() -> VpmAddresses {
    VpmAddresses {
        config_path: 0x10,
        log_callback: 0x20,
        event_callback: 0x30,
        wakeup_data_callback: 0x40,
        asr_data_callback: 0x50,
        voip_data_callback: 0x60,
        stat_callback: 0x70,
    }
}

#[test]
fn the_library_is_started_with_its_image() {
    let image = init_image(&audio(), &addresses(), ByteOrder::Little, Wording::Monitor).unwrap();
    assert_eq!(image.len(), INIT_SIZE);
    let word = |offset: usize| u32::from_le_bytes(image[offset..offset + 4].try_into().unwrap());
    assert_eq!(word(316), 48_000);
    assert_eq!(word(320), 4);
    assert_eq!(word(328), 3);
    assert_eq!(word(348), 3);
    assert_eq!(word(360), 6000);
    assert_eq!(f32::from_bits(word(380)), 0.3);
    assert_eq!(word(388), 0x10);
    assert_eq!(word(392), 0x5650_4d50);
    assert_eq!(word(424), 0x70);
    assert_eq!(word(0), 0);
    let image = init_image(&audio(), &addresses(), ByteOrder::Big, Wording::Monitor).unwrap();
    assert_eq!(&image[316..320], &48_000_u32.to_be_bytes());
    let mut far = addresses();
    far.stat_callback = 0x1_0000_0000;
    assert_eq!(
        init_image(&audio(), &far, ByteOrder::Little, Wording::Probe).unwrap_err(),
        "pointer does not fit in 32 bits"
    );
}

#[test]
fn words_are_written_inside_the_buffer_only() {
    let mut buf = vec![0xaa; 6];
    assert_eq!(
        write_u32(&mut buf, 1, 0x0403_0201, ByteOrder::Little, Wording::Monitor),
        Ok(())
    );
    assert_eq!(buf, [0xaa, 1, 2, 3, 4, 0xaa]);
    assert_eq!(
        write_u32(&mut buf, 0x1f, 1, ByteOrder::Little, Wording::Monitor).unwrap_err(),
        "offset 0x1f outside VPM init buffer"
    );
    assert_eq!(
        write_u32(&mut buf, 3, 1, ByteOrder::Little, Wording::Probe).unwrap_err(),
        "offset 0x3 outside init buffer"
    );
    assert_eq!(
        write_ptr(&mut buf, 2, 5, ByteOrder::Big, Wording::Probe),
        Ok(())
    );
    assert_eq!(&buf[2..], &[0, 0, 0, 5]);
}

#[test]
fn wake_words_are_debounced() {
    let start = 5_000_000_000;
    let mut feed = KwsFeed::new(start);
    let event = || event_report(0, 3).unwrap();
    assert!(
        matches!(feed.report(event(), start), Some(KwsMonitorEvent::Keyword(k)) if k == "XIAOAITONGXUE")
    );
    assert!(feed.report(event(), start + 1_199_999_999).is_none());
    assert!(feed.report(event(), start + 1_200_000_000).is_some());
    assert!(KwsFeed::new(3).report(event(), 4).is_none());
    assert_eq!(feed.start_time_ms(8), Ok(0));
    feed.fed();
    assert_eq!(feed.start_time_ms(8), Ok(8));
    feed.frames = u64::MAX;
    assert_eq!(
        feed.start_time_ms(8).unwrap_err(),
        "KWS timestamp overflow"
    );
    assert!(event_report(6, 0).is_none());
    assert_eq!(wakeup_data_report(0).unwrap().kind, "WAKEUP_DATA");
    assert!(wakeup_data_report(1).is_none());
}

#[test]
fn the_mailbox_is_open_while_the_monitor_runs() {
    let mut mailbox = VpmMailbox::closed();
    assert!(!request_vpm_status(&mut mailbox, 6));
    mailbox.send_vpm_event(event_report(0, 1).unwrap());
    assert!(mailbox.drain_first_event().is_none());
    mailbox.open();
    assert!(request_vpm_status(&mut mailbox, 6));
    assert_eq!(mailbox.take_commands(), [VpmCommand::SetStatus(6)]);
    assert!(mailbox.take_commands().is_empty());
    mailbox.send_vpm_event(event_report(0, 1).unwrap());
    mailbox.send_vpm_event(event_report(0, 2).unwrap());
    assert_eq!(mailbox.drain_first_event().unwrap().value, 1);
    assert!(mailbox.drain_first_event().is_none());
    let logged: Vec<u64> = (0..101).filter(|_| mailbox.log_vpm_asr_packet()).collect();
    assert_eq!(logged, [0, 1, 2, 3, 4, 5, 6, 7, 50, 100]);
    mailbox.close();
    assert!(!request_vpm_status(&mut mailbox, 6));
}

#[test]
fn only_useful_reports_are_kept() {
    assert!(asr_packet_taken(true, 1, 2));
    assert!(!asr_packet_taken(false, 1, 2) && !asr_packet_taken(true, 0, 2));
    assert!(!asr_packet_taken(true, 1, 1));
    assert!(log_wanted("x send wakeup y"));
    assert!(!log_wanted("send wakeup vpm_process line:361"));
    assert!(!log_wanted("nothing"));
    assert!(xiaoai_agent::vpm_probe::log_wanted("vpm_init"));
    assert!(!xiaoai_agent::vpm_probe::log_wanted("vpm_process line:361"));
    assert_eq!(upper_event_name(14), "XI_WAKEUP");
    assert_eq!(upper_event_name(1), "OTHER");
    assert!(is_kws_event(8) && !is_kws_event(768));
    assert_eq!(show_bytes(&[0, 0xab, 0xff]), "00 ab ff");
    assert_eq!([head_len(3), head_len(99)], [3, 24]);
    assert_eq!(audio_warning(&audio()), None);
    let mut other = audio();
    other.channels = 2;
    assert!(audio_warning(&other).unwrap().ends_with("48000Hz/2ch/32bit"));
    assert_eq!(check_word_size(4, Wording::Probe), Ok(()));
    assert_eq!(
        check_word_size(8, Wording::Monitor).unwrap_err(),
        "native VPM KWS requires the 32-bit ARM build"
    );
    assert_eq!(
        check_call("vpm_init", -3).unwrap_err(),
        "vpm_init failed with -3"
    );
}

#[test]
fn the_audio_loop_knows_when_to_stop() {
    let limits = ProbeLimits {
        from_file: true,
        loop_file: false,
        seconds: 1,
        max_frames: 2,
        keep_running_after_event: false,
    };
    let mut audio_loop = AudioLoop::new(limits);
    assert!(!audio_loop.is_over(999_999_999));
    assert!(audio_loop.is_over(1_000_000_000));
    assert_eq!(audio_loop.start_time_ms(8), Ok(0));
    let after = audio_loop.fed();
    assert!(after.pace && !after.report);
    assert!(!audio_loop.stops(0) && audio_loop.stops(1));
    audio_loop.fed();
    assert!(audio_loop.is_over(0));
    assert!(matches!(audio_loop.read_failed(true), ReadFailure::Stop));
    assert!(matches!(audio_loop.read_failed(false), ReadFailure::Fail("raw file")));
    audio_loop.limits.loop_file = true;
    assert!(matches!(audio_loop.read_failed(true), ReadFailure::Reopen));
    audio_loop.limits.from_file = false;
    assert!(matches!(
        audio_loop.read_failed(true),
        ReadFailure::Fail("arecord stdout")
    ));
    audio_loop.frames = 499;
    assert!(audio_loop.fed().report);
}

// ------------------------------------------------- the recognition probe

#[test]
fn recognition_options_are_read() {
    let options = parse_asr_options(&strings(&["a.pcm"])).unwrap();
    assert_eq!(options.pcm_path, "a.pcm");
    assert_eq!(options.token_path, "/data/TOKEN");
    assert_eq!((options.wait_ms, options.chunk_ms), (15_000, 100));
    assert!(options.exit_on_final && !options.allow_cloud_execution && !options.no_throttle);
    let options = parse_asr_options(&strings(&[
        "--engine-mode",
        "-2",
        "--token",
        "t",
        "b.pcm",
        "--wait-ms",
        "1",
        "--chunk-ms",
        "2",
        "--no-throttle",
        "--keep-after-final",
        "--allow-cloud-execution",
    ]))
    .unwrap();
    assert_eq!(options.engine_mode, -2);
    assert_eq!(options.token_path, "t");
    assert!(options.no_throttle && !options.exit_on_final && options.allow_cloud_execution);
    let error = |args: &[&str]| parse_asr_options(&strings(args)).unwrap_err();
    assert_eq!(error(&[]), "--asr-file requires a PCM s16le path");
    assert_eq!(error(&["a", "b"]), "unexpected argument: b");
    assert_eq!(error(&["--token"]), "--token requires a path");
    assert_eq!(error(&["--wait-ms"]), "--wait-ms requires a value");
    assert_eq!(
        error(&["--engine-mode", "99999999999"]),
        "invalid --engine-mode: number too large to fit in target type"
    );
    assert_eq!(
        parse_u64_arg("--n", Some(&"".to_string())).unwrap_err(),
        "invalid --n: cannot parse integer from empty string"
    );
    assert_eq!(parse_u64_arg("--n", Some(&"+7".to_string())), Ok(7));
    assert_eq!(parse_i32_arg("--n", Some(&"-7".to_string())), Ok(-7));
    assert_eq!(parse_slot(None), Ok(0));
    assert_eq!(parse_slot(Some(&"12".to_string())), Ok(12));
    assert_eq!(
        parse_slot(Some(&"-1".to_string())).unwrap_err(),
        "invalid slot: invalid digit found in string"
    );
}

#[test]
fn commands_of_the_recognition_probe() {
    let command = |args: &[&str]| parse_command(&strings(args)).unwrap();
    assert!(matches!(command(&[]), AivsCommand::Usage));
    assert!(matches!(command(&["--what"]), AivsCommand::Usage));
    assert!(matches!(command(&["--event-build-probe"]), AivsCommand::EventBuild(None)));
    assert!(
        matches!(command(&["--instruction-build-probe", "{}"]), AivsCommand::InstructionBuild(Some(j)) if j == "{}")
    );
    assert!(matches!(command(&["--post-data-null-probe"]), AivsCommand::PostDataNull));
    assert!(matches!(command(&["--engine-create-null-probe"]), AivsCommand::EngineCreateNull));
    assert!(matches!(
        command(&["--engine-create-minimal-probe"]),
        AivsCommand::EngineCreateMinimal
    ));
    assert!(matches!(
        command(&["--engine-create-fake-client-probe"]),
        AivsCommand::EngineCreateFakeClient
    ));
    assert!(matches!(command(&["--engine-vtable-probe"]), AivsCommand::EngineVtable));
    assert!(matches!(command(&["--register-slot-probe", "3"]), AivsCommand::RegisterSlot(3)));
    assert!(
        matches!(command(&["--asr-file", "x"]), AivsCommand::AsrFile(o) if o.pcm_path == "x")
    );
    assert!(parse_command(&strings(&["--asr-file"])).is_err());
    assert!(matches!(read_json_arg("@f"), JsonArg::File(p) if p == "f"));
    assert!(matches!(read_json_arg("{}"), JsonArg::Given(j) if j == "{}"));
}

const TOKEN: &str = r#"{ "xiaoai_token" : "Authorization: MIOT-TOKEN-V1 session_id: s1 ,token:t1",
  "expire_at": 1700000000, "device_id":"d\"\\\/\n\u", "neg": -5, "bad": 1-2 }"#;

#[test]
fn fields_are_found_in_the_token_file() {
    assert_eq!(
        json_string_field(TOKEN, "xiaoai_token").unwrap(),
        "Authorization: MIOT-TOKEN-V1 session_id: s1 ,token:t1"
    );
    assert_eq!(json_string_field(TOKEN, "device_id").unwrap(), "d\"\\/\nu");
    assert_eq!(json_string_field(TOKEN, "missing"), None);
    assert_eq!(json_string_field(r#"{"a": "open"#, "a"), None);
    assert_eq!(json_i64_field(TOKEN, "expire_at"), Some(1_700_000_000));
    assert_eq!(json_i64_field(TOKEN, "neg"), Some(-5));
    assert_eq!(json_i64_field(TOKEN, "bad"), None);
    assert_eq!(json_i64_field(TOKEN, "device_id"), None);
}

#[test]
fn credentials_are_put_together() {
    assert_eq!(normalize_auth_header("Authorization:  x "), "x");
    assert_eq!(normalize_auth_header(" x "), " x ");
    assert_eq!(
        miot_header_field("a session_id: s ,b", "session_id:").as_deref(),
        Some("s")
    );
    assert_eq!(miot_header_field("token: ,x", "token:"), None);
    assert_eq!(miot_auth_suffix_from_parts("s", "t"), "session_id:s,token:t");
    assert_eq!(
        miot_auth_suffix("session_id:s,token:t").as_deref(),
        Some("session_id:s,token:t")
    );
    assert_eq!(miot_auth_suffix("token:t"), None);
    assert_eq!(
        miio_auth_suffix(" t\n", " s\n").as_deref(),
        Some("session_id:s,token:t")
    );
    assert_eq!(miio_auth_suffix(" ", "s"), None);
}

#[test]
fn identities_are_read_from_the_token_file() {
    let id = read_identity(TOKEN, "/data/TOKEN", None).unwrap();
    assert_eq!(id.auth, "MIOT-TOKEN-V1 session_id: s1 ,token:t1");
    assert_eq!(id.auth_callback, "session_id:s1,token:t1");
    assert_eq!(id.expire_at, 1_700_000_000);
    assert_eq!(id.auth_client_id, id.device_id);
    assert_eq!(id.bind_id, "xiaoai-agent-asr-bind");
    assert_eq!(id.miot_did, "xiaoai-agent-asr-miot");
    let id = read_identity(TOKEN, "/data/TOKEN", Some("stored".to_string())).unwrap();
    assert_eq!(id.auth_callback, "stored");
    assert_eq!(
        read_identity("{}", "/data/TOKEN", None).unwrap_err(),
        "/data/TOKEN has no xiaoai_token field"
    );
}

#[test]
fn events_have_their_form() {
    assert_eq!(make_id_at("dialog", 1_700_000_000_123), "dialog-1700000000123");
    assert!(make_id("x").starts_with("x-1"));
    assert_eq!(
        finish_event_with("i", "d"),
        "{\n  \"header\": {\n    \"namespace\": \"SpeechRecognizer\",\n    \"name\": \"RecognizeStreamFinished\",\n    \"id\": \"i\",\n    \"dialog_id\": \"d\"\n  },\n  \"payload\": {}\n}"
    );
    for event in [
        recognize_event_with("i", "d", None),
        recognize_event_with("i", "d", Some("c")),
        recognize_event_json("d", true),
        finish_event_json("d"),
    ] {
        let value: serde_json::Value = serde_json::from_str(&event).unwrap();
        assert_eq!(value["header"]["dialog_id"], "d");
        assert_eq!(value["header"]["namespace"], "SpeechRecognizer");
    }
    let value: serde_json::Value =
        serde_json::from_str(&recognize_event_with("i", "d", Some("c"))).unwrap();
    assert_eq!(value["context"][0]["header"]["name"], "RequestControl");
    assert_eq!(value["context"][0]["payload"]["disabled"][1], "TTS");
    assert_eq!(check_build("Event", 1, false), Ok(()));
    assert_eq!(
        check_build("Event", 0, false).unwrap_err(),
        "Event::build failed or returned null"
    );
    assert_eq!(
        check_event("{}", 1, true).unwrap_err(),
        "Event::build failed for {}"
    );
}

#[test]
fn recordings_are_sent_in_pieces() {
    assert_eq!(chunk_size(100), 3_200);
    assert_eq!(chunk_size(1), 320);
    assert_eq!(
        chunks(&[1, 2, 3, 4, 5], 2),
        vec![vec![1, 2], vec![3, 4], vec![5]]
    );
    assert!(chunks(&[], 2).is_empty());
}

#[test]
fn findings_are_reported() {
    assert!(is_recognize_result("SpeechRecognizer", "RecognizeResult"));
    assert!(!is_recognize_result("SpeechRecognizer", "Other"));
    let finding = Finding {
        is_final: true,
        has_result: true,
        bytes: Some("好".as_bytes().to_vec()),
    };
    assert_eq!(
        report_finding(&finding, true),
        ("ASR_TEXT final=true text=好".to_string(), true)
    );
    assert!(!report_finding(&finding, false).1);
    let finding = Finding {
        is_final: false,
        has_result: true,
        bytes: Some(vec![b'x'; 5_000]),
    };
    assert_eq!(
        report_finding(&finding, true),
        ("ASR_TEXT final=false text=".to_string(), false)
    );
    let finding = Finding {
        is_final: true,
        has_result: false,
        bytes: None,
    };
    assert_eq!(
        report_finding(&finding, true),
        ("ASR_TEXT final=true text=".to_string(), false)
    );
    assert_eq!(result_line(false, "t"), "ASR_TEXT final=false text=t");
}

#[test]
fn strings_and_clients_are_laid_out() {
    let (storage, heap) = string_layout("short", ByteOrder::Little);
    assert_eq!(&storage[..6], b"short\0");
    assert!(heap.is_none());
    let (storage, heap) = string_layout("sixteen letters!", ByteOrder::Little);
    assert_eq!(&storage[..5], &[16, 0, 0, 0, 0]);
    assert_eq!(heap.unwrap(), b"sixteen letters!\0");
    let image = client_info(1, 2, 3, 4, 5, ByteOrder::Little);
    assert_eq!(image.len(), 108);
    for (offset, value) in [(0, 1), (4, 2), (64, 3), (72, 4), (76, 5), (88, 2), (92, 0)] {
        assert_eq!(image[offset], value);
    }
    assert_eq!(engine_settings("me")[2].1, "me");
}

#[test]
fn mappings_are_found() {
    let maps = "00010000-00020000 r-xp 0 a\nb6f00000-b6f10000 r-xp 0 /usr/lib/libaivs_sdk.so\r\n";
    assert_eq!(find_mapping_base(maps, "libaivs_sdk.so"), Some(0xb6f0_0000));
    assert_eq!(find_mapping_base(maps, "libother.so"), None);
    assert_eq!(find_mapping_base("zz-1 x\n+1f-2 x", "x"), Some(0x1f));
}
