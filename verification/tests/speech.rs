use xiaoai_agent::speech::{
    check_written, decode_speech_upward, dialog_id_from, downward_message, make_dialog_id,
    overflow_message, ActivationMode, CommandKind, DecodeError, ServiceAction, ServiceState,
    SpeechInput, SpeechServiceEvent, SpeechTurn, ACTIVATE_WAKEUP, DOWN_DIALOG_FINISH,
    DOWN_ENABLE_VOICE_WAKEUP, DOWN_EXPECT_SPEECH, DOWN_REGISTER_RESPONSE, DOWN_STOP_CAPTURE,
    DOWN_STREAM_PREPARE_RESPONSE, SPEECH_TYPE_DOWNWARD, SPEECH_TYPE_UPWARD, STREAM_ASR,
    STREAM_WAKEUP, UP_REGISTER, UP_STREAM_CANCEL, UP_STREAM_END, UP_STREAM_PREPARE,
    UP_STREAM_TRANSMITTING,
};
use xiaoai_agent::wire::{
    bytes_field, find_bytes, find_string, find_varint, message, parse_fields, varint_field, Field,
    WireError,
};

fn upward(upward: Vec<u8>) -> Vec<u8> {
    message(vec![
        varint_field(1, SPEECH_TYPE_UPWARD),
        bytes_field(2, &upward),
    ])
}

fn register(codec: Option<&str>) -> Vec<u8> {
    let mut body = vec![bytes_field(1, b"xiaomi")];
    if let Some(codec) = codec {
        body.push(bytes_field(2, codec.as_bytes()));
    }
    upward(message(vec![
        varint_field(1, UP_REGISTER),
        bytes_field(2, &message(body)),
    ]))
}

fn prepare(activation: u64) -> Vec<u8> {
    let body = message(vec![varint_field(1, activation), varint_field(2, 1)]);
    upward(message(vec![
        varint_field(1, UP_STREAM_PREPARE),
        bytes_field(3, &body),
    ]))
}

fn transmitting(stream_type: u64, data: &[u8]) -> Vec<u8> {
    let body = message(vec![varint_field(1, stream_type), bytes_field(2, data)]);
    upward(message(vec![
        varint_field(1, UP_STREAM_TRANSMITTING),
        bytes_field(4, &body),
    ]))
}

fn bare(up_type: u64) -> Vec<u8> {
    upward(message(vec![varint_field(1, up_type)]))
}

fn downward(frame: &[u8]) -> (u64, Vec<Field>) {
    let outer = parse_fields(frame).unwrap();
    assert_eq!(find_varint(&outer, 1), Some(SPEECH_TYPE_DOWNWARD));
    let downward = parse_fields(find_bytes(&outer, 3).unwrap()).unwrap();
    (find_varint(&downward, 1).unwrap(), downward)
}

fn sent(action: &ServiceAction) -> (u64, Vec<Field>) {
    match action {
        ServiceAction::Send(frame) => downward(frame),
        _ => panic!("expected a datagram"),
    }
}

fn receive(state: &mut ServiceState, peer: &[u8], datagram: &[u8]) -> Vec<ServiceAction> {
    let event = decode_speech_upward(datagram).unwrap().unwrap();
    state.handle_upward(peer, event)
}

#[test]
fn decodes_pcm_stream_messages() {
    let event = decode_speech_upward(&register(None)).unwrap().unwrap();
    assert_eq!(event.up_type, UP_REGISTER);
    assert_eq!(event.speech_vendor.as_deref(), Some("xiaomi"));
    assert_eq!(event.speech_codec, None);

    let event = decode_speech_upward(&prepare(ACTIVATE_WAKEUP))
        .unwrap()
        .unwrap();
    assert_eq!(event.activate_mode, Some(ACTIVATE_WAKEUP));
    assert_eq!(event.interact_mode, Some(1));

    let event = decode_speech_upward(&transmitting(STREAM_ASR, &[1, 2, 3, 4]))
        .unwrap()
        .unwrap();
    assert_eq!(event.transmit_type, Some(STREAM_ASR));
    assert_eq!(event.data, [1, 2, 3, 4]);
}

#[test]
fn serves_mipns_and_controls_a_complete_turn() {
    let mut service = ServiceState::new();
    let client = b"/tmp/mipns.usock";

    let actions = receive(&mut service, client, &register(None));
    assert_eq!(sent(&actions[0]).0, DOWN_REGISTER_RESPONSE);
    assert_eq!(sent(&actions[1]).0, DOWN_ENABLE_VOICE_WAKEUP);
    assert!(matches!(
        actions[2],
        ServiceAction::Publish {
            event: SpeechServiceEvent::Registered { .. },
            must_arrive: true
        }
    ));

    let mut actions = receive(&mut service, client, &prepare(ACTIVATE_WAKEUP));
    assert_eq!(sent(&actions[0]).0, DOWN_STREAM_PREPARE_RESPONSE);
    let Some(ServiceAction::Publish {
        event: SpeechServiceEvent::Turn(mut turn),
        ..
    }) = actions.pop()
    else {
        panic!("expected speech turn");
    };
    assert!(turn.activation().is_wakeup());

    let actions = receive(
        &mut service,
        client,
        &transmitting(STREAM_ASR, &[1, 2, 3, 4]),
    );
    assert!(
        matches!(&actions[0], ServiceAction::Deliver { turn: 1, input: SpeechInput::Pcm(data), must_fit: true } if *data == [1, 2, 3, 4])
    );

    let kind = turn.stop_capture().unwrap();
    let frames = service.handle_command(turn.id(), kind).unwrap();
    turn.capture_stopped();
    assert_eq!(turn.stop_capture(), None);
    assert_eq!(downward(&frames[0]).0, DOWN_STOP_CAPTURE);

    let frames = service
        .handle_command(
            turn.id(),
            CommandKind::Finish {
                continue_dialog: true,
            },
        )
        .unwrap();
    let (kind, expect) = downward(&frames[0]);
    assert_eq!(kind, DOWN_EXPECT_SPEECH);
    let dialog_id = find_string(&expect, 2).unwrap();
    assert_eq!(dialog_id.len(), 32);
    assert!(dialog_id.bytes().all(|byte| byte.is_ascii_hexdigit()));
    let expect = parse_fields(find_bytes(&expect, 4).unwrap()).unwrap();
    assert_eq!(find_varint(&expect, 2), Some(0));
    let (kind, finish) = downward(&frames[1]);
    assert_eq!(kind, DOWN_DIALOG_FINISH);
    assert_eq!(find_string(&finish, 2).as_deref(), Some(dialog_id.as_str()));
    let finish = parse_fields(find_bytes(&finish, 6).unwrap()).unwrap();
    assert_eq!(find_varint(&finish, 1), Some(0));
    assert_eq!(find_varint(&finish, 2), Some(1));
    assert_eq!(find_varint(&finish, 3), Some(1));
    assert_eq!(find_varint(&finish, 4), Some(0));
}

#[test]
fn rejects_opus_registration() {
    let mut service = ServiceState::new();
    let actions = receive(&mut service, b"/tmp/mipns.usock", &register(Some("opus32")));
    assert_eq!(actions.len(), 1);
    let ServiceAction::Publish {
        event: SpeechServiceEvent::Fatal(message),
        must_arrive: false,
    } = &actions[0]
    else {
        panic!("expected fatal codec error");
    };
    assert!(message.contains("without -r opus32"));
    assert_eq!(
        message,
        "mipns requested unsupported speech codec \"opus32\"; start mipns-xiaomi without -r opus32"
    );
    assert!(service.peer.is_none());
}

#[test]
fn pcm_codecs_are_accepted_whatever_their_case() {
    for codec in ["pcm", "PCM16", "S16le", "  "] {
        let mut service = ServiceState::new();
        let actions = receive(&mut service, b"p", &register(Some(codec)));
        assert_eq!(actions.len(), 3);
    }
}

#[test]
fn messages_from_strangers_are_ignored() {
    let mut service = ServiceState::new();
    receive(&mut service, b"/a", &register(None));
    assert!(receive(&mut service, b"/b", &prepare(0)).is_empty());
    assert_eq!(service.current, None);
    assert_eq!(service.next_turn_id, 0);
    assert!(!receive(&mut service, b"//a/", &prepare(0)).is_empty());
    assert_eq!(service.current, Some(1));
}

#[test]
fn turns_are_numbered_and_the_old_one_is_cancelled() {
    let mut service = ServiceState::new();
    receive(&mut service, b"/a", &register(None));
    receive(&mut service, b"/a", &prepare(0));
    let actions = receive(&mut service, b"/a", &prepare(1));
    assert!(matches!(
        actions[0],
        ServiceAction::Deliver {
            turn: 1,
            input: SpeechInput::Cancelled,
            must_fit: false
        }
    ));
    assert_eq!(service.current, Some(2));
    assert_eq!(service.chat_count, 2);
    assert_eq!(service.dialog_count, 1);

    let actions = receive(&mut service, b"/a", &bare(UP_STREAM_END));
    assert!(matches!(
        actions[0],
        ServiceAction::Deliver {
            turn: 2,
            input: SpeechInput::End,
            ..
        }
    ));
    assert!(receive(&mut service, b"/a", &bare(UP_STREAM_CANCEL)).is_empty());
    assert!(receive(&mut service, b"/a", &transmitting(STREAM_ASR, &[1])).is_empty());
}

#[test]
fn wakeup_audio_is_not_delivered() {
    let mut service = ServiceState::new();
    receive(&mut service, b"/a", &register(None));
    receive(&mut service, b"/a", &prepare(0));
    assert!(receive(&mut service, b"/a", &transmitting(STREAM_WAKEUP, &[1])).is_empty());
}

#[test]
fn commands_are_refused_before_registration_and_when_stale() {
    let mut service = ServiceState::new();
    let kind = CommandKind::StopCapture;
    assert_eq!(
        service.handle_command(1, kind).unwrap_err(),
        "mipns has not registered with speech.usock"
    );
    receive(&mut service, b"/a", &register(None));
    assert_eq!(
        service.handle_command(1, kind).unwrap_err(),
        "stale speech command for turn 1; current turn is None"
    );
    receive(&mut service, b"/a", &prepare(0));
    receive(&mut service, b"/a", &prepare(0));
    assert_eq!(
        service.handle_command(1, kind).unwrap_err(),
        "stale speech command for turn 1; current turn is Some(2)"
    );
    assert_eq!(service.handle_command(2, kind).unwrap().len(), 1);
}

#[test]
fn finishing_a_dialogue_sends_its_counts() {
    let mut service = ServiceState::new();
    receive(&mut service, b"/a", &register(None));
    let event = decode_speech_upward(&prepare(0)).unwrap().unwrap();
    service.handle_upward_as(b"/a", event, "00ff".to_string());
    let frames = service
        .handle_command(
            1,
            CommandKind::Finish {
                continue_dialog: false,
            },
        )
        .unwrap();
    assert_eq!(frames.len(), 1);
    let (kind, finish) = downward(&frames[0]);
    assert_eq!(kind, DOWN_DIALOG_FINISH);
    assert_eq!(find_string(&finish, 2).as_deref(), Some("00ff"));
    let finish = parse_fields(find_bytes(&finish, 6).unwrap()).unwrap();
    assert_eq!(find_varint(&finish, 4), Some(1));
    assert_eq!(find_varint(&finish, 5), Some(1));
    assert_eq!(find_varint(&finish, 6), Some(1));
}

#[test]
fn malformed_datagrams_are_told_apart() {
    assert!(decode_speech_upward(&varint_field(1, 1)).unwrap().is_none());
    assert!(decode_speech_upward(&[]).unwrap().is_none());
    assert_eq!(
        decode_speech_upward(&varint_field(1, 0)).unwrap_err(),
        DecodeError::NoBody
    );
    assert_eq!(
        decode_speech_upward(&upward(Vec::new())).unwrap_err(),
        DecodeError::NoType
    );
    assert_eq!(
        decode_speech_upward(&[0x80]).unwrap_err(),
        DecodeError::Wire(WireError::TruncatedVarint)
    );
    assert_eq!(DecodeError::NoBody.message(), "upward message has no body");
    assert_eq!(DecodeError::NoType.message(), "upward body has no type");
}

#[test]
fn dialog_ids_are_hexadecimal_and_fresh() {
    let bytes = [0, 1, 2, 3, 4, 5, 6, 7, 8, 9, 10, 11, 12, 13, 14, 255];
    assert_eq!(dialog_id_from(&bytes), "000102030405060708090a0b0c0d0eff");
    assert_ne!(make_dialog_id(), make_dialog_id());
}

#[test]
fn activation_modes_have_their_numbers() {
    assert_eq!(ActivationMode::from_wire(0), ActivationMode::Wakeup);
    assert_eq!(ActivationMode::from_wire(1), ActivationMode::FollowUp);
    assert_eq!(ActivationMode::from_wire(7), ActivationMode::Unknown(7));
    assert!(!ActivationMode::Unknown(7).is_wakeup());
}

#[test]
fn turns_tell_what_they_are() {
    let turn = SpeechTurn {
        id: 4,
        activation: ActivationMode::FollowUp,
        interaction_mode: 2,
        stop_requested: false,
    };
    assert_eq!(turn.id(), 4);
    assert_eq!(turn.activation(), ActivationMode::FollowUp);
    assert_eq!(turn.interaction_mode(), 2);
}

#[test]
fn downward_frames_have_known_bytes() {
    assert_eq!(downward_message(9, None, None), [8, 1, 26, 2, 8, 9]);
    assert_eq!(check_written(6, 6), Ok(()));
    assert_eq!(
        check_written(5, 6).unwrap_err(),
        "short speech datagram write: wrote 5, wanted 6"
    );
    assert_eq!(
        overflow_message(3),
        "speech audio queue overflow on turn 3"
    );
}
