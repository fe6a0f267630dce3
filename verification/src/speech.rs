//! The speech socket: the messages that the wake-word front end sends up and is
//! sent down, and the state machine that answers them.
use vstd::prelude::*;
use crate::paths;
use crate::text;
use crate::wire;
use crate::wire::{Field, Strictness, WireError, WireField};

verus! {

pub const SPEECH_TYPE_UPWARD: u64 = 0;

pub const SPEECH_TYPE_DOWNWARD: u64 = 1;

pub const UP_REGISTER: u64 = 0;

pub const UP_STREAM_PREPARE: u64 = 1;

pub const UP_STREAM_CANCEL: u64 = 2;

pub const UP_STREAM_TRANSMITTING: u64 = 3;

pub const UP_STREAM_END: u64 = 4;

pub const UP_VOIP: u64 = 5;

pub const UP_TTS_FINISH: u64 = 6;

pub const UP_MULTI_CHANNEL_UPLOAD: u64 = 7;

pub const DOWN_REGISTER_RESPONSE: u64 = 0;

pub const DOWN_STREAM_PREPARE_RESPONSE: u64 = 1;

pub const DOWN_STOP_CAPTURE: u64 = 2;

pub const DOWN_EXPECT_SPEECH: u64 = 3;

pub const DOWN_DIALOG_FINISH: u64 = 5;

pub const DOWN_ENABLE_VOICE_WAKEUP: u64 = 9;

pub const STREAM_WAKEUP: u64 = 0;

pub const STREAM_WAKEUP_END: u64 = 1;

pub const STREAM_ASR: u64 = 2;

pub const ACTIVATE_WAKEUP: u64 = 0;

/// The largest datagram that the service reads.
pub const MAX_DATAGRAM_SIZE: usize = 262144;

/// How many pieces of audio a turn may hold unread.
pub const AUDIO_QUEUE_CAPACITY: usize = 512;

// ----------------------------------------------------------- upward messages

/// How a turn was opened.
#[derive(Debug, Clone, Copy, PartialEq, Eq, Structural)]
pub enum ActivationMode {
    Wakeup,
    FollowUp,
    Unknown(u64),
}

/// The mode that a number on the wire stands for.
pub open spec fn activation_of(value: u64) -> ActivationMode {
    if value == 0 {
        ActivationMode::Wakeup
    } else if value == 1 {
        ActivationMode::FollowUp
    } else {
        ActivationMode::Unknown(value)
    }
}

impl ActivationMode {
    /// The mode that a number on the wire stands for.
    pub fn from_wire(value: u64) -> (r: Self)
        ensures
            r == activation_of(value),
    {
        match value {
            0 => ActivationMode::Wakeup,
            1 => ActivationMode::FollowUp,
            other => ActivationMode::Unknown(other),
        }
    }

    /// Whether the turn was opened by the wake word.
    pub fn is_wakeup(self) -> (r: bool)
        ensures
            r == (self == ActivationMode::Wakeup),
    {
        self == ActivationMode::Wakeup
    }
}

/// A message from the front end.
#[derive(Debug)]
pub struct UpEvent {
    pub up_type: u64,
    pub speech_vendor: Option<String>,
    pub speech_codec: Option<String>,
    pub activate_mode: Option<u64>,
    pub interact_mode: Option<u64>,
    pub transmit_type: Option<u64>,
    pub data: Vec<u8>,
}

/// A message from the front end, as a mathematical value.
pub struct UpMessage {
    pub up_type: u64,
    pub speech_vendor: Option<Seq<char>>,
    pub speech_codec: Option<Seq<char>>,
    pub activate_mode: Option<u64>,
    pub interact_mode: Option<u64>,
    pub transmit_type: Option<u64>,
    pub data: Seq<u8>,
}

/// The text of an optional string.
pub open spec fn opt_text(s: Option<String>) -> Option<Seq<char>> {
    match s {
        Some(s) => Some(s@),
        None => None,
    }
}

impl View for UpEvent {
    type V = UpMessage;

    open spec fn view(&self) -> UpMessage {
        UpMessage {
            up_type: self.up_type,
            speech_vendor: opt_text(self.speech_vendor),
            speech_codec: opt_text(self.speech_codec),
            activate_mode: self.activate_mode,
            interact_mode: self.interact_mode,
            transmit_type: self.transmit_type,
            data: self.data@,
        }
    }
}

/// A message of the given type with nothing in it.
pub open spec fn bare_message(up_type: u64) -> UpMessage {
    UpMessage {
        up_type,
        speech_vendor: None,
        speech_codec: None,
        activate_mode: None,
        interact_mode: None,
        transmit_type: None,
        data: Seq::empty(),
    }
}

/// Why a datagram is not a message.
#[derive(Debug, Clone, Copy, PartialEq, Eq, Structural)]
pub enum DecodeError {
    /// Some part of it is malformed.
    Wire(WireError),
    /// It is marked as an upward message and has no body.
    NoBody,
    /// Its body has no type.
    NoType,
}

/// The message of an error.
pub open spec fn decode_error_text(e: DecodeError) -> Seq<char> {
    match e {
        DecodeError::Wire(e) => wire::wire_error_text(e),
        DecodeError::NoBody => "upward message has no body"@,
        DecodeError::NoType => "upward body has no type"@,
    }
}

impl DecodeError {
    /// The message of this error.
    pub fn message(&self) -> (r: String)
        ensures
            r@ == decode_error_text(*self),
    {
        match self {
            DecodeError::Wire(e) => e.message(),
            DecodeError::NoBody => "upward message has no body".to_owned(),
            DecodeError::NoType => "upward body has no type".to_owned(),
        }
    }
}

/// The number of the field that holds the body of an upward message, for the
/// types that have one.
pub open spec fn body_field(up_type: u64) -> Option<u64> {
    if up_type == UP_REGISTER {
        Some(2)
    } else if up_type == UP_STREAM_PREPARE {
        Some(3)
    } else if up_type == UP_STREAM_TRANSMITTING {
        Some(4)
    } else {
        None
    }
}

/// A message of the given type with the given body.
pub open spec fn message_with(up_type: u64, body: Seq<WireField>) -> UpMessage {
    let bare = bare_message(up_type);
    if up_type == UP_REGISTER {
        UpMessage {
            speech_vendor: wire::first_text(body, 1),
            speech_codec: wire::first_text(body, 2),
            ..bare
        }
    } else if up_type == UP_STREAM_PREPARE {
        UpMessage {
            activate_mode: wire::first_varint(body, 1),
            interact_mode: wire::first_varint(body, 2),
            ..bare
        }
    } else if up_type == UP_STREAM_TRANSMITTING {
        UpMessage {
            transmit_type: wire::first_varint(body, 1),
            data: match wire::first_bytes(body, 2) {
                Some(data) => data,
                None => Seq::empty(),
            },
            ..bare
        }
    } else {
        bare
    }
}

/// What the fields of an upward body say.
pub open spec fn upward_body(fields: Seq<WireField>, strictness: Strictness) -> Result<
    UpMessage,
    DecodeError,
> {
    match wire::first_varint(fields, 1) {
        None => Err(DecodeError::NoType),
        Some(up_type) => match body_field(up_type) {
            None => Ok(bare_message(up_type)),
            Some(number) => match wire::first_bytes(fields, number) {
                None => Ok(bare_message(up_type)),
                Some(body) => match wire::read_fields(body, strictness) {
                    Err(e) => Err(DecodeError::Wire(e)),
                    Ok(body) => Ok(message_with(up_type, body)),
                },
            },
        },
    }
}

/// What a datagram says: an upward message, something else, or nothing sound.
pub open spec fn upward_message(s: Seq<u8>, strictness: Strictness) -> Result<
    Option<UpMessage>,
    DecodeError,
> {
    match wire::read_fields(s, strictness) {
        Err(e) => Err(DecodeError::Wire(e)),
        Ok(fields) => if wire::first_varint(fields, 1) != Some(SPEECH_TYPE_UPWARD) {
            Ok(None)
        } else {
            match wire::first_bytes(fields, 2) {
                None => Err(DecodeError::NoBody),
                Some(body) => match wire::read_fields(body, strictness) {
                    Err(e) => Err(DecodeError::Wire(e)),
                    Ok(fields) => match upward_body(fields, strictness) {
                        Err(e) => Err(e),
                        Ok(message) => Ok(Some(message)),
                    },
                },
            }
        },
    }
}

fn decode_upward_body(fields: &Vec<Field>, strictness: Strictness) -> (r: Result<
    UpEvent,
    DecodeError,
>)
    ensures
        match upward_body(wire::wire_fields(fields@), strictness) {
            Ok(message) => r matches Ok(event) && event@ == message,
            Err(e) => r matches Err(x) && x == e,
        },
{
    let up_type: u64 = match wire::find_varint(fields.as_slice(), 1) {
        Some(up_type) => up_type,
        None => {
            return Err(DecodeError::NoType);
        },
    };
    let mut event = UpEvent {
        up_type,
        speech_vendor: None,
        speech_codec: None,
        activate_mode: None,
        interact_mode: None,
        transmit_type: None,
        data: Vec::new(),
    };
    let number: u64 = if up_type == UP_REGISTER {
        2
    } else if up_type == UP_STREAM_PREPARE {
        3
    } else if up_type == UP_STREAM_TRANSMITTING {
        4
    } else {
        assert(event@ =~= bare_message(up_type));
        return Ok(event);
    };
    let body: &[u8] = match wire::find_bytes(fields.as_slice(), number) {
        Some(body) => body,
        None => {
            assert(event@ =~= bare_message(up_type));
            return Ok(event);
        },
    };
    let body: Vec<Field> = match wire::parse_fields_with(body, strictness) {
        Ok(body) => body,
        Err(e) => {
            return Err(DecodeError::Wire(e));
        },
    };
    if up_type == UP_REGISTER {
        event.speech_vendor = wire::find_string(body.as_slice(), 1);
        event.speech_codec = wire::find_string(body.as_slice(), 2);
    } else if up_type == UP_STREAM_PREPARE {
        event.activate_mode = wire::find_varint(body.as_slice(), 1);
        event.interact_mode = wire::find_varint(body.as_slice(), 2);
    } else {
        event.transmit_type = wire::find_varint(body.as_slice(), 1);
        if let Some(data) = wire::find_bytes(body.as_slice(), 2) {
            event.data = vstd::slice::slice_to_vec(data);
        }
    }
    assert(event@ =~= message_with(up_type, wire::wire_fields(body@)));
    Ok(event)
}

/// Reads a datagram as an upward message, as forgiving as asked.
pub fn decode_upward_with(buf: &[u8], strictness: Strictness) -> (r: Result<
    Option<UpEvent>,
    DecodeError,
>)
    ensures
        match upward_message(buf@, strictness) {
            Ok(None) => r matches Ok(None),
            Ok(Some(message)) => r matches Ok(Some(event)) && event@ == message,
            Err(e) => r matches Err(x) && x == e,
        },
{
    let fields: Vec<Field> = match wire::parse_fields_with(buf, strictness) {
        Ok(fields) => fields,
        Err(e) => {
            return Err(DecodeError::Wire(e));
        },
    };
    match wire::find_varint(fields.as_slice(), 1) {
        Some(kind) => {
            if kind != SPEECH_TYPE_UPWARD {
                return Ok(None);
            }
        },
        None => {
            return Ok(None);
        },
    }
    let body: &[u8] = match wire::find_bytes(fields.as_slice(), 2) {
        Some(body) => body,
        None => {
            return Err(DecodeError::NoBody);
        },
    };
    let inner: Vec<Field> = match wire::parse_fields_with(body, strictness) {
        Ok(inner) => inner,
        Err(e) => {
            return Err(DecodeError::Wire(e));
        },
    };
    match decode_upward_body(&inner, strictness) {
        Ok(event) => Ok(Some(event)),
        Err(e) => Err(e),
    }
}

/// Reads a datagram as an upward message, strictly.
pub fn decode_speech_upward(buf: &[u8]) -> (r: Result<Option<UpEvent>, DecodeError>)
    ensures
        match upward_message(buf@, Strictness::Strict) {
            Ok(None) => r matches Ok(None),
            Ok(Some(message)) => r matches Ok(Some(event)) && event@ == message,
            Err(e) => r matches Err(x) && x == e,
        },
{
    decode_upward_with(buf, Strictness::Strict)
}

// --------------------------------------------------------- downward messages

/// The body of a downward message: its type, the dialogue it belongs to, and a
/// field of its own.
pub open spec fn downward_fields(
    down_type: u64,
    dialog_id: Option<Seq<char>>,
    body: Option<(u64, Seq<u8>)>,
) -> Seq<WireField> {
    let head = seq![WireField::Varint { number: 1, value: down_type }];
    let named = match dialog_id {
        Some(id) => head.push(
            WireField::Bytes { number: 2, value: vstd::utf8::encode_utf8(id) },
        ),
        None => head,
    };
    match body {
        Some((number, value)) => named.push(WireField::Bytes { number, value }),
        None => named,
    }
}

/// The datagram of a downward message whose body has the bytes `inner`.
pub open spec fn downward_envelope(inner: Seq<u8>) -> Seq<WireField> {
    seq![
        WireField::Varint { number: 1, value: SPEECH_TYPE_DOWNWARD },
        WireField::Bytes { number: 3, value: inner },
    ]
}

/// The datagram of a downward message.
pub open spec fn downward_frame(
    down_type: u64,
    dialog_id: Option<Seq<char>>,
    body: Option<(u64, Seq<u8>)>,
) -> Seq<u8> {
    wire::fields_part(
        downward_envelope(wire::fields_part(downward_fields(down_type, dialog_id, body))),
    )
}

/// The text of an optional string slice.
pub open spec fn opt_str(s: Option<&str>) -> Option<Seq<char>> {
    match s {
        Some(s) => Some(s@),
        None => None,
    }
}

/// The contents of an optional field.
pub open spec fn opt_body(body: Option<(u64, Vec<u8>)>) -> Option<(u64, Seq<u8>)> {
    match body {
        Some((number, value)) => Some((number, value@)),
        None => None,
    }
}

/// Writes a downward message.
pub fn downward_message(
    down_type: u64,
    dialog_id: Option<&str>,
    body: Option<(u64, Vec<u8>)>,
) -> (r: Vec<u8>)
    ensures
        r@ == downward_frame(down_type, opt_str(dialog_id), opt_body(body)),
{
    let mut inner: Vec<u8> = wire::varint_field(1, down_type);
    let ghost head = seq![WireField::Varint { number: 1, value: down_type }];
    proof {
        wire::lemma_fields_part_one(head[0]);
        assert(seq![head[0]] =~= head);
    }
    let ghost named = downward_fields(down_type, opt_str(dialog_id), None);
    if let Some(id) = dialog_id {
        let mut part: Vec<u8> = wire::string_field(2, id);
        inner.append(&mut part);
        proof {
            wire::lemma_fields_part_push(
                head,
                WireField::Bytes { number: 2, value: vstd::utf8::encode_utf8(id@) },
            );
        }
    }
    assert(inner@ == wire::fields_part(named));
    if let Some((number, value)) = body {
        let mut part: Vec<u8> = wire::bytes_field(number, value.as_slice());
        inner.append(&mut part);
        proof {
            wire::lemma_fields_part_push(named, WireField::Bytes { number, value: value@ });
        }
    }
    assert(inner@ == wire::fields_part(
        downward_fields(down_type, opt_str(dialog_id), opt_body(body)),
    ));
    let mut out: Vec<u8> = wire::varint_field(1, SPEECH_TYPE_DOWNWARD);
    let mut part: Vec<u8> = wire::bytes_field(3, inner.as_slice());
    out.append(&mut part);
    proof {
        let first = WireField::Varint { number: 1, value: SPEECH_TYPE_DOWNWARD };
        let second = WireField::Bytes { number: 3, value: inner@ };
        wire::lemma_fields_part_one(first);
        wire::lemma_fields_part_push(seq![first], second);
        assert(seq![first].push(second) =~= downward_envelope(inner@));
    }
    out
}

/// Whether a datagram went out whole.
pub fn check_written(written: usize, wanted: usize) -> (r: Result<(), String>)
    ensures
        r is Ok <==> written == wanted,
        r matches Err(e) ==> e@ == "short speech datagram write: wrote "@ + text::decimal(
            written as nat,
        ) + ", wanted "@ + text::decimal(wanted as nat),
{
    if written == wanted {
        return Ok(());
    }
    let mut out: String = "short speech datagram write: wrote ".to_owned();
    out.append(text::decimal_text(written as u64).as_str());
    out.append(", wanted ");
    out.append(text::decimal_text(wanted as u64).as_str());
    Err(out)
}

// -------------------------------------------------------------------- service

/// What a turn reads.
#[derive(Debug)]
pub enum SpeechInput {
    Pcm(Vec<u8>),
    End,
    Cancelled,
}

/// What a turn reads, as a mathematical value.
pub enum Input {
    Pcm(Seq<u8>),
    End,
    Cancelled,
}

impl View for SpeechInput {
    type V = Input;

    open spec fn view(&self) -> Input {
        match self {
            SpeechInput::Pcm(data) => Input::Pcm(data@),
            SpeechInput::End => Input::End,
            SpeechInput::Cancelled => Input::Cancelled,
        }
    }
}

/// A turn of a dialogue.
#[derive(Debug)]
pub struct SpeechTurn {
    pub id: u64,
    pub activation: ActivationMode,
    pub interaction_mode: u64,
    pub stop_requested: bool,
}

impl SpeechTurn {
    /// The number of this turn.
    pub fn id(&self) -> (r: u64)
        ensures
            r == self.id,
    {
        self.id
    }

    /// How this turn was opened.
    pub fn activation(&self) -> (r: ActivationMode)
        ensures
            r == self.activation,
    {
        self.activation
    }

    /// The interaction mode that the front end asked for.
    pub fn interaction_mode(&self) -> (r: u64)
        ensures
            r == self.interaction_mode,
    {
        self.interaction_mode
    }

    /// The command that stops the capture, where it has not been stopped yet.
    pub fn stop_capture(&self) -> (r: Option<CommandKind>)
        ensures
            r == if self.stop_requested {
                None
            } else {
                Some(CommandKind::StopCapture)
            },
    {
        if self.stop_requested {
            None
        } else {
            Some(CommandKind::StopCapture)
        }
    }

    /// Notes that the capture was stopped.
    pub fn capture_stopped(&mut self)
        ensures
            *final(self) == (SpeechTurn { stop_requested: true, ..*old(self) }),
    {
        self.stop_requested = true;
    }
}

/// What the service tells its owner.
#[derive(Debug)]
pub enum SpeechServiceEvent {
    Registered { vendor: String, codec: Option<String> },
    Turn(SpeechTurn),
    Fatal(String),
}

/// What the service tells its owner, as a mathematical value.
pub enum Notice {
    Registered { vendor: Seq<char>, codec: Option<Seq<char>> },
    Turn(SpeechTurn),
    Fatal(Seq<char>),
}

impl View for SpeechServiceEvent {
    type V = Notice;

    open spec fn view(&self) -> Notice {
        match self {
            SpeechServiceEvent::Registered { vendor, codec } => Notice::Registered {
                vendor: vendor@,
                codec: opt_text(*codec),
            },
            SpeechServiceEvent::Turn(turn) => Notice::Turn(*turn),
            SpeechServiceEvent::Fatal(message) => Notice::Fatal(message@),
        }
    }
}

/// Something for the service to do.
#[derive(Debug)]
pub enum ServiceAction {
    /// Send a datagram to the peer that the message came from.
    Send(Vec<u8>),
    /// Hand an input to the queue of a turn. Where `must_fit` holds, a full
    /// queue is an error; otherwise the input is dropped.
    Deliver { turn: u64, input: SpeechInput, must_fit: bool },
    /// Tell the owner; that the owner is gone is an error where `must_arrive`
    /// holds.
    Publish { event: SpeechServiceEvent, must_arrive: bool },
}

/// Something for the service to do, as a mathematical value.
pub enum Effect {
    Send(Seq<u8>),
    Deliver { turn: u64, input: Input, must_fit: bool },
    Publish { event: Notice, must_arrive: bool },
}

impl View for ServiceAction {
    type V = Effect;

    open spec fn view(&self) -> Effect {
        match self {
            ServiceAction::Send(data) => Effect::Send(data@),
            ServiceAction::Deliver { turn, input, must_fit } => Effect::Deliver {
                turn: *turn,
                input: input@,
                must_fit: *must_fit,
            },
            ServiceAction::Publish { event, must_arrive } => Effect::Publish {
                event: event@,
                must_arrive: *must_arrive,
            },
        }
    }
}

/// A list of things to do as mathematical values.
pub open spec fn effects(actions: Seq<ServiceAction>) -> Seq<Effect> {
    actions.map_values(|a: ServiceAction| a@)
}

/// What the owner of a turn can ask for.
#[derive(Debug, Clone, Copy, PartialEq, Eq, Structural)]
pub enum CommandKind {
    StopCapture,
    Finish { continue_dialog: bool },
}

/// The state of the service.
///
/// The peer is the path that the front end sends from, as bytes.
#[derive(Debug)]
pub struct ServiceState {
    pub peer: Option<Vec<u8>>,
    pub current: Option<u64>,
    pub last_turn_id: Option<u64>,
    pub dialog_id: Option<String>,
    pub next_turn_id: u64,
    pub chat_count: u64,
    pub dialog_count: u64,
}

/// The state of the service, as a mathematical value.
pub struct Service {
    pub peer: Option<Seq<u8>>,
    pub current: Option<u64>,
    pub last_turn_id: Option<u64>,
    pub dialog_id: Option<Seq<char>>,
    pub next_turn_id: u64,
    pub chat_count: u64,
    pub dialog_count: u64,
}

impl View for ServiceState {
    type V = Service;

    open spec fn view(&self) -> Service {
        Service {
            peer: match self.peer {
                Some(peer) => Some(peer@),
                None => None,
            },
            current: self.current,
            last_turn_id: self.last_turn_id,
            dialog_id: opt_text(self.dialog_id),
            next_turn_id: self.next_turn_id,
            chat_count: self.chat_count,
            dialog_count: self.dialog_count,
        }
    }
}

/// The state of a service that nothing has happened to.
pub open spec fn fresh_service() -> Service {
    Service {
        peer: None,
        current: None,
        last_turn_id: None,
        dialog_id: None,
        next_turn_id: 0,
        chat_count: 0,
        dialog_count: 0,
    }
}

/// One more, but for the largest number.
pub open spec fn bumped(n: u64) -> u64 {
    if n == u64::MAX {
        n
    } else {
        (n + 1) as u64
    }
}

/// Hands an input to the running turn, where one runs.
pub open spec fn to_current(current: Option<u64>, input: Input, must_fit: bool) -> Seq<Effect> {
    match current {
        Some(turn) => seq![Effect::Deliver { turn, input, must_fit }],
        None => Seq::empty(),
    }
}

/// Whether the service can read a codec.
pub open spec fn supported_codec(codec: Seq<char>) -> bool {
    let name = text::lowered(codec);
    name == "pcm"@ || name == "pcm16"@ || name == "s16le"@
}

/// The codec that a registration asks for: one that is not blank.
pub open spec fn asked_codec(codec: Option<Seq<char>>) -> Option<Seq<char>> {
    match codec {
        Some(name) if !text::is_blank(name) => Some(name),
        _ => None,
    }
}

/// The message for a codec that the service cannot read.
pub open spec fn codec_error(codec: Seq<char>) -> Seq<char> {
    "mipns requested unsupported speech codec "@ + text::debug_quoted(codec)
        + "; start mipns-xiaomi without -r opus32"@
}

/// The answer to a registration.
pub open spec fn register_step(state: Service, peer: Seq<u8>, event: UpMessage) -> (
    Service,
    Seq<Effect>,
) {
    let codec = asked_codec(event.speech_codec);
    if codec is Some && !supported_codec(codec->0) {
        (
            state,
            seq![
                Effect::Publish {
                    event: Notice::Fatal(codec_error(codec->0)),
                    must_arrive: false,
                },
            ],
        )
    } else {
        let vendor = match event.speech_vendor {
            Some(vendor) => vendor,
            None => "unknown"@,
        };
        (
            Service {
                peer: Some(peer),
                current: None,
                last_turn_id: None,
                dialog_id: None,
                chat_count: 0,
                ..state
            },
            to_current(state.current, Input::Cancelled, false) + seq![
                Effect::Send(downward_frame(DOWN_REGISTER_RESPONSE, None, None)),
                Effect::Send(downward_frame(DOWN_ENABLE_VOICE_WAKEUP, None, None)),
                Effect::Publish {
                    event: Notice::Registered { vendor, codec },
                    must_arrive: true,
                },
            ],
        )
    }
}

/// The answer to the opening of a stream, under a fresh dialogue identifier.
pub open spec fn prepare_step(state: Service, event: UpMessage, dialog_id: Seq<char>) -> (
    Service,
    Seq<Effect>,
) {
    let activation = activation_of(
        match event.activate_mode {
            Some(mode) => mode,
            None => 0,
        },
    );
    let interaction_mode = match event.interact_mode {
        Some(mode) => mode,
        None => 0,
    };
    let id = bumped(state.next_turn_id);
    (
        Service {
            current: Some(id),
            last_turn_id: Some(id),
            dialog_id: Some(dialog_id),
            next_turn_id: id,
            chat_count: if activation == ActivationMode::Wakeup {
                1
            } else {
                bumped(state.chat_count)
            },
            dialog_count: if activation == ActivationMode::Wakeup {
                bumped(state.dialog_count)
            } else {
                state.dialog_count
            },
            ..state
        },
        to_current(state.current, Input::Cancelled, false) + seq![
            Effect::Send(
                downward_frame(
                    DOWN_STREAM_PREPARE_RESPONSE,
                    Some(dialog_id),
                    Some((3, wire::varint_part(1, 1))),
                ),
            ),
            Effect::Publish {
                event: Notice::Turn(
                    SpeechTurn { id, activation, interaction_mode, stop_requested: false },
                ),
                must_arrive: true,
            },
        ],
    )
}

/// Whether a peer is the one that has registered.
pub open spec fn knows(state: Service, peer: Seq<u8>) -> bool {
    state.peer matches Some(known) && paths::same_raw_path(known, peer)
}

/// What the service does with a message from `peer`.
///
/// Only a registration is heard from a peer that has not registered.
pub open spec fn upward_step(
    state: Service,
    peer: Seq<u8>,
    event: UpMessage,
    dialog_id: Seq<char>,
) -> (Service, Seq<Effect>) {
    if event.up_type == UP_REGISTER {
        register_step(state, peer, event)
    } else if !knows(state, peer) {
        (state, Seq::empty())
    } else if event.up_type == UP_STREAM_PREPARE {
        prepare_step(state, event, dialog_id)
    } else if event.up_type == UP_STREAM_CANCEL {
        (Service { current: None, ..state }, to_current(state.current, Input::Cancelled, false))
    } else if event.up_type == UP_STREAM_END {
        (Service { current: None, ..state }, to_current(state.current, Input::End, false))
    } else if event.up_type == UP_STREAM_TRANSMITTING && event.transmit_type == Some(STREAM_ASR) {
        (state, to_current(state.current, Input::Pcm(event.data), true))
    } else {
        (state, Seq::empty())
    }
}

impl ServiceState {
    /// A service that nothing has happened to.
    pub fn new() -> (r: Self)
        ensures
            r@ == fresh_service(),
    {
        ServiceState {
            peer: None,
            current: None,
            last_turn_id: None,
            dialog_id: None,
            next_turn_id: 0,
            chat_count: 0,
            dialog_count: 0,
        }
    }

    /// Takes the running turn, handing it a last input.
    fn close_current(&mut self, input: SpeechInput, actions: &mut Vec<ServiceAction>)
        ensures
            final(self)@ == (Service { current: None, ..old(self)@ }),
            effects(final(actions)@) == effects(old(actions)@) + to_current(
                old(self).current,
                input@,
                false,
            ),
    {
        let ghost before = actions@;
        let current: Option<u64> = self.current;
        self.current = None;
        if let Some(turn) = current {
            actions.push(ServiceAction::Deliver { turn, input, must_fit: false });
        }
        assert(effects(actions@) =~= effects(before) + to_current(current, input@, false));
    }

    fn register(&mut self, peer: &[u8], event: UpEvent) -> (r: Vec<ServiceAction>)
        ensures
            (final(self)@, effects(r@)) == register_step(old(self)@, peer@, event@),
    {
        let mut actions: Vec<ServiceAction> = Vec::new();
        let vendor: String = match event.speech_vendor {
            Some(vendor) => vendor,
            None => "unknown".to_owned(),
        };
        let codec: Option<String> = match event.speech_codec {
            Some(codec) => {
                if text::blank(codec.as_str()) {
                    None
                } else {
                    Some(codec)
                }
            },
            None => None,
        };
        if let Some(name) = &codec {
            let lower: String = text::to_ascii_lowercase(name.as_str());
            if !(text::same_text(lower.as_str(), "pcm") || text::same_text(lower.as_str(), "pcm16")
                || text::same_text(lower.as_str(), "s16le")) {
                let mut message: String = "mipns requested unsupported speech codec ".to_owned();
                message.append(text::quote_debug(name.as_str()).as_str());
                message.append("; start mipns-xiaomi without -r opus32");
                actions.push(
                    ServiceAction::Publish {
                        event: SpeechServiceEvent::Fatal(message),
                        must_arrive: false,
                    },
                );
                assert(effects(actions@) =~= register_step(old(self)@, peer@, event@).1);
                return actions;
            }
        }
        self.close_current(SpeechInput::Cancelled, &mut actions);
        self.peer = Some(vstd::slice::slice_to_vec(peer));
        self.last_turn_id = None;
        self.dialog_id = None;
        self.chat_count = 0;
        actions.push(ServiceAction::Send(downward_message(DOWN_REGISTER_RESPONSE, None, None)));
        actions.push(ServiceAction::Send(downward_message(DOWN_ENABLE_VOICE_WAKEUP, None, None)));
        actions.push(
            ServiceAction::Publish {
                event: SpeechServiceEvent::Registered { vendor, codec },
                must_arrive: true,
            },
        );
        assert(effects(actions@) =~= register_step(old(self)@, peer@, event@).1);
        assert(self@ =~= register_step(old(self)@, peer@, event@).0);
        actions
    }

    fn prepare(&mut self, event: &UpEvent, dialog_id: String) -> (r: Vec<ServiceAction>)
        ensures
            (final(self)@, effects(r@)) == prepare_step(old(self)@, event@, dialog_id@),
    {
        let mut actions: Vec<ServiceAction> = Vec::new();
        self.close_current(SpeechInput::Cancelled, &mut actions);
        let activate_mode: u64 = match event.activate_mode {
            Some(mode) => mode,
            None => 0,
        };
        let interaction_mode: u64 = match event.interact_mode {
            Some(mode) => mode,
            None => 0,
        };
        let activation: ActivationMode = ActivationMode::from_wire(activate_mode);
        if activation.is_wakeup() {
            self.dialog_count = self.dialog_count.saturating_add(1);
            self.chat_count = 1;
        } else {
            self.chat_count = self.chat_count.saturating_add(1);
        }
        self.next_turn_id = self.next_turn_id.saturating_add(1);
        let id: u64 = self.next_turn_id;
        self.current = Some(id);
        self.last_turn_id = Some(id);
        let response: Vec<u8> = wire::bool_field(1, true);
        let frame: Vec<u8> = downward_message(
            DOWN_STREAM_PREPARE_RESPONSE,
            Some(dialog_id.as_str()),
            Some((3, response)),
        );
        self.dialog_id = Some(dialog_id);
        actions.push(ServiceAction::Send(frame));
        actions.push(
            ServiceAction::Publish {
                event: SpeechServiceEvent::Turn(
                    SpeechTurn { id, activation, interaction_mode, stop_requested: false },
                ),
                must_arrive: true,
            },
        );
        assert(effects(actions@) =~= prepare_step(old(self)@, event@, dialog_id@).1);
        assert(self@ =~= prepare_step(old(self)@, event@, dialog_id@).0);
        actions
    }

    /// Answers a message from `peer`; a stream that it opens belongs to the
    /// dialogue `dialog_id`.
    pub fn handle_upward_as(
        &mut self,
        peer: &[u8],
        event: UpEvent,
        dialog_id: String,
    ) -> (r: Vec<ServiceAction>)
        ensures
            (final(self)@, effects(r@)) == upward_step(old(self)@, peer@, event@, dialog_id@),
    {
        let mut actions: Vec<ServiceAction> = Vec::new();
        assert(effects(actions@) =~= Seq::empty());
        if event.up_type == UP_REGISTER {
            return self.register(peer, event);
        }
        let known: bool = match &self.peer {
            Some(known) => paths::are_same_raw(known.as_slice(), peer),
            None => false,
        };
        if !known {
            return actions;
        }
        if event.up_type == UP_STREAM_PREPARE {
            return self.prepare(&event, dialog_id);
        }
        if event.up_type == UP_STREAM_CANCEL {
            self.close_current(SpeechInput::Cancelled, &mut actions);
        } else if event.up_type == UP_STREAM_END {
            self.close_current(SpeechInput::End, &mut actions);
        } else if event.up_type == UP_STREAM_TRANSMITTING {
            let asr: bool = match event.transmit_type {
                Some(kind) => kind == STREAM_ASR,
                None => false,
            };
            if asr {
                if let Some(turn) = self.current {
                    actions.push(
                        ServiceAction::Deliver {
                            turn,
                            input: SpeechInput::Pcm(event.data),
                            must_fit: true,
                        },
                    );
                }
            }
        }
        assert(effects(actions@) =~= upward_step(old(self)@, peer@, event@, dialog_id@).1);
        actions
    }
}

// -------------------------------------------------------- dialogue identifiers

/// Sixteen bytes of `rand::thread_rng`. Nothing is claimed of them: they are
/// drawn at random.
#[verifier::external_body]
pub(crate) fn random_bytes() -> (r: [u8; 16]) {
    let mut bytes = [0_u8; 16];
    rand::RngCore::fill_bytes(&mut rand::thread_rng(), &mut bytes);
    bytes
}

/// Whether a text is a dialogue identifier: 32 lower-case hexadecimal digits.
pub open spec fn is_dialog_id(id: Seq<char>) -> bool {
    &&& id.len() == 32
    &&& forall|i: int| 0 <= i < id.len() ==> text::is_hex_lower(#[trigger] id[i])
}

/// The dialogue identifier that sixteen bytes spell.
pub fn dialog_id_from(bytes: &[u8; 16]) -> (r: String)
    ensures
        r@ == text::hex_bytes(bytes@),
        is_dialog_id(r@),
{
    proof {
        text::lemma_hex_bytes(bytes@);
    }
    text::hex_text(bytes.as_slice())
}

/// A fresh dialogue identifier, drawn at random.
pub fn make_dialog_id() -> (r: String)
    ensures
        is_dialog_id(r@),
{
    let bytes: [u8; 16] = random_bytes();
    dialog_id_from(&bytes)
}

impl ServiceState {
    /// Answers a message from `peer`. A stream that it opens gets a dialogue
    /// identifier drawn at random.
    pub fn handle_upward(&mut self, peer: &[u8], event: UpEvent) -> (r: Vec<ServiceAction>)
        ensures
            exists|id: Seq<char>|
                is_dialog_id(id) && (final(self)@, effects(r@)) == #[trigger] upward_step(
                    old(self)@,
                    peer@,
                    event@,
                    id,
                ),
    {
        let id: String = make_dialog_id();
        let ghost drawn = id@;
        let ghost before = self@;
        let ghost message = event@;
        let actions: Vec<ServiceAction> = self.handle_upward_as(peer, event, id);
        assert((self@, effects(actions@)) == upward_step(before, peer@, message, drawn));
        actions
    }
}

// ------------------------------------------------------------------- commands

/// How `{:?}` shows an optional number.
pub open spec fn shown_option(value: Option<u64>) -> Seq<char> {
    match value {
        Some(n) => "Some("@ + text::decimal(n as nat) + ")"@,
        None => "None"@,
    }
}

fn show_option(value: Option<u64>) -> (r: String)
    ensures
        r@ == shown_option(value),
{
    match value {
        Some(n) => {
            let mut out: String = "Some(".to_owned();
            out.append(text::decimal_text(n).as_str());
            out.append(")");
            out
        },
        None => "None".to_owned(),
    }
}

/// The body of the message that ends a turn.
pub open spec fn finish_body(continue_dialog: bool, chat_count: u64, dialog_count: u64) -> Seq<
    WireField,
> {
    seq![
        WireField::Varint { number: 1, value: 0 },
        WireField::Varint { number: 2, value: wire::bit(continue_dialog) },
        WireField::Varint { number: 3, value: wire::bit(continue_dialog) },
        WireField::Varint { number: 4, value: wire::bit(!continue_dialog) },
        WireField::Varint { number: 5, value: chat_count },
        WireField::Varint { number: 6, value: dialog_count },
    ]
}

/// What a command sends, in order. Continuing a dialogue first asks for more
/// speech with the wake word off; the front end never reopens the stream by
/// itself.
pub open spec fn command_frames(state: Service, kind: CommandKind) -> Seq<Seq<u8>> {
    match kind {
        CommandKind::StopCapture => seq![downward_frame(DOWN_STOP_CAPTURE, state.dialog_id, None)],
        CommandKind::Finish { continue_dialog } => {
            let finish = downward_frame(
                DOWN_DIALOG_FINISH,
                state.dialog_id,
                Some(
                    (
                        6,
                        wire::fields_part(
                            finish_body(continue_dialog, state.chat_count, state.dialog_count),
                        ),
                    ),
                ),
            );
            if continue_dialog {
                seq![
                    downward_frame(
                        DOWN_EXPECT_SPEECH,
                        state.dialog_id,
                        Some((4, wire::varint_part(2, 0))),
                    ),
                    finish,
                ]
            } else {
                seq![finish]
            }
        },
    }
}

/// Why a command is refused, where it is.
pub open spec fn command_refusal(state: Service, turn_id: u64) -> Option<Seq<char>> {
    if state.peer is None {
        Some("mipns has not registered with speech.usock"@)
    } else if state.last_turn_id != Some(turn_id) {
        Some(
            "stale speech command for turn "@ + text::decimal(turn_id as nat) + "; current turn is "@
                + shown_option(state.last_turn_id),
        )
    } else {
        None
    }
}

/// The contents of a list of datagrams.
pub open spec fn frames(items: Seq<Vec<u8>>) -> Seq<Seq<u8>> {
    items.map_values(|f: Vec<u8>| f@)
}

fn finish_message(continue_dialog: bool, chat_count: u64, dialog_count: u64) -> (r: Vec<u8>)
    ensures
        r@ == wire::fields_part(finish_body(continue_dialog, chat_count, dialog_count)),
{
    let mut parts: Vec<Vec<u8>> = Vec::new();
    parts.push(wire::bool_field(1, false));
    parts.push(wire::bool_field(2, continue_dialog));
    parts.push(wire::bool_field(3, continue_dialog));
    parts.push(wire::bool_field(4, !continue_dialog));
    parts.push(wire::varint_field(5, chat_count));
    parts.push(wire::varint_field(6, dialog_count));
    proof {
        wire::lemma_joined(parts@, finish_body(continue_dialog, chat_count, dialog_count));
    }
    wire::message(parts)
}

impl ServiceState {
    /// The datagrams that a command sends to the registered peer, or why it is
    /// refused. Only the last turn can be commanded.
    pub fn handle_command(&self, turn_id: u64, kind: CommandKind) -> (r: Result<
        Vec<Vec<u8>>,
        String,
    >)
        ensures
            match command_refusal(self@, turn_id) {
                Some(reason) => r matches Err(e) && e@ == reason,
                None => r matches Ok(out) && frames(out@) == command_frames(self@, kind),
            },
    {
        if self.peer.is_none() {
            return Err("mipns has not registered with speech.usock".to_owned());
        }
        let last: Option<u64> = self.last_turn_id;
        let stale: bool = match last {
            Some(last) => last != turn_id,
            None => true,
        };
        if stale {
            let mut out: String = "stale speech command for turn ".to_owned();
            out.append(text::decimal_text(turn_id).as_str());
            out.append("; current turn is ");
            out.append(show_option(last).as_str());
            return Err(out);
        }
        let dialog_id: Option<&str> = match &self.dialog_id {
            Some(id) => Some(id.as_str()),
            None => None,
        };
        assert(opt_str(dialog_id) == opt_text(self.dialog_id));
        let mut out: Vec<Vec<u8>> = Vec::new();
        match kind {
            CommandKind::StopCapture => {
                out.push(downward_message(DOWN_STOP_CAPTURE, dialog_id, None));
            },
            CommandKind::Finish { continue_dialog } => {
                if continue_dialog {
                    out.push(
                        downward_message(
                            DOWN_EXPECT_SPEECH,
                            dialog_id,
                            Some((4, wire::bool_field(2, false))),
                        ),
                    );
                }
                let body: Vec<u8> = finish_message(
                    continue_dialog,
                    self.chat_count,
                    self.dialog_count,
                );
                out.push(downward_message(DOWN_DIALOG_FINISH, dialog_id, Some((6, body))));
            },
        }
        assert(frames(out@) =~= command_frames(self@, kind));
        Ok(out)
    }
}

/// The error of a turn whose queue is full.
pub fn overflow_message(turn: u64) -> (r: String)
    ensures
        r@ == "speech audio queue overflow on turn "@ + text::decimal(turn as nat),
{
    let mut out: String = "speech audio queue overflow on turn ".to_owned();
    out.append(text::decimal_text(turn).as_str());
    out
}

// ----------------------------------------------------------------------- laws

/// What holds of the service between messages: a running turn is the last one,
/// it has a registered peer and a dialogue, and no turn has a number above the
/// counter.
pub open spec fn service_ok(state: Service) -> bool {
    &&& state.current is Some ==> state.last_turn_id == state.current
    &&& state.last_turn_id matches Some(last) ==> {
        &&& last == state.next_turn_id
        &&& state.peer is Some
        &&& state.dialog_id is Some
        &&& state.chat_count >= 1
    }
}

/// A new service is sound, and every message keeps it so.
pub proof fn law_service_stays_sound(
    state: Service,
    peer: Seq<u8>,
    event: UpMessage,
    dialog_id: Seq<char>,
)
    requires
        service_ok(state),
    ensures
        service_ok(fresh_service()),
        service_ok(upward_step(state, peer, event, dialog_id).0),
{
}

/// Only the registered peer is heard: any other message than a registration
/// changes nothing and is not answered.
pub proof fn law_strangers_are_ignored(
    state: Service,
    peer: Seq<u8>,
    event: UpMessage,
    dialog_id: Seq<char>,
)
    requires
        !knows(state, peer),
        event.up_type != UP_REGISTER,
    ensures
        upward_step(state, peer, event, dialog_id) == (state, Seq::<Effect>::empty()),
{
}

/// A registration with a codec that the service cannot read leaves the state as
/// it was and sends nothing to the peer.
pub proof fn law_refused_registration_changes_nothing(
    state: Service,
    peer: Seq<u8>,
    event: UpMessage,
    dialog_id: Seq<char>,
)
    requires
        event.up_type == UP_REGISTER,
        event.speech_codec matches Some(codec) && !text::is_blank(codec) && !supported_codec(codec),
    ensures
        upward_step(state, peer, event, dialog_id).0 == state,
        forall|i: int|
            0 <= i < upward_step(state, peer, event, dialog_id).1.len()
                ==> !(#[trigger] upward_step(state, peer, event, dialog_id).1[i] is Send),
{
}

/// Inputs go to the running turn only, and a turn that is handed its last input
/// runs no more.
pub proof fn law_inputs_go_to_the_running_turn(
    state: Service,
    peer: Seq<u8>,
    event: UpMessage,
    dialog_id: Seq<char>,
    i: int,
)
    requires
        service_ok(state),
        state.next_turn_id < u64::MAX,
        0 <= i < upward_step(state, peer, event, dialog_id).1.len(),
        upward_step(state, peer, event, dialog_id).1[i] is Deliver,
    ensures
        ({
            let (after, out) = upward_step(state, peer, event, dialog_id);
            &&& state.current == Some(out[i]->Deliver_turn)
            &&& out[i]->Deliver_input is Pcm ==> after == state
            &&& !(out[i]->Deliver_input is Pcm) ==> after.current != state.current
        }),
{
}

/// Every turn that opens has a number above all before it, until the counter is
/// full.
pub proof fn law_turn_numbers_grow(
    state: Service,
    peer: Seq<u8>,
    event: UpMessage,
    dialog_id: Seq<char>,
)
    ensures
        ({
            let after = upward_step(state, peer, event, dialog_id).0;
            &&& after.next_turn_id >= state.next_turn_id
            &&& after.current is Some && after.current != state.current ==> after.current == Some(
                after.next_turn_id,
            )
            &&& event.up_type == UP_STREAM_PREPARE && knows(state, peer)
                && state.next_turn_id < u64::MAX ==> after.next_turn_id == state.next_turn_id + 1
        }),
{
}

/// A command for a turn is taken exactly while that turn is the last one of a
/// registered peer: a message that opens a stream makes its turn the one that
/// can be commanded.
pub proof fn law_prepared_turn_can_be_commanded(
    state: Service,
    peer: Seq<u8>,
    event: UpMessage,
    dialog_id: Seq<char>,
    turn_id: u64,
)
    requires
        knows(state, peer),
        event.up_type == UP_STREAM_PREPARE,
    ensures
        command_refusal(upward_step(state, peer, event, dialog_id).0, turn_id) is None <==> turn_id
            == bumped(state.next_turn_id),
{
}

/// A downward datagram reads back as what was written: its envelope, and inside
/// it the type, the dialogue and the field.
pub proof fn law_downward_roundtrip(
    down_type: u64,
    dialog_id: Option<Seq<char>>,
    body: Option<(u64, Seq<u8>)>,
    strictness: Strictness,
)
    requires
        dialog_id matches Some(id) ==> vstd::utf8::encode_utf8(id).len() <= usize::MAX,
        body matches Some((number, value)) ==> 0 < number < 0x2000_0000_0000_0000 && value.len()
            <= usize::MAX,
        wire::fields_part(downward_fields(down_type, dialog_id, body)).len() <= usize::MAX,
    ensures
        ({
            let inner = wire::fields_part(downward_fields(down_type, dialog_id, body));
            &&& wire::read_fields(downward_frame(down_type, dialog_id, body), strictness) == Ok::<
                Seq<WireField>,
                WireError,
            >(downward_envelope(inner))
            &&& wire::read_fields(inner, strictness) == Ok::<Seq<WireField>, WireError>(
                downward_fields(down_type, dialog_id, body),
            )
        }),
{
    let fields = downward_fields(down_type, dialog_id, body);
    wire::law_fields_roundtrip(fields, strictness);
    wire::law_fields_roundtrip(downward_envelope(wire::fields_part(fields)), strictness);
}

/// The datagram that carries an upward body.
pub open spec fn upward_frame(body: Seq<WireField>) -> Seq<u8> {
    wire::fields_part(
        seq![
            WireField::Varint { number: 1, value: SPEECH_TYPE_UPWARD },
            WireField::Bytes { number: 2, value: wire::fields_part(body) },
        ],
    )
}

/// A datagram with a body of a type, and in it the message of that type, is read
/// back as that message.
pub proof fn law_upward_roundtrip(up_type: u64, body: Seq<WireField>, strictness: Strictness)
    requires
        body_field(up_type) is Some,
        forall|i: int| 0 <= i < body.len() ==> wire::writable(#[trigger] body[i]),
        wire::fields_part(body).len() <= usize::MAX,
        wire::fields_part(
            seq![
                WireField::Varint { number: 1, value: up_type },
                WireField::Bytes {
                    number: body_field(up_type)->0,
                    value: wire::fields_part(body),
                },
            ],
        ).len() <= usize::MAX,
    ensures
        upward_message(
            upward_frame(
                seq![
                    WireField::Varint { number: 1, value: up_type },
                    WireField::Bytes {
                        number: body_field(up_type)->0,
                        value: wire::fields_part(body),
                    },
                ],
            ),
            strictness,
        ) == Ok::<Option<UpMessage>, DecodeError>(Some(message_with(up_type, body))),
{
    let number = body_field(up_type)->0;
    let first = WireField::Varint { number: 1, value: up_type };
    let second = WireField::Bytes { number, value: wire::fields_part(body) };
    let fields = seq![first, second];
    let kind = WireField::Varint { number: 1, value: SPEECH_TYPE_UPWARD };
    let held = WireField::Bytes { number: 2, value: wire::fields_part(fields) };
    let outer = seq![kind, held];
    wire::law_fields_roundtrip(body, strictness);
    wire::law_fields_roundtrip(fields, strictness);
    wire::law_fields_roundtrip(outer, strictness);
    reveal_with_fuel(wire::first_bytes, 3);
    assert(fields.skip(1)[0] == second);
    assert(outer.skip(1)[0] == held);
}

// --------------------------------------------------------- what is said to whom

/// The datagrams among some effects, in order.
pub open spec fn sent(out: Seq<Effect>) -> Seq<Seq<u8>>
    decreases out.len(),
{
    if out.len() == 0 {
        Seq::empty()
    } else {
        match out.last() {
            Effect::Send(frame) => sent(out.drop_last()).push(frame),
            _ => sent(out.drop_last()),
        }
    }
}

/// The fields of the message inside a datagram to the front end, where it is one.
pub open spec fn downward_of(frame: Seq<u8>) -> Option<Seq<WireField>> {
    match wire::read_fields(frame, Strictness::Strict) {
        Ok(outer) => if wire::first_varint(outer, 1) != Some(1u64) {
            None
        } else {
            match wire::first_bytes(outer, 3) {
                Some(inner) => match wire::read_fields(inner, Strictness::Strict) {
                    Ok(fields) => Some(fields),
                    Err(_) => None,
                },
                None => None,
            }
        },
        Err(_) => None,
    }
}

/// The fields of the message that such a message holds under a number.
pub open spec fn held_under(fields: Seq<WireField>, number: u64) -> Option<Seq<WireField>> {
    match wire::first_bytes(fields, number) {
        Some(bytes) => match wire::read_fields(bytes, Strictness::Strict) {
            Ok(held) => Some(held),
            Err(_) => None,
        },
        None => None,
    }
}

/// Whether a datagram, read back, is a message of a type to the front end, in a
/// dialogue.
pub open spec fn says(frame: Seq<u8>, down_type: u64, dialog_id: Option<Seq<char>>) -> bool {
    downward_of(frame) matches Some(fields) && {
        &&& wire::first_varint(fields, 1) == Some(down_type)
        &&& wire::first_text(fields, 2) == dialog_id
    }
}

/// What a datagram to the front end, read back, says under a number of the message
/// that it holds under another.
pub open spec fn said_under(frame: Seq<u8>, holder: u64, number: u64) -> Option<u64> {
    match downward_of(frame) {
        Some(fields) => match held_under(fields, holder) {
            Some(held) => wire::first_varint(held, number),
            None => None,
        },
        None => None,
    }
}

/// The size of what an identifier may be.
pub open spec fn short_id(dialog_id: Option<Seq<char>>) -> bool {
    dialog_id matches Some(id) ==> vstd::utf8::encode_utf8(id).len() <= 0x1000_0000
}

proof fn lemma_field_size(field: WireField)
    requires
        field is Varint || field is Bytes,
        field is Bytes ==> field->Bytes_value.len() <= usize::MAX,
    ensures
        wire::field_part(field).len() <= 20 + if field is Bytes {
            field->Bytes_value.len()
        } else {
            0
        },
{
    match field {
        WireField::Varint { number, value } => {
            wire::law_varint_roundtrip(wire::field_key(number, 0) as u64, Seq::empty());
            wire::law_varint_roundtrip(value, Seq::empty());
        },
        WireField::Bytes { number, value } => {
            wire::law_varint_roundtrip(wire::field_key(number, 2) as u64, Seq::empty());
            wire::law_varint_roundtrip(value.len() as u64, Seq::empty());
        },
        _ => {},
    }
}

/// What is read back of a datagram to the front end.
pub proof fn lemma_said(down_type: u64, dialog_id: Option<Seq<char>>, body: Option<(u64, Seq<u8>)>)
    requires
        short_id(dialog_id),
        body matches Some((number, value)) ==> 2 < number < 1000 && value.len() <= 1000,
    ensures
        ({
            let frame = downward_frame(down_type, dialog_id, body);
            &&& says(frame, down_type, dialog_id)
            &&& downward_of(frame) == Some(downward_fields(down_type, dialog_id, body))
            &&& body matches Some((number, value)) ==> wire::first_bytes(
                downward_fields(down_type, dialog_id, body),
                number,
            ) == Some(value)
        }),
{
    let fields = downward_fields(down_type, dialog_id, body);
    let head = seq![WireField::Varint { number: 1, value: down_type }];
    let named = downward_fields(down_type, dialog_id, None);
    wire::lemma_fields_part_one(head[0]);
    assert(head =~= seq![head[0]]);
    lemma_field_size(head[0]);
    if let Some(id) = dialog_id {
        let field = WireField::Bytes { number: 2, value: vstd::utf8::encode_utf8(id) };
        wire::lemma_fields_part_push(head, field);
        lemma_field_size(field);
        vstd::utf8::encode_utf8_valid_utf8(id);
        vstd::utf8::encode_utf8_decode_utf8(id);
    }
    if let Some((number, value)) = body {
        let field = WireField::Bytes { number, value };
        wire::lemma_fields_part_push(named, field);
        lemma_field_size(field);
    }
    law_downward_roundtrip(down_type, dialog_id, body, Strictness::Strict);
    let outer = downward_envelope(wire::fields_part(fields));
    wire::law_first_fields_are_found(outer, 1, 0);
    wire::law_first_fields_are_found(outer, 3, 1);
    wire::law_first_fields_are_found(fields, 1, 0);
    if let Some(id) = dialog_id {
        wire::law_first_fields_are_found(fields, 2, 1);
    } else {
        reveal_with_fuel(wire::first_bytes, 4);
    }
    if let Some((number, value)) = body {
        wire::law_first_fields_are_found(fields, number, fields.len() - 1);
    }
}

/// What is read back of a short message of integers.
proof fn lemma_held(fields: Seq<WireField>)
    requires
        fields.len() <= 6,
        forall|i: int|
            0 <= i < fields.len() ==> (#[trigger] fields[i]) is Varint && 0
                < fields[i]->Varint_number < 1000,
    ensures
        wire::read_fields(wire::fields_part(fields), Strictness::Strict) == Ok::<
            Seq<WireField>,
            WireError,
        >(fields),
        wire::fields_part(fields).len() <= 20 * fields.len(),
    decreases fields.len(),
{
    wire::law_fields_roundtrip(fields, Strictness::Strict);
    if fields.len() > 0 {
        let front = fields.drop_last();
        assert forall|i: int| 0 <= i < front.len() implies (#[trigger] front[i]) is Varint && 0
            < front[i]->Varint_number < 1000 by {
            assert(front[i] == fields[i]);
        }
        lemma_held(front);
        wire::lemma_fields_part_push(front, fields.last());
        assert(front.push(fields.last()) =~= fields);
        lemma_field_size(fields[fields.len() - 1]);
    }
}

/// A stream that the registered front end opens is accepted: exactly one datagram is
/// sent, which says so under the new dialogue. The turn before it, where one runs, is
/// told that it is cancelled, and the new turn is published under a number of its
/// own, as it was opened.
pub proof fn law_opened_streams_are_accepted(
    state: Service,
    peer: Seq<u8>,
    event: UpMessage,
    dialog_id: Seq<char>,
)
    requires
        knows(state, peer),
        event.up_type == 1,
        short_id(Some(dialog_id)),
    ensures
        ({
            let (after, out) = upward_step(state, peer, event, dialog_id);
            let mode = match event.activate_mode {
                Some(mode) => mode,
                None => 0,
            };
            &&& sent(out).len() == 1
            &&& says(sent(out)[0], 1, Some(dialog_id))
            &&& said_under(sent(out)[0], 3, 1) == Some(1u64)
            &&& state.current matches Some(turn) ==> out.len() == 3 && out[0] == (Effect::Deliver {
                turn,
                input: Input::Cancelled,
                must_fit: false,
            })
            &&& state.current is None ==> out.len() == 2
            &&& out.last() matches Effect::Publish { event: Notice::Turn(turn), must_arrive: true }
                && {
                &&& after.current == Some(turn.id) && after.last_turn_id == Some(turn.id)
                &&& turn.activation == (if mode == 0 {
                    ActivationMode::Wakeup
                } else if mode == 1 {
                    ActivationMode::FollowUp
                } else {
                    ActivationMode::Unknown(mode)
                })
                &&& turn.interaction_mode == match event.interact_mode {
                    Some(mode) => mode,
                    None => 0,
                }
                &&& !turn.stop_requested
            }
            &&& after.dialog_id == Some(dialog_id)
            &&& after.peer == state.peer
            &&& mode == 0 ==> after.chat_count == 1 && (state.dialog_count < u64::MAX
                ==> after.dialog_count == state.dialog_count + 1)
            &&& mode != 0 ==> after.dialog_count == state.dialog_count && (state.chat_count
                < u64::MAX ==> after.chat_count == state.chat_count + 1)
        }),
{
    let (after, out) = upward_step(state, peer, event, dialog_id);
    let answer = seq![WireField::Varint { number: 1, value: 1 }];
    lemma_held(answer);
    wire::lemma_fields_part_one(answer[0]);
    assert(answer =~= seq![answer[0]]);
    lemma_said(1, Some(dialog_id), Some((3u64, wire::fields_part(answer))));
    wire::law_first_fields_are_found(answer, 1, 0);
    reveal_with_fuel(sent, 4);
    assert(out.drop_last().last() is Send);
    assert(out.drop_last().drop_last() =~= to_current(state.current, Input::Cancelled, false));
    if state.current is Some {
        assert(out.drop_last().drop_last().drop_last() =~= Seq::empty());
    }
}

/// A registration that the service can serve is answered with two datagrams: that it
/// is registered, and that the wake word is on. The peer is known from then on, a
/// turn that runs is cancelled, and nothing of a dialogue before is left.
pub proof fn law_registrations_are_answered(
    state: Service,
    peer: Seq<u8>,
    event: UpMessage,
    dialog_id: Seq<char>,
)
    requires
        event.up_type == 0,
        event.speech_codec matches Some(codec) ==> text::trimmed(codec).len() == 0 || text::lowered(
            codec,
        ) == "pcm"@ || text::lowered(codec) == "pcm16"@ || text::lowered(codec) == "s16le"@,
    ensures
        ({
            let (after, out) = upward_step(state, peer, event, dialog_id);
            &&& sent(out).len() == 2
            &&& says(sent(out)[0], 0, None)
            &&& says(sent(out)[1], 9, None)
            &&& state.current matches Some(turn) ==> out[0] == (Effect::Deliver {
                turn,
                input: Input::Cancelled,
                must_fit: false,
            })
            &&& out.last() matches Effect::Publish {
                event: Notice::Registered { vendor, codec },
                must_arrive: true,
            } && {
                &&& vendor == match event.speech_vendor {
                    Some(vendor) => vendor,
                    None => "unknown"@,
                }
                &&& codec == match event.speech_codec {
                    Some(codec) if text::trimmed(codec).len() > 0 => Some(codec),
                    _ => None,
                }
            }
            &&& after.peer == Some(peer)
            &&& after.current is None && after.last_turn_id is None && after.dialog_id is None
            &&& after.chat_count == 0
            &&& after.dialog_count == state.dialog_count
            &&& after.next_turn_id == state.next_turn_id
        }),
{
    let out = upward_step(state, peer, event, dialog_id).1;
    lemma_said(0, None, None);
    lemma_said(9, None, None);
    reveal_with_fuel(sent, 5);
    let two = out.drop_last();
    let one = two.drop_last();
    assert(two.last() is Send && one.last() is Send);
    assert(one.drop_last() =~= to_current(state.current, Input::Cancelled, false));
    if state.current is Some {
        assert(one.drop_last().drop_last() =~= Seq::empty());
    }
}

/// A codec that the service cannot read is refused, and the owner is told which.
pub proof fn law_other_codecs_are_refused(
    state: Service,
    peer: Seq<u8>,
    event: UpMessage,
    dialog_id: Seq<char>,
    codec: Seq<char>,
)
    requires
        event.up_type == 0,
        event.speech_codec == Some(codec),
        text::trimmed(codec).len() > 0,
        text::lowered(codec) != "pcm"@,
        text::lowered(codec) != "pcm16"@,
        text::lowered(codec) != "s16le"@,
    ensures
        upward_step(state, peer, event, dialog_id) == (
            state,
            seq![
                Effect::Publish {
                    event: Notice::Fatal(
                        "mipns requested unsupported speech codec "@ + text::debug_quoted(codec)
                            + "; start mipns-xiaomi without -r opus32"@,
                    ),
                    must_arrive: false,
                },
            ],
        ),
{
}

/// What the running turn hears. The audio of the utterance reaches it whole, or the
/// service fails; that of the wake word does not; the end and the cancelling of the
/// stream are the last that it hears. Without a running turn nothing is delivered,
/// and no other message does anything.
pub proof fn law_streams_are_delivered(
    state: Service,
    peer: Seq<u8>,
    event: UpMessage,
    dialog_id: Seq<char>,
)
    requires
        knows(state, peer),
        event.up_type != 0,
        event.up_type != 1,
    ensures
        ({
            let (after, out) = upward_step(state, peer, event, dialog_id);
            let idle = Service { current: None, ..state };
            match state.current {
                None => out.len() == 0 && after == state,
                Some(turn) => if event.up_type == 3 && event.transmit_type == Some(2u64) {
                    &&& after == state
                    &&& out == seq![
                        Effect::Deliver { turn, input: Input::Pcm(event.data), must_fit: true },
                    ]
                } else if event.up_type == 2 {
                    &&& after == idle
                    &&& out == seq![
                        Effect::Deliver { turn, input: Input::Cancelled, must_fit: false },
                    ]
                } else if event.up_type == 4 {
                    &&& after == idle
                    &&& out == seq![
                        Effect::Deliver { turn, input: Input::End, must_fit: false },
                    ]
                } else {
                    after == state && out.len() == 0
                },
            }
        }),
{
}

/// What the front end is told about a turn. Stopping the capture is one datagram.
/// Ending a dialogue is one: it is not to be reopened, it is not to go on, the wake
/// word is on again, and how many turns and dialogues there were. Going on is two:
/// first that speech is expected with the wake word off, then the same with the
/// dialogue to go on and the wake word off. All are in the dialogue of the turn.
pub proof fn law_commands_are_told(state: Service, continue_dialog: bool)
    requires
        short_id(state.dialog_id),
    ensures
        ({
            let stop = command_frames(state, CommandKind::StopCapture);
            let finish = command_frames(state, CommandKind::Finish { continue_dialog });
            let last = finish.last();
            let on = if continue_dialog {
                Some(1u64)
            } else {
                Some(0u64)
            };
            let off = if continue_dialog {
                Some(0u64)
            } else {
                Some(1u64)
            };
            &&& stop.len() == 1 && says(stop[0], 2, state.dialog_id)
            &&& finish.len() == if continue_dialog {
                2
            } else {
                1nat
            }
            &&& continue_dialog ==> says(finish[0], 3, state.dialog_id) && said_under(
                finish[0],
                4,
                2,
            ) == Some(0u64)
            &&& says(last, 5, state.dialog_id)
            &&& said_under(last, 6, 1) == Some(0u64)
            &&& said_under(last, 6, 2) == on
            &&& said_under(last, 6, 3) == on
            &&& said_under(last, 6, 4) == off
            &&& said_under(last, 6, 5) == Some(state.chat_count)
            &&& said_under(last, 6, 6) == Some(state.dialog_count)
        }),
{
    let body = finish_body(continue_dialog, state.chat_count, state.dialog_count);
    let expect = seq![WireField::Varint { number: 2, value: 0 }];
    lemma_said(2, state.dialog_id, None);
    lemma_said_under(5, state.dialog_id, 6, body);
    lemma_finish_body(continue_dialog, state.chat_count, state.dialog_count);
    lemma_said_under(3, state.dialog_id, 4, expect);
    wire::law_first_fields_are_found(expect, 2, 0);
    wire::lemma_fields_part_one(expect[0]);
    assert(expect =~= seq![expect[0]]);
}

proof fn lemma_finish_body(continue_dialog: bool, chat_count: u64, dialog_count: u64)
    ensures
        ({
            let body = finish_body(continue_dialog, chat_count, dialog_count);
            &&& wire::first_varint(body, 1) == Some(0u64)
            &&& wire::first_varint(body, 2) == Some(wire::bit(continue_dialog))
            &&& wire::first_varint(body, 3) == Some(wire::bit(continue_dialog))
            &&& wire::first_varint(body, 4) == Some(wire::bit(!continue_dialog))
            &&& wire::first_varint(body, 5) == Some(chat_count)
            &&& wire::first_varint(body, 6) == Some(dialog_count)
        }),
{
    let body = finish_body(continue_dialog, chat_count, dialog_count);
    wire::law_first_fields_are_found(body, 1, 0);
    wire::law_first_fields_are_found(body, 2, 1);
    wire::law_first_fields_are_found(body, 3, 2);
    wire::law_first_fields_are_found(body, 4, 3);
    wire::law_first_fields_are_found(body, 5, 4);
    wire::law_first_fields_are_found(body, 6, 5);
}

/// What is read back of a datagram that holds a short message of integers.
pub proof fn lemma_said_under(
    down_type: u64,
    dialog_id: Option<Seq<char>>,
    holder: u64,
    fields: Seq<WireField>,
)
    requires
        short_id(dialog_id),
        2 < holder < 1000,
        fields.len() <= 6,
        forall|i: int|
            0 <= i < fields.len() ==> (#[trigger] fields[i]) is Varint && 0
                < fields[i]->Varint_number < 1000,
    ensures
        ({
            let frame = downward_frame(
                down_type,
                dialog_id,
                Some((holder, wire::fields_part(fields))),
            );
            &&& says(frame, down_type, dialog_id)
            &&& forall|number: u64|
                #[trigger] said_under(frame, holder, number) == wire::first_varint(fields, number)
        }),
{
    lemma_held(fields);
    lemma_said(down_type, dialog_id, Some((holder, wire::fields_part(fields))));
}

/// Who may be commanded: a command is taken exactly where a front end has registered
/// and the turn is the last one.
pub proof fn law_only_the_last_turn_is_commanded(state: Service, turn_id: u64)
    ensures
        command_refusal(state, turn_id) is None <==> state.peer is Some && state.last_turn_id
            == Some(turn_id),
        state.peer is None ==> command_refusal(state, turn_id) == Some(
            "mipns has not registered with speech.usock"@,
        ),
{
}

/// What a turn was told is what it says when it is read: the vendor and the codec of
/// a registration, the modes of a stream that opens, and the kind and the data of a
/// packet.
pub proof fn law_messages_are_understood(
    vendor: Seq<char>,
    codec: Seq<char>,
    a: u64,
    b: u64,
    data: Seq<u8>,
)
    requires
        vstd::utf8::encode_utf8(vendor).len() <= 0x1000_0000,
        vstd::utf8::encode_utf8(codec).len() <= 0x1000_0000,
        data.len() <= 0x1000_0000,
    ensures
        ({
            let under = |up_type: u64, number: u64, body: Seq<WireField>|
                upward_frame(
                    seq![
                        WireField::Varint { number: 1, value: up_type },
                        WireField::Bytes { number, value: wire::fields_part(body) },
                    ],
                );
            let registration = under(
                0,
                2,
                seq![
                    WireField::Bytes { number: 1, value: vstd::utf8::encode_utf8(vendor) },
                    WireField::Bytes { number: 2, value: vstd::utf8::encode_utf8(codec) },
                ],
            );
            let opening = under(
                1,
                3,
                seq![
                    WireField::Varint { number: 1, value: a },
                    WireField::Varint { number: 2, value: b },
                ],
            );
            let packet = under(
                3,
                4,
                seq![
                    WireField::Varint { number: 1, value: a },
                    WireField::Bytes { number: 2, value: data },
                ],
            );
            let empty = UpMessage {
                up_type: 0,
                speech_vendor: None,
                speech_codec: None,
                activate_mode: None,
                interact_mode: None,
                transmit_type: None,
                data: Seq::empty(),
            };
            &&& upward_message(registration, Strictness::Strict) == Ok::<
                Option<UpMessage>,
                DecodeError,
            >(
                Some(
                    UpMessage {
                        speech_vendor: Some(vendor),
                        speech_codec: Some(codec),
                        ..empty
                    },
                ),
            )
            &&& upward_message(opening, Strictness::Strict) == Ok::<
                Option<UpMessage>,
                DecodeError,
            >(
                Some(
                    UpMessage {
                        up_type: 1,
                        activate_mode: Some(a),
                        interact_mode: Some(b),
                        ..empty
                    },
                ),
            )
            &&& upward_message(packet, Strictness::Strict) == Ok::<Option<UpMessage>, DecodeError>(
                Some(UpMessage { up_type: 3, transmit_type: Some(a), data, ..empty }),
            )
        }),
{
    vstd::utf8::encode_utf8_valid_utf8(vendor);
    vstd::utf8::encode_utf8_decode_utf8(vendor);
    vstd::utf8::encode_utf8_valid_utf8(codec);
    vstd::utf8::encode_utf8_decode_utf8(codec);
    let one = WireField::Bytes { number: 1, value: vstd::utf8::encode_utf8(vendor) };
    let two = WireField::Bytes { number: 2, value: vstd::utf8::encode_utf8(codec) };
    lemma_two_fields(0, 2, one, two);
    wire::law_first_fields_are_found(seq![one, two], 1, 0);
    wire::law_first_fields_are_found(seq![one, two], 2, 1);
    let three = WireField::Varint { number: 1, value: a };
    let four = WireField::Varint { number: 2, value: b };
    lemma_two_fields(1, 3, three, four);
    wire::law_first_fields_are_found(seq![three, four], 1, 0);
    wire::law_first_fields_are_found(seq![three, four], 2, 1);
    let five = WireField::Bytes { number: 2, value: data };
    lemma_two_fields(3, 4, three, five);
    wire::law_first_fields_are_found(seq![three, five], 1, 0);
    wire::law_first_fields_are_found(seq![three, five], 2, 1);
}

proof fn lemma_two_fields(up_type: u64, number: u64, one: WireField, two: WireField)
    requires
        body_field(up_type) == Some(number),
        one is Varint || one is Bytes,
        two is Varint || two is Bytes,
        one is Varint ==> 0 < one->Varint_number < 1000,
        two is Varint ==> 0 < two->Varint_number < 1000,
        one is Bytes ==> 0 < one->Bytes_number < 1000 && one->Bytes_value.len() <= 0x1000_0000,
        two is Bytes ==> 0 < two->Bytes_number < 1000 && two->Bytes_value.len() <= 0x1000_0000,
    ensures
        upward_message(
            upward_frame(
                seq![
                    WireField::Varint { number: 1, value: up_type },
                    WireField::Bytes { number, value: wire::fields_part(seq![one, two]) },
                ],
            ),
            Strictness::Strict,
        ) == Ok::<Option<UpMessage>, DecodeError>(Some(message_with(up_type, seq![one, two]))),
{
    let body = seq![one, two];
    lemma_field_size(one);
    lemma_field_size(two);
    wire::lemma_fields_part_one(one);
    wire::lemma_fields_part_push(seq![one], two);
    assert(seq![one].push(two) =~= body);
    let first = WireField::Varint { number: 1, value: up_type };
    let second = WireField::Bytes { number, value: wire::fields_part(body) };
    lemma_field_size(first);
    lemma_field_size(second);
    wire::lemma_fields_part_one(first);
    wire::lemma_fields_part_push(seq![first], second);
    assert(seq![first].push(second) =~= seq![first, second]);
    law_upward_roundtrip(up_type, body, Strictness::Strict);
}

/// Whether two byte strings are the same.
pub(crate) fn same_bytes(a: &[u8], b: &[u8]) -> (r: bool)
    ensures
        r == (a@ == b@),
{
    if a.len() != b.len() {
        return false;
    }
    let mut i: usize = 0;
    while i < a.len()
        invariant
            i <= a@.len() == b@.len(),
            forall|j: int| 0 <= j < i ==> a@[j] == b@[j],
        decreases a@.len() - i,
    {
        if a[i] != b[i] {
            return false;
        }
        i = i + 1;
    }
    assert(a@ =~= b@);
    true
}

} // verus!
