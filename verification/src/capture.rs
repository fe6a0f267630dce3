//! Recording one utterance of a turn: what each timer, packet and recognition
//! event leads to.
use vstd::prelude::*;
use crate::asr::{AsrNotice, RealtimeAsrEvent};
use crate::faults::{plain, Fault, FaultModel};
use crate::speech::{Input, SpeechInput};
use crate::vad::{Heard, SpeechEvent};

verus! {

/// The shortest time that a recording waits for speech, in nanoseconds.
pub const MIN_IDLE_NS: u64 = 1_000_000_000;

/// How long a recording waits for speech: the time asked for, at least a second.
pub fn idle_timeout_ns(asked_ns: u64) -> (r: u64)
    ensures
        r == if asked_ns < MIN_IDLE_NS {
            MIN_IDLE_NS
        } else {
            asked_ns
        },
{
    if asked_ns < MIN_IDLE_NS {
        MIN_IDLE_NS
    } else {
        asked_ns
    }
}

/// Something for a recording to do.
#[derive(Debug)]
pub enum CaptureAction {
    /// Report how loud the silence was.
    ReportNoise,
    /// Ask the front end to stop. Where `must_succeed` holds, a failure ends the
    /// recording with its error.
    StopCapture { must_succeed: bool },
    /// Tell the owner that speech has started.
    NotifyStart,
    /// Tell the owner that speech has stopped.
    NotifyStop,
    /// Tell the owner that what was heard was no speech.
    NotifyRejected,
    /// Hand audio on.
    Audio(Vec<u8>),
    /// Wait for speech from now on again.
    ResetIdle,
    /// Let the recording run no longer than the longest utterance, from now on.
    StartMax,
    /// Wait for the transcript from now on.
    StartTranscript,
    /// Tell the recogniser that the audio is complete.
    Commit,
    /// The recording is over, with this audio.
    FinishAudio(Vec<u8>),
    /// The recording is over, with this transcript.
    FinishText(String),
    /// The recording is over, with this error.
    Fail(Fault),
}

/// Something for a recording to do, as a mathematical value.
pub enum Act {
    ReportNoise,
    StopCapture { must_succeed: bool },
    NotifyStart,
    NotifyStop,
    NotifyRejected,
    Audio(Seq<u8>),
    ResetIdle,
    StartMax,
    StartTranscript,
    Commit,
    FinishAudio(Seq<u8>),
    FinishText(Seq<char>),
    Fail(FaultModel),
}

impl View for CaptureAction {
    type V = Act;

    open spec fn view(&self) -> Act {
        match self {
            CaptureAction::ReportNoise => Act::ReportNoise,
            CaptureAction::StopCapture { must_succeed } => Act::StopCapture {
                must_succeed: *must_succeed,
            },
            CaptureAction::NotifyStart => Act::NotifyStart,
            CaptureAction::NotifyStop => Act::NotifyStop,
            CaptureAction::NotifyRejected => Act::NotifyRejected,
            CaptureAction::Audio(pcm) => Act::Audio(pcm@),
            CaptureAction::ResetIdle => Act::ResetIdle,
            CaptureAction::StartMax => Act::StartMax,
            CaptureAction::StartTranscript => Act::StartTranscript,
            CaptureAction::Commit => Act::Commit,
            CaptureAction::FinishAudio(pcm) => Act::FinishAudio(pcm@),
            CaptureAction::FinishText(text) => Act::FinishText(text@),
            CaptureAction::Fail(message) => Act::Fail(message@),
        }
    }
}

/// A list of things to do as mathematical values.
pub open spec fn acts(actions: Seq<CaptureAction>) -> Seq<Act> {
    actions.map_values(|a: CaptureAction| a@)
}

/// Whether a thing to do ends the recording.
pub open spec fn is_final(act: Act) -> bool {
    act is FinishAudio || act is FinishText || act is Fail
}

/// A packet for a turn, or that the service is gone.
pub open spec fn opt_input(input: Option<SpeechInput>) -> Option<Input> {
    match input {
        Some(input) => Some(input@),
        None => None,
    }
}

// ------------------------------------------------------- energy end-pointing

/// A recording whose end is found by the energy of the signal.
#[derive(Debug, Clone, Copy, PartialEq, Eq, Structural)]
pub struct EnergyCapture {
    /// Whether audio is handed on while it is recorded.
    pub streaming: bool,
    pub speech_started: bool,
}

/// What a recording does with something that the collector hears.
pub open spec fn heard_step(c: EnergyCapture, event: Heard) -> (EnergyCapture, Seq<Act>) {
    match event {
        Heard::Start(prefix) => (
            EnergyCapture { speech_started: true, ..c },
            if c.streaming {
                seq![Act::NotifyStart, Act::Audio(prefix)]
            } else {
                seq![Act::NotifyStart]
            },
        ),
        Heard::Chunk(chunk) => (
            c,
            if c.streaming {
                seq![Act::Audio(chunk)]
            } else {
                Seq::empty()
            },
        ),
        Heard::Rejected => (
            EnergyCapture { speech_started: false, ..c },
            if c.streaming {
                seq![Act::NotifyRejected, Act::ResetIdle]
            } else {
                seq![Act::ResetIdle]
            },
        ),
        Heard::Utterance(pcm) => (
            c,
            seq![Act::StopCapture { must_succeed: true }, Act::FinishAudio(pcm)],
        ),
    }
}

/// What a recording does when it has waited for speech long enough.
pub open spec fn energy_idle_step(c: EnergyCapture) -> Seq<Act> {
    if c.speech_started {
        Seq::empty()
    } else {
        seq![
            Act::ReportNoise,
            Act::StopCapture { must_succeed: false },
            Act::Fail(plain("timed out waiting for user speech"@)),
        ]
    }
}

/// What a recording does when its turn ends under it; audio goes to the collector
/// instead.
pub open spec fn energy_input_step(input: Option<Input>) -> Seq<Act> {
    match input {
        Some(Input::Pcm(_)) => Seq::empty(),
        Some(Input::End) => seq![
            Act::Fail(plain("mipns ended the stream before an utterance was captured"@)),
        ],
        Some(Input::Cancelled) => seq![Act::Fail(plain("mipns cancelled the speech stream"@))],
        None => seq![Act::Fail(plain("speech.usock service stopped during capture"@))],
    }
}

impl EnergyCapture {
    /// A recording that has heard nothing.
    pub fn new(streaming: bool) -> (r: Self)
        ensures
            r == (EnergyCapture { streaming, speech_started: false }),
    {
        EnergyCapture { streaming, speech_started: false }
    }

    /// Whether the wait for speech can time out now.
    pub fn idle_armed(&self) -> (r: bool)
        ensures
            r == !self.speech_started,
    {
        !self.speech_started
    }

    /// The wait for speech is over.
    pub fn idle_elapsed(&self) -> (r: Vec<CaptureAction>)
        ensures
            acts(r@) == energy_idle_step(*self),
    {
        let mut out: Vec<CaptureAction> = Vec::new();
        if !self.speech_started {
            out.push(CaptureAction::ReportNoise);
            out.push(CaptureAction::StopCapture { must_succeed: false });
            out.push(CaptureAction::Fail(Fault::new("timed out waiting for user speech")));
        }
        assert(acts(out@) =~= energy_idle_step(*self));
        out
    }

    /// The turn hands over a packet. Audio is for the collector.
    pub fn input(&self, input: &Option<SpeechInput>) -> (r: Vec<CaptureAction>)
        ensures
            acts(r@) == energy_input_step(opt_input(*input)),
    {
        let mut out: Vec<CaptureAction> = Vec::new();
        match input {
            Some(SpeechInput::Pcm(_)) => {},
            Some(SpeechInput::End) => {
                out.push(
                    CaptureAction::Fail(
                        Fault::new("mipns ended the stream before an utterance was captured"),
                    ),
                );
            },
            Some(SpeechInput::Cancelled) => {
                out.push(CaptureAction::Fail(Fault::new("mipns cancelled the speech stream")));
            },
            None => {
                out.push(
                    CaptureAction::Fail(Fault::new("speech.usock service stopped during capture")),
                );
            },
        }
        assert(acts(out@) =~= energy_input_step(opt_input(*input)));
        out
    }

    /// The collector hears something.
    pub fn heard(&mut self, event: SpeechEvent) -> (r: Vec<CaptureAction>)
        ensures
            (*final(self), acts(r@)) == heard_step(*old(self), event@),
    {
        let ghost expected = heard_step(*self, event@);
        let mut out: Vec<CaptureAction> = Vec::new();
        match event {
            SpeechEvent::SpeechStart(prefix) => {
                self.speech_started = true;
                out.push(CaptureAction::NotifyStart);
                if self.streaming {
                    out.push(CaptureAction::Audio(prefix));
                }
            },
            SpeechEvent::SpeechChunk(chunk) => {
                if self.streaming {
                    out.push(CaptureAction::Audio(chunk));
                }
            },
            SpeechEvent::SpeechRejected => {
                self.speech_started = false;
                if self.streaming {
                    out.push(CaptureAction::NotifyRejected);
                }
                out.push(CaptureAction::ResetIdle);
            },
            SpeechEvent::Utterance(pcm) => {
                out.push(CaptureAction::StopCapture { must_succeed: true });
                out.push(CaptureAction::FinishAudio(pcm));
            },
        }
        assert(acts(out@) =~= expected.1);
        out
    }
}

// ------------------------------------------------------- server end-pointing

/// A recording whose end is found by the recogniser. Local timers only run
/// before speech, and as a last resort.
#[derive(Debug, Clone, Copy, PartialEq, Eq, Structural)]
pub struct ServerCapture {
    pub speech_started: bool,
    pub input_closed: bool,
}

/// What can happen to a recording whose end is found by the recogniser.
#[derive(Debug)]
pub enum ServerEvent {
    /// It has waited for speech long enough.
    IdleElapsed,
    /// It has run as long as the longest utterance.
    MaxElapsed,
    /// It has waited for the transcript long enough.
    TranscriptElapsed,
    /// The recogniser says something.
    Asr(RealtimeAsrEvent),
    /// The recogniser has failed.
    AsrFailed(Fault),
    /// The turn hands over a packet, or is gone.
    Input(Option<SpeechInput>),
}

/// What can happen to such a recording, as a mathematical value.
pub enum ServerHappening {
    IdleElapsed,
    MaxElapsed,
    TranscriptElapsed,
    Asr(AsrNotice),
    AsrFailed(FaultModel),
    Input(Option<Input>),
}

impl View for ServerEvent {
    type V = ServerHappening;

    open spec fn view(&self) -> ServerHappening {
        match self {
            ServerEvent::IdleElapsed => ServerHappening::IdleElapsed,
            ServerEvent::MaxElapsed => ServerHappening::MaxElapsed,
            ServerEvent::TranscriptElapsed => ServerHappening::TranscriptElapsed,
            ServerEvent::Asr(event) => ServerHappening::Asr(event@),
            ServerEvent::AsrFailed(message) => ServerHappening::AsrFailed(message@),
            ServerEvent::Input(input) => ServerHappening::Input(opt_input(*input)),
        }
    }
}

/// Whether a recording waits for this kind of event now. The wait for speech ends
/// with speech, the longest utterance counts between the start of speech and the
/// end of input, and packets are read until the input is closed.
pub open spec fn awaits(c: ServerCapture, event: ServerHappening) -> bool {
    match event {
        ServerHappening::IdleElapsed => !c.speech_started,
        ServerHappening::MaxElapsed => c.speech_started && !c.input_closed,
        ServerHappening::TranscriptElapsed => c.input_closed,
        ServerHappening::Asr(_) => true,
        ServerHappening::AsrFailed(_) => true,
        ServerHappening::Input(_) => !c.input_closed,
    }
}

/// What a recording whose end is found by the recogniser does with an event that
/// it waits for.
pub open spec fn server_step(c: ServerCapture, event: ServerHappening) -> (
    ServerCapture,
    Seq<Act>,
) {
    let closed = ServerCapture { input_closed: true, ..c };
    match event {
        ServerHappening::IdleElapsed => (
            c,
            seq![
                Act::StopCapture { must_succeed: false },
                Act::Fail(plain("timed out waiting for user speech"@)),
            ],
        ),
        ServerHappening::MaxElapsed => (
            closed,
            seq![
                Act::StopCapture { must_succeed: true },
                Act::StartTranscript,
                Act::Commit,
                Act::NotifyStop,
            ],
        ),
        ServerHappening::TranscriptElapsed => (
            c,
            seq![Act::Fail(plain("timed out waiting for Realtime ASR transcript"@))],
        ),
        ServerHappening::AsrFailed(message) => (c, seq![Act::Fail(message)]),
        ServerHappening::Asr(AsrNotice::SpeechStarted(_)) => if c.speech_started {
            (c, Seq::empty())
        } else {
            (
                ServerCapture { speech_started: true, ..c },
                seq![Act::StartMax, Act::NotifyStart],
            )
        },
        ServerHappening::Asr(AsrNotice::SpeechStopped(_)) => if c.input_closed {
            (c, Seq::empty())
        } else {
            (
                closed,
                seq![
                    Act::StopCapture { must_succeed: true },
                    Act::StartTranscript,
                    Act::NotifyStop,
                ],
            )
        },
        ServerHappening::Asr(AsrNotice::Transcript(text)) => (
            c,
            if c.input_closed {
                seq![Act::FinishText(text)]
            } else {
                seq![Act::StopCapture { must_succeed: true }, Act::FinishText(text)]
            },
        ),
        ServerHappening::Input(Some(Input::Pcm(data))) => (c, seq![Act::Audio(data)]),
        ServerHappening::Input(Some(Input::End)) => if c.speech_started {
            (closed, seq![Act::StartTranscript, Act::Commit, Act::NotifyStop])
        } else {
            (
                c,
                seq![Act::Fail(plain("mipns ended the stream before server VAD detected speech"@))],
            )
        },
        ServerHappening::Input(Some(Input::Cancelled)) => (
            c,
            seq![Act::Fail(plain("mipns cancelled the speech stream"@))],
        ),
        ServerHappening::Input(None) => (
            c,
            seq![Act::Fail(plain("speech.usock service stopped during capture"@))],
        ),
    }
}

impl ServerCapture {
    /// A recording that has heard nothing.
    pub fn new() -> (r: Self)
        ensures
            r == (ServerCapture { speech_started: false, input_closed: false }),
    {
        ServerCapture { speech_started: false, input_closed: false }
    }

    /// Whether the wait for speech can time out now.
    pub fn idle_armed(&self) -> (r: bool)
        ensures
            r == awaits(*self, ServerHappening::IdleElapsed),
    {
        !self.speech_started
    }

    /// Whether the longest utterance can run out now.
    pub fn max_armed(&self) -> (r: bool)
        ensures
            r == awaits(*self, ServerHappening::MaxElapsed),
    {
        self.speech_started && !self.input_closed
    }

    /// Whether the wait for the transcript can time out now.
    pub fn transcript_armed(&self) -> (r: bool)
        ensures
            r == awaits(*self, ServerHappening::TranscriptElapsed),
    {
        self.input_closed
    }

    /// Whether packets are read now.
    pub fn input_armed(&self) -> (r: bool)
        ensures
            forall|input: Option<Input>|
                r == #[trigger] awaits(*self, ServerHappening::Input(input)),
    {
        !self.input_closed
    }

    /// Something happens; what the recording does not wait for changes nothing.
    pub fn happen(&mut self, event: ServerEvent) -> (r: Vec<CaptureAction>)
        ensures
            (*final(self), acts(r@)) == if awaits(*old(self), event@) {
                server_step(*old(self), event@)
            } else {
                (*old(self), Seq::<Act>::empty())
            },
    {
        let ghost expected = server_step(*self, event@);
        let mut out: Vec<CaptureAction> = Vec::new();
        assert(acts(out@) =~= Seq::<Act>::empty());
        match event {
            ServerEvent::IdleElapsed => {
                if self.speech_started {
                    return out;
                }
                out.push(CaptureAction::StopCapture { must_succeed: false });
                out.push(CaptureAction::Fail(Fault::new("timed out waiting for user speech")));
            },
            ServerEvent::MaxElapsed => {
                if !self.speech_started || self.input_closed {
                    return out;
                }
                out.push(CaptureAction::StopCapture { must_succeed: true });
                self.input_closed = true;
                out.push(CaptureAction::StartTranscript);
                out.push(CaptureAction::Commit);
                out.push(CaptureAction::NotifyStop);
            },
            ServerEvent::TranscriptElapsed => {
                if !self.input_closed {
                    return out;
                }
                out.push(
                    CaptureAction::Fail(Fault::new("timed out waiting for Realtime ASR transcript")),
                );
            },
            ServerEvent::AsrFailed(message) => {
                out.push(CaptureAction::Fail(message));
            },
            ServerEvent::Asr(RealtimeAsrEvent::SpeechStarted { .. }) => {
                if !self.speech_started {
                    self.speech_started = true;
                    out.push(CaptureAction::StartMax);
                    out.push(CaptureAction::NotifyStart);
                }
            },
            ServerEvent::Asr(RealtimeAsrEvent::SpeechStopped { .. }) => {
                if !self.input_closed {
                    out.push(CaptureAction::StopCapture { must_succeed: true });
                    self.input_closed = true;
                    out.push(CaptureAction::StartTranscript);
                    out.push(CaptureAction::NotifyStop);
                }
            },
            ServerEvent::Asr(RealtimeAsrEvent::Transcript(text)) => {
                if !self.input_closed {
                    out.push(CaptureAction::StopCapture { must_succeed: true });
                }
                out.push(CaptureAction::FinishText(text));
            },
            ServerEvent::Input(input) => {
                if self.input_closed {
                    return out;
                }
                match input {
                    Some(SpeechInput::Pcm(data)) => {
                        out.push(CaptureAction::Audio(data));
                    },
                    Some(SpeechInput::End) => {
                        if !self.speech_started {
                            out.push(
                                CaptureAction::Fail(
                                    Fault::new("mipns ended the stream before server VAD detected speech"),
                                ),
                            );
                        } else {
                            self.input_closed = true;
                            out.push(CaptureAction::StartTranscript);
                            out.push(CaptureAction::Commit);
                            out.push(CaptureAction::NotifyStop);
                        }
                    },
                    Some(SpeechInput::Cancelled) => {
                        out.push(
                            CaptureAction::Fail(Fault::new("mipns cancelled the speech stream")),
                        );
                    },
                    None => {
                        out.push(
                            CaptureAction::Fail(
                                Fault::new("speech.usock service stopped during capture"),
                            ),
                        );
                    },
                }
            },
        }
        assert(acts(out@) =~= expected.1);
        out
    }
}

// ----------------------------------------------------------------------- laws

/// A recording ends at most once, as the last thing that an event leads to.
pub proof fn law_recording_ends_once(c: ServerCapture, event: ServerHappening, i: int)
    requires
        0 <= i < server_step(c, event).1.len(),
        is_final(server_step(c, event).1[i]),
    ensures
        i == server_step(c, event).1.len() - 1,
{
}

/// A closed input stays closed and speech that has started stays started. The
/// owner hears of the start of speech exactly when it starts, and of its end
/// exactly when the input is closed.
pub proof fn law_server_capture_moves_forward(c: ServerCapture, event: ServerHappening)
    requires
        awaits(c, event),
    ensures
        ({
            let (after, out) = server_step(c, event);
            &&& c.speech_started ==> after.speech_started
            &&& c.input_closed ==> after.input_closed
            &&& out.contains(Act::NotifyStart) <==> !c.speech_started && after.speech_started
            &&& out.contains(Act::NotifyStop) <==> !c.input_closed && after.input_closed
        }),
{
    let (after, out) = server_step(c, event);
    if !c.speech_started && after.speech_started {
        assert(out[1] == Act::NotifyStart);
    }
    if !c.input_closed && after.input_closed {
        assert(out.last() == Act::NotifyStop);
    }
}

/// Once the input is closed no more audio is handed on.
pub proof fn law_no_audio_after_close(c: ServerCapture, event: ServerHappening, i: int)
    requires
        c.input_closed,
        awaits(c, event),
        0 <= i < server_step(c, event).1.len(),
    ensures
        !(server_step(c, event).1[i] is Audio),
{
}

/// A recording that streams hands on exactly the audio that the collector
/// streams; one that does not hands on none.
pub proof fn law_capture_streams_what_is_heard(c: EnergyCapture, event: Heard)
    ensures
        ({
            let out = heard_step(c, event).1;
            &&& !c.streaming ==> forall|i: int| 0 <= i < out.len() ==> !(#[trigger] out[i] is Audio)
            &&& c.streaming && event is Start ==> out.last() == Act::Audio(event->Start_0)
            &&& c.streaming && event is Chunk ==> out == seq![Act::Audio(event->Chunk_0)]
            &&& event is Utterance ==> out.last() == Act::FinishAudio(event->Utterance_0)
        }),
{
}

// ------------------------------------------------------- recordings as a whole

/// What a recording whose end is found by the recogniser does with events, one
/// after another; those that it does not wait for change nothing.
pub open spec fn server_run(c: ServerCapture, events: Seq<ServerHappening>) -> (
    ServerCapture,
    Seq<Act>,
)
    decreases events.len(),
{
    if events.len() == 0 {
        (c, Seq::empty())
    } else {
        let (before, done) = server_run(c, events.drop_last());
        if awaits(before, events.last()) {
            let (after, more) = server_step(before, events.last());
            (after, done + more)
        } else {
            (before, done)
        }
    }
}

proof fn lemma_server_next(c: ServerCapture, events: Seq<ServerHappening>, event: ServerHappening)
    ensures
        ({
            let (before, done) = server_run(c, events);
            server_run(c, events.push(event)) == if awaits(before, event) {
                (server_step(before, event).0, done + server_step(before, event).1)
            } else {
                (before, done)
            }
        }),
{
    assert(events.push(event).drop_last() =~= events);
}

/// A recording whose end is found by the recogniser. All audio until the input is
/// closed is handed on, in order. The recogniser's word that speech has stopped
/// closes the input; so does the longest utterance, and the end of the stream, and
/// then the recogniser is told that the audio is complete. What it then transcribes
/// is the recording.
pub proof fn law_recogniser_ends_the_recording(
    start_ms: u64,
    stop_ms: u64,
    data: Seq<u8>,
    late: Seq<u8>,
    said: Seq<char>,
)
    ensures
        ({
            let fresh = ServerCapture { speech_started: false, input_closed: false };
            let speaking = seq![
                ServerHappening::Asr(AsrNotice::SpeechStarted(start_ms)),
                ServerHappening::Input(Some(Input::Pcm(data))),
            ];
            let heard = seq![Act::StartMax, Act::NotifyStart, Act::Audio(data)];
            let done = ServerHappening::Asr(AsrNotice::Transcript(said));
            let more = ServerHappening::Input(Some(Input::Pcm(late)));
            let stopped = speaking.push(
                ServerHappening::Asr(AsrNotice::SpeechStopped(stop_ms)),
            ).push(more).push(done);
            let too_long = speaking.push(ServerHappening::MaxElapsed).push(more).push(done);
            let ended = speaking.push(ServerHappening::Input(Some(Input::End))).push(more).push(
                done,
            );
            &&& server_run(fresh, stopped).1 == heard + seq![
                Act::StopCapture { must_succeed: true },
                Act::StartTranscript,
                Act::NotifyStop,
                Act::FinishText(said),
            ]
            &&& server_run(fresh, too_long).1 == heard + seq![
                Act::StopCapture { must_succeed: true },
                Act::StartTranscript,
                Act::Commit,
                Act::NotifyStop,
                Act::FinishText(said),
            ]
            &&& server_run(fresh, ended).1 == heard + seq![
                Act::StartTranscript,
                Act::Commit,
                Act::NotifyStop,
                Act::FinishText(said),
            ]
            &&& server_run(fresh, speaking.push(done)).1 == heard + seq![
                Act::StopCapture { must_succeed: true },
                Act::FinishText(said),
            ]
        }),
{
    let fresh = ServerCapture { speech_started: false, input_closed: false };
    let none = Seq::<ServerHappening>::empty();
    let a = ServerHappening::Asr(AsrNotice::SpeechStarted(start_ms));
    let b = ServerHappening::Input(Some(Input::Pcm(data)));
    let more = ServerHappening::Input(Some(Input::Pcm(late)));
    let done = ServerHappening::Asr(AsrNotice::Transcript(said));
    let stop = ServerHappening::Asr(AsrNotice::SpeechStopped(stop_ms));
    let end = ServerHappening::Input(Some(Input::End));
    let heard = seq![Act::StartMax, Act::NotifyStart, Act::Audio(data)];
    lemma_server_next(fresh, none, a);
    lemma_server_next(fresh, none.push(a), b);
    let speaking = seq![a, b];
    assert(none.push(a).push(b) =~= speaking);
    assert(server_run(fresh, speaking).1 =~= heard);
    lemma_server_next(fresh, speaking, stop);
    lemma_server_next(fresh, speaking.push(stop), more);
    lemma_server_next(fresh, speaking.push(stop).push(more), done);
    assert(server_run(fresh, speaking.push(stop).push(more).push(done)).1 =~= heard + seq![
        Act::StopCapture { must_succeed: true },
        Act::StartTranscript,
        Act::NotifyStop,
        Act::FinishText(said),
    ]);
    let long = ServerHappening::MaxElapsed;
    lemma_server_next(fresh, speaking, long);
    lemma_server_next(fresh, speaking.push(long), more);
    lemma_server_next(fresh, speaking.push(long).push(more), done);
    assert(server_run(fresh, speaking.push(long).push(more).push(done)).1 =~= heard + seq![
        Act::StopCapture { must_succeed: true },
        Act::StartTranscript,
        Act::Commit,
        Act::NotifyStop,
        Act::FinishText(said),
    ]);
    lemma_server_next(fresh, speaking, end);
    lemma_server_next(fresh, speaking.push(end), more);
    lemma_server_next(fresh, speaking.push(end).push(more), done);
    assert(server_run(fresh, speaking.push(end).push(more).push(done)).1 =~= heard + seq![
        Act::StartTranscript,
        Act::Commit,
        Act::NotifyStop,
        Act::FinishText(said),
    ]);
    lemma_server_next(fresh, speaking, done);
    assert(server_run(fresh, speaking.push(done)).1 =~= heard + seq![
        Act::StopCapture { must_succeed: true },
        Act::FinishText(said),
    ]);
}

/// What ends a recording with an error, and which. Nobody speaking is one while
/// nobody has spoken; no transcript is one once the input is closed; a stream that
/// ends before speech, is cancelled, or is gone is one while the input is open; and
/// an error of the recogniser always is, as it came.
pub proof fn law_recordings_fail_with_the_reason(c: ServerCapture, fault: FaultModel)
    ensures
        ({
            let does = |event: ServerHappening| server_run(c, seq![event]).1;
            let none = Seq::<Act>::empty();
            &&& does(ServerHappening::IdleElapsed) == if !c.speech_started {
                seq![
                    Act::StopCapture { must_succeed: false },
                    Act::Fail(plain("timed out waiting for user speech"@)),
                ]
            } else {
                none
            }
            &&& does(ServerHappening::TranscriptElapsed) == if c.input_closed {
                seq![Act::Fail(plain("timed out waiting for Realtime ASR transcript"@))]
            } else {
                none
            }
            &&& does(ServerHappening::AsrFailed(fault)) == seq![Act::Fail(fault)]
            &&& does(ServerHappening::Input(Some(Input::Cancelled))) == if !c.input_closed {
                seq![Act::Fail(plain("mipns cancelled the speech stream"@))]
            } else {
                none
            }
            &&& does(ServerHappening::Input(None)) == if !c.input_closed {
                seq![Act::Fail(plain("speech.usock service stopped during capture"@))]
            } else {
                none
            }
            &&& !c.input_closed && !c.speech_started ==> does(
                ServerHappening::Input(Some(Input::End)),
            ) == seq![
                Act::Fail(plain("mipns ended the stream before server VAD detected speech"@)),
            ]
            &&& !c.speech_started || c.input_closed ==> does(ServerHappening::MaxElapsed) == none
        }),
{
    lemma_server_one(c, ServerHappening::IdleElapsed);
    lemma_server_one(c, ServerHappening::TranscriptElapsed);
    lemma_server_one(c, ServerHappening::AsrFailed(fault));
    lemma_server_one(c, ServerHappening::Input(Some(Input::Cancelled)));
    lemma_server_one(c, ServerHappening::Input(None));
    lemma_server_one(c, ServerHappening::Input(Some(Input::End)));
    lemma_server_one(c, ServerHappening::MaxElapsed);
}

proof fn lemma_server_one(c: ServerCapture, event: ServerHappening)
    ensures
        server_run(c, seq![event]).1 == if awaits(c, event) {
            server_step(c, event).1
        } else {
            Seq::<Act>::empty()
        },
{
    let none = Seq::<ServerHappening>::empty();
    lemma_server_next(c, none, event);
    assert(none.push(event) =~= seq![event]);
    assert(Seq::<Act>::empty() + server_step(c, event).1 =~= server_step(c, event).1);
}

/// What a recording whose end is found by the energy of the signal does with what
/// is heard, one after another.
pub open spec fn energy_run(c: EnergyCapture, events: Seq<Heard>) -> (EnergyCapture, Seq<Act>)
    decreases events.len(),
{
    if events.len() == 0 {
        (c, Seq::empty())
    } else {
        let (before, done) = energy_run(c, events.drop_last());
        let (after, more) = heard_step(before, events.last());
        (after, done + more)
    }
}

/// A recording whose end is found by the energy of the signal. The owner hears of
/// the start; the audio is handed on where it is streamed, and only there; what was
/// rejected is told where it is streamed, and the wait for speech begins anew; the
/// utterance stops the capture and is the recording. The wait for speech can end the
/// recording exactly while no speech is heard.
pub proof fn law_energy_ends_the_recording(
    streaming: bool,
    prefix: Seq<u8>,
    chunk: Seq<u8>,
    pcm: Seq<u8>,
)
    ensures
        ({
            let fresh = EnergyCapture { streaming, speech_started: false };
            let audio = |data: Seq<u8>|
                if streaming {
                    seq![Act::Audio(data)]
                } else {
                    Seq::<Act>::empty()
                };
            let speaking = seq![Heard::Start(prefix), Heard::Chunk(chunk)];
            let heard = seq![Act::NotifyStart] + audio(prefix) + audio(chunk);
            let (during, _) = energy_run(fresh, speaking);
            let (rejected, told) = energy_run(fresh, speaking.push(Heard::Rejected));
            let idle = seq![
                Act::ReportNoise,
                Act::StopCapture { must_succeed: false },
                Act::Fail(plain("timed out waiting for user speech"@)),
            ];
            &&& energy_run(fresh, speaking.push(Heard::Utterance(pcm))).1 == heard + seq![
                Act::StopCapture { must_succeed: true },
                Act::FinishAudio(pcm),
            ]
            &&& told == heard + (if streaming {
                seq![Act::NotifyRejected]
            } else {
                Seq::<Act>::empty()
            }) + seq![Act::ResetIdle]
            &&& energy_idle_step(fresh) == idle
            &&& energy_idle_step(during) == Seq::<Act>::empty()
            &&& energy_idle_step(rejected) == idle
        }),
{
    let fresh = EnergyCapture { streaming, speech_started: false };
    let speaking = seq![Heard::Start(prefix), Heard::Chunk(chunk)];
    reveal_with_fuel(energy_run, 4);
    let ended = speaking.push(Heard::Utterance(pcm));
    let refused = speaking.push(Heard::Rejected);
    assert(ended.drop_last() =~= speaking);
    assert(refused.drop_last() =~= speaking);
    assert(speaking.drop_last() =~= seq![Heard::Start(prefix)]);
    assert(seq![Heard::Start(prefix)].drop_last() =~= Seq::empty());
    let audio = |data: Seq<u8>|
        if streaming {
            seq![Act::Audio(data)]
        } else {
            Seq::<Act>::empty()
        };
    let heard = seq![Act::NotifyStart] + audio(prefix) + audio(chunk);
    assert(energy_run(fresh, speaking).1 =~= heard);
    assert(energy_run(fresh, ended).1 =~= heard + seq![
        Act::StopCapture { must_succeed: true },
        Act::FinishAudio(pcm),
    ]);
    assert(energy_run(fresh, refused).1 =~= heard + (if streaming {
        seq![Act::NotifyRejected]
    } else {
        Seq::<Act>::empty()
    }) + seq![Act::ResetIdle]);
}

/// A turn that ends under a recording is an error of its own kind; audio is not one.
pub proof fn law_turns_that_end_fail_the_recording(data: Seq<u8>)
    ensures
        energy_input_step(Some(Input::Pcm(data))).len() == 0,
        energy_input_step(Some(Input::End)) == seq![
            Act::Fail(plain("mipns ended the stream before an utterance was captured"@)),
        ],
        energy_input_step(Some(Input::Cancelled)) == seq![
            Act::Fail(plain("mipns cancelled the speech stream"@)),
        ],
        energy_input_step(None) == seq![
            Act::Fail(plain("speech.usock service stopped during capture"@)),
        ],
{
}

} // verus!
