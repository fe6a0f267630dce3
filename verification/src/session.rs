//! A conversation: from the wake word through recording, recognition, the reply
//! and its follow-ups, to its end.
use vstd::prelude::*;
use crate::agent::{AgentReply, AgentTurnResult};
use crate::asr::RealtimeAsrSession;
use crate::config::DeviceConfig;
use crate::faults::{caused, plain, Fault, FaultModel};
use crate::json;
use crate::json::{Json, JsonTree, NumberTree};
use crate::shell;
use crate::shell::CommandResult;
use crate::speech::ActivationMode;
use crate::text;

verus! {

/// What is said when speech recognition fails.
pub const ASR_SERVICE_ERROR_PROMPT: &'static str = "抱歉，语音识别服务遇到问题，请稍后重试";

/// What is said when the language model fails.
pub const LLM_SERVICE_ERROR_PROMPT: &'static str = "抱歉，大模型服务遇到问题，请稍后重试";

/// The command that opens the microphone for a follow-up.
pub const FOLLOWUP_COMMAND: &'static str =
    "ubus -t 1 -S call pnshelper event_notify '{\"src\":1,\"event\":0}'";

/// How long the front end is given to settle before a follow-up, in milliseconds.
pub const FOLLOWUP_SETTLE_MS: u64 = 100;

// ----------------------------------------------------------------------- LEDs

/// What an LED stands for.
#[derive(Debug, Clone, Copy, PartialEq, Eq, Structural)]
pub enum Led {
    Listening,
    UserSpeaking,
    Thinking,
    Speaking,
}

/// The number of an LED.
pub fn led_number(config: &DeviceConfig, led: Led) -> (r: u8)
    ensures
        r == match led {
            Led::Listening => config.led_listening,
            Led::UserSpeaking => config.led_user_speaking,
            Led::Thinking => config.led_thinking,
            Led::Speaking => config.led_speaking,
        },
{
    match led {
        Led::Listening => config.led_listening,
        Led::UserSpeaking => config.led_user_speaking,
        Led::Thinking => config.led_thinking,
        Led::Speaking => config.led_speaking,
    }
}

// ------------------------------------------------------------------- sessions

/// How an utterance is recorded.
#[derive(Debug, Clone, Copy, PartialEq, Eq, Structural)]
pub enum RecordMode {
    /// Its end is found by the service that it is streamed to.
    ServerVad,
    /// Its end is found here while it is streamed.
    Streaming,
    /// It is recorded first and sent afterwards.
    Whole,
}

/// How an utterance is recorded: the recogniser finds its end where the stream
/// says so; without that, and without a stream, the energy of the signal does.
pub fn record_mode(stream: Option<&RealtimeAsrSession>) -> (r: RecordMode)
    ensures
        r == match stream {
            None => RecordMode::Whole,
            Some(stream) => if stream.server_vad_enabled {
                RecordMode::ServerVad
            } else {
                RecordMode::Streaming
            },
        },
{
    match stream {
        None => RecordMode::Whole,
        Some(stream) => {
            if stream.server_vad_enabled() {
                RecordMode::ServerVad
            } else {
                RecordMode::Streaming
            }
        },
    }
}

/// What a session waits for.
#[derive(Debug, Clone, Copy, PartialEq, Eq, Structural)]
pub enum Phase {
    /// The recogniser's stream to open.
    Opening,
    /// The recording to end.
    Recording(RecordMode),
    /// The transcript.
    Transcribing,
    /// The reply.
    Thinking,
    /// The reply to be spoken; whether the conversation ends with it.
    Speaking { should_end: bool },
    /// The front end to be told that the dialogue goes on.
    Continuing,
    /// The microphone to be opened for a follow-up.
    Requesting,
    /// The follow-up.
    AwaitingFollowup,
    /// The front end to be told that the dialogue is over, and why it is.
    Finishing(EndReason),
    /// Nothing: the session is over.
    Over,
}

/// Why a conversation ends.
#[derive(Debug, Clone, Copy, PartialEq, Eq, Structural)]
pub enum EndReason {
    IdleTimeout,
    EmptyResult,
    AgentEnded,
    FrontendStopped,
}

/// The words for the end of a conversation.
pub open spec fn end_reason_text(reason: EndReason) -> Seq<char> {
    match reason {
        EndReason::IdleTimeout => "session idle timeout"@,
        EndReason::EmptyResult => "empty ASR result"@,
        EndReason::AgentEnded => "agent ended conversation"@,
        EndReason::FrontendStopped => "speech frontend stopped"@,
    }
}

fn end_reason(reason: EndReason) -> (r: String)
    ensures
        r@ == end_reason_text(reason),
{
    match reason {
        EndReason::IdleTimeout => "session idle timeout".to_owned(),
        EndReason::EmptyResult => "empty ASR result".to_owned(),
        EndReason::AgentEnded => "agent ended conversation".to_owned(),
        EndReason::FrontendStopped => "speech frontend stopped".to_owned(),
    }
}

/// A session: the turn that it is at, and what it waits for.
#[derive(Debug, Clone, Copy, PartialEq, Eq, Structural)]
pub struct Session {
    pub turn_id: u64,
    pub phase: Phase,
}

/// What a session waits for, when it comes.
#[derive(Debug)]
pub enum SessionEvent {
    /// The stream is open; a recogniser for whole recordings needs none.
    StreamOpened(RecordMode),
    StreamFailed(Fault),
    /// The recording has ended; the service has transcribed it already.
    RecordedText(String),
    /// The recording has ended with this audio.
    RecordedAudio(Vec<u8>),
    RecordFailed(Fault),
    Transcribed(String),
    TranscribeFailed(Fault),
    Replied(AgentTurnResult),
    ReplyFailed(Fault),
    /// What was to be done is done.
    Done,
    /// What was to be done has failed.
    Failed(Fault),
    /// The front end has opened a follow-up turn.
    Followup(u64),
    FollowupClosed,
    FollowupTimedOut,
}

/// What a session waits for, as a mathematical value.
pub enum Happening {
    StreamOpened(RecordMode),
    StreamFailed(FaultModel),
    RecordedText(Seq<char>),
    RecordedAudio(Seq<u8>),
    RecordFailed(FaultModel),
    Transcribed(Seq<char>),
    TranscribeFailed(FaultModel),
    Replied(AgentReply),
    ReplyFailed(FaultModel),
    Done,
    Failed(FaultModel),
    Followup(u64),
    FollowupClosed,
    FollowupTimedOut,
}

impl View for SessionEvent {
    type V = Happening;

    open spec fn view(&self) -> Happening {
        match self {
            SessionEvent::StreamOpened(mode) => Happening::StreamOpened(*mode),
            SessionEvent::StreamFailed(e) => Happening::StreamFailed(e@),
            SessionEvent::RecordedText(text) => Happening::RecordedText(text@),
            SessionEvent::RecordedAudio(pcm) => Happening::RecordedAudio(pcm@),
            SessionEvent::RecordFailed(e) => Happening::RecordFailed(e@),
            SessionEvent::Transcribed(text) => Happening::Transcribed(text@),
            SessionEvent::TranscribeFailed(e) => Happening::TranscribeFailed(e@),
            SessionEvent::Replied(reply) => Happening::Replied(reply@),
            SessionEvent::ReplyFailed(e) => Happening::ReplyFailed(e@),
            SessionEvent::Done => Happening::Done,
            SessionEvent::Failed(e) => Happening::Failed(e@),
            SessionEvent::Followup(turn) => Happening::Followup(*turn),
            SessionEvent::FollowupClosed => Happening::FollowupClosed,
            SessionEvent::FollowupTimedOut => Happening::FollowupTimedOut,
        }
    }
}

/// Something for a session to do. The last of a list is what the next event
/// answers, unless it ends the session.
#[derive(Debug)]
pub enum SessionAction {
    ShowLed(Led),
    ShutLed(Led),
    /// Speak; that it fails changes nothing.
    SpeakAnyway(String),
    /// Close the recogniser's stream.
    CloseStream,
    /// Forget the conversation, for a reason.
    ResetAgent(String),
    /// Open the recogniser's stream, where it has one.
    OpenStream,
    /// Record an utterance.
    Record(RecordMode),
    /// Let the stream finish its transcript.
    CommitStream,
    /// Transcribe a whole recording.
    Transcribe(Vec<u8>),
    /// Ask the agent for a reply.
    RunAgent(String),
    /// Speak.
    Speak(String),
    /// Tell the front end that the dialogue is over.
    FinishDialog(u64),
    /// Tell the front end that the dialogue goes on.
    ContinueDialog(u64),
    /// Open the microphone for a follow-up.
    RequestFollowup,
    /// Wait for the follow-up.
    AwaitFollowup,
    /// The session is over.
    End,
    /// The session is over, with an error.
    Fail(Fault),
}

/// Something for a session to do, as a mathematical value.
pub enum Task {
    ShowLed(Led),
    ShutLed(Led),
    SpeakAnyway(Seq<char>),
    CloseStream,
    ResetAgent(Seq<char>),
    OpenStream,
    Record(RecordMode),
    CommitStream,
    Transcribe(Seq<u8>),
    RunAgent(Seq<char>),
    Speak(Seq<char>),
    FinishDialog(u64),
    ContinueDialog(u64),
    RequestFollowup,
    AwaitFollowup,
    End,
    Fail(FaultModel),
}

impl View for SessionAction {
    type V = Task;

    open spec fn view(&self) -> Task {
        match self {
            SessionAction::ShowLed(led) => Task::ShowLed(*led),
            SessionAction::ShutLed(led) => Task::ShutLed(*led),
            SessionAction::SpeakAnyway(text) => Task::SpeakAnyway(text@),
            SessionAction::CloseStream => Task::CloseStream,
            SessionAction::ResetAgent(reason) => Task::ResetAgent(reason@),
            SessionAction::OpenStream => Task::OpenStream,
            SessionAction::Record(mode) => Task::Record(*mode),
            SessionAction::CommitStream => Task::CommitStream,
            SessionAction::Transcribe(pcm) => Task::Transcribe(pcm@),
            SessionAction::RunAgent(text) => Task::RunAgent(text@),
            SessionAction::Speak(text) => Task::Speak(text@),
            SessionAction::FinishDialog(turn) => Task::FinishDialog(*turn),
            SessionAction::ContinueDialog(turn) => Task::ContinueDialog(*turn),
            SessionAction::RequestFollowup => Task::RequestFollowup,
            SessionAction::AwaitFollowup => Task::AwaitFollowup,
            SessionAction::End => Task::End,
            SessionAction::Fail(fault) => Task::Fail(fault@),
        }
    }
}

/// A list of things to do as mathematical values.
pub open spec fn tasks(actions: Seq<SessionAction>) -> Seq<Task> {
    actions.map_values(|a: SessionAction| a@)
}

/// Whether a recording failed only because nobody spoke.
pub open spec fn capture_timed_out(message: Seq<char>) -> bool {
    text::contains_text(message, "timed out waiting for user speech"@)
}

/// Whether a recording failed only because nobody spoke.
pub fn is_capture_timeout(message: &str) -> (r: bool)
    ensures
        r == capture_timed_out(message@),
{
    text::contains(message, "timed out waiting for user speech")
}

/// Apologising for a service that failed.
pub open spec fn apology(prompt: Seq<char>) -> Seq<Task> {
    seq![Task::ShutLed(Led::Thinking), Task::ShowLed(Led::Speaking), Task::SpeakAnyway(prompt)]
}

/// The end of a session in an error.
pub open spec fn failing(session: Session, before: Seq<Task>, fault: FaultModel) -> (
    Session,
    Seq<Task>,
) {
    (Session { phase: Phase::Over, ..session }, before.push(Task::Fail(fault)))
}

/// The end of a session because recognition failed.
pub open spec fn asr_failing(session: Session, before: Seq<Task>, fault: FaultModel) -> (
    Session,
    Seq<Task>,
) {
    failing(
        session,
        before + apology(ASR_SERVICE_ERROR_PROMPT@),
        caused("ASR failed after retries"@, fault),
    )
}

/// Telling the front end that the dialogue is over.
pub open spec fn finishing(session: Session, before: Seq<Task>, reason: EndReason) -> (
    Session,
    Seq<Task>,
) {
    (
        Session { phase: Phase::Finishing(reason), ..session },
        before.push(Task::FinishDialog(session.turn_id)),
    )
}

/// A turn that begins.
pub open spec fn beginning(turn_id: u64) -> (Session, Seq<Task>) {
    (
        Session { turn_id, phase: Phase::Opening },
        seq![Task::ShowLed(Led::Listening), Task::OpenStream],
    )
}

/// What the user said, without white space around it: nothing ends the session.
pub open spec fn heard(session: Session, said: Seq<char>) -> (Session, Seq<Task>) {
    let command = text::trimmed(said);
    if command.len() == 0 {
        finishing(session, Seq::empty(), EndReason::EmptyResult)
    } else {
        (Session { phase: Phase::Thinking, ..session }, seq![Task::RunAgent(command)])
    }
}

/// After the reply was spoken.
pub open spec fn answered(session: Session, before: Seq<Task>, should_end: bool) -> (
    Session,
    Seq<Task>,
) {
    if should_end {
        finishing(session, before, EndReason::AgentEnded)
    } else {
        (
            Session { phase: Phase::Continuing, ..session },
            before.push(Task::ContinueDialog(session.turn_id)),
        )
    }
}

/// A recording that failed.
pub open spec fn unrecorded(session: Session, mode: RecordMode, fault: FaultModel) -> (
    Session,
    Seq<Task>,
) {
    let closing = if mode == RecordMode::Whole {
        Seq::empty()
    } else {
        seq![Task::CloseStream]
    };
    if capture_timed_out(fault.message) {
        finishing(session, closing, EndReason::IdleTimeout)
    } else if mode == RecordMode::ServerVad {
        asr_failing(session, closing, fault)
    } else {
        failing(session, closing, fault)
    }
}

/// Whether an event is one that a session in a phase can get.
pub open spec fn expected(phase: Phase, event: Happening) -> bool {
    match phase {
        Phase::Opening => event is StreamOpened || event is StreamFailed,
        Phase::Recording(RecordMode::ServerVad) => event is RecordedText || event is RecordFailed,
        Phase::Recording(_) => event is RecordedAudio || event is RecordFailed,
        Phase::Transcribing => event is Transcribed || event is TranscribeFailed,
        Phase::Thinking => event is Replied || event is ReplyFailed,
        Phase::Speaking { .. } => event is Done || event is Failed,
        Phase::Continuing => event is Done || event is Failed,
        Phase::Requesting => event is Done || event is Failed,
        Phase::AwaitingFollowup => event is Followup || event is FollowupClosed
            || event is FollowupTimedOut,
        Phase::Finishing(_) => event is Done || event is Failed,
        Phase::Over => false,
    }
}

/// What a session does with an event that it can get.
pub open spec fn session_step(session: Session, event: Happening) -> (Session, Seq<Task>) {
    match event {
        Happening::StreamOpened(mode) => (
            Session { phase: Phase::Recording(mode), ..session },
            seq![Task::Record(mode)],
        ),
        Happening::StreamFailed(e) => asr_failing(session, Seq::empty(), e),
        Happening::RecordedText(said) => heard(session, said),
        Happening::RecordedAudio(pcm) => (
            Session { phase: Phase::Transcribing, ..session },
            seq![
                Task::ShowLed(Led::Thinking),
                if session.phase == Phase::Recording(RecordMode::Streaming) {
                    Task::CommitStream
                } else {
                    Task::Transcribe(pcm)
                },
            ],
        ),
        Happening::RecordFailed(e) => unrecorded(session, session.phase->Recording_0, e),
        Happening::Transcribed(said) => heard(session, said),
        Happening::TranscribeFailed(e) => asr_failing(session, Seq::empty(), e),
        Happening::Replied(reply) => if text::is_blank(reply.text) {
            answered(session, seq![Task::ShutLed(Led::Thinking)], reply.should_end)
        } else {
            (
                Session { phase: Phase::Speaking { should_end: reply.should_end }, ..session },
                seq![
                    Task::ShutLed(Led::Thinking),
                    Task::ShowLed(Led::Speaking),
                    Task::Speak(reply.text),
                ],
            )
        },
        Happening::ReplyFailed(e) => failing(
            session,
            apology(LLM_SERVICE_ERROR_PROMPT@),
            caused("LLM failed after retries"@, e),
        ),
        Happening::Failed(e) => failing(session, Seq::empty(), e),
        Happening::Done => match session.phase {
            Phase::Speaking { should_end } => answered(session, Seq::empty(), should_end),
            Phase::Continuing => (
                Session { phase: Phase::Requesting, ..session },
                seq![Task::RequestFollowup],
            ),
            Phase::Requesting => (
                Session { phase: Phase::AwaitingFollowup, ..session },
                seq![
                    Task::ShutLed(Led::Speaking),
                    Task::ShowLed(Led::Listening),
                    Task::AwaitFollowup,
                ],
            ),
            Phase::Finishing(reason) => (
                Session { phase: Phase::Over, ..session },
                seq![Task::ResetAgent(end_reason_text(reason)), Task::End],
            ),
            _ => (session, Seq::empty()),
        },
        Happening::Followup(turn_id) => beginning(turn_id),
        Happening::FollowupClosed => finishing(session, Seq::empty(), EndReason::FrontendStopped),
        Happening::FollowupTimedOut => finishing(session, Seq::empty(), EndReason::IdleTimeout),
    }
}

fn apologise(out: &mut Vec<SessionAction>, prompt: &str)
    ensures
        tasks(final(out)@) == tasks(old(out)@) + apology(prompt@),
{
    let ghost before = out@;
    out.push(SessionAction::ShutLed(Led::Thinking));
    out.push(SessionAction::ShowLed(Led::Speaking));
    out.push(SessionAction::SpeakAnyway(prompt.to_owned()));
    assert(tasks(out@) =~= tasks(before) + apology(prompt@));
}

fn prefixed(context: &str, message: &str) -> (r: String)
    ensures
        r@ == context@ + message@,
{
    let mut out: String = context.to_owned();
    out.append(message);
    out
}

impl Session {
    /// A session that begins with a turn.
    pub fn begin(turn_id: u64) -> (r: (Self, Vec<SessionAction>))
        ensures
            (r.0, tasks(r.1@)) == beginning(turn_id),
    {
        let mut out: Vec<SessionAction> = Vec::new();
        out.push(SessionAction::ShowLed(Led::Listening));
        out.push(SessionAction::OpenStream);
        assert(tasks(out@) =~= beginning(turn_id).1);
        (Session { turn_id, phase: Phase::Opening }, out)
    }

    fn fail(&mut self, out: &mut Vec<SessionAction>, fault: Fault)
        ensures
            (*final(self), tasks(final(out)@)) == failing(
                *old(self),
                tasks(old(out)@),
                fault@,
            ),
    {
        let ghost before = out@;
        self.phase = Phase::Over;
        out.push(SessionAction::Fail(fault));
        assert(tasks(out@) =~= tasks(before).push(Task::Fail(fault@)));
    }

    fn fail_asr(&mut self, out: &mut Vec<SessionAction>, fault: Fault)
        ensures
            (*final(self), tasks(final(out)@)) == asr_failing(
                *old(self),
                tasks(old(out)@),
                fault@,
            ),
    {
        apologise(out, ASR_SERVICE_ERROR_PROMPT);
        self.fail(out, fault.context("ASR failed after retries"));
    }

    fn finish(&mut self, out: &mut Vec<SessionAction>, reason: EndReason)
        ensures
            (*final(self), tasks(final(out)@)) == finishing(*old(self), tasks(old(out)@), reason),
    {
        let ghost before = out@;
        let ghost turn = self.turn_id;
        self.phase = Phase::Finishing(reason);
        out.push(SessionAction::FinishDialog(self.turn_id));
        assert(tasks(out@) =~= tasks(before).push(Task::FinishDialog(turn)));
    }

    fn hear(&mut self, out: &mut Vec<SessionAction>, said: &str)
        requires
            old(out)@.len() == 0,
        ensures
            (*final(self), tasks(final(out)@)) == heard(*old(self), said@),
    {
        assert(tasks(out@) =~= Seq::<Task>::empty());
        let command: String = text::trim(said);
        if command.as_str().is_empty() {
            self.finish(out, EndReason::EmptyResult);
        } else {
            self.phase = Phase::Thinking;
            out.push(SessionAction::RunAgent(command));
            assert(tasks(out@) =~= seq![Task::RunAgent(text::trimmed(said@))]);
        }
    }

    fn answer(&mut self, out: &mut Vec<SessionAction>, should_end: bool)
        ensures
            (*final(self), tasks(final(out)@)) == answered(
                *old(self),
                tasks(old(out)@),
                should_end,
            ),
    {
        let ghost before = out@;
        if should_end {
            self.finish(out, EndReason::AgentEnded);
        } else {
            let ghost turn = self.turn_id;
            self.phase = Phase::Continuing;
            out.push(SessionAction::ContinueDialog(self.turn_id));
            assert(tasks(out@) =~= tasks(before).push(Task::ContinueDialog(turn)));
        }
    }

    fn not_recorded(&mut self, out: &mut Vec<SessionAction>, mode: RecordMode, fault: Fault)
        requires
            old(out)@.len() == 0,
        ensures
            (*final(self), tasks(final(out)@)) == unrecorded(*old(self), mode, fault@),
    {
        if mode != RecordMode::Whole {
            out.push(SessionAction::CloseStream);
            assert(tasks(out@) =~= seq![Task::CloseStream]);
        } else {
            assert(tasks(out@) =~= Seq::<Task>::empty());
        }
        if is_capture_timeout(fault.message.as_str()) {
            self.finish(out, EndReason::IdleTimeout);
        } else if mode == RecordMode::ServerVad {
            self.fail_asr(out, fault);
        } else {
            self.fail(out, fault);
        }
    }

    /// Goes on with the session after an event that it can get; any other event
    /// changes nothing.
    pub fn advance(&mut self, event: SessionEvent) -> (r: Vec<SessionAction>)
        ensures
            (*final(self), tasks(r@)) == if expected(old(self).phase, event@) {
                session_step(*old(self), event@)
            } else {
                (*old(self), Seq::<Task>::empty())
            },
    {
        let ghost begun = *self;
        let ghost happening = event@;
        let ghost wanted = session_step(begun, happening);
        let mut out: Vec<SessionAction> = Vec::new();
        assert(tasks(out@) =~= Seq::<Task>::empty());
        let phase: Phase = self.phase;
        match (phase, event) {
            (Phase::Opening, SessionEvent::StreamOpened(mode)) => {
                self.phase = Phase::Recording(mode);
                out.push(SessionAction::Record(mode));
                assert(tasks(out@) =~= wanted.1);
            },
            (Phase::Opening, SessionEvent::StreamFailed(e)) => {
                self.fail_asr(&mut out, e);
            },
            (Phase::Recording(RecordMode::ServerVad), SessionEvent::RecordedText(said)) => {
                self.hear(&mut out, said.as_str());
            },
            (Phase::Recording(mode), SessionEvent::RecordedAudio(pcm)) => {
                match mode {
                    RecordMode::ServerVad => {},
                    RecordMode::Streaming => {
                        self.phase = Phase::Transcribing;
                        out.push(SessionAction::ShowLed(Led::Thinking));
                        out.push(SessionAction::CommitStream);
                        assert(tasks(out@) =~= wanted.1);
                    },
                    RecordMode::Whole => {
                        self.phase = Phase::Transcribing;
                        out.push(SessionAction::ShowLed(Led::Thinking));
                        out.push(SessionAction::Transcribe(pcm));
                        assert(tasks(out@) =~= wanted.1);
                    },
                }
            },
            (Phase::Recording(mode), SessionEvent::RecordFailed(e)) => {
                self.not_recorded(&mut out, mode, e);
            },
            (Phase::Transcribing, SessionEvent::Transcribed(said)) => {
                self.hear(&mut out, said.as_str());
            },
            (Phase::Transcribing, SessionEvent::TranscribeFailed(e)) => {
                self.fail_asr(&mut out, e);
            },
            (Phase::Thinking, SessionEvent::Replied(reply)) => {
                out.push(SessionAction::ShutLed(Led::Thinking));
                if text::blank(reply.text.as_str()) {
                    assert(tasks(out@) =~= seq![Task::ShutLed(Led::Thinking)]);
                    self.answer(&mut out, reply.should_end);
                } else {
                    self.phase = Phase::Speaking { should_end: reply.should_end };
                    out.push(SessionAction::ShowLed(Led::Speaking));
                    out.push(SessionAction::Speak(reply.text));
                    assert(tasks(out@) =~= wanted.1);
                }
            },
            (Phase::Thinking, SessionEvent::ReplyFailed(e)) => {
                apologise(&mut out, LLM_SERVICE_ERROR_PROMPT);
                assert(tasks(out@) =~= apology(LLM_SERVICE_ERROR_PROMPT@));
                self.fail(&mut out, e.context("LLM failed after retries"));
            },
            (Phase::Speaking { should_end }, SessionEvent::Done) => {
                self.answer(&mut out, should_end);
            },
            (Phase::Continuing, SessionEvent::Done) => {
                self.phase = Phase::Requesting;
                out.push(SessionAction::RequestFollowup);
                assert(tasks(out@) =~= wanted.1);
            },
            (Phase::Requesting, SessionEvent::Done) => {
                self.phase = Phase::AwaitingFollowup;
                out.push(SessionAction::ShutLed(Led::Speaking));
                out.push(SessionAction::ShowLed(Led::Listening));
                out.push(SessionAction::AwaitFollowup);
                assert(tasks(out@) =~= wanted.1);
            },
            (Phase::Finishing(reason), SessionEvent::Done) => {
                self.phase = Phase::Over;
                out.push(SessionAction::ResetAgent(end_reason(reason)));
                out.push(SessionAction::End);
                assert(tasks(out@) =~= wanted.1);
            },
            (Phase::Speaking { .. }, SessionEvent::Failed(e)) => {
                self.fail(&mut out, e);
            },
            (Phase::Continuing, SessionEvent::Failed(e)) => {
                self.fail(&mut out, e);
            },
            (Phase::Requesting, SessionEvent::Failed(e)) => {
                self.fail(&mut out, e);
            },
            (Phase::Finishing(_), SessionEvent::Failed(e)) => {
                self.fail(&mut out, e);
            },
            (Phase::AwaitingFollowup, SessionEvent::Followup(turn_id)) => {
                let (next, actions): (Session, Vec<SessionAction>) = Session::begin(turn_id);
                *self = next;
                out = actions;
            },
            (Phase::AwaitingFollowup, SessionEvent::FollowupClosed) => {
                self.finish(&mut out, EndReason::FrontendStopped);
            },
            (Phase::AwaitingFollowup, SessionEvent::FollowupTimedOut) => {
                self.finish(&mut out, EndReason::IdleTimeout);
            },
            _ => {},
        }
        out
    }
}

// ---------------------------------------------------------------- the service

/// Something for the service around the sessions to do.
#[derive(Debug)]
pub enum MainAction {
    /// Abort the session's task.
    AbortSession,
    /// Wait for the session's task to be over.
    JoinSession,
    /// Interrupt what is being played.
    InterruptPlayback,
    /// Cut off whatever is heard.
    AbortOutput,
    /// Darken an LED.
    ShutLed(Led),
    /// Forget the conversation, for a reason.
    ResetAgent(String),
    /// Start a session with the turn.
    StartSession,
    /// Hand the turn to the session that runs.
    Forward,
    /// Stop capturing for the turn; that it fails changes nothing.
    StopCapture,
    /// Tell the front end that the dialogue is over; that it fails changes
    /// nothing.
    FinishDialog(u64),
    /// Let what was interrupted go on.
    RestorePlayback,
    /// Blink to show that the speaker is ready.
    BlinkReady,
}

/// Something for the service to do, as a mathematical value.
pub enum Chore {
    AbortSession,
    JoinSession,
    InterruptPlayback,
    AbortOutput,
    ShutLed(Led),
    ResetAgent(Seq<char>),
    StartSession,
    Forward,
    StopCapture,
    FinishDialog(u64),
    RestorePlayback,
    BlinkReady,
}

impl View for MainAction {
    type V = Chore;

    open spec fn view(&self) -> Chore {
        match self {
            MainAction::AbortSession => Chore::AbortSession,
            MainAction::JoinSession => Chore::JoinSession,
            MainAction::InterruptPlayback => Chore::InterruptPlayback,
            MainAction::AbortOutput => Chore::AbortOutput,
            MainAction::ShutLed(led) => Chore::ShutLed(*led),
            MainAction::ResetAgent(reason) => Chore::ResetAgent(reason@),
            MainAction::StartSession => Chore::StartSession,
            MainAction::Forward => Chore::Forward,
            MainAction::StopCapture => Chore::StopCapture,
            MainAction::FinishDialog(turn) => Chore::FinishDialog(*turn),
            MainAction::RestorePlayback => Chore::RestorePlayback,
            MainAction::BlinkReady => Chore::BlinkReady,
        }
    }
}

/// A list of things to do as mathematical values.
pub open spec fn chores(actions: Seq<MainAction>) -> Seq<Chore> {
    actions.map_values(|a: MainAction| a@)
}

/// Whether a session is there, and if so whether its task is over.
#[derive(Debug, Clone, Copy, PartialEq, Eq, Structural)]
pub enum ActiveSession {
    Absent,
    Running,
    Finished,
}

/// Turning a turn away.
pub open spec fn rejection(turn_id: u64) -> Seq<Chore> {
    seq![Chore::StopCapture, Chore::FinishDialog(turn_id)]
}

/// What a turn leads to. The wake word ends the session there is and interrupts
/// what is played; a follow-up goes to the session that runs, and without one it
/// is turned away.
pub open spec fn turn_chores(activation: ActivationMode, turn_id: u64, active: ActiveSession) -> Seq<
    Chore,
> {
    if activation == ActivationMode::Wakeup {
        match active {
            ActiveSession::Absent => seq![Chore::InterruptPlayback],
            ActiveSession::Running => seq![
                Chore::AbortSession,
                Chore::JoinSession,
                Chore::InterruptPlayback,
            ],
            ActiveSession::Finished => seq![Chore::JoinSession, Chore::InterruptPlayback],
        }
    } else if active == ActiveSession::Running {
        seq![Chore::Forward]
    } else {
        rejection(turn_id)
    }
}

/// Darkening the LEDs of a turn.
pub open spec fn led_cleanup() -> Seq<Chore> {
    seq![
        Chore::ShutLed(Led::Speaking),
        Chore::ShutLed(Led::Thinking),
        Chore::ShutLed(Led::UserSpeaking),
        Chore::ShutLed(Led::Listening),
    ]
}

/// What follows the interruption of what is played: where nothing was
/// interrupted, whatever is heard is cut off.
pub open spec fn wake_chores(music_interrupted: bool, airplay_interrupted: bool) -> Seq<Chore> {
    (if music_interrupted || airplay_interrupted {
        Seq::empty()
    } else {
        seq![Chore::AbortOutput]
    }) + led_cleanup() + seq![Chore::ResetAgent("wake keyword"@), Chore::StartSession]
}

/// What follows a session. One that failed is ended for the front end too.
pub open spec fn closing_chores(failed: bool, turn_id: u64) -> Seq<Chore> {
    (if failed {
        seq![Chore::FinishDialog(turn_id), Chore::ResetAgent("turn failed"@)]
    } else {
        Seq::empty()
    }) + led_cleanup() + seq![Chore::RestorePlayback]
}

/// Turns a turn away.
pub fn reject_orphaned_turn(turn_id: u64) -> (r: Vec<MainAction>)
    ensures
        chores(r@) == rejection(turn_id),
{
    let mut out: Vec<MainAction> = Vec::new();
    out.push(MainAction::StopCapture);
    out.push(MainAction::FinishDialog(turn_id));
    assert(chores(out@) =~= rejection(turn_id));
    out
}

/// The front end has opened a turn.
pub fn turn_opened(activation: ActivationMode, turn_id: u64, active: ActiveSession) -> (r: Vec<
    MainAction,
>)
    ensures
        chores(r@) == turn_chores(activation, turn_id, active),
{
    let mut out: Vec<MainAction> = Vec::new();
    if activation.is_wakeup() {
        if active == ActiveSession::Running {
            out.push(MainAction::AbortSession);
        }
        if active != ActiveSession::Absent {
            out.push(MainAction::JoinSession);
        }
        out.push(MainAction::InterruptPlayback);
    } else if active == ActiveSession::Running {
        out.push(MainAction::Forward);
    } else {
        return reject_orphaned_turn(turn_id);
    }
    assert(chores(out@) =~= turn_chores(activation, turn_id, active));
    out
}

/// Darkens the LEDs of a turn.
pub fn cleanup_turn_leds(out: &mut Vec<MainAction>)
    ensures
        chores(final(out)@) == chores(old(out)@) + led_cleanup(),
{
    let ghost before = out@;
    out.push(MainAction::ShutLed(Led::Speaking));
    out.push(MainAction::ShutLed(Led::Thinking));
    out.push(MainAction::ShutLed(Led::UserSpeaking));
    out.push(MainAction::ShutLed(Led::Listening));
    assert(chores(out@) =~= chores(before) + led_cleanup());
}

/// What is played was interrupted, or was not.
pub fn playback_interrupted(music_interrupted: bool, airplay_interrupted: bool) -> (r: Vec<
    MainAction,
>)
    ensures
        chores(r@) == wake_chores(music_interrupted, airplay_interrupted),
{
    let mut out: Vec<MainAction> = Vec::new();
    if !music_interrupted && !airplay_interrupted {
        out.push(MainAction::AbortOutput);
    }
    let ghost first = out@;
    cleanup_turn_leds(&mut out);
    out.push(MainAction::ResetAgent("wake keyword".to_owned()));
    out.push(MainAction::StartSession);
    proof {
        assert(chores(first) =~= if music_interrupted || airplay_interrupted {
            Seq::empty()
        } else {
            seq![Chore::AbortOutput]
        });
        assert(chores(out@) =~= wake_chores(music_interrupted, airplay_interrupted));
    }
    out
}

/// A session is over; `turn_id` is the turn that it was at.
pub fn session_over(failed: bool, turn_id: u64) -> (r: Vec<MainAction>)
    ensures
        chores(r@) == closing_chores(failed, turn_id),
{
    let mut out: Vec<MainAction> = Vec::new();
    if failed {
        out.push(MainAction::FinishDialog(turn_id));
        out.push(MainAction::ResetAgent("turn failed".to_owned()));
    }
    let ghost first = out@;
    cleanup_turn_leds(&mut out);
    out.push(MainAction::RestorePlayback);
    proof {
        assert(chores(first) =~= if failed {
            seq![Chore::FinishDialog(turn_id), Chore::ResetAgent("turn failed"@)]
        } else {
            Seq::empty()
        });
        assert(chores(out@) =~= closing_chores(failed, turn_id));
    }
    out
}

/// Time to look after the session: one that is over makes room.
pub fn session_checked(active: ActiveSession) -> (r: Vec<MainAction>)
    ensures
        chores(r@) == if active == ActiveSession::Finished {
            seq![Chore::JoinSession, Chore::BlinkReady]
        } else {
            Seq::empty()
        },
{
    let mut out: Vec<MainAction> = Vec::new();
    if active == ActiveSession::Finished {
        out.push(MainAction::JoinSession);
        out.push(MainAction::BlinkReady);
    }
    assert(chores(out@) =~= if active == ActiveSession::Finished {
        seq![Chore::JoinSession, Chore::BlinkReady]
    } else {
        Seq::empty()
    });
    out
}

/// The speech service reports an error, or is gone.
pub fn speech_failed(message: Option<String>) -> (r: String)
    ensures
        r@ == match message {
            Some(m) => m@,
            None => "speech.usock service stopped unexpectedly"@,
        },
{
    match message {
        Some(m) => m,
        None => "speech.usock service stopped unexpectedly".to_owned(),
    }
}

// ----------------------------------------------------------------- follow-ups

/// Whether the answer to a request for a follow-up accepts it.
pub open spec fn followup_ok(response: JsonTree) -> bool {
    json::member(response, "code"@) == Some(JsonTree::Number(NumberTree::Unsigned(0)))
}

/// Whether a follow-up was accepted, by the answer and the text that it stands
/// in.
pub fn followup_answer(response: &Json, stdout: &str) -> (r: Result<(), String>)
    ensures
        r is Ok <==> followup_ok(json::tree(*response)),
        r matches Err(e) ==> e@ == "pnshelper rejected follow-up capture: "@ + text::trimmed(
            stdout@,
        ),
{
    let accepted: bool = match response.get("code") {
        Some(code) => match code.as_u64() {
            Some(n) => n == 0,
            None => false,
        },
        None => false,
    };
    if accepted {
        Ok(())
    } else {
        Err(prefixed("pnshelper rejected follow-up capture: ", text::trim(stdout).as_str()))
    }
}

/// Why a follow-up was not granted, where it was not.
pub open spec fn followup_refusal(result: CommandResult) -> Option<FaultModel> {
    if result.exit_code != 0 {
        Some(plain(shell::failure_text("pnshelper follow-up request failed"@, result)))
    } else {
        match json::spelled_json(result.stdout@) {
            Err(e) => Some(
                caused("pnshelper returned an invalid follow-up response"@, plain(e)),
            ),
            Ok(response) => if followup_ok(response) {
                None
            } else {
                Some(
                    plain(
                        "pnshelper rejected follow-up capture: "@ + text::trimmed(result.stdout@),
                    ),
                )
            },
        }
    }
}

/// Whether the command that asks for a follow-up was granted it.
pub fn followup_granted(result: &CommandResult) -> (r: Result<(), Fault>)
    ensures
        match followup_refusal(*result) {
            Some(reason) => r matches Err(e) && e@ == reason,
            None => r is Ok,
        },
{
    match shell::check_command(result, "pnshelper follow-up request failed") {
        Err(e) => Err(Fault::new(e.as_str())),
        Ok(()) => match json::parse_json(result.stdout.as_str()) {
            Ok(response) => match followup_answer(&response, result.stdout.as_str()) {
                Ok(()) => Ok(()),
                Err(e) => Err(Fault::new(e.as_str())),
            },
            Err(e) => Err(
                Fault::new(e.as_str()).context("pnshelper returned an invalid follow-up response"),
            ),
        },
    }
}

// ----------------------------------------------------------------------- laws

/// Whether a thing to do is the one that a session waits for.
pub open spec fn awaited(session: Session, task: Task) -> bool {
    match session.phase {
        Phase::Opening => task is OpenStream,
        Phase::Recording(mode) => task == Task::Record(mode),
        Phase::Transcribing => task is CommitStream || task is Transcribe,
        Phase::Thinking => task is RunAgent,
        Phase::Speaking { .. } => task is Speak,
        Phase::Continuing => task == Task::ContinueDialog(session.turn_id),
        Phase::Requesting => task is RequestFollowup,
        Phase::AwaitingFollowup => task is AwaitFollowup,
        Phase::Finishing(_) => task == Task::FinishDialog(session.turn_id),
        Phase::Over => task is End || task is Fail,
    }
}

/// A session never stalls: every event that it can get leads to something to do,
/// and the last of it is what the session waits for next, or its end.
pub proof fn law_session_never_stalls(session: Session, event: Happening)
    requires
        expected(session.phase, event),
    ensures
        ({
            let (after, out) = session_step(session, event);
            out.len() > 0 && awaited(after, out.last())
        }),
{
}

/// A session that is over stays over: there is no event that it can get.
pub proof fn law_session_over_is_over(session: Session, event: Happening)
    requires
        session.phase == Phase::Over,
    ensures
        !expected(session.phase, event),
{
}

/// A session ends well only after the front end was told that the dialogue is
/// over, and the conversation is then forgotten.
pub proof fn law_good_end_is_told(session: Session, event: Happening)
    requires
        expected(session.phase, event),
        session_step(session, event).1.contains(Task::End),
    ensures
        session.phase is Finishing,
        event is Done,
        session_step(session, event).1 == seq![
            Task::ResetAgent(end_reason_text(session.phase->Finishing_0)),
            Task::End,
        ],
{
    let out = session_step(session, event).1;
    let i = choose|i: int| 0 <= i < out.len() && out[i] == Task::End;
    assert(out[i] == Task::End);
}

/// The front end is only ever told about the turn that the session is at.
pub proof fn law_only_the_turn_at_hand(session: Session, event: Happening, i: int)
    requires
        expected(session.phase, event),
        0 <= i < session_step(session, event).1.len(),
    ensures
        ({
            let task = session_step(session, event).1[i];
            &&& task is FinishDialog ==> task == Task::FinishDialog(session.turn_id)
            &&& task is ContinueDialog ==> task == Task::ContinueDialog(session.turn_id)
        }),
{
}

/// Silence is no error: a recording that nobody spoke into ends the session as
/// idle, whatever way it was recorded.
pub proof fn law_silence_ends_quietly(session: Session, fault: FaultModel)
    requires
        session.phase is Recording,
        capture_timed_out(fault.message),
    ensures
        ({
            let (after, out) = session_step(session, Happening::RecordFailed(fault));
            &&& after.phase == Phase::Finishing(EndReason::IdleTimeout)
            &&& out.last() == Task::FinishDialog(session.turn_id)
        }),
{
}

/// The wake word always leads to a session of its own, and never leaves one
/// running beside it.
pub proof fn law_wake_word_replaces_session(turn_id: u64, active: ActiveSession, music: bool, airplay: bool)
    ensures
        ({
            let first = turn_chores(ActivationMode::Wakeup, turn_id, active);
            &&& active == ActiveSession::Running ==> first[0] == Chore::AbortSession && first[1]
                == Chore::JoinSession
            &&& first.last() == Chore::InterruptPlayback
            &&& wake_chores(music, airplay).last() == Chore::StartSession
        }),
{
}

// ------------------------------------------------------------- conversations

/// What a session does with events, one after another; those that it cannot get
/// change nothing.
pub open spec fn conversation(session: Session, events: Seq<Happening>) -> (Session, Seq<Task>)
    decreases events.len(),
{
    if events.len() == 0 {
        (session, Seq::empty())
    } else {
        let (before, done) = conversation(session, events.drop_last());
        if expected(before.phase, events.last()) {
            let (after, more) = session_step(before, events.last());
            (after, done + more)
        } else {
            (before, done)
        }
    }
}

proof fn lemma_one_event(session: Session, a: Happening)
    ensures
        conversation(session, seq![a]) == if expected(session.phase, a) {
            session_step(session, a)
        } else {
            (session, Seq::<Task>::empty())
        },
{
    reveal_with_fuel(conversation, 2);
    assert(seq![a].drop_last() =~= Seq::empty());
    if expected(session.phase, a) {
        let more = session_step(session, a).1;
        assert(Seq::<Task>::empty() + more =~= more);
    }
}

proof fn lemma_next_event(session: Session, events: Seq<Happening>, a: Happening)
    ensures
        ({
            let (before, done) = conversation(session, events);
            conversation(session, events.push(a)) == if expected(before.phase, a) {
                (session_step(before, a).0, done + session_step(before, a).1)
            } else {
                (before, done)
            }
        }),
{
    assert(events.push(a).drop_last() =~= events);
}

/// From the wake word to the question. However an utterance is recorded, what was
/// said, without white space around it, is what the agent is asked; the service is
/// handed the recording, unless it has the audio already.
pub proof fn law_what_is_said_is_asked(turn_id: u64, pcm: Seq<u8>, said: Seq<char>)
    requires
        text::trimmed(said).len() > 0,
    ensures
        ({
            let (session, first) = beginning(turn_id);
            let thinking = Session { turn_id, phase: Phase::Thinking };
            let asked = Task::RunAgent(text::trimmed(said));
            &&& first == seq![Task::ShowLed(Led::Listening), Task::OpenStream]
            &&& conversation(
                session,
                seq![
                    Happening::StreamOpened(RecordMode::ServerVad),
                    Happening::RecordedText(said),
                ],
            ) == (thinking, seq![Task::Record(RecordMode::ServerVad), asked])
            &&& conversation(
                session,
                seq![
                    Happening::StreamOpened(RecordMode::Streaming),
                    Happening::RecordedAudio(pcm),
                    Happening::Transcribed(said),
                ],
            ) == (
                thinking,
                seq![
                    Task::Record(RecordMode::Streaming),
                    Task::ShowLed(Led::Thinking),
                    Task::CommitStream,
                    asked,
                ],
            )
            &&& conversation(
                session,
                seq![
                    Happening::StreamOpened(RecordMode::Whole),
                    Happening::RecordedAudio(pcm),
                    Happening::Transcribed(said),
                ],
            ) == (
                thinking,
                seq![
                    Task::Record(RecordMode::Whole),
                    Task::ShowLed(Led::Thinking),
                    Task::Transcribe(pcm),
                    asked,
                ],
            )
        }),
{
    lemma_to_transcript(turn_id, pcm, said);
    let thinking = Session { turn_id, phase: Phase::Thinking };
    let asked = Task::RunAgent(text::trimmed(said));
    assert(seq![Task::Record(RecordMode::ServerVad)] + seq![asked] =~= seq![
        Task::Record(RecordMode::ServerVad),
        asked,
    ]);
    assert(seq![
        Task::Record(RecordMode::Streaming),
        Task::ShowLed(Led::Thinking),
        Task::CommitStream,
    ] + seq![asked] =~= seq![
        Task::Record(RecordMode::Streaming),
        Task::ShowLed(Led::Thinking),
        Task::CommitStream,
        asked,
    ]);
    assert(seq![
        Task::Record(RecordMode::Whole),
        Task::ShowLed(Led::Thinking),
        Task::Transcribe(pcm),
    ] + seq![asked] =~= seq![
        Task::Record(RecordMode::Whole),
        Task::ShowLed(Led::Thinking),
        Task::Transcribe(pcm),
        asked,
    ]);
}

/// The three ways to a transcript, each up to the event that brings it.
proof fn lemma_to_transcript(turn_id: u64, pcm: Seq<u8>, said: Seq<char>)
    ensures
        ({
            let session = beginning(turn_id).0;
            let at = |phase: Phase| Session { turn_id, phase };
            let server_done = seq![Task::Record(RecordMode::ServerVad)];
            let streaming_done = seq![
                Task::Record(RecordMode::Streaming),
                Task::ShowLed(Led::Thinking),
                Task::CommitStream,
            ];
            let whole_done = seq![
                Task::Record(RecordMode::Whole),
                Task::ShowLed(Led::Thinking),
                Task::Transcribe(pcm),
            ];
            let next = heard(at(Phase::Recording(RecordMode::ServerVad)), said);
            let later = heard(at(Phase::Transcribing), said);
            &&& conversation(
                session,
                seq![
                    Happening::StreamOpened(RecordMode::ServerVad),
                    Happening::RecordedText(said),
                ],
            ) == (next.0, server_done + next.1)
            &&& conversation(
                session,
                seq![
                    Happening::StreamOpened(RecordMode::Streaming),
                    Happening::RecordedAudio(pcm),
                    Happening::Transcribed(said),
                ],
            ) == (later.0, streaming_done + later.1)
            &&& conversation(
                session,
                seq![
                    Happening::StreamOpened(RecordMode::Whole),
                    Happening::RecordedAudio(pcm),
                    Happening::Transcribed(said),
                ],
            ) == (later.0, whole_done + later.1)
        }),
{
    let session = beginning(turn_id).0;
    let server = Happening::StreamOpened(RecordMode::ServerVad);
    let streaming = Happening::StreamOpened(RecordMode::Streaming);
    let whole = Happening::StreamOpened(RecordMode::Whole);
    let recorded = Happening::RecordedAudio(pcm);
    lemma_one_event(session, server);
    lemma_next_event(session, seq![server], Happening::RecordedText(said));
    assert(seq![server].push(Happening::RecordedText(said)) =~= seq![
        server,
        Happening::RecordedText(said),
    ]);
    lemma_one_event(session, streaming);
    lemma_next_event(session, seq![streaming], recorded);
    assert(seq![streaming].push(recorded) =~= seq![streaming, recorded]);
    lemma_next_event(session, seq![streaming, recorded], Happening::Transcribed(said));
    assert(seq![streaming, recorded].push(Happening::Transcribed(said)) =~= seq![
        streaming,
        recorded,
        Happening::Transcribed(said),
    ]);
    assert(seq![Task::Record(RecordMode::Streaming)] + seq![
        Task::ShowLed(Led::Thinking),
        Task::CommitStream,
    ] =~= seq![
        Task::Record(RecordMode::Streaming),
        Task::ShowLed(Led::Thinking),
        Task::CommitStream,
    ]);
    lemma_one_event(session, whole);
    lemma_next_event(session, seq![whole], recorded);
    assert(seq![whole].push(recorded) =~= seq![whole, recorded]);
    lemma_next_event(session, seq![whole, recorded], Happening::Transcribed(said));
    assert(seq![whole, recorded].push(Happening::Transcribed(said)) =~= seq![
        whole,
        recorded,
        Happening::Transcribed(said),
    ]);
    assert(seq![Task::Record(RecordMode::Whole)] + seq![
        Task::ShowLed(Led::Thinking),
        Task::Transcribe(pcm),
    ] =~= seq![
        Task::Record(RecordMode::Whole),
        Task::ShowLed(Led::Thinking),
        Task::Transcribe(pcm),
    ]);
}

/// The end of a conversation that nothing went wrong in: the front end is told of
/// the turn, and then the agent forgets, for the reason.
pub open spec fn told_end(turn_id: u64, reason: Seq<char>) -> Seq<Task> {
    seq![Task::FinishDialog(turn_id), Task::ResetAgent(reason), Task::End]
}

/// Nothing said, nothing asked: a transcript of white space ends the conversation.
pub proof fn law_nothing_said_ends_the_conversation(session: Session, said: Seq<char>)
    requires
        text::trimmed(said).len() == 0,
        session.phase == Phase::Transcribing || session.phase == Phase::Recording(
            RecordMode::ServerVad,
        ),
    ensures
        conversation(
            session,
            seq![
                if session.phase == Phase::Transcribing {
                    Happening::Transcribed(said)
                } else {
                    Happening::RecordedText(said)
                },
                Happening::Done,
            ],
        ) == (
            Session { phase: Phase::Over, ..session },
            told_end(session.turn_id, "empty ASR result"@),
        ),
{
    let event = if session.phase == Phase::Transcribing {
        Happening::Transcribed(said)
    } else {
        Happening::RecordedText(said)
    };
    lemma_one_event(session, event);
    lemma_next_event(session, seq![event], Happening::Done);
    assert(seq![event].push(Happening::Done) =~= seq![event, Happening::Done]);
    assert(conversation(session, seq![event, Happening::Done]).1 =~= told_end(
        session.turn_id,
        "empty ASR result"@,
    ));
}

/// The reply decides. It is spoken as it is, unless it is blank. Then the
/// conversation ends where the reply asks for the end, and goes on where it does
/// not.
pub proof fn law_reply_decides_the_end(session: Session, reply: AgentReply)
    requires
        session.phase == Phase::Thinking,
    ensures
        ({
            let blank = text::trimmed(reply.text).len() == 0;
            let events = if blank {
                seq![Happening::Replied(reply)]
            } else {
                seq![Happening::Replied(reply), Happening::Done]
            };
            let spoken = if blank {
                seq![Task::ShutLed(Led::Thinking)]
            } else {
                seq![
                    Task::ShutLed(Led::Thinking),
                    Task::ShowLed(Led::Speaking),
                    Task::Speak(reply.text),
                ]
            };
            let (after, done) = conversation(session, events);
            &&& after.turn_id == session.turn_id
            &&& if reply.should_end {
                &&& after.phase == Phase::Finishing(EndReason::AgentEnded)
                &&& done == spoken.push(Task::FinishDialog(session.turn_id))
                &&& conversation(session, events.push(Happening::Done)) == (
                    Session { phase: Phase::Over, ..session },
                    spoken + told_end(session.turn_id, "agent ended conversation"@),
                )
            } else {
                &&& after.phase == Phase::Continuing
                &&& done == spoken.push(Task::ContinueDialog(session.turn_id))
            }
        }),
{
    let blank = text::trimmed(reply.text).len() == 0;
    let first = Happening::Replied(reply);
    lemma_one_event(session, first);
    lemma_next_event(session, seq![first], Happening::Done);
    let both = seq![first, Happening::Done];
    assert(seq![first].push(Happening::Done) =~= both);
    lemma_next_event(session, both, Happening::Done);
    let spoken = if blank {
        seq![Task::ShutLed(Led::Thinking)]
    } else {
        seq![
            Task::ShutLed(Led::Thinking),
            Task::ShowLed(Led::Speaking),
            Task::Speak(reply.text),
        ]
    };
    let events = if blank {
        seq![first]
    } else {
        both
    };
    let done = conversation(session, events).1;
    if reply.should_end {
        assert(done =~= spoken.push(Task::FinishDialog(session.turn_id)));
        assert(conversation(session, events.push(Happening::Done)).1 =~= spoken + told_end(
            session.turn_id,
            "agent ended conversation"@,
        ));
    } else {
        assert(done =~= spoken.push(Task::ContinueDialog(session.turn_id)));
    }
}

/// A dialogue that goes on opens the microphone again, and a follow-up is a turn
/// like the first. Where none comes, or the front end is gone, the conversation
/// ends.
pub proof fn law_follow_ups_go_on(session: Session, next: u64)
    requires
        session.phase == Phase::Continuing,
    ensures
        ({
            let opened = seq![Happening::Done, Happening::Done];
            let waiting = seq![
                Task::RequestFollowup,
                Task::ShutLed(Led::Speaking),
                Task::ShowLed(Led::Listening),
                Task::AwaitFollowup,
            ];
            let over = Session { phase: Phase::Over, ..session };
            &&& conversation(session, opened) == (
                Session { phase: Phase::AwaitingFollowup, ..session },
                waiting,
            )
            &&& conversation(session, opened.push(Happening::Followup(next))) == (
                Session { turn_id: next, phase: Phase::Opening },
                waiting + seq![Task::ShowLed(Led::Listening), Task::OpenStream],
            )
            &&& conversation(
                session,
                opened.push(Happening::FollowupClosed).push(Happening::Done),
            ) == (over, waiting + told_end(session.turn_id, "speech frontend stopped"@))
            &&& conversation(
                session,
                opened.push(Happening::FollowupTimedOut).push(Happening::Done),
            ) == (over, waiting + told_end(session.turn_id, "session idle timeout"@))
        }),
{
    let opened = seq![Happening::Done, Happening::Done];
    lemma_one_event(session, Happening::Done);
    lemma_next_event(session, seq![Happening::Done], Happening::Done);
    assert(seq![Happening::Done].push(Happening::Done) =~= opened);
    let waiting = seq![
        Task::RequestFollowup,
        Task::ShutLed(Led::Speaking),
        Task::ShowLed(Led::Listening),
        Task::AwaitFollowup,
    ];
    assert(conversation(session, opened).1 =~= waiting);
    lemma_next_event(session, opened, Happening::Followup(next));
    lemma_next_event(session, opened, Happening::FollowupClosed);
    lemma_next_event(session, opened.push(Happening::FollowupClosed), Happening::Done);
    lemma_next_event(session, opened, Happening::FollowupTimedOut);
    lemma_next_event(session, opened.push(Happening::FollowupTimedOut), Happening::Done);
    assert(conversation(
        session,
        opened.push(Happening::FollowupClosed).push(Happening::Done),
    ).1 =~= waiting + told_end(session.turn_id, "speech frontend stopped"@));
    assert(conversation(
        session,
        opened.push(Happening::FollowupTimedOut).push(Happening::Done),
    ).1 =~= waiting + told_end(session.turn_id, "session idle timeout"@));
}

/// What goes wrong ends the session with its error, kept whole. A service that fails
/// is apologised for first, and a stream that is open is closed; a recording that
/// only nobody spoke into ends the conversation as idle instead.
pub proof fn law_failures_end_the_session(session: Session, fault: FaultModel, mode: RecordMode)
    ensures
        ({
            let at = |phase: Phase| Session { phase, ..session };
            let asr = seq![
                Task::ShutLed(Led::Thinking),
                Task::ShowLed(Led::Speaking),
                Task::SpeakAnyway(ASR_SERVICE_ERROR_PROMPT@),
                Task::Fail(caused("ASR failed after retries"@, fault)),
            ];
            let close = if mode == RecordMode::Whole {
                Seq::<Task>::empty()
            } else {
                seq![Task::CloseStream]
            };
            &&& conversation(at(Phase::Opening), seq![Happening::StreamFailed(fault)]) == (
                at(Phase::Over),
                asr,
            )
            &&& conversation(at(Phase::Transcribing), seq![Happening::TranscribeFailed(fault)]) == (
                at(Phase::Over),
                asr,
            )
            &&& conversation(at(Phase::Thinking), seq![Happening::ReplyFailed(fault)]) == (
                at(Phase::Over),
                seq![
                    Task::ShutLed(Led::Thinking),
                    Task::ShowLed(Led::Speaking),
                    Task::SpeakAnyway(LLM_SERVICE_ERROR_PROMPT@),
                    Task::Fail(caused("LLM failed after retries"@, fault)),
                ],
            )
            &&& !text::contains_text(fault.message, "timed out waiting for user speech"@)
                ==> conversation(
                at(Phase::Recording(mode)),
                seq![Happening::RecordFailed(fault)],
            ) == (
                at(Phase::Over),
                close + if mode == RecordMode::ServerVad {
                    asr
                } else {
                    seq![Task::Fail(fault)]
                },
            )
            &&& text::contains_text(fault.message, "timed out waiting for user speech"@)
                ==> conversation(
                at(Phase::Recording(mode)),
                seq![Happening::RecordFailed(fault), Happening::Done],
            ) == (at(Phase::Over), close + told_end(session.turn_id, "session idle timeout"@))
        }),
{
    let at = |phase: Phase| Session { phase, ..session };
    let asr = seq![
        Task::ShutLed(Led::Thinking),
        Task::ShowLed(Led::Speaking),
        Task::SpeakAnyway(ASR_SERVICE_ERROR_PROMPT@),
        Task::Fail(caused("ASR failed after retries"@, fault)),
    ];
    let llm = seq![
        Task::ShutLed(Led::Thinking),
        Task::ShowLed(Led::Speaking),
        Task::SpeakAnyway(LLM_SERVICE_ERROR_PROMPT@),
        Task::Fail(caused("LLM failed after retries"@, fault)),
    ];
    lemma_one_event(at(Phase::Opening), Happening::StreamFailed(fault));
    assert(session_step(at(Phase::Opening), Happening::StreamFailed(fault)).1 =~= asr);
    lemma_one_event(at(Phase::Transcribing), Happening::TranscribeFailed(fault));
    assert(session_step(at(Phase::Transcribing), Happening::TranscribeFailed(fault)).1 =~= asr);
    lemma_one_event(at(Phase::Thinking), Happening::ReplyFailed(fault));
    assert(session_step(at(Phase::Thinking), Happening::ReplyFailed(fault)).1 =~= llm);
    let recording = at(Phase::Recording(mode));
    let failed = Happening::RecordFailed(fault);
    lemma_one_event(recording, failed);
    lemma_next_event(recording, seq![failed], Happening::Done);
    assert(seq![failed].push(Happening::Done) =~= seq![failed, Happening::Done]);
    let close = if mode == RecordMode::Whole {
        Seq::<Task>::empty()
    } else {
        seq![Task::CloseStream]
    };
    let out = session_step(recording, failed).1;
    if text::contains_text(fault.message, "timed out waiting for user speech"@) {
        assert(conversation(recording, seq![failed, Happening::Done]).1 =~= close + told_end(
            session.turn_id,
            "session idle timeout"@,
        ));
    } else if mode == RecordMode::ServerVad {
        assert(out =~= close + asr);
    } else {
        assert(out =~= close + seq![Task::Fail(fault)]);
    }
}

/// A step that the front end or the speaker fails at ends the session with that
/// error and nothing else.
pub proof fn law_failed_steps_end_the_session(session: Session, fault: FaultModel)
    requires
        session.phase is Speaking || session.phase is Continuing || session.phase is Requesting
            || session.phase is Finishing,
    ensures
        conversation(session, seq![Happening::Failed(fault)]) == (
            Session { phase: Phase::Over, ..session },
            seq![Task::Fail(fault)],
        ),
{
    lemma_one_event(session, Happening::Failed(fault));
    assert(session_step(session, Happening::Failed(fault)).1 =~= seq![Task::Fail(fault)]);
}

/// Who is heard. The wake word is always answered: the session that runs is ended,
/// what plays is interrupted or else cut off, all lights go out, the agent forgets,
/// and only then the new session starts. Any other turn goes to the session that
/// runs, and to nobody else; without one it is turned away.
pub proof fn law_turns_find_their_session(
    activation: ActivationMode,
    turn_id: u64,
    active: ActiveSession,
    music: bool,
    airplay: bool,
)
    ensures
        activation == ActivationMode::Wakeup ==> turn_chores(activation, turn_id, active) == (
        match active {
            ActiveSession::Absent => Seq::<Chore>::empty(),
            ActiveSession::Running => seq![Chore::AbortSession, Chore::JoinSession],
            ActiveSession::Finished => seq![Chore::JoinSession],
        }).push(Chore::InterruptPlayback),
        activation != ActivationMode::Wakeup ==> turn_chores(activation, turn_id, active) == if active
            == ActiveSession::Running {
            seq![Chore::Forward]
        } else {
            seq![Chore::StopCapture, Chore::FinishDialog(turn_id)]
        },
        wake_chores(music, airplay) == (if music || airplay {
            Seq::<Chore>::empty()
        } else {
            seq![Chore::AbortOutput]
        }) + seq![
            Chore::ShutLed(Led::Speaking),
            Chore::ShutLed(Led::Thinking),
            Chore::ShutLed(Led::UserSpeaking),
            Chore::ShutLed(Led::Listening),
            Chore::ResetAgent("wake keyword"@),
            Chore::StartSession,
        ],
{
    assert(turn_chores(ActivationMode::Wakeup, turn_id, ActiveSession::Running) =~= seq![
        Chore::AbortSession,
        Chore::JoinSession,
    ].push(Chore::InterruptPlayback));
    assert(turn_chores(ActivationMode::Wakeup, turn_id, ActiveSession::Finished) =~= seq![
        Chore::JoinSession,
    ].push(Chore::InterruptPlayback));
    assert(turn_chores(ActivationMode::Wakeup, turn_id, ActiveSession::Absent) =~= Seq::<
        Chore,
    >::empty().push(Chore::InterruptPlayback));
    assert(wake_chores(music, airplay) =~= (if music || airplay {
        Seq::<Chore>::empty()
    } else {
        seq![Chore::AbortOutput]
    }) + seq![
        Chore::ShutLed(Led::Speaking),
        Chore::ShutLed(Led::Thinking),
        Chore::ShutLed(Led::UserSpeaking),
        Chore::ShutLed(Led::Listening),
        Chore::ResetAgent("wake keyword"@),
        Chore::StartSession,
    ]);
}

/// However a session ends, all lights go out and what was interrupted goes on, in
/// this order; one that failed is first ended for the front end, and forgotten.
pub proof fn law_sessions_clean_up(failed: bool, turn_id: u64)
    ensures
        closing_chores(failed, turn_id) == (if failed {
            seq![Chore::FinishDialog(turn_id), Chore::ResetAgent("turn failed"@)]
        } else {
            Seq::<Chore>::empty()
        }) + seq![
            Chore::ShutLed(Led::Speaking),
            Chore::ShutLed(Led::Thinking),
            Chore::ShutLed(Led::UserSpeaking),
            Chore::ShutLed(Led::Listening),
            Chore::RestorePlayback,
        ],
{
    assert(closing_chores(failed, turn_id) =~= (if failed {
        seq![Chore::FinishDialog(turn_id), Chore::ResetAgent("turn failed"@)]
    } else {
        Seq::<Chore>::empty()
    }) + seq![
        Chore::ShutLed(Led::Speaking),
        Chore::ShutLed(Led::Thinking),
        Chore::ShutLed(Led::UserSpeaking),
        Chore::ShutLed(Led::Listening),
        Chore::RestorePlayback,
    ]);
}

/// A follow-up is granted exactly where the command succeeds and answers with an
/// object whose first member `code` is the number zero.
pub proof fn law_follow_ups_are_granted(result: CommandResult)
    ensures
        followup_refusal(result) is None <==> result.exit_code == 0 && (json::spelled_json(
            result.stdout@,
        ) matches Ok(response) && json::member(response, "code"@) == Some(
            JsonTree::Number(NumberTree::Unsigned(0)),
        )),
        result.exit_code != 0 ==> followup_refusal(result) == Some(
            plain(
                "pnshelper follow-up request failed exit="@ + text::signed_decimal(
                    result.exit_code as int,
                ) + " stderr="@ + text::trimmed(result.stderr@),
            ),
        ),
{
    let a = "pnshelper follow-up request failed"@;
    let b = " exit="@;
    reveal_strlit("pnshelper follow-up request failed exit=");
    reveal_strlit("pnshelper follow-up request failed");
    reveal_strlit(" exit=");
    assert(a + b =~= "pnshelper follow-up request failed exit="@);
}

} // verus!
