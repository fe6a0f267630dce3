//! Listening for the wake word: what the vendor's library reports, what it is
//! told, and which reports count.
use vstd::prelude::*;
use crate::config::RuntimeConfig;
use crate::text;
use crate::vpm;
use crate::vpm::{VpmAudio, Wording};

verus! {

/// How long further wake words are passed over after one, in nanoseconds.
pub const EVENT_DEBOUNCE_NS: u64 = 1_200_000_000;

/// How many pieces of audio a listener may have unread.
pub const ASR_AUDIO_BROADCAST_CAPACITY: usize = 128;

/// The kind of audio packet that lies inside an utterance.
pub const VPM_ASR_DATA_MIDDLE: u32 = 2;

/// The wake word.
pub const KEYWORD: &'static str = "XIAOAITONGXUE";

/// What the monitor tells its owner.
#[derive(Debug)]
pub enum KwsMonitorEvent {
    Started,
    Keyword(String),
}

/// A report of the wake word.
#[derive(Debug)]
pub struct VpmWakeEvent {
    pub keyword: String,
    pub kind: &'static str,
    pub value: i32,
}

/// A report of the wake word, as a mathematical value.
pub struct Wake {
    pub keyword: Seq<char>,
    pub kind: Seq<char>,
    pub value: i32,
}

impl View for VpmWakeEvent {
    type V = Wake;

    open spec fn view(&self) -> Wake {
        Wake { keyword: self.keyword@, kind: self.kind@, value: self.value }
    }
}

/// A list of reports as mathematical values.
pub open spec fn wakes(events: Seq<VpmWakeEvent>) -> Seq<Wake> {
    events.map_values(|e: VpmWakeEvent| e@)
}

/// What the library can be told.
#[derive(Debug, Clone, Copy, PartialEq, Eq, Structural)]
pub enum VpmCommand {
    SetStatus(i32),
}

/// The audio that the library is fed.
pub fn kws_audio(config: &RuntimeConfig) -> (r: VpmAudio)
    ensures
        r.pcm@ == config.kws_pcm@,
        r.sample_rate == config.kws_sample_rate,
        r.channels == config.kws_channels,
        r.bits_per_sample == config.kws_bits_per_sample,
        r.frame_ms == config.kws_frame_ms,
        r.period_size == config.kws_period_size,
        r.buffer_size == config.kws_buffer_size,
        r.ref_channel_index == config.kws_ref_channel_index,
{
    VpmAudio {
        pcm: config.kws_pcm.clone(),
        sample_rate: config.kws_sample_rate,
        channels: config.kws_channels,
        bits_per_sample: config.kws_bits_per_sample,
        frame_ms: config.kws_frame_ms,
        period_size: config.kws_period_size,
        buffer_size: config.kws_buffer_size,
        ref_channel_index: config.kws_ref_channel_index,
    }
}

// -------------------------------------------------------------------- reports

/// The name of an event of the library, where it is the wake word.
pub fn upper_event_name(event: i32) -> (r: Option<&'static str>)
    ensures
        if event == 0 {
            r matches Some(name) && name@ == "WAKEUP_REAL"@
        } else {
            r is None
        },
{
    match event {
        0 => Some("WAKEUP_REAL"),
        _ => None,
    }
}

/// The report that an event of the library is, where it is one.
pub fn event_report(event: i32, value: i32) -> (r: Option<VpmWakeEvent>)
    ensures
        if event == 0 {
            r matches Some(e) && e@ == (Wake {
                keyword: KEYWORD@,
                kind: "WAKEUP_REAL"@,
                value,
            })
        } else {
            r is None
        },
{
    match upper_event_name(event) {
        Some(kind) => Some(VpmWakeEvent { keyword: KEYWORD.to_owned(), kind, value }),
        None => None,
    }
}

/// The report that the audio of a wake word is, where it is one: only of the wake
/// word itself, not of what might be one.
pub fn wakeup_data_report(local_word: i32) -> (r: Option<VpmWakeEvent>)
    ensures
        if local_word == 0 {
            r matches Some(e) && e@ == (Wake {
                keyword: KEYWORD@,
                kind: "WAKEUP_DATA"@,
                value: 0,
            })
        } else {
            r is None
        },
{
    if local_word != 0 {
        return None;
    }
    Some(VpmWakeEvent { keyword: KEYWORD.to_owned(), kind: "WAKEUP_DATA", value: local_word })
}

/// Whether a packet of audio goes to the listeners: it is not empty and lies
/// inside an utterance.
pub fn asr_packet_taken(has_data: bool, size: u32, data_type: u32) -> (r: bool)
    ensures
        r == (has_data && size > 0 && data_type == VPM_ASR_DATA_MIDDLE),
{
    has_data && size > 0 && data_type == VPM_ASR_DATA_MIDDLE
}

/// Whether a line of the library's log is worth keeping.
pub open spec fn worth_logging(message: Seq<char>) -> bool {
    &&& !text::contains_text(message, "vpm_process line:361"@)
    &&& {
        ||| text::contains_text(message, "send pre_wakeup"@)
        ||| text::contains_text(message, "send wakeup"@)
        ||| text::contains_text(message, "flexkws_version"@)
        ||| text::contains_text(message, "decoder: set wakeup"@)
        ||| text::contains_text(message, "insight:"@)
    }
}

/// Whether a line of the library's log is worth keeping.
pub fn log_wanted(message: &str) -> (r: bool)
    ensures
        r == worth_logging(message@),
{
    if text::contains(message, "vpm_process line:361") {
        return false;
    }
    text::contains(message, "send pre_wakeup") || text::contains(message, "send wakeup")
        || text::contains(message, "flexkws_version") || text::contains(
        message,
        "decoder: set wakeup",
    ) || text::contains(message, "insight:")
}

// ---------------------------------------------------------------- the mailbox

/// What passes between the library's callbacks, the monitor and the rest of the
/// agent: nothing, while the monitor does not run.
#[derive(Debug)]
pub struct VpmMailbox {
    pub events: Option<Vec<VpmWakeEvent>>,
    pub commands: Option<Vec<VpmCommand>>,
    pub asr_packets: u64,
}

/// What is in a mailbox, as a mathematical value.
pub struct Mail {
    pub events: Option<Seq<Wake>>,
    pub commands: Option<Seq<VpmCommand>>,
    pub asr_packets: u64,
}

impl View for VpmMailbox {
    type V = Mail;

    open spec fn view(&self) -> Mail {
        Mail {
            events: match self.events {
                Some(events) => Some(wakes(events@)),
                None => None,
            },
            commands: match self.commands {
                Some(commands) => Some(commands@),
                None => None,
            },
            asr_packets: self.asr_packets,
        }
    }
}

/// Asks for a status of the library. Says whether the monitor runs to pass it on.
pub fn request_vpm_status(mailbox: &mut VpmMailbox, status: i32) -> (r: bool)
    ensures
        r == (old(mailbox)@.commands is Some),
        final(mailbox)@ == (Mail {
            commands: match old(mailbox)@.commands {
                Some(commands) => Some(commands.push(VpmCommand::SetStatus(status))),
                None => None,
            },
            ..old(mailbox)@
        }),
{
    let held: Option<Vec<VpmCommand>> = mailbox.commands.take();
    match held {
        Some(commands) => {
            let mut commands: Vec<VpmCommand> = commands;
            commands.push(VpmCommand::SetStatus(status));
            mailbox.commands = Some(commands);
            true
        },
        None => false,
    }
}

impl VpmMailbox {
    /// A mailbox of a monitor that does not run.
    pub fn closed() -> (r: Self)
        ensures
            r@ == (Mail { events: None, commands: None, asr_packets: 0 }),
    {
        VpmMailbox { events: None, commands: None, asr_packets: 0 }
    }

    /// Opens the mailbox: the monitor runs.
    pub fn open(&mut self)
        ensures
            final(self)@ == (Mail {
                events: Some(Seq::empty()),
                commands: Some(Seq::empty()),
                asr_packets: 0,
            }),
    {
        let events: Vec<VpmWakeEvent> = Vec::new();
        assert(wakes(events@) =~= Seq::empty());
        self.events = Some(events);
        self.commands = Some(Vec::new());
        self.asr_packets = 0;
    }

    /// Closes the mailbox: the monitor does not run any more.
    pub fn close(&mut self)
        ensures
            final(self)@ == (Mail { events: None, commands: None, ..old(self)@ }),
    {
        self.events = None;
        self.commands = None;
    }

    /// Takes a report of the wake word, which is lost while the monitor does not
    /// run.
    pub fn send_vpm_event(&mut self, event: VpmWakeEvent)
        ensures
            final(self)@ == (Mail {
                events: match old(self)@.events {
                    Some(events) => Some(events.push(event@)),
                    None => None,
                },
                ..old(self)@
            }),
    {
        let held: Option<Vec<VpmWakeEvent>> = self.events.take();
        match held {
            Some(events) => {
                let mut events: Vec<VpmWakeEvent> = events;
                let ghost before = events@;
                events.push(event);
                assert(wakes(events@) =~= wakes(before).push(event@));
                self.events = Some(events);
            },
            None => {},
        }
    }

    /// Hands over the commands that have come.
    pub fn take_commands(&mut self) -> (r: Vec<VpmCommand>)
        ensures
            r@ == match old(self)@.commands {
                Some(commands) => commands,
                None => Seq::empty(),
            },
            final(self)@ == (Mail {
                commands: match old(self)@.commands {
                    Some(_) => Some(Seq::empty()),
                    None => None,
                },
                ..old(self)@
            }),
    {
        let held: Option<Vec<VpmCommand>> = self.commands.take();
        match held {
            Some(commands) => {
                self.commands = Some(Vec::new());
                commands
            },
            None => Vec::new(),
        }
    }

    /// Hands over the first report that has come; the others are dropped with it.
    pub fn drain_first_event(&mut self) -> (r: Option<VpmWakeEvent>)
        ensures
            match old(self)@.events {
                Some(events) if events.len() > 0 => r matches Some(e) && e@ == events[0],
                _ => r is None,
            },
            final(self)@ == (Mail {
                events: match old(self)@.events {
                    Some(_) => Some(Seq::empty()),
                    None => None,
                },
                ..old(self)@
            }),
    {
        let held: Option<Vec<VpmWakeEvent>> = self.events.take();
        match held {
            Some(events) => {
                let mut events: Vec<VpmWakeEvent> = events;
                let none: Vec<VpmWakeEvent> = Vec::new();
                assert(wakes(none@) =~= Seq::empty());
                self.events = Some(none);
                if events.len() > 0 {
                    Some(events.remove(0))
                } else {
                    None
                }
            },
            None => None,
        }
    }

    /// Counts a packet of audio. Says whether it is one that is logged: the first
    /// eight, and then every fiftieth.
    pub fn log_vpm_asr_packet(&mut self) -> (r: bool)
        ensures
            r == (old(self)@.asr_packets < 8 || old(self)@.asr_packets % 50 == 0),
            final(self)@ == (Mail {
                asr_packets: if old(self)@.asr_packets == u64::MAX {
                    0
                } else {
                    (old(self)@.asr_packets + 1) as u64
                },
                ..old(self)@
            }),
    {
        let packet: u64 = self.asr_packets;
        self.asr_packets = if packet == u64::MAX {
            0
        } else {
            packet + 1
        };
        packet < 8 || packet % 50 == 0
    }
}

// ------------------------------------------------------------------ the monitor

/// The monitor while it feeds the library: the frames fed, and when the last wake
/// word counted, in nanoseconds.
#[derive(Debug, Clone, Copy, PartialEq, Eq, Structural)]
pub struct KwsFeed {
    pub frames: u64,
    pub last_event_ns: u64,
}

/// The time since the last wake word that counted.
pub open spec fn since_event(feed: KwsFeed, now_ns: u64) -> int {
    if now_ns < feed.last_event_ns {
        0
    } else {
        now_ns - feed.last_event_ns
    }
}

impl KwsFeed {
    /// A monitor that has fed nothing. A wake word counts from the start on,
    /// where the clock has run long enough.
    pub fn new(now_ns: u64) -> (r: Self)
        ensures
            r.frames == 0,
            r.last_event_ns == if now_ns < EVENT_DEBOUNCE_NS {
                now_ns
            } else {
                (now_ns - EVENT_DEBOUNCE_NS) as u64
            },
    {
        KwsFeed {
            frames: 0,
            last_event_ns: if now_ns < EVENT_DEBOUNCE_NS {
                now_ns
            } else {
                now_ns - EVENT_DEBOUNCE_NS
            },
        }
    }

    /// When the next frame starts, in milliseconds since the first.
    pub fn start_time_ms(&self, frame_ms: u32) -> (r: Result<u64, String>)
        ensures
            match r {
                Ok(ms) => ms == self.frames * frame_ms,
                Err(e) => self.frames * frame_ms > u64::MAX && e@ == "KWS timestamp overflow"@,
            },
    {
        vpm::frame_start_ms(self.frames, frame_ms, Wording::Monitor)
    }

    /// A frame was fed.
    pub fn fed(&mut self)
        requires
            old(self).frames < u64::MAX,
        ensures
            *final(self) == (KwsFeed { frames: (old(self).frames + 1) as u64, ..*old(self) }),
    {
        self.frames = self.frames + 1;
    }

    /// The wake word was reported. What the owner is told of it: nothing, where
    /// it comes too soon after the last one that counted.
    pub fn report(&mut self, event: VpmWakeEvent, now_ns: u64) -> (r: Option<KwsMonitorEvent>)
        ensures
            if since_event(*old(self), now_ns) < EVENT_DEBOUNCE_NS {
                &&& r is None
                &&& *final(self) == *old(self)
            } else {
                &&& r matches Some(KwsMonitorEvent::Keyword(keyword)) && keyword@
                    == event@.keyword
                &&& *final(self) == (KwsFeed { last_event_ns: now_ns, ..*old(self) })
            },
    {
        if now_ns.saturating_sub(self.last_event_ns) < EVENT_DEBOUNCE_NS {
            return None;
        }
        self.last_event_ns = now_ns;
        Some(KwsMonitorEvent::Keyword(event.keyword))
    }
}

// ----------------------------------------------------------------------- laws

/// Whether a wake word counts.
pub open spec fn counts(feed: KwsFeed, now_ns: u64) -> bool {
    since_event(feed, now_ns) >= EVENT_DEBOUNCE_NS
}

/// Two wake words that count are never closer together than the time in which
/// they are passed over.
pub proof fn law_wake_words_are_apart(feed: KwsFeed, first: u64, second: u64)
    requires
        counts(feed, first),
        counts(KwsFeed { last_event_ns: first, ..feed }, second),
    ensures
        second >= first + EVENT_DEBOUNCE_NS,
{
}

/// Wake words that count are at least 1.2 seconds apart; one that comes sooner, or at
/// a time before the last one, does not count.
pub proof fn law_wake_words_in_a_row_count_once(feed: KwsFeed, now_ns: u64)
    ensures
        counts(feed, now_ns) <==> now_ns >= feed.last_event_ns + 1_200_000_000,
{
}

/// A line that tells of a wake word is kept, unless it is the one that is written at
/// every frame; and nothing else is.
pub proof fn law_wake_words_are_logged(a: Seq<char>, b: Seq<char>)
    ensures
        ({
            let kept = |word: Seq<char>|
                text::contains_text((a + word) + b, "vpm_process line:361"@) || worth_logging(
                    (a + word) + b,
                );
            &&& kept("send pre_wakeup"@)
            &&& kept("send wakeup"@)
            &&& kept("flexkws_version"@)
            &&& kept("decoder: set wakeup"@)
            &&& kept("insight:"@)
        }),
        !worth_logging((a + "vpm_process line:361"@) + b),
        worth_logging(a) ==> text::contains_text(a, "send pre_wakeup"@) || text::contains_text(
            a,
            "send wakeup"@,
        ) || text::contains_text(a, "flexkws_version"@) || text::contains_text(
            a,
            "decoder: set wakeup"@,
        ) || text::contains_text(a, "insight:"@),
{
    let none = Seq::<char>::empty();
    text::law_where_texts_stand((a + "send pre_wakeup"@) + b, "send pre_wakeup"@, none);
    text::law_where_texts_stand((a + "send wakeup"@) + b, "send wakeup"@, none);
    text::law_where_texts_stand((a + "flexkws_version"@) + b, "flexkws_version"@, none);
    text::law_where_texts_stand((a + "decoder: set wakeup"@) + b, "decoder: set wakeup"@, none);
    text::law_where_texts_stand((a + "insight:"@) + b, "insight:"@, none);
    text::law_where_texts_stand((a + "vpm_process line:361"@) + b, "vpm_process line:361"@, none);
}

} // verus!
