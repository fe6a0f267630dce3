//! A probe of the vendor's library: it feeds audio and shows what comes back.
use vstd::prelude::*;
use crate::text;
use crate::vpm;
use crate::vpm::{VpmAudio, Wording};

verus! {

pub const DEFAULT_FRAME_MS: u32 = 8;

pub const DEFAULT_SAMPLE_RATE: u32 = 48_000;

pub const DEFAULT_CHANNELS: u32 = 4;

/// How long the probe feeds audio, and from where.
#[derive(Debug, Clone, Copy, PartialEq, Eq, Structural)]
pub struct ProbeLimits {
    /// Whether audio comes from a file.
    pub from_file: bool,
    /// Whether the file is read again and again.
    pub loop_file: bool,
    /// The seconds to run for; none means no limit.
    pub seconds: u64,
    /// The frames to feed; none means no limit.
    pub max_frames: u64,
    pub keep_running_after_event: bool,
}

/// The name of an event of the library.
pub open spec fn event_name_of(event: i32) -> Seq<char> {
    if event == 0 {
        "WAKEUP_REAL"@
    } else if event == 6 {
        "WAKEUP_SUSPECT"@
    } else if event == 8 {
        "PRE_WAKEUP"@
    } else if event == 14 {
        "XI_WAKEUP"@
    } else if event == 768 {
        "RESTART"@
    } else {
        "OTHER"@
    }
}

/// The name of an event of the library.
pub fn upper_event_name(event: i32) -> (r: &'static str)
    ensures
        r@ == event_name_of(event),
{
    match event {
        0 => "WAKEUP_REAL",
        6 => "WAKEUP_SUSPECT",
        8 => "PRE_WAKEUP",
        14 => "XI_WAKEUP",
        768 => "RESTART",
        _ => "OTHER",
    }
}

/// Whether an event of the library is about a wake word.
pub fn is_kws_event(event: i32) -> (r: bool)
    ensures
        r == (event == 0 || event == 6 || event == 8 || event == 14),
{
    event == 0 || event == 6 || event == 8 || event == 14
}

/// Whether a line of the library's log is shown.
pub open spec fn worth_showing(message: Seq<char>) -> bool {
    &&& !text::contains_text(message, "vpm_process line:361"@)
    &&& {
        ||| text::contains_text(message, "wakeup"@)
        ||| text::contains_text(message, "flexkws"@)
        ||| text::contains_text(message, "vpm_"@)
    }
}

/// Whether a line of the library's log is shown.
pub fn log_wanted(message: &str) -> (r: bool)
    ensures
        r == worth_showing(message@),
{
    if text::contains(message, "vpm_process line:361") {
        return false;
    }
    text::contains(message, "wakeup") || text::contains(message, "flexkws") || text::contains(
        message,
        "vpm_",
    )
}

/// The warning for audio that the library does not expect, where it is such.
pub fn audio_warning(audio: &VpmAudio) -> (r: Option<String>)
    ensures
        r is None <==> audio.channels == DEFAULT_CHANNELS && audio.bits_per_sample == 32
            && audio.sample_rate == DEFAULT_SAMPLE_RATE,
        r matches Some(warning) ==> warning@
            == "warning: firmware flexkws raw_stream is expected to be 48kHz/4ch/S32_LE; current args are "@
            + text::decimal(audio.sample_rate as nat) + "Hz/"@ + text::decimal(
            audio.channels as nat,
        ) + "ch/"@ + text::decimal(audio.bits_per_sample as nat) + "bit"@,
{
    if audio.channels == DEFAULT_CHANNELS && audio.bits_per_sample == 32 && audio.sample_rate
        == DEFAULT_SAMPLE_RATE {
        return None;
    }
    let mut out: String =
        "warning: firmware flexkws raw_stream is expected to be 48kHz/4ch/S32_LE; current args are ".to_owned();
    out.append(text::decimal_text(audio.sample_rate as u64).as_str());
    out.append("Hz/");
    out.append(text::decimal_text(audio.channels as u64).as_str());
    out.append("ch/");
    out.append(text::decimal_text(audio.bits_per_sample as u64).as_str());
    out.append("bit");
    Some(out)
}

/// How many bytes of a packet are shown: at most 24.
pub fn head_len(size: u32) -> (r: usize)
    ensures
        r == if size < 24 {
            size as int
        } else {
            24
        },
{
    if size < 24 {
        size as usize
    } else {
        24
    }
}

/// Bytes in hexadecimal with spaces between them.
pub open spec fn spaced_hex(bytes: Seq<u8>) -> Seq<char>
    decreases bytes.len(),
{
    if bytes.len() == 0 {
        Seq::empty()
    } else if bytes.len() == 1 {
        text::hex_byte(bytes[0])
    } else {
        spaced_hex(bytes.drop_last()) + " "@ + text::hex_byte(bytes.last())
    }
}

/// Writes bytes in hexadecimal with spaces between them.
pub fn show_bytes(bytes: &[u8]) -> (r: String)
    ensures
        r@ == spaced_hex(bytes@),
{
    let mut out = String::new();
    let mut i: usize = 0;
    assert(bytes@.take(0) =~= Seq::empty());
    while i < bytes.len()
        invariant
            i <= bytes@.len(),
            out@ == spaced_hex(bytes@.take(i as int)),
        decreases bytes@.len() - i,
    {
        let ghost seen = bytes@.take(i + 1);
        assert(seen.drop_last() =~= bytes@.take(i as int));
        if i > 0 {
            out.append(" ");
        }
        let one: [u8; 1] = [bytes[i]];
        let digits: String = text::hex_text(one.as_slice());
        proof {
            reveal_with_fuel(text::hex_bytes, 2);
            assert(one@.drop_last() =~= Seq::empty());
            assert(text::hex_bytes(one@) =~= text::hex_byte(bytes@[i as int]));
        }
        out.append(digits.as_str());
        proof {
            if i == 0 {
                assert(out@ =~= text::hex_byte(bytes@[0]));
            }
        }
        i = i + 1;
    }
    assert(bytes@.take(i as int) =~= bytes@);
    out
}

// ------------------------------------------------------------------- the loop

/// The probe while it feeds the library.
#[derive(Debug, Clone, Copy, PartialEq, Eq, Structural)]
pub struct AudioLoop {
    pub limits: ProbeLimits,
    pub frames: u64,
}

/// What follows a frame that could not be read.
#[derive(Debug)]
pub enum ReadFailure {
    /// Open the file again.
    Reopen,
    /// The file is at its end: stop.
    Stop,
    /// Stop with an error; this is what was being read.
    Fail(&'static str),
}

/// What follows a frame that was fed.
#[derive(Debug, Clone, Copy, PartialEq, Eq, Structural)]
pub struct AfterFrame {
    /// Wait for as long as the frame lasts.
    pub pace: bool,
    /// Report how far the probe is.
    pub report: bool,
}

impl AudioLoop {
    /// A probe that has fed nothing.
    pub fn new(limits: ProbeLimits) -> (r: Self)
        ensures
            r == (AudioLoop { limits, frames: 0 }),
    {
        AudioLoop { limits, frames: 0 }
    }

    /// Whether a limit is reached, given the time since the start in nanoseconds.
    pub fn is_over(&self, elapsed_ns: u128) -> (r: bool)
        ensures
            r == ((self.limits.seconds > 0 && elapsed_ns >= self.limits.seconds * 1_000_000_000)
                || (self.limits.max_frames > 0 && self.frames >= self.limits.max_frames)),
    {
        (self.limits.seconds > 0 && elapsed_ns >= self.limits.seconds as u128 * 1_000_000_000) || (
        self.limits.max_frames > 0 && self.frames >= self.limits.max_frames)
    }

    /// A frame could not be read; `at_end` says whether because there was no more.
    pub fn read_failed(&self, at_end: bool) -> (r: ReadFailure)
        ensures
            if self.limits.from_file && at_end {
                if self.limits.loop_file {
                    r is Reopen
                } else {
                    r is Stop
                }
            } else {
                r matches ReadFailure::Fail(source) && source@ == if self.limits.from_file {
                    "raw file"@
                } else {
                    "arecord stdout"@
                }
            },
    {
        if self.limits.from_file && at_end {
            if self.limits.loop_file {
                ReadFailure::Reopen
            } else {
                ReadFailure::Stop
            }
        } else if self.limits.from_file {
            ReadFailure::Fail("raw file")
        } else {
            ReadFailure::Fail("arecord stdout")
        }
    }

    /// When the next frame starts, in milliseconds since the first.
    pub fn start_time_ms(&self, frame_ms: u32) -> (r: Result<u64, String>)
        ensures
            match r {
                Ok(ms) => ms == self.frames * frame_ms,
                Err(e) => self.frames * frame_ms > u64::MAX && e@ == "start_time_ms overflow"@,
            },
    {
        vpm::frame_start_ms(self.frames, frame_ms, Wording::Probe)
    }

    /// A frame was fed.
    pub fn fed(&mut self) -> (r: AfterFrame)
        requires
            old(self).frames < u64::MAX,
        ensures
            *final(self) == (AudioLoop { frames: (old(self).frames + 1) as u64, ..*old(self) }),
            r == (AfterFrame {
                pace: old(self).limits.from_file,
                report: (old(self).frames + 1) % 500 == 0,
            }),
    {
        self.frames = self.frames + 1;
        AfterFrame { pace: self.limits.from_file, report: self.frames % 500 == 0 }
    }

    /// Whether the probe stops behind a frame, when so many events about wake words
    /// have come until then.
    pub fn stops(&self, kws_events: u64) -> (r: bool)
        ensures
            r == (!self.limits.keep_running_after_event && kws_events > 0),
    {
        !self.limits.keep_running_after_event && kws_events > 0
    }
}

// ----------------------------------------------------------------------- laws

/// The events of the library have names; those without one are other events.
pub proof fn law_events_have_names(event: i32)
    ensures
        event_name_of(0) == "WAKEUP_REAL"@,
        event_name_of(6) == "WAKEUP_SUSPECT"@,
        event_name_of(8) == "PRE_WAKEUP"@,
        event_name_of(14) == "XI_WAKEUP"@,
        event_name_of(768) == "RESTART"@,
        event != 0 && event != 6 && event != 8 && event != 14 && event != 768 ==> event_name_of(
            event,
        ) == "OTHER"@,
{
}

/// A line about a wake word or of the library itself is shown, unless it is the one
/// that is written at every frame; and nothing else is.
pub proof fn law_wake_words_are_shown(a: Seq<char>, b: Seq<char>)
    ensures
        ({
            let shown = |word: Seq<char>|
                text::contains_text((a + word) + b, "vpm_process line:361"@) || worth_showing(
                    (a + word) + b,
                );
            &&& shown("wakeup"@)
            &&& shown("flexkws"@)
            &&& shown("vpm_"@)
        }),
        !worth_showing((a + "vpm_process line:361"@) + b),
        worth_showing(a) ==> text::contains_text(a, "wakeup"@) || text::contains_text(
            a,
            "flexkws"@,
        ) || text::contains_text(a, "vpm_"@),
{
    let none = Seq::<char>::empty();
    text::law_where_texts_stand((a + "wakeup"@) + b, "wakeup"@, none);
    text::law_where_texts_stand((a + "flexkws"@) + b, "flexkws"@, none);
    text::law_where_texts_stand((a + "vpm_"@) + b, "vpm_"@, none);
    text::law_where_texts_stand((a + "vpm_process line:361"@) + b, "vpm_process line:361"@, none);
}

/// Bytes are shown with two digits each and a space between two.
pub proof fn law_bytes_are_spaced(bytes: Seq<u8>, last: u8)
    ensures
        spaced_hex(Seq::empty()) == Seq::<char>::empty(),
        spaced_hex(seq![last]) == text::hex_byte(last),
        bytes.len() > 0 ==> spaced_hex(bytes.push(last)) == spaced_hex(bytes) + " "@
            + text::hex_byte(last),
{
    assert(bytes.push(last).drop_last() =~= bytes);
}

} // verus!
