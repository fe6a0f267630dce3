//! The AirPlay receiver: its settings, and playing while the agent is spoken to.
use vstd::prelude::*;
use crate::config::{AirPlayConfig, AirPlayOutputConfig};
use crate::text;

verus! {

/// Whether audio can go where the settings say, or why it cannot.
pub open spec fn output_refusal(output: AirPlayOutputConfig) -> Option<Seq<char>> {
    if output.backend@ != "aplay"@ {
        Some("unsupported airplay.output.backend: "@ + output.backend@)
    } else if output.format@ != "S16_LE"@ {
        Some("unsupported airplay.output.format: "@ + output.format@)
    } else {
        None
    }
}

/// Whether audio can go where the settings say.
pub fn validate_output_config(output: &AirPlayOutputConfig) -> (r: Result<(), String>)
    ensures
        match output_refusal(*output) {
            Some(reason) => r matches Err(e) && e@ == reason,
            None => r is Ok,
        },
{
    if !text::same_text(output.backend.as_str(), "aplay") {
        let mut out: String = "unsupported airplay.output.backend: ".to_owned();
        out.append(output.backend.as_str());
        return Err(out);
    }
    if !text::same_text(output.format.as_str(), "S16_LE") {
        let mut out: String = "unsupported airplay.output.format: ".to_owned();
        out.append(output.format.as_str());
        return Err(out);
    }
    Ok(())
}

/// The value of a hexadecimal digit.
pub open spec fn hex_value(c: char) -> Option<int> {
    if '0' <= c && c <= '9' {
        Some(c as int - 48)
    } else if 'a' <= c && c <= 'f' {
        Some(c as int - 87)
    } else if 'A' <= c && c <= 'F' {
        Some(c as int - 55)
    } else {
        None
    }
}

/// The values of the hexadecimal digits in a text; other characters are passed
/// over.
pub open spec fn hex_values(s: Seq<char>) -> Seq<int>
    decreases s.len(),
{
    if s.len() == 0 {
        Seq::empty()
    } else {
        let before = hex_values(s.drop_last());
        match hex_value(s.last()) {
            Some(v) => before.push(v),
            None => before,
        }
    }
}

/// The bytes that pairs of hexadecimal digits spell.
pub open spec fn paired(values: Seq<int>) -> Seq<u8> {
    Seq::new(values.len() / 2, |i: int| (values[2 * i] * 16 + values[2 * i + 1]) as u8)
}

pub(crate) fn digit_value(c: char) -> (r: Option<u8>)
    ensures
        match hex_value(c) {
            Some(v) => r matches Some(x) && x == v && x < 16,
            None => r is None,
        },
{
    if '0' <= c && c <= '9' {
        Some(c as u8 - 48)
    } else if 'a' <= c && c <= 'f' {
        Some(c as u8 - 87)
    } else if 'A' <= c && c <= 'F' {
        Some(c as u8 - 55)
    } else {
        None
    }
}

/// Reads a hardware address: twelve hexadecimal digits, with anything between
/// them.
pub fn parse_hwaddr(raw: &str) -> (r: Result<Vec<u8>, String>)
    ensures
        if hex_values(raw@).len() == 12 {
            r matches Ok(out) && out@ == paired(hex_values(raw@))
        } else {
            r matches Err(e) && e@ == "airplay.hwaddr must contain 6 bytes"@
        },
{
    let chars: Vec<char> = text::chars_of(raw);
    let mut values: Vec<u8> = Vec::new();
    let mut i: usize = 0;
    assert(raw@.take(0) =~= Seq::empty());
    while i < chars.len()
        invariant
            i <= chars@.len(),
            chars@ == raw@,
            values@.len() == hex_values(raw@.take(i as int)).len(),
            forall|j: int|
                0 <= j < values@.len() ==> (#[trigger] values@[j]) < 16 && values@[j] == hex_values(
                    raw@.take(i as int),
                )[j],
        decreases chars@.len() - i,
    {
        assert(raw@.take(i + 1).drop_last() =~= raw@.take(i as int));
        assert(raw@.take(i + 1).last() == raw@[i as int]);
        if let Some(v) = digit_value(chars[i]) {
            values.push(v);
        }
        i = i + 1;
    }
    assert(raw@.take(i as int) =~= raw@);
    if values.len() != 12 {
        return Err("airplay.hwaddr must contain 6 bytes".to_owned());
    }
    let mut out: Vec<u8> = Vec::new();
    let mut k: usize = 0;
    while k < 6
        invariant
            k <= 6,
            values@.len() == 12,
            hex_values(raw@).len() == 12,
            forall|j: int|
                0 <= j < 12 ==> (#[trigger] values@[j]) < 16 && values@[j] == hex_values(raw@)[j],
            out@.len() == k,
            forall|j: int| 0 <= j < k ==> out@[j] == paired(hex_values(raw@))[j],
        decreases 6 - k,
    {
        let high: u8 = values[2 * k];
        let low: u8 = values[2 * k + 1];
        assert(values@[2 * k as int] < 16 && values@[2 * k + 1] < 16);
        out.push(high * 16 + low);
        k = k + 1;
    }
    assert(out@ =~= paired(hex_values(raw@)));
    Ok(out)
}

/// What the receiver is built with, beside its name and port.
#[derive(Debug)]
pub struct ReceiverSettings {
    /// The password, where one is asked for.
    pub password: Option<String>,
    /// The hardware address, where one is given.
    pub hwaddr: Option<Vec<u8>>,
}

/// What the receiver is built with, or why it cannot be.
pub fn receiver_settings(config: &AirPlayConfig) -> (r: Result<ReceiverSettings, String>)
    ensures
        match output_refusal(config.output) {
            Some(reason) => r matches Err(e) && e@ == reason,
            None => {
                let given = !text::is_blank(config.hwaddr@);
                let values = hex_values(config.hwaddr@);
                if given && values.len() != 12 {
                    r matches Err(e) && e@ == "airplay.hwaddr must contain 6 bytes"@
                } else {
                    r matches Ok(s) && {
                        &&& if text::is_blank(config.password@) {
                            s.password is None
                        } else {
                            s.password matches Some(p) && p@ == config.password@
                        }
                        &&& if given {
                            s.hwaddr matches Some(a) && a@ == paired(values)
                        } else {
                            s.hwaddr is None
                        }
                    }
                }
            },
        },
{
    match validate_output_config(&config.output) {
        Err(e) => {
            return Err(e);
        },
        Ok(()) => {},
    }
    let password: Option<String> = if text::blank(config.password.as_str()) {
        None
    } else {
        Some(config.password.clone())
    };
    let hwaddr: Option<Vec<u8>> = if text::blank(config.hwaddr.as_str()) {
        None
    } else {
        match parse_hwaddr(config.hwaddr.as_str()) {
            Ok(bytes) => Some(bytes),
            Err(e) => {
                return Err(e);
            },
        }
    };
    Ok(ReceiverSettings { password, hwaddr })
}

/// The number of channels that a stream is played with: at least one.
pub open spec fn played_channels(channels: u8) -> nat {
    if channels < 1 {
        1
    } else {
        channels as nat
    }
}

/// The arguments of the program that plays a stream.
pub open spec fn aplay_args_of(output: AirPlayOutputConfig, channels: u8, rate: u32) -> Seq<
    Seq<char>,
> {
    seq![
        "-q"@,
        "-D"@,
        output.device@,
        "-t"@,
        "raw"@,
        "-f"@,
        output.format@,
        "-c"@,
        text::decimal(played_channels(channels)),
        "-r"@,
        text::decimal(rate as nat),
    ]
}

/// The arguments of the program that plays a stream.
pub fn aplay_args(output: &AirPlayOutputConfig, channels: u8, sample_rate: u32) -> (r: Vec<String>)
    ensures
        text::texts(r@) == aplay_args_of(*output, channels, sample_rate),
{
    let played: u64 = if channels < 1 {
        1
    } else {
        channels as u64
    };
    let mut out: Vec<String> = Vec::new();
    out.push("-q".to_owned());
    out.push("-D".to_owned());
    out.push(output.device.clone());
    out.push("-t".to_owned());
    out.push("raw".to_owned());
    out.push("-f".to_owned());
    out.push(output.format.clone());
    out.push("-c".to_owned());
    out.push(text::decimal_text(played));
    out.push("-r".to_owned());
    out.push(text::decimal_text(sample_rate as u64));
    assert(text::texts(out@) =~= aplay_args_of(*output, channels, sample_rate));
    out
}

// -------------------------------------------------------------------- playing

/// What the receiver is doing.
#[derive(Debug)]
pub struct PlaybackState {
    pub ducked: bool,
    pub active_sessions: usize,
    pub interruption_mode: String,
}

/// What the receiver is doing, as a mathematical value.
pub struct Playback {
    pub ducked: bool,
    pub active_sessions: usize,
    pub interruption_mode: Seq<char>,
}

impl View for PlaybackState {
    type V = Playback;

    open spec fn view(&self) -> Playback {
        Playback {
            ducked: self.ducked,
            active_sessions: self.active_sessions,
            interruption_mode: self.interruption_mode@,
        }
    }
}

/// The next number, zero behind the largest.
pub open spec fn counted_up(n: usize) -> usize {
    if n == usize::MAX {
        0
    } else {
        (n + 1) as usize
    }
}

/// The number before, the largest before zero.
pub open spec fn counted_down(n: usize) -> usize {
    if n == 0 {
        usize::MAX
    } else {
        (n - 1) as usize
    }
}

/// Whether the receiver plays more quietly while the agent is spoken to.
pub open spec fn ducks(mode: Seq<char>) -> bool {
    mode == "duck"@ || mode == "lower_volume"@ || mode == "volume"@
}

impl PlaybackState {
    /// A receiver that plays nothing.
    pub fn new(interruption_mode: String) -> (r: Self)
        ensures
            r@ == (Playback {
                ducked: false,
                active_sessions: 0,
                interruption_mode: interruption_mode@,
            }),
    {
        PlaybackState { ducked: false, active_sessions: 0, interruption_mode }
    }

    /// Plays more quietly, or no longer does. Says whether that is a change.
    pub fn set_ducked(&mut self, ducked: bool) -> (changed: bool)
        ensures
            final(self)@ == (Playback { ducked, ..old(self)@ }),
            changed == (old(self)@.ducked != ducked),
    {
        let changed: bool = self.ducked != ducked;
        self.ducked = ducked;
        changed
    }

    /// A stream has begun.
    pub fn session_started(&mut self)
        ensures
            final(self)@ == (Playback {
                active_sessions: counted_up(old(self)@.active_sessions),
                ..old(self)@
            }),
    {
        if self.active_sessions == usize::MAX {
            self.active_sessions = 0;
        } else {
            self.active_sessions = self.active_sessions + 1;
        }
    }

    /// A stream has ended.
    pub fn session_ended(&mut self)
        ensures
            final(self)@ == (Playback {
                active_sessions: counted_down(old(self)@.active_sessions),
                ..old(self)@
            }),
    {
        if self.active_sessions == 0 {
            self.active_sessions = usize::MAX;
        } else {
            self.active_sessions = self.active_sessions - 1;
        }
    }

    /// Whether a stream plays.
    pub fn is_active(&self) -> (r: bool)
        ensures
            r == (self@.active_sessions > 0),
    {
        self.active_sessions > 0
    }
}

/// The receiver, as the agent sees it.
#[derive(Debug)]
pub struct AirPlayService {
    pub state: PlaybackState,
}

impl AirPlayService {
    /// A receiver that plays nothing.
    pub fn new(config: &AirPlayConfig) -> (r: Self)
        ensures
            r.state@ == (Playback {
                ducked: false,
                active_sessions: 0,
                interruption_mode: config.interruption_mode@,
            }),
    {
        AirPlayService { state: PlaybackState::new(config.interruption_mode.clone()) }
    }

    /// The agent is about to be spoken to. Says whether a stream plays more
    /// quietly now.
    pub fn interrupt_for_wake(&mut self) -> (r: bool)
        ensures
            r == (old(self).state@.active_sessions > 0 && ducks(
                old(self).state@.interruption_mode,
            )),
            final(self).state@ == (Playback {
                ducked: old(self).state@.ducked || r,
                ..old(self).state@
            }),
    {
        if !self.state.is_active() {
            return false;
        }
        let mode: &str = self.state.interruption_mode.as_str();
        if text::same_text(mode, "duck") || text::same_text(mode, "lower_volume")
            || text::same_text(mode, "volume") {
            let _changed: bool = self.state.set_ducked(true);
            true
        } else {
            false
        }
    }

    /// The agent is no longer spoken to.
    pub fn restore_after_interruption(&mut self)
        ensures
            final(self).state@ == (Playback { ducked: false, ..old(self).state@ }),
    {
        let _changed: bool = self.state.set_ducked(false);
    }
}

// ----------------------------------------------------------------------- laws

/// A hardware address has six bytes.
pub proof fn law_address_has_six_bytes(raw: Seq<char>)
    requires
        hex_values(raw).len() == 12,
    ensures
        paired(hex_values(raw)).len() == 6,
{
}

/// The end of a stream undoes its beginning.
pub proof fn law_sessions_balance(n: usize)
    ensures
        counted_down(counted_up(n)) == n,
        counted_up(counted_down(n)) == n,
{
}

/// The digits of a text are those of its parts together; anything that is no digit
/// does not matter, and a letter counts the same in either case.
pub proof fn law_digits_between_anything(a: Seq<char>, c: char, b: Seq<char>)
    ensures
        hex_values(a + b) == hex_values(a) + hex_values(b),
        hex_value(c) is None ==> hex_values(a.push(c) + b) == hex_values(a + b),
        'A' <= c && c <= 'F' ==> hex_value(c) == hex_value(text::lower_char(c)),
        hex_value(c) is None <==> !('0' <= c && c <= '9') && !('a' <= c && c <= 'f') && !('A' <= c
            && c <= 'F'),
    decreases b.len(),
{
    if b.len() == 0 {
        assert(a + b =~= a);
        assert(hex_values(a) + hex_values(b) =~= hex_values(a));
        assert(a.push(c) + b =~= a.push(c));
        assert(a.push(c).drop_last() =~= a);
    } else {
        law_digits_between_anything(a, c, b.drop_last());
        assert((a + b).drop_last() =~= a + b.drop_last());
        assert((a + b).last() == b.last());
        assert((a.push(c) + b).drop_last() =~= a.push(c) + b.drop_last());
        assert((a.push(c) + b).last() == b.last());
        if let Some(v) = hex_value(b.last()) {
            assert((hex_values(a) + hex_values(b.drop_last())).push(v) =~= hex_values(a)
                + hex_values(b));
        }
    }
}

/// An address that is written byte by byte, high digit first, is read as those bytes.
pub proof fn law_addresses_are_read_back(bytes: Seq<u8>)
    ensures
        hex_values(text::hex_bytes(bytes)).len() == 2 * bytes.len(),
        paired(hex_values(text::hex_bytes(bytes))) == bytes,
    decreases bytes.len(),
{
    if bytes.len() == 0 {
        assert(paired(hex_values(text::hex_bytes(bytes))) =~= bytes);
    } else {
        let front = bytes.drop_last();
        let b = bytes.last();
        law_addresses_are_read_back(front);
        law_digits_between_anything(text::hex_bytes(front), ':', text::hex_byte(b));
        let two = text::hex_byte(b);
        reveal_with_fuel(hex_values, 3);
        assert(two.drop_last() =~= seq![two[0]]);
        assert(two.drop_last().drop_last() =~= Seq::empty());
        assert(hex_values(two) =~= seq![(b / 16) as int, (b % 16) as int]);
        let before = hex_values(text::hex_bytes(front));
        let all = hex_values(text::hex_bytes(bytes));
        assert(all =~= before + seq![(b / 16) as int, (b % 16) as int]);
        assert forall|i: int| 0 <= i < bytes.len() implies paired(all)[i] == bytes[i] by {
            if i < front.len() {
                assert(paired(all)[i] == paired(before)[i]);
                assert(paired(before)[i] == front[i]);
            }
        }
        assert(paired(all) =~= bytes);
    }
}

/// Only the one program is played with, and only the one format; what else is set is
/// refused by name, the program first.
pub proof fn law_other_outputs_are_refused(output: AirPlayOutputConfig)
    ensures
        output_refusal(output) is None <==> output.backend@ == "aplay"@ && output.format@
            == "S16_LE"@,
        output.backend@ != "aplay"@ ==> output_refusal(output) == Some(
            "unsupported airplay.output.backend: "@ + output.backend@,
        ),
        output.backend@ == "aplay"@ && output.format@ != "S16_LE"@ ==> output_refusal(output)
            == Some("unsupported airplay.output.format: "@ + output.format@),
{
}

/// The program that plays is told the device, that the stream is raw, and its format,
/// channels and rate; a stream without channels is played as one.
pub proof fn law_players_are_told_the_stream(output: AirPlayOutputConfig, channels: u8, rate: u32)
    ensures
        aplay_args_of(output, channels, rate) == seq![
            "-q"@,
            "-D"@,
            output.device@,
            "-t"@,
            "raw"@,
            "-f"@,
            output.format@,
            "-c"@,
            text::decimal(
                if channels == 0 {
                    1
                } else {
                    channels as nat
                },
            ),
            "-r"@,
            text::decimal(rate as nat),
        ],
{
}

/// Which settings make the receiver play more quietly; any other leaves it as it is.
pub proof fn law_quieter_modes(mode: Seq<char>)
    ensures
        ducks(mode) <==> mode == "duck"@ || mode == "lower_volume"@ || mode == "volume"@,
{
}

} // verus!
