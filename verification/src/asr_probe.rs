//! A probe that stands in for the speech service: it answers the wake-word front
//! end and writes down every packet that it is sent.
use vstd::prelude::*;
use crate::native;
use crate::native::ProcessEntry;
use crate::paths;
use crate::speech;
use crate::speech::{DecodeError, UpEvent, UpMessage};
use crate::text;
use crate::wire;
use crate::wire::{Field, Strictness, WireError, WireField};

verus! {

pub const DEFAULT_SOCKET: &'static str = "/tmp/mico_aivs_lab/usock/speech.usock";

pub const DEFAULT_OUTPUT_DIR: &'static str = "/tmp/xiaoai_asr_probe";

pub const INTERACT_NONCONTINUOUS: u64 = 0;

// ------------------------------------------------------------------ arguments

/// How the probe runs. A timeout is in milliseconds.
#[derive(Debug)]
pub struct Args {
    pub socket: String,
    pub output_dir: String,
    pub replace: bool,
    pub dump: bool,
    pub reply: bool,
    pub auto_finish: bool,
    pub timeout_ms: Option<u64>,
}

/// How the probe runs, as a mathematical value.
pub struct Options {
    pub socket: Seq<char>,
    pub output_dir: Seq<char>,
    pub replace: bool,
    pub dump: bool,
    pub reply: bool,
    pub auto_finish: bool,
    pub timeout_ms: Option<u64>,
}

impl View for Args {
    type V = Options;

    open spec fn view(&self) -> Options {
        Options {
            socket: self.socket@,
            output_dir: self.output_dir@,
            replace: self.replace,
            dump: self.dump,
            reply: self.reply,
            auto_finish: self.auto_finish,
            timeout_ms: self.timeout_ms,
        }
    }
}

/// How the probe runs when nothing is asked for.
pub open spec fn default_options() -> Options {
    Options {
        socket: DEFAULT_SOCKET@,
        output_dir: DEFAULT_OUTPUT_DIR@,
        replace: false,
        dump: false,
        reply: true,
        auto_finish: true,
        timeout_ms: None,
    }
}

impl Default for Args {
    fn default() -> (r: Self)
        ensures
            r@ == default_options(),
    {
        Args {
            socket: DEFAULT_SOCKET.to_owned(),
            output_dir: DEFAULT_OUTPUT_DIR.to_owned(),
            replace: false,
            dump: false,
            reply: true,
            auto_finish: true,
            timeout_ms: None,
        }
    }
}

/// What a command line asks for.
#[derive(Debug)]
pub enum Request {
    Help,
    Run(Args),
}

/// What a command line asks for, as a mathematical value.
pub enum Asked {
    Help,
    Run(Options),
    Refused(Seq<char>),
}

/// The value of the option `name` at position `i`.
pub open spec fn value_at(args: Seq<Seq<char>>, i: int, name: Seq<char>) -> Result<
    Seq<char>,
    Seq<char>,
> {
    if 0 <= i < args.len() {
        Ok(args[i])
    } else {
        Err("missing value for "@ + name)
    }
}

/// The number given for the option `name` at position `i`.
pub open spec fn number_at(args: Seq<Seq<char>>, i: int, name: Seq<char>) -> Result<
    u64,
    Seq<char>,
> {
    match value_at(args, i, name) {
        Err(e) => Err(e),
        Ok(value) => match text::unsigned_value(value) {
            Some(n) if n <= u64::MAX => Ok(n as u64),
            _ => Err("invalid "@ + name + ": "@ + text::u64_parse_error(value)),
        },
    }
}

/// What the arguments from position `i` on ask for, on top of `options`.
pub open spec fn asked_from(args: Seq<Seq<char>>, i: int, options: Options) -> Asked
    decreases args.len() - i,
{
    if i < 0 || i >= args.len() {
        Asked::Run(options)
    } else {
        let arg = args[i];
        if arg == "--help"@ || arg == "-h"@ {
            Asked::Help
        } else if arg == "--socket"@ {
            match value_at(args, i + 1, arg) {
                Ok(value) => asked_from(args, i + 2, Options { socket: value, ..options }),
                Err(e) => Asked::Refused(e),
            }
        } else if arg == "--output-dir"@ {
            match value_at(args, i + 1, arg) {
                Ok(value) => asked_from(args, i + 2, Options { output_dir: value, ..options }),
                Err(e) => Asked::Refused(e),
            }
        } else if arg == "--replace"@ {
            asked_from(args, i + 1, Options { replace: true, ..options })
        } else if arg == "--dump"@ {
            asked_from(args, i + 1, Options { dump: true, ..options })
        } else if arg == "--no-reply"@ {
            asked_from(args, i + 1, Options { reply: false, ..options })
        } else if arg == "--no-auto-finish"@ {
            asked_from(args, i + 1, Options { auto_finish: false, ..options })
        } else if arg == "--timeout-ms"@ {
            match number_at(args, i + 1, arg) {
                Ok(millis) => asked_from(
                    args,
                    i + 2,
                    Options {
                        timeout_ms: if millis != 0 {
                            Some(millis)
                        } else {
                            None
                        },
                        ..options
                    },
                ),
                Err(e) => Asked::Refused(e),
            }
        } else {
            Asked::Refused(
                "unknown argument "@ + text::debug_quoted(arg) + "; use --help"@,
            )
        }
    }
}

/// The value of the option `name` at position `at`.
pub fn next_arg(args: &Vec<String>, at: usize, name: &str) -> (r: Result<String, String>)
    ensures
        match value_at(text::texts(args@), at as int, name@) {
            Ok(value) => r matches Ok(v) && v@ == value,
            Err(e) => r matches Err(x) && x@ == e,
        },
{
    if at < args.len() {
        Ok(args[at].clone())
    } else {
        let mut out: String = "missing value for ".to_owned();
        out.append(name);
        Err(out)
    }
}

/// The number given for the option `name` at position `at`.
pub fn parse_u64(args: &Vec<String>, at: usize, name: &str) -> (r: Result<u64, String>)
    ensures
        match number_at(text::texts(args@), at as int, name@) {
            Ok(value) => r matches Ok(v) && v == value,
            Err(e) => r matches Err(x) && x@ == e,
        },
{
    match next_arg(args, at, name) {
        Ok(value) => match text::parse_u64(value.as_str()) {
            Ok(n) => Ok(n),
            Err(e) => {
                let mut out: String = "invalid ".to_owned();
                out.append(name);
                out.append(": ");
                out.append(e.as_str());
                Err(out)
            },
        },
        Err(e) => Err(e),
    }
}

/// Reads a command line, without the program's name.
pub fn parse_args(args: &Vec<String>) -> (r: Result<Request, String>)
    ensures
        match asked_from(text::texts(args@), 0, default_options()) {
            Asked::Help => r matches Ok(Request::Help),
            Asked::Run(options) => r matches Ok(Request::Run(a)) && a@ == options,
            Asked::Refused(e) => r matches Err(x) && x@ == e,
        },
{
    let mut out: Args = Args::default();
    let ghost all = text::texts(args@);
    let n: usize = args.len();
    let mut i: usize = 0;
    while i < n
        invariant
            n == args@.len(),
            all == text::texts(args@),
            i <= n,
            asked_from(all, 0, default_options()) == asked_from(all, i as int, out@),
        decreases n - i,
    {
        let arg: &str = args[i].as_str();
        assert(all[i as int] == arg@);
        let mut used: usize = 1;
        if text::same_text(arg, "--help") || text::same_text(arg, "-h") {
            return Ok(Request::Help);
        } else if text::same_text(arg, "--socket") {
            match next_arg(args, i + 1, "--socket") {
                Ok(value) => {
                    out.socket = value;
                },
                Err(e) => {
                    return Err(e);
                },
            }
            used = 2;
        } else if text::same_text(arg, "--output-dir") {
            match next_arg(args, i + 1, "--output-dir") {
                Ok(value) => {
                    out.output_dir = value;
                },
                Err(e) => {
                    return Err(e);
                },
            }
            used = 2;
        } else if text::same_text(arg, "--replace") {
            out.replace = true;
        } else if text::same_text(arg, "--dump") {
            out.dump = true;
        } else if text::same_text(arg, "--no-reply") {
            out.reply = false;
        } else if text::same_text(arg, "--no-auto-finish") {
            out.auto_finish = false;
        } else if text::same_text(arg, "--timeout-ms") {
            match parse_u64(args, i + 1, "--timeout-ms") {
                Ok(millis) => {
                    out.timeout_ms = if millis != 0 {
                        Some(millis)
                    } else {
                        None
                    };
                },
                Err(e) => {
                    return Err(e);
                },
            }
            used = 2;
        } else {
            let mut message: String = "unknown argument ".to_owned();
            message.append(text::quote_debug(arg).as_str());
            message.append("; use --help");
            return Err(message);
        }
        i = i + used;
    }
    Ok(Request::Run(out))
}

// ------------------------------------------------------------------- start-up

/// Whether `pids` are the processes of the vendor's service, in ascending order.
pub open spec fn native_pids(entries: Seq<ProcessEntry>, pids: Seq<u64>) -> bool {
    &&& crate::sorting::ascending(pids)
    &&& pids.to_multiset() == native::processes_named(
        entries,
        native::NATIVE_PROCESS@,
    ).to_multiset()
}

/// The numbers of the processes whose executable has the file name, in ascending
/// order.
pub fn process_ids_named(entries: &Vec<ProcessEntry>, name: &str) -> (r: Vec<u64>)
    ensures
        crate::sorting::ascending(r@),
        r@.to_multiset() == native::processes_named(entries@, name@).to_multiset(),
{
    let found: Vec<u64> = native::pids_named(entries, name);
    crate::sorting::sort_ascending(&found)
}

/// Refuses to take the default socket while the vendor's service runs.
pub fn ensure_native_aivs_stopped(socket: &str, entries: &Vec<ProcessEntry>) -> (r: Result<
    (),
    String,
>)
    ensures
        r is Err <==> paths::same_path(socket@, DEFAULT_SOCKET@) && native::processes_named(
            entries@,
            native::NATIVE_PROCESS@,
        ).len() > 0,
        r matches Err(e) ==> exists|pids: Seq<u64>|
            native_pids(entries@, pids) && e@ == #[trigger] still_running(pids, socket@),
{
    if !paths::are_same(socket, DEFAULT_SOCKET) {
        return Ok(());
    }
    let pids: Vec<u64> = process_ids_named(entries, native::NATIVE_PROCESS);
    proof {
        let found = native::processes_named(entries@, native::NATIVE_PROCESS@);
        pids@.to_multiset_ensures();
        found.to_multiset_ensures();
    }
    if pids.len() > 0 {
        let mut out: String = "mico_aivs_lab is still running (PID ".to_owned();
        out.append(native::join_pids(&pids).as_str());
        out.append("); stop it before binding ");
        out.append(socket);
        assert(native_pids(entries@, pids@) && out@ == still_running(pids@, socket@));
        return Err(out);
    }
    Ok(())
}

/// The message for a vendor's service that still runs.
pub open spec fn still_running(pids: Seq<u64>, socket: Seq<char>) -> Seq<char> {
    "mico_aivs_lab is still running (PID "@ + native::comma_list(pids)
        + "); stop it before binding "@ + socket
}

/// Whether an existing socket is to be removed: an error without leave to
/// replace it.
pub fn socket_plan(path: &str, exists_already: bool, replace: bool) -> (r: Result<bool, String>)
    ensures
        match r {
            Ok(remove) => remove == exists_already && (exists_already ==> replace),
            Err(e) => exists_already && !replace && e@ == path@
                + " already exists; stop mico_aivs_lab and pass --replace"@,
        },
{
    if exists_already && !replace {
        let mut out: String = path.to_owned();
        out.append(" already exists; stop mico_aivs_lab and pass --replace");
        return Err(out);
    }
    Ok(exists_already)
}

/// The name of the directory of a run.
pub fn run_dir_name(timestamp: u64, process_id: u32) -> (r: String)
    ensures
        r@ == "run-"@ + text::decimal(timestamp as nat) + "-"@ + text::decimal(process_id as nat),
{
    let mut out: String = "run-".to_owned();
    out.append(text::decimal_text(timestamp).as_str());
    out.append("-");
    out.append(text::decimal_text(process_id as u64).as_str());
    out
}

/// What the probe does next.
#[derive(Debug, Clone, Copy, PartialEq, Eq, Structural)]
pub enum Tick {
    Stop,
    CheckThenReceive,
    Receive,
}

/// What the probe does next, given the time since it started and since it last
/// looked for the vendor's service, in nanoseconds.
pub fn next_tick(args: &Args, elapsed_ns: u128, since_check_ns: u128) -> (r: Tick)
    ensures
        r == if args.timeout_ms is Some && elapsed_ns >= args.timeout_ms->0 * 1_000_000 {
            Tick::Stop
        } else if since_check_ns >= 1_000_000_000 {
            Tick::CheckThenReceive
        } else {
            Tick::Receive
        },
{
    if let Some(timeout) = args.timeout_ms {
        if elapsed_ns >= timeout as u128 * 1_000_000 {
            return Tick::Stop;
        }
    }
    if since_check_ns >= 1_000_000_000 {
        Tick::CheckThenReceive
    } else {
        Tick::Receive
    }
}

// ---------------------------------------------------------------------- names

/// A known name, or `unknown` with the number.
pub open spec fn unknown_name(value: u64) -> Seq<char> {
    "unknown("@ + text::decimal(value as nat) + ")"@
}

fn name_unknown(value: u64) -> (r: String)
    ensures
        r@ == unknown_name(value),
{
    let mut out: String = "unknown(".to_owned();
    out.append(text::decimal_text(value).as_str());
    out.append(")");
    out
}

/// How an activation mode is shown.
pub open spec fn activate_text(value: u64) -> Seq<char> {
    if value == 0 {
        "wakeup(0)"@
    } else if value == 1 {
        "nonwakeup(1)"@
    } else {
        unknown_name(value)
    }
}

/// Shows an activation mode.
pub fn activate_name(value: u64) -> (r: String)
    ensures
        r@ == activate_text(value),
{
    match value {
        0 => "wakeup(0)".to_owned(),
        1 => "nonwakeup(1)".to_owned(),
        other => name_unknown(other),
    }
}

/// How an interaction mode is shown.
pub open spec fn interact_text(value: u64) -> Seq<char> {
    if value == 0 {
        "noncontinuous(0)"@
    } else if value == 1 {
        "continuous(1)"@
    } else {
        unknown_name(value)
    }
}

/// Shows an interaction mode.
pub fn interact_name(value: u64) -> (r: String)
    ensures
        r@ == interact_text(value),
{
    match value {
        0 => "noncontinuous(0)".to_owned(),
        1 => "continuous(1)".to_owned(),
        other => name_unknown(other),
    }
}

/// How a stream type is shown.
pub open spec fn stream_text(value: u64) -> Seq<char> {
    if value == 0 {
        "wakeup(0)"@
    } else if value == 1 {
        "wakeup_end(1)"@
    } else if value == 2 {
        "asr(2)"@
    } else {
        unknown_name(value)
    }
}

/// Shows a stream type.
pub fn stream_name(value: u64) -> (r: String)
    ensures
        r@ == stream_text(value),
{
    match value {
        0 => "wakeup(0)".to_owned(),
        1 => "wakeup_end(1)".to_owned(),
        2 => "asr(2)".to_owned(),
        other => name_unknown(other),
    }
}

// -------------------------------------------------------------------- reading

/// Reads the fields of a message, leniently.
pub fn parse_fields(buf: &[u8]) -> (r: Result<Vec<Field>, WireError>)
    ensures
        match wire::read_fields(buf@, Strictness::Lenient) {
            Ok(fields) => r matches Ok(out) && wire::wire_fields(out@) == fields,
            Err(e) => r matches Err(x) && x == e,
        },
{
    wire::parse_fields_with(buf, Strictness::Lenient)
}

/// Reads a datagram as an upward message, leniently.
pub fn decode_speech_upward(buf: &[u8]) -> (r: Result<Option<UpEvent>, DecodeError>)
    ensures
        match speech::upward_message(buf@, Strictness::Lenient) {
            Ok(None) => r matches Ok(None),
            Ok(Some(message)) => r matches Ok(Some(event)) && event@ == message,
            Err(e) => r matches Err(x) && x == e,
        },
{
    speech::decode_upward_with(buf, Strictness::Lenient)
}

// -------------------------------------------------------------------- session

/// How much a stream has carried.
#[derive(Debug, Clone, Copy, PartialEq, Eq, Structural)]
pub struct StreamStats {
    pub chunks: u64,
    pub bytes: u64,
}

/// The streams whose packets are written down.
#[derive(Debug, Clone, Copy, PartialEq, Eq, Structural)]
pub enum Stream {
    Wakeup,
    WakeupEnd,
    Asr,
    Unknown,
}

/// The stream that a number on the wire stands for.
pub open spec fn stream_of(stream_type: u64) -> Stream {
    if stream_type == speech::STREAM_WAKEUP {
        Stream::Wakeup
    } else if stream_type == speech::STREAM_WAKEUP_END {
        Stream::WakeupEnd
    } else if stream_type == speech::STREAM_ASR {
        Stream::Asr
    } else {
        Stream::Unknown
    }
}

impl Stream {
    fn from_wire(stream_type: u64) -> (r: Self)
        ensures
            r == stream_of(stream_type),
    {
        if stream_type == speech::STREAM_WAKEUP {
            Stream::Wakeup
        } else if stream_type == speech::STREAM_WAKEUP_END {
            Stream::WakeupEnd
        } else if stream_type == speech::STREAM_ASR {
            Stream::Asr
        } else {
            Stream::Unknown
        }
    }
}

/// The part of a packet file's name that says which stream it holds.
pub open spec fn stream_file(stream: Stream) -> Seq<char> {
    match stream {
        Stream::Wakeup => "wakeup"@,
        Stream::WakeupEnd => "wakeup-end"@,
        Stream::Asr => "asr"@,
        Stream::Unknown => "unknown"@,
    }
}

/// A number in decimal with zeros in front up to four digits.
pub open spec fn padded(n: nat) -> Seq<char> {
    (if n < 10 {
        "000"@
    } else if n < 100 {
        "00"@
    } else if n < 1000 {
        "0"@
    } else {
        ""@
    }) + text::decimal(n)
}

/// The name of the file that holds the packets of a stream.
pub open spec fn packet_file(id: u64, stream: Stream) -> Seq<char> {
    "session-"@ + padded(id as nat) + "-"@ + stream_file(stream) + ".packets"@
}

/// Names the file that holds the packets of a stream.
pub fn packet_file_name(id: u64, stream: Stream) -> (r: String)
    ensures
        r@ == packet_file(id, stream),
{
    let mut out: String = "session-".to_owned();
    let zeros: &str = if id < 10 {
        "000"
    } else if id < 100 {
        "00"
    } else if id < 1000 {
        "0"
    } else {
        ""
    };
    let mut number: String = zeros.to_owned();
    number.append(text::decimal_text(id).as_str());
    out.append(number.as_str());
    out.append("-");
    let name: &str = match stream {
        Stream::Wakeup => "wakeup",
        Stream::WakeupEnd => "wakeup-end",
        Stream::Asr => "asr",
        Stream::Unknown => "unknown",
    };
    out.append(name);
    out.append(".packets");
    out
}

/// A session: the packets between the opening of a stream and its end. A stream
/// that carried nothing has no file.
#[derive(Debug, Clone, Copy, PartialEq, Eq, Structural)]
pub struct Session {
    pub id: u64,
    pub wakeup: StreamStats,
    pub wakeup_end: StreamStats,
    pub asr: StreamStats,
    pub unknown: StreamStats,
    pub wakeup_open: bool,
    pub wakeup_end_open: bool,
    pub asr_open: bool,
    pub unknown_open: bool,
}

/// A session that has carried nothing.
pub open spec fn empty_session(id: u64) -> Session {
    let none = StreamStats { chunks: 0, bytes: 0 };
    Session {
        id,
        wakeup: none,
        wakeup_end: none,
        asr: none,
        unknown: none,
        wakeup_open: false,
        wakeup_end_open: false,
        asr_open: false,
        unknown_open: false,
    }
}

impl Session {
    /// A session that has carried nothing.
    pub fn new(id: u64) -> (r: Self)
        ensures
            r == empty_session(id),
    {
        let none = StreamStats { chunks: 0, bytes: 0 };
        Session {
            id,
            wakeup: none,
            wakeup_end: none,
            asr: none,
            unknown: none,
            wakeup_open: false,
            wakeup_end_open: false,
            asr_open: false,
            unknown_open: false,
        }
    }

    /// What a stream has carried in this session.
    pub open spec fn stats(self, stream: Stream) -> StreamStats {
        match stream {
            Stream::Wakeup => self.wakeup,
            Stream::WakeupEnd => self.wakeup_end,
            Stream::Asr => self.asr,
            Stream::Unknown => self.unknown,
        }
    }

    /// Whether a stream has a file in this session.
    pub open spec fn is_open(self, stream: Stream) -> bool {
        match stream {
            Stream::Wakeup => self.wakeup_open,
            Stream::WakeupEnd => self.wakeup_end_open,
            Stream::Asr => self.asr_open,
            Stream::Unknown => self.unknown_open,
        }
    }

    /// This session with a stream's file open and its numbers replaced.
    pub open spec fn with(self, stream: Stream, stats: StreamStats) -> Session {
        match stream {
            Stream::Wakeup => Session { wakeup: stats, wakeup_open: true, ..self },
            Stream::WakeupEnd => Session { wakeup_end: stats, wakeup_end_open: true, ..self },
            Stream::Asr => Session { asr: stats, asr_open: true, ..self },
            Stream::Unknown => Session { unknown: stats, unknown_open: true, ..self },
        }
    }

    fn read(&self, stream: Stream) -> (r: (StreamStats, bool))
        ensures
            r == (self.stats(stream), self.is_open(stream)),
    {
        match stream {
            Stream::Wakeup => (self.wakeup, self.wakeup_open),
            Stream::WakeupEnd => (self.wakeup_end, self.wakeup_end_open),
            Stream::Asr => (self.asr, self.asr_open),
            Stream::Unknown => (self.unknown, self.unknown_open),
        }
    }

    fn replace(&mut self, stream: Stream, stats: StreamStats)
        ensures
            *final(self) == old(self).with(stream, stats),
    {
        match stream {
            Stream::Wakeup => {
                self.wakeup = stats;
                self.wakeup_open = true;
            },
            Stream::WakeupEnd => {
                self.wakeup_end = stats;
                self.wakeup_end_open = true;
            },
            Stream::Asr => {
                self.asr = stats;
                self.asr_open = true;
            },
            Stream::Unknown => {
                self.unknown = stats;
                self.unknown_open = true;
            },
        }
    }
}

/// Something for the probe to do.
#[derive(Debug)]
pub enum ProbeAction {
    /// Print a line.
    Say(String),
    /// Print a line to the error output.
    Complain(String),
    /// Send a datagram to the peer that the message came from.
    Send(Vec<u8>),
    /// Create the packet file of a stream.
    Create { id: u64, stream: Stream },
    /// Append bytes to the packet file of a stream.
    Append { stream: Stream, bytes: Vec<u8> },
    /// Flush and close the packet files.
    Close,
    /// Give up with an error.
    Fail(String),
}

/// Something for the probe to do, as a mathematical value.
pub enum Deed {
    Say(Seq<char>),
    Complain(Seq<char>),
    Send(Seq<u8>),
    Create { id: u64, stream: Stream },
    Append { stream: Stream, bytes: Seq<u8> },
    Close,
    Fail(Seq<char>),
}

impl View for ProbeAction {
    type V = Deed;

    open spec fn view(&self) -> Deed {
        match self {
            ProbeAction::Say(line) => Deed::Say(line@),
            ProbeAction::Complain(line) => Deed::Complain(line@),
            ProbeAction::Send(data) => Deed::Send(data@),
            ProbeAction::Create { id, stream } => Deed::Create { id: *id, stream: *stream },
            ProbeAction::Append { stream, bytes } => Deed::Append {
                stream: *stream,
                bytes: bytes@,
            },
            ProbeAction::Close => Deed::Close,
            ProbeAction::Fail(message) => Deed::Fail(message@),
        }
    }
}

/// A list of things to do as mathematical values.
pub open spec fn deeds(actions: Seq<ProbeAction>) -> Seq<Deed> {
    actions.map_values(|a: ProbeAction| a@)
}

/// The state of the probe.
#[derive(Debug)]
pub struct ProbeState {
    pub speech_vendor: String,
    pub speech_codec: String,
    pub session_id: u64,
    pub session: Option<Session>,
}

/// The state of the probe, as a mathematical value.
pub struct Probe {
    pub speech_vendor: Seq<char>,
    pub speech_codec: Seq<char>,
    pub session_id: u64,
    pub session: Option<Session>,
}

impl View for ProbeState {
    type V = Probe;

    open spec fn view(&self) -> Probe {
        Probe {
            speech_vendor: self.speech_vendor@,
            speech_codec: self.speech_codec@,
            session_id: self.session_id,
            session: self.session,
        }
    }
}

/// What a stream carried, for the line that ends a session.
pub open spec fn carried(stats: StreamStats) -> Seq<char> {
    text::decimal(stats.chunks as nat) + "/"@ + text::decimal(stats.bytes as nat)
}

fn show_carried(stats: StreamStats) -> (r: String)
    ensures
        r@ == carried(stats),
{
    let mut out: String = text::decimal_text(stats.chunks);
    out.append("/");
    out.append(text::decimal_text(stats.bytes).as_str());
    out
}

/// The line that ends a session.
pub open spec fn session_line(session: Session) -> Seq<char> {
    "session="@ + text::decimal(session.id as nat) + " complete wakeup="@ + carried(session.wakeup)
        + " wakeup_end="@ + carried(session.wakeup_end) + " asr="@ + carried(session.asr)
        + " unknown="@ + carried(session.unknown)
}

fn show_session(session: &Session) -> (r: String)
    ensures
        r@ == session_line(*session),
{
    let mut out: String = "session=".to_owned();
    out.append(text::decimal_text(session.id).as_str());
    out.append(" complete wakeup=");
    out.append(show_carried(session.wakeup).as_str());
    out.append(" wakeup_end=");
    out.append(show_carried(session.wakeup_end).as_str());
    out.append(" asr=");
    out.append(show_carried(session.asr).as_str());
    out.append(" unknown=");
    out.append(show_carried(session.unknown).as_str());
    out
}

/// What ending the session, where one runs, does.
pub open spec fn finish_deeds(session: Option<Session>) -> Seq<Deed> {
    match session {
        Some(session) => seq![Deed::Close, Deed::Say(session_line(session))],
        None => Seq::empty(),
    }
}

/// A number as four bytes, the lowest first.
pub open spec fn le_bytes(n: u32) -> Seq<u8> {
    seq![
        (n % 256) as u8,
        (n / 256 % 256) as u8,
        (n / 65536 % 256) as u8,
        (n / 16777216) as u8,
    ]
}

fn push_le(out: &mut Vec<u8>, n: u32)
    ensures
        final(out)@ == old(out)@ + le_bytes(n),
{
    out.push((n % 256) as u8);
    out.push((n / 256 % 256) as u8);
    out.push((n / 65536 % 256) as u8);
    out.push((n / 16777216) as u8);
    assert(out@ =~= old(out)@ + le_bytes(n));
}

/// How a packet stands in its file: its length, then its bytes.
pub open spec fn packet(data: Seq<u8>) -> Seq<u8> {
    le_bytes(data.len() as u32) + data
}

/// The line that reports how much a stream has carried.
pub open spec fn stream_line(stream_type: u64, stats: StreamStats, codec: Seq<char>) -> Seq<char> {
    "stream type="@ + stream_text(stream_type) + " chunks="@ + text::decimal(stats.chunks as nat)
        + " bytes="@ + text::decimal(stats.bytes as nat) + " codec="@ + codec
}

/// Writing down a packet in a session.
pub open spec fn packet_step(session: Session, stream_type: u64, data: Seq<u8>, codec: Seq<char>) -> (
    Session,
    Seq<Deed>,
) {
    let stream = stream_of(stream_type);
    let created = if session.is_open(stream) {
        Seq::empty()
    } else {
        seq![Deed::Create { id: session.id, stream }]
    };
    let before = session.stats(stream);
    if data.len() > u32::MAX {
        (
            session.with(stream, before),
            created.push(
                Deed::Fail(
                    "packet is too large: "@ + text::decimal(data.len()) + " bytes"@,
                ),
            ),
        )
    } else {
        let stats = StreamStats {
            chunks: (before.chunks + 1) as u64,
            bytes: (before.bytes + data.len()) as u64,
        };
        let written = created.push(Deed::Append { stream, bytes: packet(data) });
        (
            session.with(stream, stats),
            if stats.chunks == 1 || stats.chunks % 100 == 0 {
                written.push(Deed::Say(stream_line(stream_type, stats, codec)))
            } else {
                written
            },
        )
    }
}

/// Writing down a packet, in a session of its own where none runs.
pub open spec fn write_step(state: Probe, stream_type: u64, data: Seq<u8>) -> (Probe, Seq<Deed>) {
    match state.session {
        Some(session) => {
            let (after, done) = packet_step(session, stream_type, data, state.speech_codec);
            (Probe { session: Some(after), ..state }, done)
        },
        None => {
            let id = (state.session_id + 1) as u64;
            let (after, done) = packet_step(
                empty_session(id),
                stream_type,
                data,
                state.speech_codec,
            );
            (
                Probe { session_id: id, session: Some(after), ..state },
                seq![Deed::Say("created implicit session="@ + text::decimal(id as nat))] + done,
            )
        },
    }
}

/// The datagram that ends a dialogue.
pub open spec fn dialog_finish_frame() -> Seq<u8> {
    speech::downward_frame(
        speech::DOWN_DIALOG_FINISH,
        None,
        Some(
            (
                6,
                wire::fields_part(
                    seq![
                        WireField::Varint { number: 1, value: 0 },
                        WireField::Varint { number: 2, value: 0 },
                        WireField::Varint { number: 3, value: 0 },
                    ],
                ),
            ),
        ),
    )
}

/// The message for a peer that cannot be answered.
pub open spec fn unnamed_error() -> Seq<char> {
    "mipns used an unnamed socket; cannot send a response"@
}

/// Sends datagrams to the peer, each with a line that says so; a peer without a
/// name stops the probe at the first.
pub open spec fn replies(named: bool, items: Seq<(Seq<u8>, Seq<char>)>) -> Seq<Deed>
    decreases items.len(),
{
    if items.len() == 0 {
        Seq::empty()
    } else if !named {
        seq![Deed::Fail(unnamed_error())]
    } else {
        replies(named, items.drop_last()) + seq![
            Deed::Send(items.last().0),
            Deed::Say(items.last().1),
        ]
    }
}

/// How a peer is shown.
pub open spec fn shown_peer(peer: Option<Seq<char>>) -> Seq<char> {
    match peer {
        Some(path) => path,
        None => "<unnamed>"@,
    }
}

/// What the end of a stream is answered.
pub open spec fn finish_replies(options: Options, named: bool) -> Seq<Deed> {
    if options.reply && options.auto_finish {
        replies(named, seq![(dialog_finish_frame(), "sent dialog_finish"@)])
    } else {
        Seq::empty()
    }
}

/// What the probe does with a message.
pub open spec fn probe_step(
    state: Probe,
    options: Options,
    peer: Option<Seq<char>>,
    event: UpMessage,
) -> (Probe, Seq<Deed>) {
    let named = peer is Some;
    let kind = event.up_type;
    if kind == speech::UP_REGISTER {
        let vendor = match event.speech_vendor {
            Some(vendor) => vendor,
            None => "unknown"@,
        };
        let codec = match event.speech_codec {
            Some(codec) => codec,
            None => "unknown"@,
        };
        (
            Probe { speech_vendor: vendor, speech_codec: codec, ..state },
            seq![
                Deed::Say(
                    "register vendor="@ + vendor + " codec="@ + codec + " peer="@ + shown_peer(
                        peer,
                    ),
                ),
            ] + if options.reply {
                replies(
                    named,
                    seq![
                        (
                            speech::downward_frame(speech::DOWN_REGISTER_RESPONSE, None, None),
                            "sent register_response"@,
                        ),
                        (
                            speech::downward_frame(speech::DOWN_ENABLE_VOICE_WAKEUP, None, None),
                            "sent enable_voice_wakeup"@,
                        ),
                    ],
                )
            } else {
                Seq::empty()
            },
        )
    } else if kind == speech::UP_STREAM_PREPARE {
        let id = (state.session_id + 1) as u64;
        let activate = match event.activate_mode {
            Some(mode) => mode,
            None => 0,
        };
        let interact = match event.interact_mode {
            Some(mode) => mode,
            None => 0,
        };
        (
            Probe { session_id: id, session: Some(empty_session(id)), ..state },
            finish_deeds(state.session) + seq![
                Deed::Say(
                    "stream_prepare activate="@ + activate_text(activate) + " interact="@
                        + interact_text(interact) + " session="@ + text::decimal(id as nat),
                ),
            ] + if options.reply {
                replies(
                    named,
                    seq![
                        (
                            speech::downward_frame(
                                speech::DOWN_STREAM_PREPARE_RESPONSE,
                                None,
                                Some((3, wire::varint_part(1, 1))),
                            ),
                            "sent stream_prepare_response connected=true"@,
                        ),
                    ],
                )
            } else {
                Seq::empty()
            },
        )
    } else if kind == speech::UP_STREAM_CANCEL || kind == speech::UP_STREAM_END {
        (
            Probe { session: None, ..state },
            seq![
                Deed::Say(
                    if kind == speech::UP_STREAM_CANCEL {
                        "stream_cancel"@
                    } else {
                        "stream_end"@
                    },
                ),
            ] + finish_deeds(state.session) + finish_replies(options, named),
        )
    } else if kind == speech::UP_STREAM_TRANSMITTING {
        let stream_type = match event.transmit_type {
            Some(kind) => kind,
            None => u64::MAX,
        };
        write_step(state, stream_type, event.data)
    } else {
        (
            state,
            seq![
                Deed::Say(
                    if kind == speech::UP_VOIP {
                        "voip status message"@
                    } else if kind == speech::UP_TTS_FINISH {
                        "tts_finish"@
                    } else if kind == speech::UP_MULTI_CHANNEL_UPLOAD {
                        "multi_channel_upload_request"@
                    } else {
                        "unknown upward type="@ + text::decimal(kind as nat)
                    },
                ),
            ],
        )
    }
}

/// Whether the counters have room for one more message with `len` bytes of data.
pub open spec fn has_room(state: Probe, len: nat) -> bool {
    &&& state.session_id < u64::MAX
    &&& state.session matches Some(session) ==> forall|stream: Stream|
        {
            &&& (#[trigger] session.stats(stream)).chunks < u64::MAX
            &&& session.stats(stream).bytes + len <= u64::MAX
        }
    &&& len <= u64::MAX
}

fn push_replies(
    named: bool,
    frame: Vec<u8>,
    line: &str,
    actions: &mut Vec<ProbeAction>,
) -> (done: bool)
    ensures
        done == named,
        deeds(final(actions)@) == deeds(old(actions)@) + replies(named, seq![(frame@, line@)]),
{
    let ghost before = actions@;
    let ghost items = seq![(frame@, line@)];
    proof {
        reveal_with_fuel(replies, 2);
        assert(items.drop_last() =~= Seq::empty());
    }
    if !named {
        actions.push(
            ProbeAction::Fail("mipns used an unnamed socket; cannot send a response".to_owned()),
        );
    } else {
        actions.push(ProbeAction::Send(frame));
        actions.push(ProbeAction::Say(line.to_owned()));
    }
    assert(deeds(actions@) =~= deeds(before) + replies(named, items));
    named
}

fn dialog_finish_message() -> (r: Vec<u8>)
    ensures
        r@ == dialog_finish_frame(),
{
    let mut parts: Vec<Vec<u8>> = Vec::new();
    parts.push(wire::bool_field(1, false));
    parts.push(wire::bool_field(2, false));
    parts.push(wire::bool_field(3, false));
    proof {
        wire::lemma_joined(
            parts@,
            seq![
                WireField::Varint { number: 1, value: 0 },
                WireField::Varint { number: 2, value: 0 },
                WireField::Varint { number: 3, value: 0 },
            ],
        );
    }
    let body: Vec<u8> = wire::message(parts);
    speech::downward_message(speech::DOWN_DIALOG_FINISH, None, Some((6, body)))
}

impl ProbeState {
    /// A probe that nothing has happened to.
    pub fn new() -> (r: Self)
        ensures
            r@ == (Probe {
                speech_vendor: "unknown"@,
                speech_codec: "unknown"@,
                session_id: 0,
                session: None,
            }),
    {
        ProbeState {
            speech_vendor: "unknown".to_owned(),
            speech_codec: "unknown".to_owned(),
            session_id: 0,
            session: None,
        }
    }

    /// Ends the session, where one runs.
    pub fn finish_session(&mut self) -> (r: Vec<ProbeAction>)
        ensures
            final(self)@ == (Probe { session: None, ..old(self)@ }),
            deeds(r@) == finish_deeds(old(self).session),
    {
        let mut actions: Vec<ProbeAction> = Vec::new();
        let session: Option<Session> = self.session;
        self.session = None;
        if let Some(session) = &session {
            actions.push(ProbeAction::Close);
            actions.push(ProbeAction::Say(show_session(session)));
        }
        assert(deeds(actions@) =~= finish_deeds(session));
        actions
    }

    /// Ends the session, where one runs, and opens the next.
    pub fn start_session(&mut self) -> (r: Vec<ProbeAction>)
        requires
            old(self).session_id < u64::MAX,
        ensures
            final(self)@ == (Probe {
                session_id: (old(self).session_id + 1) as u64,
                session: Some(empty_session((old(self).session_id + 1) as u64)),
                ..old(self)@
            }),
            deeds(r@) == finish_deeds(old(self).session),
    {
        let actions: Vec<ProbeAction> = self.finish_session();
        self.session_id = self.session_id + 1;
        self.session = Some(Session::new(self.session_id));
        actions
    }

    fn record_packet(
        &self,
        session: &mut Session,
        stream_type: u64,
        data: Vec<u8>,
    ) -> (r: Vec<ProbeAction>)
        requires
            old(session).stats(stream_of(stream_type)).chunks < u64::MAX,
            old(session).stats(stream_of(stream_type)).bytes + data@.len() <= u64::MAX,
            data@.len() <= u64::MAX,
        ensures
            (*final(session), deeds(r@)) == packet_step(
                *old(session),
                stream_type,
                data@,
                self.speech_codec@,
            ),
    {
        let mut actions: Vec<ProbeAction> = Vec::new();
        let stream: Stream = Stream::from_wire(stream_type);
        let (before, open): (StreamStats, bool) = session.read(stream);
        if !open {
            actions.push(ProbeAction::Create { id: session.id, stream });
        }
        if data.len() as u64 > u32::MAX as u64 {
            session.replace(stream, before);
            let mut message: String = "packet is too large: ".to_owned();
            message.append(text::decimal_text(data.len() as u64).as_str());
            message.append(" bytes");
            actions.push(ProbeAction::Fail(message));
            assert(deeds(actions@) =~= packet_step(
                *old(session),
                stream_type,
                data@,
                self.speech_codec@,
            ).1);
            return actions;
        }
        let mut bytes: Vec<u8> = Vec::new();
        push_le(&mut bytes, data.len() as u32);
        bytes.extend_from_slice(data.as_slice());
        assert(bytes@ =~= packet(data@));
        actions.push(ProbeAction::Append { stream, bytes });
        let stats = StreamStats {
            chunks: before.chunks + 1,
            bytes: before.bytes + data.len() as u64,
        };
        session.replace(stream, stats);
        if stats.chunks == 1 || stats.chunks % 100 == 0 {
            let mut line: String = "stream type=".to_owned();
            line.append(stream_name(stream_type).as_str());
            line.append(" chunks=");
            line.append(text::decimal_text(stats.chunks).as_str());
            line.append(" bytes=");
            line.append(text::decimal_text(stats.bytes).as_str());
            line.append(" codec=");
            line.append(self.speech_codec.as_str());
            actions.push(ProbeAction::Say(line));
        }
        assert(deeds(actions@) =~= packet_step(
            *old(session),
            stream_type,
            data@,
            self.speech_codec@,
        ).1);
        actions
    }

    /// Writes down a packet, in a session of its own where none runs.
    pub fn write_packet(&mut self, stream_type: u64, data: Vec<u8>) -> (r: Vec<ProbeAction>)
        requires
            has_room(old(self)@, data@.len()),
        ensures
            (final(self)@, deeds(r@)) == write_step(old(self)@, stream_type, data@),
    {
        let mut actions: Vec<ProbeAction> = Vec::new();
        let mut session: Session = match self.session {
            Some(session) => session,
            None => {
                let _opened: Vec<ProbeAction> = self.start_session();
                let mut line: String = "created implicit session=".to_owned();
                line.append(text::decimal_text(self.session_id).as_str());
                actions.push(ProbeAction::Say(line));
                Session::new(self.session_id)
            },
        };
        let ghost said = actions@;
        let mut more: Vec<ProbeAction> = self.record_packet(&mut session, stream_type, data);
        let ghost done = more@;
        actions.append(&mut more);
        self.session = Some(session);
        assert(deeds(actions@) =~= deeds(said) + deeds(done));
        proof {
            if old(self).session is Some {
                assert(deeds(said) + deeds(done) =~= deeds(done));
            } else {
                assert(deeds(said) =~= seq![
                    Deed::Say(
                        "created implicit session="@ + text::decimal(self.session_id as nat),
                    ),
                ]);
            }
        }
        actions
    }

    /// Does what a message asks for. `peer` is the path it came from, where the
    /// sender has one.
    pub fn handle_upward(&mut self, args: &Args, peer: Option<&str>, event: UpEvent) -> (r: Vec<
        ProbeAction,
    >)
        requires
            has_room(old(self)@, event.data@.len()),
        ensures
            (final(self)@, deeds(r@)) == probe_step(
                old(self)@,
                args@,
                speech::opt_str(peer),
                event@,
            ),
    {
        let ghost expected = probe_step(self@, args@, speech::opt_str(peer), event@);
        let named: bool = peer.is_some();
        let kind: u64 = event.up_type;
        let mut actions: Vec<ProbeAction> = Vec::new();
        if kind == speech::UP_REGISTER {
            self.speech_vendor = match event.speech_vendor {
                Some(vendor) => vendor,
                None => "unknown".to_owned(),
            };
            self.speech_codec = match event.speech_codec {
                Some(codec) => codec,
                None => "unknown".to_owned(),
            };
            let mut line: String = "register vendor=".to_owned();
            line.append(self.speech_vendor.as_str());
            line.append(" codec=");
            line.append(self.speech_codec.as_str());
            line.append(" peer=");
            match peer {
                Some(path) => {
                    line.append(path);
                },
                None => {
                    line.append("<unnamed>");
                },
            }
            actions.push(ProbeAction::Say(line));
            if args.reply {
                let first: Vec<u8> = speech::downward_message(
                    speech::DOWN_REGISTER_RESPONSE,
                    None,
                    None,
                );
                let second: Vec<u8> = speech::downward_message(
                    speech::DOWN_ENABLE_VOICE_WAKEUP,
                    None,
                    None,
                );
                proof {
                    lemma_two_replies(
                        named,
                        (first@, "sent register_response"@),
                        (second@, "sent enable_voice_wakeup"@),
                    );
                }
                if push_replies(named, first, "sent register_response", &mut actions) {
                    let _done: bool = push_replies(
                        named,
                        second,
                        "sent enable_voice_wakeup",
                        &mut actions,
                    );
                }
            }
            assert(deeds(actions@) =~= expected.1);
        } else if kind == speech::UP_STREAM_PREPARE {
            actions = self.start_session();
            let activate: u64 = match event.activate_mode {
                Some(mode) => mode,
                None => 0,
            };
            let interact: u64 = match event.interact_mode {
                Some(mode) => mode,
                None => 0,
            };
            let mut line: String = "stream_prepare activate=".to_owned();
            line.append(activate_name(activate).as_str());
            line.append(" interact=");
            line.append(interact_name(interact).as_str());
            line.append(" session=");
            line.append(text::decimal_text(self.session_id).as_str());
            actions.push(ProbeAction::Say(line));
            if args.reply {
                let frame: Vec<u8> = speech::downward_message(
                    speech::DOWN_STREAM_PREPARE_RESPONSE,
                    None,
                    Some((3, wire::bool_field(1, true))),
                );
                let _done: bool = push_replies(
                    named,
                    frame,
                    "sent stream_prepare_response connected=true",
                    &mut actions,
                );
            }
            assert(deeds(actions@) =~= expected.1);
        } else if kind == speech::UP_STREAM_CANCEL || kind == speech::UP_STREAM_END {
            if kind == speech::UP_STREAM_CANCEL {
                actions.push(ProbeAction::Say("stream_cancel".to_owned()));
            } else {
                actions.push(ProbeAction::Say("stream_end".to_owned()));
            }
            let ghost said = actions@;
            let mut ended: Vec<ProbeAction> = self.finish_session();
            let ghost closing = ended@;
            actions.append(&mut ended);
            assert(deeds(actions@) =~= deeds(said) + deeds(closing));
            if args.reply && args.auto_finish {
                let _done: bool = push_replies(
                    named,
                    dialog_finish_message(),
                    "sent dialog_finish",
                    &mut actions,
                );
            }
            assert(deeds(actions@) =~= expected.1);
        } else if kind == speech::UP_STREAM_TRANSMITTING {
            let stream_type: u64 = match event.transmit_type {
                Some(kind) => kind,
                None => u64::MAX,
            };
            actions = self.write_packet(stream_type, event.data);
        } else {
            if kind == speech::UP_VOIP {
                actions.push(ProbeAction::Say("voip status message".to_owned()));
            } else if kind == speech::UP_TTS_FINISH {
                actions.push(ProbeAction::Say("tts_finish".to_owned()));
            } else if kind == speech::UP_MULTI_CHANNEL_UPLOAD {
                actions.push(ProbeAction::Say("multi_channel_upload_request".to_owned()));
            } else {
                let mut line: String = "unknown upward type=".to_owned();
                line.append(text::decimal_text(kind).as_str());
                actions.push(ProbeAction::Say(line));
            }
            assert(deeds(actions@) =~= expected.1);
        }
        actions
    }
}

// ----------------------------------------------------------------------- dump

/// Whether a character is a control code: of the Unicode category `Cc`.
pub open spec fn is_control_code(c: char) -> bool {
    c <= '\u{1f}' || '\u{7f}' <= c <= '\u{9f}'
}

/// `char::is_control` answers whether its argument is a control code.
pub assume_specification[ char::is_control ](c: char) -> (r: bool)
    ensures
        r == is_control_code(c),
;

/// Whether a text can be shown on a line: its control codes are white space.
pub open spec fn printable(s: Seq<char>) -> bool {
    forall|i: int|
        0 <= i < s.len() ==> !is_control_code(#[trigger] s[i]) || text::is_white_space(s[i])
}

fn is_printable(s: &str) -> (r: bool)
    ensures
        r == printable(s@),
{
    let chars: Vec<char> = text::chars_of(s);
    let mut i: usize = 0;
    while i < chars.len()
        invariant
            i <= chars@.len(),
            chars@ == s@,
            forall|j: int|
                0 <= j < i ==> !is_control_code(#[trigger] s@[j]) || text::is_white_space(s@[j]),
        decreases chars@.len() - i,
    {
        let c: char = chars[i];
        if c.is_control() && !c.is_whitespace() {
            assert(is_control_code(s@[i as int]));
            return false;
        }
        i = i + 1;
    }
    true
}

/// Spaces.
pub open spec fn spaces(n: nat) -> Seq<char> {
    Seq::new(n, |i: int| ' ')
}

fn make_spaces(n: usize) -> (r: String)
    ensures
        r@ == spaces(n as nat),
{
    let mut out = String::new();
    let mut i: usize = 0;
    while i < n
        invariant
            i <= n,
            out@ == spaces(i as nat),
        decreases n - i,
    {
        out.push(' ');
        i = i + 1;
        assert(out@ =~= spaces(i as nat));
    }
    assert(out@ =~= spaces(n as nat));
    out
}

/// Bytes in hexadecimal with commas between them.
pub open spec fn hex_items(bytes: Seq<u8>) -> Seq<char>
    decreases bytes.len(),
{
    if bytes.len() == 0 {
        Seq::empty()
    } else if bytes.len() == 1 {
        text::hex_byte(bytes[0])
    } else {
        hex_items(bytes.drop_last()) + ", "@ + text::hex_byte(bytes.last())
    }
}

/// A list of bytes in hexadecimal.
pub open spec fn hex_list(bytes: Seq<u8>) -> Seq<char> {
    "["@ + hex_items(bytes) + "]"@
}

fn show_hex_list(bytes: &[u8]) -> (r: String)
    ensures
        r@ == hex_list(bytes@),
{
    let mut items = String::new();
    let mut i: usize = 0;
    assert(bytes@.take(0) =~= Seq::empty());
    while i < bytes.len()
        invariant
            i <= bytes@.len(),
            items@ == hex_items(bytes@.take(i as int)),
        decreases bytes@.len() - i,
    {
        let ghost seen = bytes@.take(i + 1);
        assert(seen.drop_last() =~= bytes@.take(i as int));
        if i > 0 {
            items.append(", ");
        }
        let one: [u8; 1] = [bytes[i]];
        let digits: String = text::hex_text(one.as_slice());
        proof {
            reveal_with_fuel(text::hex_bytes, 2);
            assert(one@.drop_last() =~= Seq::empty());
            assert(text::hex_bytes(one@) =~= text::hex_byte(bytes@[i as int]));
        }
        items.append(digits.as_str());
        proof {
            if i == 0 {
                assert(items@ =~= text::hex_byte(bytes@[0]));
            }
        }
        i = i + 1;
    }
    assert(bytes@.take(i as int) =~= bytes@);
    let mut out: String = "[".to_owned();
    out.append(items.as_str());
    out.append("]");
    out
}

/// The name of a field inside a message.
pub open spec fn field_name(name: Seq<char>, number: u64) -> Seq<char> {
    name + "."@ + text::decimal(number as nat)
}

/// The lines that show a message: one for each field, and behind a byte field
/// that is itself a message the lines of that message, two further to the right.
pub open spec fn dumped(name: Seq<char>, s: Seq<u8>, indent: nat) -> Seq<Seq<char>>
    decreases s.len(), 1nat, 0nat,
{
    match wire::read_fields(s, Strictness::Lenient) {
        Err(e) => seq![
            spaces(indent) + name + ": decode error: "@ + wire::wire_error_text(e),
        ],
        Ok(fields) => dumped_fields(name, fields, indent, s.len()),
    }
}

/// The lines that show fields whose contents are all shorter than `bound`.
pub open spec fn dumped_fields(
    name: Seq<char>,
    fields: Seq<WireField>,
    indent: nat,
    bound: nat,
) -> Seq<Seq<char>>
    decreases bound, 0nat, fields.len(),
{
    if fields.len() == 0 {
        Seq::empty()
    } else {
        let before = dumped_fields(name, fields.drop_last(), indent, bound);
        let pad = spaces(indent);
        match fields.last() {
            WireField::Varint { number, value } => before.push(
                pad + field_name(name, number) + ": varint "@ + text::decimal(value as nat),
            ),
            WireField::Fixed64 { number, value } => before.push(
                pad + field_name(name, number) + ": fixed64 "@ + hex_list(value),
            ),
            WireField::Fixed32 { number, value } => before.push(
                pad + field_name(name, number) + ": fixed32 "@ + hex_list(value),
            ),
            WireField::Bytes { number, value } => if vstd::utf8::valid_utf8(value) && printable(
                vstd::utf8::decode_utf8(value),
            ) {
                before.push(
                    pad + field_name(name, number) + ": string "@ + text::debug_quoted(
                        vstd::utf8::decode_utf8(value),
                    ),
                )
            } else {
                let line = pad + field_name(name, number) + ": bytes len="@ + text::decimal(
                    value.len(),
                );
                if value.len() < bound && wire::read_fields(value, Strictness::Lenient) is Ok {
                    before.push(line) + dumped(field_name(name, number), value, indent + 2)
                } else {
                    before.push(line)
                }
            },
        }
    }
}

/// Every byte field of a message is shorter than the message.
pub proof fn lemma_contents_shorter(s: Seq<u8>, strictness: Strictness)
    ensures
        wire::read_fields(s, strictness) matches Ok(fields) ==> forall|i: int|
            0 <= i < fields.len() && (#[trigger] fields[i]) is Bytes ==> fields[i]->Bytes_value.len()
                < s.len(),
    decreases s.len(),
{
    if s.len() > 0 {
        wire::lemma_read_field_used(s, strictness);
        wire::lemma_read_varint_used(s, 10);
        if let Ok((field, used)) = wire::read_field(s, strictness) {
            let rest = s.skip(used as int);
            lemma_contents_shorter(rest, strictness);
            if let Ok(more) = wire::read_fields(rest, strictness) {
                let all = seq![field] + more;
                assert forall|i: int| 0 <= i < all.len() && (#[trigger] all[i]) is Bytes implies
                    all[i]->Bytes_value.len() < s.len() by {
                    if i > 0 {
                        assert(all[i] == more[i - 1]);
                    }
                }
            }
        }
    }
}

/// The lines that show a message.
pub fn dump_message(name: &str, buf: &[u8], indent: usize) -> (r: Vec<String>)
    requires
        indent + 2 * buf@.len() <= usize::MAX,
    ensures
        text::texts(r@) == dumped(name@, buf@, indent as nat),
    decreases buf@.len(),
{
    let mut lines: Vec<String> = Vec::new();
    let pad: String = make_spaces(indent);
    let fields: Vec<Field> = match parse_fields(buf) {
        Ok(fields) => fields,
        Err(e) => {
            let mut line: String = pad;
            line.append(name);
            line.append(": decode error: ");
            line.append(e.message().as_str());
            lines.push(line);
            assert(text::texts(lines@) =~= dumped(name@, buf@, indent as nat));
            return lines;
        },
    };
    let ghost all = wire::wire_fields(fields@);
    proof {
        lemma_contents_shorter(buf@, Strictness::Lenient);
    }
    let mut i: usize = 0;
    assert(all.take(0) =~= Seq::empty());
    assert(text::texts(lines@) =~= Seq::empty());
    while i < fields.len()
        invariant
            i <= fields@.len(),
            all == wire::wire_fields(fields@),
            pad@ == spaces(indent as nat),
            indent + 2 * buf@.len() <= usize::MAX,
            forall|j: int|
                0 <= j < all.len() && (#[trigger] all[j]) is Bytes ==> all[j]->Bytes_value.len()
                    < buf@.len(),
            text::texts(lines@) == dumped_fields(
                name@,
                all.take(i as int),
                indent as nat,
                buf@.len(),
            ),
        decreases fields@.len() - i,
    {
        let ghost seen = all.take(i + 1);
        let ghost before = lines@;
        assert(seen.drop_last() =~= all.take(i as int));
        assert(seen.last() == fields@[i as int]@);
        assert(all[i as int] == fields@[i as int]@);
        let number: u64 = match &fields[i] {
            Field::Varint { number, .. } => *number,
            Field::Fixed64 { number, .. } => *number,
            Field::Bytes { number, .. } => *number,
            Field::Fixed32 { number, .. } => *number,
        };
        let mut full: String = name.to_owned();
        full.append(".");
        full.append(text::decimal_text(number).as_str());
        assert(full@ == field_name(name@, number));
        let mut line: String = pad.clone();
        line.append(full.as_str());
        match &fields[i] {
            Field::Varint { value, .. } => {
                line.append(": varint ");
                line.append(text::decimal_text(*value).as_str());
                lines.push(line);
            },
            Field::Fixed64 { value, .. } => {
                line.append(": fixed64 ");
                line.append(show_hex_list(value.as_slice()).as_str());
                lines.push(line);
            },
            Field::Fixed32 { value, .. } => {
                line.append(": fixed32 ");
                line.append(show_hex_list(value.as_slice()).as_str());
                lines.push(line);
            },
            Field::Bytes { value, .. } => {
                let mut shown: bool = false;
                let copy: Vec<u8> = vstd::slice::slice_to_vec(value.as_slice());
                if let Some(content) = text::utf8_text(copy) {
                    if is_printable(content.as_str()) {
                        line.append(": string ");
                        line.append(text::quote_debug(content.as_str()).as_str());
                        shown = true;
                    }
                }
                if shown {
                    lines.push(line);
                } else {
                    line.append(": bytes len=");
                    line.append(text::decimal_text(value.len() as u64).as_str());
                    lines.push(line);
                    if parse_fields(value.as_slice()).is_ok() {
                        let ghost said = lines@;
                        let mut more: Vec<String> = dump_message(
                            full.as_str(),
                            value.as_slice(),
                            indent + 2,
                        );
                        let ghost inner = more@;
                        lines.append(&mut more);
                        assert(text::texts(lines@) =~= text::texts(said) + text::texts(inner));
                        assert(text::texts(said) =~= text::texts(before).push(said.last()@));
                    }
                }
            },
        }
        assert(text::texts(lines@) =~= dumped_fields(
            name@,
            all.take(i + 1),
            indent as nat,
            buf@.len(),
        ));
        i = i + 1;
    }
    assert(all.take(i as int) =~= all);
    lines
}

// ------------------------------------------------------------------ datagrams

/// Lines to print.
pub open spec fn said(lines: Seq<Seq<char>>) -> Seq<Deed> {
    lines.map_values(|line: Seq<char>| Deed::Say(line))
}

/// What the probe prints of a datagram when it dumps.
pub open spec fn dump_deeds(options: Options, peer: Option<Seq<char>>, s: Seq<u8>) -> Seq<Deed> {
    if options.dump {
        seq![
            Deed::Say(
                "datagram "@ + text::decimal(s.len()) + " bytes from "@ + shown_peer(peer),
            ),
        ] + said(dumped("speech"@, s, 0))
    } else {
        Seq::empty()
    }
}

/// What the probe does with a datagram.
pub open spec fn datagram_step(
    state: Probe,
    options: Options,
    peer: Option<Seq<char>>,
    s: Seq<u8>,
) -> (Probe, Seq<Deed>) {
    let shown = dump_deeds(options, peer, s);
    match speech::upward_message(s, Strictness::Lenient) {
        Ok(Some(message)) => {
            let (after, done) = probe_step(state, options, peer, message);
            (after, shown + done)
        },
        Ok(None) => (
            state,
            shown.push(
                Deed::Say(
                    "ignored non-upward speech message ("@ + text::decimal(s.len()) + " bytes)"@,
                ),
            ),
        ),
        Err(e) => (
            state,
            shown.push(
                Deed::Complain(
                    "failed to decode upward message: "@ + speech::decode_error_text(e),
                ),
            ),
        ),
    }
}

/// The data of a message is no longer than the datagram that carries it.
pub proof fn lemma_data_fits(s: Seq<u8>)
    ensures
        speech::upward_message(s, Strictness::Lenient) matches Ok(Some(message))
            ==> message.data.len() <= s.len(),
{
    lemma_contents_shorter(s, Strictness::Lenient);
    if let Ok(fields) = wire::read_fields(s, Strictness::Lenient) {
        lemma_first_bytes_found(fields, 2);
        if let Some(body) = wire::first_bytes(fields, 2) {
            lemma_contents_shorter(body, Strictness::Lenient);
            if let Ok(inner) = wire::read_fields(body, Strictness::Lenient) {
                lemma_first_bytes_found(inner, 4);
                if let Some(packet) = wire::first_bytes(inner, 4) {
                    lemma_contents_shorter(packet, Strictness::Lenient);
                    if let Ok(parts) = wire::read_fields(packet, Strictness::Lenient) {
                        lemma_first_bytes_found(parts, 2);
                    }
                }
            }
        }
    }
}

proof fn lemma_first_bytes_found(fields: Seq<WireField>, number: u64)
    ensures
        wire::first_bytes(fields, number) matches Some(value) ==> exists|i: int|
            0 <= i < fields.len() && (#[trigger] fields[i]) is Bytes && fields[i]->Bytes_value
                == value,
    decreases fields.len(),
{
    if fields.len() > 0 {
        lemma_first_bytes_found(fields.skip(1), number);
        if let Some(value) = wire::first_bytes(fields, number) {
            if fields[0] is Bytes && fields[0]->Bytes_value == value {
            } else {
                let i = choose|i: int|
                    0 <= i < fields.skip(1).len() && (#[trigger] fields.skip(1)[i]) is Bytes
                        && fields.skip(1)[i]->Bytes_value == value;
                assert(fields[i + 1] == fields.skip(1)[i]);
            }
        }
    }
}

impl ProbeState {
    /// Does what a datagram asks for.
    pub fn receive(&mut self, args: &Args, peer: Option<&str>, buf: &[u8]) -> (r: Vec<ProbeAction>)
        requires
            has_room(old(self)@, buf@.len()),
            2 * buf@.len() <= usize::MAX,
        ensures
            (final(self)@, deeds(r@)) == datagram_step(
                old(self)@,
                args@,
                speech::opt_str(peer),
                buf@,
            ),
    {
        let ghost expected = datagram_step(self@, args@, speech::opt_str(peer), buf@);
        let mut actions: Vec<ProbeAction> = Vec::new();
        if args.dump {
            let mut line: String = "datagram ".to_owned();
            line.append(text::decimal_text(buf.len() as u64).as_str());
            line.append(" bytes from ");
            match peer {
                Some(path) => {
                    line.append(path);
                },
                None => {
                    line.append("<unnamed>");
                },
            }
            actions.push(ProbeAction::Say(line));
            let lines: Vec<String> = dump_message("speech", buf, 0);
            let ghost all = text::texts(lines@);
            let ghost head = deeds(actions@);
            let mut i: usize = 0;
            assert(head + said(all.take(0)) =~= head);
            while i < lines.len()
                invariant
                    i <= lines@.len(),
                    all == text::texts(lines@),
                    deeds(actions@) == head + said(all.take(i as int)),
                decreases lines@.len() - i,
            {
                let ghost before = actions@;
                actions.push(ProbeAction::Say(lines[i].clone()));
                assert(actions@.last()@ == Deed::Say(all[i as int]));
                assert(deeds(actions@) =~= deeds(before).push(Deed::Say(all[i as int])));
                assert(said(all.take(i + 1)) =~= said(all.take(i as int)).push(
                    Deed::Say(all[i as int]),
                ));
                i = i + 1;
                assert(deeds(actions@) =~= head + said(all.take(i as int)));
            }
            assert(all.take(i as int) =~= all);
        }
        assert(deeds(actions@) =~= dump_deeds(args@, speech::opt_str(peer), buf@));
        let ghost shown = actions@;
        proof {
            lemma_data_fits(buf@);
        }
        match decode_speech_upward(buf) {
            Ok(Some(event)) => {
                let mut more: Vec<ProbeAction> = self.handle_upward(args, peer, event);
                let ghost done = more@;
                actions.append(&mut more);
                assert(deeds(actions@) =~= deeds(shown) + deeds(done));
            },
            Ok(None) => {
                let mut line: String = "ignored non-upward speech message (".to_owned();
                line.append(text::decimal_text(buf.len() as u64).as_str());
                line.append(" bytes)");
                actions.push(ProbeAction::Say(line));
                assert(deeds(actions@) =~= expected.1);
            },
            Err(e) => {
                let mut line: String = "failed to decode upward message: ".to_owned();
                line.append(e.message().as_str());
                actions.push(ProbeAction::Complain(line));
                assert(deeds(actions@) =~= expected.1);
            },
        }
        actions
    }
}

proof fn lemma_two_replies(named: bool, first: (Seq<u8>, Seq<char>), second: (Seq<u8>, Seq<char>))
    ensures
        replies(named, seq![first, second]) == if named {
            replies(named, seq![first]) + replies(named, seq![second])
        } else {
            replies(named, seq![first])
        },
{
    reveal_with_fuel(replies, 3);
    assert(seq![first, second].drop_last() =~= seq![first]);
    assert(seq![first].drop_last() =~= Seq::empty());
    assert(seq![second].drop_last() =~= Seq::empty());
    if named {
        assert(replies(named, seq![first, second]) =~= replies(named, seq![first]) + replies(
            named,
            seq![second],
        ));
    }
}

// ----------------------------------------------------------------------- laws

/// The number that four bytes spell, the lowest first.
pub open spec fn le_value(s: Seq<u8>) -> int {
    s[0] + 256 * s[1] + 65536 * s[2] + 16777216 * s[3]
}

/// A packet in a file can be told from what follows it: its first four bytes
/// give its length, and that many bytes behind them are its data.
pub proof fn law_packet_roundtrip(data: Seq<u8>, tail: Seq<u8>)
    requires
        data.len() <= u32::MAX,
    ensures
        le_value(packet(data) + tail) == data.len(),
        (packet(data) + tail).subrange(4, data.len() + 4int) == data,
        (packet(data) + tail).skip(data.len() + 4int) == tail,
{
    let s = packet(data) + tail;
    let n = data.len() as u32;
    assert(s.subrange(4, data.len() + 4int) =~= data);
    assert(s.skip(data.len() + 4int) =~= tail);
    assert(s.take(4) =~= le_bytes(n));
    assert(s[0] == s.take(4)[0] && s[1] == s.take(4)[1] && s[2] == s.take(4)[2] && s[3] == s.take(
        4,
    )[3]);
    assert(n % 256 + 256 * (n / 256 % 256) + 65536 * (n / 65536 % 256) + 16777216 * (n / 16777216)
        == n) by (bit_vector);
}

/// A packet adds one chunk and its length to its own stream, and nothing to the
/// others.
pub proof fn law_packet_counts(
    session: Session,
    stream_type: u64,
    data: Seq<u8>,
    codec: Seq<char>,
    stream: Stream,
)
    requires
        data.len() <= u32::MAX,
        session.stats(stream_of(stream_type)).chunks < u64::MAX,
        session.stats(stream_of(stream_type)).bytes + data.len() <= u64::MAX,
    ensures
        ({
            let after = packet_step(session, stream_type, data, codec).0;
            if stream == stream_of(stream_type) {
                &&& after.stats(stream).chunks == session.stats(stream).chunks + 1
                &&& after.stats(stream).bytes == session.stats(stream).bytes + data.len()
                &&& after.is_open(stream)
            } else {
                after.stats(stream) == session.stats(stream) && after.is_open(stream)
                    == session.is_open(stream)
            }
        }),
{
}

/// A probe that does not reply sends nothing, whatever it receives.
pub proof fn law_silent_probe_sends_nothing(
    state: Probe,
    options: Options,
    peer: Option<Seq<char>>,
    event: UpMessage,
    i: int,
)
    requires
        !options.reply,
        0 <= i < probe_step(state, options, peer, event).1.len(),
    ensures
        !(probe_step(state, options, peer, event).1[i] is Send),
{
}

/// The datagrams among some deeds, in order.
pub open spec fn datagrams(out: Seq<Deed>) -> Seq<Seq<u8>>
    decreases out.len(),
{
    if out.len() == 0 {
        Seq::empty()
    } else {
        match out.last() {
            Deed::Send(frame) => datagrams(out.drop_last()).push(frame),
            _ => datagrams(out.drop_last()),
        }
    }
}

/// How often some deeds close the packet files.
pub open spec fn closings(out: Seq<Deed>) -> int
    decreases out.len(),
{
    if out.len() == 0 {
        0
    } else {
        closings(out.drop_last()) + if out.last() is Close {
            1int
        } else {
            0
        }
    }
}

proof fn lemma_joined(a: Seq<Deed>, b: Seq<Deed>)
    ensures
        datagrams(a + b) == datagrams(a) + datagrams(b),
        closings(a + b) == closings(a) + closings(b),
    decreases b.len(),
{
    if b.len() == 0 {
        assert(a + b =~= a);
        assert(datagrams(a) + datagrams(b) =~= datagrams(a));
    } else {
        lemma_joined(a, b.drop_last());
        assert((a + b).drop_last() =~= a + b.drop_last());
        assert((a + b).last() == b.last());
        if let Deed::Send(frame) = b.last() {
            assert((datagrams(a) + datagrams(b.drop_last())).push(frame) =~= datagrams(a)
                + datagrams(b));
        }
    }
}

proof fn lemma_said_once(line: Seq<char>)
    ensures
        datagrams(seq![Deed::Say(line)]) == Seq::<Seq<u8>>::empty(),
        closings(seq![Deed::Say(line)]) == 0,
{
    let one = seq![Deed::Say(line)];
    assert(one.drop_last() =~= Seq::empty());
    reveal_with_fuel(datagrams, 2);
    reveal_with_fuel(closings, 2);
}

proof fn lemma_finished(session: Option<Session>)
    ensures
        datagrams(finish_deeds(session)) == Seq::<Seq<u8>>::empty(),
        closings(finish_deeds(session)) == if session is Some {
            1int
        } else {
            0
        },
{
    let out = finish_deeds(session);
    if session is Some {
        assert(out.drop_last() =~= seq![Deed::Close]);
        assert(out.drop_last().drop_last() =~= Seq::empty());
    }
    reveal_with_fuel(datagrams, 3);
    reveal_with_fuel(closings, 3);
}

proof fn lemma_one_datagram(frame: Seq<u8>, line: Seq<char>)
    ensures
        datagrams(replies(true, seq![(frame, line)])) == seq![frame],
        closings(replies(true, seq![(frame, line)])) == 0,
{
    let items = seq![(frame, line)];
    assert(items.drop_last() =~= Seq::empty());
    reveal_with_fuel(replies, 2);
    let out = replies(true, items);
    assert(out =~= seq![Deed::Send(frame), Deed::Say(line)]);
    assert(out.drop_last() =~= seq![Deed::Send(frame)]);
    assert(out.drop_last().drop_last() =~= Seq::empty());
    reveal_with_fuel(datagrams, 3);
    reveal_with_fuel(closings, 3);
    assert(datagrams(out) =~= seq![frame]);
}

proof fn lemma_two_datagrams(first: (Seq<u8>, Seq<char>), second: (Seq<u8>, Seq<char>))
    ensures
        datagrams(replies(true, seq![first, second])) == seq![first.0, second.0],
        closings(replies(true, seq![first, second])) == 0,
{
    let items = seq![first, second];
    lemma_one_datagram(first.0, first.1);
    lemma_one_datagram(second.0, second.1);
    assert(items.drop_last() =~= seq![(first.0, first.1)]);
    let one = replies(true, seq![(first.0, first.1)]);
    let tail = seq![Deed::Send(second.0), Deed::Say(second.1)];
    let alone = replies(true, seq![(second.0, second.1)]);
    assert(seq![(second.0, second.1)].drop_last() =~= Seq::empty());
    reveal_with_fuel(replies, 2);
    assert(alone =~= tail);
    lemma_joined(one, tail);
    assert(replies(true, items) =~= one + tail);
    assert(datagrams(replies(true, items)) =~= seq![first.0, second.0]);
}

/// A registration is answered with that it is registered and that the wake word is
/// on, and the probe knows from then on who is there. Nothing else changes.
pub proof fn law_probe_answers_registrations(
    state: Probe,
    options: Options,
    peer: Seq<char>,
    event: UpMessage,
)
    requires
        event.up_type == 0,
    ensures
        ({
            let (after, out) = probe_step(state, options, Some(peer), event);
            let frames = datagrams(out);
            &&& options.reply ==> frames.len() == 2 && speech::says(frames[0], 0, None)
                && speech::says(frames[1], 9, None)
            &&& !options.reply ==> frames.len() == 0
            &&& closings(out) == 0
            &&& event.speech_vendor matches Some(vendor) ==> after.speech_vendor == vendor
            &&& event.speech_codec matches Some(codec) ==> after.speech_codec == codec
            &&& event.speech_vendor is None ==> after.speech_vendor == "unknown"@
            &&& event.speech_codec is None ==> after.speech_codec == "unknown"@
            &&& after.session == state.session && after.session_id == state.session_id
        }),
{
    let (after, out) = probe_step(state, options, Some(peer), event);
    speech::lemma_said(0, None, None);
    speech::lemma_said(9, None, None);
    let line = out[0]->Say_0;
    lemma_said_once(line);
    let first = (speech::downward_frame(0, None, None), "sent register_response"@);
    let second = (speech::downward_frame(9, None, None), "sent enable_voice_wakeup"@);
    lemma_two_datagrams(first, second);
    let answers = if options.reply {
        replies(true, seq![first, second])
    } else {
        Seq::empty()
    };
    lemma_joined(seq![Deed::Say(line)], answers);
    assert(out =~= seq![Deed::Say(line)] + answers);
}

/// A stream that is opened begins a session under the next number, in which nothing
/// was carried; the files of one that ran are closed. It is answered that it is
/// connected.
pub proof fn law_probe_opens_sessions(
    state: Probe,
    options: Options,
    peer: Seq<char>,
    event: UpMessage,
)
    requires
        event.up_type == 1,
        state.session_id < u64::MAX,
    ensures
        ({
            let (after, out) = probe_step(state, options, Some(peer), event);
            let frames = datagrams(out);
            &&& options.reply ==> frames.len() == 1 && speech::says(frames[0], 1, None)
                && speech::said_under(frames[0], 3, 1) == Some(1u64)
            &&& !options.reply ==> frames.len() == 0
            &&& closings(out) == if state.session is Some {
                1int
            } else {
                0
            }
            &&& after.session_id == state.session_id + 1
            &&& after.session matches Some(session) && session.id == after.session_id && forall|
                stream: Stream,
            |
                {
                    &&& (#[trigger] session.stats(stream)).chunks == 0
                    &&& session.stats(stream).bytes == 0
                    &&& !session.is_open(stream)
                }
            &&& after.speech_codec == state.speech_codec
        }),
{
    let (after, out) = probe_step(state, options, Some(peer), event);
    let answer = seq![WireField::Varint { number: 1, value: 1 }];
    wire::lemma_fields_part_one(answer[0]);
    assert(answer =~= seq![answer[0]]);
    speech::lemma_said_under(1, None, 3, answer);
    wire::law_first_fields_are_found(answer, 1, 0);
    let frame = speech::downward_frame(1, None, Some((3, wire::varint_part(1, 1))));
    assert(wire::fields_part(answer) == wire::varint_part(1, 1));
    let front = finish_deeds(state.session);
    let n = front.len() as int;
    assert(out[n] is Say);
    let line = out[n]->Say_0;
    lemma_finished(state.session);
    lemma_said_once(line);
    lemma_one_datagram(frame, "sent stream_prepare_response connected=true"@);
    let answers = if options.reply {
        replies(true, seq![(frame, "sent stream_prepare_response connected=true"@)])
    } else {
        Seq::empty()
    };
    lemma_joined(front, seq![Deed::Say(line)]);
    lemma_joined(front + seq![Deed::Say(line)], answers);
    assert(out =~= front + seq![Deed::Say(line)] + answers);
}

/// A stream that ends or is cancelled ends the session, where one runs, and closes
/// its files; where the probe finishes by itself, the dialogue is finished for good:
/// it does not go on.
pub proof fn law_probe_ends_sessions(
    state: Probe,
    options: Options,
    peer: Seq<char>,
    event: UpMessage,
)
    requires
        event.up_type == 2 || event.up_type == 4,
    ensures
        ({
            let (after, out) = probe_step(state, options, Some(peer), event);
            let frames = datagrams(out);
            &&& options.reply && options.auto_finish ==> frames.len() == 1 && speech::says(
                frames[0],
                5,
                None,
            ) && speech::said_under(frames[0], 6, 1) == Some(0u64) && speech::said_under(
                frames[0],
                6,
                2,
            ) == Some(0u64) && speech::said_under(frames[0], 6, 3) == Some(0u64)
            &&& !options.reply || !options.auto_finish ==> frames.len() == 0
            &&& closings(out) == if state.session is Some {
                1int
            } else {
                0
            }
            &&& after.session is None
            &&& after.session_id == state.session_id
        }),
{
    let (after, out) = probe_step(state, options, Some(peer), event);
    let body = seq![
        WireField::Varint { number: 1, value: 0 },
        WireField::Varint { number: 2, value: 0 },
        WireField::Varint { number: 3, value: 0 },
    ];
    speech::lemma_said_under(5, None, 6, body);
    wire::law_first_fields_are_found(body, 1, 0);
    wire::law_first_fields_are_found(body, 2, 1);
    wire::law_first_fields_are_found(body, 3, 2);
    let line = out[0]->Say_0;
    lemma_said_once(line);
    lemma_finished(state.session);
    lemma_one_datagram(dialog_finish_frame(), "sent dialog_finish"@);
    let front = finish_deeds(state.session);
    let answers = finish_replies(options, true);
    lemma_joined(seq![Deed::Say(line)], front);
    lemma_joined(seq![Deed::Say(line)] + front, answers);
    assert(out =~= seq![Deed::Say(line)] + front + answers);
}

/// A message that asks for nothing is only reported, and a peer that cannot be
/// answered stops the probe where it would be.
pub proof fn law_probe_reports_the_rest(state: Probe, options: Options, event: UpMessage)
    ensures
        event.up_type == 5 ==> probe_step(state, options, None, event) == (
            state,
            seq![Deed::Say("voip status message"@)],
        ),
        event.up_type == 6 ==> probe_step(state, options, None, event) == (
            state,
            seq![Deed::Say("tts_finish"@)],
        ),
        event.up_type == 7 ==> probe_step(state, options, None, event) == (
            state,
            seq![Deed::Say("multi_channel_upload_request"@)],
        ),
        event.up_type > 7 ==> probe_step(state, options, None, event) == (
            state,
            seq![Deed::Say("unknown upward type="@ + text::decimal(event.up_type as nat))],
        ),
        options.reply && (event.up_type == 0 || event.up_type == 1) ==> probe_step(
            state,
            options,
            None,
            event,
        ).1.last() == Deed::Fail("mipns used an unnamed socket; cannot send a response"@),
{
}

/// A packet is written to the file of its stream, which is made before the first one
/// and never again; how much was carried is reported at the first packet and at every
/// hundredth. A packet outside a session begins one.
pub proof fn law_packets_are_written(
    state: Probe,
    session: Session,
    stream_type: u64,
    data: Seq<u8>,
    stream: Stream,
)
    requires
        state.session == Some(session),
        data.len() <= u32::MAX,
        session.stats(stream).chunks < u64::MAX,
        stream == if stream_type == 0 {
            Stream::Wakeup
        } else if stream_type == 1 {
            Stream::WakeupEnd
        } else if stream_type == 2 {
            Stream::Asr
        } else {
            Stream::Unknown
        },
    ensures
        ({
            let out = write_step(state, stream_type, data).1;
            let written = Deed::Append { stream, bytes: packet(data) };
            let made = Deed::Create { id: session.id, stream };
            let count = session.stats(stream).chunks + 1;
            let reports = count == 1 || count % 100 == 0;
            let first = if session.is_open(stream) {
                0int
            } else {
                1
            };
            &&& out.len() == 1 + first + if reports {
                1int
            } else {
                0
            }
            &&& out[first] == written
            &&& !session.is_open(stream) ==> out[0] == made
            &&& reports ==> out.last() is Say
        }),
{
}

/// A packet outside a session is written in a session of its own, under the next
/// number, as the first of it.
pub proof fn law_packets_begin_sessions(state: Probe, stream_type: u64, data: Seq<u8>)
    requires
        state.session is None,
        state.session_id < u64::MAX,
    ensures
        ({
            let (after, out) = write_step(state, stream_type, data);
            let id = (state.session_id + 1) as u64;
            let begun = Probe { session_id: id, session: Some(empty_session(id)), ..state };
            let (direct, done) = write_step(begun, stream_type, data);
            &&& after == direct
            &&& out.skip(1) == done
            &&& out[0] == Deed::Say("created implicit session="@ + text::decimal(id as nat))
        }),
{
    let (after, out) = write_step(state, stream_type, data);
    let id = (state.session_id + 1) as u64;
    let begun = Probe { session_id: id, session: Some(empty_session(id)), ..state };
    assert(out.skip(1) =~= write_step(begun, stream_type, data).1);
}

/// The number in the name of a packet file has at least four digits, spells the
/// number of the session, and the name ends with that of the stream.
pub proof fn law_packet_files_are_named(id: u64)
    ensures
        ({
            let number = padded(id as nat);
            &&& number.len() >= 4
            &&& text::digits_value(number) == Some(id as nat)
            &&& id >= 1000 ==> number == text::decimal(id as nat)
            &&& packet_file(id, Stream::Wakeup) == "session-"@ + number + "-"@ + "wakeup"@
                + ".packets"@
            &&& packet_file(id, Stream::WakeupEnd) == "session-"@ + number + "-"@ + "wakeup-end"@
                + ".packets"@
            &&& packet_file(id, Stream::Asr) == "session-"@ + number + "-"@ + "asr"@ + ".packets"@
            &&& packet_file(id, Stream::Unknown) == "session-"@ + number + "-"@ + "unknown"@
                + ".packets"@
        }),
{
    reveal_strlit("000");
    reveal_strlit("00");
    reveal_strlit("0");
    reveal_strlit("");
    let n = id as nat;
    let digits = text::decimal(n);
    text::law_decimal_is_read_back(n);
    lemma_zeros_in_front(1, digits, n);
    lemma_zeros_in_front(2, digits, n);
    lemma_zeros_in_front(3, digits, n);
    let zeros = |k: nat| Seq::new(k, |i: int| '0');
    assert("000"@ =~= zeros(3));
    assert("00"@ =~= zeros(2));
    assert("0"@ =~= zeros(1));
    assert(""@ + digits =~= digits);
    if n >= 10 {
        text::law_decimal_is_read_back(n / 10);
        assert(digits.len() == text::decimal(n / 10).len() + 1);
    }
    if n >= 100 {
        text::law_decimal_is_read_back(n / 10 / 10);
        assert(text::decimal(n / 10).len() == text::decimal(n / 10 / 10).len() + 1);
    }
    if n >= 1000 {
        text::law_decimal_is_read_back(n / 10 / 10 / 10);
        assert(text::decimal(n / 10 / 10).len() == text::decimal(n / 10 / 10 / 10).len() + 1);
    }
}

proof fn lemma_zeros_in_front(k: nat, digits: Seq<char>, n: nat)
    requires
        text::digits_value(digits) == Some(n),
    ensures
        text::digits_value(Seq::new(k, |i: int| '0') + digits) == Some(n),
    decreases k, digits.len(),
{
    let zeros = Seq::new(k, |i: int| '0');
    let all = zeros + digits;
    if k == 0 {
        assert(all =~= digits);
    } else {
        assert(all.last() == digits.last());
        if digits.len() == 1 {
            let fewer = Seq::new((k - 1) as nat, |i: int| '0');
            assert(all.drop_last() =~= fewer + seq!['0']);
            assert(text::digits_value(seq!['0']) == Some(0nat));
            lemma_zeros_in_front((k - 1) as nat, seq!['0'], 0);
            assert(text::digits_value(all.drop_last()) == Some(0nat));
        } else {
            assert(all.drop_last() =~= zeros + digits.drop_last());
            let high = text::digits_value(digits.drop_last())->0;
            lemma_zeros_in_front(k, digits.drop_last(), high);
        }
    }
}

/// How the numbers of modes and streams are shown: by name where they have one.
pub proof fn law_modes_have_names(value: u64)
    ensures
        activate_text(0) == "wakeup(0)"@ && activate_text(1) == "nonwakeup(1)"@,
        interact_text(0) == "noncontinuous(0)"@ && interact_text(1) == "continuous(1)"@,
        stream_text(0) == "wakeup(0)"@ && stream_text(1) == "wakeup_end(1)"@ && stream_text(2)
            == "asr(2)"@,
        value > 1 ==> activate_text(value) == "unknown("@ + text::decimal(value as nat) + ")"@,
        value > 1 ==> interact_text(value) == "unknown("@ + text::decimal(value as nat) + ")"@,
        value > 2 ==> stream_text(value) == "unknown("@ + text::decimal(value as nat) + ")"@,
{
}

/// A session that ends reports what each stream carried, packets and bytes.
pub proof fn law_sessions_report(session: Session)
    ensures
        ({
            let count = |n: u64| text::decimal(n as nat);
            session_line(session) == "session="@ + count(session.id) + " complete wakeup="@ + (count(
                session.stats(Stream::Wakeup).chunks,
            ) + "/"@ + count(session.stats(Stream::Wakeup).bytes)) + " wakeup_end="@ + (count(
                session.stats(Stream::WakeupEnd).chunks,
            ) + "/"@ + count(session.stats(Stream::WakeupEnd).bytes)) + " asr="@ + (count(
                session.stats(Stream::Asr).chunks,
            ) + "/"@ + count(session.stats(Stream::Asr).bytes)) + " unknown="@ + (count(
                session.stats(Stream::Unknown).chunks,
            ) + "/"@ + count(session.stats(Stream::Unknown).bytes))
        }),
{
}

/// Bytes in a list are shown with two digits each and commas between them.
pub proof fn law_byte_lists(bytes: Seq<u8>, last: u8)
    ensures
        hex_list(Seq::empty()) == "["@ + "]"@,
        hex_items(seq![last]) == text::hex_byte(last),
        bytes.len() > 0 ==> hex_items(bytes.push(last)) == hex_items(bytes) + ", "@
            + text::hex_byte(last),
{
    assert(bytes.push(last).drop_last() =~= bytes);
    assert("["@ + Seq::<char>::empty() =~= "["@);
}

/// A text can be shown on a line exactly where it holds no control code but white
/// space.
pub proof fn law_control_codes_are_not_shown(a: Seq<char>, c: char, b: Seq<char>)
    ensures
        printable(a + b) <==> printable(a) && printable(b),
        printable(seq!['\n']) && printable(seq!['\t']) && printable(seq!['a']),
        c < '\u{9}' ==> !printable(seq![c]),
        '\u{e}' <= c && c < ' ' ==> !printable(seq![c]),
        c == '\u{7f}' ==> !printable(seq![c]),
        ' ' <= c && c < '\u{7f}' ==> printable(seq![c]),
        c > '\u{9f}' ==> printable(seq![c]),
{
    let all = a + b;
    if printable(all) {
        assert forall|i: int| 0 <= i < a.len() implies !is_control_code(#[trigger] a[i])
            || text::is_white_space(a[i]) by {
            assert(all[i] == a[i]);
        }
        assert forall|i: int| 0 <= i < b.len() implies !is_control_code(#[trigger] b[i])
            || text::is_white_space(b[i]) by {
            assert(all[a.len() + i] == b[i]);
        }
    }
    if !printable(seq![c]) || c < '\u{9}' || ('\u{e}' <= c && c < ' ') || c == '\u{7f}' {
        assert(seq![c][0] == c);
    }
}

/// A message of one field is shown on one line: where it stands, its number, its kind
/// and its value; a text in quotation marks. The fields of a message inside it follow
/// further to the right, under its number.
pub proof fn law_fields_are_shown(
    name: Seq<char>,
    fields: Seq<WireField>,
    field: WireField,
    indent: nat,
    bound: nat,
)
    ensures
        ({
            let before = dumped_fields(name, fields, indent, bound);
            let shown = dumped_fields(name, fields.push(field), indent, bound);
            let pad = Seq::new(indent, |i: int| ' ');
            let under = |number: u64| name + "."@ + text::decimal(number as nat);
            match field {
                WireField::Varint { number, value } => shown == before.push(
                    pad + under(number) + ": varint "@ + text::decimal(value as nat),
                ),
                WireField::Fixed64 { number, value } => shown == before.push(
                    pad + under(number) + ": fixed64 "@ + hex_list(value),
                ),
                WireField::Fixed32 { number, value } => shown == before.push(
                    pad + under(number) + ": fixed32 "@ + hex_list(value),
                ),
                WireField::Bytes { number, value } => {
                    &&& vstd::utf8::valid_utf8(value) && printable(vstd::utf8::decode_utf8(value))
                        ==> shown == before.push(
                        pad + under(number) + ": string "@ + text::debug_quoted(
                            vstd::utf8::decode_utf8(value),
                        ),
                    )
                    &&& !vstd::utf8::valid_utf8(value) ==> shown.len() > before.len()
                        && shown[before.len() as int] == pad + under(number) + ": bytes len="@
                        + text::decimal(value.len())
                    &&& !vstd::utf8::valid_utf8(value) && value.len() < bound
                        && wire::read_fields(value, Strictness::Lenient) is Ok ==> shown.skip(
                        before.len() + 1int,
                    ) == dumped(under(number), value, indent + 2)
                },
            }
        }),
{
    let before = dumped_fields(name, fields, indent, bound);
    let shown = dumped_fields(name, fields.push(field), indent, bound);
    assert(fields.push(field).drop_last() =~= fields);
    assert(spaces(indent) =~= Seq::new(indent, |i: int| ' '));
    if let WireField::Bytes { number, value } = field {
        if !vstd::utf8::valid_utf8(value) && value.len() < bound && wire::read_fields(
            value,
            Strictness::Lenient,
        ) is Ok {
            let line = shown[before.len() as int];
            let inner = dumped(field_name(name, number), value, indent + 2);
            assert(shown == before.push(line) + inner);
            assert(shown.skip(before.len() + 1int) =~= inner);
        }
    }
}

proof fn lemma_options_differ()
    ensures
        "--help"@.len() == 6 && "--help"@[2] == 'h' && "--help"@[0] == '-',
        "-h"@.len() == 2 && "-h"@[0] == '-',
        "--socket"@.len() == 8 && "--socket"@[0] == '-',
        "--output-dir"@.len() == 12 && "--output-dir"@[2] == 'o',
        "--replace"@.len() == 9 && "--replace"@[0] == '-',
        "--dump"@.len() == 6 && "--dump"@[2] == 'd',
        "--no-reply"@.len() == 10 && "--no-reply"@[0] == '-',
        "--no-auto-finish"@.len() == 16 && "--no-auto-finish"@[0] == '-',
        "--timeout-ms"@.len() == 12 && "--timeout-ms"@[2] == 't',
{
    reveal_strlit("--help");
    reveal_strlit("-h");
    reveal_strlit("--socket");
    reveal_strlit("--output-dir");
    reveal_strlit("--replace");
    reveal_strlit("--dump");
    reveal_strlit("--no-reply");
    reveal_strlit("--no-auto-finish");
    reveal_strlit("--timeout-ms");
}

proof fn lemma_asked_shift(args: Seq<Seq<char>>, k: int, i: int, options: Options)
    requires
        0 <= k <= args.len(),
        0 <= i,
    ensures
        asked_from(args, i + k, options) == asked_from(args.skip(k), i, options),
    decreases
        (if i + k < args.len() {
            args.len() - i - k
        } else {
            0
        }),
{
    let rest = args.skip(k);
    if i + k < args.len() {
        let arg = args[i + k];
        assert(rest[i] == arg);
        assert(value_at(rest, i + 1, arg) == value_at(args, i + k + 1, arg));
        if let Ok(value) = value_at(args, i + k + 1, arg) {
            lemma_asked_shift(args, k, i + 2, Options { socket: value, ..options });
            lemma_asked_shift(args, k, i + 2, Options { output_dir: value, ..options });
        }
        if let Ok(millis) = number_at(args, i + k + 1, arg) {
            lemma_asked_shift(args, k, i + 2, Options { timeout_ms: Some(millis), ..options });
            lemma_asked_shift(args, k, i + 2, Options { timeout_ms: None, ..options });
        }
        lemma_asked_shift(args, k, i + 1, Options { replace: true, ..options });
        lemma_asked_shift(args, k, i + 1, Options { dump: true, ..options });
        lemma_asked_shift(args, k, i + 1, Options { reply: false, ..options });
        lemma_asked_shift(args, k, i + 1, Options { auto_finish: false, ..options });
    }
}

proof fn lemma_one_option(name: Seq<char>, rest: Seq<Seq<char>>, options: Options)
    ensures
        ({
            let args = seq![name] + rest;
            &&& args[0] == name
            &&& asked_from(args, 1, options) == asked_from(rest, 0, options)
        }),
{
    let args = seq![name] + rest;
    assert(args.skip(1) =~= rest);
    lemma_asked_shift(args, 1, 0, options);
}

proof fn lemma_two_options(
    name: Seq<char>,
    value: Seq<char>,
    rest: Seq<Seq<char>>,
    options: Options,
)
    ensures
        ({
            let args = seq![name, value] + rest;
            &&& args[0] == name
            &&& args[1] == value
            &&& asked_from(args, 2, options) == asked_from(rest, 0, options)
        }),
{
    let args = seq![name, value] + rest;
    assert(args.skip(2) =~= rest);
    lemma_asked_shift(args, 2, 0, options);
}

/// Each option of the probe sets what it is for and nothing else, and what follows it
/// is read as if it stood alone; a timeout of zero is none. Help ends the reading, and
/// so does an argument that is no option.
pub proof fn law_probe_options_set_what_they_name(
    rest: Seq<Seq<char>>,
    options: Options,
    value: Seq<char>,
    n: u64,
)
    ensures
        ({
            let two = |name: Seq<char>, value: Seq<char>|
                asked_from(seq![name, value] + rest, 0, options);
            let one = |name: Seq<char>| asked_from(seq![name] + rest, 0, options);
            let then = |options: Options| asked_from(rest, 0, options);
            &&& two("--socket"@, value) == then(Options { socket: value, ..options })
            &&& two("--output-dir"@, value) == then(Options { output_dir: value, ..options })
            &&& n > 0 ==> two("--timeout-ms"@, text::decimal(n as nat)) == then(
                Options { timeout_ms: Some(n), ..options },
            )
            &&& n == 0 ==> two("--timeout-ms"@, text::decimal(n as nat)) == then(
                Options { timeout_ms: None, ..options },
            )
            &&& one("--replace"@) == then(Options { replace: true, ..options })
            &&& one("--dump"@) == then(Options { dump: true, ..options })
            &&& one("--no-reply"@) == then(Options { reply: false, ..options })
            &&& one("--no-auto-finish"@) == then(Options { auto_finish: false, ..options })
            &&& one("--help"@) == Asked::Help
            &&& one("-h"@) == Asked::Help
            &&& value.len() > 0 && value[0] != '-' ==> one(value) is Refused
        }),
        asked_from(Seq::empty(), 0, options) == Asked::Run(options),
        !default_options().replace && !default_options().dump && default_options().reply
            && default_options().auto_finish && default_options().timeout_ms is None,
        default_options().socket == "/tmp/mico_aivs_lab/usock/speech.usock"@,
        default_options().output_dir == "/tmp/xiaoai_asr_probe"@,
{
    lemma_options_differ();
    reveal_strlit("--output-dir");
    reveal_strlit("--dump");
    reveal_strlit("--timeout-ms");
    text::law_decimal_is_read_back(n as nat);
    lemma_two_options("--socket"@, value, rest, Options { socket: value, ..options });
    lemma_two_options("--output-dir"@, value, rest, Options { output_dir: value, ..options });
    lemma_two_options(
        "--timeout-ms"@,
        text::decimal(n as nat),
        rest,
        Options { timeout_ms: Some(n), ..options },
    );
    lemma_two_options(
        "--timeout-ms"@,
        text::decimal(n as nat),
        rest,
        Options { timeout_ms: None, ..options },
    );
    lemma_one_option("--replace"@, rest, Options { replace: true, ..options });
    lemma_one_option("--dump"@, rest, Options { dump: true, ..options });
    lemma_one_option("--no-reply"@, rest, Options { reply: false, ..options });
    lemma_one_option("--no-auto-finish"@, rest, Options { auto_finish: false, ..options });
    lemma_one_option("--help"@, rest, options);
    lemma_one_option("-h"@, rest, options);
    lemma_one_option(value, rest, options);
}

/// What the probe does with a datagram is what it does with the message inside; where
/// it dumps, it shows the datagram first, and that changes nothing else. A datagram
/// that is no message to it is reported and changes nothing.
pub proof fn law_datagrams_are_handled(
    state: Probe,
    options: Options,
    peer: Option<Seq<char>>,
    s: Seq<u8>,
    message: UpMessage,
)
    ensures
        speech::upward_message(s, Strictness::Lenient) == Ok::<
            Option<UpMessage>,
            speech::DecodeError,
        >(Some(message)) ==> ({
            let (after, out) = datagram_step(state, options, peer, s);
            let (expected, done) = probe_step(state, options, peer, message);
            &&& after == expected
            &&& !options.dump ==> out == done
            &&& options.dump ==> out.len() >= done.len() + 1 && out.skip(out.len() - done.len())
                == done && out[0] == Deed::Say(
                "datagram "@ + text::decimal(s.len()) + " bytes from "@ + match peer {
                    Some(path) => path,
                    None => "<unnamed>"@,
                },
            )
        }),
        speech::upward_message(s, Strictness::Lenient) == Ok::<
            Option<UpMessage>,
            speech::DecodeError,
        >(None) && !options.dump ==> datagram_step(state, options, peer, s) == (
            state,
            seq![
                Deed::Say(
                    "ignored non-upward speech message ("@ + text::decimal(s.len()) + " bytes)"@,
                ),
            ],
        ),
        speech::upward_message(s, Strictness::Lenient) is Err ==> datagram_step(
            state,
            options,
            peer,
            s,
        ).0 == state && datagram_step(state, options, peer, s).1.last() is Complain,
{
    let (after, out) = datagram_step(state, options, peer, s);
    let shown = dump_deeds(options, peer, s);
    if speech::upward_message(s, Strictness::Lenient) is Ok {
        let done = probe_step(state, options, peer, message).1;
        if speech::upward_message(s, Strictness::Lenient)->Ok_0 == Some(message) {
            assert(out == shown + done);
            assert(out.skip(out.len() - done.len()) =~= done);
            if !options.dump {
                assert(out =~= done);
            }
        }
    }
}

/// The probe does not start beside the vendor's service: the message names its
/// processes and the socket.
pub proof fn law_running_service_is_named(pid: u64, socket: Seq<char>)
    ensures
        still_running(seq![pid], socket) == "mico_aivs_lab is still running (PID "@ + text::decimal(
            pid as nat,
        ) + "); stop it before binding "@ + socket,
{
    native::law_lists_have_commas(Seq::empty(), pid);
}

} // verus!
