//! A probe of the vendor's recognition service: its command line, the credentials
//! it finds, and the events it posts.
use vstd::prelude::*;
use crate::text;
use crate::vpm::{ByteOrder, Wording};
use crate::vpm;

verus! {

// ------------------------------------------------------------------ arguments

/// How a recording is sent for recognition.
#[derive(Debug)]
pub struct AsrOptions {
    pub pcm_path: String,
    pub token_path: String,
    pub wait_ms: u64,
    pub chunk_ms: u64,
    pub no_throttle: bool,
    pub engine_mode: i32,
    pub exit_on_final: bool,
    pub allow_cloud_execution: bool,
}

/// How a recording is sent, as a mathematical value. The recording may not be
/// given yet.
pub struct AsrChoice {
    pub pcm_path: Option<Seq<char>>,
    pub token_path: Seq<char>,
    pub wait_ms: u64,
    pub chunk_ms: u64,
    pub no_throttle: bool,
    pub engine_mode: i32,
    pub exit_on_final: bool,
    pub allow_cloud_execution: bool,
}

impl View for AsrOptions {
    type V = AsrChoice;

    open spec fn view(&self) -> AsrChoice {
        AsrChoice {
            pcm_path: Some(self.pcm_path@),
            token_path: self.token_path@,
            wait_ms: self.wait_ms,
            chunk_ms: self.chunk_ms,
            no_throttle: self.no_throttle,
            engine_mode: self.engine_mode,
            exit_on_final: self.exit_on_final,
            allow_cloud_execution: self.allow_cloud_execution,
        }
    }
}

/// How a recording is sent when nothing is asked for.
pub open spec fn default_choice() -> AsrChoice {
    AsrChoice {
        pcm_path: None,
        token_path: "/data/TOKEN"@,
        wait_ms: 15_000,
        chunk_ms: 100,
        no_throttle: false,
        engine_mode: 0,
        exit_on_final: true,
        allow_cloud_execution: false,
    }
}

/// The text at a position, where there is one.
pub open spec fn arg_at(args: Seq<Seq<char>>, i: int) -> Option<Seq<char>> {
    if 0 <= i < args.len() {
        Some(args[i])
    } else {
        None
    }
}

/// The number that a value spells, or what is wrong with it.
pub open spec fn u64_arg(name: Seq<char>, value: Option<Seq<char>>) -> Result<u64, Seq<char>> {
    match value {
        None => Err(name + " requires a value"@),
        Some(s) => match text::unsigned_value(s) {
            Some(n) if n <= u64::MAX => Ok(n as u64),
            _ => Err("invalid "@ + name + ": "@ + text::u64_parse_error(s)),
        },
    }
}

/// The number that a value spells, or what is wrong with it.
pub open spec fn i32_arg(name: Seq<char>, value: Option<Seq<char>>) -> Result<i32, Seq<char>> {
    match value {
        None => Err(name + " requires a value"@),
        Some(s) => match text::signed_value(s) {
            Some(n) if i32::MIN <= n <= i32::MAX => Ok(n as i32),
            _ => Err("invalid "@ + name + ": "@ + text::i32_parse_error(s)),
        },
    }
}

/// What the arguments from position `i` on ask for, on top of `choice`. The first
/// argument that is no option is the recording.
pub open spec fn choice_from(args: Seq<Seq<char>>, i: int, choice: AsrChoice) -> Result<
    AsrChoice,
    Seq<char>,
>
    decreases args.len() - i,
{
    if i < 0 || i >= args.len() {
        if choice.pcm_path is None {
            Err("--asr-file requires a PCM s16le path"@)
        } else {
            Ok(choice)
        }
    } else {
        let arg = args[i];
        let value = arg_at(args, i + 1);
        if arg == "--token"@ {
            match value {
                None => Err("--token requires a path"@),
                Some(path) => choice_from(args, i + 2, AsrChoice { token_path: path, ..choice }),
            }
        } else if arg == "--wait-ms"@ {
            match u64_arg(arg, value) {
                Err(e) => Err(e),
                Ok(n) => choice_from(args, i + 2, AsrChoice { wait_ms: n, ..choice }),
            }
        } else if arg == "--chunk-ms"@ {
            match u64_arg(arg, value) {
                Err(e) => Err(e),
                Ok(n) => choice_from(args, i + 2, AsrChoice { chunk_ms: n, ..choice }),
            }
        } else if arg == "--no-throttle"@ {
            choice_from(args, i + 1, AsrChoice { no_throttle: true, ..choice })
        } else if arg == "--keep-after-final"@ {
            choice_from(args, i + 1, AsrChoice { exit_on_final: false, ..choice })
        } else if arg == "--allow-cloud-execution"@ {
            choice_from(args, i + 1, AsrChoice { allow_cloud_execution: true, ..choice })
        } else if arg == "--engine-mode"@ {
            match i32_arg(arg, value) {
                Err(e) => Err(e),
                Ok(n) => choice_from(args, i + 2, AsrChoice { engine_mode: n, ..choice }),
            }
        } else if choice.pcm_path is None {
            choice_from(args, i + 1, AsrChoice { pcm_path: Some(arg), ..choice })
        } else {
            Err("unexpected argument: "@ + arg)
        }
    }
}

fn missing_value(name: &str) -> (r: String)
    ensures
        r@ == name@ + " requires a value"@,
{
    let mut out: String = name.to_owned();
    out.append(" requires a value");
    out
}

fn invalid_value(name: &str, message: &str) -> (r: String)
    ensures
        r@ == "invalid "@ + name@ + ": "@ + message@,
{
    let mut out: String = "invalid ".to_owned();
    out.append(name);
    out.append(": ");
    out.append(message);
    out
}

/// The text of an optional string reference.
pub open spec fn opt_string(value: Option<&String>) -> Option<Seq<char>> {
    match value {
        Some(s) => Some(s@),
        None => None,
    }
}

/// Reads the number given for an option.
pub fn parse_u64_arg(name: &str, value: Option<&String>) -> (r: Result<u64, String>)
    ensures
        match u64_arg(name@, opt_string(value)) {
            Ok(n) => r == Ok::<u64, String>(n),
            Err(e) => r matches Err(x) && x@ == e,
        },
{
    match value {
        None => Err(missing_value(name)),
        Some(s) => match text::parse_u64(s.as_str()) {
            Ok(n) => Ok(n),
            Err(e) => Err(invalid_value(name, e.as_str())),
        },
    }
}

/// Reads the number given for an option.
pub fn parse_i32_arg(name: &str, value: Option<&String>) -> (r: Result<i32, String>)
    ensures
        match i32_arg(name@, opt_string(value)) {
            Ok(n) => r == Ok::<i32, String>(n),
            Err(e) => r matches Err(x) && x@ == e,
        },
{
    match value {
        None => Err(missing_value(name)),
        Some(s) => match text::parse_i32(s.as_str()) {
            Ok(n) => Ok(n),
            Err(e) => Err(invalid_value(name, e.as_str())),
        },
    }
}

fn value_at(args: &Vec<String>, i: usize) -> (r: Option<&String>)
    ensures
        opt_string(r) == arg_at(text::texts(args@), i as int),
{
    if i < args.len() {
        Some(&args[i])
    } else {
        None
    }
}

/// Reads the arguments behind `--asr-file`.
pub fn parse_asr_options(args: &Vec<String>) -> (r: Result<AsrOptions, String>)
    ensures
        match choice_from(text::texts(args@), 0, default_choice()) {
            Ok(choice) => r matches Ok(options) && options@ == choice,
            Err(e) => r matches Err(x) && x@ == e,
        },
{
    let ghost all = text::texts(args@);
    let n: usize = args.len();
    let mut pcm_path: Option<String> = None;
    let mut token_path: String = "/data/TOKEN".to_owned();
    let mut wait_ms: u64 = 15_000;
    let mut chunk_ms: u64 = 100;
    let mut no_throttle: bool = false;
    let mut engine_mode: i32 = 0;
    let mut exit_on_final: bool = true;
    let mut allow_cloud_execution: bool = false;
    let mut i: usize = 0;
    while i < n
        invariant
            n == args@.len(),
            all == text::texts(args@),
            i <= n,
            choice_from(all, 0, default_choice()) == choice_from(
                all,
                i as int,
                AsrChoice {
                    pcm_path: crate::speech::opt_text(pcm_path),
                    token_path: token_path@,
                    wait_ms,
                    chunk_ms,
                    no_throttle,
                    engine_mode,
                    exit_on_final,
                    allow_cloud_execution,
                },
            ),
        decreases n - i,
    {
        let arg: &str = args[i].as_str();
        assert(all[i as int] == arg@);
        let mut used: usize = 1;
        if text::same_text(arg, "--token") {
            match value_at(args, i + 1) {
                Some(path) => {
                    token_path = path.clone();
                },
                None => {
                    return Err("--token requires a path".to_owned());
                },
            }
            used = 2;
        } else if text::same_text(arg, "--wait-ms") {
            match parse_u64_arg("--wait-ms", value_at(args, i + 1)) {
                Ok(n) => {
                    wait_ms = n;
                },
                Err(e) => {
                    return Err(e);
                },
            }
            used = 2;
        } else if text::same_text(arg, "--chunk-ms") {
            match parse_u64_arg("--chunk-ms", value_at(args, i + 1)) {
                Ok(n) => {
                    chunk_ms = n;
                },
                Err(e) => {
                    return Err(e);
                },
            }
            used = 2;
        } else if text::same_text(arg, "--no-throttle") {
            no_throttle = true;
        } else if text::same_text(arg, "--keep-after-final") {
            exit_on_final = false;
        } else if text::same_text(arg, "--allow-cloud-execution") {
            allow_cloud_execution = true;
        } else if text::same_text(arg, "--engine-mode") {
            match parse_i32_arg("--engine-mode", value_at(args, i + 1)) {
                Ok(n) => {
                    engine_mode = n;
                },
                Err(e) => {
                    return Err(e);
                },
            }
            used = 2;
        } else if pcm_path.is_none() {
            pcm_path = Some(arg.to_owned());
        } else {
            let mut out: String = "unexpected argument: ".to_owned();
            out.append(arg);
            return Err(out);
        }
        i = i + used;
    }
    match pcm_path {
        Some(pcm_path) => Ok(
            AsrOptions {
                pcm_path,
                token_path,
                wait_ms,
                chunk_ms,
                no_throttle,
                engine_mode,
                exit_on_final,
                allow_cloud_execution,
            },
        ),
        None => Err("--asr-file requires a PCM s16le path".to_owned()),
    }
}

/// What a command line asks the probe to do.
#[derive(Debug)]
pub enum AivsCommand {
    /// Show how the probe is used.
    Usage,
    EventBuild(Option<String>),
    InstructionBuild(Option<String>),
    PostDataNull,
    EngineCreateNull,
    EngineCreateMinimal,
    EngineCreateFakeClient,
    EngineVtable,
    RegisterSlot(usize),
    AsrFile(AsrOptions),
}

/// Whether a command is the one that a command line asks for, apart from what can
/// be wrong with it.
pub open spec fn asks_for(args: Seq<Seq<char>>, command: AivsCommand) -> bool {
    let value = arg_at(args, 1);
    match arg_at(args, 0) {
        None => command is Usage,
        Some(name) => if name == "--event-build-probe"@ {
            command matches AivsCommand::EventBuild(json) && crate::speech::opt_text(json) == value
        } else if name == "--instruction-build-probe"@ {
            command matches AivsCommand::InstructionBuild(json) && crate::speech::opt_text(json)
                == value
        } else if name == "--post-data-null-probe"@ {
            command is PostDataNull
        } else if name == "--engine-create-null-probe"@ {
            command is EngineCreateNull
        } else if name == "--engine-create-minimal-probe"@ {
            command is EngineCreateMinimal
        } else if name == "--engine-create-fake-client-probe"@ {
            command is EngineCreateFakeClient
        } else if name == "--engine-vtable-probe"@ {
            command is EngineVtable
        } else if name == "--register-slot-probe"@ {
            command matches AivsCommand::RegisterSlot(slot) && match value {
                None => slot == ENGINE_VTABLE_REGISTER_CAPABILITY,
                Some(s) => text::unsigned_value(s) == Some(slot as int),
            }
        } else if name == "--asr-file"@ {
            command matches AivsCommand::AsrFile(options) && choice_from(
                args.skip(1),
                0,
                default_choice(),
            ) == Ok::<AsrChoice, Seq<char>>(options@)
        } else {
            command is Usage
        },
    }
}

/// What is wrong with a command line, where something is.
pub open spec fn command_error(args: Seq<Seq<char>>) -> Option<Seq<char>> {
    match arg_at(args, 0) {
        None => None,
        Some(name) => if name == "--register-slot-probe"@ {
            match arg_at(args, 1) {
                None => None,
                Some(s) => match text::unsigned_value(s) {
                    Some(n) if n <= usize::MAX => None,
                    _ => Some("invalid slot: "@ + text::usize_parse_error(s)),
                },
            }
        } else if name == "--asr-file"@ {
            match choice_from(args.skip(1), 0, default_choice()) {
                Ok(_) => None,
                Err(e) => Some(e),
            }
        } else {
            None
        },
    }
}

fn copy_value(args: &Vec<String>, i: usize) -> (r: Option<String>)
    ensures
        crate::speech::opt_text(r) == arg_at(text::texts(args@), i as int),
{
    match value_at(args, i) {
        Some(s) => Some(s.clone()),
        None => None,
    }
}

fn rest_of(args: &Vec<String>) -> (r: Vec<String>)
    requires
        args@.len() > 0,
    ensures
        text::texts(r@) == text::texts(args@).skip(1),
{
    let mut out: Vec<String> = Vec::new();
    let mut i: usize = 1;
    while i < args.len()
        invariant
            1 <= i <= args@.len(),
            out@.len() == i - 1,
            forall|j: int| 0 <= j < out@.len() ==> (#[trigger] out@[j])@ == args@[j + 1]@,
        decreases args@.len() - i,
    {
        out.push(args[i].clone());
        i = i + 1;
    }
    assert(text::texts(out@) =~= text::texts(args@).skip(1));
    out
}

/// Reads a command line, without the program's name.
pub fn parse_command(args: &Vec<String>) -> (r: Result<AivsCommand, String>)
    ensures
        match command_error(text::texts(args@)) {
            Some(e) => r matches Err(x) && x@ == e,
            None => r matches Ok(command) && asks_for(text::texts(args@), command),
        },
{
    if args.len() == 0 {
        return Ok(AivsCommand::Usage);
    }
    let ghost all = text::texts(args@);
    let name: &str = args[0].as_str();
    assert(all[0] == name@);
    proof {
        reveal_strlit("--event-build-probe");
        reveal_strlit("--instruction-build-probe");
        reveal_strlit("--post-data-null-probe");
        reveal_strlit("--engine-create-null-probe");
        reveal_strlit("--engine-create-minimal-probe");
        reveal_strlit("--engine-create-fake-client-probe");
        reveal_strlit("--engine-vtable-probe");
        reveal_strlit("--register-slot-probe");
        reveal_strlit("--asr-file");
        assert("--engine-vtable-probe"@[2] == 'e');
        assert("--register-slot-probe"@[2] == 'r');
    }
    if text::same_text(name, "--event-build-probe") {
        Ok(AivsCommand::EventBuild(copy_value(args, 1)))
    } else if text::same_text(name, "--instruction-build-probe") {
        Ok(AivsCommand::InstructionBuild(copy_value(args, 1)))
    } else if text::same_text(name, "--post-data-null-probe") {
        Ok(AivsCommand::PostDataNull)
    } else if text::same_text(name, "--engine-create-null-probe") {
        Ok(AivsCommand::EngineCreateNull)
    } else if text::same_text(name, "--engine-create-minimal-probe") {
        Ok(AivsCommand::EngineCreateMinimal)
    } else if text::same_text(name, "--engine-create-fake-client-probe") {
        Ok(AivsCommand::EngineCreateFakeClient)
    } else if text::same_text(name, "--engine-vtable-probe") {
        Ok(AivsCommand::EngineVtable)
    } else if text::same_text(name, "--register-slot-probe") {
        match parse_slot(value_at(args, 1)) {
            Ok(slot) => Ok(AivsCommand::RegisterSlot(slot)),
            Err(e) => Err(e),
        }
    } else if text::same_text(name, "--asr-file") {
        match parse_asr_options(&rest_of(args)) {
            Ok(options) => Ok(AivsCommand::AsrFile(options)),
            Err(e) => Err(e),
        }
    } else {
        Ok(AivsCommand::Usage)
    }
}

/// A value that is given, or a file that holds it.
#[derive(Debug)]
pub enum JsonArg {
    Given(String),
    File(String),
}

/// Whether an argument is a value or, with `@` before it, the file that holds it.
pub fn read_json_arg(arg: &str) -> (r: JsonArg)
    ensures
        match text::stripped_prefix(arg@, "@"@) {
            Some(path) => r matches JsonArg::File(x) && x@ == path,
            None => r matches JsonArg::Given(x) && x@ == arg@,
        },
{
    match text::strip_prefix(arg, "@") {
        Some(path) => JsonArg::File(path),
        None => JsonArg::Given(arg.to_owned()),
    }
}

/// The slot that capabilities are registered through.
pub const ENGINE_VTABLE_REGISTER_CAPABILITY: usize = 0;

pub const ENGINE_VTABLE_POST_EVENT: usize = 1;

pub const ENGINE_VTABLE_POST_DATA: usize = 2;

pub const ENGINE_VTABLE_START: usize = 8;

pub const ENGINE_VTABLE_SET_AUTHORIZATION_TOKENS: usize = 13;

/// Reads the slot to try; the usual one where none is given.
pub fn parse_slot(slot: Option<&String>) -> (r: Result<usize, String>)
    ensures
        match opt_string(slot) {
            None => r == Ok::<usize, String>(ENGINE_VTABLE_REGISTER_CAPABILITY),
            Some(s) => match text::unsigned_value(s) {
                Some(n) if n <= usize::MAX => r == Ok::<usize, String>(n as usize),
                _ => r matches Err(e) && e@ == "invalid slot: "@ + text::usize_parse_error(s),
            },
        },
{
    match slot {
        None => Ok(ENGINE_VTABLE_REGISTER_CAPABILITY),
        Some(s) => match text::parse_usize(s.as_str()) {
            Ok(n) => Ok(n),
            Err(e) => {
                let mut out: String = "invalid slot: ".to_owned();
                out.append(e.as_str());
                Err(out)
            },
        },
    }
}

// ---------------------------------------------------------------- credentials

/// A name in quotation marks.
pub open spec fn quoted(key: Seq<char>) -> Seq<char> {
    "\""@ + key + "\""@
}

/// Where the value of a name begins: behind the first colon after the first place
/// where the name stands in quotation marks.
pub open spec fn value_start(json: Seq<char>, key: Seq<char>) -> Option<int> {
    match text::find_from(json, quoted(key), 0) {
        None => None,
        Some(at) => match text::find_char_from(json, ':', at + quoted(key).len()) {
            None => None,
            Some(colon) => Some(colon + 1),
        },
    }
}

fn find_value(json: &Vec<char>, key: &str) -> (r: Option<usize>)
    ensures
        match value_start(json@, key@) {
            Some(at) => r matches Some(x) && x == at && x <= json@.len(),
            None => r is None,
        },
{
    let mut pattern: String = "\"".to_owned();
    pattern.append(key);
    pattern.append("\"");
    let pattern: Vec<char> = text::chars_of(pattern.as_str());
    let n: usize = json.len();
    assert(n == json@.len());
    match text::find_chars(json.as_slice(), pattern.as_slice(), 0) {
        None => None,
        Some(at) => match text::find_char(json.as_slice(), ':', at + pattern.len()) {
            None => None,
            Some(colon) => Some(colon + 1),
        },
    }
}

/// The character that an escape stands for.
pub open spec fn escaped(c: char) -> char {
    if c == 'b' {
        '\u{8}'
    } else if c == 'f' {
        '\u{c}'
    } else if c == 'n' {
        '\n'
    } else if c == 'r' {
        '\r'
    } else if c == 't' {
        '\t'
    } else {
        c
    }
}

/// The text up to the next quotation mark, escapes resolved; nothing where there
/// is none.
pub open spec fn unquoted(s: Seq<char>) -> Option<Seq<char>>
    decreases s.len(),
{
    if s.len() == 0 {
        None
    } else if s[0] == '"' {
        Some(Seq::empty())
    } else if s[0] == '\\' {
        if s.len() < 2 {
            None
        } else {
            match unquoted(s.skip(2)) {
                Some(rest) => Some(seq![escaped(s[1])] + rest),
                None => None,
            }
        }
    } else {
        match unquoted(s.skip(1)) {
            Some(rest) => Some(seq![s[0]] + rest),
            None => None,
        }
    }
}

/// The text under a name.
pub open spec fn string_field(json: Seq<char>, key: Seq<char>) -> Option<Seq<char>> {
    match value_start(json, key) {
        None => None,
        Some(at) => match text::find_char_from(json, '"', at) {
            None => None,
            Some(quote) => unquoted(json.skip(quote + 1)),
        },
    }
}

fn resolve_escape(c: char) -> (r: char)
    ensures
        r == escaped(c),
{
    match c {
        'b' => '\u{8}',
        'f' => '\u{c}',
        'n' => '\n',
        'r' => '\r',
        't' => '\t',
        other => other,
    }
}

/// Puts a text before an optional one.
spec fn behind(before: Seq<char>, rest: Option<Seq<char>>) -> Option<Seq<char>> {
    match rest {
        Some(rest) => Some(before + rest),
        None => None,
    }
}

fn read_unquoted(json: &Vec<char>, from: usize) -> (r: Option<String>)
    requires
        from <= json@.len(),
    ensures
        match unquoted(json@.skip(from as int)) {
            Some(s) => r matches Some(x) && x@ == s,
            None => r is None,
        },
{
    let n: usize = json.len();
    let ghost whole = json@.skip(from as int);
    let mut out = String::new();
    let mut i: usize = from;
    proof {
        if let Some(s) = unquoted(whole) {
            assert(out@ + s =~= s);
        }
    }
    while i < n
        invariant
            from <= i <= n == json@.len(),
            whole == json@.skip(from as int),
            unquoted(whole) == behind(out@, unquoted(json@.skip(i as int))),
        decreases n - i,
    {
        let ghost rest = json@.skip(i as int);
        let ghost before = out@;
        let c: char = json[i];
        assert(rest[0] == c);
        if c == '"' {
            assert(out@ + Seq::<char>::empty() =~= out@);
            return Some(out);
        }
        if c == '\\' {
            if n - i < 2 {
                return None;
            }
            let e: char = json[i + 1];
            assert(rest[1] == e);
            assert(rest.skip(2) =~= json@.skip(i + 2));
            out.push(resolve_escape(e));
            proof {
                if let Some(tail) = unquoted(json@.skip(i + 2)) {
                    assert(before + (seq![escaped(e)] + tail) =~= out@ + tail);
                }
            }
            i = i + 2;
        } else {
            assert(rest.skip(1) =~= json@.skip(i + 1));
            out.push(c);
            proof {
                if let Some(tail) = unquoted(json@.skip(i + 1)) {
                    assert(before + (seq![c] + tail) =~= out@ + tail);
                }
            }
            i = i + 1;
        }
    }
    None
}

/// Reads the text under a name, without reading the rest.
pub fn json_string_field(json: &str, key: &str) -> (r: Option<String>)
    ensures
        match string_field(json@, key@) {
            Some(s) => r matches Some(x) && x@ == s,
            None => r is None,
        },
{
    let chars: Vec<char> = text::chars_of(json);
    let n: usize = chars.len();
    assert(n == chars@.len());
    match find_value(&chars, key) {
        None => None,
        Some(at) => match text::find_char(chars.as_slice(), '"', at) {
            None => None,
            Some(quote) => read_unquoted(&chars, quote + 1),
        },
    }
}

/// How many characters at the start of `s` are digits or dashes.
pub open spec fn number_len(s: Seq<char>) -> int
    decreases s.len(),
{
    if s.len() > 0 && (text::is_digit(s[0]) || s[0] == '-') {
        1 + number_len(s.skip(1))
    } else {
        0
    }
}

/// The whole number under a name.
pub open spec fn i64_field(json: Seq<char>, key: Seq<char>) -> Option<i64> {
    match value_start(json, key) {
        None => None,
        Some(at) => {
            let tail = text::trimmed_start(json.skip(at));
            match text::signed_value(tail.take(number_len(tail))) {
                Some(n) if i64::MIN <= n <= i64::MAX => Some(n as i64),
                _ => None,
            }
        },
    }
}

fn count_number(chars: &Vec<char>) -> (r: usize)
    ensures
        r == number_len(chars@),
        r <= chars@.len(),
{
    let mut i: usize = 0;
    assert(chars@.skip(0) =~= chars@);
    while i < chars.len() && (text::digit(chars[i]) || chars[i] == '-')
        invariant
            i <= chars@.len(),
            number_len(chars@) == i + number_len(chars@.skip(i as int)),
        decreases chars@.len() - i,
    {
        assert(chars@.skip(i as int).skip(1) =~= chars@.skip(i + 1));
        i = i + 1;
    }
    i
}

/// Reads the whole number under a name, without reading the rest.
pub fn json_i64_field(json: &str, key: &str) -> (r: Option<i64>)
    ensures
        r == i64_field(json@, key@),
{
    let chars: Vec<char> = text::chars_of(json);
    match find_value(&chars, key) {
        None => None,
        Some(at) => {
            assert(chars@.subrange(at as int, chars@.len() as int) =~= chars@.skip(at as int));
            let rest: String = text::string_between(chars.as_slice(), at, chars.len());
            let tail: String = text::trim_start(rest.as_str());
            let tail: Vec<char> = text::chars_of(tail.as_str());
            let n: usize = count_number(&tail);
            assert(tail@.subrange(0, n as int) =~= tail@.take(n as int));
            let number: String = text::string_between(tail.as_slice(), 0, n);
            text::parse_i64(number.as_str())
        },
    }
}

/// Credentials without the name of their header.
pub open spec fn bare_credentials(value: Seq<char>) -> Seq<char> {
    match text::stripped_prefix(value, "Authorization:"@) {
        Some(rest) => text::trimmed(rest),
        None => value,
    }
}

/// Credentials without the name of their header.
pub fn normalize_auth_header(value: &str) -> (r: String)
    ensures
        r@ == bare_credentials(value@),
{
    match text::strip_prefix(value, "Authorization:") {
        Some(rest) => text::trim(rest.as_str()),
        None => value.to_owned(),
    }
}

/// The field of a header behind a key, up to a comma and without white space
/// around it, where it is not empty.
pub open spec fn header_field(value: Seq<char>, key: Seq<char>) -> Option<Seq<char>> {
    match text::find_from(value, key, 0) {
        None => None,
        Some(at) => {
            let start = at + key.len();
            let end = match text::find_char_from(value, ',', start) {
                Some(end) => end,
                None => value.len() as int,
            };
            let field = text::trimmed(value.subrange(start, end));
            if field.len() == 0 {
                None
            } else {
                Some(field)
            }
        },
    }
}

/// Reads the field of a header behind a key.
pub fn miot_header_field(value: &str, key: &str) -> (r: Option<String>)
    ensures
        match header_field(value@, key@) {
            Some(s) => r matches Some(x) && x@ == s,
            None => r is None,
        },
{
    let chars: Vec<char> = text::chars_of(value);
    let pattern: Vec<char> = text::chars_of(key);
    let n: usize = chars.len();
    assert(n == chars@.len());
    match text::find_chars(chars.as_slice(), pattern.as_slice(), 0) {
        None => None,
        Some(at) => {
            let start: usize = at + pattern.len();
            let end: usize = match text::find_char(chars.as_slice(), ',', start) {
                Some(end) => end,
                None => chars.len(),
            };
            let field: String = text::string_between(chars.as_slice(), start, end);
            let field: String = text::trim(field.as_str());
            if field.as_str().is_empty() {
                None
            } else {
                Some(field)
            }
        },
    }
}

/// Credentials for the service, from their parts.
pub open spec fn suffix_of(session_id: Seq<char>, token: Seq<char>) -> Seq<char> {
    "session_id:"@ + session_id + ",token:"@ + token
}

/// Credentials for the service, from their parts.
pub fn miot_auth_suffix_from_parts(session_id: &str, token: &str) -> (r: String)
    ensures
        r@ == suffix_of(session_id@, token@),
{
    let mut out: String = "session_id:".to_owned();
    out.append(session_id);
    out.append(",token:");
    out.append(token);
    out
}

/// Credentials for the service that stand in a header.
pub open spec fn header_suffix(value: Seq<char>) -> Option<Seq<char>> {
    match (header_field(value, "session_id:"@), header_field(value, "token:"@)) {
        (Some(session_id), Some(token)) => Some(suffix_of(session_id, token)),
        _ => None,
    }
}

/// Reads credentials for the service that stand in a header.
pub fn miot_auth_suffix(value: &str) -> (r: Option<String>)
    ensures
        match header_suffix(value@) {
            Some(s) => r matches Some(x) && x@ == s,
            None => r is None,
        },
{
    match (miot_header_field(value, "session_id:"), miot_header_field(value, "token:")) {
        (Some(session_id), Some(token)) => Some(
            miot_auth_suffix_from_parts(session_id.as_str(), token.as_str()),
        ),
        _ => None,
    }
}

/// Credentials for the service that stand in two files, where neither is blank.
pub fn miio_auth_suffix(token: &str, session_id: &str) -> (r: Option<String>)
    ensures
        if text::is_blank(token@) || text::is_blank(session_id@) {
            r is None
        } else {
            r matches Some(x) && x@ == suffix_of(
                text::trimmed(session_id@),
                text::trimmed(token@),
            )
        },
{
    let token: String = text::trim(token);
    let session_id: String = text::trim(session_id);
    if token.as_str().is_empty() || session_id.as_str().is_empty() {
        None
    } else {
        Some(miot_auth_suffix_from_parts(session_id.as_str(), token.as_str()))
    }
}

/// Who asks for recognition, and with what credentials.
#[derive(Debug)]
pub struct AsrIdentity {
    pub auth: String,
    pub auth_callback: String,
    pub expire_at: i64,
    pub device_id: String,
    pub auth_client_id: String,
    pub bind_id: String,
    pub miot_did: String,
}

/// The first of two texts that is there.
pub open spec fn or_else(first: Option<Seq<char>>, second: Seq<char>) -> Seq<char> {
    match first {
        Some(s) => s,
        None => second,
    }
}

/// Reads who asks from the token file. `stored` are the credentials of the
/// speaker's own files, where they are there.
pub fn read_identity(token_json: &str, token_path: &str, stored: Option<String>) -> (r: Result<
    AsrIdentity,
    String,
>)
    ensures
        match string_field(token_json@, "xiaoai_token"@) {
            None => r matches Err(e) && e@ == token_path@ + " has no xiaoai_token field"@,
            Some(token) => r matches Ok(id) && {
                let auth = bare_credentials(token);
                let device = or_else(
                    string_field(token_json@, "device_id"@),
                    "xiaoai-agent-asr-device"@,
                );
                &&& id.auth@ == auth
                &&& id.auth_callback@ == match crate::speech::opt_text(stored) {
                    Some(s) => s,
                    None => or_else(header_suffix(auth), auth),
                }
                &&& id.expire_at == match i64_field(token_json@, "expire_at"@) {
                    Some(n) => n,
                    None => 0i64,
                }
                &&& id.device_id@ == device
                &&& id.auth_client_id@ == or_else(string_field(token_json@, "app_id"@), device)
                &&& id.bind_id@ == or_else(
                    string_field(token_json@, "bind_id"@),
                    "xiaoai-agent-asr-bind"@,
                )
                &&& id.miot_did@ == or_else(
                    string_field(token_json@, "miot_did"@),
                    "xiaoai-agent-asr-miot"@,
                )
            },
        },
{
    let token: String = match json_string_field(token_json, "xiaoai_token") {
        Some(token) => token,
        None => {
            let mut out: String = token_path.to_owned();
            out.append(" has no xiaoai_token field");
            return Err(out);
        },
    };
    let auth: String = normalize_auth_header(token.as_str());
    let auth_callback: String = match stored {
        Some(s) => s,
        None => match miot_auth_suffix(auth.as_str()) {
            Some(s) => s,
            None => auth.clone(),
        },
    };
    let expire_at: i64 = match json_i64_field(token_json, "expire_at") {
        Some(n) => n,
        None => 0,
    };
    let device_id: String = match json_string_field(token_json, "device_id") {
        Some(s) => s,
        None => "xiaoai-agent-asr-device".to_owned(),
    };
    let auth_client_id: String = match json_string_field(token_json, "app_id") {
        Some(s) => s,
        None => device_id.clone(),
    };
    let bind_id: String = match json_string_field(token_json, "bind_id") {
        Some(s) => s,
        None => "xiaoai-agent-asr-bind".to_owned(),
    };
    let miot_did: String = match json_string_field(token_json, "miot_did") {
        Some(s) => s,
        None => "xiaoai-agent-asr-miot".to_owned(),
    };
    Ok(
        AsrIdentity {
            auth,
            auth_callback,
            expire_at,
            device_id,
            auth_client_id,
            bind_id,
            miot_did,
        },
    )
}

// --------------------------------------------------------------------- events

/// The time on the clock, in milliseconds since 1970; zero before that. From
/// `SystemTime::now`; nothing is claimed of it.
#[verifier::external_body]
fn now_millis() -> (r: u128) {
    std::time::SystemTime::now().duration_since(std::time::UNIX_EPOCH).unwrap_or_default().as_millis()
}

/// An identifier made of a word and a time.
pub open spec fn id_at(prefix: Seq<char>, millis: nat) -> Seq<char> {
    prefix + "-"@ + text::decimal(millis)
}

/// An identifier made of a word and a time.
pub fn make_id_at(prefix: &str, millis: u128) -> (r: String)
    ensures
        r@ == id_at(prefix@, millis as nat),
{
    let mut out: String = prefix.to_owned();
    out.append("-");
    out.append(text::wide_decimal_text(millis).as_str());
    out
}

/// Whether a text is an identifier that begins with a word.
pub open spec fn is_id(id: Seq<char>, prefix: Seq<char>) -> bool {
    exists|millis: nat| id == #[trigger] id_at(prefix, millis)
}

/// An identifier made of a word and the time.
pub fn make_id(prefix: &str) -> (r: String)
    ensures
        is_id(r@, prefix@),
{
    let millis: u128 = now_millis();
    let out: String = make_id_at(prefix, millis);
    assert(out@ == id_at(prefix@, millis as nat));
    out
}

/// What asks the service to recognise only, and neither to act nor to speak.
pub open spec fn request_control(id: Seq<char>) -> Seq<char> {
    ",\n  \"context\": [\n    {\n      \"header\": {\n        \"namespace\": \"Execution\",\n        \"name\": \"RequestControl\",\n        \"id\": \""@
        + id
        + "\"\n      },\n      \"payload\": {\n        \"disabled\": [\"NLP\", \"TTS\"]\n      }\n    }\n  ]"@
}

/// The event that begins a recognition.
pub open spec fn recognize_event(
    id: Seq<char>,
    dialog_id: Seq<char>,
    control_id: Option<Seq<char>>,
) -> Seq<char> {
    "{\n  \"header\": {\n    \"namespace\": \"SpeechRecognizer\",\n    \"name\": \"Recognize\",\n    \"id\": \""@
        + id + "\",\n    \"dialog_id\": \""@ + dialog_id + "\"\n  },\n  \"payload\": {}"@
        + match control_id {
        Some(control_id) => request_control(control_id),
        None => Seq::empty(),
    } + "\n}"@
}

/// The event that begins a recognition, under given identifiers.
pub fn recognize_event_with(id: &str, dialog_id: &str, control_id: Option<&str>) -> (r: String)
    ensures
        r@ == recognize_event(id@, dialog_id@, crate::speech::opt_str(control_id)),
{
    let mut context = String::new();
    if let Some(control_id) = control_id {
        context.append(
            ",\n  \"context\": [\n    {\n      \"header\": {\n        \"namespace\": \"Execution\",\n        \"name\": \"RequestControl\",\n        \"id\": \"",
        );
        context.append(control_id);
        context.append(
            "\"\n      },\n      \"payload\": {\n        \"disabled\": [\"NLP\", \"TTS\"]\n      }\n    }\n  ]",
        );
        assert(context@ =~= request_control(control_id@));
    }
    let mut out: String =
        "{\n  \"header\": {\n    \"namespace\": \"SpeechRecognizer\",\n    \"name\": \"Recognize\",\n    \"id\": \"".to_owned();
    out.append(id);
    out.append("\",\n    \"dialog_id\": \"");
    out.append(dialog_id);
    out.append("\"\n  },\n  \"payload\": {}");
    out.append(context.as_str());
    out.append("\n}");
    out
}

/// Whether a text is the event that begins a recognition, under identifiers made
/// of the time.
pub open spec fn is_recognize_event(event: Seq<char>, dialog_id: Seq<char>, asr_only: bool) -> bool {
    if asr_only {
        exists|id: Seq<char>, control_id: Seq<char>|
            is_id(id, "recognize"@) && is_id(control_id, "request-control"@) && event
                == #[trigger] recognize_event(id, dialog_id, Some(control_id))
    } else {
        exists|id: Seq<char>|
            is_id(id, "recognize"@) && event == #[trigger] recognize_event(id, dialog_id, None)
    }
}

/// The event that begins a recognition; `asr_only` asks for nothing else.
pub fn recognize_event_json(dialog_id: &str, asr_only: bool) -> (r: String)
    ensures
        is_recognize_event(r@, dialog_id@, asr_only),
{
    if asr_only {
        let control_id: String = make_id("request-control");
        let id: String = make_id("recognize");
        let r: String = recognize_event_with(id.as_str(), dialog_id, Some(control_id.as_str()));
        assert(r@ == recognize_event(id@, dialog_id@, Some(control_id@)));
        r
    } else {
        let id: String = make_id("recognize");
        let r: String = recognize_event_with(id.as_str(), dialog_id, None);
        assert(r@ == recognize_event(id@, dialog_id@, None));
        r
    }
}

/// The event that ends a recognition.
pub open spec fn finish_event(id: Seq<char>, dialog_id: Seq<char>) -> Seq<char> {
    "{\n  \"header\": {\n    \"namespace\": \"SpeechRecognizer\",\n    \"name\": \"RecognizeStreamFinished\",\n    \"id\": \""@
        + id + "\",\n    \"dialog_id\": \""@ + dialog_id
        + "\"\n  },\n  \"payload\": {}\n}"@
}

/// The event that ends a recognition, under a given identifier.
pub fn finish_event_with(id: &str, dialog_id: &str) -> (r: String)
    ensures
        r@ == finish_event(id@, dialog_id@),
{
    let mut out: String =
        "{\n  \"header\": {\n    \"namespace\": \"SpeechRecognizer\",\n    \"name\": \"RecognizeStreamFinished\",\n    \"id\": \"".to_owned();
    out.append(id);
    out.append("\",\n    \"dialog_id\": \"");
    out.append(dialog_id);
    out.append("\"\n  },\n  \"payload\": {}\n}");
    out
}

/// The event that ends a recognition.
pub fn finish_event_json(dialog_id: &str) -> (r: String)
    ensures
        exists|id: Seq<char>|
            is_id(id, "finish"@) && r@ == #[trigger] finish_event(id, dialog_id@),
{
    let id: String = make_id("finish");
    let r: String = finish_event_with(id.as_str(), dialog_id);
    assert(is_id(id@, "finish"@) && r@ == finish_event(id@, dialog_id@));
    r
}

/// Whether the service made something of a text: it says so with a code that is
/// not zero and a pointer that is not null.
pub fn check_build(what: &str, code: i32, is_null: bool) -> (r: Result<(), String>)
    ensures
        r is Ok <==> code != 0 && !is_null,
        r matches Err(e) ==> e@ == what@ + "::build failed or returned null"@,
{
    if code != 0 && !is_null {
        return Ok(());
    }
    let mut out: String = what.to_owned();
    out.append("::build failed or returned null");
    Err(out)
}

/// Whether the service made an event of a text.
pub fn check_event(json: &str, code: i32, is_null: bool) -> (r: Result<(), String>)
    ensures
        r is Ok <==> code != 0 && !is_null,
        r matches Err(e) ==> e@ == "Event::build failed for "@ + json@,
{
    if code != 0 && !is_null {
        return Ok(());
    }
    let mut out: String = "Event::build failed for ".to_owned();
    out.append(json);
    Err(out)
}

// ---------------------------------------------------------------------- audio

/// The size of the pieces that a recording is sent in: as much as is heard in the
/// time, at least 320 bytes.
pub open spec fn piece_size(chunk_ms: int) -> int {
    let size = 32_000 * chunk_ms / 1_000;
    if size < 320 {
        320
    } else {
        size
    }
}

/// The size of the pieces that a recording is sent in.
pub fn chunk_size(chunk_ms: u64) -> (r: usize)
    requires
        32_000 * chunk_ms <= u64::MAX,
        piece_size(chunk_ms as int) <= usize::MAX,
    ensures
        r == piece_size(chunk_ms as int),
{
    let size: u64 = 32_000 * chunk_ms / 1_000;
    if size < 320 {
        320
    } else {
        size as usize
    }
}

/// A recording in pieces: all of the size, but for the last.
pub open spec fn pieces_of(pcm: Seq<u8>, size: int) -> Seq<Seq<u8>>
    decreases pcm.len(),
{
    if size <= 0 || pcm.len() == 0 {
        Seq::empty()
    } else if pcm.len() <= size {
        seq![pcm]
    } else {
        seq![pcm.take(size)] + pieces_of(pcm.skip(size), size)
    }
}

/// Cuts a recording into pieces.
pub fn chunks(pcm: &[u8], size: usize) -> (r: Vec<Vec<u8>>)
    requires
        size > 0,
    ensures
        crate::vad::blocks(r@) == pieces_of(pcm@, size as int),
{
    let n: usize = pcm.len();
    let mut out: Vec<Vec<u8>> = Vec::new();
    let mut at: usize = 0;
    assert(pcm@.skip(0) =~= pcm@);
    assert(crate::vad::blocks(out@) + pieces_of(pcm@, size as int) =~= pieces_of(
        pcm@,
        size as int,
    ));
    while at < n
        invariant
            size > 0,
            at <= n == pcm@.len(),
            pieces_of(pcm@, size as int) == crate::vad::blocks(out@) + pieces_of(
                pcm@.skip(at as int),
                size as int,
            ),
        decreases n - at,
    {
        let ghost rest = pcm@.skip(at as int);
        let ghost before = out@;
        let end: usize = if n - at <= size {
            n
        } else {
            at + size
        };
        let piece: Vec<u8> = vstd::slice::slice_to_vec(
            vstd::slice::slice_subrange(pcm, at, end),
        );
        out.push(piece);
        proof {
            let tail = pcm@.skip(end as int);
            assert(piece@ =~= if rest.len() <= size {
                rest
            } else {
                rest.take(size as int)
            });
            assert(pieces_of(rest, size as int) =~= seq![piece@] + pieces_of(tail, size as int))
                by {
                if rest.len() <= size {
                    assert(tail.len() == 0);
                } else {
                    assert(rest.skip(size as int) =~= tail);
                }
            }
            assert(crate::vad::blocks(out@) =~= crate::vad::blocks(before).push(piece@));
            assert(crate::vad::blocks(before) + (seq![piece@] + pieces_of(tail, size as int))
                =~= crate::vad::blocks(out@) + pieces_of(tail, size as int));
        }
        at = end;
    }
    assert(pcm@.skip(at as int).len() == 0);
    assert(crate::vad::blocks(out@) + Seq::<Seq<u8>>::empty() =~= crate::vad::blocks(out@));
    out
}

// -------------------------------------------------------------------- results

/// The longest text that is read from the service.
pub const MAX_TEXT_LEN: usize = 4096;

/// Whether an instruction of the service is a result of recognition.
pub fn is_recognize_result(namespace: &str, name: &str) -> (r: bool)
    ensures
        r == (namespace@ == "SpeechRecognizer"@ && name@ == "RecognizeResult"@),
{
    text::same_text(namespace, "SpeechRecognizer") && text::same_text(name, "RecognizeResult")
}

/// The line that reports a result.
pub open spec fn result_line_of(is_final: bool, recognised: Seq<char>) -> Seq<char> {
    "ASR_TEXT final="@ + (if is_final {
        "true"@
    } else {
        "false"@
    }) + " text="@ + recognised
}

/// The line that reports a result.
pub fn result_line(is_final: bool, recognised: &str) -> (r: String)
    ensures
        r@ == result_line_of(is_final, recognised@),
{
    let flag: &str = if is_final {
        "true"
    } else {
        "false"
    };
    let mut out: String = "ASR_TEXT final=".to_owned();
    out.append(flag);
    out.append(" text=");
    out.append(recognised);
    out
}

/// What the service found: whether it is the last of a recognition, and the first
/// text, where there is one.
#[derive(Debug)]
pub struct Finding {
    pub is_final: bool,
    /// Whether there is a first result at all.
    pub has_result: bool,
    /// The bytes of its text; none where they are missing.
    pub bytes: Option<Vec<u8>>,
}

/// The text of a finding; none is read where it is missing or too long.
pub open spec fn finding_text(finding: Finding) -> Seq<char> {
    match finding.bytes {
        Some(bytes) if finding.has_result && bytes@.len() <= MAX_TEXT_LEN => crate::native::lossy_text(bytes@),
        _ => Seq::empty(),
    }
}

/// Reports a finding. Says whether the probe is done: at the last one that holds a
/// result, unless it goes on.
pub fn report_finding(finding: &Finding, exit_on_final: bool) -> (r: (String, bool))
    ensures
        r.0@ == result_line_of(finding.is_final, finding_text(*finding)),
        r.1 == (finding.is_final && finding.has_result && exit_on_final),
{
    let recognised: String = match &finding.bytes {
        Some(bytes) => {
            if finding.has_result && bytes.len() <= MAX_TEXT_LEN {
                crate::native::text_lossy(bytes.as_slice())
            } else {
                String::new()
            }
        },
        None => String::new(),
    };
    (
        result_line(finding.is_final, recognised.as_str()),
        finding.is_final && finding.has_result && exit_on_final,
    )
}

// ------------------------------------------------------------------- mappings

/// The number that a non-empty text of hexadecimal digits spells.
pub open spec fn hex_digits_value(s: Seq<char>) -> Option<nat>
    decreases s.len(),
{
    if s.len() == 0 {
        None
    } else {
        match crate::airplay::hex_value(s.last()) {
            None => None,
            Some(low) => if s.len() == 1 {
                Some(low as nat)
            } else {
                match hex_digits_value(s.drop_last()) {
                    Some(high) => Some((high * 16 + low) as nat),
                    None => None,
                }
            },
        }
    }
}

/// The number that an optional `+` and hexadecimal digits spell.
pub open spec fn hex_number_value(s: Seq<char>) -> Option<nat> {
    hex_digits_value(
        if s.len() > 0 && s[0] == '+' {
            s.skip(1)
        } else {
            s
        },
    )
}

/// Where hexadecimal digits spell a number, so do those in front, and not a larger
/// one.
proof fn lemma_hex_prefix(s: Seq<char>, k: int)
    requires
        1 <= k <= s.len(),
    ensures
        hex_digits_value(s) matches Some(n) ==> hex_digits_value(s.take(k)) matches Some(m) && m
            <= n,
    decreases s.len(),
{
    if k < s.len() {
        lemma_hex_prefix(s.drop_last(), k);
        assert(s.drop_last().take(k) =~= s.take(k));
    } else {
        assert(s.take(k) =~= s);
    }
}

/// Reads an optional `+` and hexadecimal digits whose number fits.
fn parse_hex(s: &str) -> (r: Option<usize>)
    ensures
        r is Some <==> (hex_number_value(s@) matches Some(n) && n <= usize::MAX),
        r matches Some(v) ==> hex_number_value(s@) == Some(v as nat),
{
    let chars: Vec<char> = text::chars_of(s);
    let from: usize = if chars.len() > 0 && chars[0] == '+' {
        1
    } else {
        0
    };
    let ghost digits = chars@.skip(from as int);
    assert(chars@.skip(0) =~= chars@);
    if from == chars.len() {
        return None;
    }
    let mut value: u128 = 0;
    let mut i: usize = from;
    while i < chars.len()
        invariant
            from < chars@.len(),
            from <= i <= chars@.len(),
            digits == chars@.skip(from as int),
            hex_number_value(s@) == hex_digits_value(digits),
            value <= usize::MAX,
            i == from ==> value == 0,
            i > from ==> hex_digits_value(digits.take(i - from)) == Some(value as nat),
        decreases chars@.len() - i,
    {
        let c: char = chars[i];
        let ghost k = i - from;
        proof {
            assert(digits.take(k + 1).last() == c);
            assert(digits.take(k + 1).drop_last() =~= digits.take(k));
            lemma_hex_prefix(digits, k + 1);
        }
        let low: u8 = match crate::airplay::digit_value(c) {
            Some(low) => low,
            None => {
                return None;
            },
        };
        value = value * 16 + low as u128;
        assert(hex_digits_value(digits.take(k + 1)) == Some(value as nat));
        if value > usize::MAX as u128 {
            return None;
        }
        i = i + 1;
    }
    assert(digits.take(digits.len() as int) =~= digits);
    Some(value as usize)
}

/// The part of a text before the first occurrence of a character, where there is
/// one.
pub open spec fn before_char(s: Seq<char>, c: char) -> Option<Seq<char>> {
    match text::find_char_from(s, c, 0) {
        Some(k) => Some(s.take(k)),
        None => None,
    }
}

fn take_before(s: &str, c: char) -> (r: Option<String>)
    ensures
        match before_char(s@, c) {
            Some(t) => r matches Some(x) && x@ == t,
            None => r is None,
        },
{
    let chars: Vec<char> = text::chars_of(s);
    match text::find_char(chars.as_slice(), c, 0) {
        Some(k) => {
            assert(chars@.subrange(0, k as int) =~= chars@.take(k as int));
            Some(text::string_between(chars.as_slice(), 0, k))
        },
        None => None,
    }
}

/// The address at which a line of a list of mappings begins, where the line is
/// about the name.
pub open spec fn mapping_start(line: Seq<char>, name: Seq<char>) -> Option<nat> {
    if !text::contains_text(line, name) {
        None
    } else {
        match before_char(line, ' ') {
            None => None,
            Some(range) => match before_char(range, '-') {
                None => None,
                Some(start) => match hex_number_value(start) {
                    Some(n) if n <= usize::MAX => Some(n),
                    _ => None,
                },
            },
        }
    }
}

/// The address of the first of some lines that gives one.
pub open spec fn first_mapping(lines: Seq<Seq<char>>, name: Seq<char>, i: int) -> Option<nat>
    decreases lines.len() - i,
{
    if i < 0 || i >= lines.len() {
        None
    } else if mapping_start(lines[i], name) is Some {
        mapping_start(lines[i], name)
    } else {
        first_mapping(lines, name, i + 1)
    }
}

/// Looks in a list of mappings for where a library begins.
pub fn find_mapping_base(maps: &str, name: &str) -> (r: Option<usize>)
    ensures
        match first_mapping(text::lines_of(maps@), name@, 0) {
            Some(n) => r matches Some(x) && x == n,
            None => r is None,
        },
{
    let lines: Vec<String> = text::lines(maps);
    let ghost all = text::texts(lines@);
    let mut i: usize = 0;
    while i < lines.len()
        invariant
            i <= lines@.len(),
            all == text::texts(lines@),
            all == text::lines_of(maps@),
            first_mapping(all, name@, 0) == first_mapping(all, name@, i as int),
        decreases lines@.len() - i,
    {
        let line: &str = lines[i].as_str();
        assert(all[i as int] == line@);
        if text::contains(line, name) {
            if let Some(range) = take_before(line, ' ') {
                if let Some(start) = take_before(range.as_str(), '-') {
                    if let Some(address) = parse_hex(start.as_str()) {
                        return Some(address);
                    }
                }
            }
        }
        i = i + 1;
    }
    None
}

// -------------------------------------------------------------------- layouts

/// What a string of the service holds in place: a short text with a zero byte
/// behind it; of a longer one the length.
pub open spec fn string_storage(bytes: Seq<u8>, order: ByteOrder) -> Seq<u8> {
    if bytes.len() < 16 {
        bytes + vpm::zeros((16 - bytes.len()) as nat)
    } else {
        vpm::word_bytes(bytes.len() as u32, order) + vpm::zeros(12)
    }
}

/// What a string of the service holds elsewhere: a longer text with a zero byte
/// behind it.
pub open spec fn string_heap(bytes: Seq<u8>) -> Option<Seq<u8>> {
    if bytes.len() < 16 {
        None
    } else {
        Some(bytes.push(0))
    }
}

/// Lays out a string of the service: what stands in place, and what elsewhere.
pub fn string_layout(value: &str, order: ByteOrder) -> (r: (Vec<u8>, Option<Vec<u8>>))
    requires
        vstd::utf8::encode_utf8(value@).len() <= u32::MAX,
    ensures
        r.0@ == string_storage(vstd::utf8::encode_utf8(value@), order),
        r.0@.len() == 16,
        match string_heap(vstd::utf8::encode_utf8(value@)) {
            Some(heap) => r.1 matches Some(x) && x@ == heap,
            None => r.1 is None,
        },
{
    let bytes: &[u8] = value.as_bytes();
    let mut storage: Vec<u8> = Vec::new();
    if bytes.len() < 16 {
        storage.extend_from_slice(bytes);
        let ghost held = storage@;
        assert(held =~= bytes@);
        storage.resize(16, 0);
        assert forall|i: int| 0 <= i < 16 implies storage@[i] == string_storage(bytes@, order)[i] by {
            if i < bytes@.len() {
                assert(storage@.subrange(0, held.len() as int)[i] == bytes@[i]);
            }
        }
        assert(storage@ =~= string_storage(bytes@, order));
        (storage, None)
    } else {
        storage.resize(16, 0);
        let len: u32 = bytes.len() as u32;
        let ghost before = storage@;
        assert(before =~= vpm::zeros(16));
        match vpm::write_u32(&mut storage, 0, len, order, Wording::Probe) {
            Ok(()) => {},
            Err(_) => {},
        }
        assert(before.skip(4) =~= vpm::zeros(12));
        assert(storage@ =~= string_storage(bytes@, order));
        let mut heap: Vec<u8> = vstd::slice::slice_to_vec(bytes);
        heap.push(0);
        (storage, Some(heap))
    }
}

/// The size of what the service is told of its client, in bytes.
pub const CLIENT_INFO_SIZE: usize = 108;

/// The words that the service is told of its client, and where they stand.
pub open spec fn client_words(
    vtable: u32,
    device_id: u32,
    miot_did: u32,
    bind_id: u32,
    capabilities: u32,
) -> Seq<(usize, u32)> {
    seq![
        (0usize, vtable),
        (4usize, device_id),
        (64usize, miot_did),
        (72usize, bind_id),
        (88usize, device_id),
        (76usize, capabilities),
    ]
}

/// What the service is told of its client.
pub fn client_info(
    vtable: u32,
    device_id: u32,
    miot_did: u32,
    bind_id: u32,
    capabilities: u32,
    order: ByteOrder,
) -> (r: Vec<u8>)
    ensures
        r@ == vpm::with_words(
            vpm::zeros(CLIENT_INFO_SIZE as nat),
            client_words(vtable, device_id, miot_did, bind_id, capabilities),
            order,
        ),
{
    let words: Vec<(usize, u32)> = vec![
        (0, vtable),
        (4, device_id),
        (64, miot_did),
        (72, bind_id),
        (88, device_id),
        (76, capabilities),
    ];
    let ghost expected = client_words(vtable, device_id, miot_did, bind_id, capabilities);
    assert(words@ =~= expected);
    let mut image: Vec<u8> = Vec::new();
    image.resize(CLIENT_INFO_SIZE, 0);
    assert(image@ =~= vpm::zeros(CLIENT_INFO_SIZE as nat));
    let mut i: usize = 0;
    assert(words@.take(0) =~= Seq::empty());
    while i < words.len()
        invariant
            i <= words@.len(),
            words@ == expected,
            expected == client_words(vtable, device_id, miot_did, bind_id, capabilities),
            image@.len() == CLIENT_INFO_SIZE,
            image@ == vpm::with_words(
                vpm::zeros(CLIENT_INFO_SIZE as nat),
                words@.take(i as int),
                order,
            ),
        decreases words@.len() - i,
    {
        let (offset, value): (usize, u32) = words[i];
        assert(offset + 4 <= CLIENT_INFO_SIZE);
        assert(words@.take(i + 1).drop_last() =~= words@.take(i as int));
        match vpm::write_u32(&mut image, offset, value, order, Wording::Probe) {
            Ok(()) => {},
            Err(_) => {},
        }
        i = i + 1;
    }
    assert(words@.take(i as int) =~= words@);
    image
}

/// A key and its value among the settings of the service.
pub open spec fn engine_settings_of(auth_client_id: Seq<char>) -> Seq<(Seq<char>, Seq<char>)> {
    seq![
        ("connection.channel_type"@, "ws-wss"@),
        ("connection.user_agent"@, "aivs_sdk_probe/asr"@),
        ("auth.client_id"@, auth_client_id),
        ("asr.codec"@, "pcm"@),
        ("asr.lang"@, "zh-CN"@),
    ]
}

/// The settings that the service is created with.
pub fn engine_settings(auth_client_id: &str) -> (r: Vec<(String, String)>)
    ensures
        crate::urls::pairs_of(r@) == engine_settings_of(auth_client_id@),
{
    let mut out: Vec<(String, String)> = Vec::new();
    out.push(crate::urls::pair("connection.channel_type", "ws-wss"));
    out.push(crate::urls::pair("connection.user_agent", "aivs_sdk_probe/asr"));
    out.push(crate::urls::pair("auth.client_id", auth_client_id));
    out.push(crate::urls::pair("asr.codec", "pcm"));
    out.push(crate::urls::pair("asr.lang", "zh-CN"));
    assert(crate::urls::pairs_of(out@) =~= engine_settings_of(auth_client_id@));
    out
}

// ----------------------------------------------------------------------- laws

/// A text without quotation marks and backslashes that stands under a name is
/// read back from the file that holds it.
pub proof fn law_plain_text_is_read_back(s: Seq<char>, tail: Seq<char>)
    requires
        forall|i: int| 0 <= i < s.len() ==> (#[trigger] s[i]) != '"' && s[i] != '\\',
    ensures
        unquoted(s + seq!['"'] + tail) == Some(s),
    decreases s.len(),
{
    let whole = s + seq!['"'] + tail;
    if s.len() > 0 {
        let rest = s.skip(1);
        assert(whole.skip(1) =~= rest + seq!['"'] + tail);
        assert(whole[0] == s[0]);
        assert forall|i: int| 0 <= i < rest.len() implies (#[trigger] rest[i]) != '"' && rest[i]
            != '\\' by {
            assert(rest[i] == s[i + 1]);
        }
        law_plain_text_is_read_back(rest, tail);
        assert(seq![s[0]] + rest =~= s);
    } else {
        assert(whole[0] == '"');
        assert(s =~= Seq::empty());
    }
}

/// Credentials that are made of parts are read back, where the parts hold no comma
/// and no white space around them, neither is empty, and the key of the token
/// stands only where it was put.
pub proof fn law_credentials_read_back(session_id: Seq<char>, token: Seq<char>)
    requires
        session_id.len() > 0,
        token.len() > 0,
        text::trimmed(session_id) == session_id,
        text::trimmed(token) == token,
        !session_id.contains(','),
        !token.contains(','),
        text::find_from(suffix_of(session_id, token), "token:"@, 0) == Some(
            session_id.len() + 12int,
        ),
    ensures
        header_suffix(suffix_of(session_id, token)) == Some(suffix_of(session_id, token)),
{
    let value = suffix_of(session_id, token);
    let n = session_id.len() as int;
    reveal_strlit("session_id:");
    reveal_strlit(",token:");
    reveal_strlit("token:");
    assert(value.len() == 18 + n + token.len());
    assert(value.subrange(0, 11) =~= "session_id:"@);
    assert(text::occurs_at(value, "session_id:"@, 0));
    assert forall|j: int| 11 <= j < 11 + n implies value[j] != ',' by {
        assert(value[j] == session_id[j - 11]);
    }
    assert(value[11 + n] == ",token:"@[0]);
    text::lemma_find_char_first(value, ',', 11, 11 + n);
    assert(value.subrange(11, 11 + n) =~= session_id);
    assert forall|j: int| 18 + n <= j < value.len() implies value[j] != ',' by {
        assert(value[j] == token[j - 18 - n]);
    }
    text::lemma_find_char_first(value, ',', 18 + n, value.len() as int);
    assert(value.subrange(18 + n, value.len() as int) =~= token);
}

/// A recording in pieces is the recording, and no piece is longer than the size.
pub proof fn law_pieces_are_the_recording(pcm: Seq<u8>, size: int)
    requires
        size > 0,
    ensures
        crate::vad::flattened(pieces_of(pcm, size)) == pcm,
        forall|i: int|
            0 <= i < pieces_of(pcm, size).len() ==> 0 < (#[trigger] pieces_of(pcm, size)[i]).len()
                <= size,
    decreases pcm.len(),
{
    if pcm.len() == 0 {
        assert(crate::vad::flattened(pieces_of(pcm, size)) =~= pcm);
    } else if pcm.len() <= size {
        let one = seq![pcm];
        assert(one.drop_last() =~= Seq::empty());
        reveal_with_fuel(crate::vad::flattened, 2);
        assert(crate::vad::flattened(one) =~= pcm);
    } else {
        let rest = pcm.skip(size);
        law_pieces_are_the_recording(rest, size);
        crate::vad::lemma_flattened_front(pcm.take(size), pieces_of(rest, size));
        assert(pcm.take(size) + rest =~= pcm);
    }
}

/// Behind a backslash stands a character for another one, or for itself, and what
/// follows is read on.
pub proof fn law_escapes_are_resolved(c: char, rest: Seq<char>)
    ensures
        ({
            let read = |c: char| unquoted(seq!['\\', c] + rest);
            let with = |c: char|
                match unquoted(rest) {
                    Some(s) => Some(seq![c] + s),
                    None => None::<Seq<char>>,
                };
            &&& read('n') == with('\n')
            &&& read('r') == with('\r')
            &&& read('t') == with('\t')
            &&& read('b') == with('\u{8}')
            &&& read('f') == with('\u{c}')
            &&& read('"') == with('"')
            &&& read('\\') == with('\\')
            &&& c != 'n' && c != 'r' && c != 't' && c != 'b' && c != 'f' ==> read(c) == with(c)
        }),
        unquoted(seq!['\\']) is None,
        unquoted(Seq::empty()) is None,
{
    lemma_escape('n', rest);
    lemma_escape('r', rest);
    lemma_escape('t', rest);
    lemma_escape('b', rest);
    lemma_escape('f', rest);
    lemma_escape('"', rest);
    lemma_escape('\\', rest);
    lemma_escape(c, rest);
}

proof fn lemma_escape(c: char, rest: Seq<char>)
    ensures
        unquoted(seq!['\\', c] + rest) == match unquoted(rest) {
            Some(s) => Some(seq![escaped(c)] + s),
            None => None,
        },
{
    let s = seq!['\\', c] + rest;
    assert(s[0] == '\\' && s[1] == c);
    assert(s.skip(2) =~= rest);
}

/// A text under a name is read: the name stands in quotation marks, then a colon,
/// then the text in quotation marks; what stands before, between and behind does not
/// matter.
pub proof fn law_text_fields_are_read(
    before: Seq<char>,
    key: Seq<char>,
    gap: Seq<char>,
    space: Seq<char>,
    s: Seq<char>,
    tail: Seq<char>,
)
    requires
        !gap.contains(':'),
        !space.contains('"'),
        forall|i: int| 0 <= i < s.len() ==> (#[trigger] s[i]) != '"' && s[i] != '\\',
    ensures
        ({
            let name = seq!['"'] + key + seq!['"'];
            let json = before + name + gap + seq![':'] + space + seq!['"'] + s + seq!['"'] + tail;
            text::find_from(json, name, 0) == Some(before.len() as int) ==> string_field(json, key)
                == Some(s)
        }),
{
    reveal_strlit("\"");
    let name = seq!['"'] + key + seq!['"'];
    assert(quoted(key) =~= name);
    let json = before + name + gap + seq![':'] + space + seq!['"'] + s + seq!['"'] + tail;
    let a = (before.len() + name.len()) as int;
    let colon = a + gap.len();
    assert forall|j: int| a <= j < colon implies json[j] != ':' by {
        assert(json[j] == gap[j - a]);
    }
    assert(json[colon] == ':');
    text::lemma_find_char_first(json, ':', a, colon);
    let quote = colon + 1 + space.len();
    assert forall|j: int| colon + 1 <= j < quote implies json[j] != '"' by {
        assert(json[j] == space[j - colon - 1]);
    }
    assert(json[quote] == '"');
    text::lemma_find_char_first(json, '"', colon + 1, quote);
    assert(json.skip(quote + 1) =~= s + seq!['"'] + tail);
    law_plain_text_is_read_back(s, tail);
}

proof fn lemma_number_len(s: Seq<char>, tail: Seq<char>)
    requires
        forall|i: int| 0 <= i < s.len() ==> text::is_digit(#[trigger] s[i]) || s[i] == '-',
        tail.len() == 0 || (!text::is_digit(tail[0]) && tail[0] != '-'),
    ensures
        number_len(s + tail) == s.len(),
    decreases s.len(),
{
    let all = s + tail;
    if s.len() == 0 {
        assert(all =~= tail);
    } else {
        let rest = s.skip(1);
        assert forall|i: int| 0 <= i < rest.len() implies text::is_digit(#[trigger] rest[i])
            || rest[i] == '-' by {
            assert(rest[i] == s[i + 1]);
        }
        lemma_number_len(rest, tail);
        assert(all.skip(1) =~= rest + tail);
        assert(all[0] == s[0]);
    }
}

proof fn lemma_white_start(space: Seq<char>, rest: Seq<char>)
    requires
        forall|i: int| 0 <= i < space.len() ==> text::is_white_space(#[trigger] space[i]),
        rest.len() == 0 || !text::is_white_space(rest[0]),
    ensures
        text::trimmed_start(space + rest) == rest,
    decreases space.len(),
{
    let all = space + rest;
    if space.len() == 0 {
        assert(all =~= rest);
    } else {
        let more = space.skip(1);
        assert forall|i: int| 0 <= i < more.len() implies text::is_white_space(
            #[trigger] more[i],
        ) by {
            assert(more[i] == space[i + 1]);
        }
        lemma_white_start(more, rest);
        assert(all.skip(1) =~= more + rest);
        assert(all[0] == space[0]);
    }
}

/// A whole number of 64 bits under a name is read, whatever white space stands before
/// it and whatever that is no digit and no dash behind it.
pub proof fn law_number_fields_are_read(
    before: Seq<char>,
    key: Seq<char>,
    gap: Seq<char>,
    space: Seq<char>,
    n: i64,
    tail: Seq<char>,
)
    requires
        !gap.contains(':'),
        forall|i: int| 0 <= i < space.len() ==> text::is_white_space(#[trigger] space[i]),
        tail.len() == 0 || (!text::is_digit(tail[0]) && tail[0] != '-'),
    ensures
        ({
            let name = seq!['"'] + key + seq!['"'];
            let json = before + name + gap + seq![':'] + space + text::signed_decimal(n as int)
                + tail;
            text::find_from(json, name, 0) == Some(before.len() as int) ==> i64_field(json, key)
                == Some(n)
        }),
{
    reveal_strlit("\"");
    reveal_strlit("-");
    let number = text::signed_decimal(n as int);
    let name = seq!['"'] + key + seq!['"'];
    assert(quoted(key) =~= name);
    let json = before + name + gap + seq![':'] + space + number + tail;
    let a = (before.len() + name.len()) as int;
    let colon = a + gap.len();
    assert forall|j: int| a <= j < colon implies json[j] != ':' by {
        assert(json[j] == gap[j - a]);
    }
    assert(json[colon] == ':');
    text::lemma_find_char_first(json, ':', a, colon);
    let size = if n < 0 {
        (-(n as int)) as nat
    } else {
        n as nat
    };
    text::law_decimal_is_read_back(size);
    assert(number.len() > 0);
    assert forall|i: int| 0 <= i < number.len() implies text::is_digit(#[trigger] number[i])
        || number[i] == '-' by {
        if n < 0 && i > 0 {
            assert(number[i] == text::decimal(size)[i - 1]);
        }
    }
    assert(json.skip(colon + 1) =~= space + (number + tail));
    assert((number + tail)[0] == number[0]);
    lemma_white_start(space, number + tail);
    lemma_number_len(number, tail);
    assert((number + tail).take(number.len() as int) =~= number);
}

/// The field of a header is what stands behind its key, up to a comma or the end,
/// white space around it aside; one of white space alone is none.
pub proof fn law_header_fields_are_read(
    before: Seq<char>,
    key: Seq<char>,
    field: Seq<char>,
    tail: Seq<char>,
)
    requires
        !field.contains(','),
    ensures
        ({
            let ended = before + key + field + seq![','] + tail;
            let last = before + key + field;
            let read = if text::is_blank(field) {
                None
            } else {
                Some(text::trimmed(field))
            };
            &&& text::find_from(ended, key, 0) == Some(before.len() as int) ==> header_field(
                ended,
                key,
            ) == read
            &&& text::find_from(last, key, 0) == Some(before.len() as int) ==> header_field(
                last,
                key,
            ) == read
            &&& !text::contains_text(tail, key) ==> header_field(tail, key) is None
        }),
{
    let ended = before + key + field + seq![','] + tail;
    let last = before + key + field;
    let a = (before.len() + key.len()) as int;
    let b = a + field.len();
    assert forall|j: int| a <= j < b implies ended[j] != ',' && last[j] != ',' by {
        assert(ended[j] == field[j - a]);
        assert(last[j] == field[j - a]);
    }
    assert(ended[b] == ',');
    text::lemma_find_char_first(ended, ',', a, b);
    text::lemma_find_char_first(last, ',', a, b);
    assert(ended.subrange(a, b) =~= field);
    assert(last.subrange(a, b) =~= field);
}

/// Credentials are the same with the name of their header before them and without.
pub proof fn law_header_names_are_dropped(value: Seq<char>)
    ensures
        bare_credentials("Authorization:"@ + value) == text::trimmed(value),
        !text::has_prefix(value, "Authorization:"@) ==> bare_credentials(value) == value,
{
    text::law_where_texts_stand("Authorization:"@ + value, "Authorization:"@, value);
}

/// A recording is sent in pieces as long as is asked for, at 32 bytes a millisecond,
/// and never shorter than ten milliseconds; only the last may be shorter.
pub proof fn law_pieces_last_as_asked(chunk_ms: u64, pcm: Seq<u8>, size: int, i: int)
    requires
        size > 0,
    ensures
        chunk_ms >= 10 ==> piece_size(chunk_ms as int) == 32 * chunk_ms,
        chunk_ms < 10 ==> piece_size(chunk_ms as int) == 320,
        0 <= i < pieces_of(pcm, size).len() - 1 ==> pieces_of(pcm, size)[i].len() == size,
        pcm.len() > 0 ==> pieces_of(pcm, size).len() > 0,
    decreases pcm.len(),
{
    if pcm.len() > size {
        law_pieces_last_as_asked(chunk_ms, pcm.skip(size), size, i - 1);
        if 0 < i < pieces_of(pcm, size).len() {
            assert(pieces_of(pcm, size)[i] == pieces_of(pcm.skip(size), size)[i - 1]);
        }
    }
}

/// Hexadecimal digits have their places, with or without a plus sign, in either case.
pub proof fn law_hexadecimal_is_read(s: Seq<char>, c: char, n: nat)
    ensures
        '0' <= c && c <= '9' ==> hex_digits_value(seq![c]) == Some((c as int - 48) as nat),
        'a' <= c && c <= 'f' ==> hex_digits_value(seq![c]) == Some((c as int - 87) as nat),
        'A' <= c && c <= 'F' ==> hex_digits_value(seq![c]) == Some((c as int - 55) as nat),
        hex_digits_value(s) == Some(n) && hex_digits_value(seq![c]) is Some ==> hex_digits_value(
            s.push(c),
        ) == Some((16 * n + hex_digits_value(seq![c])->0) as nat),
        hex_digits_value(seq![c]) is None ==> hex_digits_value(s.push(c)) is None,
        hex_number_value(seq!['+'] + s) == hex_digits_value(s),
        s.len() > 0 && s[0] != '+' ==> hex_number_value(s) == hex_digits_value(s),
        hex_number_value(Seq::empty()) is None,
{
    assert(seq![c].last() == c);
    assert(s.push(c).drop_last() =~= s);
    assert(s.push(c).last() == c);
    assert((seq!['+'] + s).skip(1) =~= s);
    if s.len() == 0 {
        assert(s.push(c) =~= seq![c]);
    }
}

/// Where a library begins: the address before the dash of the first line that is
/// about it and holds one.
pub proof fn law_mappings_are_found(
    lines: Seq<Seq<char>>,
    start: Seq<char>,
    end: Seq<char>,
    rest: Seq<char>,
    name: Seq<char>,
    more: Seq<Seq<char>>,
)
    requires
        !start.contains('-') && !start.contains(' ') && !end.contains(' '),
        hex_number_value(start) matches Some(n) && n <= usize::MAX,
        forall|i: int|
            0 <= i < lines.len() ==> mapping_start(#[trigger] lines[i], name) is None,
    ensures
        ({
            let line = start + seq!['-'] + end + seq![' '] + rest;
            &&& text::contains_text(line, name) ==> first_mapping(
                lines.push(line) + more,
                name,
                0,
            ) == hex_number_value(start)
            &&& !text::contains_text(line, name) ==> mapping_start(line, name) is None
            &&& first_mapping(lines, name, 0) is None
        }),
{
    let line = start + seq!['-'] + end + seq![' '] + rest;
    let range = start + seq!['-'] + end;
    let k = range.len() as int;
    assert forall|j: int| 0 <= j < k implies line[j] != ' ' by {
        if j < start.len() {
            assert(line[j] == start[j]);
        } else if j > start.len() {
            assert(line[j] == end[j - start.len() - 1]);
        }
    }
    assert(line[k] == ' ');
    text::lemma_find_char_first(line, ' ', 0, k);
    assert(line.take(k) =~= range);
    assert forall|j: int| 0 <= j < start.len() implies range[j] != '-' by {
        assert(range[j] == start[j]);
    }
    assert(range[start.len() as int] == '-');
    text::lemma_find_char_first(range, '-', 0, start.len() as int);
    assert(range.take(start.len() as int) =~= start);
    lemma_no_mapping(lines, Seq::empty(), name, 0);
    assert(lines + Seq::<Seq<char>>::empty() =~= lines);
    lemma_no_mapping(lines, seq![line] + more, name, 0);
    assert(lines.push(line) + more =~= lines + (seq![line] + more));
}

proof fn lemma_no_mapping(lines: Seq<Seq<char>>, more: Seq<Seq<char>>, name: Seq<char>, i: int)
    requires
        0 <= i <= lines.len(),
        forall|j: int| 0 <= j < lines.len() ==> mapping_start(#[trigger] lines[j], name) is None,
    ensures
        first_mapping(lines + more, name, i) == first_mapping(
            lines + more,
            name,
            lines.len() as int,
        ),
    decreases lines.len() - i,
{
    if i < lines.len() {
        assert((lines + more)[i] == lines[i]);
        lemma_no_mapping(lines, more, name, i + 1);
    }
}

/// A string of the service is read back as it is held: up to a zero byte, in place
/// where it is short, elsewhere where it is longer; then its length stands in place.
pub proof fn law_strings_are_read_back(bytes: Seq<u8>, order: ByteOrder)
    requires
        forall|i: int| 0 <= i < bytes.len() ==> (#[trigger] bytes[i]) != 0,
        bytes.len() <= u32::MAX,
    ensures
        string_storage(bytes, order).len() == 16,
        bytes.len() < 16 ==> string_heap(bytes) is None && crate::native::before_zero(
            string_storage(bytes, order),
        ) == bytes,
        bytes.len() >= 16 ==> (string_heap(bytes) matches Some(heap) && heap.len() == bytes.len() + 1
            && crate::native::before_zero(heap) == bytes && string_storage(bytes, order).take(4)
            == vpm::word_bytes(bytes.len() as u32, order)),
{
    if bytes.len() < 16 {
        let zeros = vpm::zeros((15 - bytes.len()) as nat);
        crate::native::law_first_arguments(bytes, zeros);
        assert(string_storage(bytes, order) =~= bytes.push(0) + zeros);
    } else {
        crate::native::law_first_arguments(bytes, Seq::empty());
        assert(bytes.push(0) + Seq::<u8>::empty() =~= bytes.push(0));
        assert(string_storage(bytes, order).take(4) =~= vpm::word_bytes(
            bytes.len() as u32,
            order,
        ));
    }
}

/// What the service is told of its client, and where: its table first, then the
/// device, which is told once more further on, and between the two the device's
/// numbers and what it can do.
pub proof fn law_clients_are_told(
    vtable: u32,
    device_id: u32,
    miot_did: u32,
    bind_id: u32,
    capabilities: u32,
    order: ByteOrder,
)
    ensures
        ({
            let image = vpm::with_words(
                vpm::zeros(CLIENT_INFO_SIZE as nat),
                client_words(vtable, device_id, miot_did, bind_id, capabilities),
                order,
            );
            let says = |at: int, value: u32|
                image.subrange(at, at + 4) == vpm::word_bytes(value, order);
            &&& image.len() == 108
            &&& says(0, vtable)
            &&& says(4, device_id)
            &&& says(64, miot_did)
            &&& says(72, bind_id)
            &&& says(76, capabilities)
            &&& says(88, device_id)
        }),
{
    let words = client_words(vtable, device_id, miot_did, bind_id, capabilities);
    let none = Seq::<(usize, u32)>::empty();
    let w1 = none.push(words[0]);
    let w2 = w1.push(words[1]);
    let w3 = w2.push(words[2]);
    let w4 = w3.push(words[3]);
    let w5 = w4.push(words[4]);
    let w6 = w5.push(words[5]);
    assert(w6 =~= words);
    assert(w6.drop_last() =~= w5);
    assert(w5.drop_last() =~= w4);
    assert(w4.drop_last() =~= w3);
    assert(w3.drop_last() =~= w2);
    assert(w2.drop_last() =~= w1);
    assert(w1.drop_last() =~= none);
    reveal_with_fuel(vpm::with_words, 7);
    let image = vpm::with_words(vpm::zeros(CLIENT_INFO_SIZE as nat), words, order);
    assert(image.subrange(0, 4) =~= vpm::word_bytes(vtable, order));
    assert(image.subrange(4, 8) =~= vpm::word_bytes(device_id, order));
    assert(image.subrange(64, 68) =~= vpm::word_bytes(miot_did, order));
    assert(image.subrange(72, 76) =~= vpm::word_bytes(bind_id, order));
    assert(image.subrange(76, 80) =~= vpm::word_bytes(capabilities, order));
    assert(image.subrange(88, 92) =~= vpm::word_bytes(device_id, order));
}

/// The service is created for a client of the name, to send Chinese speech as it was
/// recorded.
pub proof fn law_engine_is_set_up(auth_client_id: Seq<char>)
    ensures
        ({
            let settings = engine_settings_of(auth_client_id);
            &&& settings.len() == 5
            &&& settings.contains(("auth.client_id"@, auth_client_id))
            &&& settings.contains(("asr.codec"@, "pcm"@))
            &&& settings.contains(("asr.lang"@, "zh-CN"@))
            &&& settings.contains(("connection.channel_type"@, "ws-wss"@))
            &&& settings.contains(("connection.user_agent"@, "aivs_sdk_probe/asr"@))
        }),
{
    let settings = engine_settings_of(auth_client_id);
    assert(settings[0] == ("connection.channel_type"@, "ws-wss"@));
    assert(settings[1] == ("connection.user_agent"@, "aivs_sdk_probe/asr"@));
    assert(settings[2] == ("auth.client_id"@, auth_client_id));
    assert(settings[3] == ("asr.codec"@, "pcm"@));
    assert(settings[4] == ("asr.lang"@, "zh-CN"@));
}

proof fn lemma_options_differ()
    ensures
        "--token"@.len() == 7 && "--token"@[0] == '-',
        "--wait-ms"@.len() == 9 && "--wait-ms"@[0] == '-',
        "--chunk-ms"@.len() == 10 && "--chunk-ms"@[0] == '-',
        "--no-throttle"@.len() == 13 && "--no-throttle"@[0] == '-' && "--no-throttle"@[2] == 'n',
        "--engine-mode"@.len() == 13 && "--engine-mode"@[0] == '-' && "--engine-mode"@[2] == 'e',
        "--keep-after-final"@.len() == 18 && "--keep-after-final"@[0] == '-',
        "--allow-cloud-execution"@.len() == 23 && "--allow-cloud-execution"@[0] == '-',
{
    reveal_strlit("--token");
    reveal_strlit("--wait-ms");
    reveal_strlit("--chunk-ms");
    reveal_strlit("--no-throttle");
    reveal_strlit("--engine-mode");
    reveal_strlit("--keep-after-final");
    reveal_strlit("--allow-cloud-execution");
}

proof fn lemma_choice_shift(args: Seq<Seq<char>>, k: int, i: int, choice: AsrChoice)
    requires
        0 <= k <= args.len(),
        0 <= i,
    ensures
        choice_from(args, i + k, choice) == choice_from(args.skip(k), i, choice),
    decreases
        (if i + k < args.len() {
            args.len() - i - k
        } else {
            0
        }),
{
    let rest = args.skip(k);
    if i + k < args.len() {
        let arg = args[i + k];
        let value = arg_at(args, i + k + 1);
        assert(rest[i] == arg);
        assert(arg_at(rest, i + 1) == value);
        if value is Some {
            lemma_choice_shift(args, k, i + 2, AsrChoice { token_path: value->0, ..choice });
        }
        if let Ok(n) = u64_arg(arg, value) {
            lemma_choice_shift(args, k, i + 2, AsrChoice { wait_ms: n, ..choice });
            lemma_choice_shift(args, k, i + 2, AsrChoice { chunk_ms: n, ..choice });
        }
        if let Ok(n) = i32_arg(arg, value) {
            lemma_choice_shift(args, k, i + 2, AsrChoice { engine_mode: n, ..choice });
        }
        lemma_choice_shift(args, k, i + 1, AsrChoice { no_throttle: true, ..choice });
        lemma_choice_shift(args, k, i + 1, AsrChoice { exit_on_final: false, ..choice });
        lemma_choice_shift(args, k, i + 1, AsrChoice { allow_cloud_execution: true, ..choice });
        lemma_choice_shift(args, k, i + 1, AsrChoice { pcm_path: Some(arg), ..choice });
    }
}

/// Each option sets what it is for and nothing else, and what follows it is read as
/// if it stood alone. The first argument that is no option is the recording, a second
/// is refused, and without one there is nothing to send.
pub proof fn law_options_set_what_they_name(
    rest: Seq<Seq<char>>,
    choice: AsrChoice,
    path: Seq<char>,
    n: u64,
    mode: i32,
)
    ensures
        ({
            let two = |name: Seq<char>, value: Seq<char>|
                choice_from(seq![name, value] + rest, 0, choice);
            let one = |name: Seq<char>| choice_from(seq![name] + rest, 0, choice);
            let then = |choice: AsrChoice| choice_from(rest, 0, choice);
            &&& two("--token"@, path) == then(AsrChoice { token_path: path, ..choice })
            &&& two("--wait-ms"@, text::decimal(n as nat)) == then(
                AsrChoice { wait_ms: n, ..choice },
            )
            &&& two("--chunk-ms"@, text::decimal(n as nat)) == then(
                AsrChoice { chunk_ms: n, ..choice },
            )
            &&& two("--engine-mode"@, text::signed_decimal(mode as int)) == then(
                AsrChoice { engine_mode: mode, ..choice },
            )
            &&& one("--no-throttle"@) == then(AsrChoice { no_throttle: true, ..choice })
            &&& one("--keep-after-final"@) == then(AsrChoice { exit_on_final: false, ..choice })
            &&& one("--allow-cloud-execution"@) == then(
                AsrChoice { allow_cloud_execution: true, ..choice },
            )
            &&& path.len() > 0 && path[0] != '-' && choice.pcm_path is None ==> one(path) == then(
                AsrChoice { pcm_path: Some(path), ..choice },
            )
            &&& path.len() > 0 && path[0] != '-' && choice.pcm_path is Some ==> one(path) == Err::<
                AsrChoice,
                Seq<char>,
            >("unexpected argument: "@ + path)
        }),
        choice_from(Seq::empty(), 0, choice) is Ok <==> choice.pcm_path is Some,
{
    lemma_options_differ();
    text::law_decimal_is_read_back(n as nat);
    let size = if mode < 0 {
        (-(mode as int)) as nat
    } else {
        mode as nat
    };
    text::law_decimal_is_read_back(size);
    lemma_two_arguments("--token"@, path, rest, AsrChoice { token_path: path, ..choice });
    lemma_two_arguments(
        "--wait-ms"@,
        text::decimal(n as nat),
        rest,
        AsrChoice { wait_ms: n, ..choice },
    );
    lemma_two_arguments(
        "--chunk-ms"@,
        text::decimal(n as nat),
        rest,
        AsrChoice { chunk_ms: n, ..choice },
    );
    lemma_two_arguments(
        "--engine-mode"@,
        text::signed_decimal(mode as int),
        rest,
        AsrChoice { engine_mode: mode, ..choice },
    );
    lemma_one_argument("--no-throttle"@, rest, AsrChoice { no_throttle: true, ..choice });
    lemma_one_argument("--keep-after-final"@, rest, AsrChoice { exit_on_final: false, ..choice });
    lemma_one_argument(
        "--allow-cloud-execution"@,
        rest,
        AsrChoice { allow_cloud_execution: true, ..choice },
    );
    lemma_one_argument(path, rest, AsrChoice { pcm_path: Some(path), ..choice });
}

proof fn lemma_two_arguments(
    name: Seq<char>,
    value: Seq<char>,
    rest: Seq<Seq<char>>,
    choice: AsrChoice,
)
    ensures
        ({
            let args = seq![name, value] + rest;
            &&& args[0] == name
            &&& arg_at(args, 1) == Some(value)
            &&& choice_from(args, 2, choice) == choice_from(rest, 0, choice)
        }),
{
    let args = seq![name, value] + rest;
    assert(args.skip(2) =~= rest);
    lemma_choice_shift(args, 2, 0, choice);
}

proof fn lemma_one_argument(name: Seq<char>, rest: Seq<Seq<char>>, choice: AsrChoice)
    ensures
        ({
            let args = seq![name] + rest;
            &&& args[0] == name
            &&& choice_from(args, 1, choice) == choice_from(rest, 0, choice)
        }),
{
    let args = seq![name] + rest;
    assert(args.skip(1) =~= rest);
    lemma_choice_shift(args, 1, 0, choice);
}

/// A recording alone is sent with the speaker's own token, in pieces of a tenth of a
/// second as fast as they were spoken; the answer is waited for at most a quarter of
/// a minute, the last one ends it, and nothing is to be carried out.
pub proof fn law_recordings_are_sent_by_default(path: Seq<char>)
    requires
        path.len() > 0,
        path[0] != '-',
    ensures
        choice_from(seq![path], 0, default_choice()) matches Ok(choice) && {
            &&& choice.pcm_path == Some(path)
            &&& choice.token_path == "/data/TOKEN"@
            &&& choice.wait_ms == 15_000
            &&& choice.chunk_ms == 100
            &&& !choice.no_throttle
            &&& choice.engine_mode == 0
            &&& choice.exit_on_final
            &&& !choice.allow_cloud_execution
        },
{
    law_options_set_what_they_name(Seq::empty(), default_choice(), path, 0, 0);
    assert(seq![path] + Seq::<Seq<char>>::empty() =~= seq![path]);
}

proof fn lemma_holds(a: Seq<char>, p: Seq<char>, b: Seq<char>)
    ensures
        text::contains_text((a + p) + b, p),
{
    text::law_where_texts_stand((a + p) + b, p, Seq::empty());
}

proof fn lemma_holds_more(a: Seq<char>, s: Seq<char>, b: Seq<char>, p: Seq<char>)
    requires
        text::contains_text(s, p),
    ensures
        text::contains_text((a + s) + b, p),
{
    text::law_where_texts_stand(s, p, Seq::empty());
    let (x, y) = choose|x: Seq<char>, y: Seq<char>| s == #[trigger] ((x + p) + y);
    assert((a + s) + b =~= ((a + x) + p) + (y + b));
    lemma_holds(a + x, p, y + b);
}

/// What an event says of itself and of its dialog, whatever stands around it.
proof fn lemma_event_ids(front: Seq<char>, id: Seq<char>, dialog_id: Seq<char>, rest: Seq<char>)
    ensures
        ({
            let event = front + "\"id\": \""@ + id + "\",\n    \"dialog_id\": \""@ + dialog_id
                + "\""@ + rest;
            &&& text::contains_text(event, "\"id\": \""@ + id + "\""@)
            &&& text::contains_text(event, "\"dialog_id\": \""@ + dialog_id + "\""@)
        }),
{
    reveal_strlit("\",\n    \"dialog_id\": \"");
    reveal_strlit("\"dialog_id\": \"");
    reveal_strlit(",\n    ");
    reveal_strlit("\"");
    let event = front + "\"id\": \""@ + id + "\",\n    \"dialog_id\": \""@ + dialog_id + "\""@
        + rest;
    let own = "\"id\": \""@ + id + "\""@;
    let dialog = "\"dialog_id\": \""@ + dialog_id + "\""@;
    assert("\",\n    \"dialog_id\": \""@ =~= "\""@ + ",\n    "@ + "\"dialog_id\": \""@);
    let behind = ",\n    "@ + dialog + rest;
    assert(event =~= (front + own) + behind);
    lemma_holds(front, own, behind);
    let before = front + own + ",\n    "@;
    assert(event =~= (before + dialog) + rest);
    lemma_holds(before, dialog, rest);
}

/// What an event says of what it is, whatever stands behind it.
proof fn lemma_event_start(rest: Seq<char>)
    ensures
        ({
            let begins =
                "{\n  \"header\": {\n    \"namespace\": \"SpeechRecognizer\",\n    \"name\": \"Recognize\",\n    \"id\": \""@
                + rest;
            let ends =
                "{\n  \"header\": {\n    \"namespace\": \"SpeechRecognizer\",\n    \"name\": \"RecognizeStreamFinished\",\n    \"id\": \""@
                + rest;
            &&& text::contains_text(begins, "\"namespace\": \"SpeechRecognizer\""@)
            &&& text::contains_text(ends, "\"namespace\": \"SpeechRecognizer\""@)
            &&& text::contains_text(begins, "\"name\": \"Recognize\""@)
            &&& text::contains_text(ends, "\"name\": \"RecognizeStreamFinished\""@)
        }),
        "{\n  \"header\": {\n    \"namespace\": \"SpeechRecognizer\",\n    \"name\": \"Recognize\",\n    \"id\": \""@
            == "{\n  \"header\": {\n    \"namespace\": \"SpeechRecognizer\",\n    \"name\": \"Recognize\",\n    "@
            + "\"id\": \""@,
        "{\n  \"header\": {\n    \"namespace\": \"SpeechRecognizer\",\n    \"name\": \"RecognizeStreamFinished\",\n    \"id\": \""@
            == "{\n  \"header\": {\n    \"namespace\": \"SpeechRecognizer\",\n    \"name\": \"RecognizeStreamFinished\",\n    "@
            + "\"id\": \""@,
{
    reveal_strlit(
        "{\n  \"header\": {\n    \"namespace\": \"SpeechRecognizer\",\n    \"name\": \"Recognize\",\n    \"id\": \"",
    );
    reveal_strlit(
        "{\n  \"header\": {\n    \"namespace\": \"SpeechRecognizer\",\n    \"name\": \"RecognizeStreamFinished\",\n    \"id\": \"",
    );
    reveal_strlit(
        "{\n  \"header\": {\n    \"namespace\": \"SpeechRecognizer\",\n    \"name\": \"Recognize\",\n    ",
    );
    reveal_strlit(
        "{\n  \"header\": {\n    \"namespace\": \"SpeechRecognizer\",\n    \"name\": \"RecognizeStreamFinished\",\n    ",
    );
    reveal_strlit("{\n  \"header\": {\n    ");
    reveal_strlit("\"namespace\": \"SpeechRecognizer\"");
    reveal_strlit(",\n    ");
    reveal_strlit("\"name\": \"Recognize\"");
    reveal_strlit("\"name\": \"RecognizeStreamFinished\"");
    reveal_strlit("\"id\": \"");
    let open = "{\n  \"header\": {\n    "@;
    let space = "\"namespace\": \"SpeechRecognizer\""@;
    let comma = ",\n    "@;
    let first = "\"name\": \"Recognize\""@;
    let last = "\"name\": \"RecognizeStreamFinished\""@;
    let own = "\"id\": \""@;
    let begins =
        "{\n  \"header\": {\n    \"namespace\": \"SpeechRecognizer\",\n    \"name\": \"Recognize\",\n    \"id\": \""@;
    let ends =
        "{\n  \"header\": {\n    \"namespace\": \"SpeechRecognizer\",\n    \"name\": \"RecognizeStreamFinished\",\n    \"id\": \""@;
    assert(begins =~= open + space + comma + first + comma + own);
    assert(ends =~= open + space + comma + last + comma + own);
    assert(begins + rest =~= (open + space) + (comma + first + comma + own + rest));
    lemma_holds(open, space, comma + first + comma + own + rest);
    assert(begins + rest =~= ((open + space + comma) + first) + (comma + own + rest));
    lemma_holds(open + space + comma, first, comma + own + rest);
    assert(ends + rest =~= (open + space) + (comma + last + comma + own + rest));
    lemma_holds(open, space, comma + last + comma + own + rest);
    assert(ends + rest =~= ((open + space + comma) + last) + (comma + own + rest));
    lemma_holds(open + space + comma, last, comma + own + rest);
}

/// What a control says, and under which identifier.
proof fn lemma_event_control(id: Seq<char>)
    ensures
        text::contains_text(request_control(id), "\"name\": \"RequestControl\""@),
        text::contains_text(request_control(id), "\"disabled\": [\"NLP\", \"TTS\"]"@),
        text::contains_text(request_control(id), "\"id\": \""@ + id + "\""@),
{
    let front =
        ",\n  \"context\": [\n    {\n      \"header\": {\n        \"namespace\": \"Execution\",\n        \"name\": \"RequestControl\",\n        \"id\": \""@;
    let back =
        "\"\n      },\n      \"payload\": {\n        \"disabled\": [\"NLP\", \"TTS\"]\n      }\n    }\n  ]"@;
    reveal_strlit(
        ",\n  \"context\": [\n    {\n      \"header\": {\n        \"namespace\": \"Execution\",\n        \"name\": \"RequestControl\",\n        \"id\": \"",
    );
    reveal_strlit(
        ",\n  \"context\": [\n    {\n      \"header\": {\n        \"namespace\": \"Execution\",\n        ",
    );
    reveal_strlit("\"name\": \"RequestControl\"");
    reveal_strlit(",\n        ");
    reveal_strlit("\"id\": \"");
    reveal_strlit(
        "\"\n      },\n      \"payload\": {\n        \"disabled\": [\"NLP\", \"TTS\"]\n      }\n    }\n  ]",
    );
    reveal_strlit("\"");
    reveal_strlit("\n      },\n      \"payload\": {\n        ");
    reveal_strlit("\"disabled\": [\"NLP\", \"TTS\"]");
    reveal_strlit("\n      }\n    }\n  ]");
    let open =
        ",\n  \"context\": [\n    {\n      \"header\": {\n        \"namespace\": \"Execution\",\n        "@;
    let name = "\"name\": \"RequestControl\""@;
    let comma = ",\n        "@;
    let own = "\"id\": \""@;
    let mid = "\n      },\n      \"payload\": {\n        "@;
    let disabled = "\"disabled\": [\"NLP\", \"TTS\"]"@;
    let close = "\n      }\n    }\n  ]"@;
    assert(front =~= open + name + comma + own);
    assert(back =~= "\""@ + mid + disabled + close);
    let control = request_control(id);
    assert(control == front + id + back);
    assert(control =~= (open + name) + (comma + own + id + back));
    lemma_holds(open, name, comma + own + id + back);
    let named = own + id + "\""@;
    assert(control =~= ((open + name + comma) + named) + (mid + disabled + close));
    lemma_holds(open + name + comma, named, mid + disabled + close);
    assert(control =~= ((front + id + "\""@ + mid) + disabled) + close);
    lemma_holds(front + id + "\""@ + mid, disabled, close);
}

/// The event that begins a recognition says so, names the dialog and itself, and
/// asks that nothing is carried out or spoken exactly where it has a control for it.
/// The event that ends one says so, and names the same.
pub proof fn law_events_say(id: Seq<char>, dialog_id: Seq<char>, control_id: Seq<char>)
    ensures
        ({
            let begins = recognize_event(id, dialog_id, Some(control_id));
            let plain = recognize_event(id, dialog_id, None);
            let ends = finish_event(id, dialog_id);
            let dialog = "\"dialog_id\": \""@ + dialog_id + "\""@;
            let own = "\"id\": \""@ + id + "\""@;
            let control = "\"id\": \""@ + control_id + "\""@;
            &&& text::contains_text(begins, dialog) && text::contains_text(plain, dialog)
            &&& text::contains_text(ends, dialog)
            &&& text::contains_text(begins, own) && text::contains_text(plain, own)
            &&& text::contains_text(ends, own)
            &&& text::contains_text(begins, control)
            &&& text::contains_text(begins, "\"name\": \"Recognize\""@)
            &&& text::contains_text(plain, "\"name\": \"Recognize\""@)
            &&& text::contains_text(ends, "\"name\": \"RecognizeStreamFinished\""@)
            &&& text::contains_text(begins, "\"namespace\": \"SpeechRecognizer\""@)
            &&& text::contains_text(ends, "\"namespace\": \"SpeechRecognizer\""@)
            &&& text::contains_text(begins, "\"name\": \"RequestControl\""@)
            &&& text::contains_text(begins, "\"disabled\": [\"NLP\", \"TTS\"]"@)
            &&& text::has_suffix(plain, "\"payload\": {}\n}"@)
            &&& text::has_suffix(ends, "\"payload\": {}\n}"@)
        }),
{
    let opening =
        "{\n  \"header\": {\n    \"namespace\": \"SpeechRecognizer\",\n    \"name\": \"Recognize\",\n    "@;
    let closing =
        "{\n  \"header\": {\n    \"namespace\": \"SpeechRecognizer\",\n    \"name\": \"RecognizeStreamFinished\",\n    "@;
    let own = "\"id\": \""@;
    let dialog = "\",\n    \"dialog_id\": \""@;
    let control = request_control(control_id);
    reveal_strlit("\"\n  },\n  \"payload\": {}");
    reveal_strlit("\"\n  },\n  \"payload\": {}\n}");
    reveal_strlit("\n  },\n  ");
    reveal_strlit("\"payload\": {}\n}");
    reveal_strlit("\"payload\": {}");
    reveal_strlit("\"");
    reveal_strlit("\n}");
    let end = "\n  },\n  "@ + "\"payload\": {}"@;
    assert("\"\n  },\n  \"payload\": {}"@ =~= "\""@ + end);
    assert("\"\n  },\n  \"payload\": {}\n}"@ =~= "\""@ + end + "\n}"@);
    assert("\"payload\": {}\n}"@ =~= "\"payload\": {}"@ + "\n}"@);
    let begins = recognize_event(id, dialog_id, Some(control_id));
    let plain = recognize_event(id, dialog_id, None);
    let ends = finish_event(id, dialog_id);
    lemma_event_start(id + dialog + dialog_id + "\""@ + (end + control + "\n}"@));
    assert(begins =~= (opening + own) + (id + dialog + dialog_id + "\""@ + (end + control
        + "\n}"@)));
    assert(begins =~= opening + own + id + dialog + dialog_id + "\""@ + (end + control + "\n}"@));
    lemma_event_ids(opening, id, dialog_id, end + control + "\n}"@);
    lemma_event_start(id + dialog + dialog_id + "\""@ + (end + "\n}"@));
    assert(plain =~= (opening + own) + (id + dialog + dialog_id + "\""@ + (end + "\n}"@)));
    assert(plain =~= opening + own + id + dialog + dialog_id + "\""@ + (end + "\n}"@));
    lemma_event_ids(opening, id, dialog_id, end + "\n}"@);
    assert(ends =~= (closing + own) + (id + dialog + dialog_id + "\""@ + (end + "\n}"@)));
    assert(ends =~= closing + own + id + dialog + dialog_id + "\""@ + (end + "\n}"@));
    lemma_event_ids(closing, id, dialog_id, end + "\n}"@);
    lemma_event_control(control_id);
    let front = opening + own + id + dialog + dialog_id + "\""@ + end;
    assert(begins =~= (front + control) + "\n}"@);
    lemma_holds_more(front, control, "\n}"@, "\"name\": \"RequestControl\""@);
    lemma_holds_more(front, control, "\n}"@, "\"disabled\": [\"NLP\", \"TTS\"]"@);
    lemma_holds_more(front, control, "\n}"@, "\"id\": \""@ + control_id + "\""@);
    let before = opening + own + id + dialog + dialog_id + "\""@ + "\n  },\n  "@;
    assert(plain =~= before + "\"payload\": {}\n}"@);
    text::law_where_texts_stand(plain, "\"payload\": {}\n}"@, Seq::empty());
    let behind = closing + own + id + dialog + dialog_id + "\""@ + "\n  },\n  "@;
    assert(ends =~= behind + "\"payload\": {}\n}"@);
    text::law_where_texts_stand(ends, "\"payload\": {}\n}"@, Seq::empty());
}

/// A finding is reported with whether it is the last and with its text; a text of more
/// than 4096 bytes is not read, nor one without a result.
pub proof fn law_findings_are_reported(finding: Finding, s: Seq<char>)
    ensures
        result_line_of(true, s) == "ASR_TEXT final="@ + "true"@ + " text="@ + s,
        result_line_of(false, s) == "ASR_TEXT final="@ + "false"@ + " text="@ + s,
        !finding.has_result || finding.bytes is None ==> finding_text(finding) == Seq::<char>::empty(),
        finding.bytes matches Some(bytes) ==> {
            &&& bytes@.len() > 4096 ==> finding_text(finding) == Seq::<char>::empty()
            &&& bytes@.len() <= 4096 && finding.has_result ==> finding_text(finding)
                == crate::native::lossy_text(bytes@)
        },
{
}

/// Which command each name asks for; a slot is zero where none is given, else what is
/// spelled, and without a name or with another one the usage is shown.
pub proof fn law_commands_are_asked_for(command: AivsCommand, name: Seq<char>, slot: usize)
    ensures
        asks_for(Seq::empty(), command) <==> command is Usage,
        asks_for(seq!["--post-data-null-probe"@], command) <==> command is PostDataNull,
        asks_for(seq!["--engine-create-null-probe"@], command) <==> command is EngineCreateNull,
        asks_for(seq!["--engine-create-minimal-probe"@], command)
            <==> command is EngineCreateMinimal,
        asks_for(seq!["--engine-create-fake-client-probe"@], command)
            <==> command is EngineCreateFakeClient,
        asks_for(seq!["--engine-vtable-probe"@], command) <==> command is EngineVtable,
        asks_for(seq!["--register-slot-probe"@], command) <==> command
            == AivsCommand::RegisterSlot(0),
        asks_for(seq!["--register-slot-probe"@, text::decimal(slot as nat)], command) <==> command
            == AivsCommand::RegisterSlot(slot),
        asks_for(seq!["--event-build-probe"@, name], command) <==> (command matches
            AivsCommand::EventBuild(Some(json)) && json@ == name),
        asks_for(seq!["--instruction-build-probe"@, name], command) <==> (command matches
            AivsCommand::InstructionBuild(Some(json)) && json@ == name),
        name.len() > 0 && name[0] != '-' ==> (asks_for(seq![name], command) <==> command is Usage),
{
    reveal_strlit("--event-build-probe");
    reveal_strlit("--instruction-build-probe");
    reveal_strlit("--post-data-null-probe");
    reveal_strlit("--engine-create-null-probe");
    reveal_strlit("--engine-create-minimal-probe");
    reveal_strlit("--engine-create-fake-client-probe");
    reveal_strlit("--engine-vtable-probe");
    reveal_strlit("--register-slot-probe");
    reveal_strlit("--asr-file");
    assert("--event-build-probe"@.len() == 19 && "--event-build-probe"@[0] == '-');
    assert("--instruction-build-probe"@.len() == 25 && "--instruction-build-probe"@[0] == '-');
    assert("--post-data-null-probe"@.len() == 22 && "--post-data-null-probe"@[0] == '-');
    assert("--engine-create-null-probe"@.len() == 26 && "--engine-create-null-probe"@[0] == '-');
    assert("--engine-create-minimal-probe"@.len() == 29);
    assert("--engine-create-minimal-probe"@[0] == '-');
    assert("--engine-create-fake-client-probe"@.len() == 33);
    assert("--engine-create-fake-client-probe"@[0] == '-');
    assert("--engine-vtable-probe"@.len() == 21 && "--engine-vtable-probe"@[2] == 'e');
    assert("--engine-vtable-probe"@[0] == '-');
    assert("--register-slot-probe"@.len() == 21 && "--register-slot-probe"@[2] == 'r');
    assert("--register-slot-probe"@[0] == '-');
    assert("--asr-file"@.len() == 10 && "--asr-file"@[0] == '-');
    text::law_decimal_is_read_back(slot as nat);
}

/// Every event that begins a recognition names the dialog; it asks that nothing is
/// carried out or spoken exactly as it is told, and is named by the word and the time
/// at which it was made.
pub proof fn law_recognition_is_asked_for(
    event: Seq<char>,
    dialog_id: Seq<char>,
    asr_only: bool,
    millis: nat,
    other: nat,
)
    ensures
        is_recognize_event(event, dialog_id, asr_only) ==> text::contains_text(
            event,
            "\"dialog_id\": \""@ + dialog_id + "\""@,
        ) && text::contains_text(event, "\"name\": \"Recognize\""@),
        is_recognize_event(event, dialog_id, true) ==> text::contains_text(
            event,
            "\"disabled\": [\"NLP\", \"TTS\"]"@,
        ),
        is_recognize_event(event, dialog_id, false) ==> text::has_suffix(
            event,
            "\"payload\": {}\n}"@,
        ),
        ({
            let id = "recognize"@ + "-"@ + text::decimal(millis);
            let control_id = "request-control"@ + "-"@ + text::decimal(other);
            &&& is_recognize_event(recognize_event(id, dialog_id, None), dialog_id, false)
            &&& is_recognize_event(
                recognize_event(id, dialog_id, Some(control_id)),
                dialog_id,
                true,
            )
        }),
{
    let id = id_at("recognize"@, millis);
    let control_id = id_at("request-control"@, other);
    assert(is_id(id, "recognize"@));
    assert(is_id(control_id, "request-control"@));
    let plain = recognize_event(id, dialog_id, None);
    assert(is_id(id, "recognize"@) && plain == recognize_event(id, dialog_id, None));
    let full = recognize_event(id, dialog_id, Some(control_id));
    assert(is_id(id, "recognize"@) && is_id(control_id, "request-control"@) && full
        == recognize_event(id, dialog_id, Some(control_id)));
    if is_recognize_event(event, dialog_id, true) {
        let (a, b) = choose|a: Seq<char>, b: Seq<char>|
            is_id(a, "recognize"@) && is_id(b, "request-control"@) && event
                == #[trigger] recognize_event(a, dialog_id, Some(b));
        law_events_say(a, dialog_id, b);
    }
    if is_recognize_event(event, dialog_id, false) {
        let a = choose|a: Seq<char>|
            is_id(a, "recognize"@) && event == #[trigger] recognize_event(a, dialog_id, None);
        law_events_say(a, dialog_id, Seq::empty());
    }
}

} // verus!
