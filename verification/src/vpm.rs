//! The vendor's voice-processing library: what it is started with, and the frames
//! that it is fed.
use vstd::prelude::*;
use crate::text;

verus! {

/// The size of the structure that the library is started with, in bytes.
pub const INIT_SIZE: usize = 0x1b0;

pub const AUDIO_SAMPLE_RATE_OFFSET: usize = 316;

pub const AUDIO_CHANNELS_OFFSET: usize = 320;

pub const AUDIO_TIME_MS_OFFSET: usize = 324;

pub const AUDIO_FORMAT_OFFSET: usize = 328;

pub const OUTPUT_SAMPLE_RATE_OFFSET: usize = 332;

pub const OUTPUT_CHANNELS_OFFSET: usize = 336;

pub const OUTPUT_FORMAT_OFFSET: usize = 344;

pub const REF_CH_INDEX_OFFSET: usize = 348;

pub const WAKEUP_PREFIX_MS_OFFSET: usize = 352;

pub const WAKEUP_SUFFIX_MS_OFFSET: usize = 356;

pub const WAIT_ASR_TIMEOUT_MS_OFFSET: usize = 360;

pub const VAD_TIMEOUT_MS_OFFSET: usize = 364;

pub const VAD_SWITCH_OFFSET: usize = 368;

pub const WAKEUP_DATA_SWITCH_OFFSET: usize = 372;

pub const WAKEUP_SWITCH_OFFSET: usize = 376;

pub const TARGET_SCORE_OFFSET: usize = 380;

pub const EFFECT_MODE_OFFSET: usize = 384;

pub const CONFIG_PATH_OFFSET: usize = 388;

pub const USER_CTX_OFFSET: usize = 392;

pub const LOG_CALLBACK_OFFSET: usize = 396;

pub const EVENT_CALLBACK_OFFSET: usize = 400;

pub const WAKEUP_DATA_CALLBACK_OFFSET: usize = 404;

pub const ASR_DATA_CALLBACK_OFFSET: usize = 408;

pub const VOIP_DATA_CALLBACK_OFFSET: usize = 412;

pub const STAT_CALLBACK_OFFSET: usize = 424;

/// The value that the library hands back to every callback.
pub const USER_CONTEXT: u32 = 0x5650_4d50;

/// The bits of the score that a wake word has to reach: three tenths.
pub const TARGET_SCORE_BITS: u32 = 0x3e99_999a;

/// The audio that the library is fed.
#[derive(Debug)]
pub struct VpmAudio {
    pub pcm: String,
    pub sample_rate: u32,
    pub channels: u32,
    pub bits_per_sample: u32,
    pub frame_ms: u32,
    pub period_size: u32,
    pub buffer_size: u32,
    pub ref_channel_index: u32,
}

/// How the errors of a program that uses the library are worded.
#[derive(Debug, Clone, Copy, PartialEq, Eq, Structural)]
pub enum Wording {
    /// Of the monitor: they name the wake-word engine.
    Monitor,
    /// Of the probe.
    Probe,
}

/// What stands before the subject of an error.
pub open spec fn subject(wording: Wording) -> Seq<char> {
    match wording {
        Wording::Monitor => "KWS "@,
        Wording::Probe => ""@,
    }
}

fn subject_text(wording: Wording) -> (r: &'static str)
    ensures
        r@ == subject(wording),
{
    match wording {
        Wording::Monitor => "KWS ",
        Wording::Probe => "",
    }
}

// -------------------------------------------------------------------- formats

/// The message for a sample size.
pub open spec fn bits_error(what: Seq<char>, wording: Wording, bits: u32) -> Seq<char> {
    what + subject(wording) + "bits value "@ + text::decimal(bits as nat)
}

fn make_bits_error(what: &str, wording: Wording, bits: u32) -> (r: String)
    ensures
        r@ == bits_error(what@, wording, bits),
{
    let mut out: String = what.to_owned();
    out.append(subject_text(wording));
    out.append("bits value ");
    out.append(text::decimal_text(bits as u64).as_str());
    out
}

/// The number of a sample size, where there is one.
pub open spec fn format_code(bits: u32) -> Option<u32> {
    if bits == 16 {
        Some(0)
    } else if bits == 8 {
        Some(1)
    } else if bits == 24 {
        Some(2)
    } else if bits == 32 {
        Some(3)
    } else {
        None
    }
}

/// The number of a sample size.
pub fn sample_format_code(bits: u32, wording: Wording) -> (r: Result<u32, String>)
    ensures
        match format_code(bits) {
            Some(code) => r == Ok::<u32, String>(code),
            None => r matches Err(e) && e@ == bits_error("unsupported "@, wording, bits),
        },
{
    match bits {
        16 => Ok(0),
        8 => Ok(1),
        24 => Ok(2),
        32 => Ok(3),
        _ => Err(make_bits_error("unsupported ", wording, bits)),
    }
}

/// The size of a frame in bytes, or why it has none: every product has to fit 32
/// bits.
pub open spec fn frame_size(audio: VpmAudio, wording: Wording) -> Result<nat, Seq<char>> {
    let bytes_per_sample = audio.bits_per_sample as nat / 8;
    let samples = audio.sample_rate as nat * audio.frame_ms as nat;
    let values = (samples / 1000) * audio.channels as nat;
    if bytes_per_sample == 0 {
        Err(bits_error("invalid "@, wording, audio.bits_per_sample))
    } else if samples > u32::MAX {
        Err(subject(wording) + "sample_rate * frame_ms overflow"@)
    } else if values > u32::MAX || values * bytes_per_sample > u32::MAX {
        Err(subject(wording) + "frame byte count overflow"@)
    } else {
        Ok(values * bytes_per_sample)
    }
}

/// The size of a frame in bytes.
pub fn frame_bytes(audio: &VpmAudio, wording: Wording) -> (r: Result<usize, String>)
    ensures
        match frame_size(*audio, wording) {
            Ok(n) => r matches Ok(x) && x == n,
            Err(e) => r matches Err(x) && x@ == e,
        },
{
    let bytes_per_sample: u32 = audio.bits_per_sample / 8;
    if bytes_per_sample == 0 {
        return Err(make_bits_error("invalid ", wording, audio.bits_per_sample));
    }
    let samples: u32 = match audio.sample_rate.checked_mul(audio.frame_ms) {
        Some(samples) => samples,
        None => {
            let mut out: String = subject_text(wording).to_owned();
            out.append("sample_rate * frame_ms overflow");
            return Err(out);
        },
    };
    let values: Option<u32> = (samples / 1000).checked_mul(audio.channels);
    let bytes: Option<u32> = match values {
        Some(values) => values.checked_mul(bytes_per_sample),
        None => None,
    };
    match bytes {
        Some(bytes) => Ok(bytes as usize),
        None => {
            let mut out: String = subject_text(wording).to_owned();
            out.append("frame byte count overflow");
            Err(out)
        },
    }
}

/// How the recording program names a sample size, where it knows it.
pub open spec fn alsa_format(bits: u32) -> Option<Seq<char>> {
    if bits == 16 {
        Some("S16_LE"@)
    } else if bits == 24 {
        Some("S24_LE"@)
    } else if bits == 32 {
        Some("S32_LE"@)
    } else {
        None
    }
}

/// The arguments of the recording program.
pub open spec fn arecord_args_of(audio: VpmAudio, format: Seq<char>) -> Seq<Seq<char>> {
    seq![
        "--quiet"@,
        "-D"@,
        audio.pcm@,
        "-t"@,
        "raw"@,
        "-f"@,
        format,
        "-r"@,
        text::decimal(audio.sample_rate as nat),
        "-c"@,
        text::decimal(audio.channels as nat),
        "--buffer-size"@,
        text::decimal(audio.buffer_size as nat),
        "--period-size"@,
        text::decimal(audio.period_size as nat),
    ]
}

/// The arguments of the recording program.
pub fn arecord_args(audio: &VpmAudio, wording: Wording) -> (r: Result<Vec<String>, String>)
    ensures
        match alsa_format(audio.bits_per_sample) {
            Some(format) => r matches Ok(args) && text::texts(args@) == arecord_args_of(
                *audio,
                format,
            ),
            None => r matches Err(e) && e@ == bits_error(
                "unsupported "@,
                wording,
                audio.bits_per_sample,
            ),
        },
{
    let format: &str = match audio.bits_per_sample {
        16 => "S16_LE",
        24 => "S24_LE",
        32 => "S32_LE",
        bits => {
            return Err(make_bits_error("unsupported ", wording, bits));
        },
    };
    let mut out: Vec<String> = Vec::new();
    out.push("--quiet".to_owned());
    out.push("-D".to_owned());
    out.push(audio.pcm.clone());
    out.push("-t".to_owned());
    out.push("raw".to_owned());
    out.push("-f".to_owned());
    out.push(format.to_owned());
    out.push("-r".to_owned());
    out.push(text::decimal_text(audio.sample_rate as u64));
    out.push("-c".to_owned());
    out.push(text::decimal_text(audio.channels as u64));
    out.push("--buffer-size".to_owned());
    out.push(text::decimal_text(audio.buffer_size as u64));
    out.push("--period-size".to_owned());
    out.push(text::decimal_text(audio.period_size as u64));
    assert(text::texts(out@) =~= arecord_args_of(*audio, format@));
    Ok(out)
}

// ------------------------------------------------------------------ the image

/// The order of the bytes in a word of the machine.
#[derive(Debug, Clone, Copy, PartialEq, Eq, Structural)]
pub enum ByteOrder {
    Little,
    Big,
}

/// The bytes of a word.
pub open spec fn word_bytes(value: u32, order: ByteOrder) -> Seq<u8> {
    let b0 = (value % 256) as u8;
    let b1 = (value / 256 % 256) as u8;
    let b2 = (value / 65536 % 256) as u8;
    let b3 = (value / 16777216) as u8;
    match order {
        ByteOrder::Little => seq![b0, b1, b2, b3],
        ByteOrder::Big => seq![b3, b2, b1, b0],
    }
}

/// A buffer with a word at an offset.
pub open spec fn with_word(buf: Seq<u8>, offset: int, value: u32, order: ByteOrder) -> Seq<u8> {
    buf.take(offset) + word_bytes(value, order) + buf.skip(offset + 4)
}

/// The message for an offset that is outside the buffer.
pub open spec fn offset_error(offset: nat, wording: Wording) -> Seq<char> {
    "offset 0x"@ + text::hexadecimal(offset) + match wording {
        Wording::Monitor => " outside VPM init buffer"@,
        Wording::Probe => " outside init buffer"@,
    }
}

/// Writes a word into a buffer.
pub fn write_u32(
    buf: &mut Vec<u8>,
    offset: usize,
    value: u32,
    order: ByteOrder,
    wording: Wording,
) -> (r: Result<(), String>)
    requires
        offset + 4 <= usize::MAX,
    ensures
        if offset + 4 <= old(buf)@.len() {
            &&& r is Ok
            &&& final(buf)@ == with_word(old(buf)@, offset as int, value, order)
        } else {
            &&& r matches Err(e) && e@ == offset_error(offset as nat, wording)
            &&& final(buf)@ == old(buf)@
        },
{
    if offset + 4 > buf.len() {
        let mut out: String = "offset 0x".to_owned();
        out.append(text::hexadecimal_text(offset as u64).as_str());
        match wording {
            Wording::Monitor => {
                out.append(" outside VPM init buffer");
            },
            Wording::Probe => {
                out.append(" outside init buffer");
            },
        }
        return Err(out);
    }
    let b0: u8 = (value % 256) as u8;
    let b1: u8 = (value / 256 % 256) as u8;
    let b2: u8 = (value / 65536 % 256) as u8;
    let b3: u8 = (value / 16777216) as u8;
    let ghost before = buf@;
    match order {
        ByteOrder::Little => {
            buf[offset] = b0;
            buf[offset + 1] = b1;
            buf[offset + 2] = b2;
            buf[offset + 3] = b3;
        },
        ByteOrder::Big => {
            buf[offset] = b3;
            buf[offset + 1] = b2;
            buf[offset + 2] = b1;
            buf[offset + 3] = b0;
        },
    }
    assert(buf@ =~= with_word(before, offset as int, value, order));
    Ok(())
}

/// The message for an address that is too large.
pub open spec fn pointer_error() -> Seq<char> {
    "pointer does not fit in 32 bits"@
}

/// Writes an address into a buffer.
pub fn write_ptr(
    buf: &mut Vec<u8>,
    offset: usize,
    ptr: usize,
    order: ByteOrder,
    wording: Wording,
) -> (r: Result<(), String>)
    requires
        offset + 4 <= usize::MAX,
    ensures
        if ptr > u32::MAX {
            &&& r matches Err(e) && e@ == pointer_error()
            &&& final(buf)@ == old(buf)@
        } else if offset + 4 <= old(buf)@.len() {
            &&& r is Ok
            &&& final(buf)@ == with_word(old(buf)@, offset as int, ptr as u32, order)
        } else {
            &&& r matches Err(e) && e@ == offset_error(offset as nat, wording)
            &&& final(buf)@ == old(buf)@
        },
{
    if ptr as u64 > u32::MAX as u64 {
        return Err("pointer does not fit in 32 bits".to_owned());
    }
    write_u32(buf, offset, ptr as u32, order, wording)
}

/// The addresses that the library is started with.
#[derive(Debug, Clone, Copy)]
pub struct VpmAddresses {
    pub config_path: usize,
    pub log_callback: usize,
    pub event_callback: usize,
    pub wakeup_data_callback: usize,
    pub asr_data_callback: usize,
    pub voip_data_callback: usize,
    pub stat_callback: usize,
}

/// Whether every address fits.
pub open spec fn addresses_fit(a: VpmAddresses) -> bool {
    &&& a.config_path <= u32::MAX
    &&& a.log_callback <= u32::MAX
    &&& a.event_callback <= u32::MAX
    &&& a.wakeup_data_callback <= u32::MAX
    &&& a.asr_data_callback <= u32::MAX
    &&& a.voip_data_callback <= u32::MAX
    &&& a.stat_callback <= u32::MAX
}

/// The words that the library is started with, and where they stand.
pub open spec fn init_words(audio: VpmAudio, a: VpmAddresses, code: u32) -> Seq<(usize, u32)> {
    seq![
        (CONFIG_PATH_OFFSET, a.config_path as u32),
        (USER_CTX_OFFSET, USER_CONTEXT),
        (LOG_CALLBACK_OFFSET, a.log_callback as u32),
        (EVENT_CALLBACK_OFFSET, a.event_callback as u32),
        (WAKEUP_DATA_CALLBACK_OFFSET, a.wakeup_data_callback as u32),
        (ASR_DATA_CALLBACK_OFFSET, a.asr_data_callback as u32),
        (VOIP_DATA_CALLBACK_OFFSET, a.voip_data_callback as u32),
        (STAT_CALLBACK_OFFSET, a.stat_callback as u32),
        (AUDIO_SAMPLE_RATE_OFFSET, audio.sample_rate),
        (AUDIO_CHANNELS_OFFSET, audio.channels),
        (AUDIO_TIME_MS_OFFSET, audio.frame_ms),
        (AUDIO_FORMAT_OFFSET, code),
        (OUTPUT_SAMPLE_RATE_OFFSET, 16_000),
        (OUTPUT_CHANNELS_OFFSET, 1),
        (OUTPUT_FORMAT_OFFSET, 0),
        (REF_CH_INDEX_OFFSET, audio.ref_channel_index),
        (WAKEUP_PREFIX_MS_OFFSET, 600),
        (WAKEUP_SUFFIX_MS_OFFSET, 600),
        (WAIT_ASR_TIMEOUT_MS_OFFSET, 6000),
        (VAD_TIMEOUT_MS_OFFSET, 400),
        (VAD_SWITCH_OFFSET, 1),
        (WAKEUP_DATA_SWITCH_OFFSET, 1),
        (WAKEUP_SWITCH_OFFSET, 1),
        (TARGET_SCORE_OFFSET, TARGET_SCORE_BITS),
        (EFFECT_MODE_OFFSET, 1),
    ]
}

/// A buffer with words at their offsets, one after another.
pub open spec fn with_words(buf: Seq<u8>, words: Seq<(usize, u32)>, order: ByteOrder) -> Seq<u8>
    decreases words.len(),
{
    if words.len() == 0 {
        buf
    } else {
        with_word(
            with_words(buf, words.drop_last(), order),
            words.last().0 as int,
            words.last().1,
            order,
        )
    }
}

/// A buffer of zeros.
pub open spec fn zeros(n: nat) -> Seq<u8> {
    Seq::new(n, |i: int| 0u8)
}

/// What the library is started with.
pub open spec fn init_image_of(
    audio: VpmAudio,
    a: VpmAddresses,
    order: ByteOrder,
    wording: Wording,
) -> Result<Seq<u8>, Seq<char>> {
    if !addresses_fit(a) {
        Err(pointer_error())
    } else {
        match format_code(audio.bits_per_sample) {
            None => Err(bits_error("unsupported "@, wording, audio.bits_per_sample)),
            Some(code) => Ok(with_words(zeros(INIT_SIZE as nat), init_words(audio, a, code), order)),
        }
    }
}

fn fits(ptr: usize) -> (r: bool)
    ensures
        r == (ptr <= u32::MAX),
{
    ptr as u64 <= u32::MAX as u64
}

/// What the library is started with.
pub fn init_image(
    audio: &VpmAudio,
    a: &VpmAddresses,
    order: ByteOrder,
    wording: Wording,
) -> (r: Result<Vec<u8>, String>)
    ensures
        match init_image_of(*audio, *a, order, wording) {
            Ok(image) => r matches Ok(x) && x@ == image,
            Err(e) => r matches Err(x) && x@ == e,
        },
{
    if !(fits(a.config_path) && fits(a.log_callback) && fits(a.event_callback) && fits(
        a.wakeup_data_callback,
    ) && fits(a.asr_data_callback) && fits(a.voip_data_callback) && fits(a.stat_callback)) {
        return Err("pointer does not fit in 32 bits".to_owned());
    }
    let code: u32 = match sample_format_code(audio.bits_per_sample, wording) {
        Ok(code) => code,
        Err(e) => {
            return Err(e);
        },
    };
    let words: Vec<(usize, u32)> = vec![
        (CONFIG_PATH_OFFSET, a.config_path as u32),
        (USER_CTX_OFFSET, USER_CONTEXT),
        (LOG_CALLBACK_OFFSET, a.log_callback as u32),
        (EVENT_CALLBACK_OFFSET, a.event_callback as u32),
        (WAKEUP_DATA_CALLBACK_OFFSET, a.wakeup_data_callback as u32),
        (ASR_DATA_CALLBACK_OFFSET, a.asr_data_callback as u32),
        (VOIP_DATA_CALLBACK_OFFSET, a.voip_data_callback as u32),
        (STAT_CALLBACK_OFFSET, a.stat_callback as u32),
        (AUDIO_SAMPLE_RATE_OFFSET, audio.sample_rate),
        (AUDIO_CHANNELS_OFFSET, audio.channels),
        (AUDIO_TIME_MS_OFFSET, audio.frame_ms),
        (AUDIO_FORMAT_OFFSET, code),
        (OUTPUT_SAMPLE_RATE_OFFSET, 16_000),
        (OUTPUT_CHANNELS_OFFSET, 1),
        (OUTPUT_FORMAT_OFFSET, 0),
        (REF_CH_INDEX_OFFSET, audio.ref_channel_index),
        (WAKEUP_PREFIX_MS_OFFSET, 600),
        (WAKEUP_SUFFIX_MS_OFFSET, 600),
        (WAIT_ASR_TIMEOUT_MS_OFFSET, 6000),
        (VAD_TIMEOUT_MS_OFFSET, 400),
        (VAD_SWITCH_OFFSET, 1),
        (WAKEUP_DATA_SWITCH_OFFSET, 1),
        (WAKEUP_SWITCH_OFFSET, 1),
        (TARGET_SCORE_OFFSET, TARGET_SCORE_BITS),
        (EFFECT_MODE_OFFSET, 1),
    ];
    assert(words@ =~= init_words(*audio, *a, code));
    let mut image: Vec<u8> = Vec::new();
    image.resize(INIT_SIZE, 0);
    assert(image@ =~= zeros(INIT_SIZE as nat));
    let mut i: usize = 0;
    assert(words@.take(0) =~= Seq::empty());
    while i < words.len()
        invariant
            i <= words@.len(),
            words@ == init_words(*audio, *a, code),
            image@.len() == INIT_SIZE,
            image@ == with_words(zeros(INIT_SIZE as nat), words@.take(i as int), order),
        decreases words@.len() - i,
    {
        let (offset, value): (usize, u32) = words[i];
        assert(offset + 4 <= INIT_SIZE);
        assert(words@.take(i + 1).drop_last() =~= words@.take(i as int));
        match write_u32(&mut image, offset, value, order, wording) {
            Ok(()) => {},
            Err(e) => {
                return Err(e);
            },
        }
        i = i + 1;
    }
    assert(words@.take(i as int) =~= words@);
    Ok(image)
}

/// Whether the machine's words are the library's.
pub fn check_word_size(bytes: usize, wording: Wording) -> (r: Result<(), String>)
    ensures
        r is Ok <==> bytes == 4,
        r matches Err(e) ==> e@ == match wording {
            Wording::Monitor => "native VPM KWS requires the 32-bit ARM build"@,
            Wording::Probe =>
                "vpm_probe must run as a 32-bit ARM binary because libvpm.so is 32-bit ARM"@,
        },
{
    if bytes == 4 {
        return Ok(());
    }
    match wording {
        Wording::Monitor => Err("native VPM KWS requires the 32-bit ARM build".to_owned()),
        Wording::Probe => Err(
            "vpm_probe must run as a 32-bit ARM binary because libvpm.so is 32-bit ARM".to_owned(),
        ),
    }
}

/// Whether a call of the library succeeded.
pub fn check_call(name: &str, code: i32) -> (r: Result<(), String>)
    ensures
        r is Ok <==> code == 0,
        r matches Err(e) ==> e@ == name@ + " failed with "@ + text::signed_decimal(code as int),
{
    if code == 0 {
        return Ok(());
    }
    let mut out: String = name.to_owned();
    out.append(" failed with ");
    out.append(text::signed_text(code as i64).as_str());
    Err(out)
}

/// When a frame starts, in milliseconds since the first.
pub fn frame_start_ms(frames: u64, frame_ms: u32, wording: Wording) -> (r: Result<u64, String>)
    ensures
        match r {
            Ok(ms) => ms == frames * frame_ms,
            Err(e) => frames * frame_ms > u64::MAX && e@ == match wording {
                Wording::Monitor => "KWS timestamp overflow"@,
                Wording::Probe => "start_time_ms overflow"@,
            },
        },
{
    match frames.checked_mul(frame_ms as u64) {
        Some(ms) => Ok(ms),
        None => match wording {
            Wording::Monitor => Err("KWS timestamp overflow".to_owned()),
            Wording::Probe => Err("start_time_ms overflow".to_owned()),
        },
    }
}

// ----------------------------------------------------------------------- laws

/// Every word of the image can be read back where it was written, and the image
/// has its size.
pub proof fn law_image_layout(audio: VpmAudio, a: VpmAddresses, code: u32, order: ByteOrder, i: int)
    requires
        0 <= i < init_words(audio, a, code).len(),
    ensures
        ({
            let words = init_words(audio, a, code);
            let image = with_words(zeros(INIT_SIZE as nat), words, order);
            &&& image.len() == INIT_SIZE
            &&& image.subrange(words[i].0 as int, words[i].0 + 4) == word_bytes(words[i].1, order)
        }),
{
    let words = init_words(audio, a, code);
    assert forall|j: int, k: int| 0 <= j < k < words.len() implies apart(
        words[j].0,
        words[k].0,
    ) by {}
    lemma_words_stand(zeros(INIT_SIZE as nat), words, order, i);
}

/// Whether two words do not overlap.
pub open spec fn apart(a: usize, b: usize) -> bool {
    a + 4 <= b || b + 4 <= a
}

proof fn lemma_words_stand(buf: Seq<u8>, words: Seq<(usize, u32)>, order: ByteOrder, i: int)
    requires
        0 <= i < words.len(),
        forall|j: int| 0 <= j < words.len() ==> (#[trigger] words[j]).0 + 4 <= buf.len(),
        forall|j: int, k: int|
            0 <= j < k < words.len() ==> apart((#[trigger] words[j]).0, (#[trigger] words[k]).0),
    ensures
        with_words(buf, words, order).len() == buf.len(),
        with_words(buf, words, order).subrange(words[i].0 as int, words[i].0 + 4) == word_bytes(
            words[i].1,
            order,
        ),
    decreases words.len(),
{
    let before = with_words(buf, words.drop_last(), order);
    let after = with_words(buf, words, order);
    lemma_words_len(buf, words.drop_last(), order);
    let last = words.last();
    if i == words.len() - 1 {
        assert(after.subrange(last.0 as int, last.0 + 4) =~= word_bytes(last.1, order));
    } else {
        lemma_words_stand(buf, words.drop_last(), order, i);
        assert(words.drop_last()[i] == words[i]);
        assert(apart(words[i].0, words[words.len() - 1].0));
        let at = words[i].0 as int;
        assert(after.subrange(at, at + 4) =~= before.subrange(at, at + 4));
    }
}

proof fn lemma_words_len(buf: Seq<u8>, words: Seq<(usize, u32)>, order: ByteOrder)
    requires
        forall|j: int| 0 <= j < words.len() ==> (#[trigger] words[j]).0 + 4 <= buf.len(),
    ensures
        with_words(buf, words, order).len() == buf.len(),
    decreases words.len(),
{
    if words.len() > 0 {
        lemma_words_len(buf, words.drop_last(), order);
    }
}

/// What the vendor's library is started with, and where: the settings of the audio,
/// what comes out, the times and switches, and the addresses, each at its place.
pub proof fn law_image_says(audio: VpmAudio, a: VpmAddresses, order: ByteOrder, wording: Wording)
    requires
        addresses_fit(a),
        format_code(audio.bits_per_sample) is Some,
    ensures
        init_image_of(audio, a, order, wording) matches Ok(image) && {
            let says = |at: int, value: int|
                image.subrange(at, at + 4) == word_bytes(value as u32, order);
            &&& image.len() == 432
            &&& says(316, audio.sample_rate as int)
            &&& says(320, audio.channels as int)
            &&& says(324, audio.frame_ms as int)
            &&& audio.bits_per_sample == 16 ==> says(328, 0)
            &&& audio.bits_per_sample == 8 ==> says(328, 1)
            &&& audio.bits_per_sample == 24 ==> says(328, 2)
            &&& audio.bits_per_sample == 32 ==> says(328, 3)
            &&& says(332, 16_000)
            &&& says(336, 1)
            &&& says(344, 0)
            &&& says(348, audio.ref_channel_index as int)
            &&& says(352, 600)
            &&& says(356, 600)
            &&& says(360, 6_000)
            &&& says(364, 400)
            &&& says(368, 1)
            &&& says(372, 1)
            &&& says(376, 1)
            &&& says(380, 0x3e99_999a)
            &&& says(384, 1)
            &&& says(388, a.config_path as int)
            &&& says(392, 0x5650_4d50)
            &&& says(396, a.log_callback as int)
            &&& says(400, a.event_callback as int)
            &&& says(404, a.wakeup_data_callback as int)
            &&& says(408, a.asr_data_callback as int)
            &&& says(412, a.voip_data_callback as int)
            &&& says(424, a.stat_callback as int)
        },
{
    let code = format_code(audio.bits_per_sample)->0;
    let words = init_words(audio, a, code);
    let image = with_words(zeros(INIT_SIZE as nat), words, order);
    assert forall|i: int| 0 <= i < 25 implies image.len() == INIT_SIZE && image.subrange(
        words[i].0 as int,
        words[i].0 + 4,
    ) == word_bytes((#[trigger] words[i]).1, order) by {
        law_image_layout(audio, a, code, order, i);
    }
    assert(words[0].0 == 388 && words[1].0 == 392 && words[2].0 == 396 && words[3].0 == 400);
    assert(words[4].0 == 404 && words[5].0 == 408 && words[6].0 == 412 && words[7].0 == 424);
    assert(words[8].0 == 316 && words[9].0 == 320 && words[10].0 == 324 && words[11].0 == 328);
    assert(words[12].0 == 332 && words[13].0 == 336 && words[14].0 == 344 && words[15].0 == 348);
    assert(words[16].0 == 352 && words[17].0 == 356 && words[18].0 == 360 && words[19].0 == 364);
    assert(words[20].0 == 368 && words[21].0 == 372 && words[22].0 == 376 && words[23].0 == 380);
    assert(words[24].0 == 384);
}

/// A word is four bytes: in the one order the lowest first, in the other the highest.
pub proof fn law_words_have_an_order(value: u32)
    ensures
        ({
            let s = word_bytes(value, ByteOrder::Little);
            let t = word_bytes(value, ByteOrder::Big);
            &&& s.len() == 4 && t.len() == 4
            &&& s[0] + 256 * s[1] + 65536 * s[2] + 16777216 * s[3] == value
            &&& t[0] == s[3] && t[1] == s[2] && t[2] == s[1] && t[3] == s[0]
        }),
{
}

/// A frame holds as many bytes as its time takes: the samples of that time, all
/// channels, and the bytes of a sample. What does not fit 32 bits is refused.
pub proof fn law_frames_last_as_asked(audio: VpmAudio, wording: Wording)
    ensures
        ({
            let samples = audio.sample_rate * audio.frame_ms;
            let size = samples / 1000 * audio.channels * (audio.bits_per_sample / 8);
            &&& frame_size(audio, wording) matches Ok(n) ==> n == size && size <= u32::MAX
                && samples <= u32::MAX && audio.bits_per_sample >= 8
            &&& audio.bits_per_sample >= 8 && samples <= u32::MAX && samples / 1000
                * audio.channels <= u32::MAX && size <= u32::MAX ==> frame_size(audio, wording)
                is Ok
        }),
{
    let samples = audio.sample_rate * audio.frame_ms;
    assert(samples >= 0) by (nonlinear_arith)
        requires
            samples == audio.sample_rate * audio.frame_ms,
            audio.sample_rate >= 0,
            audio.frame_ms >= 0,
    ;
}

/// The recording program is told the device, that the stream is raw, its format, rate
/// and channels, and the sizes of its buffer and its periods.
pub proof fn law_recorders_are_told_the_stream(audio: VpmAudio, format: Seq<char>)
    ensures
        arecord_args_of(audio, format) == seq![
            "--quiet"@,
            "-D"@,
            audio.pcm@,
            "-t"@,
            "raw"@,
            "-f"@,
            format,
            "-r"@,
            text::decimal(audio.sample_rate as nat),
            "-c"@,
            text::decimal(audio.channels as nat),
            "--buffer-size"@,
            text::decimal(audio.buffer_size as nat),
            "--period-size"@,
            text::decimal(audio.period_size as nat),
        ],
        alsa_format(16) == Some("S16_LE"@),
        alsa_format(24) == Some("S24_LE"@),
        alsa_format(32) == Some("S32_LE"@),
{
}

/// What is wrong is said in the words of the one who asks: the monitor names itself,
/// the probe does not.
pub proof fn law_errors_are_worded(
    offset: nat,
    bits: u32,
    a: VpmAddresses,
    audio: VpmAudio,
    order: ByteOrder,
)
    ensures
        offset_error(offset, Wording::Monitor) == "offset 0x"@ + text::hexadecimal(offset)
            + " outside VPM init buffer"@,
        offset_error(offset, Wording::Probe) == "offset 0x"@ + text::hexadecimal(offset)
            + " outside init buffer"@,
        bits_error("unsupported "@, Wording::Monitor, bits) == "unsupported "@ + "KWS "@
            + "bits value "@ + text::decimal(bits as nat),
        bits_error("unsupported "@, Wording::Probe, bits) == "unsupported "@ + "bits value "@
            + text::decimal(bits as nat),
        !addresses_fit(a) ==> init_image_of(audio, a, order, Wording::Probe) == Err::<
            Seq<u8>,
            Seq<char>,
        >("pointer does not fit in 32 bits"@),
{
    reveal_strlit("");
    assert("unsupported "@ + ""@ =~= "unsupported "@);
}

} // verus!
