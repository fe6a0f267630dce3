//! Cutting a microphone signal into utterances by its energy.
use std::collections::VecDeque;
use vstd::prelude::*;
use crate::sorting::{ascending, sort_ascending};

verus! {

pub const BYTES_PER_SAMPLE: usize = 2;

/// How speech is told from silence.
///
/// Levels are compared as whole numbers: any numbers will do that order levels
/// as the levels themselves are ordered.
#[derive(Debug, Clone, Copy, PartialEq, Eq, Structural)]
pub struct VadSettings {
    pub sample_rate: u32,
    pub block_ms: u64,
    pub pre_roll_ms: u64,
    pub silence_ms: u64,
    pub min_speech_ms: u64,
    pub max_utterance_ms: u64,
    pub cooldown_ns: u64,
    pub threshold: u64,
}

impl VadSettings {
    /// The length of a block in milliseconds, as asked for.
    pub open spec fn asked_block_ms(self) -> int {
        if self.block_ms < 10 {
            10
        } else {
            self.block_ms as int
        }
    }

    /// The length of a block in bytes: a whole number of samples, at least one.
    pub open spec fn block_bytes(self) -> int {
        let samples = self.sample_rate * self.asked_block_ms() / 1000;
        2 * if samples < 1 {
            1
        } else {
            samples
        }
    }

    /// The time that a block takes, in milliseconds.
    pub open spec fn heard_block_ms(self) -> int {
        self.block_bytes() * 1000 / (self.sample_rate * 2)
    }

    /// How many blocks are kept from before speech starts: enough for the time
    /// asked for, at least one.
    pub open spec fn pre_roll_blocks(self) -> int {
        let block = self.asked_block_ms();
        let asked = if self.pre_roll_ms < block {
            block
        } else {
            self.pre_roll_ms as int
        };
        (asked + block - 1) / block
    }

    /// Whether these settings can be worked with: the sample rate is not zero,
    /// and no length or time is too large for a machine word.
    pub open spec fn fits(self) -> bool {
        &&& self.sample_rate > 0
        &&& self.sample_rate * self.asked_block_ms() <= u64::MAX
        &&& self.block_bytes() <= usize::MAX
        &&& self.block_bytes() * 1000 <= u64::MAX
        &&& self.pre_roll_blocks() <= usize::MAX
        &&& self.heard_block_ms() * (self.pre_roll_blocks() + 1) <= u64::MAX
        &&& self.max_utterance_ms + self.heard_block_ms() <= u64::MAX
    }
}

/// Whether settings can be worked with.
pub fn settings_fit(settings: &VadSettings) -> (r: bool)
    ensures
        r == settings.fits(),
{
    if settings.sample_rate == 0 {
        return false;
    }
    let block_ms: u128 = if settings.block_ms < 10 {
        10
    } else {
        settings.block_ms as u128
    };
    let rate: u128 = settings.sample_rate as u128;
    proof {
        assert(rate * block_ms <= 0xffff_ffff * 0xffff_ffff_ffff_ffff) by (nonlinear_arith)
            requires
                rate <= 0xffff_ffff,
                block_ms <= 0xffff_ffff_ffff_ffff,
        ;
    }
    let total: u128 = rate * block_ms;
    if total > u64::MAX as u128 {
        return false;
    }
    let samples: u128 = total / 1000;
    let block_bytes: u128 = 2 * if samples < 1 {
        1
    } else {
        samples
    };
    assert(block_bytes == settings.block_bytes());
    if block_bytes > usize::MAX as u128 || block_bytes * 1000 > u64::MAX as u128 {
        return false;
    }
    let heard: u128 = block_bytes * 1000 / (rate * 2);
    assert(heard == settings.heard_block_ms());
    proof {
        assert(heard <= block_bytes * 1000) by (nonlinear_arith)
            requires
                heard == block_bytes * 1000 / (rate * 2),
                rate >= 1,
        ;
    }
    let asked: u128 = if (settings.pre_roll_ms as u128) < block_ms {
        block_ms
    } else {
        settings.pre_roll_ms as u128
    };
    let blocks: u128 = (asked + block_ms - 1) / block_ms;
    assert(blocks == settings.pre_roll_blocks());
    if blocks > usize::MAX as u128 {
        return false;
    }
    proof {
        assert(heard * (blocks + 1) <= 0xffff_ffff_ffff_ffff * 0x1_0000_0000_0000_0000) by (
            nonlinear_arith)
            requires
                heard <= 0xffff_ffff_ffff_ffff,
                blocks + 1 <= 0x1_0000_0000_0000_0000,
        ;
    }
    heard * (blocks + 1) <= u64::MAX as u128 && settings.max_utterance_ms as u128 + heard
        <= u64::MAX as u128
}

/// What the collector hears.
#[derive(Debug)]
pub enum SpeechEvent {
    /// Speech begins; the audio reaches back to shortly before it.
    SpeechStart(Vec<u8>),
    /// Speech goes on.
    SpeechChunk(Vec<u8>),
    /// What was heard was too short to be speech.
    SpeechRejected,
    /// Speech has ended; the audio is all of it.
    Utterance(Vec<u8>),
}

/// What the collector hears, as a mathematical value.
pub enum Heard {
    Start(Seq<u8>),
    Chunk(Seq<u8>),
    Rejected,
    Utterance(Seq<u8>),
}

impl View for SpeechEvent {
    type V = Heard;

    open spec fn view(&self) -> Heard {
        match self {
            SpeechEvent::SpeechStart(pcm) => Heard::Start(pcm@),
            SpeechEvent::SpeechChunk(pcm) => Heard::Chunk(pcm@),
            SpeechEvent::SpeechRejected => Heard::Rejected,
            SpeechEvent::Utterance(pcm) => Heard::Utterance(pcm@),
        }
    }
}

/// A list of what is heard as mathematical values.
pub open spec fn heard(events: Seq<SpeechEvent>) -> Seq<Heard> {
    events.map_values(|e: SpeechEvent| e@)
}

/// Cuts a signal into utterances.
#[derive(Debug)]
pub struct SpeechCollector {
    settings: VadSettings,
    block_bytes: usize,
    pre_roll_blocks: usize,
    pending: Vec<u8>,
    pre_roll: VecDeque<Vec<u8>>,
    utterance: Vec<u8>,
    in_speech: bool,
    voiced_ms: u64,
    silence_run_ms: u64,
    utterance_ms: u64,
    noise_levels: Vec<u64>,
    last_completed: Option<u64>,
}

/// The state of a collector. Times are in nanoseconds on one clock.
pub struct Collector {
    pub settings: VadSettings,
    pub pending: Seq<u8>,
    pub pre_roll: Seq<Seq<u8>>,
    pub utterance: Seq<u8>,
    pub in_speech: bool,
    pub voiced_ms: u64,
    pub silence_run_ms: u64,
    pub utterance_ms: u64,
    pub noise_levels: Seq<u64>,
    pub last_completed: Option<u64>,
}

/// The contents of a list of blocks.
pub open spec fn blocks(items: Seq<Vec<u8>>) -> Seq<Seq<u8>> {
    items.map_values(|b: Vec<u8>| b@)
}

/// Blocks one after another.
pub open spec fn flattened(items: Seq<Seq<u8>>) -> Seq<u8>
    decreases items.len(),
{
    if items.len() == 0 {
        Seq::empty()
    } else {
        flattened(items.drop_last()) + items.last()
    }
}

/// A collector that has heard nothing.
pub open spec fn fresh_collector(settings: VadSettings) -> Collector {
    Collector {
        settings,
        pending: Seq::empty(),
        pre_roll: Seq::empty(),
        utterance: Seq::empty(),
        in_speech: false,
        voiced_ms: 0,
        silence_run_ms: 0,
        utterance_ms: 0,
        noise_levels: Seq::empty(),
        last_completed: None,
    }
}

/// The last `n` items.
pub open spec fn last_items(items: Seq<Seq<u8>>, n: int) -> Seq<Seq<u8>> {
    if items.len() <= n {
        items
    } else {
        items.skip(items.len() - n)
    }
}

/// Whether blocks are still passed over after the last utterance.
pub open spec fn cooling(c: Collector, now: u64) -> bool {
    &&& !c.in_speech
    &&& c.last_completed matches Some(then) && (if now < then {
        0
    } else {
        now - then
    }) < c.settings.cooldown_ns
}

/// A collector back in silence after an utterance.
pub open spec fn after_utterance(c: Collector, now: u64) -> Collector {
    Collector {
        pre_roll: Seq::empty(),
        utterance: Seq::empty(),
        in_speech: false,
        voiced_ms: 0,
        silence_run_ms: 0,
        utterance_ms: 0,
        noise_levels: Seq::empty(),
        last_completed: Some(now),
        ..c
    }
}

/// What a collector in silence does with a block.
pub open spec fn silent_step(c: Collector, block: Seq<u8>, level: u64) -> (Collector, Seq<Heard>) {
    let ms = c.settings.heard_block_ms();
    let kept = last_items(c.pre_roll.push(block), c.settings.pre_roll_blocks());
    if level >= c.settings.threshold {
        (
            Collector {
                pre_roll: kept,
                utterance: flattened(kept),
                in_speech: true,
                voiced_ms: ms as u64,
                silence_run_ms: 0,
                utterance_ms: (ms * kept.len()) as u64,
                ..c
            },
            seq![Heard::Start(flattened(kept))],
        )
    } else {
        (
            Collector { pre_roll: kept, noise_levels: c.noise_levels.push(level), ..c },
            Seq::empty(),
        )
    }
}

/// A collector that has taken a block into the running utterance.
pub open spec fn extended(c: Collector, block: Seq<u8>, level: u64) -> Collector {
    let ms = c.settings.heard_block_ms();
    let voice = level >= c.settings.threshold;
    Collector {
        utterance: c.utterance + block,
        utterance_ms: (c.utterance_ms + ms) as u64,
        voiced_ms: if voice {
            (c.voiced_ms + ms) as u64
        } else {
            c.voiced_ms
        },
        silence_run_ms: if voice {
            0
        } else {
            (c.silence_run_ms + ms) as u64
        },
        ..c
    }
}

/// What a collector in speech does with a block. The utterance ends after enough
/// silence, or when it has become too long.
pub open spec fn speech_step(c: Collector, block: Seq<u8>, level: u64, now: u64) -> (
    Collector,
    Seq<Heard>,
) {
    let after = extended(c, block, level);
    if after.silence_run_ms < c.settings.silence_ms && after.utterance_ms
        < c.settings.max_utterance_ms {
        (after, seq![Heard::Chunk(block)])
    } else if after.voiced_ms < c.settings.min_speech_ms {
        (after_utterance(after, now), seq![Heard::Chunk(block), Heard::Rejected])
    } else {
        (
            after_utterance(after, now),
            seq![Heard::Chunk(block), Heard::Utterance(after.utterance)],
        )
    }
}

/// What a collector does with a block of the given level.
pub open spec fn block_step(c: Collector, block: Seq<u8>, level: u64, now: u64) -> (
    Collector,
    Seq<Heard>,
) {
    if cooling(c, now) {
        (c, Seq::empty())
    } else if c.in_speech {
        speech_step(c, block, level, now)
    } else {
        silent_step(c, block, level)
    }
}

/// A block with its level and the time at which it was heard.
#[derive(Debug)]
pub struct MeasuredBlock {
    pub pcm: Vec<u8>,
    pub level: u64,
    pub now_ns: u64,
}

/// A block with its level and its time, as a mathematical value.
pub struct Measured {
    pub pcm: Seq<u8>,
    pub level: u64,
    pub now: u64,
}

impl View for MeasuredBlock {
    type V = Measured;

    open spec fn view(&self) -> Measured {
        Measured { pcm: self.pcm@, level: self.level, now: self.now_ns }
    }
}

/// A list of blocks as mathematical values.
pub open spec fn measures(items: Seq<MeasuredBlock>) -> Seq<Measured> {
    items.map_values(|b: MeasuredBlock| b@)
}

/// What a collector does with blocks, one after another.
pub open spec fn blocks_step(c: Collector, items: Seq<Measured>) -> (Collector, Seq<Heard>)
    decreases items.len(),
{
    if items.len() == 0 {
        (c, Seq::empty())
    } else {
        let (before, events) = blocks_step(c, items.drop_last());
        let last = items.last();
        let (after, more) = block_step(before, last.pcm, last.level, last.now);
        (after, events + more)
    }
}

/// What is left of `s` when as many whole blocks as possible are cut off.
pub open spec fn cut_rest(s: Seq<u8>, size: int) -> Seq<u8>
    decreases s.len(),
{
    if size <= 0 || s.len() < size {
        s
    } else {
        cut_rest(s.skip(size), size)
    }
}

/// The whole blocks of `s`.
pub open spec fn cut_blocks(s: Seq<u8>, size: int) -> Seq<Seq<u8>>
    decreases s.len(),
{
    if size <= 0 || s.len() < size {
        Seq::empty()
    } else {
        seq![s.take(size)] + cut_blocks(s.skip(size), size)
    }
}

impl SpeechCollector {
    /// The state of this collector.
    pub closed spec fn state(&self) -> Collector {
        Collector {
            settings: self.settings,
            pending: self.pending@,
            pre_roll: blocks(self.pre_roll@),
            utterance: self.utterance@,
            in_speech: self.in_speech,
            voiced_ms: self.voiced_ms,
            silence_run_ms: self.silence_run_ms,
            utterance_ms: self.utterance_ms,
            noise_levels: self.noise_levels@,
            last_completed: self.last_completed,
        }
    }

    /// What holds of a collector between calls.
    pub closed spec fn wf(&self) -> bool {
        &&& self.settings.fits()
        &&& self.block_bytes == self.settings.block_bytes()
        &&& self.pre_roll_blocks == self.settings.pre_roll_blocks()
        &&& collector_ok(self.state())
    }

    /// A collector that has heard nothing.
    pub fn new(settings: VadSettings) -> (r: Self)
        requires
            settings.fits(),
        ensures
            r.wf(),
            r.state() == fresh_collector(settings),
    {
        let block_ms: u64 = if settings.block_ms < 10 {
            10
        } else {
            settings.block_ms
        };
        let samples: u64 = settings.sample_rate as u64 * block_ms / 1000;
        proof {
            lemma_settings(settings);
        }
        let block_bytes: usize = (if samples < 1 {
            1
        } else {
            samples as usize
        }) * 2;
        let asked: u64 = if settings.pre_roll_ms < block_ms {
            block_ms
        } else {
            settings.pre_roll_ms
        };
        let pre_roll_blocks: usize = ((asked as u128 + (block_ms as u128 - 1)) / block_ms as u128)
            as usize;
        let r = SpeechCollector {
            settings,
            block_bytes,
            pre_roll_blocks,
            pending: Vec::new(),
            pre_roll: VecDeque::new(),
            utterance: Vec::new(),
            in_speech: false,
            voiced_ms: 0,
            silence_run_ms: 0,
            utterance_ms: 0,
            noise_levels: Vec::new(),
            last_completed: None,
        };
        assert(r.state().pre_roll =~= Seq::empty());
        r
    }
}

impl SpeechCollector {
    /// Takes a signal, and cuts off the blocks that are complete.
    pub fn cut(&mut self, bytes: &[u8]) -> (r: Vec<Vec<u8>>)
        requires
            old(self).wf(),
        ensures
            final(self).wf(),
            blocks(r@) == cut_blocks(
                old(self).state().pending + bytes@,
                old(self).state().settings.block_bytes(),
            ),
            final(self).state() == (Collector {
                pending: cut_rest(
                    old(self).state().pending + bytes@,
                    old(self).state().settings.block_bytes(),
                ),
                ..old(self).state()
            }),
    {
        let size: usize = self.block_bytes;
        let ghost whole = self.pending@ + bytes@;
        proof {
            lemma_settings(self.settings);
        }
        let mut all: Vec<u8> = Vec::new();
        all.append(&mut self.pending);
        all.extend_from_slice(bytes);
        assert(all@ =~= whole);
        let n: usize = all.len();
        let mut out: Vec<Vec<u8>> = Vec::new();
        let mut at: usize = 0;
        assert(whole.skip(0) =~= whole);
        assert(blocks(out@) + cut_blocks(whole, size as int) =~= cut_blocks(whole, size as int));
        while n - at >= size
            invariant
                0 < size,
                at <= n == all@.len(),
                all@ == whole,
                cut_rest(whole, size as int) == cut_rest(whole.skip(at as int), size as int),
                cut_blocks(whole, size as int) == blocks(out@) + cut_blocks(
                    whole.skip(at as int),
                    size as int,
                ),
            decreases n - at,
        {
            let ghost rest = whole.skip(at as int);
            let ghost before = out@;
            let block: Vec<u8> = vstd::slice::slice_to_vec(
                vstd::slice::slice_subrange(all.as_slice(), at, at + size),
            );
            assert(block@ =~= rest.take(size as int));
            assert(rest.skip(size as int) =~= whole.skip(at + size));
            out.push(block);
            assert(blocks(before) + (seq![rest.take(size as int)] + cut_blocks(
                whole.skip(at + size),
                size as int,
            )) =~= blocks(out@) + cut_blocks(whole.skip(at + size), size as int));
            at = at + size;
        }
        self.pending = vstd::slice::slice_to_vec(
            vstd::slice::slice_subrange(all.as_slice(), at, n),
        );
        assert(self.pending@ =~= whole.skip(at as int));
        assert(blocks(out@) + Seq::<Seq<u8>>::empty() =~= blocks(out@));
        out
    }

    fn keep_pre_roll(&mut self, block: &Vec<u8>)
        requires
            old(self).settings.fits(),
            old(self).pre_roll_blocks == old(self).settings.pre_roll_blocks(),
            old(self).pre_roll@.len() <= old(self).pre_roll_blocks,
        ensures
            *final(self) == (SpeechCollector { pre_roll: final(self).pre_roll, ..*old(self) }),
            blocks(final(self).pre_roll@) == last_items(
                blocks(old(self).pre_roll@).push(block@),
                old(self).pre_roll_blocks as int,
            ),
            1 <= final(self).pre_roll@.len() <= old(self).pre_roll_blocks,
    {
        proof {
            lemma_settings(self.settings);
        }
        let ghost before = blocks(self.pre_roll@);
        self.pre_roll.push_back(vstd::slice::slice_to_vec(block.as_slice()));
        assert(blocks(self.pre_roll@) =~= before.push(block@));
        if self.pre_roll.len() > self.pre_roll_blocks {
            let _oldest: Option<Vec<u8>> = self.pre_roll.pop_front();
            assert(blocks(self.pre_roll@) =~= before.push(block@).skip(1));
        }
    }

    fn joined_pre_roll(&self) -> (r: Vec<u8>)
        ensures
            r@ == flattened(blocks(self.pre_roll@)),
    {
        let ghost all = blocks(self.pre_roll@);
        let mut out: Vec<u8> = Vec::new();
        let mut i: usize = 0;
        assert(all.take(0) =~= Seq::empty());
        while i < self.pre_roll.len()
            invariant
                i <= self.pre_roll@.len(),
                all == blocks(self.pre_roll@),
                out@ == flattened(all.take(i as int)),
            decreases self.pre_roll@.len() - i,
        {
            assert(all.take(i + 1).drop_last() =~= all.take(i as int));
            assert(all.take(i + 1).last() == self.pre_roll@[i as int]@);
            out.extend_from_slice(self.pre_roll[i].as_slice());
            i = i + 1;
        }
        assert(all.take(i as int) =~= all);
        out
    }

    fn reset_after_utterance(&mut self, now_ns: u64)
        ensures
            final(self).state() == (Collector {
                utterance: old(self).utterance@,
                ..after_utterance(old(self).state(), now_ns)
            }),
            final(self).settings == old(self).settings,
            final(self).block_bytes == old(self).block_bytes,
            final(self).pre_roll_blocks == old(self).pre_roll_blocks,
    {
        self.pre_roll.clear();
        self.in_speech = false;
        self.voiced_ms = 0;
        self.silence_run_ms = 0;
        self.utterance_ms = 0;
        self.noise_levels.clear();
        self.last_completed = Some(now_ns);
        assert(self.state().pre_roll =~= Seq::empty());
    }

    /// Takes a block of the given level, heard at the given time.
    pub fn push_block(&mut self, block: Vec<u8>, level: u64, now_ns: u64) -> (r: Vec<SpeechEvent>)
        requires
            old(self).wf(),
            block@.len() == old(self).state().settings.block_bytes(),
        ensures
            final(self).wf(),
            (final(self).state(), heard(r@)) == block_step(
                old(self).state(),
                block@,
                level,
                now_ns,
            ),
    {
        let ghost begun = self.state();
        let ghost expected = block_step(begun, block@, level, now_ns);
        let mut events: Vec<SpeechEvent> = Vec::new();
        assert(heard(events@) =~= Seq::empty());
        proof {
            lemma_settings(self.settings);
        }
        if let Some(then) = self.last_completed {
            if !self.in_speech && now_ns.saturating_sub(then) < self.settings.cooldown_ns {
                return events;
            }
        }
        let ms: u64 = (block.len() as u64 * 1000) / (self.settings.sample_rate as u64 * 2);
        assert(ms == self.settings.heard_block_ms());
        let voice: bool = level >= self.settings.threshold;
        if !self.in_speech {
            self.keep_pre_roll(&block);
            if voice {
                let count: u64 = self.pre_roll.len() as u64;
                proof {
                    let most = self.settings.pre_roll_blocks();
                    assert(0 <= ms * count <= ms * most <= ms * (most + 1)) by (nonlinear_arith)
                        requires
                            0 <= ms,
                            0 <= count <= most,
                    ;
                    assert(ms <= ms * count) by (nonlinear_arith)
                        requires
                            0 <= ms,
                            1 <= count,
                    ;
                }
                self.in_speech = true;
                self.utterance = self.joined_pre_roll();
                self.voiced_ms = ms;
                self.silence_run_ms = 0;
                self.utterance_ms = ms * count;
                events.push(
                    SpeechEvent::SpeechStart(vstd::slice::slice_to_vec(self.utterance.as_slice())),
                );
                assert(heard(events@) =~= expected.1);
            } else {
                self.noise_levels.push(level);
            }
            return events;
        }
        proof {
            let most = self.settings.pre_roll_blocks();
            assert(ms * (most + 1) == ms * most + ms) by (nonlinear_arith);
        }
        self.utterance.extend_from_slice(block.as_slice());
        self.utterance_ms = self.utterance_ms + ms;
        if voice {
            self.voiced_ms = self.voiced_ms + ms;
            self.silence_run_ms = 0;
        } else {
            self.silence_run_ms = self.silence_run_ms + ms;
        }
        assert(self.utterance@ =~= begun.utterance + block@);
        assert(self.state() == extended(begun, block@, level));
        if self.silence_run_ms < self.settings.silence_ms && self.utterance_ms
            < self.settings.max_utterance_ms {
            events.push(SpeechEvent::SpeechChunk(block));
            assert(heard(events@) =~= expected.1);
            return events;
        }
        let voiced: u64 = self.voiced_ms;
        let mut utterance: Vec<u8> = Vec::new();
        utterance.append(&mut self.utterance);
        assert(utterance@ =~= extended(begun, block@, level).utterance);
        self.reset_after_utterance(now_ns);
        assert(self.utterance@ =~= Seq::empty());
        assert(self.state() =~= expected.0);
        events.push(SpeechEvent::SpeechChunk(block));
        if voiced < self.settings.min_speech_ms {
            events.push(SpeechEvent::SpeechRejected);
        } else {
            events.push(SpeechEvent::Utterance(utterance));
        }
        assert(heard(events@) =~= expected.1);
        events
    }

    /// Takes blocks, one after another.
    pub fn push(&mut self, items: Vec<MeasuredBlock>) -> (r: Vec<SpeechEvent>)
        requires
            old(self).wf(),
            forall|i: int|
                0 <= i < items@.len() ==> (#[trigger] items@[i]).pcm@.len() == old(
                    self,
                ).state().settings.block_bytes(),
        ensures
            final(self).wf(),
            (final(self).state(), heard(r@)) == blocks_step(
                old(self).state(),
                measures(items@),
            ),
    {
        let mut events: Vec<SpeechEvent> = Vec::new();
        let mut i: usize = 0;
        let ghost begun = self.state();
        let ghost all = measures(items@);
        assert(all.take(0) =~= Seq::empty());
        assert(heard(events@) =~= Seq::empty());
        while i < items.len()
            invariant
                i <= items@.len(),
                self.wf(),
                self.state().settings == begun.settings,
                forall|j: int|
                    0 <= j < items@.len() ==> (#[trigger] items@[j]).pcm@.len()
                        == begun.settings.block_bytes(),
                all == measures(items@),
                (self.state(), heard(events@)) == blocks_step(begun, all.take(i as int)),
            decreases items@.len() - i,
        {
            let ghost before = events@;
            assert(all.take(i + 1).drop_last() =~= all.take(i as int));
            assert(all.take(i + 1).last() == items@[i as int]@);
            let pcm: Vec<u8> = vstd::slice::slice_to_vec(items[i].pcm.as_slice());
            let mut more: Vec<SpeechEvent> = self.push_block(
                pcm,
                items[i].level,
                items[i].now_ns,
            );
            let ghost added = more@;
            events.append(&mut more);
            assert(heard(events@) =~= heard(before) + heard(added));
            i = i + 1;
        }
        assert(all.take(i as int) =~= all);
        events
    }
}

/// What holds of a collector between calls: less than a block is pending, no more
/// is kept from before speech than asked for, and the times fit.
pub open spec fn collector_ok(c: Collector) -> bool {
    let ms = c.settings.heard_block_ms();
    &&& c.pending.len() < c.settings.block_bytes()
    &&& c.pre_roll.len() <= c.settings.pre_roll_blocks()
    &&& c.in_speech ==> {
        &&& c.utterance_ms < c.settings.max_utterance_ms || c.utterance_ms <= ms
            * c.settings.pre_roll_blocks()
        &&& c.voiced_ms <= c.utterance_ms
        &&& c.silence_run_ms <= c.utterance_ms
    }
}

proof fn lemma_settings(settings: VadSettings)
    requires
        settings.fits(),
    ensures
        settings.pre_roll_blocks() >= 1,
        2 <= settings.block_bytes(),
        0 <= settings.heard_block_ms(),
        settings.heard_block_ms() <= settings.block_bytes() * 1000,
{
    let block = settings.asked_block_ms();
    let asked = if settings.pre_roll_ms < block {
        block
    } else {
        settings.pre_roll_ms as int
    };
    assert((asked + block - 1) / block >= 1) by (nonlinear_arith)
        requires
            asked >= block,
            block >= 10,
    ;
    let total = settings.block_bytes() * 1000;
    let rate = settings.sample_rate * 2;
    assert(0 <= total / rate <= total) by (nonlinear_arith)
        requires
            total >= 0,
            rate >= 1,
    ;
}

// --------------------------------------------------------------------- levels

/// The sample that two bytes spell, the lowest first, in two's complement.
pub open spec fn sample_of(low: u8, high: u8) -> int {
    let value = low + 256 * high;
    if value < 32768 {
        value
    } else {
        value - 65536
    }
}

/// Reads a sample.
pub fn sample(low: u8, high: u8) -> (r: i16)
    ensures
        r == sample_of(low, high),
{
    let value: i32 = low as i32 + 256 * (high as i32);
    if value < 32768 {
        value as i16
    } else {
        (value - 65536) as i16
    }
}

/// The sum of the squares of the samples of a block.
pub open spec fn square_sum(block: Seq<u8>) -> int
    decreases block.len(),
{
    if block.len() < 2 {
        0
    } else {
        let value = sample_of(block[0], block[1]);
        value * value + square_sum(block.skip(2))
    }
}

/// The largest magnitude of the samples of a block.
pub open spec fn peak_of(block: Seq<u8>) -> int
    decreases block.len(),
{
    if block.len() < 2 {
        0
    } else {
        let value = sample_of(block[0], block[1]);
        let magnitude = if value < 0 {
            -value
        } else {
            value
        };
        let rest = peak_of(block.skip(2));
        if magnitude > rest {
            magnitude
        } else {
            rest
        }
    }
}

/// The sum of the squares of the samples of a block, and their number.
pub fn energy(block: &[u8]) -> (r: (u128, usize))
    ensures
        r.0 == square_sum(block@),
        r.1 == block@.len() / 2,
{
    let n: usize = block.len();
    let mut sum: u128 = 0;
    let mut i: usize = 0;
    assert(block@.skip(0) =~= block@);
    while n - i >= 2
        invariant
            i <= n == block@.len(),
            i % 2 == 0,
            sum <= i * 0x4000_0000,
            square_sum(block@) == sum + square_sum(block@.skip(i as int)),
        decreases n - i,
    {
        let value: i64 = sample(block[i], block[i + 1]) as i64;
        assert(0 <= value * value <= 0x4000_0000) by (nonlinear_arith)
            requires
                -32768 <= value <= 32767,
        ;
        assert(block@.skip(i as int).skip(2) =~= block@.skip(i + 2));
        sum = sum + (value * value) as u128;
        i = i + 2;
    }
    (sum, n / 2)
}

/// The largest magnitude of the samples of a block.
pub fn peak(block: &[u8]) -> (r: u32)
    ensures
        r == peak_of(block@),
        r <= 32768,
{
    let mut best: u32 = 0;
    let n: usize = block.len();
    let mut i: usize = 0;
    assert(block@.skip(0) =~= block@);
    while n - i >= 2
        invariant
            i <= n == block@.len(),
            best <= 32768,
            peak_of(block@) == if best > peak_of(block@.skip(i as int)) {
                best as int
            } else {
                peak_of(block@.skip(i as int))
            },
        decreases n - i,
    {
        let value: i32 = sample(block[i], block[i + 1]) as i32;
        let magnitude: u32 = if value < 0 {
            (-value) as u32
        } else {
            value as u32
        };
        assert(block@.skip(i as int).skip(2) =~= block@.skip(i + 2));
        if magnitude > best {
            best = magnitude;
        }
        i = i + 2;
    }
    best
}

/// The quiet levels heard since the last utterance: how many, their median and
/// their 95th percentile.
#[derive(Debug, Clone, Copy, PartialEq, Eq, Structural)]
pub struct NoiseFloor {
    pub samples: usize,
    pub p50: u64,
    pub p95: u64,
}

/// The position, in an ascending list of `n` numbers, nearest to the share of
/// `percent` in a hundred of the way to its end; of two, the later one.
pub open spec fn percentile_index(n: int, percent: int) -> int {
    ((n - 1) * percent + 50) / 100
}

/// The number at a share of the way through an ascending list.
pub open spec fn percentile_of(sorted: Seq<u64>, percent: int) -> u64 {
    if sorted.len() == 0 {
        0
    } else {
        sorted[percentile_index(sorted.len() as int, percent)]
    }
}

fn percentile(sorted: &Vec<u64>, percent: u64) -> (r: u64)
    requires
        percent <= 100,
    ensures
        r == percentile_of(sorted@, percent as int),
{
    let n: usize = sorted.len();
    if n == 0 {
        return 0;
    }
    assert(0 <= (n - 1) * percent <= (n - 1) * 100) by (nonlinear_arith)
        requires
            0 <= percent <= 100,
            n >= 1,
    ;
    let index: u128 = ((n - 1) as u128 * percent as u128 + 50) / 100;
    assert(0 <= index < n) by (nonlinear_arith)
        requires
            index == ((n - 1) * percent + 50) / 100,
            0 <= percent <= 100,
            n >= 1,
    ;
    sorted[index as usize]
}

impl SpeechCollector {
    /// The quiet levels heard since the last utterance.
    pub fn noise_floor(&self) -> (r: NoiseFloor)
        ensures
            exists|sorted: Seq<u64>|
                #![trigger ascending(sorted)]
                {
                    &&& ascending(sorted)
                    &&& sorted.to_multiset() == self.state().noise_levels.to_multiset()
                    &&& r.samples == self.state().noise_levels.len()
                    &&& r.p50 == percentile_of(sorted, 50)
                    &&& r.p95 == percentile_of(sorted, 95)
                },
    {
        let sorted: Vec<u64> = sort_ascending(&self.noise_levels);
        proof {
            assert(ascending(sorted@));
        }
        NoiseFloor {
            samples: self.noise_levels.len(),
            p50: percentile(&sorted, 50),
            p95: percentile(&sorted, 95),
        }
    }

    /// Whether speech is being heard.
    pub fn in_speech(&self) -> (r: bool)
        ensures
            r == self.state().in_speech,
    {
        self.in_speech
    }

    /// The length of a block in bytes.
    pub fn block_len(&self) -> (r: usize)
        requires
            self.wf(),
        ensures
            r == self.state().settings.block_bytes(),
    {
        self.block_bytes
    }
}

// ----------------------------------------------------------------------- laws

/// Nothing is lost or reordered in cutting: the blocks and what is left over are
/// the signal. The blocks all have the same size, and less than that is left.
pub proof fn law_cut_keeps_everything(s: Seq<u8>, size: int)
    requires
        size > 0,
    ensures
        flattened(cut_blocks(s, size)) + cut_rest(s, size) == s,
        forall|i: int|
            0 <= i < cut_blocks(s, size).len() ==> (#[trigger] cut_blocks(s, size)[i]).len()
                == size,
        cut_rest(s, size).len() < size,
    decreases s.len(),
{
    if s.len() < size {
        assert(flattened(cut_blocks(s, size)) + s =~= s);
    } else {
        let rest = s.skip(size);
        law_cut_keeps_everything(rest, size);
        lemma_flattened_front(s.take(size), cut_blocks(rest, size));
        assert(s.take(size) + (flattened(cut_blocks(rest, size)) + cut_rest(rest, size)) =~= s);
        assert(flattened(cut_blocks(s, size)) + cut_rest(s, size) =~= s.take(size) + (flattened(
            cut_blocks(rest, size),
        ) + cut_rest(rest, size)));
    }
}

/// A further block in front stands before the others.
pub proof fn lemma_flattened_front(first: Seq<u8>, rest: Seq<Seq<u8>>)
    ensures
        flattened(seq![first] + rest) == first + flattened(rest),
    decreases rest.len(),
{
    let all = seq![first] + rest;
    if rest.len() == 0 {
        assert(all.drop_last() =~= Seq::empty());
        assert(all.last() == first);
        reveal_with_fuel(flattened, 2);
        assert(flattened(all) =~= first);
        assert(first + flattened(rest) =~= first);
    } else {
        lemma_flattened_front(first, rest.drop_last());
        assert(all.drop_last() =~= seq![first] + rest.drop_last());
        assert(first + (flattened(rest.drop_last()) + rest.last()) =~= (first + flattened(
            rest.drop_last(),
        )) + rest.last());
    }
}

/// The audio that the events of a run of blocks have streamed since speech last
/// started, when `before` was streamed before them.
pub open spec fn streamed(before: Seq<u8>, events: Seq<Heard>) -> Seq<u8>
    decreases events.len(),
{
    if events.len() == 0 {
        before
    } else {
        let sofar = streamed(before, events.drop_last());
        match events.last() {
            Heard::Start(pcm) => pcm,
            Heard::Chunk(pcm) => sofar + pcm,
            _ => sofar,
        }
    }
}

/// What is streamed is what is recorded: while speech goes on, the audio of its
/// start and its chunks so far is the recording so far, and an utterance is
/// exactly what was streamed of it.
pub proof fn law_streamed_audio_is_the_utterance(
    c: Collector,
    block: Seq<u8>,
    level: u64,
    now: u64,
    before: Seq<u8>,
)
    requires
        c.in_speech ==> before == c.utterance,
    ensures
        ({
            let (after, events) = block_step(c, block, level, now);
            let sofar = streamed(before, events);
            &&& after.in_speech ==> sofar == after.utterance
            &&& events.len() > 0 && events.last() is Utterance ==> events.last()->Utterance_0
                == sofar
            &&& forall|i: int|
                0 <= i < events.len() - 1 ==> !(#[trigger] events[i] is Utterance)
        }),
{
    reveal_with_fuel(streamed, 3);
    let events = block_step(c, block, level, now).1;
    if events.len() == 1 {
        assert(events.drop_last() =~= Seq::empty());
    } else if events.len() == 2 {
        assert(events.drop_last() =~= seq![events[0]]);
        assert(seq![events[0]].drop_last() =~= Seq::empty());
    }
}

/// Audio is streamed only inside speech: a block in silence is heard only where
/// its level reaches the threshold, and then speech starts with the blocks just
/// before it.
pub proof fn law_silence_is_not_streamed(c: Collector, block: Seq<u8>, level: u64, now: u64)
    requires
        !c.in_speech,
    ensures
        ({
            let (after, events) = block_step(c, block, level, now);
            if level < c.settings.threshold || cooling(c, now) {
                events.len() == 0 && !after.in_speech
            } else {
                let kept = last_items(c.pre_roll.push(block), c.settings.pre_roll_blocks());
                events == seq![Heard::Start(flattened(kept))] && after.in_speech
            }
        }),
{
}

/// An utterance has been voiced for the least time asked for; what was voiced for
/// less is rejected. After either the collector is in silence.
pub proof fn law_short_speech_is_rejected(c: Collector, block: Seq<u8>, level: u64, now: u64)
    requires
        c.in_speech,
    ensures
        ({
            let (after, events) = block_step(c, block, level, now);
            let voiced = extended(c, block, level).voiced_ms;
            &&& events[0] == Heard::Chunk(block)
            &&& events.len() == 2 <==> !after.in_speech
            &&& events.len() == 2 && voiced < c.settings.min_speech_ms ==> events[1]
                == Heard::Rejected
            &&& events.len() == 2 && voiced >= c.settings.min_speech_ms ==> events[1]
                == Heard::Utterance(c.utterance + block)
        }),
{
}

// ----------------------------------------------------------- runs of a signal

/// Blocks with the levels that a measure gives them, heard at the given times.
pub open spec fn measured(
    items: Seq<Seq<u8>>,
    level: spec_fn(Seq<u8>) -> u64,
    times: Seq<u64>,
) -> Seq<Measured> {
    Seq::new(
        items.len(),
        |i: int| Measured { pcm: items[i], level: level(items[i]), now: times[i] },
    )
}

/// What a collector does with a piece of a signal: it cuts off the blocks that are
/// complete, and takes them one after another.
pub open spec fn signal_step(
    c: Collector,
    bytes: Seq<u8>,
    level: spec_fn(Seq<u8>) -> u64,
    times: Seq<u64>,
) -> (Collector, Seq<Heard>) {
    let size = c.settings.block_bytes();
    blocks_step(
        Collector { pending: cut_rest(c.pending + bytes, size), ..c },
        measured(cut_blocks(c.pending + bytes, size), level, times),
    )
}

/// A signal is cut alike whether it comes at once or in two pieces: what is left
/// of the first piece goes in front of the second.
pub proof fn law_cut_in_pieces(a: Seq<u8>, b: Seq<u8>, size: int)
    requires
        size > 0,
    ensures
        cut_blocks(a + b, size) == cut_blocks(a, size) + cut_blocks(cut_rest(a, size) + b, size),
        cut_rest(a + b, size) == cut_rest(cut_rest(a, size) + b, size),
    decreases a.len(),
{
    if a.len() < size {
        assert(cut_blocks(a, size) + cut_blocks(a + b, size) =~= cut_blocks(a + b, size));
    } else {
        let rest = a.skip(size);
        law_cut_in_pieces(rest, b, size);
        assert((a + b).skip(size) =~= rest + b);
        assert((a + b).take(size) =~= a.take(size));
        assert(cut_blocks(a + b, size) =~= cut_blocks(a, size) + cut_blocks(
            cut_rest(a, size) + b,
            size,
        ));
    }
}

/// Blocks after blocks are taken one after another.
proof fn lemma_blocks_in_pieces(c: Collector, x: Seq<Measured>, y: Seq<Measured>)
    ensures
        ({
            let (middle, first) = blocks_step(c, x);
            let (after, second) = blocks_step(middle, y);
            blocks_step(c, x + y) == (after, first + second)
        }),
    decreases y.len(),
{
    let (middle, first) = blocks_step(c, x);
    if y.len() == 0 {
        assert(x + y =~= x);
        assert(first + Seq::<Heard>::empty() =~= first);
    } else {
        lemma_blocks_in_pieces(c, x, y.drop_last());
        assert((x + y).drop_last() =~= x + y.drop_last());
        let (before, events) = blocks_step(middle, y.drop_last());
        let last = y.last();
        let more = block_step(before, last.pcm, last.level, last.now).1;
        assert((first + events) + more =~= first + (events + more));
    }
}

/// What waits for the rest of its block has no part in what is heard.
proof fn lemma_pending_waits(c: Collector, pending: Seq<u8>, items: Seq<Measured>)
    ensures
        blocks_step(Collector { pending, ..c }, items) == (
            Collector { pending, ..blocks_step(c, items).0 },
            blocks_step(c, items).1,
        ),
        blocks_step(c, items).0.pending == c.pending,
        blocks_step(c, items).0.settings == c.settings,
    decreases items.len(),
{
    if items.len() > 0 {
        lemma_pending_waits(c, pending, items.drop_last());
    }
}

/// What is heard depends on the signal and not on how it is cut into pieces: two
/// pieces one after the other leave the collector as it would be after both at
/// once, and give the same events. Each block is heard at its own time.
pub proof fn law_pieces_are_heard_as_one(
    c: Collector,
    a: Seq<u8>,
    b: Seq<u8>,
    level: spec_fn(Seq<u8>) -> u64,
    first_times: Seq<u64>,
    second_times: Seq<u64>,
)
    requires
        c.settings.fits(),
        first_times.len() == cut_blocks(c.pending + a, c.settings.block_bytes()).len(),
        second_times.len() == cut_blocks(
            cut_rest(c.pending + a, c.settings.block_bytes()) + b,
            c.settings.block_bytes(),
        ).len(),
    ensures
        ({
            let (middle, first) = signal_step(c, a, level, first_times);
            let (after, second) = signal_step(middle, b, level, second_times);
            signal_step(c, a + b, level, first_times + second_times) == (after, first + second)
        }),
{
    let size = c.settings.block_bytes();
    lemma_settings(c.settings);
    let head = c.pending + a;
    let rest = cut_rest(head, size);
    law_cut_in_pieces(head, b, size);
    assert(head + b =~= c.pending + (a + b));
    let x = measured(cut_blocks(head, size), level, first_times);
    let y = measured(cut_blocks(rest + b, size), level, second_times);
    let all = measured(cut_blocks(head + b, size), level, first_times + second_times);
    assert(all =~= x + y);
    let last = cut_rest(rest + b, size);
    let begun = Collector { pending: rest, ..c };
    let ended = Collector { pending: last, ..c };
    lemma_blocks_in_pieces(ended, x, y);
    lemma_pending_waits(begun, last, x);
    let middle = blocks_step(begun, x).0;
    assert(Collector { pending: last, ..begun } == ended);
    assert(signal_step(c, a, level, first_times) == blocks_step(begun, x));
    assert(signal_step(middle, b, level, second_times) == blocks_step(
        Collector { pending: last, ..middle },
        y,
    ));
}

/// Two collectors that differ at most in when their last utterance was complete.
pub open spec fn alike(c: Collector, d: Collector) -> bool {
    d == (Collector { last_completed: d.last_completed, ..c })
}

/// Without a pause after an utterance, the times at which blocks are heard have no
/// part in what is heard.
proof fn lemma_times_do_not_matter(c: Collector, d: Collector, x: Seq<Measured>, y: Seq<Measured>)
    requires
        c.settings.cooldown_ns == 0,
        alike(c, d),
        x.len() == y.len(),
        forall|i: int|
            0 <= i < x.len() ==> (#[trigger] x[i]).pcm == y[i].pcm && x[i].level == y[i].level,
    ensures
        blocks_step(c, x).1 == blocks_step(d, y).1,
        alike(blocks_step(c, x).0, blocks_step(d, y).0),
        blocks_step(c, x).0.settings == c.settings,
    decreases x.len(),
{
    if x.len() > 0 {
        lemma_times_do_not_matter(c, d, x.drop_last(), y.drop_last());
        assert(x.last().pcm == y.last().pcm && x.last().level == y.last().level) by {
            assert(x[x.len() - 1] == x.last());
        }
    }
}

/// Without a pause after an utterance, what is heard depends on the bytes of the
/// signal alone: neither how they are cut into pieces nor when they come matters.
pub proof fn law_only_the_signal_is_heard(
    c: Collector,
    a: Seq<u8>,
    b: Seq<u8>,
    level: spec_fn(Seq<u8>) -> u64,
    first_times: Seq<u64>,
    second_times: Seq<u64>,
    times: Seq<u64>,
)
    requires
        c.settings.fits(),
        c.settings.cooldown_ns == 0,
    ensures
        ({
            let (middle, first) = signal_step(c, a, level, first_times);
            let (_, second) = signal_step(middle, b, level, second_times);
            signal_step(c, a + b, level, times).1 == first + second
        }),
{
    let size = c.settings.block_bytes();
    let cut = cut_blocks(c.pending + a, size);
    let own = Seq::new(cut.len(), |i: int| first_times[i]);
    assert(measured(cut, level, own) =~= measured(cut, level, first_times));
    let next = cut_blocks(cut_rest(c.pending + a, size) + b, size);
    let late = Seq::new(next.len(), |i: int| second_times[i]);
    assert(measured(next, level, late) =~= measured(next, level, second_times));
    law_pieces_are_heard_as_one(c, a, b, level, own, late);
    let begun = Collector { pending: cut_rest(c.pending + a, size), ..c };
    lemma_pending_waits(begun, begun.pending, measured(cut, level, own));
    let whole = cut_blocks(c.pending + (a + b), size);
    let begun = Collector { pending: cut_rest(c.pending + (a + b), size), ..c };
    lemma_times_do_not_matter(
        begun,
        begun,
        measured(whole, level, times),
        measured(whole, level, own + late),
    );
}

/// Where a listener stands after a run of events.
pub enum Place {
    /// No speech.
    Silence,
    /// Speech has started, and nothing followed.
    Started,
    /// Speech goes on.
    Speaking,
}

/// Where a run of events leaves a listener. Speech starts, goes on for at least
/// one chunk, and ends as an utterance or rejected; then it can start again. Of
/// events in any other order, nothing.
pub open spec fn place(events: Seq<Heard>) -> Option<Place>
    decreases events.len(),
{
    if events.len() == 0 {
        Some(Place::Silence)
    } else {
        match (place(events.drop_last()), events.last()) {
            (Some(Place::Silence), Heard::Start(_)) => Some(Place::Started),
            (Some(Place::Started), Heard::Chunk(_)) => Some(Place::Speaking),
            (Some(Place::Speaking), Heard::Chunk(_)) => Some(Place::Speaking),
            (Some(Place::Speaking), Heard::Utterance(_)) => Some(Place::Silence),
            (Some(Place::Speaking), Heard::Rejected) => Some(Place::Silence),
            _ => None,
        }
    }
}

/// Every utterance among the events is what was streamed since its start.
pub open spec fn utterances_are_streamed(events: Seq<Heard>) -> bool {
    forall|i: int|
        0 <= i < events.len() ==> ((#[trigger] events[i]) matches Heard::Utterance(pcm) ==> pcm
            == streamed(Seq::empty(), events.take(i)))
}

/// Events that a collector can have given: they are in order, what was streamed
/// since speech started is the recording so far, and every utterance is what was
/// streamed of it.
pub open spec fn told(c: Collector, events: Seq<Heard>) -> bool {
    &&& place(events) is Some
    &&& c.in_speech <==> place(events) != Some(Place::Silence)
    &&& c.in_speech ==> streamed(Seq::empty(), events) == c.utterance
    &&& utterances_are_streamed(events)
}

/// One more event in its place.
proof fn lemma_one_more(events: Seq<Heard>, event: Heard)
    requires
        utterances_are_streamed(events),
        event matches Heard::Utterance(pcm) ==> pcm == streamed(Seq::empty(), events),
    ensures
        utterances_are_streamed(events.push(event)),
        events.push(event).drop_last() == events,
        events.push(event).last() == event,
{
    let all = events.push(event);
    assert(all.drop_last() =~= events);
    assert forall|i: int| 0 <= i < all.len() implies ((#[trigger] all[i]) matches Heard::Utterance(
        pcm,
    ) ==> pcm == streamed(Seq::empty(), all.take(i))) by {
        if i < events.len() {
            assert(all[i] == events[i]);
            assert(all.take(i) =~= events.take(i));
        } else {
            assert(all.take(i) =~= events);
        }
    }
}

proof fn lemma_block_is_told(c: Collector, events: Seq<Heard>, block: Measured)
    requires
        told(c, events),
    ensures
        ({
            let (after, more) = block_step(c, block.pcm, block.level, block.now);
            told(after, events + more)
        }),
{
    let (after, more) = block_step(c, block.pcm, block.level, block.now);
    if more.len() == 0 {
        assert(events + more =~= events);
    } else {
        let first = events.push(more[0]);
        lemma_one_more(events, more[0]);
        if more.len() == 1 {
            assert(events + more =~= first);
        } else {
            lemma_one_more(first, more[1]);
            assert(events + more =~= first.push(more[1]));
        }
    }
}

proof fn lemma_blocks_are_told(c: Collector, events: Seq<Heard>, items: Seq<Measured>)
    requires
        told(c, events),
    ensures
        told(blocks_step(c, items).0, events + blocks_step(c, items).1),
    decreases items.len(),
{
    if items.len() == 0 {
        assert(events + Seq::<Heard>::empty() =~= events);
    } else {
        lemma_blocks_are_told(c, events, items.drop_last());
        let (before, sofar) = blocks_step(c, items.drop_last());
        let last = items.last();
        lemma_block_is_told(before, events + sofar, last);
        let more = block_step(before, last.pcm, last.level, last.now).1;
        assert((events + sofar) + more =~= events + (sofar + more));
    }
}

/// A piece of a signal, and the times at which its blocks are heard.
pub struct Piece {
    pub bytes: Seq<u8>,
    pub times: Seq<u64>,
}

/// What a collector does with the pieces of a signal, one after another.
pub open spec fn run(c: Collector, pieces: Seq<Piece>, level: spec_fn(Seq<u8>) -> u64) -> (
    Collector,
    Seq<Heard>,
)
    decreases pieces.len(),
{
    if pieces.len() == 0 {
        (c, Seq::empty())
    } else {
        let (before, events) = run(c, pieces.drop_last(), level);
        let (after, more) = signal_step(before, pieces.last().bytes, level, pieces.last().times);
        (after, events + more)
    }
}

/// Over a whole run from the start, whatever the pieces: speech starts, goes on in
/// chunks, and ends as an utterance or rejected, again and again, where the run may
/// stop anywhere. Every utterance is the audio of its start and all of its chunks.
pub proof fn law_a_run_is_told_in_order(
    settings: VadSettings,
    pieces: Seq<Piece>,
    level: spec_fn(Seq<u8>) -> u64,
)
    ensures
        ({
            let (after, events) = run(fresh_collector(settings), pieces, level);
            &&& place(events) is Some
            &&& after.in_speech <==> place(events) != Some(Place::Silence)
            &&& after.in_speech ==> streamed(Seq::empty(), events) == after.utterance
            &&& utterances_are_streamed(events)
        }),
    decreases pieces.len(),
{
    let c = fresh_collector(settings);
    if pieces.len() > 0 {
        law_a_run_is_told_in_order(settings, pieces.drop_last(), level);
        let (before, events) = run(c, pieces.drop_last(), level);
        let bytes = pieces.last().bytes;
        let size = before.settings.block_bytes();
        let begun = Collector { pending: cut_rest(before.pending + bytes, size), ..before };
        lemma_blocks_are_told(
            begun,
            events,
            measured(cut_blocks(before.pending + bytes, size), level, pieces.last().times),
        );
    }
}

// ------------------------------------------------------------ ends of speech

/// How many blocks at the end of a run are below the threshold, with no louder one
/// among them.
pub open spec fn quiet_tail(items: Seq<Measured>, threshold: u64) -> nat
    decreases items.len(),
{
    if items.len() == 0 || items.last().level >= threshold {
        0
    } else {
        1 + quiet_tail(items.drop_last(), threshold)
    }
}

/// How many blocks of a run are at or above the threshold.
pub open spec fn loud_blocks(items: Seq<Measured>, threshold: u64) -> nat
    decreases items.len(),
{
    if items.len() == 0 {
        0
    } else {
        loud_blocks(items.drop_last(), threshold) + if items.last().level >= threshold {
            1nat
        } else {
            0
        }
    }
}

/// The audio of a run of blocks.
pub open spec fn audio_of(items: Seq<Measured>) -> Seq<u8> {
    flattened(items.map_values(|m: Measured| m.pcm))
}

/// A run of blocks handed on as chunks.
pub open spec fn as_chunks(items: Seq<Measured>) -> Seq<Heard> {
    items.map_values(|m: Measured| Heard::Chunk(m.pcm))
}

/// Speech that starts with a block and goes on through a run of blocks: it has not
/// ended before the last of them.
pub open spec fn speaks_through(c: Collector, first: Measured, items: Seq<Measured>) -> bool {
    &&& c.settings.fits()
    &&& collector_ok(c)
    &&& !c.in_speech
    &&& block_step(c, first.pcm, first.level, first.now).0.in_speech
    &&& forall|k: int|
        0 <= k < items.len() ==> (#[trigger] blocks_step(
            block_step(c, first.pcm, first.level, first.now).0,
            items.take(k),
        )).0.in_speech
}

/// The number of blocks that speech starts with: those kept, and the first loud one.
pub open spec fn first_blocks(c: Collector) -> int {
    if c.pre_roll.len() + 1 <= c.settings.pre_roll_blocks() {
        (c.pre_roll.len() + 1) as int
    } else {
        c.settings.pre_roll_blocks()
    }
}

proof fn lemma_run_bounds(items: Seq<Measured>, threshold: u64)
    ensures
        quiet_tail(items, threshold) + loud_blocks(items, threshold) <= items.len(),
    decreases items.len(),
{
    if items.len() > 0 {
        lemma_run_bounds(items.drop_last(), threshold);
    }
}

/// What a collector in speech holds is what the run of blocks since the start of
/// speech says.
proof fn lemma_inside_speech(c: Collector, first: Measured, items: Seq<Measured>)
    requires
        speaks_through(c, first, items),
        blocks_step(block_step(c, first.pcm, first.level, first.now).0, items).0.in_speech,
    ensures
        ({
            let ms = c.settings.heard_block_ms();
            let (started, start) = block_step(c, first.pcm, first.level, first.now);
            let (after, events) = blocks_step(started, items);
            &&& start.len() == 1 && start[0] == Heard::Start(started.utterance)
            &&& after.settings == c.settings
            &&& after.utterance_ms == ms * (first_blocks(c) + items.len())
            &&& after.voiced_ms == ms * (1 + loud_blocks(items, c.settings.threshold))
            &&& after.silence_run_ms == ms * quiet_tail(items, c.settings.threshold)
            &&& after.utterance == started.utterance + audio_of(items)
            &&& events == as_chunks(items)
            &&& items.len() > 0 ==> after.utterance_ms < c.settings.max_utterance_ms
        }),
    decreases items.len(),
{
    let ms = c.settings.heard_block_ms();
    let (started, start) = block_step(c, first.pcm, first.level, first.now);
    let most = c.settings.pre_roll_blocks();
    let threshold = c.settings.threshold;
    lemma_settings(c.settings);
    assert(0 <= ms * first_blocks(c) <= ms * most <= ms * (most + 1)) by (nonlinear_arith)
        requires
            0 <= ms,
            0 <= first_blocks(c) <= most,
    ;
    if items.len() == 0 {
        assert(started.utterance + audio_of(items) =~= started.utterance);
        assert(as_chunks(items) =~= Seq::<Heard>::empty());
        assert(ms * 0 == 0);
        assert(ms * 1 == ms);
        assert(ms * (first_blocks(c) + 0) == ms * first_blocks(c));
    } else {
        let front = items.drop_last();
        let n = front.len() as int;
        let last = items.last();
        assert forall|k: int| 0 <= k < front.len() implies (#[trigger] blocks_step(
            started,
            front.take(k),
        )).0.in_speech by {
            assert(front.take(k) =~= items.take(k));
        }
        assert(items.take(n) =~= front);
        lemma_inside_speech(c, first, front);
        let before = blocks_step(started, front).0;
        lemma_run_bounds(front, threshold);
        let quiet = quiet_tail(front, threshold) as int;
        let loud = loud_blocks(front, threshold) as int;
        let held = first_blocks(c) + n;
        assert(ms * (held + 1) == ms * held + ms) by (nonlinear_arith);
        assert(ms * (most + 1) == ms * most + ms) by (nonlinear_arith);
        assert(ms * (quiet + 1) == ms * quiet + ms) by (nonlinear_arith);
        assert(ms * (1 + loud + 1) == ms * (1 + loud) + ms) by (nonlinear_arith);
        assert(ms * quiet <= ms * held && ms * (1 + loud) <= ms * held) by (nonlinear_arith)
            requires
                0 <= ms,
                quiet <= held,
                1 + loud <= held,
        ;
        assert(items.map_values(|m: Measured| m.pcm).drop_last() =~= front.map_values(
            |m: Measured| m.pcm,
        ));
        assert(items.map_values(|m: Measured| m.pcm).last() == last.pcm);
        assert((started.utterance + audio_of(front)) + last.pcm =~= started.utterance + audio_of(
            items,
        ));
        assert(as_chunks(front) + seq![Heard::Chunk(last.pcm)] =~= as_chunks(items));
        assert(ms * 0 == 0);
    }
}

/// When speech ends. It ends at a block exactly where the blocks at the end of the
/// run that are below the threshold, without a louder one among them, last as long
/// as the silence that is asked for, or where all of it is as long as an utterance
/// can be. It is an utterance where the blocks at or above the threshold last as
/// long as the least speech that is asked for, and then it is all that was heard
/// since the start; otherwise it is rejected.
pub proof fn law_speech_ends_after_silence(c: Collector, first: Measured, items: Seq<Measured>)
    requires
        speaks_through(c, first, items),
        items.len() > 0,
    ensures
        ({
            let ms = c.settings.heard_block_ms();
            let (started, start) = block_step(c, first.pcm, first.level, first.now);
            let (after, events) = blocks_step(started, items);
            let silence = ms * quiet_tail(items, c.settings.threshold);
            let length = ms * (first_blocks(c) + items.len());
            let voiced = ms * (1 + loud_blocks(items, c.settings.threshold));
            let ends = silence >= c.settings.silence_ms || length >= c.settings.max_utterance_ms;
            &&& after.in_speech == !ends
            &&& start.len() == 1 && start[0] is Start
            &&& events == as_chunks(items) + if !ends {
                Seq::<Heard>::empty()
            } else if voiced < c.settings.min_speech_ms {
                seq![Heard::Rejected]
            } else {
                seq![Heard::Utterance(start[0]->Start_0 + audio_of(items))]
            }
        }),
{
    let ms = c.settings.heard_block_ms();
    let (started, start) = block_step(c, first.pcm, first.level, first.now);
    let most = c.settings.pre_roll_blocks();
    let threshold = c.settings.threshold;
    lemma_settings(c.settings);
    let front = items.drop_last();
    let n = front.len() as int;
    let last = items.last();
    assert forall|k: int| 0 <= k < front.len() implies (#[trigger] blocks_step(
        started,
        front.take(k),
    )).0.in_speech by {
        assert(front.take(k) =~= items.take(k));
    }
    assert(items.take(n) =~= front);
    lemma_inside_speech(c, first, front);
    let before = blocks_step(started, front).0;
    lemma_run_bounds(front, threshold);
    let quiet = quiet_tail(front, threshold) as int;
    let loud = loud_blocks(front, threshold) as int;
    let held = first_blocks(c) + n;
    assert(0 <= ms * first_blocks(c) <= ms * most <= ms * (most + 1)) by (nonlinear_arith)
        requires
            0 <= ms,
            0 <= first_blocks(c) <= most,
    ;
    assert(ms * (held + 1) == ms * held + ms) by (nonlinear_arith);
    assert(ms * (most + 1) == ms * most + ms) by (nonlinear_arith);
    assert(ms * (quiet + 1) == ms * quiet + ms) by (nonlinear_arith);
    assert(ms * (1 + loud + 1) == ms * (1 + loud) + ms) by (nonlinear_arith);
    assert(ms * quiet <= ms * held && ms * (1 + loud) <= ms * held) by (nonlinear_arith)
        requires
            0 <= ms,
            quiet <= held,
            1 + loud <= held,
    ;
    assert(ms * 0 == 0);
    assert(items.map_values(|m: Measured| m.pcm).drop_last() =~= front.map_values(
        |m: Measured| m.pcm,
    ));
    assert(items.map_values(|m: Measured| m.pcm).last() == last.pcm);
    assert((started.utterance + audio_of(front)) + last.pcm =~= started.utterance + audio_of(
        items,
    ));
    let after = extended(before, last.pcm, last.level);
    assert(after.utterance == started.utterance + audio_of(items));
    let more = block_step(before, last.pcm, last.level, last.now).1;
    assert(as_chunks(front) + seq![Heard::Chunk(last.pcm)] =~= as_chunks(items));
    if more.len() == 1 {
        assert(as_chunks(front) + more =~= as_chunks(items) + Seq::<Heard>::empty());
    } else {
        assert(as_chunks(front) + more =~= as_chunks(items) + seq![more[1]]);
    }
}

/// A loud block never ends speech that is short of the longest utterance, where any
/// silence is asked for at all; and a further quiet block ends it only where the
/// quiet blocks since the last loud one last long enough.
pub proof fn law_loud_blocks_keep_speech_going(c: Collector, first: Measured, items: Seq<Measured>)
    requires
        speaks_through(c, first, items),
        items.len() > 0,
        items.last().level >= c.settings.threshold,
        c.settings.silence_ms > 0,
        c.settings.heard_block_ms() * (first_blocks(c) + items.len())
            < c.settings.max_utterance_ms,
    ensures
        blocks_step(block_step(c, first.pcm, first.level, first.now).0, items).0.in_speech,
{
    law_speech_ends_after_silence(c, first, items);
    assert(c.settings.heard_block_ms() * 0 == 0);
}

/// How speech starts. Blocks below the threshold are heard in silence; the first one
/// at or above it starts speech, with as many of the blocks just before it as are
/// kept. The levels of the quiet ones are remembered.
pub proof fn law_speech_starts_with_the_pre_roll(c: Collector, quiet: Seq<Measured>, first: Measured)
    requires
        c.settings.fits(),
        !c.in_speech,
        c.last_completed is None,
        c.pre_roll.len() == 0,
        forall|i: int| 0 <= i < quiet.len() ==> (#[trigger] quiet[i]).level < c.settings.threshold,
        first.level >= c.settings.threshold,
    ensures
        ({
            let (before, nothing) = blocks_step(c, quiet);
            let (after, events) = block_step(before, first.pcm, first.level, first.now);
            let all = quiet.push(first).map_values(|m: Measured| m.pcm);
            let kept = if all.len() <= c.settings.pre_roll_blocks() {
                all
            } else {
                all.skip(all.len() - c.settings.pre_roll_blocks())
            };
            &&& nothing.len() == 0 && !before.in_speech
            &&& before.noise_levels == c.noise_levels + quiet.map_values(|m: Measured| m.level)
            &&& events == seq![Heard::Start(flattened(kept))] && after.in_speech
        }),
{
    lemma_quiet_run(c, quiet);
    let before = blocks_step(c, quiet).0;
    lemma_settings(c.settings);
    let most = c.settings.pre_roll_blocks();
    let pcms = quiet.map_values(|m: Measured| m.pcm);
    let all = quiet.push(first).map_values(|m: Measured| m.pcm);
    assert(all =~= pcms.push(first.pcm));
    let held = last_items(before.pre_roll.push(first.pcm), most);
    if pcms.len() > most {
        assert(before.pre_roll.push(first.pcm) =~= all.skip(all.len() - most - 1));
        assert(held =~= all.skip(all.len() - most));
    } else if pcms.len() == most {
        assert(before.pre_roll.push(first.pcm) =~= all);
        assert(held =~= all.skip(all.len() - most));
    } else {
        assert(held =~= all);
    }
}

proof fn lemma_quiet_run(c: Collector, quiet: Seq<Measured>)
    requires
        c.settings.fits(),
        !c.in_speech,
        c.last_completed is None,
        c.pre_roll.len() == 0,
        forall|i: int| 0 <= i < quiet.len() ==> (#[trigger] quiet[i]).level < c.settings.threshold,
    ensures
        ({
            let (after, events) = blocks_step(c, quiet);
            let pcms = quiet.map_values(|m: Measured| m.pcm);
            &&& events.len() == 0
            &&& !after.in_speech
            &&& after.last_completed is None
            &&& after.settings == c.settings
            &&& after.pre_roll == last_items(pcms, c.settings.pre_roll_blocks())
            &&& after.noise_levels == c.noise_levels + quiet.map_values(|m: Measured| m.level)
        }),
    decreases quiet.len(),
{
    lemma_settings(c.settings);
    let most = c.settings.pre_roll_blocks();
    let pcms = quiet.map_values(|m: Measured| m.pcm);
    if quiet.len() == 0 {
        assert(pcms =~= c.pre_roll);
        assert(c.noise_levels + quiet.map_values(|m: Measured| m.level) =~= c.noise_levels);
    } else {
        let front = quiet.drop_last();
        let last = quiet.last();
        assert(quiet[quiet.len() - 1] == last);
        assert forall|i: int| 0 <= i < front.len() implies (#[trigger] front[i]).level
            < c.settings.threshold by {
            assert(front[i] == quiet[i]);
        }
        lemma_quiet_run(c, front);
        let before = blocks_step(c, front).0;
        let some = front.map_values(|m: Measured| m.pcm);
        assert(some.push(last.pcm) =~= pcms);
        assert(before.noise_levels.push(last.level) =~= c.noise_levels + quiet.map_values(
            |m: Measured| m.level,
        ));
        assert(last_items(before.pre_roll.push(last.pcm), most) =~= last_items(pcms, most));
        assert(blocks_step(c, front).1 + Seq::<Heard>::empty() =~= Seq::<Heard>::empty());
    }
}

/// After an utterance, or what was rejected, the collector passes blocks over for as
/// long as is asked for, and hears the first one after that: nothing of it is left,
/// and the time counts from its last block.
pub proof fn law_pause_after_speech(c: Collector, block: Seq<u8>, level: u64, end: u64, next: Measured)
    requires
        c.in_speech,
        !block_step(c, block, level, end).0.in_speech,
        next.now >= end,
    ensures
        ({
            let after = block_step(c, block, level, end).0;
            let (then, events) = block_step(after, next.pcm, next.level, next.now);
            &&& after.pre_roll.len() == 0 && after.noise_levels.len() == 0
            &&& next.now - end < c.settings.cooldown_ns ==> then == after && events.len() == 0
            &&& next.now - end >= c.settings.cooldown_ns && next.level >= c.settings.threshold
                && c.settings.fits() ==> events == seq![Heard::Start(next.pcm)] && then.in_speech
            &&& next.now - end >= c.settings.cooldown_ns && next.level < c.settings.threshold
                ==> events.len() == 0 && then.noise_levels == seq![next.level]
        }),
{
    let after = block_step(c, block, level, end).0;
    let then = block_step(after, next.pcm, next.level, next.now).0;
    if c.settings.fits() {
        lemma_settings(c.settings);
        let kept = after.pre_roll.push(next.pcm);
        assert(kept =~= seq![next.pcm]);
        reveal_with_fuel(flattened, 2);
        assert(kept.drop_last() =~= Seq::empty());
        assert(flattened(kept) =~= next.pcm);
    }
    assert(after.noise_levels.push(next.level) =~= seq![next.level]);
}

/// What the settings come to: a block is as many whole samples as last no longer
/// than asked for, at least one; its time is told in whole milliseconds; and just
/// enough blocks are kept from before speech.
pub proof fn law_blocks_last_as_asked(settings: VadSettings)
    requires
        settings.fits(),
    ensures
        ({
            let asked = if settings.block_ms < 10 {
                10
            } else {
                settings.block_ms as int
            };
            let samples = settings.block_bytes() / 2;
            let wanted = if settings.pre_roll_ms < asked {
                asked
            } else {
                settings.pre_roll_ms as int
            };
            &&& settings.block_bytes() == 2 * samples
            &&& samples == 1 || samples * 1000 <= settings.sample_rate * asked
            &&& settings.sample_rate * asked < (samples + 1) * 1000
            &&& settings.heard_block_ms() * settings.sample_rate <= samples * 1000
            &&& samples * 1000 < (settings.heard_block_ms() + 1) * settings.sample_rate
            &&& settings.pre_roll_blocks() * asked >= wanted
            &&& (settings.pre_roll_blocks() - 1) * asked < wanted
        }),
{
    let asked = settings.asked_block_ms();
    let rate = settings.sample_rate as int;
    let product = rate * asked;
    assert(product >= 0) by (nonlinear_arith)
        requires
            product == rate * asked,
            rate >= 0,
            asked >= 0,
    ;
    let samples = settings.block_bytes() / 2;
    let ms = settings.heard_block_ms();
    assert(ms * rate <= samples * 1000 && samples * 1000 < (ms + 1) * rate) by (nonlinear_arith)
        requires
            ms == (2 * samples) * 1000 / (rate * 2),
            rate > 0,
            samples >= 0,
    ;
    let wanted = if settings.pre_roll_ms < asked {
        asked
    } else {
        settings.pre_roll_ms as int
    };
    let blocks = settings.pre_roll_blocks();
    assert(blocks * asked >= wanted && (blocks - 1) * asked < wanted) by (nonlinear_arith)
        requires
            blocks == (wanted + asked - 1) / asked,
            asked >= 10,
    ;
}

/// A sample is the whole number between -32768 and 32767 that its two bytes stand
/// for, the lowest first: those of two samples that differ are never the same.
pub proof fn law_samples_are_little_endian(low: u8, high: u8)
    ensures
        -32768 <= sample_of(low, high) <= 32767,
        (sample_of(low, high) - low) % 256 == 0,
        sample_of(low, high) == low + 256 * (if high < 128 {
            high as int
        } else {
            high - 256
        }),
{
}

/// The energy of a signal is the energy of its parts together, and that of one
/// sample is its square.
pub proof fn law_energy_adds_up(a: Seq<u8>, b: Seq<u8>, low: u8, high: u8)
    requires
        a.len() % 2 == 0,
    ensures
        square_sum(a + b) == square_sum(a) + square_sum(b),
        square_sum(seq![low, high]) == sample_of(low, high) * sample_of(low, high),
    decreases a.len(),
{
    reveal_with_fuel(square_sum, 2);
    if a.len() == 0 {
        assert(a + b =~= b);
    } else {
        law_energy_adds_up(a.skip(2), b, low, high);
        assert((a + b).skip(2) =~= a.skip(2) + b);
    }
}

/// The peak of a signal is the largest peak of its parts, and that of one sample is
/// its magnitude.
pub proof fn law_peak_is_the_largest(a: Seq<u8>, b: Seq<u8>, low: u8, high: u8)
    requires
        a.len() % 2 == 0,
    ensures
        peak_of(a + b) >= peak_of(a),
        peak_of(a + b) >= peak_of(b),
        peak_of(a + b) == peak_of(a) || peak_of(a + b) == peak_of(b),
        peak_of(seq![low, high]) == sample_of(low, high) || peak_of(seq![low, high]) == -sample_of(
            low,
            high,
        ),
        peak_of(seq![low, high]) >= 0,
    decreases a.len(),
{
    reveal_with_fuel(peak_of, 2);
    if a.len() == 0 {
        assert(a + b =~= b);
        lemma_peak_not_negative(b);
    } else {
        law_peak_is_the_largest(a.skip(2), b, low, high);
        assert((a + b).skip(2) =~= a.skip(2) + b);
    }
}

proof fn lemma_peak_not_negative(a: Seq<u8>)
    ensures
        peak_of(a) >= 0,
    decreases a.len(),
{
    if a.len() >= 2 {
        lemma_peak_not_negative(a.skip(2));
    }
}

/// A percentile stands at the place in the list that is nearest to its share of the
/// way from the first to the last.
pub proof fn law_percentiles_are_nearest(n: int, percent: int)
    requires
        n >= 1,
        0 <= percent <= 100,
    ensures
        0 <= percentile_index(n, percent) < n,
        -50 <= 100 * percentile_index(n, percent) - (n - 1) * percent <= 50,
        percentile_index(n, 0) == 0,
        percentile_index(n, 100) == n - 1,
{
    let share = (n - 1) * percent;
    assert(0 <= share <= (n - 1) * 100) by (nonlinear_arith)
        requires
            share == (n - 1) * percent,
            n >= 1,
            0 <= percent <= 100,
    ;
}

/// A percentile is one of the numbers in the list: the least for a share of nothing,
/// the greatest for all, and the only one where there is one. Of an empty list it is
/// zero.
pub proof fn law_percentiles_are_in_the_list(sorted: Seq<u64>, percent: int)
    requires
        0 <= percent <= 100,
    ensures
        sorted.len() == 0 ==> percentile_of(sorted, percent) == 0,
        sorted.len() > 0 ==> {
            &&& sorted.contains(percentile_of(sorted, percent))
            &&& percentile_of(sorted, 0) == sorted[0]
            &&& percentile_of(sorted, 100) == sorted.last()
        },
        sorted.len() % 2 == 1 ==> percentile_of(sorted, 50) == sorted[(sorted.len() / 2) as int],
{
    if sorted.len() > 0 {
        law_percentiles_are_nearest(sorted.len() as int, percent);
        law_percentiles_are_nearest(sorted.len() as int, 100);
    }
}

} // verus!
