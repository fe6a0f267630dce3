//! Sixteen-bit mono audio: resampling and packaging.
use vstd::prelude::*;
use crate::vad::{sample, sample_of};

verus! {

// ----------------------------------------------------------------- resampling

/// The number of output samples: as many as start within the input.
pub open spec fn output_len(samples: int, rate: int, target: int) -> int {
    (samples * target + rate - 1) / rate
}

/// The sample at a position; behind the end, the last one.
pub open spec fn sample_at(pcm: Seq<u8>, i: int) -> int {
    let n = pcm.len() / 2;
    let j = if i < n {
        i
    } else {
        n - 1
    };
    sample_of(pcm[2 * j], pcm[2 * j + 1])
}

/// The least number that has more than 53 bits.
pub const DOUBLE_LIMIT: u128 = 0x20_0000_0000_0000;

/// The whole number nearest to a quotient; of two, the even one.
pub open spec fn half_even(n: int, d: int) -> int {
    let q = n / d;
    let rest = 2 * (n % d);
    if rest < d || (rest == d && q % 2 == 0) {
        q
    } else {
        q + 1
    }
}

/// The place value of the last of the 53 highest bits of a number.
pub open spec fn last_bit(n: int) -> int
    decreases n,
{
    if n < DOUBLE_LIMIT {
        1
    } else {
        2 * last_bit(n / 2)
    }
}

/// A number with all but its 53 highest bits rounded away, as numbers of double
/// precision are.
pub open spec fn double(n: int) -> int {
    half_even(n, last_bit(n)) * last_bit(n)
}

/// A number of either sign, rounded so.
pub open spec fn signed_double(n: int) -> int {
    if n < 0 {
        -double(-n)
    } else {
        double(n)
    }
}

/// `one` doubled as often as it takes to bring a multiple of it, which is now `n`,
/// to half the limit.
pub open spec fn doubled(n: int, limit: int, one: int) -> int
    decreases limit - n,
{
    if n <= 0 || 2 * n >= limit {
        one
    } else {
        doubled(2 * n, limit, 2 * one)
    }
}

/// The power of two whose multiple by the ratio of the rates has 53 bits: times are
/// counted in fractions with it below the line.
pub open spec fn scale(rate: int, target: int) -> int {
    doubled(rate, DOUBLE_LIMIT * target, 1)
}

/// The ratio of the rates in double precision, in fractions of `one`.
pub open spec fn ratio(rate: int, target: int, one: int) -> int {
    half_even(rate * one, target)
}

/// Where output sample `i` stands among the input samples, in fractions of `one`.
pub open spec fn position(rate: int, target: int, one: int, i: int) -> int {
    double(double(i) * ratio(rate, target, one))
}

/// The whole number nearest to a quotient; of two, the one further from zero.
pub open spec fn rounded(n: int, d: int) -> int {
    if n >= 0 {
        (2 * n + d) / (2 * d)
    } else {
        -((2 * (-n) + d) / (2 * d))
    }
}

/// The sample nearest to a number.
pub open spec fn clamped(n: int) -> int {
    if n < -32768 {
        -32768
    } else if n > 32767 {
        32767
    } else {
        n
    }
}

/// The line between two samples, `part` of `one` behind the first, in double
/// precision.
pub open spec fn on_line(a: int, b: int, part: int, one: int) -> int {
    clamped(rounded(signed_double(a * one + signed_double((b - a) * part)), one))
}

/// Output sample `i`: on the straight line between the two input samples around
/// its place in time. Each step of the arithmetic is in double precision.
pub open spec fn interpolated(pcm: Seq<u8>, rate: int, target: int, i: int) -> int {
    let one = scale(rate, target);
    let at = position(rate, target, one, i);
    let a = sample_at(pcm, at / one);
    let b = sample_at(pcm, at / one + 1);
    on_line(a, b, at % one, one)
}

/// The two bytes of a sample, the lowest first.
pub open spec fn sample_bytes(value: int) -> Seq<u8> {
    let raw = if value < 0 {
        value + 65536
    } else {
        value
    };
    seq![(raw % 256) as u8, (raw / 256) as u8]
}

/// The first `n` output samples.
pub open spec fn resampled(pcm: Seq<u8>, rate: int, target: int, n: int) -> Seq<u8>
    decreases n,
{
    if n <= 0 {
        Seq::empty()
    } else {
        resampled(pcm, rate, target, n - 1) + sample_bytes(interpolated(pcm, rate, target, n - 1))
    }
}

/// Why audio cannot be resampled, where it cannot.
pub open spec fn resample_refusal(len: int, rate: int, target: int) -> Option<Seq<char>> {
    if len % 2 != 0 {
        Some("PCM16 byte length is odd"@)
    } else if rate == 0 {
        Some("sample_rate must be positive"@)
    } else if target == 0 {
        Some("target_sample_rate must be positive"@)
    } else {
        None
    }
}

/// The audio at another sample rate.
pub open spec fn resampled_pcm(pcm: Seq<u8>, rate: int, target: int) -> Seq<u8> {
    if rate == target {
        pcm
    } else {
        resampled(pcm, rate, target, output_len((pcm.len() / 2) as int, rate, target))
    }
}

fn read_sample(pcm: &[u8], i: usize) -> (r: i16)
    requires
        pcm@.len() >= 2,
        pcm@.len() % 2 == 0,
    ensures
        r == sample_at(pcm@, i as int),
{
    let n: usize = pcm.len() / 2;
    let j: usize = if i < n {
        i
    } else {
        n - 1
    };
    sample(pcm[2 * j], pcm[2 * j + 1])
}

fn push_sample(out: &mut Vec<u8>, value: i16)
    ensures
        final(out)@ == old(out)@ + sample_bytes(value as int),
{
    let raw: i32 = if value < 0 {
        value as i32 + 65536
    } else {
        value as i32
    };
    out.push((raw % 256) as u8);
    out.push((raw / 256) as u8);
    assert(out@ =~= old(out)@ + sample_bytes(value as int));
}

/// No number in the arithmetic of double precision is larger than this.
const WIDE: u128 = 0x100_0000_0000_0000_0000_0000_0000_0000;

fn half_even_of(n: u128, d: u128) -> (r: u128)
    requires
        0 < d <= WIDE + 1,
        n <= WIDE,
    ensures
        r == half_even(n as int, d as int),
        r * d <= n + d,
        r <= n + 1,
{
    let q: u128 = n / d;
    let rest: u128 = 2 * (n % d);
    proof {
        assert(q * d <= n && (q + 1) * d <= n + d && q <= n) by (nonlinear_arith)
            requires
                q == n / d,
                d > 0,
                n >= 0,
        ;
    }
    if rest < d || (rest == d && q % 2 == 0) {
        q
    } else {
        q + 1
    }
}

fn last_bit_of(n: u128) -> (r: u128)
    requires
        n <= WIDE,
    ensures
        r == last_bit(n as int),
        1 <= r <= n + 1,
{
    let mut q: u128 = n;
    let mut unit: u128 = 1;
    while q >= DOUBLE_LIMIT
        invariant
            n <= WIDE,
            unit >= 1,
            unit * q <= n,
            unit == 1 || q >= 1,
            unit * last_bit(q as int) == last_bit(n as int),
        decreases q,
    {
        proof {
            let half = (q / 2) as int;
            assert(unit <= unit * q) by (nonlinear_arith)
                requires
                    q >= 1,
                    unit >= 1,
            ;
            assert((2 * unit) * half <= unit * q) by (nonlinear_arith)
                requires
                    2 * half <= q,
                    unit >= 1,
            ;
            assert((2 * unit) * last_bit(half) == unit * (2 * last_bit(half))) by (nonlinear_arith);
        }
        q = q / 2;
        unit = 2 * unit;
    }
    assert(unit * 1 == unit);
    assert(unit == 1 || unit <= unit * q) by (nonlinear_arith)
        requires
            unit == 1 || q >= 1,
            unit >= 1,
    ;
    unit
}

fn double_of(n: u128) -> (r: u128)
    requires
        n <= WIDE,
    ensures
        r == double(n as int),
        r <= 2 * n + 1,
{
    let unit: u128 = last_bit_of(n);
    half_even_of(n, unit) * unit
}

fn signed_double_of(n: i128) -> (r: i128)
    requires
        -WIDE <= n <= WIDE,
    ensures
        r == signed_double(n as int),
        n >= 0 ==> 0 <= r <= 2 * n + 1,
        n < 0 ==> 2 * n - 1 <= r <= 0,
{
    if n < 0 {
        -(double_of((-n) as u128) as i128)
    } else {
        double_of(n as u128) as i128
    }
}

/// Times are counted in no finer fractions than this.
const MAX_SCALE: u128 = 0x20_0000_0000_0000_0000_0000;

fn scale_of(rate: u32, target: u32) -> (r: u128)
    requires
        rate > 0,
        target > 0,
    ensures
        r == scale(rate as int, target as int),
        1 <= r <= MAX_SCALE,
        rate * r <= DOUBLE_LIMIT * target,
{
    let limit: u128 = DOUBLE_LIMIT * target as u128;
    let mut one: u128 = 1;
    let mut n: u128 = rate as u128;
    while 2 * n < limit
        invariant
            n > 0,
            one >= 1,
            limit == DOUBLE_LIMIT * target,
            limit <= DOUBLE_LIMIT * 0xffff_ffff,
            n == rate * one,
            n <= limit,
            one <= n,
            scale(rate as int, target as int) == doubled(n as int, limit as int, one as int),
        decreases limit - n,
    {
        assert(rate * (2 * one) == 2 * (rate * one)) by (nonlinear_arith);
        n = 2 * n;
        one = 2 * one;
    }
    one
}

fn round_quotient(n: i128, d: i128) -> (r: i128)
    requires
        0 < d <= MAX_SCALE,
        -WIDE <= n <= WIDE,
    ensures
        r == rounded(n as int, d as int),
{
    if n >= 0 {
        (2 * n + d) / (2 * d)
    } else {
        -((2 * (-n) + d) / (2 * d))
    }
}

fn point_on_line(a: i16, b: i16, part: u128, one: u128) -> (r: i16)
    requires
        part < one <= MAX_SCALE,
    ensures
        r == on_line(a as int, b as int, part as int, one as int),
{
    let step: i128 = b as i128 - a as i128;
    proof {
        assert(-65535 * MAX_SCALE <= step * part <= 65535 * MAX_SCALE) by (nonlinear_arith)
            requires
                -65535 <= step <= 65535,
                0 <= part <= MAX_SCALE,
        ;
        assert(-32768 * MAX_SCALE <= a * one <= 32768 * MAX_SCALE) by (nonlinear_arith)
            requires
                -32768 <= a <= 32767,
                0 <= one <= MAX_SCALE,
        ;
    }
    let rise: i128 = signed_double_of(step * part as i128);
    let height: i128 = signed_double_of(a as i128 * one as i128 + rise);
    let value: i128 = round_quotient(height, one as i128);
    if value < -32768 {
        -32768
    } else if value > 32767 {
        32767
    } else {
        value as i16
    }
}

/// Resamples audio by linear interpolation.
pub fn resample_pcm16_mono_linear(
    pcm: &[u8],
    sample_rate: u32,
    target_sample_rate: u32,
) -> (r: Result<Vec<u8>, String>)
    requires
        (pcm@.len() / 2) * target_sample_rate <= u64::MAX,
        sample_rate > 0 ==> 2 * output_len(
            (pcm@.len() / 2) as int,
            sample_rate as int,
            target_sample_rate as int,
        ) <= usize::MAX,
    ensures
        match resample_refusal(pcm@.len() as int, sample_rate as int, target_sample_rate as int) {
            Some(reason) => r matches Err(e) && e@ == reason,
            None => r matches Ok(out) && out@ == resampled_pcm(
                pcm@,
                sample_rate as int,
                target_sample_rate as int,
            ),
        },
{
    if pcm.len() % 2 != 0 {
        return Err("PCM16 byte length is odd".to_owned());
    }
    if sample_rate == 0 {
        return Err("sample_rate must be positive".to_owned());
    }
    if target_sample_rate == 0 {
        return Err("target_sample_rate must be positive".to_owned());
    }
    if sample_rate == target_sample_rate {
        return Ok(vstd::slice::slice_to_vec(pcm));
    }
    let rate: u64 = sample_rate as u64;
    let target: u64 = target_sample_rate as u64;
    let samples: usize = pcm.len() / 2;
    if samples == 0 {
        assert((0 * target + rate - 1) / rate as int == 0) by (nonlinear_arith)
            requires
                rate > 0,
        ;
        return Ok(Vec::new());
    }
    assert(samples * target + rate - 1 <= 0xffff_ffff_ffff_ffff + 0xffff_ffff);
    let wide: u128 = (samples as u128 * target as u128 + (rate as u128 - 1)) / rate as u128;
    assert(wide <= 0xffff_ffff_ffff_ffff) by (nonlinear_arith)
        requires
            wide == (samples * target + rate - 1) / rate as int,
            samples * target <= 0xffff_ffff_ffff_ffff,
            rate >= 1,
    ;
    let total: u64 = wide as u64;
    let ghost len = output_len(samples as int, rate as int, target as int);
    assert(total == len);
    let mut out: Vec<u8> = Vec::new();
    let mut i: u64 = 0;
    let one: u128 = scale_of(sample_rate, target_sample_rate);
    let step: u128 = half_even_of(rate as u128 * one, target as u128);
    assert(step <= DOUBLE_LIMIT + 1) by (nonlinear_arith)
        requires
            step * target <= rate * one + target,
            rate * one <= DOUBLE_LIMIT * target,
            target > 0,
    ;
    while i < total
        invariant
            pcm@.len() >= 2,
            pcm@.len() % 2 == 0,
            samples == pcm@.len() / 2,
            2 * samples <= usize::MAX,
            rate == sample_rate,
            target == target_sample_rate,
            1 <= one <= MAX_SCALE,
            one == scale(rate as int, target as int),
            step == ratio(rate as int, target as int, one as int),
            step <= DOUBLE_LIMIT + 1,
            2 * total <= usize::MAX,
            i <= total,
            out@ == resampled(pcm@, rate as int, target as int, i as int),
        decreases total - i,
    {
        let number: u128 = double_of(i as u128);
        proof {
            assert(0 <= number * step <= 0x1_0000_0000_0000_0001 * 0x20_0000_0000_0001)
                by (nonlinear_arith)
                requires
                    0 <= number <= 0x1_0000_0000_0000_0001,
                    0 <= step <= 0x20_0000_0000_0001,
            ;
        }
        let at: u128 = double_of(number * step);
        let index: u128 = at / one;
        let near: usize = if index < samples as u128 {
            index as usize
        } else {
            samples
        };
        let a: i16 = read_sample(pcm, near);
        let b: i16 = read_sample(pcm, near + 1);
        push_sample(&mut out, point_on_line(a, b, at % one, one));
        i = i + 1;
    }
    Ok(out)
}

// ------------------------------------------------------------------ packaging

/// A number as two bytes, the lowest first.
pub open spec fn le16(n: int) -> Seq<u8> {
    seq![(n % 256) as u8, (n / 256 % 256) as u8]
}

/// A number as four bytes, the lowest first.
pub open spec fn le32(n: int) -> Seq<u8> {
    seq![
        (n % 256) as u8,
        (n / 256 % 256) as u8,
        (n / 65536 % 256) as u8,
        (n / 16777216 % 256) as u8,
    ]
}

/// The header of a recording of `len` bytes: sixteen-bit mono PCM.
pub open spec fn wav_header(len: int, rate: int) -> Seq<u8> {
    seq![0x52u8, 0x49, 0x46, 0x46] + le32(36 + len) + seq![0x57u8, 0x41, 0x56, 0x45] + seq![
        0x66u8,
        0x6d,
        0x74,
        0x20,
    ] + le32(16) + le16(1) + le16(1) + le32(rate) + le32(rate * 2) + le16(2) + le16(16) + seq![
        0x64u8,
        0x61,
        0x74,
        0x61,
    ] + le32(len)
}

fn push_le16(out: &mut Vec<u8>, n: u16)
    ensures
        final(out)@ == old(out)@ + le16(n as int),
{
    out.push((n % 256) as u8);
    out.push((n / 256 % 256) as u8);
    assert(out@ =~= old(out)@ + le16(n as int));
}

fn push_le32(out: &mut Vec<u8>, n: u32)
    ensures
        final(out)@ == old(out)@ + le32(n as int),
{
    out.push((n % 256) as u8);
    out.push((n / 256 % 256) as u8);
    out.push((n / 65536 % 256) as u8);
    out.push((n / 16777216 % 256) as u8);
    assert(out@ =~= old(out)@ + le32(n as int));
}

fn push_tag(out: &mut Vec<u8>, a: u8, b: u8, c: u8, d: u8)
    ensures
        final(out)@ == old(out)@ + seq![a, b, c, d],
{
    out.push(a);
    out.push(b);
    out.push(c);
    out.push(d);
    assert(out@ =~= old(out)@ + seq![a, b, c, d]);
}

/// Packages audio as a WAV file. Lengths in the header are counted in 32 bits.
pub fn wav_bytes(pcm: &[u8], sample_rate: u32) -> (r: Vec<u8>)
    requires
        sample_rate * 2 <= u32::MAX,
        36 + pcm@.len() as int % 0x1_0000_0000 <= u32::MAX,
    ensures
        r@ == wav_header(pcm@.len() as int % 0x1_0000_0000, sample_rate as int) + pcm@,
{
    let data_len: u32 = (pcm.len() as u64 % 0x1_0000_0000) as u32;
    let mut out: Vec<u8> = Vec::new();
    push_tag(&mut out, 0x52, 0x49, 0x46, 0x46);
    assert(out@ =~= seq![0x52u8, 0x49, 0x46, 0x46]);
    push_le32(&mut out, 36 + data_len);
    push_tag(&mut out, 0x57, 0x41, 0x56, 0x45);
    push_tag(&mut out, 0x66, 0x6d, 0x74, 0x20);
    push_le32(&mut out, 16);
    push_le16(&mut out, 1);
    push_le16(&mut out, 1);
    push_le32(&mut out, sample_rate);
    push_le32(&mut out, sample_rate * 2);
    push_le16(&mut out, 2);
    push_le16(&mut out, 16);
    push_tag(&mut out, 0x64, 0x61, 0x74, 0x61);
    push_le32(&mut out, data_len);
    out.extend_from_slice(pcm);
    out
}

// ----------------------------------------------------------------------- laws

/// Resampled audio has two bytes for every output sample, and output sample `i`
/// stands at its place.
pub proof fn law_resampled_layout(pcm: Seq<u8>, rate: int, target: int, n: int, i: int)
    requires
        0 <= i < n,
    ensures
        resampled(pcm, rate, target, n).len() == 2 * n,
        resampled(pcm, rate, target, n).subrange(2 * i, 2 * i + 2) == sample_bytes(
            interpolated(pcm, rate, target, i),
        ),
    decreases n,
{
    lemma_resampled_len(pcm, rate, target, n);
    lemma_resampled_len(pcm, rate, target, n - 1);
    let all = resampled(pcm, rate, target, n);
    let before = resampled(pcm, rate, target, n - 1);
    if i < n - 1 {
        law_resampled_layout(pcm, rate, target, n - 1, i);
        assert(all.subrange(2 * i, 2 * i + 2) =~= before.subrange(2 * i, 2 * i + 2));
    } else {
        assert(all.subrange(2 * i, 2 * i + 2) =~= sample_bytes(interpolated(pcm, rate, target, i)));
    }
}

proof fn lemma_resampled_len(pcm: Seq<u8>, rate: int, target: int, n: int)
    requires
        0 <= n,
    ensures
        resampled(pcm, rate, target, n).len() == 2 * n,
    decreases n,
{
    if n > 0 {
        lemma_resampled_len(pcm, rate, target, n - 1);
    }
}

/// Reading the two bytes of a sample gives the sample back.
pub proof fn law_sample_roundtrip(value: int)
    requires
        -32768 <= value <= 32767,
    ensures
        sample_of(sample_bytes(value)[0], sample_bytes(value)[1]) == value,
{
}

/// Whether a number is a power of two.
pub open spec fn is_power(n: int) -> bool
    decreases n,
{
    n == 1 || (n > 1 && n % 2 == 0 && is_power(n / 2))
}

proof fn lemma_doubled_power(n: int, limit: int, one: int)
    requires
        is_power(one),
    ensures
        is_power(doubled(n, limit, one)),
        doubled(n, limit, one) >= 1,
    decreases limit - n,
{
    if n > 0 && 2 * n < limit {
        lemma_doubled_power(2 * n, limit, 2 * one);
    }
}

/// The last bit of a small number, shifted, divides it.
proof fn lemma_last_bit_divides(m: int, one: int)
    requires
        0 <= m < DOUBLE_LIMIT,
        is_power(one),
    ensures
        last_bit(m * one) >= 1,
        (m * one) % last_bit(m * one) == 0,
    decreases one,
{
    if m * one >= DOUBLE_LIMIT {
        let half = one / 2;
        assert(one != 1) by {
            assert(m * 1 == m);
        }
        assert(m * one == 2 * (m * half)) by (nonlinear_arith)
            requires
                one == 2 * half,
        ;
        lemma_last_bit_divides(m, half);
        let bit = last_bit(m * half);
        assert((2 * (m * half)) % (2 * bit) == 0) by (nonlinear_arith)
            requires
                (m * half) % bit == 0,
                bit >= 1,
        ;
    }
}

/// A number of at most 53 bits, shifted, is not changed by rounding.
proof fn lemma_double_exact(m: int, one: int)
    requires
        0 <= m < DOUBLE_LIMIT,
        is_power(one),
    ensures
        double(m * one) == m * one,
{
    lemma_last_bit_divides(m, one);
    let n = m * one;
    let bit = last_bit(n);
    vstd::arithmetic::div_mod::lemma_fundamental_div_mod(n, bit);
    assert((n / bit) * bit == n) by (nonlinear_arith)
        requires
            n == bit * (n / bit) + n % bit,
            n % bit == 0,
    ;
}

/// Where the input has a whole number of samples for each output sample, those are
/// kept that stand at the same time, unchanged.
pub proof fn law_whole_ratio_keeps_samples(pcm: Seq<u8>, target: int, k: int, i: int)
    requires
        target > 0,
        k >= 1,
        i >= 0,
        i * k < DOUBLE_LIMIT,
    ensures
        interpolated(pcm, k * target, target, i) == sample_at(pcm, i * k),
{
    let rate = k * target;
    let one = scale(rate, target);
    lemma_doubled_power(rate, DOUBLE_LIMIT * target, 1);
    assert(ratio(rate, target, one) == k * one) by {
        assert((k * target) * one == (k * one) * target) by (nonlinear_arith);
        vstd::arithmetic::div_mod::lemma_div_multiples_vanish(k * one, target);
        vstd::arithmetic::div_mod::lemma_mod_multiples_basic(k * one, target);
        assert(target * (k * one) == (k * one) * target) by (nonlinear_arith);
    }
    assert(i <= i * k) by (nonlinear_arith)
        requires
            i >= 0,
            k >= 1,
    ;
    lemma_double_exact(i, 1);
    assert(i * 1 == i);
    let m = i * k;
    assert(m >= 0) by (nonlinear_arith)
        requires
            m == i * k,
            i >= 0,
            k >= 1,
    ;
    assert(i * (k * one) == m * one) by (nonlinear_arith)
        requires
            m == i * k,
    ;
    lemma_double_exact(m, one);
    let at = position(rate, target, one, i);
    assert(at == m * one);
    vstd::arithmetic::div_mod::lemma_div_multiples_vanish(m, one);
    vstd::arithmetic::div_mod::lemma_mod_multiples_basic(m, one);
    assert(one * m == m * one) by (nonlinear_arith);
    let a = sample_at(pcm, m);
    let b = sample_at(pcm, m + 1);
    assert((b - a) * 0 == 0);
    lemma_double_exact(0, 1);
    let size = if a < 0 {
        -a
    } else {
        a
    };
    lemma_double_exact(size, one);
    if a < 0 {
        assert(-(a * one) == size * one && a * one < 0) by (nonlinear_arith)
            requires
                size == -a,
                a < 0,
                one >= 1,
        ;
    } else {
        assert(a * one >= 0) by (nonlinear_arith)
            requires
                a >= 0,
                one >= 1,
        ;
    }
    assert(signed_double(a * one + signed_double(0)) == a * one);
    assert((2 * (size * one) + one) / (2 * one) == size) by (nonlinear_arith)
        requires
            one >= 1,
            size >= 0,
    ;
}

/// Every output sample is a sixteen-bit sample.
pub proof fn law_resampling_stays_in_range(pcm: Seq<u8>, rate: int, target: int, i: int)
    ensures
        -32768 <= interpolated(pcm, rate, target, i) <= 32767,
{
}

/// A WAV file is its header of 44 bytes and the audio unchanged.
pub proof fn law_wav_layout(pcm: Seq<u8>, rate: int)
    ensures
        ({
            let file = wav_header(pcm.len() as int % 0x1_0000_0000, rate) + pcm;
            file.len() == 44 + pcm.len() && file.skip(44) == pcm
        }),
{
    let file = wav_header(pcm.len() as int % 0x1_0000_0000, rate) + pcm;
    assert(file.skip(44) =~= pcm);
}

/// Rounding gives the nearest whole number. Of two that are as near, one way gives
/// the even one, the other the one further from zero.
pub proof fn law_rounding_is_nearest(n: int, d: int)
    requires
        d > 0,
    ensures
        n >= 0 ==> -d <= 2 * (n - d * half_even(n, d)) <= d,
        n >= 0 && (2 * (n - d * half_even(n, d)) == d || 2 * (n - d * half_even(n, d)) == -d)
            ==> half_even(n, d) % 2 == 0,
        -d <= 2 * (n - d * rounded(n, d)) <= d,
        n >= 0 ==> 2 * (n - d * rounded(n, d)) < d,
        n < 0 ==> 2 * (n - d * rounded(n, d)) > -d,
{
    vstd::arithmetic::div_mod::lemma_fundamental_div_mod(n, d);
    let q = n / d;
    let r = n % d;
    assert(d * (q + 1) == d * q + d) by (nonlinear_arith);
    let m = if n >= 0 {
        n
    } else {
        -n
    };
    vstd::arithmetic::div_mod::lemma_fundamental_div_mod(2 * m + d, 2 * d);
    let p = (2 * m + d) / (2 * d);
    assert((2 * d) * p == 2 * (d * p)) by (nonlinear_arith);
    assert(d * (-p) == -(d * p)) by (nonlinear_arith);
}

/// Numbers of double precision: a number below two to the 53rd is one already; of a
/// larger one as many low bits are rounded away as leave 53 of it, to the nearest,
/// of two to the even one.
pub proof fn law_double_precision(n: int)
    requires
        n >= 0,
    ensures
        n < 0x20_0000_0000_0000 ==> double(n) == n,
        ({
            let unit = last_bit(n);
            &&& unit >= 1 && is_power(unit)
            &&& n / unit < 0x20_0000_0000_0000
            &&& n >= 0x20_0000_0000_0000 ==> n / unit >= 0x10_0000_0000_0000
            &&& double(n) % unit == 0
            &&& -unit <= 2 * (n - double(n)) <= unit
            &&& 2 * (n - double(n)) == unit || 2 * (n - double(n)) == -unit ==> (double(n) / unit)
                % 2 == 0
        }),
        signed_double(n) == double(n),
        n > 0 ==> signed_double(-n) == -double(n),
{
    lemma_last_bit(n);
    let unit = last_bit(n);
    let h = half_even(n, unit);
    law_rounding_is_nearest(n, unit);
    assert(h * unit == unit * h) by (nonlinear_arith);
    vstd::arithmetic::div_mod::lemma_div_multiples_vanish(h, unit);
    vstd::arithmetic::div_mod::lemma_mod_multiples_basic(h, unit);
    if n < DOUBLE_LIMIT {
        assert(n / 1 == n && n % 1 == 0);
        assert(n * 1 == n);
    }
}

proof fn lemma_last_bit(n: int)
    requires
        n >= 0,
    ensures
        last_bit(n) >= 1,
        is_power(last_bit(n)),
        n / last_bit(n) < 0x20_0000_0000_0000,
        n >= 0x20_0000_0000_0000 ==> n / last_bit(n) >= 0x10_0000_0000_0000,
    decreases n,
{
    if n >= DOUBLE_LIMIT {
        lemma_last_bit(n / 2);
        let bit = last_bit(n / 2);
        vstd::arithmetic::div_mod::lemma_div_denominator(n, 2, bit);
        assert((2 * bit) % 2 == 0 && (2 * bit) / 2 == bit);
        if n / 2 < DOUBLE_LIMIT {
            assert(bit == 1);
            assert(n / 2 / 1 == n / 2);
        }
    } else {
        assert(n / 1 == n);
    }
}

/// The line between two samples starts at the first of them, and a line between two
/// samples that are the same stays there.
pub proof fn law_lines_start_at_samples(a: int, b: int, part: int, one: int)
    requires
        -32768 <= a <= 32767,
        -32768 <= b <= 32767,
        is_power(one),
    ensures
        on_line(a, b, 0, one) == a,
        on_line(a, a, part, one) == a,
{
    let size = if a < 0 {
        -a
    } else {
        a
    };
    lemma_power_positive(one);
    lemma_double_exact(size, one);
    lemma_double_exact(0, 1);
    assert((b - a) * 0 == 0);
    assert((a - a) * part == 0) by (nonlinear_arith);
    if a < 0 {
        assert(-(a * one) == size * one && a * one < 0) by (nonlinear_arith)
            requires
                size == -a,
                a < 0,
                one >= 1,
        ;
    } else {
        assert(a * one >= 0) by (nonlinear_arith)
            requires
                a >= 0,
                one >= 1,
        ;
    }
    assert(signed_double(a * one + signed_double(0)) == a * one);
    assert((2 * (size * one) + one) / (2 * one) == size) by (nonlinear_arith)
        requires
            one >= 1,
            size >= 0,
    ;
}

proof fn lemma_power_positive(n: int)
    requires
        is_power(n),
    ensures
        n >= 1,
{
}

/// A WAV header says what it must, in numbers of two or four bytes with the lowest
/// first: the size of what follows, PCM, one channel, the rate, the bytes a second
/// and a sample, the bits a sample, and the size of the audio.
pub proof fn law_wav_header_says(len: int, rate: int)
    requires
        0 <= len,
        36 + len <= 0xffff_ffff,
        0 <= rate,
        rate * 2 <= 0xffff_ffff,
    ensures
        ({
            let h = wav_header(len, rate);
            let two = |at: int| h[at] + 256 * h[at + 1];
            let four = |at: int| two(at) + 65536 * two(at + 2);
            let tag = |at: int, a: char, b: char, c: char, d: char|
                h[at] == a as u8 && h[at + 1] == b as u8 && h[at + 2] == c as u8 && h[at + 3]
                    == d as u8;
            &&& h.len() == 44
            &&& tag(0, 'R', 'I', 'F', 'F') && four(4) == 36 + len
            &&& tag(8, 'W', 'A', 'V', 'E')
            &&& tag(12, 'f', 'm', 't', ' ') && four(16) == 16
            &&& two(20) == 1
            &&& two(22) == 1
            &&& four(24) == rate
            &&& four(28) == 2 * rate
            &&& two(32) == 2
            &&& two(34) == 16
            &&& tag(36, 'd', 'a', 't', 'a') && four(40) == len
        }),
{
    lemma_le32(36 + len);
    lemma_le32(rate);
    lemma_le32(rate * 2);
    lemma_le32(len);
}

proof fn lemma_le32(n: int)
    requires
        0 <= n <= 0xffff_ffff,
    ensures
        le32(n).len() == 4,
        le32(n)[0] + 256 * le32(n)[1] + 65536 * (le32(n)[2] + 256 * le32(n)[3]) == n,
{
}

/// How many samples come out: as many as start while the input lasts.
pub proof fn law_output_lasts_as_long(samples: int, rate: int, target: int, n: int)
    requires
        samples >= 0,
        rate > 0,
        target > 0,
        n >= 0,
    ensures
        n < output_len(samples, rate, target) <==> n * rate < samples * target,
{
    let total = samples * target;
    assert(total >= 0) by (nonlinear_arith)
        requires
            total == samples * target,
            samples >= 0,
            target > 0,
    ;
    assert(n < (total + rate - 1) / rate <==> n * rate < total) by (nonlinear_arith)
        requires
            rate > 0,
            total >= 0,
            n >= 0,
    ;
}

/// Audio that is at the rate already stays as it is. Audio is refused for the first of
/// these: half a sample at its end, no rate, or none to bring it to.
pub proof fn law_audio_that_stays(pcm: Seq<u8>, rate: int, target: int)
    ensures
        resampled_pcm(pcm, rate, rate) == pcm,
        pcm.len() % 2 == 1 ==> resample_refusal(pcm.len() as int, rate, target) == Some(
            "PCM16 byte length is odd"@,
        ),
        pcm.len() % 2 == 0 && rate == 0 ==> resample_refusal(pcm.len() as int, rate, target) == Some(
            "sample_rate must be positive"@,
        ),
        pcm.len() % 2 == 0 && rate > 0 && target == 0 ==> resample_refusal(
            pcm.len() as int,
            rate,
            target,
        ) == Some("target_sample_rate must be positive"@),
        pcm.len() % 2 == 0 && rate > 0 && target > 0 ==> resample_refusal(
            pcm.len() as int,
            rate,
            target,
        ) is None,
{
}

} // verus!
