//! The protobuf wire format: variable-length integers and tagged fields.
use vstd::prelude::*;
use vstd::slice::slice_subrange;
use crate::text::utf8_text;

verus! {

/// Why some bytes are not a message.
#[derive(Debug, Clone, Copy, PartialEq, Eq, Structural)]
pub enum WireError {
    /// The input ends inside an integer.
    TruncatedVarint,
    /// An integer does not end within ten bytes.
    VarintTooLong,
    /// A field has the number zero.
    FieldNumberZero,
    /// Fewer than eight bytes are left for a 64-bit field.
    TruncatedFixed64,
    /// A byte field announces more bytes than memory can address.
    BytesTooLarge,
    /// Fewer bytes are left than a byte field announces.
    TruncatedBytes,
    /// Fewer than four bytes are left for a 32-bit field.
    TruncatedFixed32,
    /// A field has a wire type that no field kind uses.
    UnsupportedWireType(u64),
}

/// The message of an error.
pub open spec fn wire_error_text(e: WireError) -> Seq<char> {
    match e {
        WireError::TruncatedVarint => "truncated varint"@,
        WireError::VarintTooLong => "varint too long"@,
        WireError::FieldNumberZero => "protobuf field number 0 is invalid"@,
        WireError::TruncatedFixed64 => "truncated fixed64"@,
        WireError::BytesTooLarge => "protobuf byte field is too large"@,
        WireError::TruncatedBytes => "truncated bytes"@,
        WireError::TruncatedFixed32 => "truncated fixed32"@,
        WireError::UnsupportedWireType(wire) => "unsupported protobuf wire type "@
            + crate::text::decimal(wire as nat),
    }
}

impl WireError {
    /// The message of this error.
    pub fn message(&self) -> (r: String)
        ensures
            r@ == wire_error_text(*self),
    {
        match self {
            WireError::TruncatedVarint => "truncated varint".to_owned(),
            WireError::VarintTooLong => "varint too long".to_owned(),
            WireError::FieldNumberZero => "protobuf field number 0 is invalid".to_owned(),
            WireError::TruncatedFixed64 => "truncated fixed64".to_owned(),
            WireError::BytesTooLarge => "protobuf byte field is too large".to_owned(),
            WireError::TruncatedBytes => "truncated bytes".to_owned(),
            WireError::TruncatedFixed32 => "truncated fixed32".to_owned(),
            WireError::UnsupportedWireType(wire) => {
                let mut out: String = "unsupported protobuf wire type ".to_owned();
                out.append(crate::text::decimal_text(*wire).as_str());
                out
            },
        }
    }
}

// ------------------------------------------------------------------- integers

/// The bytes of an integer: seven bits a byte, the lowest first, each byte but
/// the last with its high bit set.
pub open spec fn varint(value: nat) -> Seq<u8>
    decreases value,
{
    if value < 128 {
        seq![value as u8]
    } else {
        seq![(value % 128 + 128) as u8] + varint(value / 128)
    }
}

/// Reads an integer of at most `max` bytes: its value, before it is cut to 64
/// bits, and the number of bytes it takes.
pub open spec fn read_varint(s: Seq<u8>, max: nat) -> Result<(nat, nat), WireError>
    decreases max,
{
    if max == 0 {
        Err(WireError::VarintTooLong)
    } else if s.len() == 0 {
        Err(WireError::TruncatedVarint)
    } else if s[0] < 128 {
        Ok((s[0] as nat, 1))
    } else {
        match read_varint(s.skip(1), (max - 1) as nat) {
            Ok((value, used)) => Ok((((s[0] - 128) + 128 * value) as nat, used + 1)),
            Err(e) => Err(e),
        }
    }
}

/// Two to the sixty-fourth.
pub open spec fn two64() -> int {
    0x1_0000_0000_0000_0000
}

/// The integer at the start of `s`, and the number of bytes it takes.
pub open spec fn decoded_varint(s: Seq<u8>) -> Result<(u64, nat), WireError> {
    match read_varint(s, 10) {
        Ok((value, used)) => Ok(((value % two64() as nat) as u64, used)),
        Err(e) => Err(e),
    }
}

/// An integer that is read takes between one byte and the bytes there are.
pub proof fn lemma_read_varint_used(s: Seq<u8>, max: nat)
    ensures
        read_varint(s, max) matches Ok((_, used)) ==> 1 <= used <= max && used <= s.len(),
    decreases max,
{
    if max > 0 && s.len() > 0 && s[0] >= 128 {
        lemma_read_varint_used(s.skip(1), (max - 1) as nat);
    }
}

/// 128 to the power of `n`.
spec fn pow128(n: nat) -> nat
    decreases n,
{
    if n == 0 {
        1
    } else {
        128 * pow128((n - 1) as nat)
    }
}

proof fn lemma_read_back(value: nat, tail: Seq<u8>, max: nat)
    requires
        value < pow128(max),
        max > 0,
    ensures
        read_varint(varint(value) + tail, max) == Ok::<(nat, nat), WireError>(
            (value, varint(value).len()),
        ),
        1 <= varint(value).len() <= max,
    decreases max,
{
    let s = varint(value) + tail;
    if value < 128 {
    } else {
        assert(max > 1) by {
            reveal_with_fuel(pow128, 2);
        }
        assert(value / 128 < pow128((max - 1) as nat));
        lemma_read_back(value / 128, tail, (max - 1) as nat);
        assert(s.skip(1) =~= varint(value / 128) + tail);
        assert(s[0] as nat == value % 128 + 128);
    }
}

/// Reading gives back the integer that was written, whatever follows it, and
/// stops at its end.
pub proof fn law_varint_roundtrip(value: u64, tail: Seq<u8>)
    ensures
        decoded_varint(varint(value as nat) + tail) == Ok::<(u64, nat), WireError>(
            (value, varint(value as nat).len()),
        ),
        1 <= varint(value as nat).len() <= 10,
{
    reveal_with_fuel(pow128, 11);
    assert((value as nat) < pow128(10));
    lemma_read_back(value as nat, tail, 10);
    lemma_fits(value);
}

/// Appends an integer.
pub fn encode_varint(value: u64, out: &mut Vec<u8>)
    ensures
        final(out)@ == old(out)@ + varint(value as nat),
{
    let mut left: u64 = value;
    while left >= 128
        invariant
            out@ + varint(left as nat) == old(out)@ + varint(value as nat),
        decreases left,
    {
        let ghost before = out@;
        out.push((left % 128) as u8 + 128);
        assert(before + (seq![(left % 128 + 128) as u8] + varint(left as nat / 128)) =~= out@
            + varint((left / 128) as nat));
        left = left / 128;
    }
    out.push(left as u8);
    assert(out@ =~= old(out)@ + varint(value as nat));
}

proof fn lemma_pow128(i: nat)
    requires
        i < 10,
    ensures
        pow128(i + 1) == 128 * pow128(i),
        pow128(9) == 0x8000_0000_0000_0000,
        i < 9 ==> 1 <= pow128(i) <= 0x100_0000_0000_0000,
{
    reveal_with_fuel(pow128, 11);
}

proof fn lemma_fits(value: u64)
    ensures
        (value as nat) % (two64() as nat) == value,
{
    vstd::arithmetic::div_mod::lemma_small_mod(value as nat, two64() as nat);
}

proof fn lemma_low_digit(scale: nat, before: nat, digit: nat, high: nat)
    ensures
        before + scale * (digit + 128 * high) == (before + digit * scale) + (128 * scale) * high,
{
    assert(before + scale * (digit + 128 * high) == (before + digit * scale) + (128 * scale) * high)
        by (nonlinear_arith);
}

proof fn lemma_top_digit(before: nat, digit: nat)
    requires
        before < 0x8000_0000_0000_0000,
    ensures
        (before + digit * 0x8000_0000_0000_0000) % two64() as nat == before + (digit % 2)
            * 0x8000_0000_0000_0000,
{
    let half = digit / 2;
    let low = before + (digit % 2) * 0x8000_0000_0000_0000;
    assert(before + digit * 0x8000_0000_0000_0000 == low + half * two64());
    assert((low + half * two64()) % two64() == low);
}

/// Puts the low digits `value`, `count` of them with the weight `scale` above
/// them, below what was read of the rest.
spec fn below(
    rest: Result<(nat, nat), WireError>,
    value: nat,
    scale: nat,
    count: nat,
) -> Result<(nat, nat), WireError> {
    match rest {
        Ok((high, used)) => Ok((value + scale * high, used + count)),
        Err(e) => Err(e),
    }
}

/// Reads the integer at `at`: the result, and the number of bytes read.
fn varint_at(buf: &[u8], at: usize) -> (r: (Result<u64, WireError>, usize))
    requires
        at <= buf@.len(),
    ensures
        at + r.1 <= buf@.len(),
        match decoded_varint(buf@.skip(at as int)) {
            Ok((value, used)) => r.0 == Ok::<u64, WireError>(value) && r.1 == used,
            Err(e) => r.0 == Err::<u64, WireError>(e) && r.1 == if buf@.len() - at < 10 {
                buf@.len() - at
            } else {
                10
            },
        },
{
    let n: usize = buf.len();
    let ghost s = buf@.skip(at as int);
    let mut value: u64 = 0;
    let mut scale: u64 = 1;
    let mut i: usize = 0;
    assert(s.skip(0) =~= s);
    proof {
        assert(below(read_varint(s, 10), 0, 1, 0) == read_varint(s, 10));
    }
    while i < 10
        invariant
            n == buf@.len(),
            at <= n,
            s == buf@.skip(at as int),
            i <= 10,
            at + i <= n,
            i < 10 ==> scale == pow128(i as nat) && value < scale,
            i < 10 ==> read_varint(s, 10) == below(
                read_varint(s.skip(i as int), (10 - i) as nat),
                value as nat,
                scale as nat,
                i as nat,
            ),
            i == 10 ==> read_varint(s, 10) == Err::<(nat, nat), WireError>(
                WireError::VarintTooLong,
            ),
        decreases 10 - i,
    {
        proof {
            lemma_pow128(i as nat);
        }
        if at + i == n {
            return (Err(WireError::TruncatedVarint), i);
        }
        let byte: u8 = buf[at + i];
        let ghost rest = s.skip(i as int);
        assert(rest[0] == byte);
        assert(rest.skip(1) =~= s.skip(i + 1));
        let digit: u64 = (byte % 128) as u64;
        let ghost before = value as nat;
        if i < 9 {
            assert(digit * scale <= 127 * scale) by (nonlinear_arith)
                requires
                    digit <= 127,
            ;
            value = value + digit * scale;
        } else {
            assert((digit % 2) * scale <= scale) by (nonlinear_arith)
                requires
                    digit % 2 <= 1,
            ;
            value = value + (digit % 2) * scale;
        }
        if byte < 128 {
            proof {
                assert(read_varint(s, 10) == Ok::<(nat, nat), WireError>(
                    ((before + scale * digit) as nat, (1 + i) as nat),
                ));
                assert(scale * digit == digit * scale) by (nonlinear_arith);
                if i == 9 {
                    lemma_top_digit(before, digit as nat);
                } else {
                    lemma_fits(value);
                }
            }
            return (Ok(value), i + 1);
        }
        proof {
            if i < 9 {
                match read_varint(rest.skip(1), (9 - i) as nat) {
                    Ok((high, used)) => {
                        lemma_low_digit(scale as nat, before, digit as nat, high);
                    },
                    Err(_) => {},
                }
            }
        }
        if i < 9 {
            assert(pow128((i + 1) as nat) == 128 * scale);
            if i < 8 {
                scale = scale * 128;
            } else {
                scale = 0x8000_0000_0000_0000;
            }
        }
        i = i + 1;
    }
    (Err(WireError::VarintTooLong), 10)
}

/// Takes an integer off the front of `buf`.
pub fn decode_varint(buf: &mut &[u8]) -> (r: Result<u64, WireError>)
    ensures
        match decoded_varint(old(buf)@) {
            Ok((value, used)) => r == Ok::<u64, WireError>(value) && final(buf)@ == old(buf)@.skip(
                used as int,
            ),
            Err(e) => r == Err::<u64, WireError>(e) && final(buf)@ == old(buf)@.skip(
                if old(buf)@.len() < 10 {
                    old(buf)@.len() as int
                } else {
                    10
                },
            ),
        },
{
    let whole: &[u8] = *buf;
    assert(whole@.skip(0) =~= whole@);
    let (result, used): (Result<u64, WireError>, usize) = varint_at(whole, 0);
    *buf = slice_subrange(whole, used, whole.len());
    assert(buf@ =~= whole@.skip(used as int));
    result
}

// --------------------------------------------------------------------- fields

/// One field of a message.
#[derive(Debug, PartialEq)]
#[allow(inconsistent_fields)]
pub enum Field {
    Varint { number: u64, value: u64 },
    Fixed64 { number: u64, value: [u8; 8] },
    Bytes { number: u64, value: Vec<u8> },
    Fixed32 { number: u64, value: [u8; 4] },
}

/// A field as a mathematical value.
#[allow(inconsistent_fields)]
pub enum WireField {
    Varint { number: u64, value: u64 },
    Fixed64 { number: u64, value: Seq<u8> },
    Bytes { number: u64, value: Seq<u8> },
    Fixed32 { number: u64, value: Seq<u8> },
}

impl View for Field {
    type V = WireField;

    open spec fn view(&self) -> WireField {
        match self {
            Field::Varint { number, value } => WireField::Varint { number: *number, value: *value },
            Field::Fixed64 { number, value } => WireField::Fixed64 {
                number: *number,
                value: value@,
            },
            Field::Bytes { number, value } => WireField::Bytes { number: *number, value: value@ },
            Field::Fixed32 { number, value } => WireField::Fixed32 {
                number: *number,
                value: value@,
            },
        }
    }
}

/// The fields of a message as mathematical values.
pub open spec fn wire_fields(fields: Seq<Field>) -> Seq<WireField> {
    fields.map_values(|f: Field| f@)
}

/// How forgiving a reader of messages is.
///
/// The strict reader refuses the field number zero, and byte fields whose length
/// does not fit a machine word. The lenient one takes any field number, and the
/// low bits of such a length.
#[derive(Debug, Clone, Copy, PartialEq, Eq, Structural)]
pub enum Strictness {
    Strict,
    Lenient,
}

/// The length that a reader takes a byte field to have.
pub open spec fn taken_length(announced: u64, strictness: Strictness) -> Result<nat, WireError> {
    if announced <= usize::MAX {
        Ok(announced as nat)
    } else {
        match strictness {
            Strictness::Strict => Err(WireError::BytesTooLarge),
            Strictness::Lenient => Ok((announced as int % (usize::MAX + 1)) as nat),
        }
    }
}

/// What stands behind the key of a field: the field, and the bytes it takes
/// without its key.
pub open spec fn read_payload(s: Seq<u8>, number: u64, wire: u64, strictness: Strictness) -> Result<
    (WireField, nat),
    WireError,
> {
    if wire == 0 {
        match decoded_varint(s) {
            Err(e) => Err(e),
            Ok((value, used)) => Ok((WireField::Varint { number, value }, used)),
        }
    } else if wire == 1 {
        if s.len() < 8 {
            Err(WireError::TruncatedFixed64)
        } else {
            Ok((WireField::Fixed64 { number, value: s.take(8) }, 8))
        }
    } else if wire == 2 {
        match decoded_varint(s) {
            Err(e) => Err(e),
            Ok((announced, used)) => match taken_length(announced, strictness) {
                Err(e) => Err(e),
                Ok(len) => if s.len() - used < len {
                    Err(WireError::TruncatedBytes)
                } else {
                    Ok(
                        (
                            WireField::Bytes {
                                number,
                                value: s.subrange(used as int, (used + len) as int),
                            },
                            used + len,
                        ),
                    )
                },
            },
        }
    } else if wire == 5 {
        if s.len() < 4 {
            Err(WireError::TruncatedFixed32)
        } else {
            Ok((WireField::Fixed32 { number, value: s.take(4) }, 4))
        }
    } else {
        Err(WireError::UnsupportedWireType(wire))
    }
}

/// The field at the start of `s`, and the bytes it takes.
pub open spec fn read_field(s: Seq<u8>, strictness: Strictness) -> Result<
    (WireField, nat),
    WireError,
> {
    match decoded_varint(s) {
        Err(e) => Err(e),
        Ok((key, used)) => if key / 8 == 0 && strictness == Strictness::Strict {
            Err(WireError::FieldNumberZero)
        } else {
            match read_payload(s.skip(used as int), key / 8, key % 8, strictness) {
                Err(e) => Err(e),
                Ok((field, more)) => Ok((field, used + more)),
            }
        },
    }
}

/// The fields of a message, or the first error in it.
pub open spec fn read_fields(s: Seq<u8>, strictness: Strictness) -> Result<
    Seq<WireField>,
    WireError,
>
    decreases s.len(),
    via read_fields_decreases
{
    if s.len() == 0 {
        Ok(Seq::empty())
    } else {
        match read_field(s, strictness) {
            Err(e) => Err(e),
            Ok((field, used)) => match read_fields(s.skip(used as int), strictness) {
                Err(e) => Err(e),
                Ok(rest) => Ok(seq![field] + rest),
            },
        }
    }
}

#[via_fn]
proof fn read_fields_decreases(s: Seq<u8>, strictness: Strictness) {
    lemma_read_field_used(s, strictness);
}

/// A field that is read takes between one byte and the bytes there are.
pub proof fn lemma_read_field_used(s: Seq<u8>, strictness: Strictness)
    ensures
        read_field(s, strictness) matches Ok((_, used)) ==> 1 <= used <= s.len(),
{
    lemma_read_varint_used(s, 10);
    if let Ok((_, used)) = decoded_varint(s) {
        lemma_read_varint_used(s.skip(used as int), 10);
    }
}

fn read_payload_at(
    buf: &[u8],
    at: usize,
    number: u64,
    wire: u64,
    strictness: Strictness,
) -> (r: Result<(Field, usize), WireError>)
    requires
        at <= buf@.len(),
    ensures
        match read_payload(buf@.skip(at as int), number, wire, strictness) {
            Ok((field, used)) => r matches Ok((f, n)) && f@ == field && n == used && at + n
                <= buf@.len(),
            Err(e) => r matches Err(x) && x == e,
        },
{
    let n: usize = buf.len();
    let ghost s = buf@.skip(at as int);
    if wire == 0 {
        let (value, used): (Result<u64, WireError>, usize) = varint_at(buf, at);
        match value {
            Ok(value) => Ok((Field::Varint { number, value }, used)),
            Err(e) => Err(e),
        }
    } else if wire == 1 {
        if n - at < 8 {
            return Err(WireError::TruncatedFixed64);
        }
        let value: [u8; 8] = [
            buf[at],
            buf[at + 1],
            buf[at + 2],
            buf[at + 3],
            buf[at + 4],
            buf[at + 5],
            buf[at + 6],
            buf[at + 7],
        ];
        assert(value@ =~= s.take(8));
        Ok((Field::Fixed64 { number, value }, 8))
    } else if wire == 2 {
        let (announced, used): (Result<u64, WireError>, usize) = varint_at(buf, at);
        let announced: u64 = match announced {
            Ok(announced) => announced,
            Err(e) => {
                return Err(e);
            },
        };
        let len: usize = if announced <= usize::MAX as u64 {
            announced as usize
        } else {
            match strictness {
                Strictness::Strict => {
                    return Err(WireError::BytesTooLarge);
                },
                Strictness::Lenient => (announced as u128 % (usize::MAX as u128 + 1)) as usize,
            }
        };
        if n - at - used < len {
            return Err(WireError::TruncatedBytes);
        }
        let value: Vec<u8> = vstd::slice::slice_to_vec(
            slice_subrange(buf, at + used, at + used + len),
        );
        assert(value@ =~= s.subrange(used as int, used + len));
        Ok((Field::Bytes { number, value }, used + len))
    } else if wire == 5 {
        if n - at < 4 {
            return Err(WireError::TruncatedFixed32);
        }
        let value: [u8; 4] = [buf[at], buf[at + 1], buf[at + 2], buf[at + 3]];
        assert(value@ =~= s.take(4));
        Ok((Field::Fixed32 { number, value }, 4))
    } else {
        Err(WireError::UnsupportedWireType(wire))
    }
}

fn read_field_at(buf: &[u8], at: usize, strictness: Strictness) -> (r: Result<
    (Field, usize),
    WireError,
>)
    requires
        at <= buf@.len(),
    ensures
        match read_field(buf@.skip(at as int), strictness) {
            Ok((field, used)) => r matches Ok((f, n)) && f@ == field && n == used && at + n
                <= buf@.len(),
            Err(e) => r matches Err(x) && x == e,
        },
{
    let n: usize = buf.len();
    let ghost s = buf@.skip(at as int);
    let (key, used): (Result<u64, WireError>, usize) = varint_at(buf, at);
    let key: u64 = match key {
        Ok(key) => key,
        Err(e) => {
            return Err(e);
        },
    };
    if key / 8 == 0 && strictness == Strictness::Strict {
        return Err(WireError::FieldNumberZero);
    }
    assert(s.skip(used as int) =~= buf@.skip(at + used));
    assert(at + used <= n);
    match read_payload_at(buf, at + used, key / 8, key % 8, strictness) {
        Ok((field, more)) => Ok((field, used + more)),
        Err(e) => Err(e),
    }
}

/// Reads the fields of a message, as forgiving as asked.
pub fn parse_fields_with(buf: &[u8], strictness: Strictness) -> (r: Result<Vec<Field>, WireError>)
    ensures
        match read_fields(buf@, strictness) {
            Ok(fields) => r matches Ok(out) && wire_fields(out@) == fields,
            Err(e) => r matches Err(x) && x == e,
        },
{
    let mut fields: Vec<Field> = Vec::new();
    let mut at: usize = 0;
    let n: usize = buf.len();
    assert(buf@.skip(0) =~= buf@);
    proof {
        match read_fields(buf@, strictness) {
            Ok(rest) => {
                assert(wire_fields(fields@) + rest =~= rest);
            },
            Err(_) => {},
        }
    }
    while at < n
        invariant
            at <= n == buf@.len(),
            match read_fields(buf@.skip(at as int), strictness) {
                Ok(rest) => read_fields(buf@, strictness) == Ok::<Seq<WireField>, WireError>(
                    wire_fields(fields@) + rest,
                ),
                Err(e) => read_fields(buf@, strictness) == Err::<Seq<WireField>, WireError>(e),
            },
        decreases n - at,
    {
        let ghost s = buf@.skip(at as int);
        proof {
            lemma_read_field_used(s, strictness);
        }
        match read_field_at(buf, at, strictness) {
            Ok((field, used)) => {
                assert(s.skip(used as int) =~= buf@.skip(at + used));
                let ghost before = fields@;
                let ghost seen = field@;
                fields.push(field);
                proof {
                    assert(wire_fields(fields@) =~= wire_fields(before).push(seen));
                    match read_fields(buf@.skip(at + used), strictness) {
                        Ok(rest) => {
                            assert(wire_fields(before) + (seq![seen] + rest) =~= wire_fields(fields@)
                                + rest);
                        },
                        Err(_) => {},
                    }
                }
                at = at + used;
            },
            Err(e) => {
                return Err(e);
            },
        }
    }
    proof {
        assert(wire_fields(fields@) + Seq::<WireField>::empty() =~= wire_fields(fields@));
    }
    Ok(fields)
}

/// Reads the fields of a message strictly.
pub fn parse_fields(buf: &[u8]) -> (r: Result<Vec<Field>, WireError>)
    ensures
        match read_fields(buf@, Strictness::Strict) {
            Ok(fields) => r matches Ok(out) && wire_fields(out@) == fields,
            Err(e) => r matches Err(x) && x == e,
        },
{
    parse_fields_with(buf, Strictness::Strict)
}

// -------------------------------------------------------------------- looking

/// The value of the first integer field with the number.
pub open spec fn first_varint(fields: Seq<WireField>, number: u64) -> Option<u64>
    decreases fields.len(),
{
    if fields.len() == 0 {
        None
    } else if fields[0] matches WireField::Varint { number: n, value } && n == number {
        Some(fields[0]->Varint_value)
    } else {
        first_varint(fields.skip(1), number)
    }
}

/// The contents of the first byte field with the number.
pub open spec fn first_bytes(fields: Seq<WireField>, number: u64) -> Option<Seq<u8>>
    decreases fields.len(),
{
    if fields.len() == 0 {
        None
    } else if fields[0] matches WireField::Bytes { number: n, value } && n == number {
        Some(fields[0]->Bytes_value)
    } else {
        first_bytes(fields.skip(1), number)
    }
}

/// The text of the first byte field with the number, where that is well-formed
/// UTF-8.
pub open spec fn first_text(fields: Seq<WireField>, number: u64) -> Option<Seq<char>> {
    match first_bytes(fields, number) {
        Some(bytes) if vstd::utf8::valid_utf8(bytes) => Some(vstd::utf8::decode_utf8(bytes)),
        _ => None,
    }
}

/// The value of the first integer field with the number.
pub fn find_varint(fields: &[Field], number: u64) -> (r: Option<u64>)
    ensures
        r == first_varint(wire_fields(fields@), number),
{
    let ghost all = wire_fields(fields@);
    let mut i: usize = 0;
    assert(all.skip(0) =~= all);
    while i < fields.len()
        invariant
            i <= fields@.len(),
            all == wire_fields(fields@),
            first_varint(all, number) == first_varint(all.skip(i as int), number),
        decreases fields@.len() - i,
    {
        assert(all.skip(i as int)[0] == fields@[i as int]@);
        assert(all.skip(i as int).skip(1) =~= all.skip(i + 1));
        if let Field::Varint { number: n, value } = &fields[i] {
            if *n == number {
                return Some(*value);
            }
        }
        i = i + 1;
    }
    None
}

/// The contents of the first byte field with the number.
pub fn find_bytes(fields: &[Field], number: u64) -> (r: Option<&[u8]>)
    ensures
        match first_bytes(wire_fields(fields@), number) {
            Some(bytes) => r matches Some(b) && b@ == bytes,
            None => r is None,
        },
{
    let ghost all = wire_fields(fields@);
    let mut i: usize = 0;
    assert(all.skip(0) =~= all);
    while i < fields.len()
        invariant
            i <= fields@.len(),
            all == wire_fields(fields@),
            first_bytes(all, number) == first_bytes(all.skip(i as int), number),
        decreases fields@.len() - i,
    {
        assert(all.skip(i as int)[0] == fields@[i as int]@);
        assert(all.skip(i as int).skip(1) =~= all.skip(i + 1));
        if let Field::Bytes { number: n, value } = &fields[i] {
            if *n == number {
                return Some(value.as_slice());
            }
        }
        i = i + 1;
    }
    None
}

/// The text of the first byte field with the number, where that is well-formed
/// UTF-8.
pub fn find_string(fields: &[Field], number: u64) -> (r: Option<String>)
    ensures
        match first_text(wire_fields(fields@), number) {
            Some(text) => r matches Some(s) && s@ == text,
            None => r is None,
        },
{
    match find_bytes(fields, number) {
        Some(bytes) => utf8_text(vstd::slice::slice_to_vec(bytes)),
        None => None,
    }
}

// -------------------------------------------------------------------- writing

/// The key of a field: its number above the three bits of its wire type.
pub open spec fn field_key(number: u64, wire: nat) -> nat {
    (number as nat % 0x2000_0000_0000_0000) * 8 + wire
}

/// The bytes of an integer field.
pub open spec fn varint_part(number: u64, value: u64) -> Seq<u8> {
    varint(field_key(number, 0)) + varint(value as nat)
}

/// The bytes of a byte field.
pub open spec fn bytes_part(number: u64, value: Seq<u8>) -> Seq<u8> {
    varint(field_key(number, 2)) + varint(value.len()) + value
}

/// The number that stands for a truth value.
pub open spec fn bit(value: bool) -> u64 {
    if value {
        1
    } else {
        0
    }
}

/// The parts of a message, one after another.
pub open spec fn joined(parts: Seq<Vec<u8>>) -> Seq<u8>
    decreases parts.len(),
{
    if parts.len() == 0 {
        Seq::empty()
    } else {
        joined(parts.drop_last()) + parts.last()@
    }
}

/// Puts the parts of a message one after another.
pub fn message(parts: Vec<Vec<u8>>) -> (r: Vec<u8>)
    ensures
        r@ == joined(parts@),
{
    let mut out: Vec<u8> = Vec::new();
    let mut i: usize = 0;
    assert(parts@.take(0) =~= Seq::<Vec<u8>>::empty());
    while i < parts.len()
        invariant
            i <= parts@.len(),
            out@ == joined(parts@.take(i as int)),
        decreases parts@.len() - i,
    {
        out.extend_from_slice(parts[i].as_slice());
        assert(parts@.take(i + 1).drop_last() =~= parts@.take(i as int));
        i = i + 1;
    }
    assert(parts@.take(i as int) =~= parts@);
    out
}

/// Writes an integer field.
pub fn varint_field(number: u64, value: u64) -> (r: Vec<u8>)
    ensures
        r@ == varint_part(number, value),
{
    let mut out: Vec<u8> = Vec::new();
    encode_varint((number % 0x2000_0000_0000_0000) * 8, &mut out);
    encode_varint(value, &mut out);
    assert(out@ =~= varint_part(number, value));
    out
}

/// Writes a truth value as an integer field.
pub fn bool_field(number: u64, value: bool) -> (r: Vec<u8>)
    ensures
        r@ == varint_part(number, bit(value)),
{
    varint_field(number, if value { 1 } else { 0 })
}

/// Writes a byte field.
pub fn bytes_field(number: u64, value: &[u8]) -> (r: Vec<u8>)
    ensures
        r@ == bytes_part(number, value@),
{
    let mut out: Vec<u8> = Vec::new();
    encode_varint((number % 0x2000_0000_0000_0000) * 8 + 2, &mut out);
    encode_varint(value.len() as u64, &mut out);
    out.extend_from_slice(value);
    assert(out@ =~= bytes_part(number, value@));
    out
}

/// Writes a text as a byte field.
pub fn string_field(number: u64, value: &str) -> (r: Vec<u8>)
    ensures
        r@ == bytes_part(number, vstd::utf8::encode_utf8(value@)),
{
    bytes_field(number, value.as_bytes())
}

// ----------------------------------------------------------------------- laws

/// The bytes of a field.
pub open spec fn field_part(field: WireField) -> Seq<u8> {
    match field {
        WireField::Varint { number, value } => varint_part(number, value),
        WireField::Fixed64 { number, value } => varint(field_key(number, 1)) + value,
        WireField::Bytes { number, value } => bytes_part(number, value),
        WireField::Fixed32 { number, value } => varint(field_key(number, 5)) + value,
    }
}

/// Whether a field can be written: its number has at most 61 bits and is not
/// zero, and its contents have the length that its kind asks for.
pub open spec fn writable(field: WireField) -> bool {
    match field {
        WireField::Varint { number, value } => 0 < number < 0x2000_0000_0000_0000,
        WireField::Fixed64 { number, value } => 0 < number < 0x2000_0000_0000_0000 && value.len()
            == 8,
        WireField::Bytes { number, value } => 0 < number < 0x2000_0000_0000_0000 && value.len()
            <= usize::MAX,
        WireField::Fixed32 { number, value } => 0 < number < 0x2000_0000_0000_0000 && value.len()
            == 4,
    }
}

/// The bytes of a list of fields.
pub open spec fn fields_part(fields: Seq<WireField>) -> Seq<u8>
    decreases fields.len(),
{
    if fields.len() == 0 {
        Seq::empty()
    } else {
        field_part(fields[0]) + fields_part(fields.skip(1))
    }
}

/// One field alone is its own message.
pub proof fn lemma_fields_part_one(field: WireField)
    ensures
        fields_part(seq![field]) == field_part(field),
{
    reveal_with_fuel(fields_part, 2);
    assert(seq![field].skip(1) =~= Seq::empty());
    assert(field_part(field) + Seq::<u8>::empty() =~= field_part(field));
}

/// A further field adds its bytes at the end.
pub proof fn lemma_fields_part_push(fields: Seq<WireField>, field: WireField)
    ensures
        fields_part(fields.push(field)) == fields_part(fields) + field_part(field),
    decreases fields.len(),
{
    if fields.len() == 0 {
        lemma_fields_part_one(field);
        assert(fields.push(field) =~= seq![field]);
        assert(fields_part(fields) + field_part(field) =~= field_part(field));
    } else {
        lemma_fields_part_push(fields.skip(1), field);
        assert(fields.push(field).skip(1) =~= fields.skip(1).push(field));
        assert(field_part(fields[0]) + (fields_part(fields.skip(1)) + field_part(field))
            =~= fields_part(fields) + field_part(field));
    }
}

/// Parts that are the bytes of fields, one each, join to the bytes of the fields.
pub proof fn lemma_joined(parts: Seq<Vec<u8>>, fields: Seq<WireField>)
    requires
        parts.len() == fields.len(),
        forall|i: int| 0 <= i < parts.len() ==> (#[trigger] parts[i])@ == field_part(fields[i]),
    ensures
        joined(parts) == fields_part(fields),
    decreases parts.len(),
{
    if parts.len() > 0 {
        lemma_joined(parts.drop_last(), fields.drop_last());
        lemma_fields_part_push(fields.drop_last(), fields.last());
        assert(fields.drop_last().push(fields.last()) =~= fields);
    }
}

/// Reading one field gives back the field that was written, whatever follows it,
/// and stops at its end.
pub proof fn law_field_roundtrip(field: WireField, tail: Seq<u8>, strictness: Strictness)
    requires
        writable(field),
    ensures
        read_field(field_part(field) + tail, strictness) == Ok::<(WireField, nat), WireError>(
            (field, field_part(field).len()),
        ),
        field_part(field).len() > 0,
{
    let s = field_part(field) + tail;
    let (number, wire): (u64, nat) = match field {
        WireField::Varint { number, .. } => (number, 0),
        WireField::Fixed64 { number, .. } => (number, 1),
        WireField::Bytes { number, .. } => (number, 2),
        WireField::Fixed32 { number, .. } => (number, 5),
    };
    let key = field_key(number, wire);
    assert(number as nat % 0x2000_0000_0000_0000 == number as nat);
    let k = varint(key);
    let rest = s.skip(k.len() as int);
    assert(s =~= k + rest);
    law_varint_roundtrip(key as u64, rest);
    assert((key as u64) / 8 == number);
    assert((key as u64) % 8 == wire);
    match field {
        WireField::Varint { value, .. } => {
            law_varint_roundtrip(value, tail);
            assert(rest =~= varint(value as nat) + tail);
        },
        WireField::Fixed64 { value, .. } => {
            assert(rest =~= value + tail);
            assert(rest.take(8) =~= value);
        },
        WireField::Bytes { value, .. } => {
            let n = varint(value.len());
            assert(rest =~= n + (value + tail));
            law_varint_roundtrip(value.len() as u64, value + tail);
            assert(rest.subrange(n.len() as int, (n.len() + value.len()) as int) =~= value);
        },
        WireField::Fixed32 { value, .. } => {
            assert(rest =~= value + tail);
            assert(rest.take(4) =~= value);
        },
    }
}

/// Reading a message gives back the fields that were written.
pub proof fn law_fields_roundtrip(fields: Seq<WireField>, strictness: Strictness)
    requires
        forall|i: int| 0 <= i < fields.len() ==> writable(#[trigger] fields[i]),
    ensures
        read_fields(fields_part(fields), strictness) == Ok::<Seq<WireField>, WireError>(fields),
    decreases fields.len(),
{
    if fields.len() > 0 {
        let rest = fields_part(fields.skip(1));
        let s = fields_part(fields);
        law_field_roundtrip(fields[0], rest, strictness);
        law_fields_roundtrip(fields.skip(1), strictness);
        assert(s.skip(field_part(fields[0]).len() as int) =~= rest);
        assert(seq![fields[0]] + fields.skip(1) =~= fields);
    } else {
        assert(fields =~= Seq::empty());
    }
}

/// What the strict reader accepts, the lenient one reads the same way.
pub proof fn law_lenient_extends_strict(s: Seq<u8>)
    ensures
        read_fields(s, Strictness::Strict) is Ok ==> read_fields(s, Strictness::Lenient)
            == read_fields(s, Strictness::Strict),
    decreases s.len(),
{
    if s.len() > 0 {
        lemma_read_field_used(s, Strictness::Strict);
        if let Ok((_, used)) = read_field(s, Strictness::Strict) {
            law_lenient_extends_strict(s.skip(used as int));
        }
    }
}

/// The integer that bytes stand for: seven bits of each, the lowest first.
pub open spec fn seven_bit_value(s: Seq<u8>) -> nat
    decreases s.len(),
{
    if s.len() == 0 {
        0
    } else {
        (s[0] as nat % 128) + 128 * seven_bit_value(s.skip(1))
    }
}

/// How integers stand on the wire: every byte carries seven bits, the lowest first;
/// all but the last are marked, by their highest bit, as followed by more; and no
/// byte is spent that carries nothing.
pub proof fn law_varint_layout(value: nat)
    ensures
        ({
            let s = varint(value);
            &&& s.len() >= 1
            &&& seven_bit_value(s) == value
            &&& s.last() < 128
            &&& forall|i: int| 0 <= i < s.len() - 1 ==> (#[trigger] s[i]) >= 128
            &&& s.len() > 1 ==> s.last() != 0
        }),
    decreases value,
{
    reveal_with_fuel(seven_bit_value, 2);
    let s = varint(value);
    if value >= 128 {
        law_varint_layout(value / 128);
        let rest = varint(value / 128);
        assert(s.skip(1) =~= rest);
        assert(s.last() == rest.last());
        assert forall|i: int| 0 <= i < s.len() - 1 implies (#[trigger] s[i]) >= 128 by {
            if i > 0 {
                assert(s[i] == rest[i - 1]);
            }
        }
    }
}

/// How fields stand on the wire: the number and the kind in one integer, the kind in
/// its lowest three bits; then an integer, or eight bytes, or a length and as many
/// bytes, or four bytes.
pub proof fn law_field_layout(number: u64, value: u64, bytes: Seq<u8>)
    requires
        number < 0x2000_0000_0000_0000,
    ensures
        field_part(WireField::Varint { number, value }) == varint((8 * number) as nat) + varint(
            value as nat,
        ),
        field_part(WireField::Fixed64 { number, value: bytes }) == varint((8 * number + 1) as nat)
            + bytes,
        field_part(WireField::Bytes { number, value: bytes }) == varint((8 * number + 2) as nat)
            + varint(bytes.len()) + bytes,
        field_part(WireField::Fixed32 { number, value: bytes }) == varint((8 * number + 5) as nat)
            + bytes,
{
}

/// A message that breaks off, or holds what is no field, is refused with the reason:
/// what stands before is of no help.
pub proof fn law_malformed_messages_are_refused(
    fields: Seq<WireField>,
    number: u64,
    wire: u64,
    rest: Seq<u8>,
    strictness: Strictness,
)
    requires
        forall|i: int| 0 <= i < fields.len() ==> writable(#[trigger] fields[i]),
        number < 0x2000_0000_0000_0000,
        wire < 8,
    ensures
        ({
            let read = read_fields(
                fields_part(fields) + (varint((8 * number + wire) as nat) + rest),
                strictness,
            );
            if number == 0 && strictness == Strictness::Strict {
                read == Err::<Seq<WireField>, WireError>(WireError::FieldNumberZero)
            } else {
                &&& wire == 1 && rest.len() < 8 ==> read == Err::<Seq<WireField>, WireError>(
                    WireError::TruncatedFixed64,
                )
                &&& wire == 5 && rest.len() < 4 ==> read == Err::<Seq<WireField>, WireError>(
                    WireError::TruncatedFixed32,
                )
                &&& (wire == 0 || wire == 2) && rest.len() == 0 ==> read == Err::<
                    Seq<WireField>,
                    WireError,
                >(WireError::TruncatedVarint)
                &&& wire == 3 || wire == 4 || wire == 6 || wire == 7 ==> read == Err::<
                    Seq<WireField>,
                    WireError,
                >(WireError::UnsupportedWireType(wire))
            }
        }),
    decreases fields.len(),
{
    let key = (8 * number + wire) as u64;
    let bad = varint(key as nat) + rest;
    let s = fields_part(fields) + bad;
    if fields.len() == 0 {
        assert(s =~= bad);
        law_varint_roundtrip(key, rest);
        assert(bad.skip(varint(key as nat).len() as int) =~= rest);
        assert(key / 8 == number);
        assert(key % 8 == wire);
        assert(bad.len() > 0);
    } else {
        let more = fields_part(fields.skip(1)) + bad;
        assert(s =~= field_part(fields[0]) + more);
        law_field_roundtrip(fields[0], more, strictness);
        assert(s.skip(field_part(fields[0]).len() as int) =~= more);
        assert forall|i: int| 0 <= i < fields.skip(1).len() implies writable(
            #[trigger] fields.skip(1)[i],
        ) by {
            assert(fields.skip(1)[i] == fields[i + 1]);
        }
        law_malformed_messages_are_refused(fields.skip(1), number, wire, rest, strictness);
    }
}

/// A byte field that announces more than is left is refused.
pub proof fn law_short_byte_fields_are_refused(
    number: u64,
    announced: u64,
    rest: Seq<u8>,
    strictness: Strictness,
)
    requires
        0 < number < 0x2000_0000_0000_0000,
        rest.len() < announced <= usize::MAX,
    ensures
        read_fields(
            varint((8 * number + 2) as nat) + (varint(announced as nat) + rest),
            strictness,
        ) == Err::<Seq<WireField>, WireError>(WireError::TruncatedBytes),
{
    let key = (8 * number + 2) as u64;
    let body = varint(announced as nat) + rest;
    let s = varint(key as nat) + body;
    law_varint_roundtrip(key, body);
    law_varint_roundtrip(announced, rest);
    assert(s.skip(varint(key as nat).len() as int) =~= body);
    assert(s.len() > 0);
}

/// What is looked for in a message is the first field of the number and the kind;
/// fields of other numbers or kinds do not matter.
pub proof fn law_first_fields_are_found(fields: Seq<WireField>, number: u64, i: int)
    requires
        0 <= i < fields.len(),
    ensures
        fields[i] matches WireField::Varint { number: n, value } && n == number && (forall|j: int|
            0 <= j < i ==> !((#[trigger] fields[j]) matches WireField::Varint { number: m, .. } && m
                == number)) ==> first_varint(fields, number) == Some(fields[i]->Varint_value),
        fields[i] matches WireField::Bytes { number: n, value } && n == number && (forall|j: int|
            0 <= j < i ==> !((#[trigger] fields[j]) matches WireField::Bytes { number: m, .. } && m
                == number)) ==> first_bytes(fields, number) == Some(fields[i]->Bytes_value),
    decreases fields.len(),
{
    if i > 0 {
        law_first_fields_are_found(fields.skip(1), number, i - 1);
        assert(fields.skip(1)[i - 1] == fields[i]);
        assert forall|j: int| 0 <= j < i - 1 implies #[trigger] fields.skip(1)[j] == fields[j
            + 1] by {}
    }
}

/// Any bytes that are marked as followed by more, and one that is not, are read as
/// the integer that they stand for, in 64 bits, where they are at most ten; more are
/// too many, and where none ends them they break off.
pub proof fn law_varints_are_read(s: Seq<u8>, n: int)
    requires
        1 <= n <= s.len(),
        forall|i: int| 0 <= i < n - 1 ==> (#[trigger] s[i]) >= 128,
    ensures
        n <= 10 && s[n - 1] < 128 ==> decoded_varint(s) == Ok::<(u64, nat), WireError>(
            ((seven_bit_value(s.take(n)) % 0x1_0000_0000_0000_0000) as u64, n as nat),
        ),
        n > 10 ==> decoded_varint(s) == Err::<(u64, nat), WireError>(WireError::VarintTooLong),
        n < 10 && s[n - 1] >= 128 && n == s.len() ==> decoded_varint(s) == Err::<
            (u64, nat),
            WireError,
        >(WireError::TruncatedVarint),
{
    lemma_read_any(s, n, 10);
}

proof fn lemma_read_any(s: Seq<u8>, n: int, max: nat)
    requires
        1 <= n <= s.len(),
        forall|i: int| 0 <= i < n - 1 ==> (#[trigger] s[i]) >= 128,
    ensures
        n <= max && s[n - 1] < 128 ==> read_varint(s, max) == Ok::<(nat, nat), WireError>(
            (seven_bit_value(s.take(n)), n as nat),
        ),
        n > max ==> read_varint(s, max) == Err::<(nat, nat), WireError>(WireError::VarintTooLong),
        n < max && s[n - 1] >= 128 && n == s.len() ==> read_varint(s, max) == Err::<
            (nat, nat),
            WireError,
        >(WireError::TruncatedVarint),
    decreases max,
{
    reveal_with_fuel(seven_bit_value, 2);
    reveal_with_fuel(read_varint, 2);
    assert(s.take(n).skip(1) =~= s.skip(1).take(n - 1));
    if max > 0 && n > 1 {
        assert(s[0] >= 128);
        assert forall|i: int| 0 <= i < n - 2 implies (#[trigger] s.skip(1)[i]) >= 128 by {
            assert(s.skip(1)[i] == s[i + 1]);
        }
        lemma_read_any(s.skip(1), n - 1, (max - 1) as nat);
    } else if n == 1 {
        assert(s.take(1).skip(1) =~= Seq::empty());
    }
}

/// What is wrong with a message is said in its own words.
pub proof fn law_errors_have_their_words(kind: u64)
    ensures
        wire_error_text(WireError::TruncatedVarint) == "truncated varint"@,
        wire_error_text(WireError::VarintTooLong) == "varint too long"@,
        wire_error_text(WireError::FieldNumberZero) == "protobuf field number 0 is invalid"@,
        wire_error_text(WireError::TruncatedFixed64) == "truncated fixed64"@,
        wire_error_text(WireError::TruncatedFixed32) == "truncated fixed32"@,
        wire_error_text(WireError::BytesTooLarge) == "protobuf byte field is too large"@,
        wire_error_text(WireError::TruncatedBytes) == "truncated bytes"@,
        wire_error_text(WireError::UnsupportedWireType(kind))
            == "unsupported protobuf wire type "@ + crate::text::decimal(kind as nat),
{
}

} // verus!
