//! The parameters that a client binds to a query, as values.
use crate::coerce;
use crate::coerce::FloatValue;
use crate::datatypes;
use crate::datatypes::{Builtin, FieldFormat, Format, Type, TypeV, PG_VECTOR_TYPE_OID};
use crate::errors::{CoerceSource, Error, ErrorV, Malformed};
use crate::scalar;
use crate::scalar::{ScalarV, ScalarValue};
use crate::schema;
use crate::schema::{DataType, DataTypeV, Field, IntervalUnit, TimeUnit};
use crate::text;
use crate::wire;
use crate::wire::{Decimal, Interval, TimeOfDay};
use vstd::arithmetic::power;
use vstd::prelude::*;

verus! {

/// What a parameter holds that only floating-point arithmetic can decode.
#[derive(Debug)]
pub enum Decoded {
    /// Of a `float4` or `float8`.
    Float(FloatValue),
    /// Of a `float4[]` or `float8[]`.
    Floats(Vec<Option<FloatValue>>),
    /// Of an `interval` in a text form that the decoding may overflow at.
    Interval(Interval),
    /// Of an `interval[]` in a text form that the decoding may overflow at.
    Intervals(Vec<Option<Interval>>),
    /// Of a `vector` in text form: for each element the bits of the
    /// single-precision number that it is, if it is one.
    Vector(Vec<Option<u32>>),
}

/// The model of a [`Decoded`].
#[verifier::ext_equal]
pub enum DecodedV {
    Float(FloatValue),
    Floats(Seq<Option<FloatValue>>),
    Interval(Interval),
    Intervals(Seq<Option<Interval>>),
    Vector(Seq<Option<u32>>),
}

impl View for Decoded {
    type V = DecodedV;

    open spec fn view(&self) -> DecodedV {
        match *self {
            Decoded::Float(f) => DecodedV::Float(f),
            Decoded::Floats(v) => DecodedV::Floats(v@),
            Decoded::Interval(i) => DecodedV::Interval(i),
            Decoded::Intervals(v) => DecodedV::Intervals(v@),
            Decoded::Vector(v) => DecodedV::Vector(v@),
        }
    }
}

/// One bound parameter: its bytes, whether they are in binary form, and what was
/// decoded of them beforehand.
pub struct Bound<'a> {
    pub raw: &'a Option<Vec<u8>>,
    pub binary: bool,
    pub decoded: Option<&'a Decoded>,
}

/// The model of a [`Bound`].
#[verifier::ext_equal]
pub struct BoundV {
    pub raw: Option<Seq<u8>>,
    pub binary: bool,
    pub decoded: Option<DecodedV>,
}

impl<'a> View for Bound<'a> {
    type V = BoundV;

    open spec fn view(&self) -> BoundV {
        BoundV {
            raw: scalar::opt_bytes(*self.raw),
            binary: self.binary,
            decoded: match self.decoded {
                Some(d) => Some(d@),
                None => None,
            },
        }
    }
}

/// A value, or the error of the wire-protocol crate.
pub open spec fn wired<T>(o: Option<T>) -> Result<T, ErrorV> {
    match o {
        Some(v) => Ok(v),
        None => Err(ErrorV::Wire),
    }
}

/// The value of an integer parameter.
pub open spec fn int_param(
    value: Option<i64>,
    direct: ScalarV,
    inferred: Option<DataTypeV>,
) -> Result<ScalarV, ErrorV> {
    match inferred {
        Some(target) => if coerce::seconds_overflow(value, target) {
            Err(ErrorV::Overflow { target })
        } else {
            coerce::int_scalar(value, target)
        },
        None => Ok(direct),
    }
}

fn seconds_fit(value: Option<i64>, target: &DataType) -> (r: bool)
    ensures
        r == !coerce::seconds_overflow(value, target@),
{
    match (value, target) {
        (Some(n), DataType::Timestamp(unit, _)) => match *unit {
            TimeUnit::Second => true,
            TimeUnit::Millisecond => n.checked_mul(1_000).is_some(),
            TimeUnit::Microsecond => n.checked_mul(1_000_000).is_some(),
            TimeUnit::Nanosecond => n.checked_mul(1_000_000_000).is_some(),
        },
        _ => true,
    }
}

fn int_parameter(value: Option<i64>, direct: ScalarValue, inferred: Option<&DataType>) -> (r: Result<
    ScalarValue,
    Error,
>)
    ensures
        coerce::scalar_result(r) == int_param(value, direct@, schema::opt_type(inferred)),
{
    match inferred {
        Some(target) => if seconds_fit(value, target) {
            coerce::coerce_int_value(value, target)
        } else {
            Err(Error::Overflow { target: target.copy() })
        },
        None => Ok(direct),
    }
}

/// The widening of an optional number.
pub open spec fn widened16(v: Option<i16>) -> Option<i64> {
    match v {
        Some(n) => Some(n as i64),
        None => None,
    }
}

/// The widening of an optional number.
pub open spec fn widened32(v: Option<i32>) -> Option<i64> {
    match v {
        Some(n) => Some(n as i64),
        None => None,
    }
}

/// The value of an `int2`, `int4` or `int8`.
pub open spec fn integer_value(b: Builtin, p: BoundV, inferred: Option<DataTypeV>) -> Result<
    ScalarV,
    ErrorV,
> {
    match b {
        Builtin::INT2 => match wire::i16_of(p.binary, p.raw) {
            Some(v) => int_param(widened16(v), ScalarV::Int16(v), inferred),
            None => Err(ErrorV::Wire),
        },
        Builtin::INT4 => match wire::i32_of(p.binary, p.raw) {
            Some(v) => int_param(widened32(v), ScalarV::Int32(v), inferred),
            None => Err(ErrorV::Wire),
        },
        _ => match wire::i64_of(p.binary, p.raw) {
            Some(v) => int_param(v, ScalarV::Int64(v), inferred),
            None => Err(ErrorV::Wire),
        },
    }
}

fn integer_parameter(b: Builtin, p: &Bound, inferred: Option<&DataType>) -> (r: Result<
    ScalarValue,
    Error,
>)
    ensures
        coerce::scalar_result(r) == integer_value(b, p@, schema::opt_type(inferred)),
{
    match b {
        Builtin::INT2 => match wire::wire_i16(21, p.binary, p.raw) {
            Ok(v) => {
                let wide = match v {
                    Some(n) => Some(n as i64),
                    None => None,
                };
                int_parameter(wide, ScalarValue::Int16(v), inferred)
            },
            Err(e) => Err(Error::Wire(e)),
        },
        Builtin::INT4 => match wire::wire_i32(23, p.binary, p.raw) {
            Ok(v) => {
                let wide = match v {
                    Some(n) => Some(n as i64),
                    None => None,
                };
                int_parameter(wide, ScalarValue::Int32(v), inferred)
            },
            Err(e) => Err(Error::Wire(e)),
        },
        _ => match wire::wire_i64(20, p.binary, p.raw) {
            Ok(v) => int_parameter(v, ScalarValue::Int64(v), inferred),
            Err(e) => Err(Error::Wire(e)),
        },
    }
}

/// The value of a `text` or `varchar`.
pub open spec fn text_value(t: TypeV, p: BoundV, inferred: Option<DataTypeV>) -> Result<
    ScalarV,
    ErrorV,
> {
    match wire::string_of(t, p.binary, p.raw) {
        Some(v) => Ok(
            if inferred == Some(DataTypeV::LargeUtf8) {
                ScalarV::LargeUtf8(v)
            } else {
                ScalarV::Utf8(v)
            },
        ),
        None => Err(ErrorV::Wire),
    }
}

fn text_parameter(t: &Type, p: &Bound, inferred: Option<&DataType>) -> (r: Result<
    ScalarValue,
    Error,
>)
    ensures
        coerce::scalar_result(r) == text_value(t@, p@, schema::opt_type(inferred)),
{
    match wire::wire_string(t, p.binary, p.raw) {
        Ok(v) => match inferred {
            Some(DataType::LargeUtf8) => Ok(ScalarValue::LargeUtf8(v)),
            _ => Ok(ScalarValue::Utf8(v)),
        },
        Err(e) => Err(Error::Wire(e)),
    }
}

/// The number that a `float4` or `float8` holds.
pub open spec fn float_of(p: BoundV) -> Result<Option<FloatValue>, ErrorV> {
    match (p.raw, p.decoded) {
        (None, _) => Ok(None),
        (Some(_), Some(DecodedV::Float(f))) => Ok(Some(f)),
        _ => Err(ErrorV::Malformed(Malformed::Undecoded)),
    }
}

/// The value of a `float4` or `float8`.
pub open spec fn float_value(b: Builtin, p: BoundV, inferred: Option<DataTypeV>) -> Result<
    ScalarV,
    ErrorV,
> {
    match float_of(p) {
        Ok(v) => match inferred {
            Some(target) => coerce::float_scalar(v, target),
            None => Ok(
                if b is FLOAT4 {
                    ScalarV::Float32(coerce::single_bits(v))
                } else {
                    ScalarV::Float64(coerce::double_bits(v))
                },
            ),
        },
        Err(e) => Err(e),
    }
}

fn float_parameter(b: Builtin, p: &Bound, inferred: Option<&DataType>) -> (r: Result<
    ScalarValue,
    Error,
>)
    ensures
        coerce::scalar_result(r) == float_value(b, p@, schema::opt_type(inferred)),
{
    let value = if p.raw.is_none() {
        None
    } else {
        match p.decoded {
            Some(Decoded::Float(f)) => Some(*f),
            _ => {
                return Err(Error::Malformed(Malformed::Undecoded));
            },
        }
    };
    match inferred {
        Some(target) => coerce::coerce_float_value(value, target),
        None => match b {
            Builtin::FLOAT4 => Ok(
                ScalarValue::Float32(
                    match value {
                        Some(f) => Some(f.single_bits),
                        None => None,
                    },
                ),
            ),
            _ => Ok(
                ScalarValue::Float64(
                    match value {
                        Some(f) => Some(f.bits),
                        None => None,
                    },
                ),
            ),
        },
    }
}

/// The whole part of a decimal as an unsigned number, where it is one.
pub open spec fn decimal_u64(d: Decimal) -> Option<u64> {
    if !d.negative && d.whole() <= u64::MAX {
        Some(d.whole() as u64)
    } else {
        None
    }
}

/// The whole part of a decimal as a signed number, where it fits.
pub open spec fn decimal_i64(d: Decimal) -> Option<i64> {
    let n = if d.negative {
        -d.whole()
    } else {
        d.whole()
    };
    if i64::MIN <= n <= i64::MAX {
        Some(n as i64)
    } else {
        None
    }
}

/// The unscaled value of a decimal with another scale.
pub open spec fn decimal_rescaled(d: Option<Decimal>, scale: i8) -> Option<i128> {
    match d {
        Some(d) => Some(wire::rescaled(d.negative, d.mantissa, d.scale, scale as u32)),
        None => None,
    }
}

/// A decimal in its own precision and scale.
pub open spec fn own_decimal(d: Option<Decimal>) -> ScalarV {
    match d {
        Some(d) => ScalarV::Decimal128OfDigits(d.mantissa, d.scale as i8),
        None => ScalarV::Decimal128(None, 0, 0),
    }
}

/// The value of the target type that a decimal becomes, if it does.
pub open spec fn decimal_scalar(value: Option<Decimal>, target: DataTypeV) -> Option<ScalarV> {
    match target {
        DataTypeV::Decimal128(p, s) => Some(
            ScalarV::Decimal128(decimal_rescaled(value, s), p, s),
        ),
        DataTypeV::UInt64 => Some(
            ScalarV::UInt64(
                match value {
                    Some(d) => decimal_u64(d),
                    None => None,
                },
            ),
        ),
        DataTypeV::UInt32 => Some(
            ScalarV::UInt32(
                match value {
                    Some(d) => match decimal_u64(d) {
                        Some(n) if n <= u32::MAX => Some(n as u32),
                        _ => None,
                    },
                    None => None,
                },
            ),
        ),
        DataTypeV::Int64 => Some(
            ScalarV::Int64(
                match value {
                    Some(d) => decimal_i64(d),
                    None => None,
                },
            ),
        ),
        DataTypeV::Int32 => Some(
            ScalarV::Int32(
                match value {
                    Some(d) => match decimal_i64(d) {
                        Some(n) if i32::MIN <= n <= i32::MAX => Some(n as i32),
                        _ => None,
                    },
                    None => None,
                },
            ),
        ),
        DataTypeV::Float64 => Some(
            ScalarV::Float64(
                match value {
                    Some(d) => Some(wire::decimal_f64_bits(d.negative, d.mantissa, d.scale)),
                    None => None,
                },
            ),
        ),
        DataTypeV::Float32 => Some(
            ScalarV::Float32(
                match value {
                    Some(d) => Some(wire::decimal_f32_bits(d.negative, d.mantissa, d.scale)),
                    None => None,
                },
            ),
        ),
        _ => None,
    }
}

/// True of an optional decimal of the decimal crate.
pub open spec fn valid_decimal(d: Option<Decimal>) -> bool {
    d matches Some(d) ==> d.valid()
}

/// Turns a decimal into a value of the target type, if it can become one.
pub fn coerce_decimal_value(value: Option<Decimal>, target: &DataType) -> (r: Option<ScalarValue>)
    requires
        valid_decimal(value),
    ensures
        match r {
            Some(v) => decimal_scalar(value, target@) == Some(v@),
            None => decimal_scalar(value, target@) is None,
        },
{
    match target {
        DataType::Decimal128(p, s) => {
            let scaled = match value {
                Some(d) => Some(wire::rescale(d, *s as u32)),
                None => None,
            };
            Some(ScalarValue::Decimal128(scaled, *p, *s))
        },
        DataType::UInt64 => Some(
            ScalarValue::UInt64(
                match value {
                    Some(d) => wire::decimal_to_u64(d),
                    None => None,
                },
            ),
        ),
        DataType::UInt32 => Some(
            ScalarValue::UInt32(
                match value {
                    Some(d) => match wire::decimal_to_u64(d) {
                        Some(n) => if n <= u32::MAX as u64 {
                            Some(n as u32)
                        } else {
                            None
                        },
                        None => None,
                    },
                    None => None,
                },
            ),
        ),
        DataType::Int64 => Some(
            ScalarValue::Int64(
                match value {
                    Some(d) => {
                        proof {
                            lemma_whole(d);
                        }
                        wire::decimal_to_i64(d)
                    },
                    None => None,
                },
            ),
        ),
        DataType::Int32 => Some(
            ScalarValue::Int32(
                match value {
                    Some(d) => {
                        proof {
                            lemma_whole(d);
                        }
                        match wire::decimal_to_i64(d) {
                            Some(n) => if n >= i32::MIN as i64 && n <= i32::MAX as i64 {
                                Some(n as i32)
                            } else {
                                None
                            },
                            None => None,
                        }
                    },
                    None => None,
                },
            ),
        ),
        DataType::Float64 => Some(
            ScalarValue::Float64(
                match value {
                    Some(d) => wire::decimal_to_double(d),
                    None => None,
                },
            ),
        ),
        DataType::Float32 => Some(
            ScalarValue::Float32(
                match value {
                    Some(d) => wire::decimal_to_single(d),
                    None => None,
                },
            ),
        ),
        _ => None,
    }
}

proof fn lemma_whole(d: Decimal)
    ensures
        d.whole() >= 0,
{
    power::lemma_pow_positive(10, d.scale as nat);
    vstd::arithmetic::div_mod::lemma_div_pos_is_pos(
        wire::abs(d.mantissa as int),
        power::pow(10, d.scale as nat),
    );
}

fn own_precision(value: Option<Decimal>) -> (r: ScalarValue)
    requires
        valid_decimal(value),
    ensures
        r@ == own_decimal(value),
{
    match value {
        Some(d) => ScalarValue::Decimal128OfDigits(d.mantissa, d.scale as i8),
        None => ScalarValue::Decimal128(None, 0, 0),
    }
}

/// The value of a `numeric`.
pub open spec fn numeric_value(p: BoundV, inferred: Option<DataTypeV>) -> Result<ScalarV, ErrorV> {
    if p.binary && (p.raw matches Some(b) && wire::numeric_too_large(b)) {
        Err(ErrorV::Malformed(Malformed::NumericTooLarge))
    } else {
        match wire::or_null(p.raw, wire::wire_decimal_value(1700, p.binary, p.raw)) {
            Some(v) => match inferred {
                Some(target) => match decimal_scalar(v, target) {
                    Some(s) => Ok(s),
                    None => Err(ErrorV::CannotCoerce { source: CoerceSource::Numeric, target }),
                },
                None => Ok(own_decimal(v)),
            },
            None => Err(ErrorV::Wire),
        }
    }
}

fn numeric_parameter(p: &Bound, inferred: Option<&DataType>) -> (r: Result<ScalarValue, Error>)
    ensures
        coerce::scalar_result(r) == numeric_value(p@, schema::opt_type(inferred)),
{
    if p.binary {
        if let Some(b) = p.raw {
            if is_numeric_too_large(b.as_slice()) {
                return Err(Error::Malformed(Malformed::NumericTooLarge));
            }
        }
    }
    match wire::wire_decimal(1700, p.binary, p.raw) {
        Ok(v) => match inferred {
            Some(target) => match coerce_decimal_value(v, target) {
                Some(s) => Ok(s),
                None => Err(
                    Error::CannotCoerce { source: CoerceSource::Numeric, target: target.copy() },
                ),
            },
            None => Ok(own_precision(v)),
        },
        Err(e) => Err(Error::Wire(e)),
    }
}

/// Two bytes as a number, the higher first.
fn be_u16(b: &[u8], at: usize) -> (r: u16)
    requires
        at + 2 <= b@.len(),
    ensures
        r == wire::be_unsigned(b@.subrange(at as int, at + 2)),
{
    let r: u16 = b[at] as u16 * 256 + b[at + 1] as u16;
    proof {
        let s = b@.subrange(at as int, at + 2);
        reveal_with_fuel(wire::be_unsigned, 3);
        assert(s.drop_last().drop_last() == Seq::<u8>::empty());
        assert(s.drop_last().last() == b@[at as int]);
        assert(s.last() == b@[at + 1]);
    }
    r
}

/// Four bytes as a number, the highest first.
fn be_u32(b: &[u8], at: usize) -> (r: u32)
    requires
        at + 4 <= b@.len(),
    ensures
        r == wire::be_unsigned(b@.subrange(at as int, at + 4)),
{
    let _len: usize = b.len();
    let high: u16 = be_u16(b, at);
    let low: u16 = be_u16(b, at + 2);
    proof {
        let s = b@.subrange(at as int, at + 4);
        let h = b@.subrange(at as int, at + 2);
        let l = b@.subrange(at + 2, at + 4);
        reveal_with_fuel(wire::be_unsigned, 3);
        assert(s.drop_last().drop_last() == h);
        assert(l.drop_last().drop_last() == Seq::<u8>::empty());
        assert(s.last() == l.last());
        assert(s.drop_last().last() == l.drop_last().last());
    }
    high as u32 * 65536 + low as u32
}

/// Four bytes as a signed number, the highest first.
fn be_i32(b: &[u8], at: usize) -> (r: i32)
    requires
        at + 4 <= b@.len(),
    ensures
        r == wire::be_signed(b@.subrange(at as int, at + 4)),
{
    let n: u32 = be_u32(b, at);
    let high: u16 = be_u16(b, at);
    proof {
        let s = b@.subrange(at as int, at + 4);
        let h = b@.subrange(at as int, at + 2);
        reveal_with_fuel(wire::be_unsigned, 5);
        assert(s.drop_last().drop_last() == h);
        assert(h.drop_last().drop_last() == Seq::<u8>::empty());
        assert(h.drop_last().last() == b@[at as int]);
        assert(h.last() == b@[at + 1]);
        assert(s.last() == b@[at + 3]);
        assert(s.drop_last().last() == b@[at + 2]);
        assert(power::pow(256, 4) == 0x1_0000_0000) by {
            reveal_with_fuel(power::pow, 5);
        }
    }
    if b[at] >= 128 {
        (n as i64 - 0x1_0000_0000) as i32
    } else {
        n as i32
    }
}

/// Two bytes as a signed number, the higher first.
fn be_i16(b: &[u8], at: usize) -> (r: i16)
    requires
        at + 2 <= b@.len(),
    ensures
        r == wire::be_signed(b@.subrange(at as int, at + 2)),
{
    let n: u16 = be_u16(b, at);
    proof {
        let s = b@.subrange(at as int, at + 2);
        reveal_with_fuel(wire::be_unsigned, 3);
        assert(s.drop_last().drop_last() == Seq::<u8>::empty());
        assert(s.drop_last().last() == b@[at as int]);
        assert(s.last() == b@[at + 1]);
        assert(power::pow(256, 2) == 0x1_0000) by {
            reveal_with_fuel(power::pow, 3);
        }
    }
    if b[at] >= 128 {
        (n as i32 - 0x1_0000) as i16
    } else {
        n as i16
    }
}

fn is_numeric_too_large(b: &[u8]) -> (r: bool)
    ensures
        r == wire::numeric_too_large(b@),
{
    if b.len() < 4 {
        return false;
    }
    let digits: i32 = be_u16(b, 0) as i32;
    let weight: i32 = be_i16(b, 2) as i32;
    let zeros: i32 = weight + 1 - digits;
    zeros == 8 || zeros == 9
}

fn make_list(items: Vec<ScalarValue>, item: DataType) -> (r: ScalarValue)
    ensures
        r@ == ScalarV::List(scalar::scalars_view(items@), item@),
{
    proof {
        scalar::lemma_list_model(items, item);
    }
    ScalarValue::List(items, item)
}

/// A list of optional values of the type `bool`.
pub open spec fn list_of_bools_scalar(values: Option<Seq<Option<bool>>>) -> ScalarV {
    match values {
        Some(values) => ScalarV::List(
            values.map_values(|v: Option<bool>| ScalarV::Boolean(v)),
            DataTypeV::Boolean,
        ),
        None => ScalarV::NullList(DataTypeV::Boolean),
    }
}

fn list_of_bools(values: Option<Vec<Option<bool>>>) -> (r: ScalarValue)
    ensures
        r@ == list_of_bools_scalar(
            match values {
                Some(v) => Some(v@),
                None => None,
            },
        ),
{
    let values = match values {
        Some(values) => values,
        None => {
            return ScalarValue::NullList(DataType::Boolean);
        },
    };
    let mut items: Vec<ScalarValue> = Vec::new();
    let mut i: usize = 0;
    while i < values.len()
        invariant
            i <= values@.len(),
            items@.len() == i,
            forall|j: int| 0 <= j < i ==> (#[trigger] items@[j])@ == ScalarV::Boolean(values@[j]),
        decreases values@.len() - i,
    {
        items.push(ScalarValue::Boolean(values[i]));
        i += 1;
    }
    assert(scalar::scalars_view(items@) == values@.map_values(
        |v: Option<bool>| ScalarV::Boolean(v),
    ));
    make_list(items, DataType::Boolean)
}

/// A list of optional values of the type `i16`.
pub open spec fn list_of_i16s_scalar(values: Option<Seq<Option<i16>>>) -> ScalarV {
    match values {
        Some(values) => ScalarV::List(
            values.map_values(|v: Option<i16>| ScalarV::Int16(v)),
            DataTypeV::Int16,
        ),
        None => ScalarV::NullList(DataTypeV::Int16),
    }
}

fn list_of_i16s(values: Option<Vec<Option<i16>>>) -> (r: ScalarValue)
    ensures
        r@ == list_of_i16s_scalar(
            match values {
                Some(v) => Some(v@),
                None => None,
            },
        ),
{
    let values = match values {
        Some(values) => values,
        None => {
            return ScalarValue::NullList(DataType::Int16);
        },
    };
    let mut items: Vec<ScalarValue> = Vec::new();
    let mut i: usize = 0;
    while i < values.len()
        invariant
            i <= values@.len(),
            items@.len() == i,
            forall|j: int| 0 <= j < i ==> (#[trigger] items@[j])@ == ScalarV::Int16(values@[j]),
        decreases values@.len() - i,
    {
        items.push(ScalarValue::Int16(values[i]));
        i += 1;
    }
    assert(scalar::scalars_view(items@) == values@.map_values(
        |v: Option<i16>| ScalarV::Int16(v),
    ));
    make_list(items, DataType::Int16)
}

/// A list of optional values of the type `i32`.
pub open spec fn list_of_i32s_scalar(values: Option<Seq<Option<i32>>>) -> ScalarV {
    match values {
        Some(values) => ScalarV::List(
            values.map_values(|v: Option<i32>| ScalarV::Int32(v)),
            DataTypeV::Int32,
        ),
        None => ScalarV::NullList(DataTypeV::Int32),
    }
}

fn list_of_i32s(values: Option<Vec<Option<i32>>>) -> (r: ScalarValue)
    ensures
        r@ == list_of_i32s_scalar(
            match values {
                Some(v) => Some(v@),
                None => None,
            },
        ),
{
    let values = match values {
        Some(values) => values,
        None => {
            return ScalarValue::NullList(DataType::Int32);
        },
    };
    let mut items: Vec<ScalarValue> = Vec::new();
    let mut i: usize = 0;
    while i < values.len()
        invariant
            i <= values@.len(),
            items@.len() == i,
            forall|j: int| 0 <= j < i ==> (#[trigger] items@[j])@ == ScalarV::Int32(values@[j]),
        decreases values@.len() - i,
    {
        items.push(ScalarValue::Int32(values[i]));
        i += 1;
    }
    assert(scalar::scalars_view(items@) == values@.map_values(
        |v: Option<i32>| ScalarV::Int32(v),
    ));
    make_list(items, DataType::Int32)
}

/// A list of optional values of the type `i64`.
pub open spec fn list_of_i64s_scalar(values: Option<Seq<Option<i64>>>) -> ScalarV {
    match values {
        Some(values) => ScalarV::List(
            values.map_values(|v: Option<i64>| ScalarV::Int64(v)),
            DataTypeV::Int64,
        ),
        None => ScalarV::NullList(DataTypeV::Int64),
    }
}

fn list_of_i64s(values: Option<Vec<Option<i64>>>) -> (r: ScalarValue)
    ensures
        r@ == list_of_i64s_scalar(
            match values {
                Some(v) => Some(v@),
                None => None,
            },
        ),
{
    let values = match values {
        Some(values) => values,
        None => {
            return ScalarValue::NullList(DataType::Int64);
        },
    };
    let mut items: Vec<ScalarValue> = Vec::new();
    let mut i: usize = 0;
    while i < values.len()
        invariant
            i <= values@.len(),
            items@.len() == i,
            forall|j: int| 0 <= j < i ==> (#[trigger] items@[j])@ == ScalarV::Int64(values@[j]),
        decreases values@.len() - i,
    {
        items.push(ScalarValue::Int64(values[i]));
        i += 1;
    }
    assert(scalar::scalars_view(items@) == values@.map_values(
        |v: Option<i64>| ScalarV::Int64(v),
    ));
    make_list(items, DataType::Int64)
}

/// A list of optional texts.
pub open spec fn list_of_strings_scalar(values: Option<Seq<Option<Seq<char>>>>) -> ScalarV {
    match values {
        Some(values) => ScalarV::List(
            values.map_values(|v: Option<Seq<char>>| ScalarV::Utf8(v)),
            DataTypeV::Utf8,
        ),
        None => ScalarV::NullList(DataTypeV::Utf8),
    }
}

fn list_of_strings(values: Option<Vec<Option<String>>>) -> (r: ScalarValue)
    ensures
        r@ == list_of_strings_scalar(
            match values {
                Some(v) => Some(wire::opt_texts(v@)),
                None => None,
            },
        ),
{
    let values = match values {
        Some(values) => values,
        None => {
            return ScalarValue::NullList(DataType::Utf8);
        },
    };
    let mut items: Vec<ScalarValue> = Vec::new();
    for value in it: values
        invariant
            it.seq() == values@,
            items@.len() == it.index(),
            forall|j: int|
                0 <= j < items@.len() ==> (#[trigger] items@[j])@ == ScalarV::Utf8(
                    schema::opt_text(values@[j]),
                ),
    {
        items.push(ScalarValue::Utf8(value));
    }
    assert(scalar::scalars_view(items@) == wire::opt_texts(values@).map_values(
        |v: Option<Seq<char>>| ScalarV::Utf8(v),
    ));
    make_list(items, DataType::Utf8)
}

/// The value of an array of booleans, integers or texts.
pub open spec fn plain_array_value(b: Builtin, p: BoundV) -> Result<ScalarV, ErrorV> {
    match b {
        Builtin::BOOL_ARRAY => match wire::or_null(p.raw, wire::wire_bools_value(1000, p.binary, p.raw)) {
            Some(v) => Ok(list_of_bools_scalar(v)),
            None => Err(ErrorV::Wire),
        },
        Builtin::INT2_ARRAY => match wire::or_null(p.raw, wire::wire_i16s_value(1005, p.binary, p.raw)) {
            Some(v) => Ok(list_of_i16s_scalar(v)),
            None => Err(ErrorV::Wire),
        },
        Builtin::INT4_ARRAY => match wire::or_null(p.raw, wire::wire_i32s_value(1007, p.binary, p.raw)) {
            Some(v) => Ok(list_of_i32s_scalar(v)),
            None => Err(ErrorV::Wire),
        },
        Builtin::INT8_ARRAY => match wire::or_null(p.raw, wire::wire_i64s_value(1016, p.binary, p.raw)) {
            Some(v) => Ok(list_of_i64s_scalar(v)),
            None => Err(ErrorV::Wire),
        },
        _ => match wire::or_null(p.raw, wire::wire_strings_value(b.spec_oid(), p.binary, p.raw)) {
            Some(v) => Ok(list_of_strings_scalar(v)),
            None => Err(ErrorV::Wire),
        },
    }
}

fn plain_array_parameter(b: Builtin, p: &Bound) -> (r: Result<ScalarValue, Error>)
    requires
        b is BOOL_ARRAY || b is INT2_ARRAY || b is INT4_ARRAY || b is INT8_ARRAY || b is TEXT_ARRAY
            || b is VARCHAR_ARRAY,
    ensures
        coerce::scalar_result(r) == plain_array_value(b, p@),
{
    match b {
        Builtin::BOOL_ARRAY => match wire::wire_bools(1000, p.binary, p.raw) {
            Ok(v) => Ok(list_of_bools(v)),
            Err(e) => Err(Error::Wire(e)),
        },
        Builtin::INT2_ARRAY => match wire::wire_i16s(1005, p.binary, p.raw) {
            Ok(v) => Ok(list_of_i16s(v)),
            Err(e) => Err(Error::Wire(e)),
        },
        Builtin::INT4_ARRAY => match wire::wire_i32s(1007, p.binary, p.raw) {
            Ok(v) => Ok(list_of_i32s(v)),
            Err(e) => Err(Error::Wire(e)),
        },
        Builtin::INT8_ARRAY => match wire::wire_i64s(1016, p.binary, p.raw) {
            Ok(v) => Ok(list_of_i64s(v)),
            Err(e) => Err(Error::Wire(e)),
        },
        _ => match wire::wire_strings(b.oid(), p.binary, p.raw) {
            Ok(v) => Ok(list_of_strings(v)),
            Err(e) => Err(Error::Wire(e)),
        },
    }
}

/// The value of a `float4[]` or `float8[]`.
pub open spec fn float_array_value(b: Builtin, p: BoundV) -> Result<ScalarV, ErrorV> {
    match (p.raw, p.decoded) {
        (None, _) => Ok(
            ScalarV::NullList(
                if b is FLOAT4_ARRAY {
                    DataTypeV::Float32
                } else {
                    DataTypeV::Float64
                },
            ),
        ),
        (Some(_), Some(DecodedV::Floats(values))) => Ok(
            if b is FLOAT4_ARRAY {
                ScalarV::List(
                    values.map_values(
                        |v: Option<FloatValue>| ScalarV::Float32(coerce::single_bits(v)),
                    ),
                    DataTypeV::Float32,
                )
            } else {
                ScalarV::List(
                    values.map_values(
                        |v: Option<FloatValue>| ScalarV::Float64(coerce::double_bits(v)),
                    ),
                    DataTypeV::Float64,
                )
            },
        ),
        _ => Err(ErrorV::Malformed(Malformed::Undecoded)),
    }
}

fn float_array_parameter(b: Builtin, p: &Bound) -> (r: Result<ScalarValue, Error>)
    ensures
        coerce::scalar_result(r) == float_array_value(b, p@),
{
    let single = match b {
        Builtin::FLOAT4_ARRAY => true,
        _ => false,
    };
    if p.raw.is_none() {
        return Ok(
            ScalarValue::NullList(
                if single {
                    DataType::Float32
                } else {
                    DataType::Float64
                },
            ),
        );
    }
    let values = match p.decoded {
        Some(Decoded::Floats(values)) => values,
        _ => {
            return Err(Error::Malformed(Malformed::Undecoded));
        },
    };
    let mut items: Vec<ScalarValue> = Vec::new();
    let mut i: usize = 0;
    while i < values.len()
        invariant
            i <= values@.len(),
            items@.len() == i,
            forall|j: int|
                0 <= j < i ==> (#[trigger] items@[j])@ == (if single {
                    ScalarV::Float32(coerce::single_bits(values@[j]))
                } else {
                    ScalarV::Float64(coerce::double_bits(values@[j]))
                }),
        decreases values@.len() - i,
    {
        let value = values[i];
        if single {
            items.push(
                ScalarValue::Float32(
                    match value {
                        Some(f) => Some(f.single_bits),
                        None => None,
                    },
                ),
            );
        } else {
            items.push(
                ScalarValue::Float64(
                    match value {
                        Some(f) => Some(f.bits),
                        None => None,
                    },
                ),
            );
        }
        i += 1;
    }
    if single {
        assert(scalar::scalars_view(items@) == values@.map_values(
            |v: Option<FloatValue>| ScalarV::Float32(coerce::single_bits(v)),
        ));
        Ok(make_list(items, DataType::Float32))
    } else {
        assert(scalar::scalars_view(items@) == values@.map_values(
            |v: Option<FloatValue>| ScalarV::Float64(coerce::double_bits(v)),
        ));
        Ok(make_list(items, DataType::Float64))
    }
}

/// The value of a `timestamp`.
pub open spec fn timestamp_param(p: BoundV, inferred: Option<DataTypeV>) -> Result<
    ScalarV,
    ErrorV,
> {
    match wire::timestamp_of(p.binary, p.raw) {
        Some(v) => match inferred {
            Some(target) => coerce::timestamp_value(v, target),
            None => Ok(
                ScalarV::TimestampMicrosecond(
                    coerce::opt_since_epoch(v, TimeUnit::Microsecond),
                    None,
                ),
            ),
        },
        None => Err(ErrorV::Wire),
    }
}

fn timestamp_parameter(p: &Bound, inferred: Option<&DataType>) -> (r: Result<ScalarValue, Error>)
    ensures
        coerce::scalar_result(r) == timestamp_param(p@, schema::opt_type(inferred)),
{
    match wire::wire_timestamp(1114, p.binary, p.raw) {
        Ok(v) => match inferred {
            Some(target) => coerce::coerce_timestamp_value(v, target),
            None => coerce::coerce_timestamp_value(
                v,
                &DataType::Timestamp(TimeUnit::Microsecond, None),
            ),
        },
        Err(e) => Err(Error::Wire(e)),
    }
}

/// The value of a `timestamptz`.
pub open spec fn timestamptz_param(p: BoundV, inferred: Option<DataTypeV>) -> Result<
    ScalarV,
    ErrorV,
> {
    match wire::timestamptz_of(p.binary, p.raw) {
        Some(v) => match inferred {
            Some(target) => coerce::timestamptz_value(v, target),
            None => Ok(
                ScalarV::TimestampMicrosecond(
                    coerce::opt_since_epoch(v, TimeUnit::Microsecond),
                    None,
                ),
            ),
        },
        None => Err(ErrorV::Wire),
    }
}

fn timestamptz_parameter(p: &Bound, inferred: Option<&DataType>) -> (r: Result<ScalarValue, Error>)
    ensures
        coerce::scalar_result(r) == timestamptz_param(p@, schema::opt_type(inferred)),
{
    match wire::wire_timestamptz(1184, p.binary, p.raw) {
        Ok(v) => match inferred {
            Some(target) => coerce::coerce_timestamptz_value(v, target),
            None => coerce::coerce_timestamptz_value(
                v,
                &DataType::Timestamp(TimeUnit::Microsecond, None),
            ),
        },
        Err(e) => Err(Error::Wire(e)),
    }
}

/// The nanoseconds since midnight of a time of day.
pub open spec fn nanos_of_day(t: TimeOfDay) -> int {
    t.seconds * 1_000_000_000 + t.nanos
}

/// The value that a time of day becomes. Without a time type it is in
/// nanoseconds.
pub open spec fn time_scalar(t: Option<TimeOfDay>, inferred: Option<DataTypeV>) -> ScalarV {
    match inferred {
        Some(DataTypeV::Time64(TimeUnit::Microsecond)) => ScalarV::Time64Microsecond(
            match t {
                Some(t) => Some((nanos_of_day(t) / 1_000) as i64),
                None => None,
            },
        ),
        Some(DataTypeV::Time32(TimeUnit::Millisecond)) => ScalarV::Time32Millisecond(
            match t {
                Some(t) => Some((nanos_of_day(t) / 1_000_000) as i32),
                None => None,
            },
        ),
        Some(DataTypeV::Time32(TimeUnit::Second)) => ScalarV::Time32Second(
            match t {
                Some(t) => Some((nanos_of_day(t) / 1_000_000_000) as i32),
                None => None,
            },
        ),
        _ => ScalarV::Time64Nanosecond(
            match t {
                Some(t) => Some(nanos_of_day(t) as i64),
                None => None,
            },
        ),
    }
}

/// Turns a time of day into a value of the inferred type.
pub fn coerce_time_value(t: Option<TimeOfDay>, inferred: Option<&DataType>) -> (r: ScalarValue)
    requires
        t matches Some(t) ==> t.valid(),
    ensures
        r@ == time_scalar(t, schema::opt_type(inferred)),
{
    let ns: Option<i64> = match t {
        Some(t) => Some(t.seconds as i64 * 1_000_000_000 + t.nanos as i64),
        None => None,
    };
    match inferred {
        Some(DataType::Time64(TimeUnit::Microsecond)) => ScalarValue::Time64Microsecond(
            match ns {
                Some(ns) => Some(ns / 1_000),
                None => None,
            },
        ),
        Some(DataType::Time32(TimeUnit::Millisecond)) => ScalarValue::Time32Millisecond(
            match ns {
                Some(ns) => Some((ns / 1_000_000) as i32),
                None => None,
            },
        ),
        Some(DataType::Time32(TimeUnit::Second)) => ScalarValue::Time32Second(
            match ns {
                Some(ns) => Some((ns / 1_000_000_000) as i32),
                None => None,
            },
        ),
        _ => ScalarValue::Time64Nanosecond(ns),
    }
}

/// The interval that a parameter holds.
pub open spec fn interval_of(p: BoundV) -> Result<Option<Interval>, ErrorV> {
    match p.raw {
        None => Ok(None),
        Some(b) => if p.binary {
            if b.len() >= 16 {
                Ok(Some(wire::interval_of(b)))
            } else {
                Err(ErrorV::Malformed(Malformed::IntervalTooShort))
            }
        } else if wire::is_plain_interval_text(b) {
            wired(wire::wire_interval_value(1186, false, p.raw))
        } else {
            match p.decoded {
                Some(DecodedV::Interval(i)) => Ok(Some(i)),
                _ => Err(ErrorV::Malformed(Malformed::Undecoded)),
            }
        },
    }
}

/// The value of an `interval`.
pub open spec fn interval_param(p: BoundV, inferred: Option<DataTypeV>) -> Result<
    ScalarV,
    ErrorV,
> {
    let target = match inferred {
        Some(target) => target,
        None => DataTypeV::Interval(IntervalUnit::MonthDayNano),
    };
    match interval_of(p) {
        Ok(v) => if coerce::takes_nanos(target) && coerce::nanos_overflow(v) {
            Err(ErrorV::Overflow { target })
        } else {
            coerce::interval_value(v, target)
        },
        Err(e) => Err(e),
    }
}

fn decode_interval(p: &Bound) -> (r: Result<Option<Interval>, Error>)
    ensures
        match r {
            Ok(v) => interval_of(p@) == Ok::<Option<Interval>, ErrorV>(v),
            Err(e) => interval_of(p@) == Err::<Option<Interval>, ErrorV>(e@),
        },
{
    let b = match p.raw {
        Some(b) => b,
        None => {
            return Ok(None);
        },
    };
    if p.binary {
        if b.len() < 16 {
            return Err(Error::Malformed(Malformed::IntervalTooShort));
        }
        match wire::wire_interval(1186, true, p.raw) {
            Ok(v) => Ok(v),
            Err(e) => Err(Error::Wire(e)),
        }
    } else if wire::plain_interval_text(b.as_slice()) {
        match wire::wire_interval(1186, false, p.raw) {
            Ok(v) => Ok(v),
            Err(e) => Err(Error::Wire(e)),
        }
    } else {
        match p.decoded {
            Some(Decoded::Interval(i)) => Ok(Some(*i)),
            _ => Err(Error::Malformed(Malformed::Undecoded)),
        }
    }
}

fn nanos_fit(value: Option<Interval>) -> (r: bool)
    ensures
        r == !coerce::nanos_overflow(value),
{
    match value {
        Some(i) => i.microseconds.checked_mul(1_000).is_some(),
        None => true,
    }
}

fn coerce_interval(value: Option<Interval>, target: &DataType) -> (r: Result<ScalarValue, Error>)
    ensures
        coerce::scalar_result(r) == (if coerce::takes_nanos(target@) && coerce::nanos_overflow(
            value,
        ) {
            Err(ErrorV::Overflow { target: target@ })
        } else {
            coerce::interval_value(value, target@)
        }),
{
    let nanos = match target {
        DataType::Interval(IntervalUnit::MonthDayNano) | DataType::Duration(_) => true,
        _ => false,
    };
    if nanos && !nanos_fit(value) {
        Err(Error::Overflow { target: target.copy() })
    } else {
        coerce::coerce_interval_value(value, target)
    }
}

fn interval_parameter(p: &Bound, inferred: Option<&DataType>) -> (r: Result<ScalarValue, Error>)
    ensures
        coerce::scalar_result(r) == interval_param(p@, schema::opt_type(inferred)),
{
    match decode_interval(p) {
        Ok(v) => match inferred {
            Some(target) => coerce_interval(v, target),
            None => coerce_interval(v, &DataType::Interval(IntervalUnit::MonthDayNano)),
        },
        Err(e) => Err(e),
    }
}

/// The intervals that an array parameter holds.
pub open spec fn intervals_of(p: BoundV) -> Result<Option<Seq<Option<Interval>>>, ErrorV> {
    match p.raw {
        None => Ok(None),
        Some(b) => if p.binary {
            if wire::long_elements(b) {
                wired(wire::wire_intervals_value(1187, true, p.raw))
            } else {
                Err(ErrorV::Malformed(Malformed::IntervalTooShort))
            }
        } else if wire::is_plain_interval_text(b) {
            wired(wire::wire_intervals_value(1187, false, p.raw))
        } else {
            match p.decoded {
                Some(DecodedV::Intervals(v)) => Ok(Some(v)),
                _ => Err(ErrorV::Malformed(Malformed::Undecoded)),
            }
        },
    }
}

/// True when the nanoseconds of one of the intervals do not fit 64 bits.
pub open spec fn any_overflow(values: Seq<Option<Interval>>) -> bool {
    exists|i: int| 0 <= i < values.len() && coerce::nanos_overflow(#[trigger] values[i])
}

/// The value of an `interval[]`.
pub open spec fn interval_array_value(p: BoundV) -> Result<ScalarV, ErrorV> {
    let item = DataTypeV::Interval(IntervalUnit::MonthDayNano);
    match intervals_of(p) {
        Ok(Some(values)) => if any_overflow(values) {
            Err(ErrorV::Overflow { target: item })
        } else {
            Ok(
                ScalarV::List(
                    values.map_values(|v: Option<Interval>| coerce::month_day_nano(v)),
                    item,
                ),
            )
        },
        Ok(None) => Ok(ScalarV::NullList(item)),
        Err(e) => Err(e),
    }
}

fn list_of_intervals(values: &Vec<Option<Interval>>) -> (r: Result<ScalarValue, Error>)
    ensures
        coerce::scalar_result(r) == (if any_overflow(values@) {
            Err(ErrorV::Overflow { target: DataTypeV::Interval(IntervalUnit::MonthDayNano) })
        } else {
            Ok(
                ScalarV::List(
                    values@.map_values(|v: Option<Interval>| coerce::month_day_nano(v)),
                    DataTypeV::Interval(IntervalUnit::MonthDayNano),
                ),
            )
        }),
{
    let mut items: Vec<ScalarValue> = Vec::new();
    let mut i: usize = 0;
    while i < values.len()
        invariant
            i <= values@.len(),
            items@.len() == i,
            forall|j: int|
                0 <= j < i ==> !coerce::nanos_overflow(#[trigger] values@[j]) && items@[j]@
                    == coerce::month_day_nano(values@[j]),
        decreases values@.len() - i,
    {
        let value = values[i];
        let target = DataType::Interval(IntervalUnit::MonthDayNano);
        if !nanos_fit(value) {
            assert(coerce::nanos_overflow(values@[i as int]));
            return Err(Error::Overflow { target });
        }
        match coerce::coerce_interval_value(value, &target) {
            Ok(item) => items.push(item),
            Err(e) => {
                return Err(e);
            },
        }
        i += 1;
    }
    assert(scalar::scalars_view(items@) == values@.map_values(
        |v: Option<Interval>| coerce::month_day_nano(v),
    ));
    Ok(make_list(items, DataType::Interval(IntervalUnit::MonthDayNano)))
}

fn interval_array_parameter(p: &Bound) -> (r: Result<ScalarValue, Error>)
    ensures
        coerce::scalar_result(r) == interval_array_value(p@),
{
    let b = match p.raw {
        Some(b) => b,
        None => {
            return Ok(ScalarValue::NullList(DataType::Interval(IntervalUnit::MonthDayNano)));
        },
    };
    if p.binary {
        if !elements_are_long(b.as_slice()) {
            return Err(Error::Malformed(Malformed::IntervalTooShort));
        }
        match wire::wire_intervals(1187, true, p.raw) {
            Ok(Some(values)) => list_of_intervals(&values),
            Ok(None) => Ok(ScalarValue::NullList(DataType::Interval(IntervalUnit::MonthDayNano))),
            Err(e) => Err(Error::Wire(e)),
        }
    } else if wire::plain_interval_text(b.as_slice()) {
        match wire::wire_intervals(1187, false, p.raw) {
            Ok(Some(values)) => list_of_intervals(&values),
            Ok(None) => Ok(ScalarValue::NullList(DataType::Interval(IntervalUnit::MonthDayNano))),
            Err(e) => Err(Error::Wire(e)),
        }
    } else {
        match p.decoded {
            Some(Decoded::Intervals(values)) => list_of_intervals(values),
            _ => Err(Error::Malformed(Malformed::Undecoded)),
        }
    }
}

/// True of an element that the decoding crate can decode: an interval that has all
/// its bytes, or a numeric that is not too large.
pub open spec fn decodable(numeric: bool, e: Seq<u8>) -> bool {
    if numeric {
        !wire::numeric_too_large(e)
    } else {
        e.len() >= 16
    }
}

/// True when all elements of an array can be decoded.
pub open spec fn all_decodable(numeric: bool, elements: Seq<Seq<u8>>) -> bool {
    forall|i: int| 0 <= i < elements.len() ==> decodable(numeric, #[trigger] elements[i])
}

/// Checks the elements of an array in binary form.
fn elements_are_decodable(numeric: bool, b: &[u8]) -> (r: bool)
    ensures
        r == all_decodable(numeric, wire::array_elements(b@)),
{
    if b.len() < 12 {
        return true;
    }
    let dims: i64 = be_i32(b, 0) as i64;
    let start: i64 = 12 + 8 * dims;
    let len: usize = b.len();
    if start < 0 {
        return true;
    }
    if start as u64 > len as u64 {
        return true;
    }
    let mut at: usize = start as usize;
    let ghost all = wire::elements_from(b@.skip(at as int));
    while len - at >= 4
        invariant
            at <= len == b@.len(),
            all == wire::array_elements(b@),
            all_decodable(numeric, all) == all_decodable(
                numeric,
                wire::elements_from(b@.skip(at as int)),
            ),
        decreases len - at,
    {
        let ghost rest = b@.skip(at as int);
        let size: i32 = be_i32(b, at);
        proof {
            assert(rest.subrange(0, 4) == b@.subrange(at as int, at + 4));
        }
        if size < 0 {
            assert(rest.skip(4) == b@.skip(at + 4));
            at += 4;
        } else {
            if size as usize > len - at - 4 {
                assert(wire::elements_from(rest) == Seq::<Seq<u8>>::empty());
                return true;
            }
            let size: usize = size as usize;
            let element = vstd::slice::slice_subrange(b, at + 4, at + 4 + size);
            let ok = if numeric {
                !is_numeric_too_large(element)
            } else {
                size >= 16
            };
            proof {
                assert(rest.subrange(4, 4 + size) == element@);
                assert(rest.skip(4 + size) == b@.skip(at + 4 + size));
                let tail = wire::elements_from(rest.skip(4 + size));
                assert(wire::elements_from(rest) == seq![element@] + tail);
                assert(ok == decodable(numeric, element@));
                lemma_all_decodable(numeric, element@, tail);
            }
            if !ok {
                return false;
            }
            at = at + 4 + size;
        }
    }
    assert(wire::elements_from(b@.skip(at as int)) == Seq::<Seq<u8>>::empty());
    true
}

proof fn lemma_all_decodable(numeric: bool, first: Seq<u8>, tail: Seq<Seq<u8>>)
    ensures
        all_decodable(numeric, seq![first] + tail) == (decodable(numeric, first) && all_decodable(
            numeric,
            tail,
        )),
{
    let all = seq![first] + tail;
    if all_decodable(numeric, all) {
        assert(all[0] == first);
        assert forall|i: int| 0 <= i < tail.len() implies decodable(
            numeric,
            #[trigger] tail[i],
        ) by {
            assert(all[i + 1] == tail[i]);
        }
    }
    if decodable(numeric, first) && all_decodable(numeric, tail) {
        assert forall|i: int| 0 <= i < all.len() implies decodable(numeric, #[trigger] all[i]) by {
            if i > 0 {
                assert(all[i] == tail[i - 1]);
            }
        }
    }
}

fn elements_are_long(b: &[u8]) -> (r: bool)
    ensures
        r == wire::long_elements(b@),
{
    let r = elements_are_decodable(false, b);
    proof {
        let elements = wire::array_elements(b@);
        if r {
            assert forall|i: int| 0 <= i < elements.len() implies (#[trigger] elements[i]).len()
                >= 16 by {
                assert(decodable(false, elements[i]));
            }
        } else {
            let i = choose|i: int|
                0 <= i < elements.len() && !decodable(false, #[trigger] elements[i]);
            assert(elements[i].len() < 16);
        }
    }
    r
}

fn elements_are_small(b: &[u8]) -> (r: bool)
    ensures
        r == wire::small_elements(b@),
{
    let r = elements_are_decodable(true, b);
    proof {
        let elements = wire::array_elements(b@);
        if r {
            assert forall|i: int| 0 <= i < elements.len() implies !wire::numeric_too_large(
                #[trigger] elements[i],
            ) by {
                assert(decodable(true, elements[i]));
            }
        } else {
            let i = choose|i: int|
                0 <= i < elements.len() && !decodable(true, #[trigger] elements[i]);
            assert(wire::numeric_too_large(elements[i]));
        }
    }
    r
}

/// An item of a list of decimals. Items of a type that a decimal does not become
/// are whole numbers, and without an item type each has its own precision.
pub open spec fn decimal_item(v: Option<Decimal>, item: Option<DataTypeV>) -> ScalarV {
    match item {
        Some(t) => if t is Decimal128 || t is UInt64 || t is Float64 || t is Float32 {
            decimal_scalar(v, t)->0
        } else {
            ScalarV::Decimal128(decimal_rescaled(v, 0), 38, 0)
        },
        None => own_decimal(v),
    }
}

/// The item type of a list of decimals.
pub open spec fn decimal_item_type(item: Option<DataTypeV>) -> DataTypeV {
    match item {
        Some(t) => t,
        None => DataTypeV::Decimal128(38, 0),
    }
}

/// The item type of an inferred list type.
pub open spec fn inferred_item(inferred: Option<DataTypeV>) -> Option<DataTypeV> {
    match inferred {
        Some(DataTypeV::List(field)) => Some(field.data_type),
        _ => None,
    }
}

/// The value of a `numeric[]`.
pub open spec fn numeric_array_value(p: BoundV, inferred: Option<DataTypeV>) -> Result<
    ScalarV,
    ErrorV,
> {
    if p.binary && (p.raw matches Some(b) && !wire::small_elements(b)) {
        Err(ErrorV::Malformed(Malformed::NumericTooLarge))
    } else {
        match wire::or_null(p.raw, wire::wire_decimals_value(1231, p.binary, p.raw)) {
            Some(Some(values)) => Ok(
                ScalarV::List(
                    values.map_values(
                        |v: Option<Decimal>| decimal_item(v, inferred_item(inferred)),
                    ),
                    decimal_item_type(inferred_item(inferred)),
                ),
            ),
            Some(None) => Ok(ScalarV::NullList(DataTypeV::Decimal128(38, 0))),
            None => Err(ErrorV::Wire),
        }
    }
}

fn make_decimal_item(v: Option<Decimal>, item: Option<&DataType>) -> (r: ScalarValue)
    requires
        valid_decimal(v),
    ensures
        r@ == decimal_item(v, schema::opt_type(item)),
{
    let target = match item {
        Some(target) => target,
        None => {
            return own_precision(v);
        },
    };
    let direct = match target {
        DataType::Decimal128(_, _) | DataType::UInt64 | DataType::Float64 | DataType::Float32 => true,
        _ => false,
    };
    if direct {
        if let Some(value) = coerce_decimal_value(v, target) {
            return value;
        }
    }
    let scaled = match v {
        Some(d) => Some(wire::rescale(d, 0)),
        None => None,
    };
    ScalarValue::Decimal128(scaled, 38, 0)
}

fn numeric_array_parameter(p: &Bound, inferred: Option<&DataType>) -> (r: Result<
    ScalarValue,
    Error,
>)
    ensures
        coerce::scalar_result(r) == numeric_array_value(p@, schema::opt_type(inferred)),
{
    if p.binary {
        if let Some(b) = p.raw {
            if !elements_are_small(b.as_slice()) {
                return Err(Error::Malformed(Malformed::NumericTooLarge));
            }
        }
    }
    let values = match wire::wire_decimals(1231, p.binary, p.raw) {
        Ok(Some(values)) => values,
        Ok(None) => {
            return Ok(ScalarValue::NullList(DataType::Decimal128(38, 0)));
        },
        Err(e) => {
            return Err(Error::Wire(e));
        },
    };
    let item: Option<&DataType> = match inferred {
        Some(DataType::List(field)) => Some(&field.data_type),
        _ => None,
    };
    proof {
        if let Some(DataType::List(field)) = inferred {
            assert(inferred->0@ == DataTypeV::List(Box::new(field@)));
            assert(field@.data_type == field.data_type@);
        }
        assert(schema::opt_type(item) == inferred_item(schema::opt_type(inferred)));
    }
    let mut items: Vec<ScalarValue> = Vec::new();
    let mut i: usize = 0;
    while i < values.len()
        invariant
            i <= values@.len(),
            items@.len() == i,
            forall|j: int|
                0 <= j < values@.len() ==> ((#[trigger] values@[j]) matches Some(d) ==> d.valid()),
            forall|j: int|
                0 <= j < i ==> (#[trigger] items@[j])@ == decimal_item(
                    values@[j],
                    schema::opt_type(item),
                ),
        decreases values@.len() - i,
    {
        let value = values[i];
        assert(valid_decimal(values@[i as int]));
        items.push(make_decimal_item(value, item));
        i += 1;
    }
    assert(scalar::scalars_view(items@) == values@.map_values(
        |v: Option<Decimal>| decimal_item(v, inferred_item(schema::opt_type(inferred))),
    ));
    let item_type = match item {
        Some(t) => t.copy(),
        None => DataType::Decimal128(38, 0),
    };
    Ok(make_list(items, item_type))
}

/// The 64-bit number that a text is.
pub open spec fn i64_text(s: Seq<char>) -> Option<i64> {
    match text::int_text(s) {
        Some(n) if i64::MIN <= n <= i64::MAX => Some(n as i64),
        _ => None,
    }
}

proof fn lemma_digits_value_prefix(s: Seq<char>, i: int)
    requires
        0 <= i <= s.len(),
        forall|j: int| 0 <= j < s.len() ==> '0' <= #[trigger] s[j] <= '9',
    ensures
        0 <= text::digits_value(s.take(i)) <= text::digits_value(s),
    decreases s.len(),
{
    if s.len() == 0 {
        assert(s.take(i) == s);
    } else if i == s.len() {
        assert(s.take(i) == s);
        lemma_digits_value_prefix(s.drop_last(), s.len() - 1);
        assert(s.drop_last().take(s.len() - 1) == s.drop_last());
    } else {
        lemma_digits_value_prefix(s.drop_last(), i);
        assert(s.drop_last().take(i) == s.take(i));
    }
}

/// The value of the digits `v[from..]`, or nothing where it is over the limit.
fn parse_digits(v: &Vec<char>, from: usize) -> (r: Option<u64>)
    requires
        from <= v@.len(),
        forall|j: int| 0 <= j < v@.len() - from ==> '0' <= #[trigger] v@.skip(from as int)[j] <= '9',
    ensures
        match r {
            Some(n) => n == text::digits_value(v@.skip(from as int)) && n <= 9_223_372_036_854_775_808,
            None => text::digits_value(v@.skip(from as int)) > 9_223_372_036_854_775_808,
        },
{
    let ghost s = v@.skip(from as int);
    let mut n: u128 = 0;
    let mut i: usize = from;
    assert(s.take(0) == Seq::<char>::empty());
    while i < v.len()
        invariant
            from <= i <= v@.len(),
            s == v@.skip(from as int),
            forall|j: int| 0 <= j < s.len() ==> '0' <= #[trigger] s[j] <= '9',
            n == text::digits_value(s.take(i - from)),
            n <= 9_223_372_036_854_775_808,
        decreases v@.len() - i,
    {
        let c = v[i];
        proof {
            assert(s[i - from] == c);
            assert(s.take(i - from + 1).drop_last() == s.take(i - from));
        }
        n = n * 10 + (c as u32 - '0' as u32) as u128;
        i += 1;
        if n > 9_223_372_036_854_775_808 {
            proof {
                lemma_digits_value_prefix(s, i - from);
            }
            return None;
        }
    }
    assert(s.take(s.len() as int) == s);
    Some(n as u64)
}

/// The 64-bit number that a text is.
pub fn parse_i64(s: &str) -> (r: Option<i64>)
    ensures
        r == i64_text(s@),
{
    let v = text::chars_of(s);
    if v.len() == 0 {
        return None;
    }
    let signed = v[0] == '-' || v[0] == '+';
    let from: usize = if signed {
        1
    } else {
        0
    };
    let number = text::text_of(&v, from, v.len());
    proof {
        assert(v@.subrange(from as int, v@.len() as int) == v@.skip(from as int));
        assert(v@.skip(0) == v@);
    }
    if !text::digits(number.as_str()) {
        return None;
    }
    match parse_digits(&v, from) {
        Some(n) => if v[0] == '-' {
            if n == 9_223_372_036_854_775_808 {
                Some(i64::MIN)
            } else {
                Some(-(n as i64))
            }
        } else if n <= 9_223_372_036_854_775_807 {
            Some(n as i64)
        } else {
            None
        },
        None => None,
    }
}

/// The oid that a parameter holds. In text form it may be any 64-bit number, of
/// which the low 32 bits are kept.
pub open spec fn oid_of(p: BoundV) -> Result<Option<i32>, ErrorV> {
    match p.raw {
        None => Ok(None),
        Some(b) => if p.binary {
            if b.len() == 4 {
                Ok(Some(wire::be_signed(b) as i32))
            } else {
                Err(ErrorV::Malformed(Malformed::OidLength))
            }
        } else if !vstd::utf8::valid_utf8(b) {
            Err(ErrorV::Malformed(Malformed::NotUtf8))
        } else {
            match i64_text(text::trimmed(vstd::utf8::decode_utf8(b))) {
                Some(n) => Ok(Some(n as i32)),
                None => Err(ErrorV::Malformed(Malformed::OidText)),
            }
        },
    }
}

fn decode_oid(p: &Bound) -> (r: Result<Option<i32>, Error>)
    ensures
        match r {
            Ok(v) => oid_of(p@) == Ok::<Option<i32>, ErrorV>(v),
            Err(e) => oid_of(p@) == Err::<Option<i32>, ErrorV>(e@),
        },
{
    let b = match p.raw {
        Some(b) => b,
        None => {
            return Ok(None);
        },
    };
    if p.binary {
        if b.len() != 4 {
            return Err(Error::Malformed(Malformed::OidLength));
        }
        assert(b@.subrange(0, 4) == b@);
        return Ok(Some(be_i32(b.as_slice(), 0)));
    }
    let s = match wire::text_from_utf8(b) {
        Some(s) => s,
        None => {
            return Err(Error::Malformed(Malformed::NotUtf8));
        },
    };
    let trimmed = text::trim(s.as_str());
    match parse_i64(trimmed.as_str()) {
        Some(n) => Ok(Some(n as i32)),
        None => Err(Error::Malformed(Malformed::OidText)),
    }
}

/// The value of an `oid`.
pub open spec fn oid_value(p: BoundV, inferred: Option<DataTypeV>) -> Result<ScalarV, ErrorV> {
    match oid_of(p) {
        Ok(v) => match inferred {
            Some(DataTypeV::Int32) => Ok(ScalarV::Int32(v)),
            _ => int_param(widened32(v), ScalarV::Int32(v), inferred),
        },
        Err(e) => Err(e),
    }
}

fn oid_parameter(p: &Bound, inferred: Option<&DataType>) -> (r: Result<ScalarValue, Error>)
    ensures
        coerce::scalar_result(r) == oid_value(p@, schema::opt_type(inferred)),
{
    let v = match decode_oid(p) {
        Ok(v) => v,
        Err(e) => {
            return Err(e);
        },
    };
    if let Some(DataType::Int32) = inferred {
        return Ok(ScalarValue::Int32(v));
    }
    let wide = match v {
        Some(n) => Some(n as i64),
        None => None,
    };
    int_parameter(wide, ScalarValue::Int32(v), inferred)
}

/// A `vector` of pgvector: the bits of its single-precision elements.
#[derive(Debug, PartialEq, Eq)]
pub struct VectorParam(pub Vec<u32>);

/// The elements of a vector in binary form: a dimension of two bytes, two bytes
/// that are zero, and four bytes for each element, all with the highest byte
/// first.
pub open spec fn vector_binary(b: Seq<u8>) -> Result<Seq<u32>, Malformed> {
    if b.len() < 4 {
        Err(Malformed::VectorTooShort)
    } else {
        let dim = wire::be_unsigned(b.subrange(0, 2));
        if wire::be_unsigned(b.subrange(2, 4)) != 0 {
            Err(Malformed::VectorUnusedWord)
        } else if dim == 0 {
            Err(Malformed::VectorEmpty)
        } else if b.len() != 4 + dim * 4 {
            Err(Malformed::VectorLength)
        } else {
            Ok(
                Seq::new(
                    dim as nat,
                    |i: int| wire::be_unsigned(b.subrange(4 + i * 4, 8 + i * 4)) as u32,
                ),
            )
        }
    }
}

/// The elements of a vector in text form, such as `[1,2,3]`, each trimmed.
pub open spec fn vector_text(s: Seq<char>) -> Result<Seq<Seq<char>>, Malformed> {
    let t = text::trimmed(s);
    if t.len() > 0 && t[0] == '[' && t.last() == ']' {
        let inner = text::trimmed(t.subrange(1, t.len() - 1));
        if inner.len() == 0 {
            Err(Malformed::VectorEmpty)
        } else {
            Ok(text::split_on(inner, ',').map_values(|p: Seq<char>| text::trimmed(p)))
        }
    } else {
        Err(Malformed::VectorText)
    }
}

/// The elements of a vector in text form, from its bytes.
pub open spec fn vector_bytes_text(b: Seq<u8>) -> Result<Seq<Seq<char>>, Malformed> {
    if vstd::utf8::valid_utf8(b) {
        vector_text(vstd::utf8::decode_utf8(b))
    } else {
        Err(Malformed::NotUtf8)
    }
}

/// The bits of the elements, where all of them are numbers.
pub open spec fn all_some(v: Seq<Option<u32>>) -> bool {
    forall|i: int| 0 <= i < v.len() ==> (#[trigger] v[i]) is Some
}

/// The vector that a parameter holds.
pub open spec fn vector_of(p: BoundV) -> Result<Option<Seq<u32>>, ErrorV> {
    match p.raw {
        None => Ok(None),
        Some(b) => if p.binary {
            match vector_binary(b) {
                Ok(v) => Ok(Some(v)),
                Err(m) => Err(ErrorV::Malformed(m)),
            }
        } else {
            match vector_bytes_text(b) {
                Ok(elements) => match p.decoded {
                    Some(DecodedV::Vector(v)) => if v.len() != elements.len() {
                        Err(ErrorV::Malformed(Malformed::Undecoded))
                    } else if all_some(v) {
                        Ok(Some(v.map_values(|o: Option<u32>| o->0)))
                    } else {
                        Err(ErrorV::Malformed(Malformed::VectorElement))
                    },
                    _ => Err(ErrorV::Malformed(Malformed::Undecoded)),
                },
                Err(m) => Err(ErrorV::Malformed(m)),
            }
        },
    }
}

impl VectorParam {
    /// Decodes a vector in binary form.
    pub fn from_binary(raw: &[u8]) -> (r: Result<VectorParam, Malformed>)
        ensures
            match r {
                Ok(v) => vector_binary(raw@) == Ok::<Seq<u32>, Malformed>(v.0@),
                Err(m) => vector_binary(raw@) == Err::<Seq<u32>, Malformed>(m),
            },
    {
        if raw.len() < 4 {
            return Err(Malformed::VectorTooShort);
        }
        let dim: usize = be_u16(raw, 0) as usize;
        let unused: u16 = be_u16(raw, 2);
        if unused != 0 {
            return Err(Malformed::VectorUnusedWord);
        }
        if dim == 0 {
            return Err(Malformed::VectorEmpty);
        }
        if raw.len() != 4 + dim * 4 {
            return Err(Malformed::VectorLength);
        }
        let mut values: Vec<u32> = Vec::new();
        let mut i: usize = 0;
        while i < dim
            invariant
                i <= dim <= 65535,
                raw@.len() == 4 + dim * 4,
                values@.len() == i,
                forall|j: int|
                    0 <= j < i ==> (#[trigger] values@[j]) == wire::be_unsigned(
                        raw@.subrange(4 + j * 4, 8 + j * 4),
                    ) as u32,
            decreases dim - i,
        {
            let at: usize = 4 + i * 4;
            assert(raw@.subrange(at as int, at + 4) == raw@.subrange(4 + i * 4, 8 + i * 4));
            values.push(be_u32(raw, at));
            i += 1;
        }
        assert(values@ == vector_binary(raw@)->Ok_0);
        Ok(VectorParam(values))
    }

    /// The texts of the elements of a vector in text form.
    pub fn from_text(raw: &Vec<u8>) -> (r: Result<Vec<String>, Malformed>)
        ensures
            match r {
                Ok(v) => vector_bytes_text(raw@) == Ok::<Seq<Seq<char>>, Malformed>(
                    text::views(v@),
                ),
                Err(m) => vector_bytes_text(raw@) == Err::<Seq<Seq<char>>, Malformed>(m),
            },
    {
        let s = match wire::text_from_utf8(raw) {
            Some(s) => s,
            None => {
                return Err(Malformed::NotUtf8);
            },
        };
        split_vector_text(s.as_str())
    }
}

/// The texts of the elements of a vector in text form, such as `[1,2,3]`.
pub fn split_vector_text(s: &str) -> (r: Result<Vec<String>, Malformed>)
    ensures
        match r {
            Ok(v) => vector_text(s@) == Ok::<Seq<Seq<char>>, Malformed>(text::views(v@)),
            Err(m) => vector_text(s@) == Err::<Seq<Seq<char>>, Malformed>(m),
        },
{
    let trimmed = text::trim(s);
    let v = text::chars_of(trimmed.as_str());
    if !(v.len() > 0 && v[0] == '[' && v[v.len() - 1] == ']') {
        return Err(Malformed::VectorText);
    }
    assert(v@.len() >= 2);
    let inside = text::text_of(&v, 1, v.len() - 1);
    let inner = text::trim(inside.as_str());
    if inner.as_str().is_empty() {
        return Err(Malformed::VectorEmpty);
    }
    let pieces = text::split(inner.as_str(), ',');
    let mut elements: Vec<String> = Vec::new();
    let mut i: usize = 0;
    while i < pieces.len()
        invariant
            i <= pieces@.len(),
            elements@.len() == i,
            forall|j: int| 0 <= j < i ==> (#[trigger] elements@[j])@ == text::trimmed(pieces@[j]@),
        decreases pieces@.len() - i,
    {
        elements.push(text::trim(pieces[i].as_str()));
        i += 1;
    }
    assert(text::views(elements@) == text::split_on(inner@, ',').map_values(
        |p: Seq<char>| text::trimmed(p),
    ));
    Ok(elements)
}

fn collect_bits(v: &Vec<Option<u32>>) -> (r: Option<Vec<u32>>)
    ensures
        match r {
            Some(bits) => all_some(v@) && bits@ == v@.map_values(|o: Option<u32>| o->0),
            None => !all_some(v@),
        },
{
    let mut bits: Vec<u32> = Vec::new();
    let mut i: usize = 0;
    while i < v.len()
        invariant
            i <= v@.len(),
            bits@.len() == i,
            forall|j: int| 0 <= j < i ==> (#[trigger] v@[j]) is Some && bits@[j] == v@[j]->0,
        decreases v@.len() - i,
    {
        match v[i] {
            Some(b) => bits.push(b),
            None => {
                assert(v@[i as int] is None);
                return None;
            },
        }
        i += 1;
    }
    assert(bits@ == v@.map_values(|o: Option<u32>| o->0));
    Some(bits)
}

fn decode_vector(p: &Bound) -> (r: Result<Option<VectorParam>, Error>)
    ensures
        match r {
            Ok(v) => vector_of(p@) == Ok::<Option<Seq<u32>>, ErrorV>(vector_bits(v)),
            Err(e) => vector_of(p@) == Err::<Option<Seq<u32>>, ErrorV>(e@),
        },
{
    let b = match p.raw {
        Some(b) => b,
        None => {
            return Ok(None);
        },
    };
    if p.binary {
        return match VectorParam::from_binary(b.as_slice()) {
            Ok(v) => Ok(Some(v)),
            Err(m) => Err(Error::Malformed(m)),
        };
    }
    let elements = match VectorParam::from_text(b) {
        Ok(elements) => elements,
        Err(m) => {
            return Err(Error::Malformed(m));
        },
    };
    match p.decoded {
        Some(Decoded::Vector(v)) => {
            assert(text::views(elements@).len() == elements@.len());
            if v.len() != elements.len() {
                return Err(Error::Malformed(Malformed::Undecoded));
            }
            match collect_bits(v) {
                Some(bits) => Ok(Some(VectorParam(bits))),
                None => Err(Error::Malformed(Malformed::VectorElement)),
            }
        },
        _ => Err(Error::Malformed(Malformed::Undecoded)),
    }
}

/// The model of an optional vector.
pub open spec fn vector_bits(v: Option<VectorParam>) -> Option<Seq<u32>> {
    match v {
        Some(v) => Some(v.0@),
        None => None,
    }
}

/// The dimension that an inferred type declares, or zero.
pub open spec fn declared_dimension(inferred: Option<DataTypeV>) -> i32 {
    match inferred {
        Some(DataTypeV::FixedSizeList(_, n)) => n,
        _ => 0,
    }
}

/// The value that a vector becomes. A null is a null list of the declared
/// dimension. Where a dimension is declared the vector has to have it; without
/// one it is a plain list.
pub open spec fn vector_scalar(value: Option<Seq<u32>>, inferred: Option<DataTypeV>) -> Result<
    ScalarV,
    ErrorV,
> {
    let n = declared_dimension(inferred);
    match value {
        None => Ok(
            ScalarV::FixedSizeList(schema::list_field(DataTypeV::Float32, true), n, None),
        ),
        Some(values) => if n == 0 {
            Ok(
                ScalarV::List(
                    values.map_values(|b: u32| ScalarV::Float32(Some(b))),
                    DataTypeV::Float32,
                ),
            )
        } else if values.len() != n as usize {
            Err(ErrorV::VectorDimension { expected: n as usize, actual: values.len() as usize })
        } else {
            Ok(ScalarV::FixedSizeList(*inferred->0->FixedSizeList_0, n, Some(values)))
        },
    }
}

/// Turns a vector into a value of the inferred type.
pub fn vector_param_to_scalar(value: Option<VectorParam>, inferred: Option<&DataType>) -> (r: Result<
    ScalarValue,
    Error,
>)
    ensures
        coerce::scalar_result(r) == vector_scalar(vector_bits(value), schema::opt_type(inferred)),
{
    let n: i32 = match inferred {
        Some(DataType::FixedSizeList(_, n)) => *n,
        _ => 0,
    };
    let values = match value {
        Some(VectorParam(values)) => values,
        None => {
            return Ok(
                ScalarValue::FixedSizeList(
                    Field::new_list_field(DataType::Float32, true),
                    n,
                    None,
                ),
            );
        },
    };
    if n != 0 {
        let expected: usize = n as usize;
        if values.len() != expected {
            return Err(Error::VectorDimension { expected, actual: values.len() });
        }
        if let Some(DataType::FixedSizeList(field, _)) = inferred {
            return Ok(ScalarValue::FixedSizeList(field.copy(), n, Some(values)));
        }
    }
    let mut items: Vec<ScalarValue> = Vec::new();
    let mut i: usize = 0;
    while i < values.len()
        invariant
            i <= values@.len(),
            items@.len() == i,
            forall|j: int| 0 <= j < i ==> (#[trigger] items@[j])@ == ScalarV::Float32(Some(values@[j])),
        decreases values@.len() - i,
    {
        items.push(ScalarValue::Float32(Some(values[i])));
        i += 1;
    }
    assert(scalar::scalars_view(items@) == values@.map_values(
        |b: u32| ScalarV::Float32(Some(b)),
    ));
    Ok(make_list(items, DataType::Float32))
}

/// The value of a parameter of an unknown type, which is taken for a text, or for
/// a list of texts where it is written in braces. A null has no value at all.
pub open spec fn unknown_scalar(v: Option<Seq<char>>) -> Option<ScalarV> {
    match v {
        Some(s) => Some(
            if text::is_braced(s) {
                ScalarV::List(
                    text::array_items(s).map_values(|p: Seq<char>| ScalarV::Utf8(Some(p))),
                    DataTypeV::Utf8,
                )
            } else {
                ScalarV::Utf8(Some(s))
            },
        ),
        None => None,
    }
}

/// The value of a text of an unknown type.
pub fn value_of_unknown(v: Option<String>) -> (r: Option<ScalarValue>)
    ensures
        match r {
            Some(value) => unknown_scalar(schema::opt_text(v)) == Some(value@),
            None => unknown_scalar(schema::opt_text(v)) is None,
        },
{
    let s = match v {
        Some(s) => s,
        None => {
            return None;
        },
    };
    if !text::braced(s.as_str()) {
        return Some(ScalarValue::Utf8(Some(s)));
    }
    let texts = text::split_array_items(s.as_str());
    let mut items: Vec<ScalarValue> = Vec::new();
    let ghost all = text::views(texts@);
    for item in it: texts
        invariant
            it.seq() == texts@,
            items@.len() == it.index(),
            forall|j: int|
                0 <= j < items@.len() ==> (#[trigger] items@[j])@ == ScalarV::Utf8(
                    Some(texts@[j]@),
                ),
    {
        items.push(ScalarValue::Utf8(Some(item)));
    }
    assert(scalar::scalars_view(items@) == all.map_values(
        |p: Seq<char>| ScalarV::Utf8(Some(p)),
    ));
    Some(make_list(items, DataType::Utf8))
}

/// A result that is always a value.
pub open spec fn present(r: Result<ScalarV, ErrorV>) -> Result<Option<ScalarV>, ErrorV> {
    match r {
        Ok(v) => Ok(Some(v)),
        Err(e) => Err(e),
    }
}

/// The value of a parameter of a built-in type that the library knows.
pub open spec fn builtin_value(b: Builtin, p: BoundV, inferred: Option<DataTypeV>) -> Option<
    Result<ScalarV, ErrorV>,
> {
    match b {
        Builtin::BOOL => Some(
            match wire::bool_of(p.binary, p.raw) {
                Some(v) => Ok(ScalarV::Boolean(v)),
                None => Err(ErrorV::Wire),
            },
        ),
        Builtin::CHAR => Some(
            match wire::i8_of(p.binary, p.raw) {
                Some(v) => Ok(ScalarV::Int8(v)),
                None => Err(ErrorV::Wire),
            },
        ),
        Builtin::INT2 | Builtin::INT4 | Builtin::INT8 => Some(integer_value(b, p, inferred)),
        Builtin::TEXT | Builtin::VARCHAR => Some(text_value(TypeV::Builtin(b), p, inferred)),
        Builtin::BYTEA => Some(
            match wire::bytes_of(p.binary, p.raw) {
                Some(v) => Ok(ScalarV::Binary(v)),
                None => Err(ErrorV::Wire),
            },
        ),
        Builtin::FLOAT4 | Builtin::FLOAT8 => Some(float_value(b, p, inferred)),
        Builtin::NUMERIC => Some(numeric_value(p, inferred)),
        Builtin::TIMESTAMP => Some(timestamp_param(p, inferred)),
        Builtin::TIMESTAMPTZ => Some(timestamptz_param(p, inferred)),
        Builtin::DATE => Some(
            match wire::date_of(p.binary, p.raw) {
                Some(v) => Ok(ScalarV::Date32(v)),
                None => Err(ErrorV::Wire),
            },
        ),
        Builtin::TIME => Some(
            match wire::time_of(p.binary, p.raw) {
                Some(v) => Ok(time_scalar(v, inferred)),
                None => Err(ErrorV::Wire),
            },
        ),
        Builtin::UUID | Builtin::JSON | Builtin::JSONB | Builtin::INET | Builtin::MACADDR => Some(
            match wire::string_of(TypeV::Builtin(b), p.binary, p.raw) {
                Some(v) => Ok(ScalarV::Utf8(v)),
                None => Err(ErrorV::Wire),
            },
        ),
        Builtin::INTERVAL => Some(interval_param(p, inferred)),
        Builtin::BOOL_ARRAY
        | Builtin::INT2_ARRAY
        | Builtin::INT4_ARRAY
        | Builtin::INT8_ARRAY
        | Builtin::TEXT_ARRAY
        | Builtin::VARCHAR_ARRAY => Some(plain_array_value(b, p)),
        Builtin::FLOAT4_ARRAY | Builtin::FLOAT8_ARRAY => Some(float_array_value(b, p)),
        Builtin::INTERVAL_ARRAY => Some(interval_array_value(p)),
        Builtin::NUMERIC_ARRAY => Some(numeric_array_value(p, inferred)),
        Builtin::MONEY => Some(Err(ErrorV::Wire)),
        Builtin::OID => Some(oid_value(p, inferred)),
        _ => None,
    }
}

fn builtin_parameter(b: Builtin, p: &Bound, inferred: Option<&DataType>) -> (r: Option<
    Result<ScalarValue, Error>,
>)
    ensures
        match r {
            Some(r) => builtin_value(b, p@, schema::opt_type(inferred)) == Some(
                coerce::scalar_result(r),
            ),
            None => builtin_value(b, p@, schema::opt_type(inferred)) is None,
        },
{
    match b {
        Builtin::BOOL => Some(
            match wire::wire_bool(16, p.binary, p.raw) {
                Ok(v) => Ok(ScalarValue::Boolean(v)),
                Err(e) => Err(Error::Wire(e)),
            },
        ),
        Builtin::CHAR => Some(
            match wire::wire_i8(18, p.binary, p.raw) {
                Ok(v) => Ok(ScalarValue::Int8(v)),
                Err(e) => Err(Error::Wire(e)),
            },
        ),
        Builtin::INT2 | Builtin::INT4 | Builtin::INT8 => Some(integer_parameter(b, p, inferred)),
        Builtin::TEXT | Builtin::VARCHAR => Some(text_parameter(&Type::Builtin(b), p, inferred)),
        Builtin::BYTEA => Some(
            match wire::wire_bytes(17, p.binary, p.raw) {
                Ok(v) => Ok(ScalarValue::Binary(v)),
                Err(e) => Err(Error::Wire(e)),
            },
        ),
        Builtin::FLOAT4 | Builtin::FLOAT8 => Some(float_parameter(b, p, inferred)),
        Builtin::NUMERIC => Some(numeric_parameter(p, inferred)),
        Builtin::TIMESTAMP => Some(timestamp_parameter(p, inferred)),
        Builtin::TIMESTAMPTZ => Some(timestamptz_parameter(p, inferred)),
        Builtin::DATE => Some(
            match wire::wire_date(1082, p.binary, p.raw) {
                Ok(v) => Ok(ScalarValue::Date32(v)),
                Err(e) => Err(Error::Wire(e)),
            },
        ),
        Builtin::TIME => Some(
            match wire::wire_time(1083, p.binary, p.raw) {
                Ok(v) => Ok(coerce_time_value(v, inferred)),
                Err(e) => Err(Error::Wire(e)),
            },
        ),
        Builtin::UUID | Builtin::JSON | Builtin::JSONB | Builtin::INET | Builtin::MACADDR => Some(
            match wire::wire_string(&Type::Builtin(b), p.binary, p.raw) {
                Ok(v) => Ok(ScalarValue::Utf8(v)),
                Err(e) => Err(Error::Wire(e)),
            },
        ),
        Builtin::INTERVAL => Some(interval_parameter(p, inferred)),
        Builtin::BOOL_ARRAY
        | Builtin::INT2_ARRAY
        | Builtin::INT4_ARRAY
        | Builtin::INT8_ARRAY
        | Builtin::TEXT_ARRAY
        | Builtin::VARCHAR_ARRAY => Some(plain_array_parameter(b, p)),
        Builtin::FLOAT4_ARRAY | Builtin::FLOAT8_ARRAY => Some(float_array_parameter(b, p)),
        Builtin::INTERVAL_ARRAY => Some(interval_array_parameter(p)),
        Builtin::NUMERIC_ARRAY => Some(numeric_array_parameter(p, inferred)),
        Builtin::MONEY => Some(
            match wire::wire_i64(790, p.binary, p.raw) {
                Ok(v) => Ok(ScalarValue::Int64(v)),
                Err(e) => Err(Error::Wire(e)),
            },
        ),
        Builtin::OID => Some(oid_parameter(p, inferred)),
        _ => None,
    }
}

/// The value of a parameter of a type that the library does not know.
pub open spec fn unknown_value(t: TypeV, p: BoundV) -> Result<Option<ScalarV>, ErrorV> {
    match wire::string_of(t, p.binary, p.raw) {
        Some(v) => Ok(unknown_scalar(v)),
        None => Err(ErrorV::Wire),
    }
}

/// The value of a parameter of the type `t`, where it has one.
pub open spec fn param_value(t: TypeV, p: BoundV, inferred: Option<DataTypeV>) -> Result<
    Option<ScalarV>,
    ErrorV,
> {
    if t.spec_oid() == PG_VECTOR_TYPE_OID {
        match vector_of(p) {
            Ok(v) => present(vector_scalar(v, inferred)),
            Err(e) => Err(e),
        }
    } else {
        match t {
            TypeV::Builtin(b) => match builtin_value(b, p, inferred) {
                Some(r) => present(r),
                None => unknown_value(t, p),
            },
            TypeV::Custom { .. } => unknown_value(t, p),
        }
    }
}

/// The model of a result.
pub open spec fn param_result(r: Result<Option<ScalarValue>, Error>) -> Result<
    Option<ScalarV>,
    ErrorV,
> {
    match r {
        Ok(Some(v)) => Ok(Some(v@)),
        Ok(None) => Ok(None),
        Err(e) => Err(e@),
    }
}

/// Decodes a parameter of the type `t`.
pub fn decode_parameter(t: &Type, p: &Bound, inferred: Option<&DataType>) -> (r: Result<
    Option<ScalarValue>,
    Error,
>)
    ensures
        param_result(r) == param_value(t@, p@, schema::opt_type(inferred)),
{
    if t.oid() == PG_VECTOR_TYPE_OID {
        return match decode_vector(p) {
            Ok(v) => match vector_param_to_scalar(v, inferred) {
                Ok(s) => Ok(Some(s)),
                Err(e) => Err(e),
            },
            Err(e) => Err(e),
        };
    }
    if let Type::Builtin(b) = t {
        if let Some(r) = builtin_parameter(*b, p, inferred) {
            return match r {
                Ok(v) => Ok(Some(v)),
                Err(e) => Err(e),
            };
        }
    }
    match wire::wire_string(t, p.binary, p.raw) {
        Ok(v) => Ok(value_of_unknown(v)),
        Err(e) => Err(Error::Wire(e)),
    }
}

/// The parameters that a client binds to a statement.
pub struct Portal {
    /// The types that the client gave when it prepared the statement.
    pub parameter_types: Vec<Option<Type>>,
    pub parameter_format: Format,
    /// The bytes of each parameter, or nothing for a null.
    pub parameters: Vec<Option<Vec<u8>>>,
    /// What was decoded beforehand, for each parameter.
    pub decoded: Vec<Option<Decoded>>,
}

/// The model of an optional type.
pub open spec fn opt_pg_type(o: Option<&Type>) -> Option<TypeV> {
    match o {
        Some(t) => Some(t@),
        None => None,
    }
}

/// True of the type `unknown`.
pub open spec fn is_unknown(t: TypeV) -> bool {
    t matches TypeV::Builtin(b) && b.spec_oid() == 705
}

fn type_is_unknown(t: &Type) -> (r: bool)
    ensures
        r == is_unknown(t@),
{
    match t {
        Type::Builtin(b) => b.oid() == 705,
        Type::Custom { .. } => false,
    }
}

/// The type that a parameter is decoded as. The client's own type goes first, unless it
/// is `unknown`: it is the one that the client encoded the parameter with. The server's
/// type comes next, unless it is `unknown`, and the Postgres type of the inferred type
/// last. Where there is none of these, the parameter has no type.
pub open spec fn resolved_type(
    server: Option<TypeV>,
    hint: Option<TypeV>,
    inferred: Option<DataTypeV>,
) -> Result<TypeV, ErrorV> {
    match hint {
        Some(t) if !is_unknown(t) => Ok(t),
        _ => match server {
            Some(t) if !is_unknown(t) => Ok(t),
            _ => match inferred {
                Some(t) => datatypes::pg_type(t),
                None => Err(ErrorV::NoType),
            },
        },
    }
}

/// The type that a parameter is decoded as.
pub fn get_pg_type(
    server_type: Option<&Type>,
    pg_type_hint: Option<&Type>,
    inferenced_type: Option<&DataType>,
) -> (r: Result<Type, Error>)
    ensures
        datatypes::type_result(r) == resolved_type(
            opt_pg_type(server_type),
            opt_pg_type(pg_type_hint),
            schema::opt_type(inferenced_type),
        ),
{
    if let Some(t) = pg_type_hint {
        if !type_is_unknown(t) {
            return Ok(t.copy());
        }
    }
    if let Some(t) = server_type {
        if !type_is_unknown(t) {
            return Ok(t.copy());
        }
    }
    match inferenced_type {
        Some(t) => datatypes::into_pg_type(t),
        None => Err(Error::NoType),
    }
}

impl Portal {
    /// The client's type of parameter number `i`.
    pub open spec fn hint(&self, i: int) -> Option<TypeV> {
        if 0 <= i < self.parameter_types@.len() {
            match self.parameter_types@[i] {
                Some(t) => Some(t@),
                None => None,
            }
        } else {
            None
        }
    }

    /// Parameter number `i`.
    pub open spec fn bound(&self, i: int) -> BoundV {
        BoundV {
            raw: scalar::opt_bytes(self.parameters@[i]),
            binary: self.parameter_format.at(i) is Binary,
            decoded: if 0 <= i < self.decoded@.len() {
                match self.decoded@[i] {
                    Some(d) => Some(d@),
                    None => None,
                }
            } else {
                None
            },
        }
    }
}

/// The inferred type of parameter number `i`.
pub open spec fn inferred_at(types: Seq<Option<&DataType>>, i: int) -> Option<DataTypeV> {
    if 0 <= i < types.len() {
        schema::opt_type(types[i])
    } else {
        None
    }
}

/// The server's type of parameter number `i`.
pub open spec fn server_at(types: Seq<Option<&Type>>, i: int) -> Option<TypeV> {
    if 0 <= i < types.len() {
        opt_pg_type(types[i])
    } else {
        None
    }
}

/// The value of parameter number `i`, where it has one.
pub open spec fn value_at(
    portal: Portal,
    inferred: Seq<Option<&DataType>>,
    server: Seq<Option<&Type>>,
    i: int,
) -> Result<Option<ScalarV>, ErrorV> {
    match resolved_type(server_at(server, i), portal.hint(i), inferred_at(inferred, i)) {
        Ok(t) => if portal.parameter_format.covers(i) {
            param_value(t, portal.bound(i), inferred_at(inferred, i))
        } else {
            Err(ErrorV::Malformed(Malformed::NoFormat))
        },
        Err(e) => Err(e),
    }
}

/// The values of the first `n` parameters, or the error of the first one that has
/// an error.
pub open spec fn values_of(
    portal: Portal,
    inferred: Seq<Option<&DataType>>,
    server: Seq<Option<&Type>>,
    n: nat,
) -> Result<Seq<ScalarV>, ErrorV>
    decreases n,
{
    if n == 0 {
        Ok(Seq::empty())
    } else {
        match values_of(portal, inferred, server, (n - 1) as nat) {
            Ok(before) => match value_at(portal, inferred, server, n - 1) {
                Ok(Some(v)) => Ok(before.push(v)),
                Ok(None) => Ok(before),
                Err(e) => Err(e),
            },
            Err(e) => Err(e),
        }
    }
}

proof fn lemma_values_err(
    portal: Portal,
    inferred: Seq<Option<&DataType>>,
    server: Seq<Option<&Type>>,
    i: nat,
    n: nat,
)
    requires
        i <= n,
        values_of(portal, inferred, server, i) is Err,
    ensures
        values_of(portal, inferred, server, n) == values_of(portal, inferred, server, i),
    decreases n - i,
{
    if i < n {
        lemma_values_err(portal, inferred, server, i, (n - 1) as nat);
    }
}

/// Decodes the parameters of a client.
///
/// The type of a parameter is the one that the client gave, else the one that the
/// server decided on, else the one that the query infers; `unknown` counts as none. There
/// is an error where there is no type. Where the query infers a type, the value is turned
/// into one of that type.
pub fn deserialize_parameters_with_server_types(
    portal: &Portal,
    inferenced_types: &[Option<&DataType>],
    server_types: &[Option<&Type>],
) -> (r: Result<Vec<ScalarValue>, Error>)
    ensures
        match r {
            Ok(values) => values_of(
                *portal,
                inferenced_types@,
                server_types@,
                portal.parameters@.len(),
            ) == Ok::<Seq<ScalarV>, ErrorV>(scalar::scalars_view(values@)),
            Err(e) => values_of(
                *portal,
                inferenced_types@,
                server_types@,
                portal.parameters@.len(),
            ) == Err::<Seq<ScalarV>, ErrorV>(e@),
        },
{
    let mut values: Vec<ScalarValue> = Vec::new();
    let mut i: usize = 0;
    assert(scalar::scalars_view(values@) == Seq::<ScalarV>::empty());
    while i < portal.parameters.len()
        invariant
            i <= portal.parameters@.len(),
            values_of(*portal, inferenced_types@, server_types@, i as nat) == Ok::<
                Seq<ScalarV>,
                ErrorV,
            >(scalar::scalars_view(values@)),
        decreases portal.parameters@.len() - i,
    {
        let value = parameter_at(portal, inferenced_types, server_types, i);
        proof {
            if value is Err {
                lemma_values_err(
                    *portal,
                    inferenced_types@,
                    server_types@,
                    (i + 1) as nat,
                    portal.parameters@.len(),
                );
            }
        }
        match value {
            Ok(Some(v)) => {
                let ghost before = values@;
                let ghost added = v@;
                values.push(v);
                assert(scalar::scalars_view(values@) == scalar::scalars_view(before).push(added));
            },
            Ok(None) => {},
            Err(e) => {
                return Err(e);
            },
        }
        i += 1;
    }
    Ok(values)
}

fn parameter_at(
    portal: &Portal,
    inferenced_types: &[Option<&DataType>],
    server_types: &[Option<&Type>],
    i: usize,
) -> (r: Result<Option<ScalarValue>, Error>)
    requires
        i < portal.parameters@.len(),
    ensures
        param_result(r) == value_at(*portal, inferenced_types@, server_types@, i as int),
{
    let inferred: Option<&DataType> = if i < inferenced_types.len() {
        inferenced_types[i]
    } else {
        None
    };
    let server: Option<&Type> = if i < server_types.len() {
        server_types[i]
    } else {
        None
    };
    let hint: Option<&Type> = if i < portal.parameter_types.len() {
        portal.parameter_types[i].as_ref()
    } else {
        None
    };
    let t = match get_pg_type(server, hint, inferred) {
        Ok(t) => t,
        Err(e) => {
            return Err(e);
        },
    };
    let covered = match &portal.parameter_format {
        Format::Individual(codes) => i < codes.len(),
        _ => true,
    };
    if !covered {
        return Err(Error::Malformed(Malformed::NoFormat));
    }
    let binary = match portal.parameter_format.format_for(i) {
        FieldFormat::Binary => true,
        FieldFormat::Text => false,
    };
    let decoded: Option<&Decoded> = if i < portal.decoded.len() {
        portal.decoded[i].as_ref()
    } else {
        None
    };
    let p = Bound { raw: &portal.parameters[i], binary, decoded };
    assert(p@ == portal.bound(i as int));
    decode_parameter(&t, &p, inferred)
}

/// Decodes the parameters of a client where the server decided on no types.
pub fn deserialize_parameters(portal: &Portal, inferenced_types: &[Option<&DataType>]) -> (r: Result<
    Vec<ScalarValue>,
    Error,
>)
    ensures
        match r {
            Ok(values) => values_of(
                *portal,
                inferenced_types@,
                Seq::empty(),
                portal.parameters@.len(),
            ) == Ok::<Seq<ScalarV>, ErrorV>(scalar::scalars_view(values@)),
            Err(e) => values_of(
                *portal,
                inferenced_types@,
                Seq::empty(),
                portal.parameters@.len(),
            ) == Err::<Seq<ScalarV>, ErrorV>(e@),
        },
{
    let none: Vec<Option<&Type>> = Vec::new();
    assert(none@ == Seq::<Option<&Type>>::empty());
    deserialize_parameters_with_server_types(portal, inferenced_types, none.as_slice())
}

/// The type that the client gave a parameter, other than `unknown`, decides how it is
/// decoded, whatever the server and the query say.
pub proof fn law_client_type_wins(
    server: Option<TypeV>,
    hint: TypeV,
    inferred: Option<DataTypeV>,
)
    requires
        !is_unknown(hint),
    ensures
        resolved_type(server, Some(hint), inferred) == Ok::<TypeV, ErrorV>(hint),
{
}

/// A parameter of an empty or unknown client type is decoded as one of the type that the
/// query infers, where the server decided on no type.
pub proof fn law_inferred_type_is_fallback(hint: Option<TypeV>, inferred: DataTypeV)
    requires
        hint matches Some(t) ==> is_unknown(t),
    ensures
        resolved_type(None, hint, Some(inferred)) == datatypes::pg_type(inferred),
{
}

/// There is an error where a parameter has a type neither from the client nor from the
/// server nor from the query.
pub proof fn law_parameters_have_types(
    portal: Portal,
    inferred: Seq<Option<&DataType>>,
    server: Seq<Option<&Type>>,
    i: nat,
)
    requires
        i < portal.parameters@.len(),
        portal.hint(i as int) matches Some(t) ==> is_unknown(t),
        server_at(server, i as int) matches Some(t) ==> is_unknown(t),
        inferred_at(inferred, i as int) is None,
    ensures
        values_of(portal, inferred, server, portal.parameters@.len()) is Err,
{
    lemma_values_err(portal, inferred, server, i + 1, portal.parameters@.len());
}

/// A type that the server decided on, other than `unknown`, goes before the one
/// that the query infers.
pub proof fn law_server_type_is_fallback(server: TypeV, inferred: Option<DataTypeV>)
    requires
        !is_unknown(server),
    ensures
        resolved_type(Some(server), None, inferred) == Ok::<TypeV, ErrorV>(server),
{
}

/// A vector in binary form that can be decoded has as many elements as its bytes
/// after the header are fours.
pub proof fn law_vector_binary_length(b: Seq<u8>)
    ensures
        vector_binary(b) matches Ok(v) ==> v.len() > 0 && b.len() == 4 + 4 * v.len(),
{
}

/// A parameter that is null becomes a null, of whatever type it is decoded and inferred,
/// where it becomes a value at all.
pub proof fn law_null_stays_null(t: TypeV, p: BoundV, inferred: Option<DataTypeV>)
    requires
        p.raw is None,
    ensures
        param_value(t, p, inferred) matches Ok(Some(v)) ==> scalar::is_null(v),
{
}

/// An `int4` in binary form becomes the number that its bytes stand for, also where an
/// integer of 64 bits is inferred for it.
pub proof fn law_integers_are_read(p: BoundV, b: Seq<u8>)
    requires
        p.raw == Some(b),
        p.binary,
        b.len() == 4,
    ensures
        ({
            let t = TypeV::Builtin(Builtin::INT4);
            let n = Some(wire::be_signed(b) as i32);
            &&& param_value(t, p, None) == Ok::<_, ErrorV>(Some(ScalarV::Int32(n)))
            &&& param_value(t, p, Some(DataTypeV::Int64)) == Ok::<_, ErrorV>(
                Some(ScalarV::Int64(Some((wire::be_signed(b) as i32) as i64))),
            )
        }),
{
}

} // verus!
