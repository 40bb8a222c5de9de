//! Decoding of the parameters that a client binds.
//!
//! The bytes of a parameter are decoded by the wire-protocol crate, as what its
//! Postgres type says. Floating-point numbers are not decoded here, nor are intervals in
//! a text form that the decoding may overflow at.
use crate::datatypes;
use crate::datatypes::{Builtin, Type, TypeV};
use crate::scalar;
use crate::schema;
use crate::text;
use arrow_array::types::Date32Type;
use chrono::Timelike;
use pgwire::api::portal::Portal as WirePortal;
use pgwire::api::stmt::StoredStatement;
use pgwire::error::PgWireError;
use pgwire::messages::extendedquery::Bind;
use postgres_types::Type as WireType;
use rust_decimal::prelude::ToPrimitive;
use std::sync::Arc;
use vstd::arithmetic::power;
use vstd::prelude::*;

verus! {

/// A decimal number: its sign, its unscaled value with that sign, and the number
/// of its digits behind the point.
#[derive(Clone, Copy, Debug, PartialEq, Eq, Structural)]
pub struct Decimal {
    pub negative: bool,
    pub mantissa: i128,
    pub scale: u32,
}

/// A point in time: the seconds since 1970 in UTC, rounded down, and the
/// nanoseconds since then. A leap second has more than a second's nanoseconds.
#[derive(Clone, Copy, Debug, PartialEq, Eq, Structural)]
pub struct UtcTime {
    pub seconds: i64,
    pub nanos: u32,
}

/// A time of day: the seconds since midnight and the nanoseconds since then.
#[derive(Clone, Copy, Debug, PartialEq, Eq, Structural)]
pub struct TimeOfDay {
    pub seconds: u32,
    pub nanos: u32,
}

/// An interval of Postgres.
#[derive(Clone, Copy, Debug, PartialEq, Eq, Structural)]
pub struct Interval {
    pub months: i32,
    pub days: i32,
    pub microseconds: i64,
}

impl Decimal {
    /// What holds of every decimal of the decimal crate.
    pub open spec fn valid(self) -> bool {
        &&& -0x1_0000_0000_0000_0000_0000_0000 < self.mantissa < 0x1_0000_0000_0000_0000_0000_0000
        &&& self.scale <= 28
        &&& self.mantissa < 0 ==> self.negative
        &&& self.mantissa > 0 ==> !self.negative
    }

    /// The digits of the number before the point.
    pub open spec fn whole(self) -> int {
        abs(self.mantissa as int) / power::pow(10, self.scale as nat)
    }
}

impl UtcTime {
    /// What holds of every time of chrono.
    pub open spec fn valid(self) -> bool {
        &&& -8_334_601_228_800 <= self.seconds <= 8_334_601_228_800
        &&& self.nanos < 2_000_000_000
    }
}

impl TimeOfDay {
    /// What holds of every time of day of chrono.
    pub open spec fn valid(self) -> bool {
        self.seconds < 86_400 && self.nanos < 2_000_000_000
    }
}

/// The absolute value of a number.
pub open spec fn abs(n: int) -> int {
    if n < 0 {
        -n
    } else {
        n
    }
}

/// The number that bytes stand for, the highest byte first.
pub open spec fn be_unsigned(b: Seq<u8>) -> int
    decreases b.len(),
{
    if b.len() == 0 {
        0
    } else {
        be_unsigned(b.drop_last()) * 256 + b.last()
    }
}

/// The signed number that bytes stand for in two's complement, the highest byte
/// first.
pub open spec fn be_signed(b: Seq<u8>) -> int {
    if b.len() > 0 && b[0] >= 128 {
        be_unsigned(b) - power::pow(256, b.len())
    } else {
        be_unsigned(b)
    }
}

/// The interval that its binary form stands for.
pub open spec fn interval_of(b: Seq<u8>) -> Interval {
    Interval {
        microseconds: be_signed(b.subrange(0, 8)) as i64,
        days: be_signed(b.subrange(8, 12)) as i32,
        months: be_signed(b.subrange(12, 16)) as i32,
    }
}

/// The number of digits at the end of a text, where quotes and backslashes are passed
/// over.
pub open spec fn digit_run(b: Seq<u8>) -> nat
    decreases b.len(),
{
    if b.len() == 0 {
        0
    } else if '0' as int <= b.last() <= '9' as int {
        digit_run(b.drop_last()) + 1
    } else if b.last() == '\\' as int || b.last() == '"' as int {
        digit_run(b.drop_last())
    } else {
        0
    }
}

/// True of a text of intervals that is decoded without an overflow: it is ASCII, has no
/// `f`, so that no number is infinite, and no number of more than nine digits.
pub open spec fn is_plain_interval_text(b: Seq<u8>) -> bool {
    forall|i: int|
        #![trigger b[i]]
        0 <= i < b.len() ==> b[i] < 128 && b[i] != 'f' as int && b[i] != 'F' as int
            && digit_run(b.take(i + 1)) <= 9
}

/// Tells whether a text of intervals is decoded without an overflow.
pub fn plain_interval_text(b: &[u8]) -> (r: bool)
    ensures
        r == is_plain_interval_text(b@),
{
    let mut run: usize = 0;
    let mut i: usize = 0;
    assert(b@.take(0) == Seq::<u8>::empty());
    while i < b.len()
        invariant
            i <= b@.len(),
            run <= 9,
            run == digit_run(b@.take(i as int)),
            forall|j: int|
                #![trigger b@[j]]
                0 <= j < i ==> b@[j] < 128 && b@[j] != 'f' as int && b@[j] != 'F' as int
                    && digit_run(b@.take(j + 1)) <= 9,
        decreases b@.len() - i,
    {
        let x: u8 = b[i];
        assert(b@.take(i + 1).drop_last() == b@.take(i as int));
        assert(b@[i as int] == x);
        if x >= 128 || x == 102 || x == 70 {
            return false;
        }
        if 48 <= x && x <= 57 {
            run += 1;
        } else if x != 92 && x != 34 {
            run = 0;
        }
        if run > 9 {
            return false;
        }
        i += 1;
    }
    true
}

/// True of a numeric in binary form with so many zeros between its digits and the
/// point that the decimal crate does not decode it.
pub open spec fn numeric_too_large(b: Seq<u8>) -> bool {
    &&& b.len() >= 4
    &&& {
        let zeros = be_signed(b.subrange(2, 4)) + 1 - be_unsigned(b.subrange(0, 2));
        zeros == 8 || zeros == 9
    }
}

/// The elements of an array in binary form that are not null, from the length of
/// the first one on, as far as their lengths can be followed.
pub open spec fn elements_from(b: Seq<u8>) -> Seq<Seq<u8>>
    decreases b.len(),
{
    if b.len() < 4 {
        Seq::empty()
    } else {
        let len = be_signed(b.subrange(0, 4));
        if len < 0 {
            elements_from(b.skip(4))
        } else if 4 + len > b.len() {
            Seq::empty()
        } else {
            seq![b.subrange(4, 4 + len)] + elements_from(b.skip(4 + len))
        }
    }
}

/// The elements of an array in binary form that are not null.
pub open spec fn array_elements(b: Seq<u8>) -> Seq<Seq<u8>> {
    if b.len() < 12 {
        Seq::empty()
    } else {
        let start = 12 + 8 * be_signed(b.subrange(0, 4));
        if 0 <= start <= b.len() {
            elements_from(b.skip(start))
        } else {
            Seq::empty()
        }
    }
}

/// True when no element of an array of numerics is too large to be decoded.
pub open spec fn small_elements(b: Seq<u8>) -> bool {
    forall|i: int|
        0 <= i < array_elements(b).len() ==> !numeric_too_large(#[trigger] array_elements(b)[i])
}

/// True when every element of an array of intervals has all its bytes.
pub open spec fn long_elements(b: Seq<u8>) -> bool {
    forall|i: int|
        0 <= i < array_elements(b).len() ==> (#[trigger] array_elements(b)[i]).len() >= 16
}

/// The model of optional texts.
pub open spec fn opt_texts(v: Seq<Option<String>>) -> Seq<Option<Seq<char>>> {
    v.map_values(|o: Option<String>| schema::opt_text(o))
}

/// What a parameter holds: nothing where it is null, or else what its bytes hold, if they
/// can be decoded.
pub open spec fn held<T>(raw: Option<Seq<u8>>, value: Option<T>) -> Option<Option<T>> {
    match raw {
        None => Some(None),
        Some(_) => match value {
            Some(v) => Some(Some(v)),
            None => None,
        },
    }
}

/// What a parameter holds that has a name for what is decoded of it: nothing where it is
/// null.
pub open spec fn or_null<T>(raw: Option<Seq<u8>>, named: Option<Option<T>>) -> Option<Option<T>> {
    match raw {
        None => Some(None),
        Some(_) => named,
    }
}

/// The text that bytes stand for in UTF-8, if they do.
pub open spec fn utf8_text(b: Seq<u8>) -> Option<Seq<char>> {
    if vstd::utf8::valid_utf8(b) {
        Some(vstd::utf8::decode_utf8(b))
    } else {
        None
    }
}

/// The truth value that bytes hold. In binary form they are one byte, and true unless that
/// is zero. In text form they are one of the words of Postgres, in any case; no bytes are
/// false.
pub open spec fn bool_bytes(binary: bool, b: Seq<u8>) -> Option<bool> {
    if binary {
        if b.len() == 1 {
            Some(b[0] != 0)
        } else {
            None
        }
    } else {
        let s = b.map_values(|x: u8| text::ascii_lower(x as char));
        if s == "true"@ || s == "t"@ || s == "yes"@ || s == "y"@ || s == "on"@ || s == "1"@ {
            Some(true)
        } else if s.len() == 0 || s == "false"@ || s == "f"@ || s == "no"@ || s == "n"@ || s
            == "off"@ || s == "0"@ {
            Some(false)
        } else {
            None
        }
    }
}

/// The integer between `lo` and `hi` that bytes hold. In binary form they are `width` bytes
/// in two's complement, the highest first. In text form they are digits after an optional
/// sign.
pub open spec fn int_bytes(binary: bool, b: Seq<u8>, width: nat, lo: int, hi: int) -> Option<int> {
    if binary {
        if b.len() == width {
            Some(be_signed(b))
        } else {
            None
        }
    } else {
        match utf8_text(b) {
            Some(s) => match text::int_text(s) {
                Some(n) if lo <= n <= hi => Some(n),
                _ => None,
            },
            None => None,
        }
    }
}

/// What a `bool` holds.
pub open spec fn bool_of(binary: bool, raw: Option<Seq<u8>>) -> Option<Option<bool>> {
    held(raw, bool_bytes(binary, raw->0))
}

/// What a parameter of the type `"char"` holds.
pub open spec fn i8_of(binary: bool, raw: Option<Seq<u8>>) -> Option<Option<i8>> {
    held(
        raw,
        match int_bytes(binary, raw->0, 1, i8::MIN as int, i8::MAX as int) {
            Some(n) => Some(n as i8),
            None => None,
        },
    )
}

/// What a parameter of the type `int2` holds.
pub open spec fn i16_of(binary: bool, raw: Option<Seq<u8>>) -> Option<Option<i16>> {
    held(
        raw,
        match int_bytes(binary, raw->0, 2, i16::MIN as int, i16::MAX as int) {
            Some(n) => Some(n as i16),
            None => None,
        },
    )
}

/// What a parameter of the type `int4` holds.
pub open spec fn i32_of(binary: bool, raw: Option<Seq<u8>>) -> Option<Option<i32>> {
    held(
        raw,
        match int_bytes(binary, raw->0, 4, i32::MIN as int, i32::MAX as int) {
            Some(n) => Some(n as i32),
            None => None,
        },
    )
}

/// What a parameter of the type `int8` holds.
pub open spec fn i64_of(binary: bool, raw: Option<Seq<u8>>) -> Option<Option<i64>> {
    held(
        raw,
        match int_bytes(binary, raw->0, 8, i64::MIN as int, i64::MAX as int) {
            Some(n) => Some(n as i64),
            None => None,
        },
    )
}

/// The value of a hexadecimal digit.
pub open spec fn hex_digit(x: u8) -> Option<int> {
    if '0' as int <= x <= '9' as int {
        Some(x - '0' as int)
    } else if 'a' as int <= x <= 'f' as int {
        Some(x - 'a' as int + 10)
    } else if 'A' as int <= x <= 'F' as int {
        Some(x - 'A' as int + 10)
    } else {
        None
    }
}

/// The bytes that hexadecimal digits stand for, two for each byte.
pub open spec fn hex_bytes(b: Seq<u8>) -> Option<Seq<u8>> {
    if b.len() % 2 == 0 && forall|i: int| 0 <= i < b.len() ==> hex_digit(#[trigger] b[i]) is Some {
        Some(
            Seq::new(
                b.len() / 2,
                |i: int| (hex_digit(b[2 * i])->0 * 16 + hex_digit(b[2 * i + 1])->0) as u8,
            ),
        )
    } else {
        None
    }
}

/// What a `bytea` holds: the bytes themselves in binary form, and hexadecimal digits after
/// `\\x` in text form.
pub open spec fn bytes_of(binary: bool, raw: Option<Seq<u8>>) -> Option<Option<Seq<u8>>> {
    let b = raw->0;
    held(
        raw,
        if binary {
            Some(b)
        } else if b.len() >= 2 && b[0] == '\\' as int && b[1] == 'x' as int {
            hex_bytes(b.skip(2))
        } else {
            None
        },
    )
}

/// The time that a timestamp in binary form stands for: eight bytes that are the
/// microseconds since 2000. The time lies in the range of chrono's dates.
pub open spec fn timestamp_bytes(b: Seq<u8>) -> Option<UtcTime> {
    let t = be_signed(b);
    let seconds = 946_684_800 + t / 1_000_000;
    if b.len() == 8 && -8_334_601_228_800 <= seconds <= 8_210_266_876_799 {
        Some(UtcTime { seconds: seconds as i64, nanos: (t % 1_000_000 * 1_000) as u32 })
    } else {
        None
    }
}

/// What a `timestamp` holds.
pub open spec fn timestamp_of(binary: bool, raw: Option<Seq<u8>>) -> Option<Option<UtcTime>> {
    if binary {
        held(raw, timestamp_bytes(raw->0))
    } else {
        or_null(raw, wire_timestamp_value(1114, binary, raw))
    }
}

/// What a `timestamptz` holds.
pub open spec fn timestamptz_of(binary: bool, raw: Option<Seq<u8>>) -> Option<Option<UtcTime>> {
    if binary {
        held(raw, timestamp_bytes(raw->0))
    } else {
        or_null(raw, wire_timestamptz_value(1184, binary, raw))
    }
}

/// The days since 1970 of a date in binary form: four bytes that are the days since 2000.
/// The date lies in the range of chrono's dates.
pub open spec fn date_bytes(b: Seq<u8>) -> Option<i32> {
    let days = be_signed(b) + 10_957;
    if b.len() == 4 && -96_465_292 <= days <= 95_026_236 {
        Some(days as i32)
    } else {
        None
    }
}

/// What a `date` holds.
pub open spec fn date_of(binary: bool, raw: Option<Seq<u8>>) -> Option<Option<i32>> {
    if binary {
        held(raw, date_bytes(raw->0))
    } else {
        or_null(raw, wire_date_value(1082, binary, raw))
    }
}

/// The time of day in binary form: eight bytes that are the microseconds since midnight,
/// without whole days.
pub open spec fn time_bytes(b: Seq<u8>) -> Option<TimeOfDay> {
    let t = be_signed(b) % 86_400_000_000;
    if b.len() == 8 {
        Some(
            TimeOfDay {
                seconds: (t / 1_000_000) as u32,
                nanos: (t % 1_000_000 * 1_000) as u32,
            },
        )
    } else {
        None
    }
}

/// What a `time` holds.
pub open spec fn time_of(binary: bool, raw: Option<Seq<u8>>) -> Option<Option<TimeOfDay>> {
    if binary {
        held(raw, time_bytes(raw->0))
    } else {
        or_null(raw, wire_time_value(1083, binary, raw))
    }
}

/// A text with each two quotes replaced by one.
pub open spec fn unescaped(s: Seq<char>) -> Seq<char>
    decreases s.len(),
{
    if s.len() == 0 {
        s
    } else if s.len() >= 2 && s[0] == '\'' && s[1] == '\'' {
        seq!['\''] + unescaped(s.skip(2))
    } else {
        seq![s[0]] + unescaped(s.skip(1))
    }
}

/// True of the text types whose binary form starts with a version.
pub open spec fn is_versioned_text(t: TypeV) -> bool {
    match t {
        TypeV::Builtin(_) => false,
        TypeV::Custom { name, .. } => name == "ltree"@ || name == "lquery"@ || name
            == "ltxtquery"@,
    }
}

/// The text that bytes hold. In binary form they are the text, behind the version where the
/// type has one. In text form two quotes stand for one.
pub open spec fn string_bytes(t: TypeV, binary: bool, b: Seq<u8>) -> Option<Seq<char>> {
    if !binary {
        match utf8_text(b) {
            Some(s) => Some(unescaped(s)),
            None => None,
        }
    } else if is_versioned_text(t) {
        if b.len() > 0 && b[0] == 1 {
            utf8_text(b.skip(1))
        } else {
            None
        }
    } else {
        utf8_text(b)
    }
}

/// What a parameter of the text type `t` holds. Other types are not decoded as text.
pub open spec fn string_of(t: TypeV, binary: bool, raw: Option<Seq<u8>>) -> Option<
    Option<Seq<char>>,
> {
    if is_text_type(t) {
        held(raw, string_bytes(t, binary, raw->0))
    } else {
        None
    }
}

/// `Portal::parameter` of pgwire at the type `bool`. The type of the
/// parameter has to be `bool`; a null is then decoded as nothing, and
/// bytes as [`bool_bytes`] says.
#[verifier::external_body]
pub(crate) fn wire_bool(oid: u32, binary: bool, raw: &Option<Vec<u8>>) -> (r: Result<
    Option<bool>,
    PgWireError,
>)
    ensures
        oid == 16 ==> match r {
            Ok(v) => bool_of(binary, scalar::opt_bytes(*raw)) == Some(v),
            Err(_) => bool_of(binary, scalar::opt_bytes(*raw)) is None,
        },
        oid != 16 ==> r is Err,
{
    let ty = WireType::from_oid(oid).unwrap_or(WireType::UNKNOWN);
    let bytes = raw.clone().map(bytes::Bytes::from);
    let bind = Bind::new(None, None, vec![i16::from(binary)], vec![bytes], vec![]);
    let statement = Arc::new(StoredStatement::new(String::new(), (), vec![]));
    WirePortal::try_new(&bind, statement)?.parameter(0, &ty)
}

/// `Portal::parameter` of pgwire at the type `i8`. The type of the
/// parameter has to be `"char"`; a null is then decoded as nothing, and
/// bytes as [`int_bytes`] says.
#[verifier::external_body]
pub(crate) fn wire_i8(oid: u32, binary: bool, raw: &Option<Vec<u8>>) -> (r: Result<
    Option<i8>,
    PgWireError,
>)
    ensures
        oid == 18 ==> match r {
            Ok(v) => i8_of(binary, scalar::opt_bytes(*raw)) == Some(v),
            Err(_) => i8_of(binary, scalar::opt_bytes(*raw)) is None,
        },
        oid != 18 ==> r is Err,
{
    let ty = WireType::from_oid(oid).unwrap_or(WireType::UNKNOWN);
    let bytes = raw.clone().map(bytes::Bytes::from);
    let bind = Bind::new(None, None, vec![i16::from(binary)], vec![bytes], vec![]);
    let statement = Arc::new(StoredStatement::new(String::new(), (), vec![]));
    WirePortal::try_new(&bind, statement)?.parameter(0, &ty)
}

/// `Portal::parameter` of pgwire at the type `i16`. The type of the
/// parameter has to be `int2`; a null is then decoded as nothing, and
/// bytes as [`int_bytes`] says.
#[verifier::external_body]
pub(crate) fn wire_i16(oid: u32, binary: bool, raw: &Option<Vec<u8>>) -> (r: Result<
    Option<i16>,
    PgWireError,
>)
    ensures
        oid == 21 ==> match r {
            Ok(v) => i16_of(binary, scalar::opt_bytes(*raw)) == Some(v),
            Err(_) => i16_of(binary, scalar::opt_bytes(*raw)) is None,
        },
        oid != 21 ==> r is Err,
{
    let ty = WireType::from_oid(oid).unwrap_or(WireType::UNKNOWN);
    let bytes = raw.clone().map(bytes::Bytes::from);
    let bind = Bind::new(None, None, vec![i16::from(binary)], vec![bytes], vec![]);
    let statement = Arc::new(StoredStatement::new(String::new(), (), vec![]));
    WirePortal::try_new(&bind, statement)?.parameter(0, &ty)
}

/// `Portal::parameter` of pgwire at the type `i32`. The type of the
/// parameter has to be `int4`; a null is then decoded as nothing, and
/// bytes as [`int_bytes`] says.
#[verifier::external_body]
pub(crate) fn wire_i32(oid: u32, binary: bool, raw: &Option<Vec<u8>>) -> (r: Result<
    Option<i32>,
    PgWireError,
>)
    ensures
        oid == 23 ==> match r {
            Ok(v) => i32_of(binary, scalar::opt_bytes(*raw)) == Some(v),
            Err(_) => i32_of(binary, scalar::opt_bytes(*raw)) is None,
        },
        oid != 23 ==> r is Err,
{
    let ty = WireType::from_oid(oid).unwrap_or(WireType::UNKNOWN);
    let bytes = raw.clone().map(bytes::Bytes::from);
    let bind = Bind::new(None, None, vec![i16::from(binary)], vec![bytes], vec![]);
    let statement = Arc::new(StoredStatement::new(String::new(), (), vec![]));
    WirePortal::try_new(&bind, statement)?.parameter(0, &ty)
}

/// `Portal::parameter` of pgwire at the type `i64`. The type of the
/// parameter has to be `int8`; a null is then decoded as nothing, and
/// bytes as [`int_bytes`] says.
#[verifier::external_body]
pub(crate) fn wire_i64(oid: u32, binary: bool, raw: &Option<Vec<u8>>) -> (r: Result<
    Option<i64>,
    PgWireError,
>)
    ensures
        oid == 20 ==> match r {
            Ok(v) => i64_of(binary, scalar::opt_bytes(*raw)) == Some(v),
            Err(_) => i64_of(binary, scalar::opt_bytes(*raw)) is None,
        },
        oid != 20 ==> r is Err,
{
    let ty = WireType::from_oid(oid).unwrap_or(WireType::UNKNOWN);
    let bytes = raw.clone().map(bytes::Bytes::from);
    let bind = Bind::new(None, None, vec![i16::from(binary)], vec![bytes], vec![]);
    let statement = Arc::new(StoredStatement::new(String::new(), (), vec![]));
    WirePortal::try_new(&bind, statement)?.parameter(0, &ty)
}

/// `Portal::parameter` of pgwire at the type `Vec<u8>`. The type of the
/// parameter has to be `bytea`; a null is then decoded as nothing, and
/// bytes as [`bytes_of`] says.
#[verifier::external_body]
pub(crate) fn wire_bytes(oid: u32, binary: bool, raw: &Option<Vec<u8>>) -> (r: Result<
    Option<Vec<u8>>,
    PgWireError,
>)
    ensures
        oid == 17 ==> match r {
            Ok(v) => bytes_of(binary, scalar::opt_bytes(*raw)) == Some(scalar::opt_bytes(v)),
            Err(_) => bytes_of(binary, scalar::opt_bytes(*raw)) is None,
        },
        oid != 17 ==> r is Err,
{
    let ty = WireType::from_oid(oid).unwrap_or(WireType::UNKNOWN);
    let bytes = raw.clone().map(bytes::Bytes::from);
    let bind = Bind::new(None, None, vec![i16::from(binary)], vec![bytes], vec![]);
    let statement = Arc::new(StoredStatement::new(String::new(), (), vec![]));
    WirePortal::try_new(&bind, statement)?.parameter(0, &ty)
}

/// What a parameter holds that is decoded as `rust_decimal::Decimal`, if it can be.
pub uninterp spec fn wire_decimal_value(oid: u32, binary: bool, raw: Option<Seq<u8>>) -> Option<
    Option<Decimal>,
>;

/// `Portal::parameter` of pgwire at the type `rust_decimal::Decimal`. The type of the
/// parameter has to be `numeric`; a null is then decoded as nothing, and bytes
/// in the way of the crate. The mantissa of a decimal has at most 96 bits and its scale is at most 28.
#[verifier::external_body]
pub(crate) fn wire_decimal(oid: u32, binary: bool, raw: &Option<Vec<u8>>) -> (r: Result<
    Option<Decimal>,
    PgWireError,
>)
    requires
        binary ==> (raw matches Some(b) ==> !numeric_too_large(b@)),
    ensures
        match r {
            Ok(v) => wire_decimal_value(oid, binary, scalar::opt_bytes(*raw)) == Some(v),
            Err(_) => wire_decimal_value(oid, binary, scalar::opt_bytes(*raw)) is None,
        },
        !(oid == 1700) ==> r is Err,
        (oid == 1700) && raw is None ==> (r matches Ok(v) ==> v is None) && r is Ok,
        raw is Some ==> (r matches Ok(v) ==> v is Some),
        r matches Ok(Some(d)) ==> d.valid(),
{
    let ty = WireType::from_oid(oid).unwrap_or(WireType::UNKNOWN);
    let bytes = raw.clone().map(bytes::Bytes::from);
    let bind = Bind::new(None, None, vec![i16::from(binary)], vec![bytes], vec![]);
    let statement = Arc::new(StoredStatement::new(String::new(), (), vec![]));
    let parts = |d: rust_decimal::Decimal| Decimal {
        negative: d.is_sign_negative(),
        mantissa: d.mantissa(),
        scale: d.scale(),
    };
    Ok(WirePortal::try_new(&bind, statement)?.parameter(0, &ty)?.map(parts))
}

/// What a parameter holds that is decoded as `chrono::NaiveDateTime`, if it can be.
pub uninterp spec fn wire_timestamp_value(oid: u32, binary: bool, raw: Option<Seq<u8>>) -> Option<
    Option<UtcTime>,
>;

/// `Portal::parameter` of pgwire at the type `chrono::NaiveDateTime`. The type
/// of the parameter has to be `timestamp`; a null is then decoded as nothing, bytes in
/// binary form as [`timestamp_bytes`] says, and a text in the way of the crate, which tries
/// a list of formats. The time is that of the value taken as UTC, and
/// lies in the range of chrono's dates.
#[verifier::external_body]
pub(crate) fn wire_timestamp(oid: u32, binary: bool, raw: &Option<Vec<u8>>) -> (r: Result<
    Option<UtcTime>,
    PgWireError,
>)
    ensures
        match r {
            Ok(v) => wire_timestamp_value(oid, binary, scalar::opt_bytes(*raw)) == Some(v),
            Err(_) => wire_timestamp_value(oid, binary, scalar::opt_bytes(*raw)) is None,
        },
        !(oid == 1114) ==> r is Err,
        (oid == 1114) && raw is None ==> (r matches Ok(v) ==> v is None) && r is Ok,
        oid == 1114 && binary ==> (raw matches Some(b) ==> match r {
            Ok(v) => v is Some && timestamp_bytes(b@) == v,
            Err(_) => timestamp_bytes(b@) is None,
        }),
        raw is Some ==> (r matches Ok(v) ==> v is Some),
        r matches Ok(Some(t)) ==> t.valid(),
{
    let ty = WireType::from_oid(oid).unwrap_or(WireType::UNKNOWN);
    let bytes = raw.clone().map(bytes::Bytes::from);
    let bind = Bind::new(None, None, vec![i16::from(binary)], vec![bytes], vec![]);
    let statement = Arc::new(StoredStatement::new(String::new(), (), vec![]));
    let parts = |t: chrono::NaiveDateTime| UtcTime {
        seconds: t.and_utc().timestamp(),
        nanos: t.and_utc().timestamp_subsec_nanos(),
    };
    Ok(WirePortal::try_new(&bind, statement)?.parameter(0, &ty)?.map(parts))
}

/// What a parameter holds that is decoded as `chrono::DateTime<chrono::FixedOffset>`, if it can be.
pub uninterp spec fn wire_timestamptz_value(oid: u32, binary: bool, raw: Option<Seq<u8>>) -> Option<
    Option<UtcTime>,
>;

/// `Portal::parameter` of pgwire at the type `chrono::DateTime<chrono::FixedOffset>`. The type
/// of the parameter has to be `timestamptz`; a null is then decoded as nothing, bytes in
/// binary form as [`timestamp_bytes`] says, and a text in the way of the crate, which tries
/// a list of formats. The time lies in the range of chrono's dates.
#[verifier::external_body]
pub(crate) fn wire_timestamptz(oid: u32, binary: bool, raw: &Option<Vec<u8>>) -> (r: Result<
    Option<UtcTime>,
    PgWireError,
>)
    ensures
        match r {
            Ok(v) => wire_timestamptz_value(oid, binary, scalar::opt_bytes(*raw)) == Some(v),
            Err(_) => wire_timestamptz_value(oid, binary, scalar::opt_bytes(*raw)) is None,
        },
        !(oid == 1184) ==> r is Err,
        (oid == 1184) && raw is None ==> (r matches Ok(v) ==> v is None) && r is Ok,
        oid == 1184 && binary ==> (raw matches Some(b) ==> match r {
            Ok(v) => v is Some && timestamp_bytes(b@) == v,
            Err(_) => timestamp_bytes(b@) is None,
        }),
        raw is Some ==> (r matches Ok(v) ==> v is Some),
        r matches Ok(Some(t)) ==> t.valid(),
{
    let ty = WireType::from_oid(oid).unwrap_or(WireType::UNKNOWN);
    let bytes = raw.clone().map(bytes::Bytes::from);
    let bind = Bind::new(None, None, vec![i16::from(binary)], vec![bytes], vec![]);
    let statement = Arc::new(StoredStatement::new(String::new(), (), vec![]));
    let parts = |t: chrono::DateTime<chrono::FixedOffset>| UtcTime {
        seconds: t.timestamp(),
        nanos: t.timestamp_subsec_nanos(),
    };
    Ok(WirePortal::try_new(&bind, statement)?.parameter(0, &ty)?.map(parts))
}

/// What a parameter holds that is decoded as `chrono::NaiveDate`, if it can be.
pub uninterp spec fn wire_date_value(oid: u32, binary: bool, raw: Option<Seq<u8>>) -> Option<
    Option<i32>,
>;

/// `Portal::parameter` of pgwire at the type `chrono::NaiveDate`. The type
/// of the parameter has to be `date`; a null is then decoded as nothing, bytes in
/// binary form as [`date_bytes`] says, and a text in the way of the crate, which tries
/// a list of formats. `Date32Type::from_naive_date` of `arrow_array`
/// turns the date into the number of days since 1970.
#[verifier::external_body]
pub(crate) fn wire_date(oid: u32, binary: bool, raw: &Option<Vec<u8>>) -> (r: Result<
    Option<i32>,
    PgWireError,
>)
    ensures
        match r {
            Ok(v) => wire_date_value(oid, binary, scalar::opt_bytes(*raw)) == Some(v),
            Err(_) => wire_date_value(oid, binary, scalar::opt_bytes(*raw)) is None,
        },
        !(oid == 1082) ==> r is Err,
        (oid == 1082) && raw is None ==> (r matches Ok(v) ==> v is None) && r is Ok,
        oid == 1082 && binary ==> (raw matches Some(b) ==> match r {
            Ok(v) => v is Some && date_bytes(b@) == v,
            Err(_) => date_bytes(b@) is None,
        }),
        raw is Some ==> (r matches Ok(v) ==> v is Some),
{
    let ty = WireType::from_oid(oid).unwrap_or(WireType::UNKNOWN);
    let bytes = raw.clone().map(bytes::Bytes::from);
    let bind = Bind::new(None, None, vec![i16::from(binary)], vec![bytes], vec![]);
    let statement = Arc::new(StoredStatement::new(String::new(), (), vec![]));
    let date = WirePortal::try_new(&bind, statement)?.parameter(0, &ty)?;
    Ok(date.map(Date32Type::from_naive_date))
}

/// What a parameter holds that is decoded as `chrono::NaiveTime`, if it can be.
pub uninterp spec fn wire_time_value(oid: u32, binary: bool, raw: Option<Seq<u8>>) -> Option<
    Option<TimeOfDay>,
>;

/// `Portal::parameter` of pgwire at the type `chrono::NaiveTime`. The type
/// of the parameter has to be `time`; a null is then decoded as nothing, bytes in
/// binary form as [`time_bytes`] says, and a text in the way of the crate, which tries
/// a list of formats. The seconds since midnight are less than a day, and
/// the nanoseconds less than two seconds.
#[verifier::external_body]
pub(crate) fn wire_time(oid: u32, binary: bool, raw: &Option<Vec<u8>>) -> (r: Result<
    Option<TimeOfDay>,
    PgWireError,
>)
    ensures
        match r {
            Ok(v) => wire_time_value(oid, binary, scalar::opt_bytes(*raw)) == Some(v),
            Err(_) => wire_time_value(oid, binary, scalar::opt_bytes(*raw)) is None,
        },
        !(oid == 1083) ==> r is Err,
        (oid == 1083) && raw is None ==> (r matches Ok(v) ==> v is None) && r is Ok,
        oid == 1083 && binary ==> (raw matches Some(b) ==> match r {
            Ok(v) => v is Some && time_bytes(b@) == v,
            Err(_) => time_bytes(b@) is None,
        }),
        raw is Some ==> (r matches Ok(v) ==> v is Some),
        r matches Ok(Some(t)) ==> t.valid(),
{
    let ty = WireType::from_oid(oid).unwrap_or(WireType::UNKNOWN);
    let bytes = raw.clone().map(bytes::Bytes::from);
    let bind = Bind::new(None, None, vec![i16::from(binary)], vec![bytes], vec![]);
    let statement = Arc::new(StoredStatement::new(String::new(), (), vec![]));
    let parts = |t: chrono::NaiveTime| TimeOfDay {
        seconds: t.num_seconds_from_midnight(),
        nanos: t.nanosecond(),
    };
    Ok(WirePortal::try_new(&bind, statement)?.parameter(0, &ty)?.map(parts))
}

/// What a parameter holds that is decoded as `pg_interval::Interval`, if it can be.
pub uninterp spec fn wire_interval_value(oid: u32, binary: bool, raw: Option<Seq<u8>>) -> Option<
    Option<Interval>,
>;

/// `Portal::parameter` of pgwire at the type `pg_interval::Interval`. The type of the
/// parameter has to be `interval`; a null is then decoded as nothing. In binary form it
/// is the microseconds, the days and the months, and what follows is not read. A text is
/// decoded in the way of the crate, which adds up the numbers of the units.
#[verifier::external_body]
pub(crate) fn wire_interval(oid: u32, binary: bool, raw: &Option<Vec<u8>>) -> (r: Result<
    Option<Interval>,
    PgWireError,
>)
    requires
        raw matches Some(b) ==> if binary {
            b@.len() >= 16
        } else {
            is_plain_interval_text(b@)
        },
    ensures
        match r {
            Ok(v) => wire_interval_value(oid, binary, scalar::opt_bytes(*raw)) == Some(v),
            Err(_) => wire_interval_value(oid, binary, scalar::opt_bytes(*raw)) is None,
        },
        oid != 1186 ==> r is Err,
        oid == 1186 && raw is None ==> (r matches Ok(v) ==> v is None) && r is Ok,
        oid == 1186 && binary ==> (raw matches Some(b) ==> match r {
            Ok(v) => v == Some(interval_of(b@)),
            Err(_) => false,
        }),
        raw is Some ==> (r matches Ok(v) ==> v is Some),
{
    let ty = WireType::from_oid(oid).unwrap_or(WireType::UNKNOWN);
    let bytes = raw.clone().map(bytes::Bytes::from);
    let bind = Bind::new(None, None, vec![i16::from(binary)], vec![bytes], vec![]);
    let statement = Arc::new(StoredStatement::new(String::new(), (), vec![]));
    let parts = |i: pg_interval::Interval| Interval {
        months: i.months,
        days: i.days,
        microseconds: i.microseconds,
    };
    Ok(WirePortal::try_new(&bind, statement)?.parameter(0, &ty)?.map(parts))
}

/// What a parameter holds that is decoded as `Vec<Option<bool>>`, if it can be.
pub uninterp spec fn wire_bools_value(oid: u32, binary: bool, raw: Option<Seq<u8>>) -> Option<
    Option<Seq<Option<bool>>>,
>;

/// `Portal::parameter` of pgwire at the type `Vec<Option<bool>>`. The type of the
/// parameter has to be `bool[]`; a null is then decoded as nothing, and bytes
/// in the way of the crate.
#[verifier::external_body]
pub(crate) fn wire_bools(oid: u32, binary: bool, raw: &Option<Vec<u8>>) -> (r: Result<
    Option<Vec<Option<bool>>>,
    PgWireError,
>)
    ensures
        match r {
            Ok(v) => wire_bools_value(oid, binary, scalar::opt_bytes(*raw)) == Some(
                match v {
                    Some(v) => Some(v@),
                    None => None,
                },
            ),
            Err(_) => wire_bools_value(oid, binary, scalar::opt_bytes(*raw)) is None,
        },
        !(oid == 1000) ==> r is Err,
        (oid == 1000) && raw is None ==> (r matches Ok(v) ==> v is None) && r is Ok,
        raw is Some ==> (r matches Ok(v) ==> v is Some),
{
    let ty = WireType::from_oid(oid).unwrap_or(WireType::UNKNOWN);
    let bytes = raw.clone().map(bytes::Bytes::from);
    let bind = Bind::new(None, None, vec![i16::from(binary)], vec![bytes], vec![]);
    let statement = Arc::new(StoredStatement::new(String::new(), (), vec![]));
    WirePortal::try_new(&bind, statement)?.parameter(0, &ty)
}

/// What a parameter holds that is decoded as `Vec<Option<i16>>`, if it can be.
pub uninterp spec fn wire_i16s_value(oid: u32, binary: bool, raw: Option<Seq<u8>>) -> Option<
    Option<Seq<Option<i16>>>,
>;

/// `Portal::parameter` of pgwire at the type `Vec<Option<i16>>`, of a parameter of the
/// type `int2[]`: a null is decoded as nothing, and bytes
/// in the way of the crate.
#[verifier::external_body]
pub(crate) fn wire_i16s(oid: u32, binary: bool, raw: &Option<Vec<u8>>) -> (r: Result<
    Option<Vec<Option<i16>>>,
    PgWireError,
>)
    requires
        oid == 1005,
    ensures
        match r {
            Ok(v) => wire_i16s_value(oid, binary, scalar::opt_bytes(*raw)) == Some(
                match v {
                    Some(v) => Some(v@),
                    None => None,
                },
            ),
            Err(_) => wire_i16s_value(oid, binary, scalar::opt_bytes(*raw)) is None,
        },
        raw is None ==> (r matches Ok(v) ==> v is None) && r is Ok,
        raw is Some ==> (r matches Ok(v) ==> v is Some),
{
    let ty = WireType::from_oid(oid).unwrap_or(WireType::UNKNOWN);
    let bytes = raw.clone().map(bytes::Bytes::from);
    let bind = Bind::new(None, None, vec![i16::from(binary)], vec![bytes], vec![]);
    let statement = Arc::new(StoredStatement::new(String::new(), (), vec![]));
    WirePortal::try_new(&bind, statement)?.parameter(0, &ty)
}

/// What a parameter holds that is decoded as `Vec<Option<i32>>`, if it can be.
pub uninterp spec fn wire_i32s_value(oid: u32, binary: bool, raw: Option<Seq<u8>>) -> Option<
    Option<Seq<Option<i32>>>,
>;

/// `Portal::parameter` of pgwire at the type `Vec<Option<i32>>`. The type of the
/// parameter has to be `int4[]`; a null is then decoded as nothing, and bytes
/// in the way of the crate.
#[verifier::external_body]
pub(crate) fn wire_i32s(oid: u32, binary: bool, raw: &Option<Vec<u8>>) -> (r: Result<
    Option<Vec<Option<i32>>>,
    PgWireError,
>)
    ensures
        match r {
            Ok(v) => wire_i32s_value(oid, binary, scalar::opt_bytes(*raw)) == Some(
                match v {
                    Some(v) => Some(v@),
                    None => None,
                },
            ),
            Err(_) => wire_i32s_value(oid, binary, scalar::opt_bytes(*raw)) is None,
        },
        !(oid == 1007) ==> r is Err,
        (oid == 1007) && raw is None ==> (r matches Ok(v) ==> v is None) && r is Ok,
        raw is Some ==> (r matches Ok(v) ==> v is Some),
{
    let ty = WireType::from_oid(oid).unwrap_or(WireType::UNKNOWN);
    let bytes = raw.clone().map(bytes::Bytes::from);
    let bind = Bind::new(None, None, vec![i16::from(binary)], vec![bytes], vec![]);
    let statement = Arc::new(StoredStatement::new(String::new(), (), vec![]));
    WirePortal::try_new(&bind, statement)?.parameter(0, &ty)
}

/// What a parameter holds that is decoded as `Vec<Option<i64>>`, if it can be.
pub uninterp spec fn wire_i64s_value(oid: u32, binary: bool, raw: Option<Seq<u8>>) -> Option<
    Option<Seq<Option<i64>>>,
>;

/// `Portal::parameter` of pgwire at the type `Vec<Option<i64>>`. The type of the
/// parameter has to be `int8[]`; a null is then decoded as nothing, and bytes
/// in the way of the crate.
#[verifier::external_body]
pub(crate) fn wire_i64s(oid: u32, binary: bool, raw: &Option<Vec<u8>>) -> (r: Result<
    Option<Vec<Option<i64>>>,
    PgWireError,
>)
    ensures
        match r {
            Ok(v) => wire_i64s_value(oid, binary, scalar::opt_bytes(*raw)) == Some(
                match v {
                    Some(v) => Some(v@),
                    None => None,
                },
            ),
            Err(_) => wire_i64s_value(oid, binary, scalar::opt_bytes(*raw)) is None,
        },
        !(oid == 1016) ==> r is Err,
        (oid == 1016) && raw is None ==> (r matches Ok(v) ==> v is None) && r is Ok,
        raw is Some ==> (r matches Ok(v) ==> v is Some),
{
    let ty = WireType::from_oid(oid).unwrap_or(WireType::UNKNOWN);
    let bytes = raw.clone().map(bytes::Bytes::from);
    let bind = Bind::new(None, None, vec![i16::from(binary)], vec![bytes], vec![]);
    let statement = Arc::new(StoredStatement::new(String::new(), (), vec![]));
    WirePortal::try_new(&bind, statement)?.parameter(0, &ty)
}

/// What a parameter holds that is decoded as `Vec<Option<String>>`, if it can be.
pub uninterp spec fn wire_strings_value(oid: u32, binary: bool, raw: Option<Seq<u8>>) -> Option<
    Option<Seq<Option<Seq<char>>>>,
>;

/// `Portal::parameter` of pgwire at the type `Vec<Option<String>>`, of a parameter of the
/// type `text[]` or `varchar[]`: a null is decoded as nothing, and bytes
/// in the way of the crate.
#[verifier::external_body]
pub(crate) fn wire_strings(oid: u32, binary: bool, raw: &Option<Vec<u8>>) -> (r: Result<
    Option<Vec<Option<String>>>,
    PgWireError,
>)
    requires
        oid == 1009 || oid == 1015,
    ensures
        match r {
            Ok(v) => wire_strings_value(oid, binary, scalar::opt_bytes(*raw)) == Some(
                match v {
                    Some(v) => Some(opt_texts(v@)),
                    None => None,
                },
            ),
            Err(_) => wire_strings_value(oid, binary, scalar::opt_bytes(*raw)) is None,
        },
        raw is None ==> (r matches Ok(v) ==> v is None) && r is Ok,
        raw is Some ==> (r matches Ok(v) ==> v is Some),
{
    let ty = WireType::from_oid(oid).unwrap_or(WireType::UNKNOWN);
    let bytes = raw.clone().map(bytes::Bytes::from);
    let bind = Bind::new(None, None, vec![i16::from(binary)], vec![bytes], vec![]);
    let statement = Arc::new(StoredStatement::new(String::new(), (), vec![]));
    WirePortal::try_new(&bind, statement)?.parameter(0, &ty)
}

/// What a parameter holds that is decoded as `Vec<Option<pg_interval::Interval>>`, if it can be.
pub uninterp spec fn wire_intervals_value(oid: u32, binary: bool, raw: Option<Seq<u8>>) -> Option<
    Option<Seq<Option<Interval>>>,
>;

/// `Portal::parameter` of pgwire at the type `Vec<Option<pg_interval::Interval>>`. The type of the
/// parameter has to be `interval[]`; a null is then decoded as nothing, and bytes and texts
/// in the way of the crate.
#[verifier::external_body]
pub(crate) fn wire_intervals(oid: u32, binary: bool, raw: &Option<Vec<u8>>) -> (r: Result<
    Option<Vec<Option<Interval>>>,
    PgWireError,
>)
    requires
        raw matches Some(b) ==> if binary {
            long_elements(b@)
        } else {
            is_plain_interval_text(b@)
        },
    ensures
        match r {
            Ok(v) => wire_intervals_value(oid, binary, scalar::opt_bytes(*raw)) == Some(
                match v {
                    Some(v) => Some(v@),
                    None => None,
                },
            ),
            Err(_) => wire_intervals_value(oid, binary, scalar::opt_bytes(*raw)) is None,
        },
        !(oid == 1187) ==> r is Err,
        (oid == 1187) && raw is None ==> (r matches Ok(v) ==> v is None) && r is Ok,
        raw is Some ==> (r matches Ok(v) ==> v is Some),
{
    let ty = WireType::from_oid(oid).unwrap_or(WireType::UNKNOWN);
    let bytes = raw.clone().map(bytes::Bytes::from);
    let bind = Bind::new(None, None, vec![i16::from(binary)], vec![bytes], vec![]);
    let statement = Arc::new(StoredStatement::new(String::new(), (), vec![]));
    let parts = |i: pg_interval::Interval| Interval {
        months: i.months,
        days: i.days,
        microseconds: i.microseconds,
    };
    let list: Option<Vec<Option<_>>> = WirePortal::try_new(&bind, statement)?.parameter(0, &ty)?;
    Ok(list.map(|v| v.into_iter().map(|o| o.map(parts)).collect()))
}

/// What a parameter holds that is decoded as `Vec<Option<rust_decimal::Decimal>>`, if it can be.
pub uninterp spec fn wire_decimals_value(oid: u32, binary: bool, raw: Option<Seq<u8>>) -> Option<
    Option<Seq<Option<Decimal>>>,
>;

/// `Portal::parameter` of pgwire at the type `Vec<Option<rust_decimal::Decimal>>`. The type of the
/// parameter has to be `numeric[]`; a null is then decoded as nothing, and bytes
/// in the way of the crate.
#[verifier::external_body]
pub(crate) fn wire_decimals(oid: u32, binary: bool, raw: &Option<Vec<u8>>) -> (r: Result<
    Option<Vec<Option<Decimal>>>,
    PgWireError,
>)
    requires
        binary ==> (raw matches Some(b) ==> small_elements(b@)),
    ensures
        match r {
            Ok(v) => wire_decimals_value(oid, binary, scalar::opt_bytes(*raw)) == Some(
                match v {
                    Some(v) => Some(v@),
                    None => None,
                },
            ),
            Err(_) => wire_decimals_value(oid, binary, scalar::opt_bytes(*raw)) is None,
        },
        !(oid == 1231) ==> r is Err,
        (oid == 1231) && raw is None ==> (r matches Ok(v) ==> v is None) && r is Ok,
        raw is Some ==> (r matches Ok(v) ==> v is Some),
        r matches Ok(Some(v)) ==> forall|i: int|
            0 <= i < v@.len() ==> ((#[trigger] v@[i]) matches Some(d) ==> d.valid()),
{
    let ty = WireType::from_oid(oid).unwrap_or(WireType::UNKNOWN);
    let bytes = raw.clone().map(bytes::Bytes::from);
    let bind = Bind::new(None, None, vec![i16::from(binary)], vec![bytes], vec![]);
    let statement = Arc::new(StoredStatement::new(String::new(), (), vec![]));
    let parts = |d: rust_decimal::Decimal| Decimal {
        negative: d.is_sign_negative(),
        mantissa: d.mantissa(),
        scale: d.scale(),
    };
    let list: Option<Vec<Option<_>>> = WirePortal::try_new(&bind, statement)?.parameter(0, &ty)?;
    Ok(list.map(|v| v.into_iter().map(|o| o.map(parts)).collect()))
}

/// True of the types that a parameter can have that is decoded as text: `name`, `text`,
/// `unknown`, `bpchar` and `varchar`, and those of some extensions.
pub open spec fn is_text_type(t: TypeV) -> bool {
    match t {
        TypeV::Builtin(b) => {
            let oid = b.spec_oid();
            oid == 19 || oid == 25 || oid == 705 || oid == 1042 || oid == 1043
        },
        TypeV::Custom { name, .. } => name == "citext"@ || name == "ltree"@ || name == "lquery"@
            || name == "ltxtquery"@,
    }
}

/// `Portal::parameter` of pgwire at the type `String`. The type of the parameter has to be
/// a text type; a null is then decoded as nothing, and bytes as [`string_bytes`] says. A
/// built-in type that the crate does not know is no text type.
#[verifier::external_body]
pub(crate) fn wire_string(t: &Type, binary: bool, raw: &Option<Vec<u8>>) -> (r: Result<
    Option<String>,
    PgWireError,
>)
    ensures
        match r {
            Ok(v) => string_of(t@, binary, scalar::opt_bytes(*raw)) == Some(schema::opt_text(v)),
            Err(_) => string_of(t@, binary, scalar::opt_bytes(*raw)) is None,
        },
{
    let custom = |name: &str, oid: u32| {
        WireType::new(name.to_owned(), oid, postgres_types::Kind::Simple, String::new())
    };
    let ty = match t {
        Type::Builtin(b) => WireType::from_oid(b.oid()).unwrap_or_else(|| custom("", b.oid())),
        Type::Custom { name, oid, .. } => custom(name, *oid),
    };
    let bytes = raw.clone().map(bytes::Bytes::from);
    let bind = Bind::new(None, None, vec![i16::from(binary)], vec![bytes], vec![]);
    let statement = Arc::new(StoredStatement::new(String::new(), (), vec![]));
    WirePortal::try_new(&bind, statement)?.parameter(0, &ty)
}

/// The unscaled value of a decimal with another scale.
pub uninterp spec fn rescaled(negative: bool, mantissa: i128, scale: u32, new_scale: u32) -> i128;

/// `Decimal::rescale` and `Decimal::mantissa` of rust_decimal: the unscaled value of
/// the number with `scale` digits behind the point. A digit that is dropped rounds
/// the one before it, away from zero from five on. Digits are added as far as the
/// unscaled value stays within 96 bits; how many that are is left to the crate.
#[verifier::external_body]
pub(crate) fn rescale(d: Decimal, scale: u32) -> (r: i128)
    requires
        d.valid(),
    ensures
        r == rescaled(d.negative, d.mantissa, d.scale, scale),
        scale == d.scale || d.mantissa == 0 ==> r == d.mantissa,
        scale < d.scale ==> abs(r as int) == (abs(d.mantissa as int) / power::pow(
            10,
            (d.scale - scale - 1) as nat,
        ) + 5) / 10 && (d.mantissa < 0 ==> r <= 0) && (d.mantissa >= 0 ==> r >= 0),
        scale > d.scale ==> (abs(d.mantissa * power::pow(10, (scale - d.scale) as nat))
            < 0x1_0000_0000_0000_0000_0000_0000 ==> r == d.mantissa * power::pow(
            10,
            (scale - d.scale) as nat,
        )),
{
    let mut n = rust_decimal::Decimal::from_i128_with_scale(d.mantissa, d.scale);
    n.set_sign_negative(d.negative);
    n.rescale(scale);
    n.mantissa()
}

/// `Decimal::to_u64` of rust_decimal: the whole part of the number, unless the
/// number has a minus sign or the whole part needs more than 64 bits.
#[verifier::external_body]
pub(crate) fn decimal_to_u64(d: Decimal) -> (r: Option<u64>)
    requires
        d.valid(),
    ensures
        match r {
            Some(n) => !d.negative && n == d.whole(),
            None => d.negative || d.whole() > u64::MAX,
        },
{
    let mut n = rust_decimal::Decimal::from_i128_with_scale(d.mantissa, d.scale);
    n.set_sign_negative(d.negative);
    n.to_u64()
}

/// `Decimal::to_i64` of rust_decimal: the whole part of the number with its sign,
/// where it is in the range of the result.
#[verifier::external_body]
pub(crate) fn decimal_to_i64(d: Decimal) -> (r: Option<i64>)
    requires
        d.valid(),
    ensures
        match r {
            Some(n) => n == (if d.negative {
                -d.whole()
            } else {
                d.whole()
            }),
            None => if d.negative {
                -d.whole() < i64::MIN
            } else {
                d.whole() > i64::MAX
            },
        },
{
    let mut n = rust_decimal::Decimal::from_i128_with_scale(d.mantissa, d.scale);
    n.set_sign_negative(d.negative);
    n.to_i64()
}

/// The bits of the double-precision number next to a decimal.
pub uninterp spec fn decimal_f64_bits(negative: bool, mantissa: i128, scale: u32) -> u64;

/// The bits of the single-precision number next to a decimal.
pub uninterp spec fn decimal_f32_bits(negative: bool, mantissa: i128, scale: u32) -> u32;

/// The bits of the double-precision number next to an integer.
pub uninterp spec fn int_f64_bits(n: i64) -> u64;

/// The bits of the single-precision number next to an integer.
pub uninterp spec fn int_f32_bits(n: i64) -> u32;

/// `Decimal::to_f64` of rust_decimal, which always gives a number, as its bits.
#[verifier::external_body]
pub(crate) fn decimal_to_double(d: Decimal) -> (r: Option<u64>)
    requires
        d.valid(),
    ensures
        r == Some(decimal_f64_bits(d.negative, d.mantissa, d.scale)),
{
    let mut n = rust_decimal::Decimal::from_i128_with_scale(d.mantissa, d.scale);
    n.set_sign_negative(d.negative);
    n.to_f64().map(|x| x.to_bits())
}

/// `Decimal::to_f32` of rust_decimal, which always gives a number, as its bits.
#[verifier::external_body]
pub(crate) fn decimal_to_single(d: Decimal) -> (r: Option<u32>)
    requires
        d.valid(),
    ensures
        r == Some(decimal_f32_bits(d.negative, d.mantissa, d.scale)),
{
    let mut n = rust_decimal::Decimal::from_i128_with_scale(d.mantissa, d.scale);
    n.set_sign_negative(d.negative);
    n.to_f32().map(|x| x.to_bits())
}

/// `ToPrimitive::to_f64` of an integer, which always gives a number, as its bits.
#[verifier::external_body]
pub(crate) fn int_to_double(n: i64) -> (r: Option<u64>)
    ensures
        r == Some(int_f64_bits(n)),
{
    n.to_f64().map(|x| x.to_bits())
}

/// `ToPrimitive::to_f32` of an integer, which always gives a number, as its bits.
#[verifier::external_body]
pub(crate) fn int_to_single(n: i64) -> (r: Option<u32>)
    ensures
        r == Some(int_f32_bits(n)),
{
    n.to_f32().map(|x| x.to_bits())
}

/// `std::str::from_utf8`: the text that bytes stand for in UTF-8, if they do.
#[verifier::external_body]
pub(crate) fn text_from_utf8(b: &Vec<u8>) -> (r: Option<String>)
    ensures
        match r {
            Some(s) => vstd::utf8::valid_utf8(b@) && s@ == vstd::utf8::decode_utf8(b@),
            None => !vstd::utf8::valid_utf8(b@),
        },
{
    std::str::from_utf8(b).ok().map(|s| s.to_owned())
}

} // verus!
