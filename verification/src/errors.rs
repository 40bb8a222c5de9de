//! What can go wrong.
use crate::schema::{DataType, DataTypeV};
use vstd::prelude::*;

verus! {

/// The error of the wire-protocol crate. It is carried through as it is.
#[verifier::external_type_specification]
#[verifier::external_body]
pub struct ExPgWireError(pgwire::error::PgWireError);

/// Where a number comes from that does not fit its target.
#[derive(Clone, Copy, Debug, PartialEq, Eq, Structural)]
pub enum NumberSource {
    Int,
    Float,
}

/// What cannot be turned into a value of a type.
#[derive(Clone, Copy, Debug, PartialEq, Eq, Structural)]
pub enum CoerceSource {
    Integer,
    Float,
    Timestamp,
    TimestampTz,
    Interval,
    Numeric,
}

/// What is wrong with the bytes of a parameter.
#[derive(Clone, Copy, Debug, PartialEq, Eq, Structural)]
pub enum Malformed {
    /// The bytes are no UTF-8 text.
    NotUtf8,
    /// An oid in binary form has other than four bytes.
    OidLength,
    /// The text of an oid is no number.
    OidText,
    /// A vector in binary form lacks its header.
    VectorTooShort,
    /// The unused word of a vector's header is not zero.
    VectorUnusedWord,
    /// A vector has no dimensions.
    VectorEmpty,
    /// A vector in binary form has another length than its header says.
    VectorLength,
    /// The text of a vector is not written in square brackets.
    VectorText,
    /// The text of an element of a vector is no number.
    VectorElement,
    /// A number or an interval that is decoded with floating-point arithmetic has
    /// no value.
    Undecoded,
    /// A numeric in binary form has more digits before the point than a decimal
    /// can hold.
    NumericTooLarge,
    /// An interval in binary form has less than sixteen bytes.
    IntervalTooShort,
    /// There is no format code for a parameter.
    NoFormat,
}

/// Why a request is refused.
#[allow(inconsistent_fields)]
#[derive(Debug)]
pub enum Error {
    /// A column type without a Postgres type.
    UnsupportedType(DataType),
    /// The item type of a list without a Postgres type.
    UnsupportedListType(DataType),
    /// A number outside the range of the target type.
    OutOfRange { source: NumberSource, value: i64, target: DataType },
    /// A float that is infinite or no number, where the target type is an integer.
    NotFinite { target: DataType },
    /// A parameter that cannot become a value of the target type.
    CannotCoerce { source: CoerceSource, target: DataType },
    /// An interval with days or a time, where only months fit.
    IntervalHasDays,
    /// An interval with months, where only days and a time fit.
    IntervalHasMonths,
    /// An interval with a part of a millisecond, where only whole ones fit.
    IntervalTooPrecise,
    /// A vector with another number of elements than its column has.
    VectorDimension { expected: usize, actual: usize },
    /// A number that does not fit 64 bits in the unit of the target type.
    Overflow { target: DataType },
    /// Neither the client nor the query gives a parameter a type.
    NoType,
    /// The bytes of a parameter do not have the form of its type.
    Malformed(Malformed),
    /// The wire-protocol crate refused a parameter.
    Wire(pgwire::error::PgWireError),
}

/// The model of an [`Error`].
#[allow(inconsistent_fields)]
#[verifier::ext_equal]
pub enum ErrorV {
    UnsupportedType(DataTypeV),
    UnsupportedListType(DataTypeV),
    OutOfRange { source: NumberSource, value: i64, target: DataTypeV },
    NotFinite { target: DataTypeV },
    CannotCoerce { source: CoerceSource, target: DataTypeV },
    IntervalHasDays,
    IntervalHasMonths,
    IntervalTooPrecise,
    VectorDimension { expected: usize, actual: usize },
    Overflow { target: DataTypeV },
    NoType,
    Malformed(Malformed),
    Wire,
}

impl View for Error {
    type V = ErrorV;

    open spec fn view(&self) -> ErrorV {
        match *self {
            Error::UnsupportedType(t) => ErrorV::UnsupportedType(t@),
            Error::UnsupportedListType(t) => ErrorV::UnsupportedListType(t@),
            Error::OutOfRange { source, value, target } => ErrorV::OutOfRange {
                source,
                value,
                target: target@,
            },
            Error::NotFinite { target } => ErrorV::NotFinite { target: target@ },
            Error::CannotCoerce { source, target } => ErrorV::CannotCoerce {
                source,
                target: target@,
            },
            Error::IntervalHasDays => ErrorV::IntervalHasDays,
            Error::IntervalHasMonths => ErrorV::IntervalHasMonths,
            Error::IntervalTooPrecise => ErrorV::IntervalTooPrecise,
            Error::VectorDimension { expected, actual } => ErrorV::VectorDimension {
                expected,
                actual,
            },
            Error::Overflow { target } => ErrorV::Overflow { target: target@ },
            Error::NoType => ErrorV::NoType,
            Error::Malformed(m) => ErrorV::Malformed(m),
            Error::Wire(_) => ErrorV::Wire,
        }
    }
}

/// The SQLSTATE of an error: `XX000` for a type that is not supported, `22023` for
/// a parameter that does not fit. Nothing for the errors that come from decoding a
/// parameter.
pub open spec fn state_of(e: ErrorV) -> Option<Seq<char>> {
    match e {
        ErrorV::UnsupportedType(_) | ErrorV::UnsupportedListType(_) => Some("XX000"@),
        ErrorV::Malformed(_) | ErrorV::Wire => None,
        _ => Some("22023"@),
    }
}

/// The model of an optional SQLSTATE.
pub open spec fn code_view(code: Option<&'static str>) -> Option<Seq<char>> {
    match code {
        Some(c) => Some(c@),
        None => None,
    }
}

impl Error {
    /// The SQLSTATE of this error.
    pub fn sqlstate(&self) -> (r: Option<&'static str>)
        ensures
            code_view(r) == state_of(self@),
    {
        match self {
            Error::UnsupportedType(_) | Error::UnsupportedListType(_) => Some("XX000"),
            Error::Malformed(_) | Error::Wire(_) => None,
            _ => Some("22023"),
        }
    }
}

} // verus!
