use vstd::prelude::*;

verus! {

/// Number of thousandths in one unit: the fixed-point scale of real values.
pub const MILLI: i128 = 1000;

/// A number of the payload, as it was encoded: an integer, or a real number
/// held in thousandths of a unit.
#[derive(Clone, Copy, Debug, PartialEq, Eq, Structural)]
pub enum NumericCell {
    Integer(i64),
    Real(i64),
}

/// Why a forecast could not be built. Each kind has a fixed description.
#[derive(Clone, Copy, Debug, PartialEq, Eq, Structural)]
pub enum BuildError {
    /// An integer was expected where a real number was found.
    TypeMismatch,
    /// A value entry is not a pair (timestamp, value).
    ValueArity,
    /// A range entry is not a triple (timestamp, low, high).
    RangeArity,
    /// A value series and its range series differ in length.
    LengthMismatch,
    /// A value entry and its range entry carry different timestamps.
    RangeTimeMismatch,
    /// A wind measurement is not a pair (timestamp, strength).
    WindArity,
    /// The wind symbol series is empty.
    NoWindSymbol,
    /// The wind measurement series is empty.
    NoWindData,
    /// The first wind symbol and the first wind measurement differ in time.
    WindStartMismatch,
    /// A following day lacks the first entry that the previous day borrows.
    MissingFirstEntry,
    /// An instant could not be placed in the local time zone.
    LocalTime,
}

/// The fixed description of an error.
pub open spec fn message_of(e: BuildError) -> Seq<char> {
    match e {
        BuildError::TypeMismatch => "Expected integer, found float"@,
        BuildError::ValueArity => "ForecastValue requires a vector with 2 elements!"@,
        BuildError::RangeArity => "ForecastRange requires a vector with 3 elements!"@,
        BuildError::LengthMismatch => "Value and range series differ in length!"@,
        BuildError::RangeTimeMismatch => "Time of range-value pair does not match!"@,
        BuildError::WindArity => "Wind data vector is expected to have length 2!"@,
        BuildError::NoWindSymbol => "At least one wind symbol must exist"@,
        BuildError::NoWindData => "No values received for the wind!"@,
        BuildError::WindStartMismatch =>
            "The first symbol and the first measurement of wind does not match!"@,
        BuildError::MissingFirstEntry => "The following day has no first entry!"@,
        BuildError::LocalTime => "Timestamp cannot be placed in the local time zone!"@,
    }
}

impl BuildError {
    /// The fixed description of this error.
    pub fn message(&self) -> (r: &'static str)
        ensures
            r@ == message_of(*self),
    {
        match self {
            BuildError::TypeMismatch => "Expected integer, found float",
            BuildError::ValueArity => "ForecastValue requires a vector with 2 elements!",
            BuildError::RangeArity => "ForecastRange requires a vector with 3 elements!",
            BuildError::LengthMismatch => "Value and range series differ in length!",
            BuildError::RangeTimeMismatch => "Time of range-value pair does not match!",
            BuildError::WindArity => "Wind data vector is expected to have length 2!",
            BuildError::NoWindSymbol => "At least one wind symbol must exist",
            BuildError::NoWindData => "No values received for the wind!",
            BuildError::WindStartMismatch =>
                "The first symbol and the first measurement of wind does not match!",
            BuildError::MissingFirstEntry => "The following day has no first entry!",
            BuildError::LocalTime => "Timestamp cannot be placed in the local time zone!",
        }
    }
}

/// The exact value of a cell, in thousandths.
pub open spec fn real_of(c: NumericCell) -> int {
    match c {
        NumericCell::Integer(n) => n * MILLI,
        NumericCell::Real(m) => m as int,
    }
}

/// The integer that a cell holds, if it was encoded as one.
pub open spec fn integer_of(c: NumericCell) -> Option<i64> {
    match c {
        NumericCell::Integer(n) => Some(n),
        NumericCell::Real(_) => None,
    }
}

/// Largest magnitude of a value that a cell can yield, in thousandths.
pub open spec fn cell_bound() -> int {
    0x8000_0000_0000_0000 * MILLI
}

impl NumericCell {
    /// The cell as an integer; a real-tagged cell fails, whole or not.
    pub fn to_integer(&self) -> (r: Result<i64, BuildError>)
        ensures
            r == (match *self {
                NumericCell::Integer(n) => Ok::<i64, BuildError>(n),
                NumericCell::Real(_) => Err(BuildError::TypeMismatch),
            }),
    {
        match self {
            NumericCell::Integer(n) => Ok(*n),
            NumericCell::Real(_) => Err(BuildError::TypeMismatch),
        }
    }

    /// The cell as a real number in thousandths; an integer widens losslessly.
    pub fn to_real(&self) -> (r: i128)
        ensures
            r == real_of(*self),
            (*self) matches NumericCell::Integer(n) ==> r == n * MILLI,
            -cell_bound() <= r <= cell_bound(),
    {
        match self {
            NumericCell::Integer(n) => (*n as i128) * MILLI,
            NumericCell::Real(m) => *m as i128,
        }
    }
}

} // verus!
