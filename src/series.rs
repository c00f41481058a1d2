use crate::numeric::{integer_of, real_of, BuildError, NumericCell};
use vstd::prelude::*;

verus! {

/// A sample of a plain series (sunshine, gusts).
#[derive(Clone, Copy, Debug, PartialEq, Eq, Structural)]
pub struct ForecastValue {
    /// Epoch milliseconds as parsed; seconds past local midnight in a day.
    pub time: i128,
    /// The value, in thousandths.
    pub value: i128,
}

/// A sample with its uncertainty range (rainfall, temperature).
#[derive(Clone, Copy, Debug, PartialEq, Eq, Structural)]
pub struct ForecastValueMinMax {
    pub time: i128,
    pub value: i128,
    pub low: i128,
    pub high: i128,
}

/// A wind measurement with the direction symbol in force at its time.
#[derive(Clone, Debug)]
pub struct ForecastWind {
    pub time: i128,
    pub strength: i128,
    pub direction: String,
}

/// A weather icon at a time, as the path of its file.
#[derive(Clone, Debug)]
pub struct ForecastIcon {
    pub time: i128,
    pub icon: String,
}

/// The integer of a timestamp cell (zero where it holds none).
pub open spec fn stamp_of(c: NumericCell) -> int {
    match c {
        NumericCell::Integer(n) => n as int,
        NumericCell::Real(_) => 0,
    }
}

/// What is wrong with an entry that must be a pair (timestamp, value).
pub open spec fn pair_error(e: Seq<NumericCell>, arity: BuildError) -> Option<BuildError> {
    if e.len() != 2 {
        Some(arity)
    } else if integer_of(e[0]) is None {
        Some(BuildError::TypeMismatch)
    } else {
        None
    }
}

/// The sample of a well-formed pair.
pub open spec fn value_of(e: Seq<NumericCell>) -> ForecastValue {
    ForecastValue { time: stamp_of(e[0]) as i128, value: real_of(e[1]) as i128 }
}

/// What is wrong with a value pair and its range triple.
pub open spec fn minmax_error(v: Seq<NumericCell>, r: Seq<NumericCell>) -> Option<BuildError> {
    if v.len() != 2 {
        Some(BuildError::ValueArity)
    } else if r.len() != 3 {
        Some(BuildError::RangeArity)
    } else if v[0] != r[0] {
        Some(BuildError::RangeTimeMismatch)
    } else if integer_of(v[0]) is None {
        Some(BuildError::TypeMismatch)
    } else {
        None
    }
}

/// The ranged sample of a well-formed value pair and range triple.
pub open spec fn minmax_of(v: Seq<NumericCell>, r: Seq<NumericCell>) -> ForecastValueMinMax {
    ForecastValueMinMax {
        time: stamp_of(v[0]) as i128,
        value: real_of(v[1]) as i128,
        low: real_of(r[1]) as i128,
        high: real_of(r[2]) as i128,
    }
}

/// The first error among the pairs of `data` from index `i` on.
pub open spec fn series_error(data: Seq<Vec<NumericCell>>, arity: BuildError, i: int) -> Option<
    BuildError,
>
    decreases data.len() - i,
{
    if i < 0 || i >= data.len() {
        None
    } else {
        match pair_error(data[i]@, arity) {
            Some(e) => Some(e),
            None => series_error(data, arity, i + 1),
        }
    }
}

/// The first error among the entries of a value series and its range series
/// of the same length, from index `i` on.
pub open spec fn ranged_error_from(
    vs: Seq<Vec<NumericCell>>,
    rs: Seq<Vec<NumericCell>>,
    i: int,
) -> Option<BuildError>
    decreases vs.len() - i,
{
    if i < 0 || i >= vs.len() {
        None
    } else {
        match minmax_error(vs[i]@, rs[i]@) {
            Some(e) => Some(e),
            None => ranged_error_from(vs, rs, i + 1),
        }
    }
}

/// Why a value series and its range series cannot be aligned, if they cannot.
pub open spec fn ranged_error(vs: Seq<Vec<NumericCell>>, rs: Seq<Vec<NumericCell>>) -> Option<
    BuildError,
> {
    if vs.len() != rs.len() {
        Some(BuildError::LengthMismatch)
    } else {
        ranged_error_from(vs, rs, 0)
    }
}

impl ForecastValue {
    /// Reads a pair (timestamp, value).
    pub fn from(obj: &Vec<NumericCell>) -> (r: Result<ForecastValue, BuildError>)
        ensures
            r == (match pair_error(obj@, BuildError::ValueArity) {
                Some(e) => Err(e),
                None => Ok(value_of(obj@)),
            }),
    {
        if obj.len() != 2 {
            return Err(BuildError::ValueArity);
        }
        let time = obj[0].to_integer()?;
        Ok(ForecastValue { time: time as i128, value: obj[1].to_real() })
    }
}

impl ForecastValueMinMax {
    /// Reads a pair (timestamp, value) together with its range triple
    /// (timestamp, low, high).
    pub fn from(value_obj: &Vec<NumericCell>, range_obj: &Vec<NumericCell>) -> (r: Result<
        ForecastValueMinMax,
        BuildError,
    >)
        ensures
            r == (match minmax_error(value_obj@, range_obj@) {
                Some(e) => Err(e),
                None => Ok(minmax_of(value_obj@, range_obj@)),
            }),
    {
        if value_obj.len() != 2 {
            return Err(BuildError::ValueArity);
        }
        if range_obj.len() != 3 {
            return Err(BuildError::RangeArity);
        }
        if value_obj[0] != range_obj[0] {
            return Err(BuildError::RangeTimeMismatch);
        }
        let time = value_obj[0].to_integer()?;
        Ok(
            ForecastValueMinMax {
                time: time as i128,
                value: value_obj[1].to_real(),
                low: range_obj[1].to_real(),
                high: range_obj[2].to_real(),
            },
        )
    }
}

/// Direct alignment: one sample per pair (timestamp, value).
pub fn align_direct(data: &Vec<Vec<NumericCell>>) -> (r: Result<Vec<ForecastValue>, BuildError>)
    ensures
        match r {
            Ok(v) => series_error(data@, BuildError::ValueArity, 0) is None && v@.len()
                == data@.len() && forall|i: int|
                0 <= i < data@.len() ==> #[trigger] v@[i] == value_of(data@[i]@),
            Err(e) => series_error(data@, BuildError::ValueArity, 0) == Some(e),
        },
{
    let mut out: Vec<ForecastValue> = Vec::new();
    let n = data.len();
    for i in 0..n
        invariant
            n == data@.len(),
            series_error(data@, BuildError::ValueArity, 0) == series_error(
                data@,
                BuildError::ValueArity,
                i as int,
            ),
            out@.len() == i,
            forall|j: int| 0 <= j < i ==> #[trigger] out@[j] == value_of(data@[j]@),
    {
        let x = ForecastValue::from(&data[i]);
        match x {
            Ok(s) => out.push(s),
            Err(e) => return Err(e),
        }
    }
    Ok(out)
}

/// Ranged-value alignment: pairs the i-th value entry with the i-th range
/// entry; the two series must have the same length and matching timestamps.
pub fn align_ranged(values: &Vec<Vec<NumericCell>>, ranges: &Vec<Vec<NumericCell>>) -> (r: Result<
    Vec<ForecastValueMinMax>,
    BuildError,
>)
    ensures
        match r {
            Ok(v) => ranged_error(values@, ranges@) is None && v@.len() == values@.len()
                && forall|i: int|
                0 <= i < values@.len() ==> #[trigger] v@[i] == minmax_of(
                    values@[i]@,
                    ranges@[i]@,
                ),
            Err(e) => ranged_error(values@, ranges@) == Some(e),
        },
        values@.len() != ranges@.len() ==> r == Err::<Vec<ForecastValueMinMax>, BuildError>(
            BuildError::LengthMismatch,
        ),
{
    let n = values.len();
    if n != ranges.len() {
        return Err(BuildError::LengthMismatch);
    }
    let mut out: Vec<ForecastValueMinMax> = Vec::new();
    for i in 0..n
        invariant
            n == values@.len(),
            n == ranges@.len(),
            ranged_error_from(values@, ranges@, 0) == ranged_error_from(
                values@,
                ranges@,
                i as int,
            ),
            out@.len() == i,
            forall|j: int|
                0 <= j < i ==> #[trigger] out@[j] == minmax_of(values@[j]@, ranges@[j]@),
    {
        let x = ForecastValueMinMax::from(&values[i], &ranges[i]);
        match x {
            Ok(s) => out.push(s),
            Err(e) => return Err(e),
        }
    }
    Ok(out)
}

} // verus!

verus! {

/// A sample that carries a time.
pub trait Timestamped: Sized {
    /// The sample's time.
    spec fn time_spec(&self) -> i128;

    /// The same sample at time `t`.
    spec fn with_time(&self, t: i128) -> Self;

    proof fn lemma_with_time(&self, t: i128)
        ensures
            self.with_time(t).time_spec() == t,
    ;

    fn time(&self) -> (r: i128)
        ensures
            r == self.time_spec(),
    ;

    fn set_time(&mut self, t: i128)
        ensures
            *final(self) == old(self).with_time(t),
    ;
}

impl Timestamped for ForecastValue {
    open spec fn time_spec(&self) -> i128 {
        self.time
    }

    open spec fn with_time(&self, t: i128) -> Self {
        ForecastValue { time: t, ..*self }
    }

    proof fn lemma_with_time(&self, t: i128) {
    }

    fn time(&self) -> (r: i128) {
        self.time
    }

    fn set_time(&mut self, t: i128) {
        self.time = t;
    }
}

impl Timestamped for ForecastValueMinMax {
    open spec fn time_spec(&self) -> i128 {
        self.time
    }

    open spec fn with_time(&self, t: i128) -> Self {
        ForecastValueMinMax { time: t, ..*self }
    }

    proof fn lemma_with_time(&self, t: i128) {
    }

    fn time(&self) -> (r: i128) {
        self.time
    }

    fn set_time(&mut self, t: i128) {
        self.time = t;
    }
}

impl Timestamped for ForecastWind {
    open spec fn time_spec(&self) -> i128 {
        self.time
    }

    open spec fn with_time(&self, t: i128) -> Self {
        ForecastWind { time: t, strength: self.strength, direction: self.direction }
    }

    proof fn lemma_with_time(&self, t: i128) {
    }

    fn time(&self) -> (r: i128) {
        self.time
    }

    fn set_time(&mut self, t: i128) {
        self.time = t;
    }
}

impl Timestamped for ForecastIcon {
    open spec fn time_spec(&self) -> i128 {
        self.time
    }

    open spec fn with_time(&self, t: i128) -> Self {
        ForecastIcon { time: t, icon: self.icon }
    }

    proof fn lemma_with_time(&self, t: i128) {
    }

    fn time(&self) -> (r: i128) {
        self.time
    }

    fn set_time(&mut self, t: i128) {
        self.time = t;
    }
}

/// `b` is `a` with each sample moved to a time of day.
pub open spec fn retimed<T: Timestamped>(a: Seq<T>, b: Seq<T>) -> bool {
    &&& a.len() == b.len()
    &&& forall|i: int|
        0 <= i < a.len() ==> #[trigger] b[i] == a[i].with_time(b[i].time_spec())
            && 0 <= b[i].time_spec() < crate::clock::DAY_SECONDS
}

/// Every time of `s`, in epoch milliseconds, lies within the clock's range.
pub open spec fn in_clock_range<T: Timestamped>(s: Seq<T>) -> bool {
    forall|i: int|
        0 <= i < s.len() ==> -crate::clock::CLOCK_RANGE_MILLIS <= #[trigger] s[i].time_spec()
            <= crate::clock::CLOCK_RANGE_MILLIS
}

/// Moves every sample from its epoch-millisecond instant to its local time
/// of day, in seconds past midnight.
pub fn localize_series<T: Timestamped>(v: Vec<T>) -> (r: Result<Vec<T>, BuildError>)
    ensures
        match r {
            Ok(w) => retimed(v@, w@),
            Err(e) => e == BuildError::LocalTime,
        },
        in_clock_range(v@) ==> r is Ok,
{
    let mut w = v;
    let ghost orig = w@;
    assert(orig == v@);
    let n = w.len();
    for i in 0..n
        invariant
            n == orig.len(),
            orig == v@,
            w@.len() == n,
            forall|j: int|
                0 <= j < i ==> #[trigger] w@[j] == orig[j].with_time(w@[j].time_spec()) && 0
                    <= w@[j].time_spec() < crate::clock::DAY_SECONDS,
            forall|j: int| i <= j < n ==> #[trigger] w@[j] == orig[j],
    {
        let t = w[i].time();
        assert(t == orig[i as int].time_spec());
        let local = match crate::clock::timestamp_to_time(t) {
            Ok(x) => x,
            Err(e) => return Err(e),
        };
        w[i].set_time(local);
        proof {
            orig[i as int].lemma_with_time(local);
        }
    }
    Ok(w)
}

} // verus!
