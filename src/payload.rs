use crate::numeric::{integer_of, real_of, BuildError, NumericCell};
use crate::series::{
    align_direct, series_error, stamp_of, value_of, ForecastIcon, ForecastValue, ForecastWind,
};
use crate::text::{decimal, decimal_text};
use vstd::prelude::*;
use vstd::string::StringExecFns;

verus! {

/// A weather symbol of the payload.
#[derive(Clone, Debug)]
pub struct ForecastSymbolBuilder {
    pub timestamp: i64,
    pub weather_symbol_id: u64,
}

/// A change of wind direction: from `timestamp` on, the symbol `symbol_id`.
#[derive(Clone, Debug)]
pub struct ForecastWindSymbolBuilder {
    pub timestamp: i64,
    pub symbol_id: String,
}

/// The wind of one day: measurements and the sparser direction symbols.
#[derive(Clone, Debug)]
pub struct ForecastWindBuilder {
    pub data: Vec<Vec<NumericCell>>,
    pub symbols: Vec<ForecastWindSymbolBuilder>,
}

/// The gust peaks of one day.
#[derive(Clone, Debug)]
pub struct ForecastGustBuilder {
    pub data: Vec<Vec<NumericCell>>,
}

/// The icon number of a symbol id: day and night variants share one icon.
pub open spec fn icon_number(id: u64) -> u64 {
    if id > 100 {
        (id - 100) as u64
    } else {
        id
    }
}

/// The path of the icon file for a symbol id under `base`.
pub open spec fn icon_file(base: Seq<char>, id: u64) -> Seq<char> {
    base + "/"@ + decimal_text(icon_number(id) as nat) + ".pdf"@
}

impl ForecastSymbolBuilder {
    /// The icon of this symbol, resolved to `{icon_path}/{number}.pdf`.
    pub fn build(&self, icon_path: &str) -> (r: ForecastIcon)
        ensures
            r.time == self.timestamp,
            r.icon@ == icon_file(icon_path@, self.weather_symbol_id),
    {
        let id = self.weather_symbol_id;
        let number = if id > 100 {
            id - 100
        } else {
            id
        };
        let mut icon = String::from_str(icon_path);
        icon.append("/");
        let digits = decimal(number);
        icon.append(digits.as_str());
        icon.append(".pdf");
        ForecastIcon { time: self.timestamp as i128, icon }
    }
}

/// The index of the symbol in force at time `t`, moving on from index `k`
/// while the next symbol starts no later than `t`.
pub open spec fn advance(syms: Seq<ForecastWindSymbolBuilder>, k: int, t: int) -> int
    decreases syms.len() - k,
{
    if 0 <= k && k + 1 < syms.len() && syms[k + 1].timestamp <= t {
        advance(syms, k + 1, t)
    } else {
        k
    }
}

/// The index of the symbol attached to the `i`-th measurement.
pub open spec fn wind_cursor(
    syms: Seq<ForecastWindSymbolBuilder>,
    data: Seq<Vec<NumericCell>>,
    i: int,
) -> int
    decreases i,
{
    if i <= 0 {
        advance(syms, 0, stamp_of(data[0]@[0]))
    } else {
        advance(syms, wind_cursor(syms, data, i - 1), stamp_of(data[i]@[0]))
    }
}

/// Why the wind of a day cannot be aligned, if it cannot.
pub open spec fn wind_error(data: Seq<Vec<NumericCell>>, syms: Seq<ForecastWindSymbolBuilder>) -> Option<
    BuildError,
> {
    if syms.len() == 0 {
        Some(BuildError::NoWindSymbol)
    } else if data.len() == 0 {
        Some(BuildError::NoWindData)
    } else if data[0]@.len() != 2 {
        Some(BuildError::WindStartMismatch)
    } else if integer_of(data[0]@[0]) is None {
        Some(BuildError::TypeMismatch)
    } else if stamp_of(data[0]@[0]) != syms[0].timestamp {
        Some(BuildError::WindStartMismatch)
    } else {
        series_error(data, BuildError::WindArity, 0)
    }
}

proof fn lemma_advance_range(syms: Seq<ForecastWindSymbolBuilder>, k: int, t: int)
    requires
        0 <= k < syms.len(),
    ensures
        k <= advance(syms, k, t) < syms.len(),
    decreases syms.len() - k,
{
    if k + 1 < syms.len() && syms[k + 1].timestamp <= t {
        lemma_advance_range(syms, k + 1, t);
    }
}

proof fn lemma_advance_latest(syms: Seq<ForecastWindSymbolBuilder>, k: int, t: int)
    requires
        0 <= k < syms.len(),
        syms[k].timestamp <= t,
    ensures
        syms[advance(syms, k, t)].timestamp <= t,
        advance(syms, k, t) + 1 < syms.len() ==> syms[advance(syms, k, t) + 1].timestamp > t,
        k <= advance(syms, k, t) < syms.len(),
    decreases syms.len() - k,
{
    if k + 1 < syms.len() && syms[k + 1].timestamp <= t {
        lemma_advance_latest(syms, k + 1, t);
    }
}

/// Event-carry law: where the direction symbols and the measurements both
/// come in time order, each measurement carries the direction of the latest
/// symbol that starts no later than the measurement.
pub proof fn lemma_wind_latest_symbol(
    data: Seq<Vec<NumericCell>>,
    syms: Seq<ForecastWindSymbolBuilder>,
    i: int,
)
    requires
        wind_error(data, syms) is None,
        0 <= i < data.len(),
        forall|a: int, b: int|
            0 <= a <= b < syms.len() ==> #[trigger] syms[a].timestamp <= #[trigger] syms[b].timestamp,
        forall|a: int, b: int|
            0 <= a <= b < data.len() ==> #[trigger] stamp_of(data[a]@[0]) <= #[trigger] stamp_of(
                data[b]@[0],
            ),
    ensures
        0 <= wind_cursor(syms, data, i) < syms.len(),
        syms[wind_cursor(syms, data, i)].timestamp <= stamp_of(data[i]@[0]),
        forall|j: int|
            wind_cursor(syms, data, i) < j < syms.len() ==> #[trigger] syms[j].timestamp
                > stamp_of(data[i]@[0]),
    decreases i,
{
    let t = stamp_of(data[i]@[0]);
    if i == 0 {
        lemma_advance_latest(syms, 0, t);
    } else {
        lemma_wind_latest_symbol(data, syms, i - 1);
        let k0 = wind_cursor(syms, data, i - 1);
        assert(stamp_of(data[i - 1]@[0]) <= t);
        lemma_advance_latest(syms, k0, t);
    }
    let k = wind_cursor(syms, data, i);
    assert forall|j: int| k < j < syms.len() implies #[trigger] syms[j].timestamp > t by {
        assert(syms[k + 1].timestamp <= syms[j].timestamp);
    }
}

impl ForecastWindBuilder {
    /// Event-carry alignment: walks the measurements in order, moving on to
    /// each following symbol that starts no later than the measurement, and
    /// gives the measurement the direction of the current symbol. The first
    /// symbol must start with the first measurement.
    pub fn build(&self) -> (r: Result<Vec<ForecastWind>, BuildError>)
        ensures
            match r {
                Ok(v) => wind_error(self.data@, self.symbols@) is None && v@.len()
                    == self.data@.len() && forall|i: int|
                    0 <= i < self.data@.len() ==> {
                        &&& (#[trigger] v@[i]).time == stamp_of(self.data@[i]@[0])
                        &&& v@[i].strength == real_of(self.data@[i]@[1])
                        &&& v@[i].direction == self.symbols@[wind_cursor(
                            self.symbols@,
                            self.data@,
                            i,
                        )].symbol_id
                    },
                Err(e) => wind_error(self.data@, self.symbols@) == Some(e),
            },
    {
        let data = &self.data;
        let syms = &self.symbols;
        if syms.len() == 0 {
            return Err(BuildError::NoWindSymbol);
        }
        if data.len() == 0 {
            return Err(BuildError::NoWindData);
        }
        if data[0].len() != 2 {
            return Err(BuildError::WindStartMismatch);
        }
        let first = data[0][0].to_integer()?;
        if first != syms[0].timestamp {
            return Err(BuildError::WindStartMismatch);
        }
        let mut out: Vec<ForecastWind> = Vec::new();
        let mut k: usize = 0;
        let n = data.len();
        for i in 0..n
            invariant
                n == data@.len(),
                *data == self.data,
                *syms == self.symbols,
                wind_error(data@, syms@) == series_error(data@, BuildError::WindArity, i as int),
                0 <= k < syms@.len(),
                i > 0 ==> k == wind_cursor(syms@, data@, i - 1),
                i == 0 ==> k == 0,
                out@.len() == i,
                forall|j: int|
                    0 <= j < i ==> {
                        &&& (#[trigger] out@[j]).time == stamp_of(data@[j]@[0])
                        &&& out@[j].strength == real_of(data@[j]@[1])
                        &&& out@[j].direction == syms@[wind_cursor(
                            syms@,
                            data@,
                            j,
                        )].symbol_id
                    },
        {
            let entry = &data[i];
            if entry.len() != 2 {
                return Err(BuildError::WindArity);
            }
            let t = entry[0].to_integer()?;
            let ghost k0 = k as int;
            while k < syms.len() - 1 && syms[k + 1].timestamp <= t
                invariant
                    0 <= k < syms@.len(),
                    advance(syms@, k0, t as int) == advance(syms@, k as int, t as int),
                decreases syms@.len() - k,
            {
                k = k + 1;
            }
            assert(k == wind_cursor(syms@, data@, i as int));
            let direction = syms[k].symbol_id.clone();
            out.push(ForecastWind { time: t as i128, strength: entry[1].to_real(), direction });
        }
        Ok(out)
    }
}

impl ForecastGustBuilder {
    /// Direct alignment of the gust peaks.
    pub fn build(&self) -> (r: Result<Vec<ForecastValue>, BuildError>)
        ensures
            match r {
                Ok(v) => series_error(self.data@, BuildError::ValueArity, 0) is None && v@.len()
                    == self.data@.len() && forall|i: int|
                    0 <= i < self.data@.len() ==> #[trigger] v@[i] == value_of(self.data@[i]@),
                Err(e) => series_error(self.data@, BuildError::ValueArity, 0) == Some(e),
            },
    {
        align_direct(&self.data)
    }
}

} // verus!
