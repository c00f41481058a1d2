use crate::bounds::{
    highest, lower_bound, lowest, max_high, min_low, rain_bound, ranges_bounded, round_lower,
    round_rain, round_upper, upper_bound, value_limit, HIGH_START,
};
use crate::clock::{CLOCK_RANGE_MILLIS, DAY_SECONDS};
use crate::numeric::{cell_bound, real_of, BuildError, NumericCell};
use crate::payload::{
    icon_file, wind_cursor, wind_error, ForecastGustBuilder, ForecastSymbolBuilder,
    ForecastWindBuilder,
};
use crate::series::{
    align_direct, align_ranged, in_clock_range, localize_series, minmax_of, ranged_error, retimed, series_error,
    stamp_of, value_of, ForecastIcon, ForecastValue, ForecastValueMinMax, ForecastWind,
    Timestamped,
};
use vstd::prelude::*;

verus! {

/// One calendar day of the payload, as the provider sends it.
#[derive(Clone, Debug)]
pub struct ForecastDayBuilder {
    pub day_string: String,
    pub rainfall: Vec<Vec<NumericCell>>,
    pub sunshine: Vec<Vec<NumericCell>>,
    pub temperature: Vec<Vec<NumericCell>>,
    pub variance_range: Vec<Vec<NumericCell>>,
    pub variance_rain: Vec<Vec<NumericCell>>,
    pub symbols: Vec<ForecastSymbolBuilder>,
    pub wind: ForecastWindBuilder,
    pub wind_gust_peak: ForecastGustBuilder,
}

/// One day of the forecast. Bounds are whole units; values are thousandths.
#[derive(Clone, Debug)]
pub struct ForecastDay {
    pub day: String,
    pub rainfall: Vec<ForecastValueMinMax>,
    pub sunshine: Vec<ForecastValue>,
    pub temperature: Vec<ForecastValueMinMax>,
    pub icons: Vec<ForecastIcon>,
    pub wind: Vec<ForecastWind>,
    pub wind_gust_peak: Vec<ForecastValue>,
    pub temp_min: i128,
    pub temp_max: i128,
    pub rain_max: i128,
}

/// A forecast: its days in calendar order, today first.
pub type Forecast = Vec<ForecastDay>;

/// The first of two possible errors.
pub open spec fn either(a: Option<BuildError>, b: Option<BuildError>) -> Option<BuildError> {
    if a is Some {
        a
    } else {
        b
    }
}

/// Why a day of the payload cannot be read, if it cannot: the first failing
/// series in the order rainfall, sunshine, temperature, wind, gusts.
pub open spec fn day_error(d: ForecastDayBuilder) -> Option<BuildError> {
    either(
        ranged_error(d.rainfall@, d.variance_rain@),
        either(
            series_error(d.sunshine@, BuildError::ValueArity, 0),
            either(
                ranged_error(d.temperature@, d.variance_range@),
                either(
                    wind_error(d.wind.data@, d.wind.symbols@),
                    series_error(d.wind_gust_peak.data@, BuildError::ValueArity, 0),
                ),
            ),
        ),
    )
}

/// `x` is `e` but for its time.
pub open spec fn same_but_time<T: Timestamped>(x: T, e: T) -> bool {
    x.with_time(e.time_spec()) == e
}

/// The wind measurement that the payload gives at index `i`, at its instant.
pub open spec fn wind_of(w: ForecastWindBuilder, i: int) -> ForecastWind {
    ForecastWind {
        time: stamp_of(w.data@[i]@[0]) as i128,
        strength: real_of(w.data@[i]@[1]) as i128,
        direction: w.symbols@[wind_cursor(w.symbols@, w.data@, i)].symbol_id,
    }
}

/// The first `n` samples of `s` are the entries `e(0)`, ..., `e(n - 1)` of the
/// payload, each at its epoch instant (`local` false) or each moved to a
/// local time of day (`local` true).
pub open spec fn series_from<T: Timestamped>(
    s: Seq<T>,
    n: int,
    e: spec_fn(int) -> T,
    local: bool,
) -> bool {
    &&& 0 <= n <= s.len()
    &&& forall|i: int|
        0 <= i < n ==> if local {
            same_but_time(#[trigger] s[i], e(i)) && 0 <= s[i].time_spec() < DAY_SECONDS
        } else {
            s[i] == e(i)
        }
}

/// `r` holds what the payload day `d` gives, icons resolved under `base`:
/// every series starts with the payload's entries, at their epoch instants
/// or moved to local times of day.
pub open spec fn day_from(r: ForecastDay, d: ForecastDayBuilder, base: Seq<char>, local: bool) -> bool {
    &&& r.day == d.day_string
    &&& series_from(
        r.rainfall@,
        d.rainfall@.len() as int,
        |i: int| minmax_of(d.rainfall@[i]@, d.variance_rain@[i]@),
        local,
    )
    &&& series_from(r.sunshine@, d.sunshine@.len() as int, |i: int| value_of(d.sunshine@[i]@), local)
    &&& series_from(
        r.temperature@,
        d.temperature@.len() as int,
        |i: int| minmax_of(d.temperature@[i]@, d.variance_range@[i]@),
        local,
    )
    &&& r.icons@.len() == d.symbols@.len()
    &&& forall|i: int|
        0 <= i < d.symbols@.len() ==> (#[trigger] r.icons@[i]).icon@ == icon_file(
            base,
            d.symbols@[i].weather_symbol_id,
        ) && if local {
            0 <= r.icons@[i].time < DAY_SECONDS
        } else {
            r.icons@[i].time == d.symbols@[i].timestamp
        }
    &&& r.wind@.len() == d.wind.data@.len()
    &&& series_from(r.wind@, d.wind.data@.len() as int, |i: int| wind_of(d.wind, i), local)
    &&& r.wind_gust_peak@.len() == d.wind_gust_peak.data@.len()
    &&& series_from(
        r.wind_gust_peak@,
        d.wind_gust_peak.data@.len() as int,
        |i: int| value_of(d.wind_gust_peak.data@[i]@),
        local,
    )
}

/// Every value that a bound is derived from lies within the value limit.
pub open spec fn day_bounded(r: ForecastDay) -> bool {
    ranges_bounded(r.rainfall@) && ranges_bounded(r.temperature@)
}

/// The day's axis bounds are those of its (extended) series.
pub open spec fn bounds_derived(r: ForecastDay) -> bool {
    &&& r.temp_min == lower_bound(min_low(r.temperature@))
    &&& r.temp_max == upper_bound(max_high(r.temperature@, HIGH_START as int))
    &&& r.rain_max == rain_bound(max_high(r.rainfall@, 0))
}

/// `x` moved one day later.
pub open spec fn next_day_sample<T: Timestamped>(x: T) -> T {
    x.with_time((x.time_spec() + DAY_SECONDS) as i128)
}

/// Every time of `s` lies within the first two days.
pub open spec fn within_two_days<T: Timestamped>(s: Seq<T>) -> bool {
    forall|i: int| 0 <= i < s.len() ==> 0 <= #[trigger] s[i].time_spec() < 2 * DAY_SECONDS
}

/// Every sample time of the series that the long-range view reads lies
/// within two days.
pub open spec fn times_within_two_days(r: ForecastDay) -> bool {
    &&& within_two_days(r.rainfall@)
    &&& within_two_days(r.temperature@)
    &&& within_two_days(r.icons@)
}

proof fn lemma_cells_bounded(s: Seq<ForecastValueMinMax>, vs: Seq<Vec<NumericCell>>, rs: Seq<Vec<NumericCell>>)
    requires
        s.len() == vs.len(),
        vs.len() == rs.len(),
        forall|i: int| 0 <= i < s.len() ==> #[trigger] s[i] == minmax_of(vs[i]@, rs[i]@),
    ensures
        ranges_bounded(s),
{
    assert forall|i: int| 0 <= i < s.len() implies -value_limit() <= (#[trigger] s[i]).low
        <= value_limit() && -value_limit() <= s[i].high <= value_limit() by {
        assert(-cell_bound() <= real_of(rs[i]@[1]) <= cell_bound());
        assert(-cell_bound() <= real_of(rs[i]@[2]) <= cell_bound());
    }
}

impl ForecastDayBuilder {
    /// Reads the day's series, each sample at its epoch instant. Bounds are
    /// left at their starting values.
    pub fn parse(&self, icon_path: &str) -> (r: Result<ForecastDay, BuildError>)
        ensures
            match r {
                Ok(day) => {
                    &&& day_error(*self) is None
                    &&& day_from(day, *self, icon_path@, false)
                    &&& day.rainfall@.len() == self.rainfall@.len()
                    &&& day.sunshine@.len() == self.sunshine@.len()
                    &&& day.temperature@.len() == self.temperature@.len()
                    &&& day_bounded(day)
                    &&& day.temp_min == 0 && day.temp_max == 0 && day.rain_max == 10
                },
                Err(e) => day_error(*self) == Some(e),
            },
    {
        let rainfall = align_ranged(&self.rainfall, &self.variance_rain)?;
        let sunshine = align_direct(&self.sunshine)?;
        let temperature = align_ranged(&self.temperature, &self.variance_range)?;
        let mut icons: Vec<ForecastIcon> = Vec::new();
        for i in 0..self.symbols.len()
            invariant
                icons@.len() == i,
                forall|j: int|
                    0 <= j < i ==> (#[trigger] icons@[j]).icon@ == icon_file(
                        icon_path@,
                        self.symbols@[j].weather_symbol_id,
                    ) && icons@[j].time == self.symbols@[j].timestamp,
        {
            icons.push(self.symbols[i].build(icon_path));
        }
        let wind = self.wind.build()?;
        let wind_gust_peak = self.wind_gust_peak.build()?;
        proof {
            lemma_cells_bounded(rainfall@, self.rainfall@, self.variance_rain@);
            lemma_cells_bounded(temperature@, self.temperature@, self.variance_range@);
        }
        Ok(
            ForecastDay {
                day: self.day_string.clone(),
                rainfall,
                sunshine,
                temperature,
                icons,
                wind,
                wind_gust_peak,
                temp_min: 0,
                temp_max: 0,
                rain_max: 10,
            },
        )
    }
}

/// Every sample of the day lies at a local time of day.
pub open spec fn on_clock(r: ForecastDay) -> bool {
    &&& forall|i: int| 0 <= i < r.rainfall@.len() ==> 0 <= (#[trigger] r.rainfall@[i]).time < DAY_SECONDS
    &&& forall|i: int| 0 <= i < r.sunshine@.len() ==> 0 <= (#[trigger] r.sunshine@[i]).time < DAY_SECONDS
    &&& forall|i: int| 0 <= i < r.temperature@.len() ==> 0 <= (#[trigger] r.temperature@[i]).time < DAY_SECONDS
    &&& forall|i: int| 0 <= i < r.icons@.len() ==> 0 <= (#[trigger] r.icons@[i]).time < DAY_SECONDS
}

/// The three series that the following day lends a first sample to are all
/// non-empty.
pub open spec fn can_lend(n: ForecastDay) -> bool {
    n.rainfall@.len() > 0 && n.sunshine@.len() > 0 && n.temperature@.len() > 0
}

/// `r` is `d` extended with the following day's first samples, one day
/// later, where there is a following day, and with its bounds derived.
pub open spec fn completed_from(r: ForecastDay, d: ForecastDay, next: Option<ForecastDay>) -> bool {
    &&& r.day == d.day
    &&& r.icons == d.icons
    &&& r.wind == d.wind
    &&& r.wind_gust_peak == d.wind_gust_peak
    &&& match next {
        None => r.rainfall@ == d.rainfall@ && r.sunshine@ == d.sunshine@ && r.temperature@
            == d.temperature@,
        Some(n) => {
            &&& r.rainfall@ == d.rainfall@.push(next_day_sample(n.rainfall@[0]))
            &&& r.sunshine@ == d.sunshine@.push(next_day_sample(n.sunshine@[0]))
            &&& r.temperature@ == d.temperature@.push(next_day_sample(n.temperature@[0]))
        },
    }
    &&& bounds_derived(r)
}

/// The day that `next` refers to, if any.
pub open spec fn owned(next: Option<&ForecastDay>) -> Option<ForecastDay> {
    match next {
        Some(n) => Some(*n),
        None => None,
    }
}

/// Every sample time of the day, in epoch milliseconds, lies within the
/// clock's range.
pub open spec fn day_in_clock_range(d: ForecastDay) -> bool {
    &&& in_clock_range(d.rainfall@)
    &&& in_clock_range(d.sunshine@)
    &&& in_clock_range(d.temperature@)
    &&& in_clock_range(d.icons@)
    &&& in_clock_range(d.wind@)
    &&& in_clock_range(d.wind_gust_peak@)
}

/// The timestamp of a payload entry lies within the clock's range.
pub open spec fn stamp_in_clock_range(row: Vec<NumericCell>) -> bool {
    -CLOCK_RANGE_MILLIS <= stamp_of(row@[0]) <= CLOCK_RANGE_MILLIS
}

/// Every timestamp of the payload day lies within the clock's range.
pub open spec fn payload_day_in_clock_range(d: ForecastDayBuilder) -> bool {
    &&& forall|i: int| 0 <= i < d.rainfall@.len() ==> stamp_in_clock_range(#[trigger] d.rainfall@[i])
    &&& forall|i: int| 0 <= i < d.sunshine@.len() ==> stamp_in_clock_range(#[trigger] d.sunshine@[i])
    &&& forall|i: int|
        0 <= i < d.temperature@.len() ==> stamp_in_clock_range(#[trigger] d.temperature@[i])
    &&& forall|i: int|
        0 <= i < d.symbols@.len() ==> -CLOCK_RANGE_MILLIS <= (#[trigger] d.symbols@[i]).timestamp
            <= CLOCK_RANGE_MILLIS
    &&& forall|i: int|
        0 <= i < d.wind.data@.len() ==> stamp_in_clock_range(#[trigger] d.wind.data@[i])
    &&& forall|i: int|
        0 <= i < d.wind_gust_peak.data@.len() ==> stamp_in_clock_range(
            #[trigger] d.wind_gust_peak.data@[i],
        )
}

/// Every timestamp of the payload lies within the clock's range.
pub open spec fn payload_in_clock_range(ds: Seq<ForecastDayBuilder>) -> bool {
    forall|k: int| 0 <= k < ds.len() ==> payload_day_in_clock_range(#[trigger] ds[k])
}

proof fn lemma_parsed_in_clock_range(p: ForecastDay, d: ForecastDayBuilder, base: Seq<char>)
    requires
        day_from(p, d, base, false),
        p.rainfall@.len() == d.rainfall@.len(),
        p.sunshine@.len() == d.sunshine@.len(),
        p.temperature@.len() == d.temperature@.len(),
        payload_day_in_clock_range(d),
    ensures
        day_in_clock_range(p),
{
    assert forall|i: int| 0 <= i < p.rainfall@.len() implies -CLOCK_RANGE_MILLIS <= #[trigger] p.rainfall@[i].time_spec() <= CLOCK_RANGE_MILLIS by {
        assert(stamp_in_clock_range(d.rainfall@[i]));
    }
    assert forall|i: int| 0 <= i < p.sunshine@.len() implies -CLOCK_RANGE_MILLIS <= #[trigger] p.sunshine@[i].time_spec() <= CLOCK_RANGE_MILLIS by {
        assert(stamp_in_clock_range(d.sunshine@[i]));
    }
    assert forall|i: int| 0 <= i < p.temperature@.len() implies -CLOCK_RANGE_MILLIS <= #[trigger] p.temperature@[i].time_spec() <= CLOCK_RANGE_MILLIS by {
        assert(stamp_in_clock_range(d.temperature@[i]));
    }
    assert forall|i: int| 0 <= i < p.icons@.len() implies -CLOCK_RANGE_MILLIS <= #[trigger] p.icons@[i].time_spec() <= CLOCK_RANGE_MILLIS by {
        assert(-CLOCK_RANGE_MILLIS <= d.symbols@[i].timestamp <= CLOCK_RANGE_MILLIS);
    }
    assert forall|i: int| 0 <= i < p.wind@.len() implies -CLOCK_RANGE_MILLIS <= #[trigger] p.wind@[i].time_spec() <= CLOCK_RANGE_MILLIS by {
        assert(stamp_in_clock_range(d.wind.data@[i]));
    }
    assert forall|i: int| 0 <= i < p.wind_gust_peak@.len() implies -CLOCK_RANGE_MILLIS <= #[trigger] p.wind_gust_peak@[i].time_spec() <= CLOCK_RANGE_MILLIS by {
        assert(stamp_in_clock_range(d.wind_gust_peak.data@[i]));
    }
}

impl ForecastDay {
    /// Moves every sample of the day from its epoch instant to its local
    /// time of day.
    pub fn localize(self) -> (r: Result<ForecastDay, BuildError>)
        ensures
            match r {
                Ok(day) => {
                    &&& day.day == self.day
                    &&& retimed(self.rainfall@, day.rainfall@)
                    &&& retimed(self.sunshine@, day.sunshine@)
                    &&& retimed(self.temperature@, day.temperature@)
                    &&& retimed(self.icons@, day.icons@)
                    &&& retimed(self.wind@, day.wind@)
                    &&& retimed(self.wind_gust_peak@, day.wind_gust_peak@)
                    &&& day.temp_min == self.temp_min
                    &&& day.temp_max == self.temp_max
                    &&& day.rain_max == self.rain_max
                },
                Err(e) => e == BuildError::LocalTime,
            },
            day_in_clock_range(self) ==> r is Ok,
    {
        Ok(
            ForecastDay {
                day: self.day,
                rainfall: localize_series(self.rainfall)?,
                sunshine: localize_series(self.sunshine)?,
                temperature: localize_series(self.temperature)?,
                icons: localize_series(self.icons)?,
                wind: localize_series(self.wind)?,
                wind_gust_peak: localize_series(self.wind_gust_peak)?,
                temp_min: self.temp_min,
                temp_max: self.temp_max,
                rain_max: self.rain_max,
            },
        )
    }

    /// Bleed-over and bounds: appends to rainfall, sunshine and temperature
    /// the following day's first sample moved one day later, then derives
    /// the axis bounds. A following day without such a first sample is an
    /// error.
    pub fn complete(self, next: Option<&ForecastDay>) -> (r: Result<ForecastDay, BuildError>)
        requires
            day_bounded(self),
            on_clock(self),
            next matches Some(n) ==> day_bounded(*n) && on_clock(*n),
        ensures
            match r {
                Ok(day) => {
                    &&& completed_from(day, self, owned(next))
                    &&& day_bounded(day)
                    &&& times_within_two_days(day)
                },
                Err(e) => e == BuildError::MissingFirstEntry && (next matches Some(n) && !can_lend(
                    *n,
                )),
            },
            next matches Some(n) && !can_lend(*n) ==> r is Err,
    {
        let mut day = self;
        match next {
            Some(n) => {
                if n.rainfall.len() == 0 || n.sunshine.len() == 0 || n.temperature.len() == 0 {
                    return Err(BuildError::MissingFirstEntry);
                }
                let mut rain = n.rainfall[0];
                rain.time = rain.time + DAY_SECONDS;
                day.rainfall.push(rain);
                let mut sun = n.sunshine[0];
                sun.time = sun.time + DAY_SECONDS;
                day.sunshine.push(sun);
                let mut temp = n.temperature[0];
                temp.time = temp.time + DAY_SECONDS;
                day.temperature.push(temp);
            },
            None => {},
        }
        let min_temp = lowest(&day.temperature);
        let max_temp = highest(&day.temperature, HIGH_START);
        let max_rain = highest(&day.rainfall, 0);
        day.temp_min = round_lower(min_temp);
        day.temp_max = round_upper(max_temp);
        day.rain_max = round_rain(max_rain);
        Ok(day)
    }
}

/// The whole payload: its days in calendar order, today first.
#[derive(Clone, Debug)]
pub struct ForecastBuilder {
    pub days: Vec<ForecastDayBuilder>,
}

/// The first error among the payload days from index `i` on.
pub open spec fn payload_error(ds: Seq<ForecastDayBuilder>, i: int) -> Option<BuildError>
    decreases ds.len() - i,
{
    if i < 0 || i >= ds.len() {
        None
    } else {
        either(day_error(ds[i]), payload_error(ds, i + 1))
    }
}

/// Some day after the first lacks a first sample to lend to its previous day.
pub open spec fn missing_first(ds: Seq<ForecastDayBuilder>) -> bool {
    exists|i: int|
        1 <= i < ds.len() && (#[trigger] ds[i].rainfall@.len() == 0 || ds[i].sunshine@.len() == 0
            || ds[i].temperature@.len() == 0)
}

/// One more sample where a following day lends one.
pub open spec fn lent(i: int, n: int) -> int {
    if i + 1 < n {
        1
    } else {
        0
    }
}

/// `days` is the forecast built from the payload days `ds`.
pub open spec fn forecast_from(days: Seq<ForecastDay>, ds: Seq<ForecastDayBuilder>, base: Seq<char>) -> bool {
    &&& days.len() == ds.len()
    &&& forall|i: int|
        0 <= i < ds.len() ==> {
            &&& day_from(#[trigger] days[i], ds[i], base, true)
            &&& days[i].rainfall@.len() == ds[i].rainfall@.len() + lent(i, ds.len() as int)
            &&& days[i].sunshine@.len() == ds[i].sunshine@.len() + lent(i, ds.len() as int)
            &&& days[i].temperature@.len() == ds[i].temperature@.len() + lent(i, ds.len() as int)
            &&& bounds_derived(days[i])
            &&& day_bounded(days[i])
            &&& times_within_two_days(days[i])
        }
    &&& forall|i: int|
        0 <= i < ds.len() - 1 ==> {
            &&& (#[trigger] days[i]).rainfall@.last() == next_day_sample(days[i + 1].rainfall@[0])
            &&& days[i].sunshine@.last() == next_day_sample(days[i + 1].sunshine@[0])
            &&& days[i].temperature@.last() == next_day_sample(days[i + 1].temperature@[0])
        }
}

proof fn lemma_localized(p: ForecastDay, l: ForecastDay, d: ForecastDayBuilder, base: Seq<char>)
    requires
        day_from(p, d, base, false),
        l.day == p.day,
        retimed(p.rainfall@, l.rainfall@),
        retimed(p.sunshine@, l.sunshine@),
        retimed(p.temperature@, l.temperature@),
        retimed(p.icons@, l.icons@),
        retimed(p.wind@, l.wind@),
        retimed(p.wind_gust_peak@, l.wind_gust_peak@),
    ensures
        day_from(l, d, base, true),
        on_clock(l),
{
    assert forall|i: int| 0 <= i < l.icons@.len() implies (#[trigger] l.icons@[i]).icon@ == p.icons@[i].icon@ by {
        assert(l.icons@[i] == p.icons@[i].with_time(l.icons@[i].time_spec()));
    }
}

proof fn lemma_localized_bounded(p: ForecastDay, l: ForecastDay)
    requires
        day_bounded(p),
        retimed(p.rainfall@, l.rainfall@),
        retimed(p.temperature@, l.temperature@),
    ensures
        day_bounded(l),
{
    assert forall|i: int| 0 <= i < l.rainfall@.len() implies -value_limit() <= (#[trigger] l.rainfall@[i]).low
        <= value_limit() && -value_limit() <= l.rainfall@[i].high <= value_limit() by {
        assert(l.rainfall@[i] == p.rainfall@[i].with_time(l.rainfall@[i].time_spec()));
        assert(ranges_bounded(p.rainfall@));
        assert(-value_limit() <= p.rainfall@[i].low);
    }
    assert forall|i: int| 0 <= i < l.temperature@.len() implies -value_limit() <= (#[trigger] l.temperature@[i]).low
        <= value_limit() && -value_limit() <= l.temperature@[i].high <= value_limit() by {
        assert(l.temperature@[i] == p.temperature@[i].with_time(l.temperature@[i].time_spec()));
        assert(ranges_bounded(p.temperature@));
        assert(-value_limit() <= p.temperature@[i].low);
    }
}

impl ForecastBuilder {
    /// Builds the forecast: reads every day, moves its samples to local times
    /// of day, lends each day the first samples of the next, and derives the
    /// bounds. Any error aborts the whole build.
    pub fn build(&self, icon_path: &str) -> (r: Result<Vec<ForecastDay>, BuildError>)
        ensures
            match r {
                Ok(days) => {
                    &&& payload_error(self.days@, 0) is None
                    &&& !missing_first(self.days@)
                    &&& forecast_from(days@, self.days@, icon_path@)
                },
                Err(e) => match payload_error(self.days@, 0) {
                    Some(f) => e == f,
                    None => e == BuildError::LocalTime || (e == BuildError::MissingFirstEntry
                        && missing_first(self.days@)),
                },
            },
            payload_error(self.days@, 0) is None && !missing_first(self.days@)
                && payload_in_clock_range(self.days@) ==> r is Ok,
            self.days@.len() == 0 ==> r is Ok,
    {
        let ds = &self.days;
        let n = ds.len();
        let mut parsed: Vec<ForecastDay> = Vec::new();
        for i in 0..n
            invariant
                n == ds@.len(),
                *ds == self.days,
                payload_error(ds@, 0) == payload_error(ds@, i as int),
                parsed@.len() == i,
                forall|j: int|
                    0 <= j < i ==> {
                        &&& day_from(#[trigger] parsed@[j], ds@[j], icon_path@, false)
                        &&& parsed@[j].rainfall@.len() == ds@[j].rainfall@.len()
                        &&& parsed@[j].sunshine@.len() == ds@[j].sunshine@.len()
                        &&& parsed@[j].temperature@.len() == ds@[j].temperature@.len()
                        &&& day_bounded(parsed@[j])
                        &&& (payload_in_clock_range(ds@) ==> day_in_clock_range(parsed@[j]))
                    },
        {
            let day = ds[i].parse(icon_path)?;
            proof {
                if payload_in_clock_range(ds@) {
                    assert(payload_day_in_clock_range(ds@[i as int]));
                    lemma_parsed_in_clock_range(day, ds@[i as int], icon_path@);
                }
            }
            parsed.push(day);
        }
        let ghost all_parsed = parsed@;
        let mut local: Vec<ForecastDay> = Vec::new();
        let mut rest = parsed;
        while rest.len() > 0
            invariant
                n == ds@.len(),
                *ds == self.days,
                payload_error(ds@, 0) is None,
                all_parsed.len() == n,
                local@.len() + rest@.len() == n,
                rest@ == all_parsed.subrange(local@.len() as int, n as int),
                forall|j: int|
                    0 <= j < n ==> {
                        &&& day_from(#[trigger] all_parsed[j], ds@[j], icon_path@, false)
                        &&& all_parsed[j].rainfall@.len() == ds@[j].rainfall@.len()
                        &&& all_parsed[j].sunshine@.len() == ds@[j].sunshine@.len()
                        &&& all_parsed[j].temperature@.len() == ds@[j].temperature@.len()
                        &&& day_bounded(all_parsed[j])
                        &&& (payload_in_clock_range(ds@) ==> day_in_clock_range(all_parsed[j]))
                    },
                forall|j: int|
                    0 <= j < local@.len() ==> {
                        &&& day_from(#[trigger] local@[j], ds@[j], icon_path@, true)
                        &&& local@[j].rainfall@.len() == ds@[j].rainfall@.len()
                        &&& local@[j].sunshine@.len() == ds@[j].sunshine@.len()
                        &&& local@[j].temperature@.len() == ds@[j].temperature@.len()
                        &&& day_bounded(local@[j])
                        &&& on_clock(local@[j])
                    },
            decreases rest@.len(),
        {
            let ghost k = local@.len() as int;
            let day = rest.remove(0);
            assert(day == all_parsed[k]);
            let l = match day.localize() {
                Ok(x) => x,
                Err(_) => return Err(BuildError::LocalTime),
            };
            proof {
                lemma_localized(all_parsed[k], l, ds@[k], icon_path@);
                lemma_localized_bounded(all_parsed[k], l);
            }
            local.push(l);
            assert(rest@ =~= all_parsed.subrange(local@.len() as int, n as int));
        }
        let ghost all_local = local@;
        let mut out: Vec<ForecastDay> = Vec::new();
        let mut rest = local;
        while rest.len() > 0
            invariant
                n == ds@.len(),
                *ds == self.days,
                payload_error(ds@, 0) is None,
                all_local.len() == n,
                out@.len() + rest@.len() == n,
                rest@ == all_local.subrange(out@.len() as int, n as int),
                forall|j: int|
                    0 <= j < n ==> {
                        &&& day_from(#[trigger] all_local[j], ds@[j], icon_path@, true)
                        &&& all_local[j].rainfall@.len() == ds@[j].rainfall@.len()
                        &&& all_local[j].sunshine@.len() == ds@[j].sunshine@.len()
                        &&& all_local[j].temperature@.len() == ds@[j].temperature@.len()
                        &&& day_bounded(all_local[j])
                        &&& on_clock(all_local[j])
                    },
                forall|j: int|
                    0 <= j < out@.len() ==> {
                        &&& completed_from(
                            #[trigger] out@[j],
                            all_local[j],
                            if j + 1 < n {
                                Some(all_local[j + 1])
                            } else {
                                None
                            },
                        )
                        &&& day_bounded(out@[j])
                        &&& times_within_two_days(out@[j])
                    },
                forall|j: int| 1 <= j <= out@.len() && j < n ==> can_lend(#[trigger] all_local[j]),
            decreases rest@.len(),
        {
            let ghost k = out@.len() as int;
            let day = rest.remove(0);
            assert(day == all_local[k]);
            let next = if rest.len() > 0 {
                assert(rest@[0] == all_local[k + 1]);
                Some(&rest[0])
            } else {
                None
            };
            let done = match day.complete(next) {
                Ok(x) => x,
                Err(_) => {
                    proof {
                        assert(!can_lend(all_local[k + 1]));
                        let w = k + 1;
                        assert(1 <= w < ds@.len());
                        assert(ds@[w].rainfall@.len() == 0 || ds@[w].sunshine@.len() == 0
                            || ds@[w].temperature@.len() == 0);
                        assert(missing_first(ds@));
                    }
                    return Err(BuildError::MissingFirstEntry);
                }
            };
            out.push(done);
            assert(rest@ =~= all_local.subrange(out@.len() as int, n as int));
        }
        proof {
            assert(!missing_first(ds@)) by {
                if missing_first(ds@) {
                    let w = choose|w: int|
                        1 <= w < ds@.len() && (#[trigger] ds@[w].rainfall@.len() == 0
                            || ds@[w].sunshine@.len() == 0 || ds@[w].temperature@.len() == 0);
                    assert(can_lend(all_local[w]));
                }
            }
            assert forall|i: int| 0 <= i < ds@.len() implies day_from(#[trigger] out@[i], ds@[i], icon_path@, true) by {
                assert(day_from(all_local[i], ds@[i], icon_path@, true));
                assert(out@[i].rainfall@.subrange(0, all_local[i].rainfall@.len() as int) == all_local[i].rainfall@);
            }
        }
        Ok(out)
    }
}

} // verus!
