use crate::clock::DAY_SECONDS;
use crate::bounds::value_limit;
use crate::day::ForecastDay;
use crate::series::{ForecastIcon, ForecastValueMinMax, Timestamped};
use vstd::prelude::*;
use vstd::string::StringExecFns;

verus! {

/// Collapses runs of equal neighbours: an entry is kept when it is the last
/// one or differs from the entry after it.
pub open spec fn dedup(s: Seq<ForecastValueMinMax>) -> Seq<ForecastValueMinMax>
    decreases s.len(),
{
    if s.len() <= 1 {
        s
    } else if s[0] == s[1] {
        dedup(s.drop_first())
    } else {
        seq![s[0]] + dedup(s.drop_first())
    }
}

/// No two neighbours of `s` are equal.
pub open spec fn no_adjacent_equal(s: Seq<ForecastValueMinMax>) -> bool {
    forall|i: int| 0 <= i < s.len() - 1 ==> #[trigger] s[i] != s[i + 1]
}

/// The entries of `s` at even indices.
pub open spec fn even_entries(s: Seq<ForecastIcon>) -> Seq<ForecastIcon> {
    Seq::new(((s.len() + 1) / 2) as nat, |j: int| s[2 * j])
}

/// How many times the raw time of day has fallen back, up to index `i`.
pub open spec fn rollovers<T: Timestamped>(s: Seq<T>, i: int) -> int
    decreases i,
{
    if i <= 0 {
        0
    } else {
        rollovers(s, i - 1) + if s[i].time_spec() < s[i - 1].time_spec() {
            1int
        } else {
            0int
        }
    }
}

/// The time of entry `i` on the continuous axis, in seconds from the start
/// of the first day.
pub open spec fn rebased_time<T: Timestamped>(s: Seq<T>, i: int) -> int {
    s[i].time_spec() + rollovers(s, i) * DAY_SECONDS
}

/// `s` with every time moved onto the continuous axis.
pub open spec fn rebased<T: Timestamped>(s: Seq<T>) -> Seq<T> {
    Seq::new(s.len(), |i: int| s[i].with_time(rebased_time(s, i) as i128))
}

/// Every time of `s` lies within the range that rebasing can shift without
/// leaving `i128`.
pub open spec fn times_fit<T: Timestamped>(s: Seq<T>) -> bool {
    forall|i: int|
        0 <= i < s.len() ==> -value_limit() <= #[trigger] s[i].time_spec() <= value_limit()
}

proof fn lemma_dedup_first(s: Seq<ForecastValueMinMax>)
    requires
        s.len() > 0,
    ensures
        dedup(s).len() > 0,
        dedup(s)[0] == s[0],
    decreases s.len(),
{
    if s.len() > 1 {
        lemma_dedup_first(s.drop_first());
    }
}

proof fn lemma_dedup_no_adjacent(s: Seq<ForecastValueMinMax>)
    ensures
        no_adjacent_equal(dedup(s)),
    decreases s.len(),
{
    if s.len() > 1 {
        let t = s.drop_first();
        lemma_dedup_no_adjacent(t);
        if s[0] != s[1] {
            lemma_dedup_first(t);
            let d = dedup(s);
            let dt = dedup(t);
            assert forall|i: int| 0 <= i < d.len() - 1 implies #[trigger] d[i] != d[i + 1] by {
                if i > 0 {
                    assert(d[i] == dt[i - 1]);
                    assert(d[i + 1] == dt[i]);
                }
            }
        }
    }
}

proof fn lemma_dedup_fixed(s: Seq<ForecastValueMinMax>)
    requires
        no_adjacent_equal(s),
    ensures
        dedup(s) == s,
    decreases s.len(),
{
    if s.len() > 1 {
        let t = s.drop_first();
        assert(s[0] != s[1]);
        assert forall|i: int| 0 <= i < t.len() - 1 implies #[trigger] t[i] != t[i + 1] by {
            assert(s[i + 1] != s[i + 2]);
        }
        lemma_dedup_fixed(t);
        assert(seq![s[0]] + t =~= s);
    }
}

/// Deduplication is idempotent: collapsing equal neighbours a second time
/// changes nothing.
pub proof fn lemma_dedup_idempotent(s: Seq<ForecastValueMinMax>)
    ensures
        dedup(dedup(s)) == dedup(s),
{
    lemma_dedup_no_adjacent(s);
    lemma_dedup_fixed(dedup(s));
}

proof fn lemma_rollovers_at_most<T: Timestamped>(s: Seq<T>, i: int)
    ensures
        0 <= rollovers(s, i) <= if i < 0 {
            0
        } else {
            i
        },
    decreases i,
{
    if i > 0 {
        lemma_rollovers_at_most(s, i - 1);
    }
}

/// Rebasing keeps time in order: where the raw time of day never falls back
/// by more than a day between neighbours, the rebased times never decrease.
pub proof fn lemma_rebased_non_decreasing<T: Timestamped>(s: Seq<T>)
    requires
        forall|i: int|
            0 <= i < s.len() - 1 ==> #[trigger] s[i].time_spec() <= s[i + 1].time_spec()
                + DAY_SECONDS,
    ensures
        forall|i: int|
            0 <= i < s.len() - 1 ==> #[trigger] rebased_time(s, i) <= rebased_time(s, i + 1),
{
    assert forall|i: int| 0 <= i < s.len() - 1 implies #[trigger] rebased_time(s, i)
        <= rebased_time(s, i + 1) by {
        assert(s[i].time_spec() <= s[i + 1].time_spec() + DAY_SECONDS);
        assert(rollovers(s, i + 1) == rollovers(s, i) + if s[i + 1].time_spec()
            < s[i].time_spec() {
            1int
        } else {
            0int
        });
    }
}

/// Keeps an entry when it is the last one or differs from the next one.
pub fn remove_duplicate(v: &Vec<ForecastValueMinMax>) -> (r: Vec<ForecastValueMinMax>)
    ensures
        r@ == dedup(v@),
        times_fit(v@) ==> times_fit(r@),
{
    let n = v.len();
    let mut out: Vec<ForecastValueMinMax> = Vec::new();
    proof {
        assert(v@.subrange(0, n as int) =~= v@);
        assert(out@ + dedup(v@) =~= dedup(v@));
    }
    for i in 0..n
        invariant
            n == v@.len(),
            out@ + dedup(v@.subrange(i as int, n as int)) == dedup(v@),
            times_fit(v@) ==> times_fit(out@),
    {
        let ghost t = v@.subrange(i as int, n as int);
        let ghost rest = v@.subrange(i + 1, n as int);
        assert(t.drop_first() =~= rest);
        if i + 1 == n || v[i] != v[i + 1] {
            proof {
                if i + 1 == n {
                    assert(rest =~= Seq::<ForecastValueMinMax>::empty());
                    assert(t =~= seq![v@[i as int]]);
                } else {
                    assert(t[0] != t[1]);
                }
                assert(dedup(t) == seq![v@[i as int]] + dedup(rest));
                assert(out@.push(v@[i as int]) + dedup(rest) =~= out@ + (seq![v@[i as int]]
                    + dedup(rest)));
            }
            out.push(v[i]);
        } else {
            assert(t[0] == t[1]);
        }
    }
    proof {
        assert(v@.subrange(n as int, n as int) =~= Seq::<ForecastValueMinMax>::empty());
        assert(out@ + Seq::<ForecastValueMinMax>::empty() =~= out@);
    }
    out
}

fn copy_icon(x: &ForecastIcon) -> (r: ForecastIcon)
    ensures
        r == *x,
{
    ForecastIcon { time: x.time, icon: x.icon.clone() }
}

/// Icon thinning: keeps the entries at indices 0, 2, 4, ...
pub fn remove_every_second(v: &Vec<ForecastIcon>) -> (r: Vec<ForecastIcon>)
    ensures
        r@ == even_entries(v@),
{
    let n = v.len();
    let mut out: Vec<ForecastIcon> = Vec::new();
    let mut skip = false;
    for i in 0..n
        invariant
            n == v@.len(),
            skip == (i % 2 == 1),
            out@.len() == (i + 1) / 2,
            forall|j: int| 0 <= j < out@.len() ==> #[trigger] out@[j] == v@[2 * j],
    {
        if !skip {
            out.push(copy_icon(&v[i]));
        }
        skip = !skip;
    }
    assert(out@ =~= even_entries(v@));
    out
}

/// Timestamp rebasing: walks the series once, adding a day to the offset
/// whenever the raw time of day falls back, and moves each entry to its raw
/// time plus the offset.
pub fn fix_timestamps<T: Timestamped>(v: Vec<T>) -> (r: Vec<T>)
    requires
        times_fit(v@),
    ensures
        r@ == rebased(v@),
{
    let mut v = v;
    let ghost orig = v@;
    let n = v.len();
    let mut offset: i128 = 0;
    let mut prev: i128 = 0;
    for i in 0..n
        invariant
            n == orig.len(),
            v@.len() == n,
            times_fit(orig),
            i > 0 ==> prev == orig[i - 1].time_spec(),
            offset == rollovers(orig, i - 1) * DAY_SECONDS,
            0 <= rollovers(orig, i - 1) <= i,
            forall|j: int| 0 <= j < i ==> #[trigger] v@[j] == rebased(orig)[j],
            forall|j: int| i <= j < n ==> #[trigger] v@[j] == orig[j],
    {
        let t = v[i].time();
        proof {
            lemma_rollovers_at_most(orig, i as int);
        }
        if i > 0 && t < prev {
            offset = offset + DAY_SECONDS;
        }
        assert(offset == rollovers(orig, i as int) * DAY_SECONDS);
        prev = t;
        v[i].set_time(t + offset);
    }
    assert(v@ =~= rebased(orig));
    v
}

/// The flattened multi-day view of a forecast. Times are seconds from the
/// start of the first day; bounds are whole units.
#[derive(Clone, Debug)]
pub struct ForecastLong {
    pub day_labels: String,
    pub temp_min: i128,
    pub temp_max: i128,
    pub rain_max: i128,
    pub rainfall: Vec<ForecastValueMinMax>,
    pub temperature: Vec<ForecastValueMinMax>,
    pub icons: Vec<ForecastIcon>,
}

/// The day labels joined by commas.
pub open spec fn joined_labels(days: Seq<ForecastDay>) -> Seq<char>
    decreases days.len(),
{
    if days.len() == 0 {
        Seq::empty()
    } else if days.len() == 1 {
        days[0].day@
    } else {
        joined_labels(days.drop_last()) + ","@ + days.last().day@
    }
}

/// All rainfall samples, day after day.
pub open spec fn all_rainfall(days: Seq<ForecastDay>) -> Seq<ForecastValueMinMax>
    decreases days.len(),
{
    if days.len() == 0 {
        Seq::empty()
    } else {
        all_rainfall(days.drop_last()) + days.last().rainfall@
    }
}

/// All temperature samples, day after day.
pub open spec fn all_temperature(days: Seq<ForecastDay>) -> Seq<ForecastValueMinMax>
    decreases days.len(),
{
    if days.len() == 0 {
        Seq::empty()
    } else {
        all_temperature(days.drop_last()) + days.last().temperature@
    }
}

/// All icons, day after day.
pub open spec fn all_icons(days: Seq<ForecastDay>) -> Seq<ForecastIcon>
    decreases days.len(),
{
    if days.len() == 0 {
        Seq::empty()
    } else {
        all_icons(days.drop_last()) + days.last().icons@
    }
}

/// The least daily `temp_min`; 1000 for no days.
pub open spec fn least_temp_min(days: Seq<ForecastDay>) -> int
    decreases days.len(),
{
    if days.len() == 0 {
        1000
    } else if days.len() == 1 {
        days[0].temp_min as int
    } else {
        let m = least_temp_min(days.drop_last());
        if m < days.last().temp_min {
            m
        } else {
            days.last().temp_min as int
        }
    }
}

/// The greatest daily `temp_max`; -1000 for no days.
pub open spec fn greatest_temp_max(days: Seq<ForecastDay>) -> int
    decreases days.len(),
{
    if days.len() == 0 {
        -1000
    } else if days.len() == 1 {
        days[0].temp_max as int
    } else {
        let m = greatest_temp_max(days.drop_last());
        if m > days.last().temp_max {
            m
        } else {
            days.last().temp_max as int
        }
    }
}

/// The greatest daily `rain_max`; -1000 for no days.
pub open spec fn greatest_rain_max(days: Seq<ForecastDay>) -> int
    decreases days.len(),
{
    if days.len() == 0 {
        -1000
    } else if days.len() == 1 {
        days[0].rain_max as int
    } else {
        let m = greatest_rain_max(days.drop_last());
        if m > days.last().rain_max {
            m
        } else {
            days.last().rain_max as int
        }
    }
}

/// Every sample time of the series that the long-range view reads fits the
/// range that rebasing can shift.
pub open spec fn days_times_fit(days: Seq<ForecastDay>) -> bool {
    forall|k: int|
        0 <= k < days.len() ==> times_fit((#[trigger] days[k]).rainfall@) && times_fit(
            days[k].temperature@,
        ) && times_fit(days[k].icons@)
}

/// Deduplicates, then rebases.
pub fn fix(v: &Vec<ForecastValueMinMax>) -> (r: Vec<ForecastValueMinMax>)
    requires
        times_fit(v@),
    ensures
        r@ == rebased(dedup(v@)),
{
    let d = remove_duplicate(v);
    fix_timestamps(d)
}

/// Thins, then rebases.
pub fn fix_icon(v: &Vec<ForecastIcon>) -> (r: Vec<ForecastIcon>)
    requires
        times_fit(v@),
    ensures
        r@ == rebased(even_entries(v@)),
{
    let d = remove_every_second(v);
    fix_timestamps(d)
}

proof fn lemma_concat_fit<T: Timestamped>(a: Seq<T>, b: Seq<T>)
    requires
        times_fit(a),
        times_fit(b),
    ensures
        times_fit(a + b),
{
    assert forall|i: int| 0 <= i < (a + b).len() implies -value_limit() <= #[trigger] (a
        + b)[i].time_spec() <= value_limit() by {
        if i < a.len() {
            assert((a + b)[i] == a[i]);
        } else {
            assert((a + b)[i] == b[i - a.len()]);
        }
    }
}

impl ForecastLong {
    /// The long-range view of a forecast: labels joined by commas, the
    /// extreme daily bounds, and rainfall, temperature and icons flattened
    /// over all days, deduplicated (rainfall, temperature) or thinned
    /// (icons), and rebased onto one continuous time axis.
    pub fn from(fc: &Vec<ForecastDay>) -> (r: ForecastLong)
        requires
            days_times_fit(fc@),
        ensures
            r.day_labels@ == joined_labels(fc@),
            r.temp_min == least_temp_min(fc@),
            r.temp_max == greatest_temp_max(fc@),
            r.rain_max == greatest_rain_max(fc@),
            r.rainfall@ == rebased(dedup(all_rainfall(fc@))),
            r.temperature@ == rebased(dedup(all_temperature(fc@))),
            r.icons@ == rebased(even_entries(all_icons(fc@))),
    {
        let n = fc.len();
        let mut labels = String::new();
        let mut temp_min: i128 = 1000;
        let mut temp_max: i128 = -1000;
        let mut rain_max: i128 = -1000;
        let mut rainfall: Vec<ForecastValueMinMax> = Vec::new();
        let mut temperature: Vec<ForecastValueMinMax> = Vec::new();
        let mut icons: Vec<ForecastIcon> = Vec::new();
        for k in 0..n
            invariant
                n == fc@.len(),
                days_times_fit(fc@),
                labels@ == joined_labels(fc@.take(k as int)),
                temp_min == least_temp_min(fc@.take(k as int)),
                temp_max == greatest_temp_max(fc@.take(k as int)),
                rain_max == greatest_rain_max(fc@.take(k as int)),
                rainfall@ == all_rainfall(fc@.take(k as int)),
                temperature@ == all_temperature(fc@.take(k as int)),
                icons@ == all_icons(fc@.take(k as int)),
                times_fit(rainfall@),
                times_fit(temperature@),
                times_fit(icons@),
        {
            let day = &fc[k];
            let ghost next = fc@.take(k + 1);
            assert(next.drop_last() =~= fc@.take(k as int));
            assert(next.last() == *day);
            if k > 0 {
                labels.append(",");
            }
            labels.append(day.day.as_str());
            if k == 0 || !(temp_min < day.temp_min) {
                temp_min = day.temp_min;
            }
            if k == 0 || !(temp_max > day.temp_max) {
                temp_max = day.temp_max;
            }
            if k == 0 || !(rain_max > day.rain_max) {
                rain_max = day.rain_max;
            }
            let ghost r0 = rainfall@;
            let ghost t0 = temperature@;
            let ghost i0 = icons@;
            for j in 0..day.rainfall.len()
                invariant
                    rainfall@ == r0 + day.rainfall@.take(j as int),
            {
                rainfall.push(day.rainfall[j]);
                assert(day.rainfall@.take(j + 1) =~= day.rainfall@.take(j as int).push(day.rainfall@[j as int]));
                assert(rainfall@ =~= r0 + day.rainfall@.take(j + 1));
            }
            for j in 0..day.temperature.len()
                invariant
                    temperature@ == t0 + day.temperature@.take(j as int),
            {
                temperature.push(day.temperature[j]);
                assert(day.temperature@.take(j + 1) =~= day.temperature@.take(j as int).push(day.temperature@[j as int]));
                assert(temperature@ =~= t0 + day.temperature@.take(j + 1));
            }
            for j in 0..day.icons.len()
                invariant
                    icons@ == i0 + day.icons@.take(j as int),
            {
                icons.push(copy_icon(&day.icons[j]));
                assert(day.icons@.take(j + 1) =~= day.icons@.take(j as int).push(day.icons@[j as int]));
                assert(icons@ =~= i0 + day.icons@.take(j + 1));
            }
            assert(day.rainfall@.take(day.rainfall@.len() as int) =~= day.rainfall@);
            assert(day.temperature@.take(day.temperature@.len() as int) =~= day.temperature@);
            assert(day.icons@.take(day.icons@.len() as int) =~= day.icons@);
            proof {
                assert(times_fit(fc@[k as int].rainfall@));
                lemma_concat_fit(r0, day.rainfall@);
                lemma_concat_fit(t0, day.temperature@);
                lemma_concat_fit(i0, day.icons@);
            }
        }
        assert(fc@.take(n as int) =~= fc@);
        ForecastLong {
            day_labels: labels,
            temp_min,
            temp_max,
            rain_max,
            rainfall: fix(&rainfall),
            temperature: fix(&temperature),
            icons: fix_icon(&icons),
        }
    }
}

} // verus!
