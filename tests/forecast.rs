use meteoschweiz::{
    align_direct, align_ranged, decimal, find_from, fix_timestamps, forecast_json_url,
    json_url_from_section, UrlError, is_pdf_cached, pdf_path,
    remove_duplicate, remove_every_second, round_lower, round_rain, round_upper, seconds_of_day,
    timestamp_to_time, BuildError, ForecastBuilder, ForecastDay, ForecastDayBuilder,
    ForecastGustBuilder, ForecastIcon, ForecastLong, ForecastSymbolBuilder, ForecastValue,
    ForecastValueMinMax, ForecastWindBuilder, ForecastWindSymbolBuilder, NumericCell, DAY_SECONDS,
};

const HOUR_MS: i64 = 3_600_000;
const T0: i64 = 1_600_000_000_000;

fn cell(n: i64) -> NumericCell {
    NumericCell::Integer(n)
}

fn pair(t: i64, v: i64) -> Vec<NumericCell> {
    vec![cell(t), cell(v)]
}

fn triple(t: i64, lo: i64, hi: i64) -> Vec<NumericCell> {
    vec![cell(t), cell(lo), cell(hi)]
}

fn wind_symbol(t: i64, id: &str) -> ForecastWindSymbolBuilder {
    ForecastWindSymbolBuilder { timestamp: t, symbol_id: id.to_string() }
}

fn sample(time: i128, value: i128) -> ForecastValueMinMax {
    ForecastValueMinMax { time, value, low: value - 1000, high: value + 1000 }
}

fn day_payload(start: i64, rain: Vec<(i64, i64, i64, i64)>) -> ForecastDayBuilder {
    ForecastDayBuilder {
        day_string: format!("day{}", start),
        rainfall: rain.iter().map(|&(t, v, _, _)| pair(t, v)).collect(),
        variance_rain: rain.iter().map(|&(t, _, lo, hi)| triple(t, lo, hi)).collect(),
        sunshine: vec![pair(start, 10), pair(start + HOUR_MS, 20)],
        temperature: vec![pair(start, 15), pair(start + HOUR_MS, 17)],
        variance_range: vec![triple(start, 12, 18), triple(start + HOUR_MS, 14, 20)],
        symbols: vec![ForecastSymbolBuilder { timestamp: start, weather_symbol_id: 101 }],
        wind: ForecastWindBuilder {
            data: vec![pair(start, 5), pair(start + HOUR_MS, 7)],
            symbols: vec![wind_symbol(start, "N")],
        },
        wind_gust_peak: ForecastGustBuilder { data: vec![pair(start, 9)] },
    }
}

#[test]
fn integer_cell_coerces_exactly() {
    for n in [0i64, 7, -12, i64::MAX, i64::MIN] {
        let c = NumericCell::Integer(n);
        assert_eq!(c.to_real(), n as i128 * 1000);
        assert_eq!(c.to_integer(), Ok(n));
    }
}

#[test]
fn real_cell_is_no_integer() {
    assert_eq!(NumericCell::Real(2500).to_integer(), Err(BuildError::TypeMismatch));
    assert_eq!(NumericCell::Real(3000).to_integer(), Err(BuildError::TypeMismatch));
    assert_eq!(NumericCell::Real(2500).to_real(), 2500);
}

#[test]
fn ranged_alignment_keeps_length() {
    let values = vec![pair(0, 1), pair(1, 2), pair(2, 3)];
    let ranges = vec![triple(0, 0, 2), triple(1, 1, 3), triple(2, 2, 4)];
    let r = align_ranged(&values, &ranges).unwrap();
    assert_eq!(r.len(), 3);
    assert_eq!(r[1], ForecastValueMinMax { time: 1, value: 2000, low: 1000, high: 3000 });
    let short = vec![triple(0, 0, 2), triple(1, 1, 3)];
    assert_eq!(align_ranged(&values, &short), Err(BuildError::LengthMismatch));
}

#[test]
fn ranged_alignment_errors() {
    assert_eq!(
        align_ranged(&vec![vec![cell(0)]], &vec![triple(0, 0, 1)]),
        Err(BuildError::ValueArity)
    );
    assert_eq!(align_ranged(&vec![pair(0, 1)], &vec![pair(0, 1)]), Err(BuildError::RangeArity));
    assert_eq!(
        align_ranged(&vec![pair(0, 1)], &vec![triple(5, 0, 1)]),
        Err(BuildError::RangeTimeMismatch)
    );
    let real_time = vec![NumericCell::Real(0), cell(1)];
    let real_range = vec![NumericCell::Real(0), cell(0), cell(1)];
    assert_eq!(align_ranged(&vec![real_time], &vec![real_range]), Err(BuildError::TypeMismatch));
}

#[test]
fn direct_alignment() {
    let data = vec![pair(0, 4), vec![cell(1), NumericCell::Real(1500)]];
    let r = align_direct(&data).unwrap();
    assert_eq!(r, vec![ForecastValue { time: 0, value: 4000 }, ForecastValue { time: 1, value: 1500 }]);
    assert_eq!(align_direct(&vec![vec![cell(0)]]), Err(BuildError::ValueArity));
}

#[test]
fn wind_directions_follow_symbols() {
    let w = ForecastWindBuilder {
        data: vec![pair(0, 1), pair(3 * HOUR_MS, 2), pair(6 * HOUR_MS, 3), pair(9 * HOUR_MS, 4)],
        symbols: vec![wind_symbol(0, "N"), wind_symbol(6 * HOUR_MS, "E")],
    };
    let r = w.build().unwrap();
    let dirs: Vec<&str> = r.iter().map(|x| x.direction.as_str()).collect();
    assert_eq!(dirs, vec!["N", "N", "E", "E"]);
    assert_eq!(r[2].strength, 3000);
    assert_eq!(r[3].time, 9 * HOUR_MS as i128);
}

#[test]
fn wind_takes_latest_of_dense_symbols() {
    let w = ForecastWindBuilder {
        data: vec![pair(0, 1), pair(3 * HOUR_MS, 2)],
        symbols: vec![
            wind_symbol(0, "N"),
            wind_symbol(HOUR_MS, "E"),
            wind_symbol(2 * HOUR_MS, "S"),
        ],
    };
    let r = w.build().unwrap();
    assert_eq!(r[0].direction, "N");
    assert_eq!(r[1].direction, "S");
}

#[test]
fn wind_errors() {
    let none = ForecastWindBuilder { data: vec![pair(0, 1)], symbols: vec![] };
    assert_eq!(none.build().unwrap_err(), BuildError::NoWindSymbol);
    let empty = ForecastWindBuilder { data: vec![], symbols: vec![wind_symbol(0, "N")] };
    assert_eq!(empty.build().unwrap_err(), BuildError::NoWindData);
    let late = ForecastWindBuilder { data: vec![pair(5, 1)], symbols: vec![wind_symbol(0, "N")] };
    assert_eq!(late.build().unwrap_err(), BuildError::WindStartMismatch);
    let odd = ForecastWindBuilder {
        data: vec![pair(0, 1), vec![cell(1)]],
        symbols: vec![wind_symbol(0, "N")],
    };
    assert_eq!(odd.build().unwrap_err(), BuildError::WindArity);
    let real = ForecastWindBuilder {
        data: vec![vec![NumericCell::Real(0), cell(1)]],
        symbols: vec![wind_symbol(0, "N")],
    };
    assert_eq!(real.build().unwrap_err(), BuildError::TypeMismatch);
}

#[test]
fn icon_ids_collapse_day_and_night() {
    let night = ForecastSymbolBuilder { timestamp: 0, weather_symbol_id: 112 };
    let day = ForecastSymbolBuilder { timestamp: 0, weather_symbol_id: 12 };
    assert_eq!(night.build("/icons").icon, "/icons/12.pdf");
    assert_eq!(day.build("/icons").icon, "/icons/12.pdf");
    let hundred = ForecastSymbolBuilder { timestamp: 7, weather_symbol_id: 100 };
    let icon = hundred.build("base");
    assert_eq!(icon.icon, "base/100.pdf");
    assert_eq!(icon.time, 7);
}

#[test]
fn bleed_over_from_next_day() {
    let t1 = T0 + HOUR_MS;
    let day0 = day_payload(T0, vec![(T0, 2, 1, 3), (t1, 3, 2, 4)]);
    let next = T0 + 86_400_000;
    let day1 = day_payload(next, vec![(next, 1, 0, 2)]);
    let fc = ForecastBuilder { days: vec![day0, day1] }.build("/icons").unwrap();
    assert_eq!(fc.len(), 2);
    assert_eq!(fc[0].rainfall.len(), 3);
    let bleed = fc[0].rainfall[2];
    assert_eq!(bleed.time, fc[1].rainfall[0].time + DAY_SECONDS);
    assert_eq!((bleed.value, bleed.low, bleed.high), (1000, 0, 2000));
    assert_eq!(fc[0].sunshine.len(), 3);
    assert_eq!(fc[0].temperature.len(), 3);
    assert_eq!(fc[0].wind.len(), 2);
    assert_eq!(fc[0].icons.len(), 1);
    assert_eq!(fc[0].icons[0].icon, "/icons/1.pdf");
    assert_eq!(fc[1].rainfall.len(), 1);
    assert_eq!(fc[0].day, format!("day{}", T0));
    // lows 12, 14, 12 and highs 18, 20, 18
    assert_eq!((fc[0].temp_min, fc[0].temp_max), (11, 21));
    assert_eq!(fc[0].rain_max, 10);
}

#[test]
fn missing_first_entry_aborts_build() {
    let day0 = day_payload(T0, vec![(T0, 2, 1, 3)]);
    let next = T0 + 86_400_000;
    let day1 = day_payload(next, vec![]);
    let r = ForecastBuilder { days: vec![day0, day1] }.build("/icons");
    assert_eq!(r.unwrap_err(), BuildError::MissingFirstEntry);
}

#[test]
fn shape_error_aborts_build() {
    let mut day0 = day_payload(T0, vec![(T0, 2, 1, 3)]);
    day0.variance_rain.clear();
    let r = ForecastBuilder { days: vec![day0] }.build("/icons");
    assert_eq!(r.unwrap_err(), BuildError::LengthMismatch);
}

#[test]
fn bounds_pad_whole_numbers() {
    assert_eq!(round_lower(3000), 2);
    assert_eq!(round_upper(20000), 21);
    assert_eq!(round_lower(3700), 3);
    assert_eq!(round_lower(3200), 2);
    assert_eq!(round_lower(-3200), -4);
    assert_eq!(round_upper(20600), 22);
    assert_eq!(round_upper(20200), 21);
}

#[test]
fn rain_bound_never_below_ten() {
    assert_eq!(round_rain(0), 10);
    assert_eq!(round_rain(-50_000), 10);
    assert_eq!(round_rain(8_000), 10);
    assert_eq!(round_rain(25_000), 26);
}

#[test]
fn dedup_is_idempotent() {
    let a = sample(0, 1000);
    let b = sample(3600, 2000);
    let v = vec![a, a, b, b, a, b];
    let once = remove_duplicate(&v);
    assert_eq!(once, vec![a, b, a, b]);
    assert_eq!(remove_duplicate(&once), once);
    assert_eq!(remove_duplicate(&vec![]), vec![]);
}

#[test]
fn rebasing_never_goes_back() {
    let times = [72000i128, 82800, 86400, 0, 10800, 86399, 3600];
    let v: Vec<ForecastValueMinMax> = times.iter().map(|&t| sample(t, 0)).collect();
    let r = fix_timestamps(v);
    let got: Vec<i128> = r.iter().map(|x| x.time).collect();
    assert_eq!(got, vec![72000, 82800, 86400, 86400, 97200, 172799, 176400]);
    for w in got.windows(2) {
        assert!(w[0] <= w[1]);
    }
}

#[test]
fn thinning_keeps_even_indices() {
    let v: Vec<ForecastIcon> =
        (0..5).map(|i| ForecastIcon { time: i, icon: format!("{}", i) }).collect();
    let r = remove_every_second(&v);
    let names: Vec<&str> = r.iter().map(|x| x.icon.as_str()).collect();
    assert_eq!(names, vec!["0", "2", "4"]);
}

fn plain_day(name: &str, rain: Vec<ForecastValueMinMax>, bounds: (i128, i128, i128)) -> ForecastDay {
    ForecastDay {
        day: name.to_string(),
        rainfall: rain.clone(),
        sunshine: vec![],
        temperature: rain,
        icons: ["a", "b", "c", "d"]
            .iter()
            .enumerate()
            .map(|(i, n)| ForecastIcon { time: i as i128 * 21600, icon: n.to_string() })
            .collect(),
        wind: vec![],
        wind_gust_peak: vec![],
        temp_min: bounds.0,
        temp_max: bounds.1,
        rain_max: bounds.2,
    }
}

#[test]
fn long_view_flattens_days() {
    let d0 = plain_day("Mo", vec![sample(0, 1000), sample(86400, 2000)], (3, 20, 10));
    let d1 = plain_day("Tu", vec![sample(0, 2000), sample(43200, 500)], (-2, 15, 14));
    let long = ForecastLong::from(&vec![d0, d1]);
    assert_eq!(long.day_labels, "Mo,Tu");
    assert_eq!((long.temp_min, long.temp_max, long.rain_max), (-2, 20, 14));
    let times: Vec<i128> = long.rainfall.iter().map(|x| x.time).collect();
    assert_eq!(times, vec![0, 86400, 86400, 129600]);
    let icons: Vec<(i128, &str)> = long.icons.iter().map(|x| (x.time, x.icon.as_str())).collect();
    assert_eq!(icons, vec![(0, "a"), (43200, "c"), (86400, "a"), (129600, "c")]);
}

#[test]
fn long_view_of_nothing() {
    let long = ForecastLong::from(&vec![]);
    assert_eq!(long.day_labels, "");
    assert_eq!((long.temp_min, long.temp_max, long.rain_max), (1000, -1000, -1000));
    assert!(long.rainfall.is_empty() && long.icons.is_empty());
}

#[test]
fn clock_readings() {
    assert_eq!(seconds_of_day(1, 2, 3), 3723);
    assert_eq!(seconds_of_day(23, 59, 59), 86399);
    let t = timestamp_to_time(T0 as i128).unwrap();
    assert!((0..DAY_SECONDS).contains(&t));
    let later = timestamp_to_time(T0 as i128 + 90_000).unwrap();
    assert_eq!((later - t).rem_euclid(DAY_SECONDS), 90);
    assert_eq!(timestamp_to_time(i128::MAX), Err(BuildError::LocalTime));
}

#[test]
fn decimal_text() {
    assert_eq!(decimal(0), "0");
    assert_eq!(decimal(1234), "1234");
    assert_eq!(decimal(u64::MAX), u64::MAX.to_string());
}

#[test]
fn pdf_paths() {
    assert_eq!(pdf_path("cache", 3, false), "cache/3.pdf");
    assert_eq!(pdf_path("cache/", 3, false), "cache/3.pdf");
    assert_eq!(pdf_path("cache", 3, true), "cache/long.pdf");
    assert_eq!(pdf_path("", 12, false), "12.pdf");
    assert!(!is_pdf_cached("/nonexistent-folder-for-forecast", 0, false));
}

#[test]
fn error_messages() {
    assert_eq!(BuildError::TypeMismatch.message(), "Expected integer, found float");
    assert_eq!(BuildError::NoWindSymbol.message(), "At least one wind symbol must exist");
}

#[test]
fn json_url_is_rewritten_for_postal_code() {
    let section = "<div data-json-url=\"/product/de/800100.json\" data-json-url=\"/x\"></div>";
    assert_eq!(
        json_url_from_section(section, 3000),
        "https://www.meteoschweiz.admin.ch/product/de/300000.json"
    );
    assert_eq!(find_from("abcabc", "bc", 0), 1);
    assert_eq!(find_from("abcabc", "bc", 2), 4);
    assert_eq!(find_from("abcabc", "x", 0), 6);
}

#[test]
fn json_url_from_overview_page() {
    let page = "<p>x</p><div class=\"overview__local-forecast clearfix\" \
                data-json-url=\"/a/800100.json\"></div>";
    assert_eq!(
        forecast_json_url(page, 8001).unwrap(),
        "https://www.meteoschweiz.admin.ch/a/800100.json"
    );
    assert!(matches!(forecast_json_url("<p>none</p>", 8001), Err(UrlError::NoForecastBox)));
}

#[test]
fn settings_paths_expand() {
    let s = meteoschweiz::Settings {
        icon_path: "/opt/icons".to_string(),
        location_plz: 8001,
        template_file: "/opt/t.tex".to_string(),
        template_long_file: "/opt/l.tex".to_string(),
        cache_folder: "/var/cache/m".to_string(),
        pdf_viewer: "zathura".to_string(),
        pdf_viewer_args: vec!["--fork".to_string()],
    };
    let e = s.clone().expand().unwrap();
    assert_eq!(e.icon_path, "/opt/icons");
    assert_eq!(e.location_plz, 8001);
    let mut bad = s;
    bad.cache_folder = "$SURELY_NOT_SET_FOR_FORECAST_TESTS/x".to_string();
    assert!(bad.expand().is_none());
}

#[test]
fn day_without_following_day_keeps_its_series() {
    let payload = day_payload(T0, vec![(T0, 2, 1, 3)]);
    let parsed = payload.parse("/icons").unwrap();
    assert_eq!(parsed.rainfall[0], ForecastValueMinMax { time: T0 as i128, value: 2000, low: 1000, high: 3000 });
    assert_eq!(parsed.wind[1].time, (T0 + HOUR_MS) as i128);
    let local = parsed.localize().unwrap();
    assert!(local.rainfall.iter().all(|x| (0..DAY_SECONDS).contains(&x.time)));
    let done = local.complete(None).unwrap();
    assert_eq!(done.rainfall.len(), 1);
    assert_eq!(done.sunshine.len(), 2);
    assert_eq!((done.temp_min, done.temp_max, done.rain_max), (11, 21, 10));
}

#[test]
fn bounds_come_from_the_series_alone() {
    let one = vec![ForecastValueMinMax { time: 0, value: 0, low: 2_000_000, high: -2_000_000 }];
    assert_eq!(meteoschweiz::lowest(&one), 2_000_000);
    assert_eq!(meteoschweiz::highest(&one, meteoschweiz::HIGH_START), -2_000_000);
    assert_eq!(meteoschweiz::lowest(&vec![]), meteoschweiz::LOW_START);
    assert_eq!(round_lower(meteoschweiz::lowest(&one)), 1999);
}

#[test]
fn long_view_bounds_from_days_alone() {
    let d = plain_day("Mo", vec![sample(0, 1000)], (2000, -2000, -5000));
    let long = ForecastLong::from(&vec![d]);
    assert_eq!((long.temp_min, long.temp_max, long.rain_max), (2000, -2000, -5000));
}

#[test]
fn warm_day_keeps_its_minimum() {
    let mut day0 = day_payload(T0, vec![(T0, 2, 1, 3)]);
    day0.variance_range = vec![triple(T0, 2000, 2001), triple(T0 + HOUR_MS, 2000, 2001)];
    let fc = ForecastBuilder { days: vec![day0] }.build("/icons").unwrap();
    assert_eq!((fc[0].temp_min, fc[0].temp_max), (1999, 2002));
}

#[test]
fn empty_payload_builds() {
    assert_eq!(ForecastBuilder { days: vec![] }.build("/icons").unwrap().len(), 0);
}

#[test]
fn clock_range_edges() {
    assert!(timestamp_to_time(0).is_ok());
    assert!(timestamp_to_time(-8_000_000_000_000_000).is_ok());
    assert!(timestamp_to_time(8_000_000_000_000_000).is_ok());
    assert_eq!(
        timestamp_to_time(meteoschweiz::MILLIS_LIMIT + 1),
        Err(BuildError::LocalTime)
    );
}

#[test]
fn dollar_before_non_ascii_is_not_expanded() {
    assert!(!meteoschweiz::expandable("~/$\u{e9}"));
    assert!(meteoschweiz::expandable("~/$HOME/\u{e9}"));
    let s = meteoschweiz::Settings {
        icon_path: "/opt/$\u{e9}".to_string(),
        location_plz: 8001,
        template_file: "/opt/t.tex".to_string(),
        template_long_file: "/opt/l.tex".to_string(),
        cache_folder: "/var/cache/m".to_string(),
        pdf_viewer: "zathura".to_string(),
        pdf_viewer_args: vec![],
    };
    assert!(s.expand().is_none());
}

#[test]
fn epoch_seconds_cut_toward_zero() {
    assert_eq!(meteoschweiz::epoch_seconds(1999), 1);
    assert_eq!(meteoschweiz::epoch_seconds(-1500), -1);
    assert_eq!(meteoschweiz::epoch_seconds(T0 as i128), T0 / 1000);
}
