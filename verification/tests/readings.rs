use telemetry_bridge::reading::{
    memory_percent, parse_numeral, parse_value, scale_of_unit, Reading, Scale,
};

fn triple(r: Option<Reading>) -> Option<(i128, i128, i32)> {
    r.map(|x| (x.numerator(), x.denominator(), x.exponent()))
}

fn parts(r: Option<Reading>) -> Option<(i128, i128)> {
    r.map(|x| {
        let e = x.exponent();
        let power = 10i128.pow(e.unsigned_abs());
        if e >= 0 {
            (x.numerator() * power, x.denominator())
        } else {
            (x.numerator(), x.denominator() * power)
        }
    })
}

fn float_of(r: &Reading) -> f64 {
    let scaled: f64 = format!("{}e{}", r.numerator(), r.exponent()).parse().unwrap();
    scaled / r.denominator() as f64
}

fn single_of(r: &Reading) -> f32 {
    let scaled: f32 = format!("{}e{}", r.numerator(), r.exponent()).parse().unwrap();
    scaled / r.denominator() as f32
}

fn chars(s: &str) -> Vec<char> {
    s.chars().collect()
}

#[test]
fn kilobytes_are_divided_by_1024() {
    let r = parse_value("512 KB/s").unwrap();
    assert_eq!((r.numerator(), r.denominator(), r.exponent()), (512, 1024, 0));
    assert_eq!(float_of(&r), 0.5);
}

#[test]
fn gigabytes_are_multiplied_by_1024() {
    let r = parse_value("2 GB/s").unwrap();
    assert_eq!((r.numerator(), r.denominator(), r.exponent()), (2048, 1, 0));
    assert_eq!(float_of(&r), 2048.0);
}

#[test]
fn percent_is_unchanged() {
    let r = parse_value("47 %").unwrap();
    assert_eq!((r.numerator(), r.denominator(), r.exponent()), (47, 1, 0));
    assert_eq!(float_of(&r), 47.0);
}

#[test]
fn megabytes_are_unchanged() {
    assert_eq!(triple(parse_value("3.25 MB/s")), Some((325, 1, -2)));
    assert_eq!(parts(parse_value("3.25 MB/s")), Some((325, 100)));
}

#[test]
fn other_units_are_unchanged() {
    assert_eq!(parts(parse_value("45.0 \u{b0}C")), Some((450, 10)));
    assert_eq!(parts(parse_value("1200 RPM")), Some((1200, 1)));
    assert_eq!(parts(parse_value("7 KB")), Some((7, 1)));
    assert_eq!(parts(parse_value("7 KB/sec")), Some((7, 1)));
}

#[test]
fn units_ignore_case() {
    assert_eq!(parts(parse_value("1 kb/s")), Some((1, 1024)));
    assert_eq!(parts(parse_value("1 Kb/S")), Some((1, 1024)));
    assert_eq!(parts(parse_value("1 gB/s")), Some((1024, 1)));
    assert_eq!(parts(parse_value("1 \u{212A}B/s")), Some((1, 1024)));
}

#[test]
fn digits_behind_the_point_lower_the_power_of_ten() {
    assert_eq!(triple(parse_value("23.5 %")), Some((235, 1, -1)));
    assert_eq!(triple(parse_value("0.125")), Some((125, 1, -3)));
    assert_eq!(triple(parse_value("1.50 KB/s")), Some((150, 1024, -2)));
    assert_eq!(parts(parse_value("1.50 KB/s")), Some((150, 102400)));
}

#[test]
fn bare_numbers_are_read() {
    assert_eq!(parts(parse_value("45")), Some((45, 1)));
    assert_eq!(parts(parse_value("-60")), Some((-60, 1)));
    assert_eq!(parts(parse_value("+5")), Some((5, 1)));
    assert_eq!(parts(parse_value("5.")), Some((5, 1)));
    assert_eq!(parts(parse_value(".5")), Some((5, 10)));
    assert_eq!(parts(parse_value("-.5")), Some((-5, 10)));
    assert_eq!(parts(parse_value("-0")), Some((0, 1)));
}

#[test]
fn white_space_around_a_single_word_is_ignored() {
    assert_eq!(parts(parse_value(" 42")), Some((42, 1)));
    assert_eq!(parts(parse_value("45 ")), Some((45, 1)));
    assert_eq!(parts(parse_value("\t4.5\n")), Some((45, 10)));
    assert_eq!(parts(parse_value("  \u{a0} -7  ")), Some((-7, 1)));
}

#[test]
fn a_value_without_a_word_gives_nothing() {
    assert_eq!(triple(parse_value("")), None);
    assert_eq!(triple(parse_value(" ")), None);
    assert_eq!(triple(parse_value(" \t\u{3000}\n")), None);
}

#[test]
fn words_beyond_the_second_are_ignored() {
    assert_eq!(parts(parse_value("  10   KB/s   now ")), Some((10, 1024)));
    assert_eq!(parts(parse_value("45 % extra words")), Some((45, 1)));
}

#[test]
fn every_kind_of_white_space_separates_words() {
    assert_eq!(parts(parse_value("8\u{a0}GB/s")), Some((8192, 1)));
    assert_eq!(parts(parse_value("8\u{3000}GB/s")), Some((8192, 1)));
    assert_eq!(parts(parse_value("8\tGB/s")), Some((8192, 1)));
    assert_eq!(parts(parse_value("8\u{200b}GB/s")), None);
}

#[test]
fn an_exponent_is_read() {
    assert_eq!(triple(parse_value("1e3")), Some((1, 1, 3)));
    assert_eq!(parts(parse_value("1e3")), Some((1000, 1)));
    assert_eq!(triple(parse_value("1E3")), Some((1, 1, 3)));
    assert_eq!(triple(parse_value("1e+3")), Some((1, 1, 3)));
    assert_eq!(triple(parse_value("1e-3")), Some((1, 1, -3)));
    assert_eq!(triple(parse_value("2.5E2 %")), Some((25, 1, 1)));
    assert_eq!(triple(parse_value("-1.25e-2 KB/s")), Some((-125, 1024, -4)));
    assert_eq!(triple(parse_value(".5e1 GB/s")), Some((5 * 1024, 1, 0)));
    assert_eq!(triple(parse_value("5.e0")), Some((5, 1, 0)));
    assert_eq!(triple(parse_value("1e0003")), Some((1, 1, 3)));
    assert_eq!(triple(parse_value("0e9")), Some((0, 1, 9)));
    assert_eq!(float_of(&parse_value("1e3").unwrap()), 1000.0);
    assert_eq!(float_of(&parse_value("1.5e-3").unwrap()), 0.0015);
}

#[test]
fn an_exponent_beyond_the_limit_counts_as_the_limit() {
    assert_eq!(triple(parse_value("1e400")), Some((1, 1, 400)));
    assert_eq!(triple(parse_value("1e401")), Some((1, 1, 400)));
    assert_eq!(triple(parse_value("1e-400")), Some((1, 1, -400)));
    assert_eq!(triple(parse_value("1e-401")), Some((1, 1, -400)));
    assert_eq!(triple(parse_value("10.00e400")), Some((1000, 1, 398)));
    assert_eq!(triple(parse_value("1e99999999999999999999999999999999999999999")), Some((1, 1, 400)));
    assert_eq!(triple(parse_value("-1e-99999999999999999999999999999999999999999")), Some((-1, 1, -400)));
    assert_eq!(single_of(&parse_value("1e401").unwrap()), f32::INFINITY);
    assert_eq!(single_of(&parse_value("1e-401").unwrap()), 0.0);
}

#[test]
fn what_is_no_numeral_is_not_read() {
    assert_eq!(parts(parse_value(".")), None);
    assert_eq!(parts(parse_value("-")), None);
    assert_eq!(parts(parse_value("+")), None);
    assert_eq!(parts(parse_value("abc")), None);
    assert_eq!(parts(parse_value("abc %")), None);
    assert_eq!(parts(parse_value("1.2.3")), None);
    assert_eq!(parts(parse_value("--1")), None);
    assert_eq!(parts(parse_value("1,5 %")), None);
    assert_eq!(parts(parse_value("12a")), None);
    assert_eq!(parts(parse_value("1e")), None);
    assert_eq!(parts(parse_value("1e+")), None);
    assert_eq!(parts(parse_value("1e-")), None);
    assert_eq!(parts(parse_value("e5")), None);
    assert_eq!(parts(parse_value(".e5")), None);
    assert_eq!(parts(parse_value("1e5.0")), None);
    assert_eq!(parts(parse_value("1e5e5")), None);
    assert_eq!(parts(parse_value("1e 5")), None);
    assert_eq!(parts(parse_value("1x5")), None);
    assert_eq!(parts(parse_value("inf")), None);
    assert_eq!(parts(parse_value("infinity")), None);
    assert_eq!(parts(parse_value("NaN %")), None);
    assert_eq!(parts(parse_value("\u{663}")), None);
}

#[test]
fn fifteen_digits_are_kept_whole() {
    assert_eq!(triple(parse_value("999999999999999")), Some((999_999_999_999_999, 1, 0)));
    assert_eq!(
        triple(parse_value("-99999999.9999999 GB/s")),
        Some((-999_999_999_999_999 * 1024, 1, -7))
    );
    assert_eq!(triple(parse_value(".000000000000001 KB/s")), Some((1, 1024, -15)));
    assert_eq!(triple(parse_value("0.0000000000000001")), Some((1, 1, -16)));
    assert_eq!(triple(parse_value("0000000000000001")), Some((1, 1, 0)));
    assert_eq!(
        triple(parse_value("000000000000000000000000123.450")),
        Some((123450, 1, -3))
    );
}

#[test]
fn of_more_digits_the_first_fifteen_significant_ones_are_kept() {
    assert_eq!(
        triple(parse_value("1000000000000000")),
        Some((100_000_000_000_000, 1, 1))
    );
    assert_eq!(
        triple(parse_value("12345678.12345678")),
        Some((123_456_781_234_567, 1, -7))
    );
    assert_eq!(
        triple(parse_value("1234567890123456789")),
        Some((123_456_789_012_345, 1, 4))
    );
    assert_eq!(
        triple(parse_value("0.001234567890123456789")),
        Some((123_456_789_012_345, 1, -17))
    );
    assert_eq!(
        triple(parse_value("-23.500000000000000000001 %")),
        Some((-235_000_000_000_000, 1, -13))
    );
    assert_eq!(
        triple(parse_value("9999999999999999e-2")),
        Some((999_999_999_999_999, 1, -1))
    );
    assert_eq!(float_of(&parse_value("23.500000000000000000001 %").unwrap()), 23.5);
}

#[test]
fn parse_numeral_reads_one_word() {
    assert_eq!(triple(parse_numeral(&chars("12.75"))), Some((1275, 1, -2)));
    assert_eq!(triple(parse_numeral(&chars("12 %"))), None);
    assert_eq!(triple(parse_numeral(&chars(" 12"))), None);
    assert_eq!(triple(parse_numeral(&chars(""))), None);
}

#[test]
fn scale_of_unit_knows_three_scales() {
    assert_eq!(scale_of_unit(&chars("KB/s")), Scale::Down);
    assert_eq!(scale_of_unit(&chars("GB/s")), Scale::Up);
    assert_eq!(scale_of_unit(&chars("MB/s")), Scale::Unchanged);
    assert_eq!(scale_of_unit(&chars("%")), Scale::Unchanged);
    assert_eq!(scale_of_unit(&chars("")), Scale::Unchanged);
    assert_eq!(scale_of_unit(&chars("KB/s ")), Scale::Unchanged);
}

#[test]
fn from_integer_is_a_whole_number() {
    assert_eq!(triple(Some(Reading::from_integer(-1))), Some((-1, 1, 0)));
    assert_eq!(triple(Some(Reading::from_integer(140509))), Some((140509, 1, 0)));
}

#[test]
fn from_decimal_wants_both_parts_within_limits() {
    assert_eq!(triple(Reading::from_decimal(3, -2)), Some((3, 1, -2)));
    assert_eq!(triple(Reading::from_decimal(-3, 4)), Some((-3, 1, 4)));
    assert_eq!(
        triple(Reading::from_decimal(999_999_999_999_999, 400)),
        Some((999_999_999_999_999, 1, 400))
    );
    assert_eq!(
        triple(Reading::from_decimal(-999_999_999_999_999, -400)),
        Some((-999_999_999_999_999, 1, -400))
    );
    assert_eq!(triple(Reading::from_decimal(1_000_000_000_000_000, 0)), None);
    assert_eq!(triple(Reading::from_decimal(-1_000_000_000_000_000, 0)), None);
    assert_eq!(triple(Reading::from_decimal(1, 401)), None);
    assert_eq!(triple(Reading::from_decimal(1, -401)), None);
    assert_eq!(triple(Reading::from_decimal(i64::MIN, i32::MIN)), None);
}

#[test]
fn is_positive_is_strict() {
    assert!(Reading::from_decimal(1, -3).unwrap().is_positive());
    assert!(parse_value("1e-400").unwrap().is_positive());
    assert!(!Reading::from_integer(0).is_positive());
    assert!(!parse_value("0e400").unwrap().is_positive());
    assert!(!Reading::from_integer(-1).is_positive());
}

#[test]
fn is_at_least_compares_with_a_whole_number() {
    let r = Reading::from_decimal(599, -1).unwrap();
    assert!(r.is_at_least(59));
    assert!(!r.is_at_least(60));
    assert!(Reading::from_integer(60).is_at_least(60));
    assert!(Reading::from_decimal(6, 1).unwrap().is_at_least(60));
    assert!(!Reading::from_decimal(6, 1).unwrap().is_at_least(61));
    assert!(Reading::from_decimal(600, -1).unwrap().is_at_least(60));
    assert!(!Reading::from_integer(-1).is_at_least(0));
    assert!(Reading::from_integer(0).is_at_least(0));
    assert!(parse_value("61440 KB/s").unwrap().is_at_least(60));
    assert!(!parse_value("61439 KB/s").unwrap().is_at_least(60));
}

#[test]
fn is_between_excludes_both_ends() {
    assert!(Reading::from_integer(0).is_between(-50, 150));
    assert!(!Reading::from_integer(-50).is_between(-50, 150));
    assert!(!Reading::from_integer(150).is_between(-50, 150));
    assert!(!parse_value("1.5e2").unwrap().is_between(-50, 150));
    assert!(!parse_value("-500e-1").unwrap().is_between(-50, 150));
    assert!(Reading::from_decimal(-499, -1).unwrap().is_between(-50, 150));
    assert!(Reading::from_decimal(1499, -1).unwrap().is_between(-50, 150));
    assert!(!Reading::from_decimal(1501, -1).unwrap().is_between(-50, 150));
    assert!(!Reading::from_integer(5).is_between(5, 10));
    assert!(Reading::from_integer(6).is_between(5, 10));
}

#[test]
fn comparisons_hold_at_the_largest_and_smallest_powers_of_ten() {
    let huge = parse_value("1e400").unwrap();
    assert!(huge.is_at_least(255));
    assert!(!huge.is_between(-128, 255));
    let minus_huge = parse_value("-999999999999999e400 GB/s").unwrap();
    assert!(!minus_huge.is_at_least(0));
    assert!(!minus_huge.is_between(-128, 255));
    let tiny = parse_value("1e-400 KB/s").unwrap();
    assert!(tiny.is_at_least(0));
    assert!(!tiny.is_at_least(1));
    assert!(tiny.is_between(0, 1));
    assert!(tiny.is_between(-128, 255));
    let minus_tiny = parse_value("-1e-400").unwrap();
    assert!(!minus_tiny.is_at_least(0));
    assert!(minus_tiny.is_between(-1, 0));
    assert!(!minus_tiny.is_between(0, 1));
    let share = memory_percent(tiny, huge, Reading::from_integer(-1));
    assert_eq!(triple(Some(share)), Some((100, 1024, -800)));
    assert!(share.is_between(0, 1));
    assert!(!share.is_at_least(1));
    let share = memory_percent(huge, tiny, Reading::from_integer(-1));
    assert_eq!(triple(Some(share)), Some((102400, 1, 800)));
    assert!(share.is_at_least(255));
}

#[test]
fn memory_percent_is_used_over_total_times_100() {
    let used = parse_value("2048.0 MB").unwrap();
    let total = parse_value("8192.0 MB").unwrap();
    let p = memory_percent(used, total, Reading::from_integer(-1));
    assert_eq!(triple(Some(p)), Some((20480 * 100, 81920, 0)));
    assert_eq!(float_of(&p), 25.0);
    let used = parse_value("512 KB/s").unwrap();
    let total = parse_value("2e0 GB/s").unwrap();
    let p = memory_percent(used, total, Reading::from_integer(-1));
    assert_eq!(triple(Some(p)), Some((512 * 100, 1024 * 2048, 0)));
}

#[test]
fn memory_percent_keeps_the_previous_value_when_used_is_zero() {
    let used = Reading::from_integer(0);
    let total = Reading::from_integer(8192);
    let previous = Reading::from_decimal(375, -1).unwrap();
    let p = memory_percent(used, total, previous);
    assert_eq!(triple(Some(p)), Some((375, 1, -1)));
}

#[test]
fn memory_percent_keeps_the_previous_value_when_either_is_not_positive() {
    let previous = Reading::from_integer(-1);
    let one = Reading::from_integer(1);
    let zero = Reading::from_integer(0);
    let minus = Reading::from_integer(-1);
    assert_eq!(memory_percent(one, zero, previous).numerator(), -1);
    assert_eq!(memory_percent(one, minus, previous).numerator(), -1);
    assert_eq!(memory_percent(minus, one, previous).numerator(), -1);
    assert_eq!(memory_percent(minus, minus, previous).numerator(), -1);
    assert_eq!(memory_percent(zero, zero, previous).numerator(), -1);
    let p = memory_percent(one, one, previous);
    assert_eq!(triple(Some(p)), Some((100, 1, 0)));
}

#[test]
fn is_sensor_sized_tells_a_sensor_reading_from_a_share() {
    assert!(Reading::from_integer(i32::MAX).is_sensor_sized());
    assert!(Reading::from_integer(i32::MIN).is_sensor_sized());
    assert!(parse_value("999999999999999e400 GB/s").unwrap().is_sensor_sized());
    assert!(parse_value("-999999999999999e-400 KB/s").unwrap().is_sensor_sized());
    let small = parse_value("1 KB/s").unwrap();
    let large = parse_value("999999999999999 GB/s").unwrap();
    assert!(!memory_percent(small, large, Reading::from_integer(-1)).is_sensor_sized());
    assert!(!memory_percent(large, small, Reading::from_integer(-1)).is_sensor_sized());
    assert!(!memory_percent(
        parse_value("1e400").unwrap(),
        parse_value("1e-1").unwrap(),
        Reading::from_integer(-1)
    )
    .is_sensor_sized());
    assert!(memory_percent(Reading::from_integer(1), Reading::from_integer(4), small)
        .is_sensor_sized());
}

#[test]
fn a_numeral_reads_as_the_standard_library_reads_it() {
    let samples = [
        "0", "-0", "+0", "1", "-1", "+1", "1.", ".1", "-.1", "+.1", "12.5", "0012.50", "23.5",
        "999999999999999", "0.1", "123.456", "-50", "150", "8192.0", "0.000001", "1e3", "1E3",
        "1.5e-3", "2.5E+2", "1e38", "3.4028235e38", "1e-45", "1e39", "1e-46", "-1e400", "1e-400",
        "000.000e5", "6.02214076e23", "1e+00", ".5E-0", "1.e5", "-5.E-1", "+0.0e0",
    ];
    for text in samples {
        let r = parse_value(text).unwrap();
        assert_eq!(single_of(&r), text.parse::<f32>().unwrap(), "{:?}", text);
        assert_eq!(float_of(&r), text.parse::<f64>().unwrap(), "{:?}", text);
    }
    let long = [
        "1234567890123456789", "0.1000000000000000055511151231257827", "16777217.000000000",
        "3.14159265358979323846264338327950288", "100000000000000000000e-20",
    ];
    for text in long {
        let r = parse_value(text).unwrap();
        assert_eq!(single_of(&r), text.parse::<f32>().unwrap(), "{:?}", text);
    }
    let refused = [
        "", ".", "+", "-", "1..", "1.2.3", "a", "1a", "--1", "+-1", "1_0", "1e", "e1", "1e+",
        ".e1", "1e1.5", "0x10", "1f",
    ];
    for text in refused {
        assert!(parse_value(text).is_none(), "{:?}", text);
        assert!(text.parse::<f32>().is_err(), "{:?}", text);
    }
}
