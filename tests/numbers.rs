use eremit::numtext::{parse_fixed, push_decimal, push_fixed, push_fixed_u64, push_padded, push_short, pow10_u64};
use eremit::timeline::{bar_of, floor_div, floor_mod, next_boundary_beat, round_hundredths};
use eremit::pacing::{next_deadline, sleep_micros, TICK_PERIOD_MICROS};

fn fixed(v: i64, w: u32) -> String {
    let mut s = String::new();
    push_fixed(&mut s, v, w);
    s
}

#[test]
fn decimal_text_of_integers() {
    let mut s = String::from("n=");
    push_decimal(&mut s, 0);
    assert_eq!(s, "n=0");
    let mut t = String::new();
    push_decimal(&mut t, 18446744073709551615);
    assert_eq!(t, "18446744073709551615");
}

#[test]
fn fixed_point_text() {
    assert_eq!(fixed(9000, 2), "90.00");
    assert_eq!(fixed(12033, 2), "120.33");
    assert_eq!(fixed(5, 2), "0.05");
    assert_eq!(fixed(-1500000, 6), "-1.500000");
    assert_eq!(fixed(0, 6), "0.000000");
    assert_eq!(fixed(i64::MIN, 0), "-9223372036854775808.");
    let mut u = String::new();
    push_fixed_u64(&mut u, 18446744073709551615, 2);
    assert_eq!(u, "184467440737095516.15");
}

#[test]
fn powers_of_ten() {
    assert_eq!(pow10_u64(0), 1);
    assert_eq!(pow10_u64(2), 100);
    assert_eq!(pow10_u64(6), 1000000);
}

#[test]
fn padding_to_a_field_width() {
    let mut s = String::new();
    push_padded(&mut s, "yes", 7);
    assert_eq!(s, "yes    ");
    let mut t = String::new();
    push_padded(&mut t, "longer than four", 4);
    assert_eq!(t, "longer than four");
}

#[test]
fn parse_decimal_numbers() {
    assert_eq!(parse_fixed("90.0", 2), Some(9000));
    assert_eq!(parse_fixed("90", 2), Some(9000));
    assert_eq!(parse_fixed("120.333333", 2), Some(12033));
    assert_eq!(parse_fixed("1.", 2), Some(100));
    assert_eq!(parse_fixed("0.5", 6), Some(500000));
    assert_eq!(parse_fixed("007", 0), Some(7));
}

#[test]
fn parse_rejects_what_is_not_a_decimal() {
    assert_eq!(parse_fixed("", 2), None);
    assert_eq!(parse_fixed(".5", 2), None);
    assert_eq!(parse_fixed("-1", 2), None);
    assert_eq!(parse_fixed("12a", 2), None);
    assert_eq!(parse_fixed("1.2.3", 2), None);
    assert_eq!(parse_fixed("abc", 2), None);
    assert_eq!(parse_fixed(" 90", 2), None);
}

#[test]
fn parse_rejects_values_too_large() {
    assert_eq!(parse_fixed("18446744073709551615", 0), Some(u64::MAX));
    assert_eq!(parse_fixed("18446744073709551616", 0), None);
    assert_eq!(parse_fixed("184467440737095516.15", 2), Some(u64::MAX));
    assert_eq!(parse_fixed("184467440737095516.16", 2), None);
    assert_eq!(parse_fixed("99999999999999999999999", 2), None);
}

#[test]
fn formatting_then_parsing_gives_the_value_back() {
    for v in [0u64, 1, 99, 100, 9000, 12033, 99999, 123456789] {
        let mut s = String::new();
        push_fixed_u64(&mut s, v, 2);
        assert_eq!(parse_fixed(&s, 2), Some(v));
    }
}

#[test]
fn floor_division_rounds_down() {
    assert_eq!(floor_div(7, 4), 1);
    assert_eq!(floor_div(-1, 4), -1);
    assert_eq!(floor_div(-4, 4), -1);
    assert_eq!(floor_div(-5, 4), -2);
    assert_eq!(floor_div(i64::MIN, 1), i64::MIN);
    assert_eq!(floor_mod(-1, 4), 3);
    assert_eq!(floor_mod(-4, 4), 0);
    assert_eq!(floor_mod(9, 4), 1);
}

#[test]
fn bars_of_beats() {
    assert_eq!(bar_of(0, 4000000), 0);
    assert_eq!(bar_of(3999999, 4000000), 0);
    assert_eq!(bar_of(4000000, 4000000), 1);
    assert_eq!(bar_of(-1, 4000000), -1);
}

#[test]
fn rounding_to_hundredths() {
    assert_eq!(round_hundredths(1234999), 123);
    assert_eq!(round_hundredths(1235000), 124);
    assert_eq!(round_hundredths(-1234999), -123);
    assert_eq!(round_hundredths(-1235000), -123);
    assert_eq!(round_hundredths(-1235001), -124);
}

#[test]
fn next_boundary_is_a_whole_quantum_ahead_at_phase_zero() {
    assert_eq!(next_boundary_beat(0, 0, 4000000), 4000000);
    assert_eq!(next_boundary_beat(1500000, 1500000, 4000000), 4000000);
    assert_eq!(next_boundary_beat(5000000, 1000000, 4000000), 8000000);
}

#[test]
fn deadlines_accumulate_without_drift() {
    let p = TICK_PERIOD_MICROS;
    let start: i64 = 1000;
    let mut d = start;
    for n in 1..=50i64 {
        // work ends somewhere inside the slot, never past it
        let now = d + (n * 37) % p;
        d = next_deadline(d, p, now);
        assert_eq!(d, start + n * p);
    }
}

#[test]
fn late_ticks_skip_to_the_next_grid_point() {
    let p = TICK_PERIOD_MICROS;
    assert_eq!(next_deadline(0, p, 5), p);
    assert_eq!(next_deadline(0, p, p), 2 * p);
    assert_eq!(next_deadline(0, p, 3 * p + 1), 4 * p);
    assert_eq!(next_deadline(-10, 20, 35), 50);
}

#[test]
fn sleeping_until_a_deadline() {
    assert_eq!(sleep_micros(100, 40), 60);
    assert_eq!(sleep_micros(100, 100), 0);
    assert_eq!(sleep_micros(100, 140), 0);
}

#[test]
fn shortest_decimal_text() {
    let short = |v: i64, w: u32| {
        let mut s = String::new();
        push_short(&mut s, v, w);
        s
    };
    assert_eq!(short(0, 6), "0");
    assert_eq!(short(1500000, 6), "1.5");
    assert_eq!(short(-1500000, 6), "-1.5");
    assert_eq!(short(4000000, 6), "4");
    assert_eq!(short(1050000, 6), "1.05");
    assert_eq!(short(1, 6), "0.000001");
    assert_eq!(short(120, 0), "120");
}
