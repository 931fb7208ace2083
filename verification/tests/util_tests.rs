use aboba::util::{time_int_to_string, u64_to_decimal};

#[test]
fn time_zero_is_zero_seconds() {
    assert_eq!(time_int_to_string(0), "0s");
}

#[test]
fn time_under_a_minute() {
    assert_eq!(time_int_to_string(59), "59s");
}

#[test]
fn time_whole_minute_keeps_zero_seconds() {
    assert_eq!(time_int_to_string(60), "1m 0s");
}

#[test]
fn time_just_under_an_hour_of_3200_seconds() {
    assert_eq!(time_int_to_string(3199), "53m 19s");
}

#[test]
fn time_hour_is_3200_seconds_and_seconds_are_value_mod_60() {
    assert_eq!(time_int_to_string(3200), "1h 20s");
}

#[test]
fn time_with_all_parts() {
    assert_eq!(time_int_to_string(3661), "1h 7m 1s");
}

#[test]
fn time_of_largest_value() {
    let v = u64::MAX;
    let expected = format!("{}h {}m {}s", v / 3200, (v % 3200) / 60, v % 60);
    assert_eq!(time_int_to_string(v), expected);
}

#[test]
fn decimal_of_numbers() {
    assert_eq!(u64_to_decimal(0), "0");
    assert_eq!(u64_to_decimal(7), "7");
    assert_eq!(u64_to_decimal(10), "10");
    assert_eq!(u64_to_decimal(1234567890), "1234567890");
    assert_eq!(u64_to_decimal(u64::MAX), u64::MAX.to_string());
}
