use udp_stress::units::{parse_amount, parse_duration, parse_number_with_suffix};

#[test]
pub fn parsing_is_correct() {
    assert_eq!(parse_duration("1"), Ok(1_000_000_000));
    assert_eq!(parse_duration("123"), Ok(123_000_000_000));
    assert_eq!(parse_duration("123"), Ok(123_000_000_000));
    assert_eq!(parse_duration("23ms"), Ok(23_000_000));
    assert_eq!(parse_duration("3mcs"), Ok(3_000));
    assert_eq!(parse_duration("3ns"), Ok(3));
    assert_eq!(parse_duration("0"), Err("Only strictly positive numbers, please!"));
    assert_eq!(parse_duration("00"), Err("Only strictly positive numbers, please!"));
    assert_eq!(parse_duration("ms"), Err("Number contains no digits"));
    assert_eq!(parse_duration("123xx"), Err("Duration value contains unknown suffix"));
    assert_eq!(parse_amount("1"), Ok(1));
    assert_eq!(parse_amount("10"), Ok(10));
    assert_eq!(parse_amount("1K"), Ok(1000));
    assert_eq!(parse_amount("1M"), Ok(1_000_000));
}

#[test]
fn number_with_suffix_splits_verbatim() {
    assert_eq!(parse_number_with_suffix("123xx"), Ok((123, String::from("xx"))));
    assert_eq!(parse_number_with_suffix("42"), Ok((42, String::new())));
    assert_eq!(parse_number_with_suffix("007ms"), Ok((7, String::from("ms"))));
    assert_eq!(parse_number_with_suffix(""), Err("Number contains no digits"));
    assert_eq!(parse_number_with_suffix("x12"), Err("Number contains no digits"));
}

#[test]
fn digit_run_overflow_is_reported() {
    assert_eq!(
        parse_number_with_suffix("99999999999999999999999"),
        Err("Number has too many digits")
    );
    // u64::MAX itself still fits
    assert_eq!(
        parse_number_with_suffix("18446744073709551615"),
        Ok((u64::MAX, String::new()))
    );
    assert_eq!(
        parse_number_with_suffix("18446744073709551616"),
        Err("Number has too many digits")
    );
    // leading zeros do not count against the range
    assert_eq!(parse_number_with_suffix("0042"), Ok((42, String::new())));
}

#[test]
fn duration_units_scale_exactly() {
    assert_eq!(parse_duration("2d"), Ok(172_800_000_000_000));
    assert_eq!(parse_duration("2h"), Ok(7_200_000_000_000));
    assert_eq!(parse_duration("2m"), Ok(120_000_000_000));
    assert_eq!(parse_duration("2s"), Ok(2_000_000_000));
    assert_eq!(parse_duration("500mcs"), Ok(500_000));
}

#[test]
fn amount_units_scale_exactly() {
    assert_eq!(parse_amount("3G"), Ok(3_000_000_000));
    assert_eq!(parse_amount("3T"), Ok(3_000_000_000_000));
    assert_eq!(parse_amount("3P"), Ok(3_000_000_000_000_000));
    assert_eq!(parse_amount("3E"), Ok(3_000_000_000_000_000_000));
    assert_eq!(parse_amount("5Q"), Err("Amount value contains unknown suffix"));
}

#[test]
fn scaled_value_overflow_is_reported() {
    // the digit run fits u64, but the unit multiplier pushes it out
    assert_eq!(parse_duration("1000000d"), Err("Number has too many digits"));
    assert_eq!(parse_amount("100E"), Err("Number has too many digits"));
}
