use ghost_time::dates::{daily_range, day_range_from_parse, export_range, export_range_from_parses};

#[test]
fn daily_range_of_a_day() {
    assert_eq!(daily_range("2024-03-15"), Ok((1_710_460_800_000, 1_710_547_200_000)));
    assert_eq!(daily_range("1970-01-01"), Ok((0, 86_400_000)));
    assert_eq!(daily_range("1969-12-31"), Ok((-86_400_000, 0)));
}

#[test]
fn daily_range_rejects_bad_dates() {
    let e = daily_range("2024-13-01").unwrap_err();
    assert_eq!(e, "Invalid date: input is out of range");
    let e = daily_range("yesterday").unwrap_err();
    assert_eq!(e, "Invalid date: input contains invalid characters");
    let e = daily_range("2024-03-15x").unwrap_err();
    assert_eq!(e, "Invalid date: trailing input");
}

#[test]
fn day_range_from_parsed_values() {
    assert_eq!(day_range_from_parse(Ok(2)), Ok((172_800_000, 259_200_000)));
    assert_eq!(day_range_from_parse(Err("boom".to_string())), Err("Invalid date: boom".to_string()));
}

#[test]
fn export_range_covers_whole_end_day() {
    assert_eq!(export_range("2024-03-15", "2024-03-16"), Ok((1_710_460_800_000, 1_710_633_599_999)));
    assert_eq!(export_range("2024-03-15", "2024-03-15"), Ok((1_710_460_800_000, 1_710_547_199_999)));
}

#[test]
fn export_range_errors() {
    assert_eq!(export_range("x", "also bad").unwrap_err(), "Invalid start date: input contains invalid characters");
    assert_eq!(export_range("2024-03-15", "2024-02-30").unwrap_err(), "Invalid end date: input is out of range");
    assert_eq!(
        export_range_from_parses(Ok(0), Err("e".to_string())),
        Err("Invalid end date: e".to_string())
    );
    assert_eq!(export_range_from_parses(Ok(0), Ok(0)), Ok((0, 86_399_999)));
}
