use std::str::FromStr;
use crontab::{
    categorize, BuildableSegment, Common, CronEntry, DayOfMonth, DayOfWeek, FieldKind, Hour,
    Minutes, Month, ParseError, Segment,
};

fn single<T>(v: &str) -> Common<T> {
    Common::new(None, None, None, Some(v.to_string()))
}

fn ranged<T>(a: &str, b: &str, step: Option<&str>) -> Common<T> {
    Common::new(
        Some(a.to_string()),
        Some(b.to_string()),
        step.map(|s| s.to_string()),
        None,
    )
}

fn one<T: Segment>(expr: &str, seg: &T) -> Result<T, ParseError> {
    let mut v = categorize(expr, seg)?;
    assert_eq!(v.len(), 1);
    Ok(v.remove(0))
}

#[test]
fn single_numbers_within_bounds() {
    for v in ["0", "30", "59"] {
        assert_eq!(one(v, &Minutes::default()), Ok(single(v)));
    }
    for v in ["0", "23"] {
        assert_eq!(one(v, &Hour::default()), Ok(single(v)));
    }
    for v in ["1", "31"] {
        assert_eq!(one(v, &DayOfMonth::default()), Ok(single(v)));
    }
    for v in ["1", "12"] {
        assert_eq!(one(v, &Month::default()), Ok(single(v)));
    }
    for v in ["0", "6"] {
        assert_eq!(one(v, &DayOfWeek::default()), Ok(single(v)));
    }
}

#[test]
fn single_numbers_out_of_bounds() {
    let minute = ParseError::OutOfRange { field: FieldKind::Minute };
    assert_eq!(one("60", &Minutes::default()), Err(minute));
    assert_eq!(one("255", &Minutes::default()), Err(minute));
    let hour = ParseError::OutOfRange { field: FieldKind::Hour };
    assert_eq!(one("24", &Hour::default()), Err(hour));
    let dom = ParseError::OutOfRange { field: FieldKind::DayOfMonth };
    assert_eq!(one("0", &DayOfMonth::default()), Err(dom));
    assert_eq!(one("32", &DayOfMonth::default()), Err(dom));
    let month = ParseError::OutOfRange { field: FieldKind::Month };
    assert_eq!(one("0", &Month::default()), Err(month));
    assert_eq!(one("13", &Month::default()), Err(month));
}

#[test]
fn wildcard_in_every_field() {
    assert_eq!(one("*", &Minutes::default()), Ok(single("*")));
    assert_eq!(one("*", &Hour::default()), Ok(single("*")));
    assert_eq!(one("*", &DayOfMonth::default()), Ok(single("*")));
    assert_eq!(one("*", &Month::default()), Ok(single("*")));
    assert_eq!(one("*", &DayOfWeek::default()), Ok(single("*")));
}

#[test]
fn ranges_and_their_order() {
    let m = Minutes::default();
    assert_eq!(one("5-10", &m), Ok(ranged("5", "10", None)));
    assert_eq!(one("7-7", &m), Ok(ranged("7", "7", None)));
    assert_eq!(one("10-5", &m), Err(ParseError::EndBeforeStart { field: FieldKind::Minute }));
    assert_eq!(one("6-3", &Hour::default()), Err(ParseError::EndBeforeStart { field: FieldKind::Hour }));
    assert_eq!(one("1-10/3", &m), Ok(ranged("1", "10", Some("3"))));
    assert_eq!(one("9-2/3", &m), Err(ParseError::EndBeforeStart { field: FieldKind::Minute }));
}

#[test]
fn range_numbers_are_stored_in_shortest_form() {
    let m = Minutes::default();
    assert_eq!(one("05-07", &m), Ok(ranged("5", "7", None)));
    assert_eq!(one("+5-07/02", &m), Ok(ranged("5", "7", Some("2"))));
    assert_eq!(one("+5", &m), Ok(single("+5")));
}

#[test]
fn stepped_from_wildcard_or_lowest() {
    assert_eq!(one("*/5", &Minutes::default()), Ok(ranged("*", "59", Some("5"))));
    assert_eq!(one("0/5", &Minutes::default()), Ok(ranged("0", "59", Some("5"))));
    assert_eq!(one("*/4", &Hour::default()), Ok(ranged("*", "23", Some("4"))));
    assert_eq!(one("0/4", &Hour::default()), Ok(ranged("0", "23", Some("4"))));
    assert_eq!(one("*/10", &DayOfMonth::default()), Ok(ranged("*", "31", Some("10"))));
    assert_eq!(one("1/10", &DayOfMonth::default()), Ok(ranged("1", "31", Some("10"))));
    assert_eq!(one("*/2", &Month::default()), Ok(ranged("*", "12", Some("2"))));
    assert_eq!(one("1/2", &Month::default()), Ok(ranged("1", "12", Some("2"))));
    assert_eq!(one("*/2", &DayOfWeek::default()), Ok(ranged("*", "6", Some("2"))));
    assert_eq!(one("0/2", &DayOfWeek::default()), Ok(ranged("0", "6", Some("2"))));
    let hour = ParseError::OutOfRange { field: FieldKind::Hour };
    assert_eq!(one("*/30", &Hour::default()), Err(hour));
    assert_eq!(one("0/30", &Hour::default()), Err(hour));
}

#[test]
fn month_names() {
    let names = [
        "JAN", "FEB", "MAR", "APR", "MAY", "JUN", "JUL", "AUG", "SEP", "OCT", "NOV", "DEC",
    ];
    for n in names {
        assert_eq!(one(n, &Month::default()), Ok(single(n)));
    }
    let unknown = ParseError::UnknownSymbol { field: FieldKind::Month };
    assert_eq!(one("jan", &Month::default()), Err(unknown));
    assert_eq!(one("Jan", &Month::default()), Err(unknown));
    assert_eq!(one("JANUARY", &Month::default()), Err(unknown));
    assert_eq!(one("MON", &Month::default()), Err(unknown));
    assert_eq!(one("J4N", &Month::default()), Err(unknown));
    assert_eq!(one("JAN1", &Month::default()), Err(unknown));
    assert_eq!(one("+", &Month::default()), Err(unknown));
    assert_eq!(
        one("300", &Month::default()),
        Err(ParseError::InvalidInteger { field: FieldKind::Month })
    );
    assert_eq!(
        categorize("JAN,", &Month::default()),
        Err(ParseError::InvalidInteger { field: FieldKind::Month })
    );
}

#[test]
fn weekday_names_and_numbers() {
    for n in ["MON", "TUE", "WED", "THU", "FRI", "SAT", "SUN"] {
        assert_eq!(one(n, &DayOfWeek::default()), Ok(single(n)));
    }
    for v in ["0", "1", "2", "3", "4", "5", "6"] {
        assert_eq!(one(v, &DayOfWeek::default()), Ok(single(v)));
    }
    let out = ParseError::OutOfRange { field: FieldKind::DayOfWeek };
    for v in ["7", "8", "100", "255"] {
        assert_eq!(one(v, &DayOfWeek::default()), Err(out));
    }
    assert_eq!(
        one("256", &DayOfWeek::default()),
        Err(ParseError::InvalidInteger { field: FieldKind::DayOfWeek })
    );
    assert_eq!(
        one("mon", &DayOfWeek::default()),
        Err(ParseError::UnknownSymbol { field: FieldKind::DayOfWeek })
    );
    assert_eq!(
        one("JAN", &DayOfWeek::default()),
        Err(ParseError::UnknownSymbol { field: FieldKind::DayOfWeek })
    );
}

#[test]
fn malformed_integers() {
    let bad = ParseError::InvalidInteger { field: FieldKind::Minute };
    let m = Minutes::default();
    assert_eq!(categorize("abc", &m), Err(bad));
    assert_eq!(categorize("300", &m), Err(bad));
    assert_eq!(categorize("", &m), Err(bad));
    assert_eq!(categorize("1,", &m), Err(bad));
    assert_eq!(categorize("1-x", &m), Err(bad));
    assert_eq!(categorize("JAN-MAR", &Month::default()), Err(ParseError::InvalidInteger { field: FieldKind::Month }));
    assert_eq!(categorize("-5", &m), Err(bad));
}

#[test]
fn misplaced_wildcards() {
    let wild = ParseError::WildcardMisuse { field: FieldKind::Minute };
    let m = Minutes::default();
    assert_eq!(categorize("*-5", &m), Err(wild));
    assert_eq!(categorize("5-*", &m), Err(wild));
    assert_eq!(categorize("1/*", &m), Err(wild));
    assert_eq!(categorize("*/*", &m), Err(wild));
    assert_eq!(categorize("1-5/*", &m), Err(wild));
    assert_eq!(categorize("*-5/2", &m), Err(wild));
    assert_eq!(
        categorize("70-80/2", &m),
        Err(ParseError::OutOfRange { field: FieldKind::Minute })
    );
}

#[test]
fn range_parts_are_read_before_bounds_are_checked() {
    let m = Minutes::default();
    let wild = ParseError::WildcardMisuse { field: FieldKind::Minute };
    let bad = ParseError::InvalidInteger { field: FieldKind::Minute };
    let out = ParseError::OutOfRange { field: FieldKind::Minute };
    assert_eq!(categorize("70-*", &m), Err(wild));
    assert_eq!(categorize("70-abc", &m), Err(bad));
    assert_eq!(categorize("70-80/*", &m), Err(wild));
    assert_eq!(categorize("1-70/x", &m), Err(bad));
    assert_eq!(categorize("5-70", &m), Err(out));
    assert_eq!(categorize("9-70/2", &m), Err(out));
}

#[test]
fn zero_steps_are_refused() {
    let m = Minutes::default();
    let out = ParseError::OutOfRange { field: FieldKind::Minute };
    assert_eq!(categorize("1-10/0", &m), Err(out));
    assert_eq!(categorize("10-1/0", &m), Err(out));
    assert_eq!(categorize("*/0", &m), Err(out));
    assert_eq!(categorize("5/00", &m), Err(out));
    assert_eq!(
        categorize("0-6/0", &DayOfWeek::default()),
        Err(ParseError::OutOfRange { field: FieldKind::DayOfWeek })
    );
    assert_eq!(one("1-10/1", &m), Ok(ranged("1", "10", Some("1"))));
}

#[test]
fn from_str_agrees_with_parse() {
    let e = CronEntry::from_str("0 12 1 JAN MON").unwrap();
    assert_eq!(e.month, vec![single("JAN")]);
    assert_eq!(e.day_of_week, vec![single("MON")]);
    assert_eq!(e.minutes, vec![single("0")]);
    assert_eq!(e.hour, vec![single("12")]);
    assert_eq!(e.day_of_month, vec![single("1")]);
    assert_eq!(
        CronEntry::from_str("  * *   * * *  "),
        CronEntry::from_str("* * * * *")
    );
    assert!(CronEntry::from_str("0 0 1 JAN-MAR *").is_err());
    assert!(CronEntry::from_str("0 0 1 * MON-FRI").is_err());
    assert_eq!(CronEntry::from_str("5 4 10"), CronEntry::parse("5 4 10"));
}

#[test]
fn clauses_keep_order_and_duplicates() {
    let r = categorize("3,1,3", &Minutes::default()).unwrap();
    assert_eq!(r, vec![single("3"), single("1"), single("3")]);
}

#[test]
fn render_is_deterministic() {
    let e = CronEntry::parse("1,2 */3 1-5 JAN 0-4/2").unwrap();
    let first = e.render();
    let second = e.render();
    assert_eq!(first, second);
    let again = CronEntry::parse("1,2 */3 1-5 JAN 0-4/2").unwrap();
    assert_eq!(again.render(), first);
}

#[test]
fn scenario_minute_and_stepped_hour() {
    let e = CronEntry::parse("23 0-20/2 * * *").unwrap();
    assert_eq!(e.minutes[0].describe(), "At minute 23");
    assert_eq!(e.hour[0].describe(), "past every 2 hour from 0 through 20");
    let text = e.render();
    assert!(text.contains("every 2 hour from 0 through 20"));
    assert_eq!(text, "At minute 23 past every 2 hour from 0 through 20  ");
}

#[test]
fn scenario_all_wildcards() {
    let e = CronEntry::parse("* * * * *").unwrap();
    let text = e.render();
    assert_eq!(text.trim_end(), "At every minute");
    assert_eq!(text, "At every minute   ");
}

#[test]
fn scenario_minute_out_of_range_stops_the_parse() {
    assert_eq!(
        CronEntry::parse("70 4 10 JAN 3"),
        Err(ParseError::OutOfRange { field: FieldKind::Minute })
    );
    assert_eq!(
        CronEntry::parse("70 x y z w"),
        Err(ParseError::OutOfRange { field: FieldKind::Minute })
    );
    assert_eq!(
        CronEntry::parse("1 2 3 13 9"),
        Err(ParseError::OutOfRange { field: FieldKind::Month })
    );
}

#[test]
fn scenario_too_few_fields() {
    assert_eq!(CronEntry::parse("5 4 10"), Err(ParseError::MissingFields { found: 3 }));
    assert_eq!(CronEntry::parse(""), Err(ParseError::MissingFields { found: 0 }));
    assert_eq!(CronEntry::parse("   \t "), Err(ParseError::MissingFields { found: 0 }));
}

#[test]
fn fields_are_read_before_missing_ones_are_reported() {
    assert_eq!(
        CronEntry::parse("70 4"),
        Err(ParseError::OutOfRange { field: FieldKind::Minute })
    );
    assert_eq!(CronEntry::parse("70"), Err(ParseError::OutOfRange { field: FieldKind::Minute }));
    assert_eq!(
        CronEntry::parse("1 x"),
        Err(ParseError::InvalidInteger { field: FieldKind::Hour })
    );
    assert_eq!(
        CronEntry::parse("1 2 3 13"),
        Err(ParseError::OutOfRange { field: FieldKind::Month })
    );
    assert_eq!(CronEntry::parse("1 2 3 4"), Err(ParseError::MissingFields { found: 4 }));
    assert_eq!(CronEntry::parse("1 2"), Err(ParseError::MissingFields { found: 2 }));
}

#[test]
fn scenario_range_ending_before_start() {
    assert_eq!(
        CronEntry::parse("10,11,12-9 4 10 JAN 3"),
        Err(ParseError::EndBeforeStart { field: FieldKind::Minute })
    );
}

#[test]
fn whitespace_and_extra_fields() {
    let e = CronEntry::parse("1\t2\n3  4\u{3000}5").unwrap();
    assert_eq!(e.minutes, vec![single("1")]);
    assert_eq!(e.day_of_week, vec![single("5")]);
    let extra = CronEntry::parse(" 1 2 3 4 5 6 7 ").unwrap();
    assert_eq!(extra.month, vec![single("4")]);
}

#[test]
fn render_joins_clauses() {
    let e = CronEntry::parse("1,2,3 * * * *").unwrap();
    assert_eq!(e.render(), "At minute 1, at minute 2, and at minute 3   ");
    let e = CronEntry::parse("0 0 1 JAN,FEB *").unwrap();
    assert_eq!(
        e.render(),
        "At minute 0 past hour 0 On day-of-month 1 in month JAN, and in month feb"
    );
}

#[test]
fn render_day_of_week_last() {
    let e = CronEntry::parse("0 12 * * MON").unwrap();
    assert_eq!(e.render(), "At minute 0 past hour 12   on MON");
    let e = CronEntry::parse("* * * * 1-5/2").unwrap();
    assert_eq!(
        e.render(),
        "At every minute    on every 2 day-of-week from 1 through 5"
    );
}

#[test]
fn render_other_phrases() {
    let e = CronEntry::parse("10-20 * 15 */3 *").unwrap();
    assert_eq!(
        e.render(),
        "At every minute from 10 through 20  On day-of-month 15 in every 3 month from * through 12"
    );
    let e = CronEntry::parse("*/15 1-3 2-9/7 3-4 *").unwrap();
    assert_eq!(
        e.render(),
        "At every 15 minute from * through 59 past every hour from 1 through 3 on every 7 day-of-month from 2 through 9 in every month from 3 through 4"
    );
}

#[test]
fn segment_rules() {
    assert_eq!(Minutes::default().max(), 59);
    assert_eq!(Hour::default().max(), 23);
    assert_eq!(DayOfMonth::default().max(), 31);
    assert_eq!(Month::default().max(), 12);
    assert_eq!(DayOfWeek::default().max(), 6);
    assert!(Month::default().validate_range("JAN"));
    assert!(!Month::default().validate_range("jan"));
    assert!(Month::default().validate_range("*"));
    assert!(!Minutes::default().validate_range("60"));
    assert!(!Minutes::default().validate_range("x"));
    assert!(DayOfWeek::default().validate_range("SUN"));
    assert_eq!(DayOfWeek::default().kind(), FieldKind::DayOfWeek);
    assert_eq!(FieldKind::DayOfMonth.min(), 1);
}
