use reminder::date::Date;
use reminder::date::format_date;
use reminder::date::parse_date;
use reminder::interval::Interval;
use reminder::interval::format_duration;
use reminder::interval::parse_duration;
use reminder::remindable::Remindable;
use reminder::result::Error;

#[test]
fn date_round_trip_plain() {
    let d = parse_date("1.1.2021").unwrap();
    assert_eq!(d, Date { year: 2021, month: 1, day: 1 });
    assert_eq!(format_date(&d), "1.1.2021");
}

#[test]
fn date_round_trip_zero_padded() {
    let d = parse_date("07.04.1999").unwrap();
    assert_eq!(d, Date { year: 1999, month: 4, day: 7 });
    assert_eq!(format_date(&d), "7.4.1999");
}

#[test]
fn format_date_exact() {
    assert_eq!(format_date(&Date { year: 2024, month: 12, day: 31 }), "31.12.2024");
}

#[test]
fn parse_date_rejects_missing_segments() {
    assert!(matches!(parse_date("1.2021"), Err(Error::Parse(_))));
    assert!(matches!(parse_date(""), Err(Error::Parse(_))));
    assert!(matches!(parse_date("1.1."), Err(Error::Parse(_))));
}

#[test]
fn parse_date_rejects_extra_segments() {
    assert!(matches!(parse_date("1.2.3.4"), Err(Error::Parse(_))));
}

#[test]
fn parse_date_rejects_non_numeric() {
    assert!(matches!(parse_date("a.1.2020"), Err(Error::Parse(_))));
    assert!(matches!(parse_date("1.1.-5"), Err(Error::Parse(_))));
}

#[test]
fn parse_date_rejects_invalid_calendar_dates() {
    assert!(matches!(parse_date("32.1.2020"), Err(Error::Parse(_))));
    assert!(matches!(parse_date("1.13.2020"), Err(Error::Parse(_))));
    assert!(matches!(parse_date("0.1.2020"), Err(Error::Parse(_))));
    assert!(matches!(parse_date("31.4.2020"), Err(Error::Parse(_))));
}

#[test]
fn parse_date_leap_years() {
    assert!(parse_date("29.2.2020").is_ok());
    assert!(matches!(parse_date("29.2.2021"), Err(Error::Parse(_))));
    assert!(parse_date("29.2.2000").is_ok());
    assert!(matches!(parse_date("29.2.1900"), Err(Error::Parse(_))));
}

#[test]
fn parse_duration_days() {
    assert_eq!(parse_duration("D10").unwrap(), Interval::Days(10));
    assert_eq!(parse_duration("d5").unwrap(), Interval::Days(5));
}

#[test]
fn parse_duration_weeks() {
    assert_eq!(parse_duration("w3").unwrap(), Interval::Weeks(3));
    assert_eq!(parse_duration("W42").unwrap(), Interval::Weeks(42));
}

#[test]
fn parse_duration_rejects_bad_input() {
    assert!(matches!(parse_duration(""), Err(Error::Parse(_))));
    assert!(matches!(parse_duration("X5"), Err(Error::Parse(_))));
    assert!(matches!(parse_duration("D"), Err(Error::Parse(_))));
    assert!(matches!(parse_duration("Dfive"), Err(Error::Parse(_))));
    assert!(matches!(parse_duration("D-3"), Err(Error::Parse(_))));
}

#[test]
fn parse_duration_amount_bounds() {
    assert_eq!(parse_duration("D4294967295").unwrap(), Interval::Days(4294967295));
    assert!(matches!(parse_duration("D4294967296"), Err(Error::Parse(_))));
}

#[test]
fn format_duration_one_week_is_days() {
    assert_eq!(format_duration(&Interval::Weeks(1)), "D7");
    assert_eq!(format_duration(&Interval::Days(7)), "D7");
}

#[test]
fn format_duration_two_weeks_is_weeks() {
    assert_eq!(format_duration(&Interval::Weeks(2)), "W2");
    assert_eq!(format_duration(&Interval::Days(14)), "W2");
}

#[test]
fn format_duration_three_days() {
    assert_eq!(format_duration(&Interval::Days(3)), "D3");
}

#[test]
fn format_duration_truncates_partial_weeks() {
    assert_eq!(format_duration(&Interval::Days(16)), "W2");
    assert_eq!(format_duration(&Interval::Days(13)), "D13");
    assert_eq!(format_duration(&Interval::Days(0)), "D0");
}

#[test]
fn duration_round_trip_preserves_magnitude() {
    let cases = [
        Interval::Days(0),
        Interval::Days(10),
        Interval::Days(13),
        Interval::Weeks(1),
        Interval::Weeks(2),
        Interval::Weeks(600),
    ];
    for iv in cases {
        let parsed = parse_duration(&format_duration(&iv)).unwrap();
        let days = |i: &Interval| match i {
            Interval::Days(n) => *n as u64,
            Interval::Weeks(n) => 7 * (*n as u64),
        };
        assert_eq!(days(&parsed), days(&iv));
    }
}

#[test]
fn is_todo_across_leap_day() {
    let rem = Remindable {
        key: String::from("k"),
        name: String::from("n"),
        last_update: Date { year: 2024, month: 2, day: 28 },
        remind_interval: Interval::Days(1),
    };
    assert!(!rem.is_todo_on(&Date { year: 2024, month: 2, day: 29 }));
    assert!(rem.is_todo_on(&Date { year: 2024, month: 3, day: 1 }));
}

#[test]
fn is_todo_strict_boundary() {
    let rem = Remindable {
        key: String::from("k"),
        name: String::from("n"),
        last_update: Date { year: 2024, month: 1, day: 1 },
        remind_interval: Interval::Days(7),
    };
    assert!(!rem.is_todo_on(&Date { year: 2024, month: 1, day: 8 }));
    assert!(rem.is_todo_on(&Date { year: 2024, month: 1, day: 9 }));
}

#[test]
fn is_todo_across_month_and_year_ends() {
    let rem = Remindable {
        key: String::from("k"),
        name: String::from("n"),
        last_update: Date { year: 2023, month: 12, day: 31 },
        remind_interval: Interval::Weeks(1),
    };
    assert!(!rem.is_todo_on(&Date { year: 2024, month: 1, day: 7 }));
    assert!(rem.is_todo_on(&Date { year: 2024, month: 1, day: 8 }));
}

#[test]
fn set_done_today_clears_todo() {
    let mut rem = Remindable {
        key: String::from("k"),
        name: String::from("n"),
        last_update: Date { year: 2000, month: 1, day: 1 },
        remind_interval: Interval::Days(1),
    };
    rem.set_done_today();
    assert!(!rem.is_todo());
    rem.remind_interval = Interval::Weeks(52);
    assert!(!rem.is_todo());
}

#[test]
fn from_strings_builds_the_task() {
    let rem = Remindable::from_strings(
        String::from("gym"),
        String::from("go to the gym"),
        String::from("3.10.2022"),
        String::from("w1"),
    )
    .unwrap();
    assert_eq!(rem.key, "gym");
    assert_eq!(rem.name, "go to the gym");
    assert_eq!(rem.last_update, Date { year: 2022, month: 10, day: 3 });
    assert_eq!(rem.remind_interval, Interval::Weeks(1));
}

#[test]
fn from_strings_rejects_bad_fields() {
    let r = Remindable::from_strings(
        String::from("k"),
        String::from("n"),
        String::from("3.13.2022"),
        String::from("w1"),
    );
    assert!(matches!(r, Err(Error::Parse(_))));
    let r = Remindable::from_strings(
        String::from("k"),
        String::from("n"),
        String::from("3.10.2022"),
        String::from("q1"),
    );
    assert!(matches!(r, Err(Error::Parse(_))));
}

#[test]
fn getter_strings_are_canonical() {
    let rem = Remindable::from_strings(
        String::from("k"),
        String::from("n"),
        String::from("03.1.2021"),
        String::from("d10"),
    )
    .unwrap();
    assert_eq!(rem.get_last_update_string(), "3.1.2021");
    assert_eq!(rem.get_remind_interval_string(), "D10");
}

#[test]
fn display_string_fixed_order() {
    let rem = Remindable {
        key: String::from("gym"),
        name: String::from("go to the gym"),
        last_update: Date { year: 2024, month: 1, day: 9 },
        remind_interval: Interval::Weeks(1),
    };
    assert_eq!(rem.display_string(), "gym \"go to the gym\" 9.1.2024 D7");
}

#[test]
fn set_last_update_is_atomic() {
    let mut rem = Remindable {
        key: String::from("k"),
        name: String::from("n"),
        last_update: Date { year: 2024, month: 1, day: 1 },
        remind_interval: Interval::Days(3),
    };
    assert!(matches!(rem.set_last_update(String::from("no date")), Err(Error::Parse(_))));
    assert_eq!(rem.last_update, Date { year: 2024, month: 1, day: 1 });
    rem.set_last_update(String::from("2.3.2025")).unwrap();
    assert_eq!(rem.last_update, Date { year: 2025, month: 3, day: 2 });
}

#[test]
fn set_remind_interval_is_atomic() {
    let mut rem = Remindable {
        key: String::from("k"),
        name: String::from("n"),
        last_update: Date { year: 2024, month: 1, day: 1 },
        remind_interval: Interval::Days(3),
    };
    assert!(matches!(rem.set_remind_interval(String::from("P5")), Err(Error::Parse(_))));
    assert_eq!(rem.remind_interval, Interval::Days(3));
    rem.set_remind_interval(String::from("W2")).unwrap();
    assert_eq!(rem.remind_interval, Interval::Weeks(2));
}
