use hello_user::date::{build_window, next_day, parse_date_text, today_date, Date};

#[test]
fn reads_zero_padded_dates() {
    assert_eq!(parse_date_text("02/29/2024"), Some(Date { year: 2024, month: 2, day: 29 }));
    assert_eq!(parse_date_text("12/31/1999"), Some(Date { year: 1999, month: 12, day: 31 }));
    assert_eq!(parse_date_text("01/01/0001"), Some(Date { year: 1, month: 1, day: 1 }));
}

#[test]
fn rejects_malformed_or_impossible_dates() {
    assert_eq!(parse_date_text("02/29/2023"), None); // not a leap year
    assert_eq!(parse_date_text("02/29/1900"), None); // century, not a leap year
    assert_eq!(parse_date_text("04/31/2024"), None); // April has 30 days
    assert_eq!(parse_date_text("13/01/2024"), None);
    assert_eq!(parse_date_text("00/10/2024"), None);
    assert_eq!(parse_date_text("1/2/2024"), None); // not zero padded
    assert_eq!(parse_date_text("01-02-2024"), None);
    assert_eq!(parse_date_text("01/02/24"), None);
    assert_eq!(parse_date_text(""), None);
}

#[test]
fn steps_over_month_and_year_boundaries() {
    let d = next_day(&Date { year: 2024, month: 2, day: 28 });
    assert_eq!(d, Date { year: 2024, month: 2, day: 29 });
    let d = next_day(&Date { year: 2023, month: 2, day: 28 });
    assert_eq!(d, Date { year: 2023, month: 3, day: 1 });
    let d = next_day(&Date { year: 2024, month: 12, day: 31 });
    assert_eq!(d, Date { year: 2025, month: 1, day: 1 });
}

#[test]
fn window_holds_seven_consecutive_days() {
    let win = build_window(&Date { year: 2024, month: 12, day: 29 });
    assert_eq!(win.len(), 7);
    assert_eq!(win[0], Date { year: 2024, month: 12, day: 29 });
    assert_eq!(win[2], Date { year: 2024, month: 12, day: 31 });
    assert_eq!(win[3], Date { year: 2025, month: 1, day: 1 });
    assert_eq!(win[6], Date { year: 2025, month: 1, day: 4 });
}

#[test]
fn the_clock_yields_a_real_date() {
    let today = today_date().expect("the clock should name a date in range");
    assert!(1 <= today.month && today.month <= 12);
    assert!(1 <= today.day && today.day <= 31);
    assert!(2020 <= today.year && today.year <= 9998);
}
