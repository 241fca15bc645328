use hello_user::date::Date;
use hello_user::schedule::{project_schedule, ScheduleEntry};

fn entry(date: &str, am: Option<&str>, pm: Option<&str>) -> ScheduleEntry {
    ScheduleEntry {
        date: date.to_owned(),
        am: am.map(|s| s.to_owned()),
        pm: pm.map(|s| s.to_owned()),
    }
}

#[test]
fn empty_schedule_is_all_rest() {
    let today = Date { year: 2025, month: 3, day: 10 };
    let (am, pm) = project_schedule(&Vec::new(), &today);
    assert_eq!(am, vec!["rest"; 7]);
    assert_eq!(pm, vec!["rest"; 7]);
}

#[test]
fn entries_land_on_their_days() {
    let today = Date { year: 2025, month: 3, day: 10 };
    let entries = vec![
        entry("03/10/2025", Some("10k easy"), Some("strides")),
        entry("03/13/2025", Some("intervals"), None),
        entry("03/16/2025", None, Some("long run")),
    ];
    let (am, pm) = project_schedule(&entries, &today);
    assert_eq!(am, vec!["10k easy", "rest", "rest", "intervals", "rest", "rest", "rest"]);
    assert_eq!(pm, vec!["strides", "rest", "rest", "rest", "rest", "rest", "long run"]);
}

#[test]
fn dates_outside_the_window_are_ignored() {
    let today = Date { year: 2025, month: 3, day: 10 };
    let entries = vec![
        entry("03/09/2025", Some("yesterday"), None),
        entry("03/17/2025", Some("next week"), None),
        entry("not a date", Some("nowhere"), None),
    ];
    let (am, pm) = project_schedule(&entries, &today);
    assert_eq!(am, vec!["rest"; 7]);
    assert_eq!(pm, vec!["rest"; 7]);
}

#[test]
fn later_entries_win_only_on_fields_they_carry() {
    let today = Date { year: 2025, month: 3, day: 10 };
    let entries = vec![
        entry("03/11/2025", Some("first am"), Some("first pm")),
        entry("03/11/2025", Some("second am"), None),
    ];
    let (am, pm) = project_schedule(&entries, &today);
    // The later entry overwrites the morning but leaves the afternoon.
    assert_eq!(am[1], "second am");
    assert_eq!(pm[1], "first pm");
}

#[test]
fn window_crosses_a_year_boundary() {
    let today = Date { year: 2024, month: 12, day: 30 };
    let entries = vec![entry("01/02/2025", Some("new year run"), None)];
    let (am, _pm) = project_schedule(&entries, &today);
    assert_eq!(am[3], "new year run");
}
