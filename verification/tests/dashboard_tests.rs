use hello_user::dashboard::{Dashboard, DashboardState, Key, KeyPress};
use hello_user::store::EnvironmentDoc;
use hello_user::totals::{Totals, TotalsError};

fn plain(key: Key) -> KeyPress {
    KeyPress { key, ctrl: false }
}

fn ctrl(c: char) -> KeyPress {
    KeyPress { key: Key::Char(c), ctrl: true }
}

fn fresh_dashboard() -> Dashboard {
    let (doc, _) = EnvironmentDoc::from_text(
        r#"{"todo_list": ["one"], "running_schedule": [], "running_totals": [10, 10, 10]}"#,
    );
    Dashboard::new(doc)
}

#[test]
fn reset_week_zeroes_only_the_week() {
    let mut t = Totals { week: 5_000, month: 7_000, year: 9_000 };
    t.reset_week();
    t.add(2_000);
    assert_eq!(t, Totals { week: 2_000, month: 9_000, year: 11_000 });
}

#[test]
fn parse_and_add_applies_one_quantity_to_all_three_scopes() {
    let mut t = Totals { week: 10_000, month: 10_000, year: 10_000 };
    assert_eq!(t.parse_and_add("12.5"), Ok(()));
    assert_eq!(t, Totals { week: 22_500, month: 22_500, year: 22_500 });
}

#[test]
fn parse_and_add_rejects_text_and_leaves_totals_unchanged() {
    let mut t = Totals { week: 10_000, month: 10_000, year: 10_000 };
    assert_eq!(t.parse_and_add("abc"), Err(TotalsError::NotNumeric));
    assert_eq!(t, Totals { week: 10_000, month: 10_000, year: 10_000 });
}

#[test]
fn parse_and_add_reports_a_sum_out_of_range() {
    let mut t = Totals { week: 1_000_000_000_000_000, month: 0, year: 0 };
    assert_eq!(t.parse_and_add("1"), Err(TotalsError::OutOfRange));
    assert_eq!(t.week, 1_000_000_000_000_000);
}

#[test]
fn quit_keys_stop_the_loop() {
    let mut d = fresh_dashboard();
    d.handle_key(plain(Key::Char('q')));
    assert!(!d.running);
    let mut d = fresh_dashboard();
    d.handle_key(ctrl('c'));
    assert!(!d.running);
    let mut d = fresh_dashboard();
    d.handle_key(plain(Key::Esc));
    assert!(!d.running);
}

#[test]
fn typing_into_the_add_popup_updates_the_totals_on_enter() {
    let mut d = fresh_dashboard();
    let out = d.handle_key(ctrl('w'));
    assert!(matches!(d.state, DashboardState::AddToRunningTotal { .. }));
    assert!(!out.persist && out.error.is_none());
    for c in ['1', '2', '.', '9'] {
        d.handle_key(plain(Key::Char(c)));
    }
    d.handle_key(plain(Key::Backspace));
    d.handle_key(plain(Key::Char('5')));
    let out = d.handle_key(plain(Key::Enter));
    assert!(matches!(d.state, DashboardState::Main));
    assert!(out.persist);
    assert_eq!(out.error, None);
    assert_eq!(d.doc.totals, Totals { week: 22_500, month: 22_500, year: 22_500 });
}

#[test]
fn confirming_garbage_surfaces_the_error_and_returns_to_main() {
    let mut d = fresh_dashboard();
    d.handle_key(ctrl('w'));
    for c in ['a', 'b'] {
        d.handle_key(plain(Key::Char(c)));
    }
    let out = d.handle_key(plain(Key::Enter));
    assert!(matches!(d.state, DashboardState::Main));
    assert!(!out.persist);
    assert_eq!(out.error, Some(TotalsError::NotNumeric));
    assert_eq!(d.doc.totals, Totals { week: 10_000, month: 10_000, year: 10_000 });
}

#[test]
fn cancelling_the_todo_editor_keeps_the_list_and_logs_the_text() {
    let mut d = fresh_dashboard();
    d.handle_key(ctrl('t'));
    assert!(matches!(d.state, DashboardState::EditTodoList { .. }));
    for c in ['b', 'u', 'y'] {
        d.handle_key(plain(Key::Char(c)));
    }
    d.handle_key(plain(Key::Enter));
    d.handle_key(plain(Key::Char('x')));
    let out = d.handle_key(plain(Key::Esc));
    assert!(matches!(d.state, DashboardState::Main));
    assert_eq!(d.doc.todo_list, vec!["one"]);
    assert!(!out.persist);
    assert_eq!(out.log_lines, vec!["buy\nx"]);
}

#[test]
fn cancelling_the_schedule_editor_logs_the_text_too() {
    let mut d = fresh_dashboard();
    d.handle_key(ctrl('r'));
    assert!(matches!(d.state, DashboardState::EditRunningSchedule { .. }));
    d.handle_key(plain(Key::Char('z')));
    let out = d.handle_key(ctrl('c'));
    assert!(matches!(d.state, DashboardState::Main));
    assert_eq!(out.log_lines, vec!["z"]);
}

#[test]
fn cancelling_the_add_popup_logs_nothing() {
    let mut d = fresh_dashboard();
    d.handle_key(ctrl('w'));
    d.handle_key(plain(Key::Char('9')));
    let out = d.handle_key(plain(Key::Esc));
    assert!(matches!(d.state, DashboardState::Main));
    assert!(out.log_lines.is_empty());
    assert_eq!(d.doc.totals, Totals { week: 10_000, month: 10_000, year: 10_000 });
}

#[test]
fn reset_week_command_persists_and_logs() {
    let mut d = fresh_dashboard();
    let out = d.handle_key(ctrl('o'));
    assert!(matches!(d.state, DashboardState::Main));
    assert!(out.persist);
    assert_eq!(out.log_lines, vec!["reset weekly distance"]);
    assert_eq!(d.doc.totals, Totals { week: 0, month: 10_000, year: 10_000 });
}

#[test]
fn unknown_keys_in_main_do_nothing() {
    let mut d = fresh_dashboard();
    let out = d.handle_key(plain(Key::Char('z')));
    assert!(matches!(d.state, DashboardState::Main));
    assert!(d.running);
    assert!(!out.persist && out.log_lines.is_empty() && out.error.is_none());
}
