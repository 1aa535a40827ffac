use sparktop::draw_state::{ActivityMode, Column, ColumnDisplay, DrawState, RawInput};
use sparktop::view_state::KeyCode;

fn state() -> DrawState {
    DrawState {
        title: String::from("initial title"),
        activity: ActivityMode::Top,
        displayed_columns: ColumnDisplay::default(),
        column_sort: Column::Pid,
        error: None,
        debug: None,
        should_quit: false,
    }
}

fn press(c: char) -> RawInput {
    RawInput { key: Some(KeyCode::Char(c)), control_only: false, description: format!("{}", c) }
}

#[test]
fn column_keys_parse() {
    assert_eq!(Column::from_char('p'), Ok(Column::Pid));
    assert_eq!(Column::from_char('n'), Ok(Column::ProcessName));
    assert_eq!(Column::from_char('c'), Ok(Column::Cpu));
    assert_eq!(Column::from_char('z'), Err(String::from("invalid column char: z")));
}

#[test]
fn sort_and_toggle_through_activities() {
    let mut s = state();
    s.transition(&press('s'));
    assert_eq!(s.activity, ActivityMode::SortSelect);
    assert_eq!(s.debug.as_deref(), Some("event: s"));
    s.transition_char('c');
    assert_eq!(s.column_sort, Column::Cpu);
    assert_eq!(s.activity, ActivityMode::Top);
    s.transition_char('c');
    assert_eq!(s.activity, ActivityMode::ColumnSelect);
    s.transition_char('x');
    assert_eq!(s.error.as_deref(), Some("invalid column char: x"));
    assert_eq!(s.activity, ActivityMode::ColumnSelect);
    s.transition_char('p');
    assert!(!s.displayed_columns.pid);
    assert!(s.error.is_none());
    s.transition_char('?');
    assert_eq!(s.error.as_deref(), Some("invalid command: ?"));
}

#[test]
fn escape_control_c_and_other_events() {
    let mut s = state();
    s.transition(&press('s'));
    s.transition(&RawInput { key: Some(KeyCode::Esc), control_only: false, description: String::from("Esc") });
    assert_eq!(s.activity, ActivityMode::Top);
    s.transition(&RawInput { key: None, control_only: false, description: String::from("Resize") });
    assert_eq!(s.error.as_deref(), Some("unhandled event: Resize"));
    s.transition(&RawInput { key: Some(KeyCode::Char('c')), control_only: true, description: String::from("^c") });
    assert!(s.should_quit);
    let mut t = state();
    t.transition_char('q');
    assert!(t.should_quit);
    let mut d = ColumnDisplay::default();
    d.toggle(Column::ProcessName);
    assert_eq!(d, ColumnDisplay { pid: true, process: false, cpu: true });
}
