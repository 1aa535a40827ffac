//! A minimal modal screen state: a title, a sort column and three toggleable
//! columns, driven by raw terminal input.
use vstd::prelude::*;
use vstd::string::StringExecFns;

use crate::text::push_char;
use crate::view_state::KeyCode;

verus! {

/// Activities that need further input.
#[derive(Debug, Clone, Copy, PartialEq, Eq, Structural)]
pub enum ActivityMode {
    Top,
    SortSelect,
    ColumnSelect,
}

#[derive(Debug, Clone, Copy, PartialEq, Eq, Structural)]
pub enum Column {
    Pid,
    ProcessName,
    Cpu,
}

#[derive(Debug, Clone, Copy, PartialEq, Eq, Structural)]
pub struct ColumnDisplay {
    pub pid: bool,
    pub process: bool,
    pub cpu: bool,
}

/// One terminal input: the key, if it is a key press, whether Control alone
/// was held, and a description for messages.
pub struct RawInput {
    pub key: Option<KeyCode>,
    pub control_only: bool,
    pub description: String,
}

pub struct DrawState {
    pub title: String,
    pub activity: ActivityMode,
    pub displayed_columns: ColumnDisplay,
    pub column_sort: Column,
    pub error: Option<String>,
    pub debug: Option<String>,
    pub should_quit: bool,
}

pub open spec fn column_for_char(c: char) -> Option<Column> {
    if c == 'p' {
        Some(Column::Pid)
    } else if c == 'n' {
        Some(Column::ProcessName)
    } else if c == 'c' {
        Some(Column::Cpu)
    } else {
        None
    }
}

impl Column {
    /// The column for a key, or a message naming the key.
    pub fn from_char(c: char) -> (r: Result<Column, String>)
        ensures
            match column_for_char(c) {
                Some(col) => r == Ok::<Column, String>(col),
                None => r is Err && r->Err_0@ == "invalid column char: "@.push(c),
            },
    {
        match c {
            'p' => Ok(Column::Pid),
            'n' => Ok(Column::ProcessName),
            'c' => Ok(Column::Cpu),
            _ => {
                let mut msg = String::from_str("invalid column char: ");
                push_char(&mut msg, c);
                Err(msg)
            },
        }
    }
}

pub open spec fn column_toggled(d: ColumnDisplay, col: Column) -> ColumnDisplay {
    match col {
        Column::Pid => ColumnDisplay { pid: !d.pid, ..d },
        Column::ProcessName => ColumnDisplay { process: !d.process, ..d },
        Column::Cpu => ColumnDisplay { cpu: !d.cpu, ..d },
    }
}

impl ColumnDisplay {
    pub fn toggle(&mut self, col: Column)
        ensures
            *final(self) == column_toggled(*old(self), col),
    {
        match col {
            Column::Pid => self.pid = !self.pid,
            Column::ProcessName => self.process = !self.process,
            Column::Cpu => self.cpu = !self.cpu,
        }
    }
}

impl Default for ColumnDisplay {
    fn default() -> (r: ColumnDisplay)
        ensures
            r == (ColumnDisplay { pid: true, process: true, cpu: true }),
    {
        ColumnDisplay { pid: true, process: true, cpu: true }
    }
}

/// `after` is `before` with character `c` typed in its current activity.
pub open spec fn char_applied(before: DrawState, after: DrawState, c: char) -> bool {
    &&& after.title == before.title
    &&& after.debug == before.debug
    &&& match before.activity {
        ActivityMode::Top => {
            let known = c == 'q' || c == 's' || c == 'c';
            &&& after.should_quit == (before.should_quit || c == 'q')
            &&& after.activity == (if c == 's' {
                ActivityMode::SortSelect
            } else if c == 'c' {
                ActivityMode::ColumnSelect
            } else {
                ActivityMode::Top
            })
            &&& after.column_sort == before.column_sort
            &&& after.displayed_columns == before.displayed_columns
            &&& after.error.is_some() == !known
            &&& !known ==> after.error.unwrap()@ == "invalid command: "@.push(c)
        },
        ActivityMode::SortSelect => {
            &&& after.should_quit == before.should_quit
            &&& after.displayed_columns == before.displayed_columns
            &&& match column_for_char(c) {
                Some(col) => after.column_sort == col && after.activity == ActivityMode::Top
                    && after.error.is_none(),
                None => after.column_sort == before.column_sort && after.activity == before.activity
                    && after.error.is_some() && after.error.unwrap()@ == "invalid column char: "@.push(c),
            }
        },
        ActivityMode::ColumnSelect => {
            &&& after.should_quit == before.should_quit
            &&& after.column_sort == before.column_sort
            &&& match column_for_char(c) {
                Some(col) => after.displayed_columns == column_toggled(before.displayed_columns, col)
                    && after.activity == ActivityMode::Top && after.error.is_none(),
                None => after.displayed_columns == before.displayed_columns && after.activity
                    == before.activity && after.error.is_some() && after.error.unwrap()@
                    == "invalid column char: "@.push(c),
            }
        },
    }
}

impl DrawState {
    /// Applies one terminal input; the description is kept for display.
    pub fn transition(&mut self, event: &RawInput)
        ensures
            final(self).debug.is_some(),
            final(self).debug.unwrap()@ == "event: "@ + event.description@,
            match event.key {
                Some(KeyCode::Char(c)) => if c == 'c' && event.control_only {
                    &&& final(self).should_quit
                    &&& final(self).activity == old(self).activity
                    &&& final(self).error == old(self).error
                } else {
                    char_applied(
                        DrawState { debug: final(self).debug, ..*old(self) },
                        *final(self),
                        c,
                    )
                },
                Some(KeyCode::Esc) => {
                    &&& final(self).activity == ActivityMode::Top
                    &&& final(self).error.is_none()
                    &&& final(self).should_quit == old(self).should_quit
                },
                _ => {
                    &&& final(self).error.is_some()
                    &&& final(self).error.unwrap()@ == "unhandled event: "@ + event.description@
                    &&& final(self).activity == old(self).activity
                    &&& final(self).should_quit == old(self).should_quit
                },
            },
    {
        let debug = String::from_str("event: ");
        self.debug = Some(debug.concat(event.description.as_str()));
        match event.key {
            Some(KeyCode::Char(c)) => {
                if c == 'c' && event.control_only {
                    self.should_quit = true;
                } else {
                    self.transition_char(c);
                }
            },
            Some(KeyCode::Esc) => {
                self.activity = ActivityMode::Top;
                self.error = None;
            },
            _ => {
                let msg = String::from_str("unhandled event: ");
                self.error = Some(msg.concat(event.description.as_str()));
            },
        }
    }

    /// Applies a typed character in the current activity.
    pub fn transition_char(&mut self, c: char)
        ensures
            char_applied(*old(self), *final(self), c),
    {
        let mut err: Option<String> = None;
        match self.activity {
            ActivityMode::Top => match c {
                'q' => self.should_quit = true,
                's' => self.activity = ActivityMode::SortSelect,
                'c' => self.activity = ActivityMode::ColumnSelect,
                _ => {
                    let mut msg = String::from_str("invalid command: ");
                    push_char(&mut msg, c);
                    err = Some(msg);
                },
            },
            ActivityMode::SortSelect => match Column::from_char(c) {
                Err(s) => err = Some(s),
                Ok(col) => {
                    self.column_sort = col;
                    self.activity = ActivityMode::Top;
                },
            },
            ActivityMode::ColumnSelect => match Column::from_char(c) {
                Err(s) => err = Some(s),
                Ok(col) => {
                    self.displayed_columns.toggle(col);
                    self.activity = ActivityMode::Top;
                },
            },
        }
        self.error = err;
    }
}

} // verus!
