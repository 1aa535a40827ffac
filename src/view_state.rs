//! View model: sorting, visible columns, modal key handling and help text.
use vstd::prelude::*;
use vstd::string::StringExecFns;

use crate::sproc::SProc;
use crate::text::push_char;

verus! {

/// Parts joined with `sep` between consecutive ones.
pub open spec fn joined(parts: Seq<Seq<char>>, sep: Seq<char>) -> Seq<char>
    decreases parts.len(),
{
    if parts.len() == 0 {
        Seq::empty()
    } else if parts.len() == 1 {
        parts[0]
    } else {
        joined(parts.drop_last(), sep) + sep + parts.last()
    }
}

pub open spec fn str_views(parts: Seq<&str>) -> Seq<Seq<char>> {
    parts.map_values(|p: &str| p@)
}

fn join(parts: &Vec<&str>, sep: &str) -> (r: String)
    ensures
        r@ == joined(str_views(parts@), sep@),
{
    if parts.len() == 0 {
        let r = String::new();
        assert(r@ =~= joined(str_views(parts@), sep@));
        return r;
    }
    let mut r = String::from_str(parts[0]);
    let mut i: usize = 1;
    assert(str_views(parts@).take(1) =~= seq![parts@[0]@]);
    while i < parts.len()
        invariant
            1 <= i <= parts@.len(),
            r@ == joined(str_views(parts@).take(i as int), sep@),
        decreases parts@.len() - i,
    {
        r.append(sep);
        r.append(parts[i]);
        assert(str_views(parts@).take(i + 1).drop_last() =~= str_views(parts@).take(i as int));
        i = i + 1;
    }
    assert(str_views(parts@).take(i as int) =~= str_views(parts@));
    r
}

/// Key codes the view reacts to.
#[derive(Debug, Clone, Copy, PartialEq, Eq, Structural)]
pub enum KeyCode {
    Esc,
    Char(char),
    Other,
}

/// A key press: its code, and a description for messages.
pub struct KeyEvent {
    pub code: KeyCode,
    pub description: String,
}

/// Column a table can be sorted by.
#[derive(Debug, Clone, Copy, PartialEq, Eq, Structural)]
pub enum SortColumn {
    Pid,
    Cpu,
    Mem,
    DiskRead,
    DiskWrite,
    DiskTotal,
}

/// Column a table can show.
#[derive(Debug, Clone, Copy, PartialEq, Eq, Structural)]
pub enum DisplayColumn {
    Pid,
    ProcessName,
    DiskRead,
    DiskWrite,
    Mem,
    Cpu,
    CpuHistory,
}

/// Sort direction.
#[derive(Debug, Clone, Copy, PartialEq, Eq, Structural)]
pub enum Dir {
    Asc,
    Desc,
}

/// What the next key press is interpreted as.
#[derive(Debug, Clone, Copy, PartialEq, Eq, Structural)]
pub enum Action {
    Top,
    SelectSort,
    ToggleColumn,
}

/// Width of a table column: a fixed number of cells or a share of the rest.
#[derive(Debug, Clone, Copy, PartialEq, Eq, Structural)]
pub enum ColumnWidth {
    Length(u16),
    Percentage(u16),
}

/// A column with its key, help text, header and width.
#[derive(Debug, Clone, Copy)]
pub struct ViewDisplayColumn(
    pub DisplayColumn,
    pub char,
    pub &'static str,
    pub &'static str,
    pub ColumnWidth,
);

/// Which columns are shown.
#[derive(Debug, Clone, Copy, PartialEq, Eq, Structural)]
pub struct DisplayedColumns {
    pub pid: bool,
    pub process_name: bool,
    pub disk_read: bool,
    pub disk_write: bool,
    pub mem: bool,
    pub cpu: bool,
    pub cpu_history: bool,
}

/// The view's state between key presses.
pub struct ViewState {
    pub sort_by: SortColumn,
    pub sort_dir: Dir,
    pub displayed_columns: DisplayedColumns,
    pub selected: Option<i32>,
    pub zoom_selected: bool,
    pub alert: Option<String>,
    pub should_quit: bool,
    pub action: Action,
}

impl Default for ViewState {
    fn default() -> (r: ViewState)
        ensures
            r.sort_by == SortColumn::Cpu,
            r.sort_dir == Dir::Desc,
            r.displayed_columns == all_columns_shown(),
            r.selected == None::<i32>,
            !r.zoom_selected,
            r.alert.is_none(),
            !r.should_quit,
            r.action == Action::Top,
    {
        ViewState {
            sort_by: SortColumn::default(),
            sort_dir: Dir::default(),
            displayed_columns: DisplayedColumns::default(),
            selected: None,
            zoom_selected: false,
            alert: None,
            should_quit: false,
            action: Action::default(),
        }
    }
}

impl Default for Action {
    fn default() -> (r: Action)
        ensures
            r == Action::Top,
    {
        Action::Top
    }
}

impl Default for SortColumn {
    fn default() -> (r: SortColumn)
        ensures
            r == SortColumn::Cpu,
    {
        SortColumn::Cpu
    }
}

impl Default for Dir {
    fn default() -> (r: Dir)
        ensures
            r == Dir::Desc,
    {
        Dir::Desc
    }
}

pub open spec fn all_columns_shown() -> DisplayedColumns {
    DisplayedColumns {
        pid: true,
        process_name: true,
        disk_read: true,
        disk_write: true,
        mem: true,
        cpu: true,
        cpu_history: true,
    }
}

impl Default for DisplayedColumns {
    fn default() -> (r: DisplayedColumns)
        ensures
            r == all_columns_shown(),
    {
        DisplayedColumns {
            pid: true,
            process_name: true,
            disk_read: true,
            disk_write: true,
            mem: true,
            cpu: true,
            cpu_history: true,
        }
    }
}

pub open spec fn action_for_char(c: char) -> Option<Action> {
    if c == 's' {
        Some(Action::SelectSort)
    } else if c == 'c' {
        Some(Action::ToggleColumn)
    } else {
        None
    }
}

pub open spec fn sort_column_for_char(c: char) -> Option<SortColumn> {
    if c == 'p' {
        Some(SortColumn::Pid)
    } else if c == 'r' {
        Some(SortColumn::DiskRead)
    } else if c == 'w' {
        Some(SortColumn::DiskWrite)
    } else if c == 'd' {
        Some(SortColumn::DiskTotal)
    } else if c == 'm' {
        Some(SortColumn::Mem)
    } else if c == 'c' {
        Some(SortColumn::Cpu)
    } else {
        None
    }
}

pub open spec fn display_column_for_char(c: char) -> Option<DisplayColumn> {
    if c == 'p' {
        Some(DisplayColumn::Pid)
    } else if c == 'n' {
        Some(DisplayColumn::ProcessName)
    } else if c == 'r' {
        Some(DisplayColumn::DiskRead)
    } else if c == 'w' {
        Some(DisplayColumn::DiskWrite)
    } else if c == 'm' {
        Some(DisplayColumn::Mem)
    } else if c == 'c' {
        Some(DisplayColumn::Cpu)
    } else if c == 'h' {
        Some(DisplayColumn::CpuHistory)
    } else {
        None
    }
}

impl Action {
    pub fn action_from_char(input_c: char) -> (r: Option<Action>)
        ensures
            r == action_for_char(input_c),
    {
        match input_c {
            's' => Some(Action::SelectSort),
            'c' => Some(Action::ToggleColumn),
            _ => None,
        }
    }

    pub fn action_help() -> (r: String)
        ensures
            r@ == joined(seq!["(s)ort"@, "(c)olumns"@], "  "@),
    {
        let parts: Vec<&str> = vec!["(s)ort", "(c)olumns"];
        let r = join(&parts, "  ");
        assert(str_views(parts@) =~= seq!["(s)ort"@, "(c)olumns"@]);
        r
    }

    pub fn sort_col_from_char(input_c: char) -> (r: Option<SortColumn>)
        ensures
            r == sort_column_for_char(input_c),
    {
        match input_c {
            'p' => Some(SortColumn::Pid),
            'r' => Some(SortColumn::DiskRead),
            'w' => Some(SortColumn::DiskWrite),
            'd' => Some(SortColumn::DiskTotal),
            'm' => Some(SortColumn::Mem),
            'c' => Some(SortColumn::Cpu),
            _ => None,
        }
    }

    pub fn sort_col_help() -> (r: String)
        ensures
            r@ == joined(
                seq![
                    "(p)id"@,
                    "disk-(r)ead"@,
                    "disk-(w)rite"@,
                    "(d)isk-total"@,
                    "(m)em"@,
                    "(c)pu"@,
                ],
                "  "@,
            ),
    {
        let parts: Vec<&str> = vec![
            "(p)id",
            "disk-(r)ead",
            "disk-(w)rite",
            "(d)isk-total",
            "(m)em",
            "(c)pu",
        ];
        let r = join(&parts, "  ");
        assert(str_views(parts@) =~= seq![
            "(p)id"@,
            "disk-(r)ead"@,
            "disk-(w)rite"@,
            "(d)isk-total"@,
            "(m)em"@,
            "(c)pu"@,
        ]);
        r
    }

    pub fn display_col_from_char(input_c: char) -> (r: Option<DisplayColumn>)
        ensures
            r == display_column_for_char(input_c),
    {
        match input_c {
            'p' => Some(DisplayColumn::Pid),
            'n' => Some(DisplayColumn::ProcessName),
            'r' => Some(DisplayColumn::DiskRead),
            'w' => Some(DisplayColumn::DiskWrite),
            'm' => Some(DisplayColumn::Mem),
            'c' => Some(DisplayColumn::Cpu),
            'h' => Some(DisplayColumn::CpuHistory),
            _ => None,
        }
    }

    pub fn display_col_help() -> (r: String)
        ensures
            r@ == joined(
                seq![
                    "(p)id"@,
                    "process-(n)ame"@,
                    "disk-(r)ead"@,
                    "diks-(w)rite"@,
                    "(m)em"@,
                    "(c)pu"@,
                    "cpu-(h)istory"@,
                ],
                "  "@,
            ),
    {
        let parts: Vec<&str> = vec![
            "(p)id",
            "process-(n)ame",
            "disk-(r)ead",
            "diks-(w)rite",
            "(m)em",
            "(c)pu",
            "cpu-(h)istory",
        ];
        let r = join(&parts, "  ");
        assert(str_views(parts@) =~= seq![
            "(p)id"@,
            "process-(n)ame"@,
            "disk-(r)ead"@,
            "diks-(w)rite"@,
            "(m)em"@,
            "(c)pu"@,
            "cpu-(h)istory"@,
        ]);
        r
    }
}

/// Every column in display order, with its key, help text, header and width.
pub open spec fn column_table() -> Seq<ViewDisplayColumn> {
    seq![
        ViewDisplayColumn(DisplayColumn::Pid, 'p', "(p)id", "pid", ColumnWidth::Length(6)),
        ViewDisplayColumn(
            DisplayColumn::ProcessName,
            'n',
            "process-(n)ame",
            "process",
            ColumnWidth::Length(24),
        ),
        ViewDisplayColumn(DisplayColumn::DiskRead, 'r', "disk-(r)ead", "dr", ColumnWidth::Length(5)),
        ViewDisplayColumn(DisplayColumn::DiskWrite, 'w', "diks-(w)rite", "dw", ColumnWidth::Length(5)),
        ViewDisplayColumn(DisplayColumn::Mem, 'm', "(m)em", "mem", ColumnWidth::Length(5)),
        ViewDisplayColumn(DisplayColumn::Cpu, 'c', "(c)pu", "cpu", ColumnWidth::Length(4)),
        ViewDisplayColumn(
            DisplayColumn::CpuHistory,
            'h',
            "cpu-(h)istory",
            "cpu history",
            ColumnWidth::Percentage(100),
        ),
    ]
}

fn view_display_columns() -> (r: Vec<ViewDisplayColumn>)
    ensures
        r@ == column_table(),
{
    let r = vec![
        ViewDisplayColumn(DisplayColumn::Pid, 'p', "(p)id", "pid", ColumnWidth::Length(6)),
        ViewDisplayColumn(
            DisplayColumn::ProcessName,
            'n',
            "process-(n)ame",
            "process",
            ColumnWidth::Length(24),
        ),
        ViewDisplayColumn(DisplayColumn::DiskRead, 'r', "disk-(r)ead", "dr", ColumnWidth::Length(5)),
        ViewDisplayColumn(DisplayColumn::DiskWrite, 'w', "diks-(w)rite", "dw", ColumnWidth::Length(5)),
        ViewDisplayColumn(DisplayColumn::Mem, 'm', "(m)em", "mem", ColumnWidth::Length(5)),
        ViewDisplayColumn(DisplayColumn::Cpu, 'c', "(c)pu", "cpu", ColumnWidth::Length(4)),
        ViewDisplayColumn(
            DisplayColumn::CpuHistory,
            'h',
            "cpu-(h)istory",
            "cpu history",
            ColumnWidth::Percentage(100),
        ),
    ];
    assert(r@ =~= column_table());
    r
}

/// Whether `d` shows column `col`.
pub open spec fn shows(d: DisplayedColumns, col: DisplayColumn) -> bool {
    match col {
        DisplayColumn::Pid => d.pid,
        DisplayColumn::ProcessName => d.process_name,
        DisplayColumn::DiskRead => d.disk_read,
        DisplayColumn::DiskWrite => d.disk_write,
        DisplayColumn::Mem => d.mem,
        DisplayColumn::Cpu => d.cpu,
        DisplayColumn::CpuHistory => d.cpu_history,
    }
}

/// `d` with column `col` switched on or off.
pub open spec fn toggled(d: DisplayedColumns, col: DisplayColumn) -> DisplayedColumns {
    match col {
        DisplayColumn::Pid => DisplayedColumns { pid: !d.pid, ..d },
        DisplayColumn::ProcessName => DisplayedColumns { process_name: !d.process_name, ..d },
        DisplayColumn::DiskRead => DisplayedColumns { disk_read: !d.disk_read, ..d },
        DisplayColumn::DiskWrite => DisplayedColumns { disk_write: !d.disk_write, ..d },
        DisplayColumn::Mem => DisplayedColumns { mem: !d.mem, ..d },
        DisplayColumn::Cpu => DisplayedColumns { cpu: !d.cpu, ..d },
        DisplayColumn::CpuHistory => DisplayedColumns { cpu_history: !d.cpu_history, ..d },
    }
}

/// The entries of `t` whose column `d` shows, in order.
pub open spec fn shown_in(d: DisplayedColumns, t: Seq<ViewDisplayColumn>) -> Seq<ViewDisplayColumn>
    decreases t.len(),
{
    if t.len() == 0 {
        Seq::empty()
    } else if shows(d, t.last().0) {
        shown_in(d, t.drop_last()).push(t.last())
    } else {
        shown_in(d, t.drop_last())
    }
}

/// Whether sorting by `s` is sorting by column `d` (disk total by either disk column).
pub open spec fn sorts_by_column(s: SortColumn, d: DisplayColumn) -> bool {
    match (s, d) {
        (SortColumn::Pid, DisplayColumn::Pid) => true,
        (SortColumn::Cpu, DisplayColumn::Cpu) => true,
        (SortColumn::Mem, DisplayColumn::Mem) => true,
        (SortColumn::DiskRead, DisplayColumn::DiskRead) => true,
        (SortColumn::DiskWrite, DisplayColumn::DiskWrite) => true,
        (SortColumn::DiskTotal, DisplayColumn::DiskWrite) => true,
        (SortColumn::DiskTotal, DisplayColumn::DiskRead) => true,
        _ => false,
    }
}

/// Header text of a column: its name, starred when the table is sorted by it.
pub open spec fn header_text(e: ViewDisplayColumn, sort_by: SortColumn) -> Seq<char> {
    if sorts_by_column(sort_by, e.0) {
        "*"@ + e.3@ + "*"@
    } else {
        e.3@
    }
}

impl DisplayedColumns {
    pub fn toggle(&mut self, col: &DisplayColumn)
        ensures
            *final(self) == toggled(*old(self), *col),
    {
        match col {
            DisplayColumn::Pid => self.pid = !self.pid,
            DisplayColumn::ProcessName => self.process_name = !self.process_name,
            DisplayColumn::DiskRead => self.disk_read = !self.disk_read,
            DisplayColumn::DiskWrite => self.disk_write = !self.disk_write,
            DisplayColumn::Mem => self.mem = !self.mem,
            DisplayColumn::Cpu => self.cpu = !self.cpu,
            DisplayColumn::CpuHistory => self.cpu_history = !self.cpu_history,
        }
    }

    pub fn should_show(&self, col: &DisplayColumn) -> (r: bool)
        ensures
            r == shows(*self, *col),
    {
        match col {
            DisplayColumn::Pid => self.pid,
            DisplayColumn::ProcessName => self.process_name,
            DisplayColumn::DiskRead => self.disk_read,
            DisplayColumn::DiskWrite => self.disk_write,
            DisplayColumn::Mem => self.mem,
            DisplayColumn::Cpu => self.cpu,
            DisplayColumn::CpuHistory => self.cpu_history,
        }
    }

    /// The shown columns, in display order.
    pub fn shown(&self) -> (r: Vec<ViewDisplayColumn>)
        ensures
            r@ == shown_in(*self, column_table()),
    {
        let table = view_display_columns();
        let mut r: Vec<ViewDisplayColumn> = Vec::new();
        let mut i: usize = 0;
        while i < table.len()
            invariant
                i <= table@.len(),
                table@ == column_table(),
                r@ == shown_in(*self, table@.take(i as int)),
            decreases table@.len() - i,
        {
            assert(table@.take(i + 1).drop_last() =~= table@.take(i as int));
            if self.should_show(&table[i].0) {
                r.push(table[i]);
            }
            i = i + 1;
        }
        assert(table@.take(i as int) =~= table@);
        r
    }

    /// Header texts of the shown columns, the sorted-by one starred.
    pub fn header(&self, sort_by: &SortColumn) -> (r: Vec<String>)
        ensures
            r@.len() == shown_in(*self, column_table()).len(),
            forall|i: int|
                0 <= i < r@.len() ==> (#[trigger] r@[i])@ == header_text(
                    shown_in(*self, column_table())[i],
                    *sort_by,
                ),
    {
        let shown = self.shown();
        let mut r: Vec<String> = Vec::new();
        let mut i: usize = 0;
        while i < shown.len()
            invariant
                i <= shown@.len(),
                shown@ == shown_in(*self, column_table()),
                r@.len() == i,
                forall|k: int|
                    0 <= k < i ==> (#[trigger] r@[k])@ == header_text(shown@[k], *sort_by),
            decreases shown@.len() - i,
        {
            let e = shown[i];
            let text = if sort_by.matches_column(&e.0) {
                let t = String::from_str("*");
                let t = t.concat(e.3);
                t.concat("*")
            } else {
                String::from_str(e.3)
            };
            r.push(text);
            i = i + 1;
        }
        r
    }
}

impl SortColumn {
    /// Whether sorting by `self` is sorting by column `other`.
    pub fn matches_column(&self, other: &DisplayColumn) -> (r: bool)
        ensures
            r == sorts_by_column(*self, *other),
    {
        match (self, other) {
            (SortColumn::Pid, DisplayColumn::Pid) => true,
            (SortColumn::Cpu, DisplayColumn::Cpu) => true,
            (SortColumn::Mem, DisplayColumn::Mem) => true,
            (SortColumn::DiskRead, DisplayColumn::DiskRead) => true,
            (SortColumn::DiskWrite, DisplayColumn::DiskWrite) => true,
            (SortColumn::DiskTotal, DisplayColumn::DiskWrite) => true,
            (SortColumn::DiskTotal, DisplayColumn::DiskRead) => true,
            _ => false,
        }
    }

    /// The value `sp` is sorted by under this column.
    pub fn from_sproc(self, sp: &SProc) -> (r: u128)
        ensures
            r == match self {
                SortColumn::Pid => sp.pid as int,
                SortColumn::Cpu => sp.cpu_ewma as int,
                SortColumn::Mem => sp.mem_kb as int,
                SortColumn::DiskRead => sp.disk_read_ewma as int,
                SortColumn::DiskWrite => sp.disk_write_ewma as int,
                SortColumn::DiskTotal => sp.disk_read_ewma + sp.disk_write_ewma,
            },
    {
        match self {
            SortColumn::Pid => sp.pid as u128,
            SortColumn::Cpu => sp.cpu_ewma as u128,
            SortColumn::Mem => sp.mem_kb as u128,
            SortColumn::DiskRead => sp.disk_read_ewma as u128,
            SortColumn::DiskWrite => sp.disk_write_ewma as u128,
            SortColumn::DiskTotal => sp.disk_read_ewma as u128 + sp.disk_write_ewma as u128,
        }
    }
}

impl Dir {
    pub fn flip(&mut self)
        ensures
            *final(self) == (match *old(self) {
                Dir::Asc => Dir::Desc,
                Dir::Desc => Dir::Asc,
            }),
    {
        match self {
            Dir::Asc => *self = Dir::Desc,
            Dir::Desc => *self = Dir::Asc,
        }
    }
}

/// The effect of one key press, decided by the current action.
pub struct KeyOutcome {
    pub action: Action,
    pub sort_by: Option<SortColumn>,
    pub toggle: Option<DisplayColumn>,
    pub quit: bool,
    pub unhandled: bool,
}

pub open spec fn unhandled_key(action: Action) -> KeyOutcome {
    KeyOutcome { action, sort_by: None, toggle: None, quit: false, unhandled: true }
}

pub open spec fn key_outcome(action: Action, code: KeyCode) -> KeyOutcome {
    let done = KeyOutcome {
        action: Action::Top,
        sort_by: None,
        toggle: None,
        quit: false,
        unhandled: false,
    };
    match code {
        KeyCode::Esc => done,
        KeyCode::Char(c) => match action {
            Action::Top => if c == 'q' {
                KeyOutcome { quit: true, ..done }
            } else {
                match action_for_char(c) {
                    Some(a) => KeyOutcome { action: a, ..done },
                    None => unhandled_key(action),
                }
            },
            Action::SelectSort => match sort_column_for_char(c) {
                Some(col) => KeyOutcome { sort_by: Some(col), ..done },
                None => unhandled_key(action),
            },
            Action::ToggleColumn => match display_column_for_char(c) {
                Some(col) => KeyOutcome { toggle: Some(col), ..done },
                None => unhandled_key(action),
            },
        },
        KeyCode::Other => unhandled_key(action),
    }
}

pub open spec fn action_help_text() -> Seq<char> {
    joined(seq!["(s)ort"@, "(c)olumns"@], "  "@)
}

pub open spec fn sort_col_help_text() -> Seq<char> {
    joined(
        seq!["(p)id"@, "disk-(r)ead"@, "disk-(w)rite"@, "(d)isk-total"@, "(m)em"@, "(c)pu"@],
        "  "@,
    )
}

pub open spec fn display_col_help_text() -> Seq<char> {
    joined(
        seq![
            "(p)id"@,
            "process-(n)ame"@,
            "disk-(r)ead"@,
            "diks-(w)rite"@,
            "(m)em"@,
            "(c)pu"@,
            "cpu-(h)istory"@,
        ],
        "  "@,
    )
}

/// `after` is `before` with the key press `key` applied.
pub open spec fn key_applied(before: ViewState, after: ViewState, key: KeyEvent) -> bool {
    let o = key_outcome(before.action, key.code);
    &&& after.action == o.action
    &&& after.sort_by == (match o.sort_by {
        Some(col) => col,
        None => before.sort_by,
    })
    &&& after.displayed_columns == (match o.toggle {
        Some(col) => toggled(before.displayed_columns, col),
        None => before.displayed_columns,
    })
    &&& after.should_quit == (before.should_quit || o.quit)
    &&& after.alert.is_some() == o.unhandled
    &&& o.unhandled ==> after.alert.unwrap()@ == "unhandled key: "@ + key.description@
    &&& after.sort_dir == before.sort_dir
    &&& after.selected == before.selected
    &&& after.zoom_selected == before.zoom_selected
}

impl ViewState {
    /// Applies one key press to the view state; an unhandled key raises an alert.
    pub fn handle_key(&mut self, key_event: &KeyEvent)
        ensures
            key_applied(*old(self), *final(self), *key_event),
    {
        let mut unhandled = false;
        match key_event.code {
            KeyCode::Esc => self.action = Action::Top,
            KeyCode::Char(c) => match self.action {
                Action::Top => {
                    if c == 'q' {
                        self.should_quit = true;
                        self.action = Action::Top;
                    } else {
                        match Action::action_from_char(c) {
                            Some(a) => self.action = a,
                            None => unhandled = true,
                        }
                    }
                },
                Action::SelectSort => match Action::sort_col_from_char(c) {
                    Some(col) => {
                        self.sort_by = col;
                        self.action = Action::Top;
                    },
                    None => unhandled = true,
                },
                Action::ToggleColumn => match Action::display_col_from_char(c) {
                    Some(col) => {
                        self.displayed_columns.toggle(&col);
                        self.action = Action::Top;
                    },
                    None => unhandled = true,
                },
            },
            KeyCode::Other => unhandled = true,
        }
        self.alert = if unhandled {
            let msg = String::from_str("unhandled key: ");
            Some(msg.concat(key_event.description.as_str()))
        } else {
            None
        };
    }

    /// Help text for the current action.
    pub fn footer(&self) -> (r: String)
        ensures
            r@ == (match self.action {
                Action::Top => action_help_text(),
                Action::SelectSort => sort_col_help_text(),
                Action::ToggleColumn => display_col_help_text(),
            }),
    {
        match self.action {
            Action::Top => Action::action_help(),
            Action::SelectSort => Action::sort_col_help(),
            Action::ToggleColumn => Action::display_col_help(),
        }
    }
}

pub open spec fn digit_char(d: int) -> char {
    if d <= 0 {
        '0'
    } else if d == 1 {
        '1'
    } else if d == 2 {
        '2'
    } else if d == 3 {
        '3'
    } else if d == 4 {
        '4'
    } else if d == 5 {
        '5'
    } else if d == 6 {
        '6'
    } else if d == 7 {
        '7'
    } else if d == 8 {
        '8'
    } else {
        '9'
    }
}

/// Decimal digits of `n`, without leading zeros.
pub open spec fn decimal(n: nat) -> Seq<char>
    decreases n,
{
    if n < 10 {
        seq![digit_char(n as int)]
    } else {
        decimal(n / 10).push(digit_char((n % 10) as int))
    }
}

/// A metric given in hundredths, shown with one decimal (rounded half up), or
/// `_` when below 0.05.
pub open spec fn metric_text(hundredths: nat) -> Seq<char> {
    if hundredths < 5 {
        "_"@
    } else {
        let tenths = hundredths / 10 + if hundredths % 10 >= 5 { 1nat } else { 0 };
        decimal(tenths / 10) + "."@ + seq![digit_char((tenths % 10) as int)]
    }
}

fn digit(d: u128) -> (c: char)
    ensures
        c == digit_char(d as int),
{
    if d == 0 {
        '0'
    } else if d == 1 {
        '1'
    } else if d == 2 {
        '2'
    } else if d == 3 {
        '3'
    } else if d == 4 {
        '4'
    } else if d == 5 {
        '5'
    } else if d == 6 {
        '6'
    } else if d == 7 {
        '7'
    } else if d == 8 {
        '8'
    } else {
        '9'
    }
}

fn push_decimal(s: &mut String, n: u128)
    ensures
        final(s)@ == old(s)@ + decimal(n as nat),
    decreases n,
{
    if n >= 10 {
        push_decimal(s, n / 10);
    }
    push_char(s, digit(n % 10));
    assert(final(s)@ =~= old(s)@ + decimal(n as nat)) by {
        if n >= 10 {
            assert(decimal(n as nat) == decimal((n / 10) as nat).push(digit_char((n % 10) as int)));
        }
    }
}

/// Formats a metric given in hundredths: one decimal, or `_` when near zero.
pub fn render_metric(hundredths: u128) -> (r: String)
    ensures
        r@ == metric_text(hundredths as nat),
{
    if hundredths < 5 {
        return String::from_str("_");
    }
    let tenths = hundredths / 10 + if hundredths % 10 >= 5 { 1 } else { 0 };
    let mut r = String::new();
    push_decimal(&mut r, tenths / 10);
    r.append(".");
    push_char(&mut r, digit(tenths % 10));
    assert(r@ =~= metric_text(hundredths as nat));
    r
}

/// The value a record is sorted by under column `by`.
pub open spec fn sort_key(sp: SProc, by: SortColumn) -> int {
    match by {
        SortColumn::Pid => sp.pid as int,
        SortColumn::Cpu => sp.cpu_ewma as int,
        SortColumn::Mem => sp.mem_kb as int,
        SortColumn::DiskRead => sp.disk_read_ewma as int,
        SortColumn::DiskWrite => sp.disk_write_ewma as int,
        SortColumn::DiskTotal => sp.disk_read_ewma + sp.disk_write_ewma,
    }
}

/// Key `a` comes strictly before key `b` in direction `dir`.
pub open spec fn comes_before(a: int, b: int, dir: Dir) -> bool {
    match dir {
        Dir::Asc => a < b,
        Dir::Desc => a > b,
    }
}

fn key_before(a: u128, b: u128, dir: Dir) -> (r: bool)
    ensures
        r == comes_before(a as int, b as int, dir),
{
    match dir {
        Dir::Asc => a < b,
        Dir::Desc => a > b,
    }
}

/// `order` lists indices whose keys never go backwards in direction `dir`.
pub open spec fn ordered_by(keys: Seq<u128>, order: Seq<usize>, dir: Dir) -> bool {
    forall|a: int, b: int|
        0 <= a < b < order.len() ==> !comes_before(
            keys[#[trigger] order[b] as int] as int,
            keys[#[trigger] order[a] as int] as int,
            dir,
        )
}

/// Indices with equal keys appear in increasing order.
pub open spec fn stable_by(keys: Seq<u128>, order: Seq<usize>) -> bool {
    forall|a: int, b: int|
        0 <= a < b < order.len() && keys[#[trigger] order[a] as int] == keys[#[trigger] order[b] as int]
            ==> order[a] < order[b]
}

/// `order` lists each index below `n` exactly once.
pub open spec fn is_permutation(order: Seq<usize>, n: int) -> bool {
    &&& order.len() == n
    &&& forall|a: int| 0 <= a < order.len() ==> #[trigger] order[a] < n
    &&& forall|a: int, b: int|
        0 <= a < b < order.len() ==> #[trigger] order[a] != #[trigger] order[b]
}

/// The order in which to list `procs`: by column `by`, in direction `dir`;
/// records with equal keys keep their relative order.
pub fn sorted_order(procs: &Vec<SProc>, by: SortColumn, dir: Dir) -> (r: Vec<usize>)
    ensures
        is_permutation(r@, procs@.len() as int),
        forall|a: int, b: int|
            0 <= a < b < r@.len() ==> !comes_before(
                sort_key(procs@[#[trigger] r@[b] as int], by),
                sort_key(procs@[#[trigger] r@[a] as int], by),
                dir,
            ),
        forall|a: int, b: int|
            0 <= a < b < r@.len() && sort_key(procs@[#[trigger] r@[a] as int], by) == sort_key(
                procs@[#[trigger] r@[b] as int],
                by,
            ) ==> r@[a] < r@[b],
{
    let mut keys: Vec<u128> = Vec::new();
    let mut i: usize = 0;
    while i < procs.len()
        invariant
            i <= procs@.len(),
            keys@.len() == i,
            forall|k: int| 0 <= k < i ==> #[trigger] keys@[k] == sort_key(procs@[k], by),
        decreases procs@.len() - i,
    {
        keys.push(by.from_sproc(&procs[i]));
        i = i + 1;
    }
    let mut order: Vec<usize> = Vec::new();
    let mut i: usize = 0;
    while i < keys.len()
        invariant
            i <= keys@.len() == procs@.len(),
            forall|k: int| 0 <= k < keys@.len() ==> #[trigger] keys@[k] == sort_key(procs@[k], by),
            is_permutation(order@, i as int),
            ordered_by(keys@, order@, dir),
            stable_by(keys@, order@),
        decreases keys@.len() - i,
    {
        let ki = keys[i];
        // first position whose key comes strictly after the new one
        let mut p: usize = 0;
        while p < order.len() && !key_before(ki, keys[order[p]], dir)
            invariant
                p <= order@.len(),
                i < keys@.len(),
                ki == keys@[i as int],
                is_permutation(order@, i as int),
                forall|q: int|
                    0 <= q < p ==> !comes_before(ki as int, keys@[#[trigger] order@[q] as int] as int, dir),
            decreases order@.len() - p,
        {
            p = p + 1;
        }
        let ghost before = order@;
        proof {
            assert forall|q: int| p <= q < before.len() implies comes_before(
                ki as int,
                keys@[#[trigger] before[q] as int] as int,
                dir,
            ) by {
                if q > p {
                    assert(!comes_before(
                        keys@[before[q] as int] as int,
                        keys@[before[p as int] as int] as int,
                        dir,
                    ));
                }
            }
        }
        order.insert(p, i);
        proof {
            assert forall|a: int| 0 <= a < order@.len() implies #[trigger] order@[a] < i + 1 by {
                if a > p {
                    assert(order@[a] == before[a - 1]);
                }
            }
            assert forall|a: int, b: int|
                0 <= a < b < order@.len() implies #[trigger] order@[a] != #[trigger] order@[b] by {
                if a < p && b > p {
                    assert(order@[b] == before[b - 1]);
                } else if a > p {
                    assert(order@[a] == before[a - 1]);
                    assert(order@[b] == before[b - 1]);
                } else if b == p {
                } else if a == p {
                    assert(order@[b] == before[b - 1]);
                }
            }
            assert forall|a: int, b: int|
                0 <= a < b < order@.len() implies !comes_before(
                keys@[#[trigger] order@[b] as int] as int,
                keys@[#[trigger] order@[a] as int] as int,
                dir,
            ) by {
                if a < p && b > p {
                    assert(order@[b] == before[b - 1]);
                } else if a > p {
                    assert(order@[a] == before[a - 1]);
                    assert(order@[b] == before[b - 1]);
                } else if a == p {
                    assert(order@[b] == before[b - 1]);
                }
            }
            assert forall|a: int, b: int|
                0 <= a < b < order@.len() && keys@[#[trigger] order@[a] as int]
                    == keys@[#[trigger] order@[b] as int] implies order@[a] < order@[b] by {
                if a < p && b > p {
                    assert(order@[b] == before[b - 1]);
                } else if a > p {
                    assert(order@[a] == before[a - 1]);
                    assert(order@[b] == before[b - 1]);
                } else if a == p {
                    assert(order@[b] == before[b - 1]);
                }
            }
        }
        i = i + 1;
    }
    order
}

} // verus!
