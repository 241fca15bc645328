//! The modal dashboard controller: one state at a time, either the read-only
//! main view or a text-entry popup, with every transition driven by one key
//! press. The step function also says what the caller owes the outside
//! world afterwards: whether to persist the store, which lines to append to
//! the diagnostic log, and which error to surface.

use vstd::prelude::*;
use crate::num::parse_milli;
use crate::store::{DocModel, EnvironmentDoc};
use crate::totals::{in_cap, spec_add, spec_reset_week, TotalsError};

verus! {

/// A key, as the input boundary hands it over.
#[derive(Clone, Copy, Debug)]
pub enum Key {
    Esc,
    Enter,
    Backspace,
    Char(char),
    Other,
}

/// One key press: the key and whether control was held.
#[derive(Clone, Copy, Debug)]
pub struct KeyPress {
    pub key: Key,
    pub ctrl: bool,
}

/// The modal state. Only text-entry states carry a capture buffer.
pub enum DashboardState {
    Main,
    EditRunningSchedule { buffer: String },
    EditTodoList { buffer: String },
    AddToRunningTotal { buffer: String },
}

/// Mathematical model of the modal state.
pub enum StateModel {
    Main,
    EditRunningSchedule { buffer: Seq<char> },
    EditTodoList { buffer: Seq<char> },
    AddToRunningTotal { buffer: Seq<char> },
}

impl View for DashboardState {
    type V = StateModel;

    open spec fn view(&self) -> StateModel {
        match self {
            DashboardState::Main => StateModel::Main,
            DashboardState::EditRunningSchedule { buffer } => StateModel::EditRunningSchedule {
                buffer: buffer@,
            },
            DashboardState::EditTodoList { buffer } => StateModel::EditTodoList {
                buffer: buffer@,
            },
            DashboardState::AddToRunningTotal { buffer } => StateModel::AddToRunningTotal {
                buffer: buffer@,
            },
        }
    }
}

/// The dashboard: the modal state, the owned store, and whether the event
/// loop keeps running.
pub struct Dashboard {
    pub state: DashboardState,
    pub doc: EnvironmentDoc,
    pub running: bool,
}

/// Mathematical model of the dashboard.
pub struct DashModel {
    pub state: StateModel,
    pub doc: DocModel,
    pub running: bool,
}

impl View for Dashboard {
    type V = DashModel;

    open spec fn view(&self) -> DashModel {
        DashModel { state: self.state@, doc: self.doc@, running: self.running }
    }
}

/// What one step owes the outside world.
pub struct StepOutput {
    pub persist: bool,
    pub log_lines: Vec<String>,
    pub error: Option<TotalsError>,
}

/// Mathematical model of a step's obligations.
pub struct OutModel {
    pub persist: bool,
    pub logs: Seq<Seq<char>>,
    pub error: Option<TotalsError>,
}

impl View for StepOutput {
    type V = OutModel;

    open spec fn view(&self) -> OutModel {
        OutModel { persist: self.persist, logs: self.log_lines.deep_view(), error: self.error }
    }
}

/// The step that owes nothing.
pub open spec fn quiet_out() -> OutModel {
    OutModel { persist: false, logs: Seq::empty(), error: None }
}

/// The key is this plain character.
pub open spec fn is_char(k: KeyPress, c: char) -> bool {
    match k.key {
        Key::Char(x) => x == c,
        _ => false,
    }
}

/// The two reserved combinations that end any popup.
pub open spec fn spec_cancel(k: KeyPress) -> bool {
    k.key is Esc || (k.ctrl && is_char(k, 'c'))
}

/// How one key press edits a capture buffer: characters and newlines are
/// appended, backspace removes the last character, and anything held under
/// control is ignored.
pub open spec fn spec_edit(b: Seq<char>, k: KeyPress) -> Seq<char> {
    if k.ctrl {
        b
    } else {
        match k.key {
            Key::Char(c) => b.push(c),
            Key::Enter => b.push('\n'),
            Key::Backspace => if b.len() > 0 {
                b.drop_last()
            } else {
                b
            },
            _ => b,
        }
    }
}

/// The diagnostic line written when the week counter is reset.
pub open spec fn msg_reset_week() -> Seq<char> {
    "reset weekly distance"@
}

/// What confirming the add-popup does to the totals: exactly what
/// `Totals::parse_and_add` does with the buffer.
pub open spec fn spec_confirm_add(d: DashModel, b: Seq<char>) -> (DashModel, OutModel) {
    let t = d.totals();
    match parse_milli(b) {
        Some(v) => if in_cap(t.week + v) && in_cap(t.month + v) && in_cap(t.year + v) {
            (
                d.with_state_totals(StateModel::Main, spec_add(t, v)),
                OutModel { persist: true, logs: Seq::empty(), error: None },
            )
        } else {
            (
                d.with_state_totals(StateModel::Main, t),
                OutModel { persist: false, logs: Seq::empty(), error: Some(
                    TotalsError::OutOfRange,
                ) },
            )
        },
        None => (
            d.with_state_totals(StateModel::Main, t),
            OutModel { persist: false, logs: Seq::empty(), error: Some(TotalsError::NotNumeric) },
        ),
    }
}

impl DashModel {
    pub open spec fn totals(self) -> crate::totals::Totals {
        self.doc.totals
    }

    pub open spec fn with_state(self, s: StateModel) -> DashModel {
        DashModel { state: s, doc: self.doc, running: self.running }
    }

    pub open spec fn with_state_totals(self, s: StateModel, t: crate::totals::Totals) -> DashModel {
        DashModel {
            state: s,
            doc: DocModel {
                todo_list: self.doc.todo_list,
                running_schedule: self.doc.running_schedule,
                totals: t,
                extras: self.doc.extras,
            },
            running: self.running,
        }
    }
}

/// The whole state machine, one key press at a time.
pub open spec fn spec_step(d: DashModel, k: KeyPress) -> (DashModel, OutModel) {
    match d.state {
        StateModel::Main => {
            if (!k.ctrl && (k.key is Esc || is_char(k, 'q'))) || (k.ctrl && (is_char(k, 'c')
                || is_char(k, 'C'))) {
                (DashModel { state: d.state, doc: d.doc, running: false }, quiet_out())
            } else if k.ctrl && is_char(k, 'r') {
                (d.with_state(StateModel::EditRunningSchedule { buffer: Seq::empty() }), quiet_out())
            } else if k.ctrl && is_char(k, 't') {
                (d.with_state(StateModel::EditTodoList { buffer: Seq::empty() }), quiet_out())
            } else if k.ctrl && is_char(k, 'w') {
                (d.with_state(StateModel::AddToRunningTotal { buffer: Seq::empty() }), quiet_out())
            } else if k.ctrl && is_char(k, 'o') {
                (
                    d.with_state_totals(StateModel::Main, spec_reset_week(d.totals())),
                    OutModel { persist: true, logs: seq![msg_reset_week()], error: None },
                )
            } else {
                (d, quiet_out())
            }
        },
        StateModel::EditRunningSchedule { buffer } => {
            if spec_cancel(k) {
                (
                    d.with_state(StateModel::Main),
                    OutModel { persist: false, logs: seq![buffer], error: None },
                )
            } else {
                (
                    d.with_state(
                        StateModel::EditRunningSchedule { buffer: spec_edit(buffer, k) },
                    ),
                    quiet_out(),
                )
            }
        },
        StateModel::EditTodoList { buffer } => {
            if spec_cancel(k) {
                (
                    d.with_state(StateModel::Main),
                    OutModel { persist: false, logs: seq![buffer], error: None },
                )
            } else {
                (
                    d.with_state(StateModel::EditTodoList { buffer: spec_edit(buffer, k) }),
                    quiet_out(),
                )
            }
        },
        StateModel::AddToRunningTotal { buffer } => {
            if spec_cancel(k) {
                (d.with_state(StateModel::Main), quiet_out())
            } else if !k.ctrl && k.key is Enter {
                spec_confirm_add(d, buffer)
            } else {
                (
                    d.with_state(StateModel::AddToRunningTotal { buffer: spec_edit(buffer, k) }),
                    quiet_out(),
                )
            }
        },
    }
}

fn is_cancel(k: KeyPress) -> (b: bool)
    ensures
        b == spec_cancel(k),
{
    match k.key {
        Key::Esc => true,
        Key::Char(c) => k.ctrl && c == 'c',
        _ => false,
    }
}

/// Applies one editing key to a capture buffer, as `spec_edit` reads it.
fn edit_buffer(b: &mut String, k: KeyPress)
    ensures
        final(b)@ == spec_edit(old(b)@, k),
{
    if !k.ctrl {
        match k.key {
            Key::Char(c) => {
                b.push(c);
            },
            Key::Enter => {
                b.push('\n');
            },
            Key::Backspace => {
                let _ = b.pop();
            },
            _ => {},
        }
    }
}

fn quiet_output() -> (r: StepOutput)
    ensures
        r@ == quiet_out(),
{
    let r = StepOutput { persist: false, log_lines: Vec::new(), error: None };
    proof {
        assert(r@.logs =~= quiet_out().logs);
    }
    r
}

impl Dashboard {
    /// A dashboard over a loaded store: main view, running.
    pub fn new(doc: EnvironmentDoc) -> (r: Dashboard)
        ensures
            r@.state == StateModel::Main,
            r@.doc == doc@,
            r@.running,
    {
        Dashboard { state: DashboardState::Main, doc, running: true }
    }

    /// Routes one key press: commands in the main view, capture and the two
    /// reserved combinations in a popup — exactly as `spec_step` says. The
    /// output is what the caller must do before the step is complete:
    /// persist the store, append the lines to the log, surface the error.
    pub fn handle_key(&mut self, k: KeyPress) -> (out: StepOutput)
        requires
            old(self)@.doc.wf(),
        ensures
            final(self)@ == spec_step(old(self)@, k).0,
            out@ == spec_step(old(self)@, k).1,
            final(self)@.doc.wf(),
    {
        match &self.state {
            DashboardState::Main => {
                let quit = match k.key {
                    Key::Esc => !k.ctrl,
                    Key::Char(c) => (!k.ctrl && c == 'q') || (k.ctrl && (c == 'c' || c == 'C')),
                    _ => false,
                };
                if quit {
                    self.running = false;
                    return quiet_output();
                }
                let cmd = match k.key {
                    Key::Char(c) => if k.ctrl {
                        Some(c)
                    } else {
                        None
                    },
                    _ => None,
                };
                match cmd {
                    Some(c) => {
                        if c == 'r' {
                            self.state = DashboardState::EditRunningSchedule {
                                buffer: String::new(),
                            };
                            quiet_output()
                        } else if c == 't' {
                            self.state = DashboardState::EditTodoList { buffer: String::new() };
                            quiet_output()
                        } else if c == 'w' {
                            self.state = DashboardState::AddToRunningTotal {
                                buffer: String::new(),
                            };
                            quiet_output()
                        } else if c == 'o' {
                            self.doc.totals.reset_week();
                            let mut logs: Vec<String> = Vec::new();
                            logs.push("reset weekly distance".to_owned());
                            let r = StepOutput { persist: true, log_lines: logs, error: None };
                            proof {
                                assert(r@.logs =~= seq![msg_reset_week()]);
                            }
                            r
                        } else {
                            quiet_output()
                        }
                    },
                    None => quiet_output(),
                }
            },
            DashboardState::EditRunningSchedule { buffer } => {
                if is_cancel(k) {
                    let line = buffer.clone();
                    self.state = DashboardState::Main;
                    let mut logs: Vec<String> = Vec::new();
                    logs.push(line);
                    let r = StepOutput { persist: false, log_lines: logs, error: None };
                    proof {
                        assert(r@.logs =~= spec_step(old(self)@, k).1.logs);
                    }
                    r
                } else {
                    let mut b = buffer.clone();
                    edit_buffer(&mut b, k);
                    self.state = DashboardState::EditRunningSchedule { buffer: b };
                    quiet_output()
                }
            },
            DashboardState::EditTodoList { buffer } => {
                if is_cancel(k) {
                    let line = buffer.clone();
                    self.state = DashboardState::Main;
                    let mut logs: Vec<String> = Vec::new();
                    logs.push(line);
                    let r = StepOutput { persist: false, log_lines: logs, error: None };
                    proof {
                        assert(r@.logs =~= spec_step(old(self)@, k).1.logs);
                    }
                    r
                } else {
                    let mut b = buffer.clone();
                    edit_buffer(&mut b, k);
                    self.state = DashboardState::EditTodoList { buffer: b };
                    quiet_output()
                }
            },
            DashboardState::AddToRunningTotal { buffer } => {
                if is_cancel(k) {
                    self.state = DashboardState::Main;
                    quiet_output()
                } else {
                    let confirm = match k.key {
                        Key::Enter => !k.ctrl,
                        _ => false,
                    };
                    if confirm {
                        let text = buffer.clone();
                        self.state = DashboardState::Main;
                        match self.doc.totals.parse_and_add(text.as_str()) {
                            Ok(()) => {
                                let r = StepOutput {
                                    persist: true,
                                    log_lines: Vec::new(),
                                    error: None,
                                };
                                proof {
                                    assert(r@.logs =~= spec_step(old(self)@, k).1.logs);
                                }
                                r
                            },
                            Err(e) => {
                                let r = StepOutput {
                                    persist: false,
                                    log_lines: Vec::new(),
                                    error: Some(e),
                                };
                                proof {
                                    assert(r@.logs =~= spec_step(old(self)@, k).1.logs);
                                }
                                r
                            },
                        }
                    } else {
                        let mut b = buffer.clone();
                        edit_buffer(&mut b, k);
                        self.state = DashboardState::AddToRunningTotal { buffer: b };
                        quiet_output()
                    }
                }
            },
        }
    }
}

/// A step that changes the stored document also asks for persistence at
/// once: with the caller saving whenever it is told to, a crash loses at
/// most the in-flight keystroke, never a confirmed edit.
pub proof fn lemma_mutation_asks_for_persistence(d: DashModel, k: KeyPress)
    ensures
        spec_step(d, k).0.doc != d.doc ==> spec_step(d, k).1.persist,
{
}

/// No popup is terminal: cancelling any popup, and confirming the
/// add-to-totals popup whether or not its text parses, always lands back in
/// the main view.
pub proof fn lemma_popup_returns_to_main(d: DashModel, k: KeyPress)
    requires
        !(d.state is Main),
        spec_cancel(k) || (d.state is AddToRunningTotal && !k.ctrl && k.key is Enter),
    ensures
        spec_step(d, k).0.state is Main,
{
}

/// Cancelling a todo-list editing session leaves the whole document — the
/// todo list in particular — unchanged, does not ask for persistence, and
/// hands the typed-but-unconfirmed text to the log, so nothing typed is ever
/// lost silently.
pub proof fn lemma_cancel_edit_todo(d: DashModel, k: KeyPress, b: Seq<char>)
    requires
        d.state == (StateModel::EditTodoList { buffer: b }),
        spec_cancel(k),
    ensures
        spec_step(d, k).0.doc == d.doc,
        spec_step(d, k).0.state == StateModel::Main,
        spec_step(d, k).1.logs == seq![b],
        !spec_step(d, k).1.persist,
{
}

} // verus!
