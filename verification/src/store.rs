//! The environment store: the JSON-backed document holding the todo list,
//! the running schedule and the running totals. Loading tolerates missing or
//! mistyped fields, falling back to safe defaults and reporting one
//! diagnostic line per anomaly; saving rewrites the three known fields and
//! carries every other top-level field through unchanged.

use vstd::prelude::*;
use crate::json::{fields_of, lookup, lemma_model_items, lemma_model_fields, JVal, JsonV};
use crate::num::parse_milli;
use crate::num::parse_milli_text;
use crate::schedule::{EntryModel, ScheduleEntry};
use crate::totals::{in_cap, Totals};

verus! {

/// Diagnostic line for a missing or non-array todo list.
pub open spec fn msg_todo() -> Seq<char> {
    "todo list is missing or not an array"@
}

/// Diagnostic line for a missing or non-array running schedule.
pub open spec fn msg_schedule() -> Seq<char> {
    "running schedule is missing or not an array"@
}

/// Diagnostic line for missing or non-array running totals.
pub open spec fn msg_totals() -> Seq<char> {
    "running totals are missing or not an array"@
}

/// Diagnostic line for one unreadable totals slot.
pub open spec fn msg_slot(i: int) -> Seq<char> {
    if i == 0 {
        "running totals slot 0 could not be read as a number"@
    } else if i == 1 {
        "running totals slot 1 could not be read as a number"@
    } else {
        "running totals slot 2 could not be read as a number"@
    }
}

pub open spec fn as_arr(v: Option<JsonV>) -> Option<Seq<JsonV>> {
    match v {
        Some(JsonV::Arr(items)) => Some(items),
        _ => None,
    }
}

pub open spec fn as_str_opt(v: Option<JsonV>) -> Option<Seq<char>> {
    match v {
        Some(JsonV::Str(s)) => Some(s),
        _ => None,
    }
}

/// The displayable todo items: the string elements, in order.
pub open spec fn todo_items(arr: Seq<JsonV>) -> Seq<Seq<char>>
    decreases arr,
{
    if arr.len() == 0 {
        Seq::empty()
    } else {
        todo_items(arr.drop_last()) + (match arr.last() {
            JsonV::Str(s) => seq![s],
            _ => Seq::<Seq<char>>::empty(),
        })
    }
}

/// What one stored element means as a schedule entry: an object with a
/// string under "date", its "am" and "pm" strings where present.
pub open spec fn entry_of(v: JsonV) -> Option<EntryModel> {
    match lookup(fields_of(v), "date"@) {
        Some(JsonV::Str(d)) => Some(
            EntryModel {
                date: d,
                am: as_str_opt(lookup(fields_of(v), "am"@)),
                pm: as_str_opt(lookup(fields_of(v), "pm"@)),
            },
        ),
        _ => None,
    }
}

/// The usable schedule entries, in storage order.
pub open spec fn sched_entries(arr: Seq<JsonV>) -> Seq<EntryModel>
    decreases arr,
{
    if arr.len() == 0 {
        Seq::empty()
    } else {
        sched_entries(arr.drop_last()) + (match entry_of(arr.last()) {
            Some(e) => seq![e],
            None => Seq::<EntryModel>::empty(),
        })
    }
}

/// One totals slot, where the element exists, is a number the milli-unit
/// grammar reads, and lies within the library's range.
pub open spec fn slot_milli(arr: Seq<JsonV>, i: int) -> Option<int> {
    if 0 <= i < arr.len() {
        match arr[i] {
            JsonV::Num(t) => match parse_milli(t) {
                Some(v) => if in_cap(v) {
                    Some(v)
                } else {
                    None
                },
                None => None,
            },
            _ => None,
        }
    } else {
        None
    }
}

/// The three known top-level keys.
pub open spec fn known_key(k: Seq<char>) -> bool {
    k == "todo_list"@ || k == "running_schedule"@ || k == "running_totals"@
}

/// The top-level fields the store does not understand, in storage order.
pub open spec fn extras_of(fields: Seq<(Seq<char>, JsonV)>) -> Seq<(Seq<char>, JsonV)>
    decreases fields,
{
    if fields.len() == 0 {
        Seq::empty()
    } else {
        extras_of(fields.drop_last()) + (if known_key(fields.last().0) {
            Seq::<(Seq<char>, JsonV)>::empty()
        } else {
            seq![fields.last()]
        })
    }
}

/// Mathematical model of the in-memory document.
pub struct DocModel {
    pub todo_list: Seq<Seq<char>>,
    pub running_schedule: Seq<EntryModel>,
    pub totals: Totals,
    pub extras: Seq<(Seq<char>, JsonV)>,
}

impl DocModel {
    /// Counters in range; no unknown field shadows a known key.
    pub open spec fn wf(self) -> bool {
        &&& self.totals.wf()
        &&& forall|i: int| 0 <= i < self.extras.len() ==> !known_key((#[trigger] self.extras[i]).0)
    }
}

/// One totals counter as loaded: the slot's value, or zero.
pub open spec fn loaded_slot(tot_arr: Option<Seq<JsonV>>, i: int) -> int {
    match tot_arr {
        Some(a) => match slot_milli(a, i) {
            Some(v) => v,
            None => 0,
        },
        None => 0,
    }
}

/// The diagnostic lines one totals slot contributes.
pub open spec fn slot_logs(a: Seq<JsonV>, i: int) -> Seq<Seq<char>> {
    if slot_milli(a, i) is None {
        seq![msg_slot(i)]
    } else {
        Seq::empty()
    }
}

/// What loading a parsed document yields: the document and its diagnostic
/// lines, in the order the fields are read (todo list, schedule, totals).
pub open spec fn load_doc(root: JsonV) -> (DocModel, Seq<Seq<char>>) {
    let fields = fields_of(root);
    let todo_arr = as_arr(lookup(fields, "todo_list"@));
    let sched_arr = as_arr(lookup(fields, "running_schedule"@));
    let tot_arr = as_arr(lookup(fields, "running_totals"@));
    let doc = DocModel {
        todo_list: match todo_arr {
            Some(a) => todo_items(a),
            None => Seq::empty(),
        },
        running_schedule: match sched_arr {
            Some(a) => sched_entries(a),
            None => Seq::empty(),
        },
        totals: Totals {
            week: loaded_slot(tot_arr, 0) as i64,
            month: loaded_slot(tot_arr, 1) as i64,
            year: loaded_slot(tot_arr, 2) as i64,
        },
        extras: extras_of(fields),
    };
    let logs = (if todo_arr is None {
        seq![msg_todo()]
    } else {
        Seq::<Seq<char>>::empty()
    }) + (if sched_arr is None {
        seq![msg_schedule()]
    } else {
        Seq::<Seq<char>>::empty()
    }) + (match tot_arr {
        Some(a) => slot_logs(a, 0) + slot_logs(a, 1) + slot_logs(a, 2),
        None => seq![msg_totals()],
    });
    (doc, logs)
}

/// The in-memory document: the three fields the dashboard works with, and
/// every other top-level field of the file, carried through verbatim.
pub struct EnvironmentDoc {
    pub todo_list: Vec<String>,
    pub running_schedule: Vec<ScheduleEntry>,
    pub totals: Totals,
    pub extras: Vec<(String, JVal)>,
}

impl View for EnvironmentDoc {
    type V = DocModel;

    open spec fn view(&self) -> DocModel {
        DocModel {
            todo_list: self.todo_list.deep_view(),
            running_schedule: self.running_schedule.deep_view(),
            totals: self.totals,
            extras: JVal::model_fields(self.extras@),
        }
    }
}

impl DeepView for ScheduleEntry {
    type V = EntryModel;

    open spec fn deep_view(&self) -> EntryModel {
        self@
    }
}

/// Reads one stored element as a schedule entry, exactly as `entry_of` does.
fn entry_from(v: &JVal) -> (r: Option<ScheduleEntry>)
    ensures
        r matches Some(e) ==> entry_of(v@) == Some(e@),
        r is None ==> entry_of(v@) is None,
{
    match v.lookup_field("date") {
        Some(JVal::Str(d)) => {
            let am = match v.lookup_field("am") {
                Some(JVal::Str(s)) => Some(s.clone()),
                _ => None,
            };
            let pm = match v.lookup_field("pm") {
                Some(JVal::Str(s)) => Some(s.clone()),
                _ => None,
            };
            Some(ScheduleEntry { date: d.clone(), am, pm })
        },
        _ => None,
    }
}

/// Reads one totals slot, exactly as `slot_milli` does.
fn slot_from(items: &Vec<JVal>, i: usize) -> (r: Option<i64>)
    ensures
        r matches Some(v) ==> slot_milli(JVal::model_items(items@), i as int) == Some(v as int),
        r is None ==> slot_milli(JVal::model_items(items@), i as int) is None,
{
    proof {
        lemma_model_items(items@);
    }
    if i < items.len() {
        match &items[i] {
            JVal::Num(t) => {
                match parse_milli_text(t.as_str()) {
                    Some(v) => {
                        if -crate::num::TOTAL_CAP_MILLI <= v && v <= crate::num::TOTAL_CAP_MILLI {
                            Some(v)
                        } else {
                            None
                        }
                    },
                    None => None,
                }
            },
            _ => None,
        }
    } else {
        None
    }
}

impl EnvironmentDoc {
    /// Turns a parsed file into the in-memory document, exactly as
    /// `load_doc` reads it; the returned lines are the diagnostics owed to
    /// the log, in reading order.
    #[verifier::loop_isolation(false)]
    pub fn from_jval(root: &JVal) -> (r: (EnvironmentDoc, Vec<String>))
        ensures
            r.0@ == load_doc(root@).0,
            r.1.deep_view() == load_doc(root@).1,
            r.0@.wf(),
    {
        let mut logs: Vec<String> = Vec::new();
        // Todo list.
        let mut todo: Vec<String> = Vec::new();
        match root.lookup_field("todo_list") {
            Some(JVal::Arr(items)) => {
                proof {
                    lemma_model_items(items@);
                }
                let ghost m = JVal::model_items(items@);
                let mut j: usize = 0;
                while j < items.len()
                    invariant
                        0 <= j <= items@.len(),
                        todo.deep_view() == todo_items(m.take(j as int)),
                    decreases items@.len() - j,
                {
                    proof {
                        assert(m.take(j + 1).drop_last() =~= m.take(j as int));
                        assert(m.take(j + 1).last() == m[j as int]);
                    }
                    match &items[j] {
                        JVal::Str(s) => {
                            todo.push(s.clone());
                            proof {
                                assert(todo.deep_view() =~= todo_items(m.take(j + 1)));
                            }
                        },
                        _ => {
                            proof {
                                assert(todo.deep_view() =~= todo_items(m.take(j + 1)));
                            }
                        },
                    }
                    j = j + 1;
                }
                proof {
                    assert(m.take(m.len() as int) =~= m);
                }
            },
            _ => {
                logs.push("todo list is missing or not an array".to_owned());
            },
        }
        // Running schedule.
        let mut sched: Vec<ScheduleEntry> = Vec::new();
        match root.lookup_field("running_schedule") {
            Some(JVal::Arr(items)) => {
                proof {
                    lemma_model_items(items@);
                }
                let ghost m = JVal::model_items(items@);
                let mut j: usize = 0;
                while j < items.len()
                    invariant
                        0 <= j <= items@.len(),
                        sched.deep_view() == sched_entries(m.take(j as int)),
                    decreases items@.len() - j,
                {
                    proof {
                        assert(m.take(j + 1).drop_last() =~= m.take(j as int));
                        assert(m.take(j + 1).last() == m[j as int]);
                    }
                    match entry_from(&items[j]) {
                        Some(e) => {
                            sched.push(e);
                        },
                        None => {},
                    }
                    proof {
                        assert(sched.deep_view() =~= sched_entries(m.take(j + 1)));
                    }
                    j = j + 1;
                }
                proof {
                    assert(m.take(m.len() as int) =~= m);
                }
            },
            _ => {
                logs.push("running schedule is missing or not an array".to_owned());
            },
        }
        // Running totals.
        let mut totals = Totals::new();
        match root.lookup_field("running_totals") {
            Some(JVal::Arr(items)) => {
                match slot_from(items, 0) {
                    Some(v) => {
                        totals.week = v;
                    },
                    None => {
                        logs.push("running totals slot 0 could not be read as a number".to_owned());
                    },
                }
                match slot_from(items, 1) {
                    Some(v) => {
                        totals.month = v;
                    },
                    None => {
                        logs.push("running totals slot 1 could not be read as a number".to_owned());
                    },
                }
                match slot_from(items, 2) {
                    Some(v) => {
                        totals.year = v;
                    },
                    None => {
                        logs.push("running totals slot 2 could not be read as a number".to_owned());
                    },
                }
            },
            _ => {
                logs.push("running totals are missing or not an array".to_owned());
            },
        }
        // Unknown top-level fields, carried through verbatim.
        let mut extras: Vec<(String, JVal)> = Vec::new();
        match root {
            JVal::Obj(fields) => {
                proof {
                    lemma_model_fields(fields@);
                }
                let ghost mf = JVal::model_fields(fields@);
                let todo_key = "todo_list".to_owned();
                let sched_key = "running_schedule".to_owned();
                let tot_key = "running_totals".to_owned();
                let mut j: usize = 0;
                while j < fields.len()
                    invariant
                        0 <= j <= fields@.len(),
                        JVal::model_fields(extras@) == extras_of(mf.take(j as int)),
                        todo_key@ == "todo_list"@,
                        sched_key@ == "running_schedule"@,
                        tot_key@ == "running_totals"@,
                    decreases fields@.len() - j,
                {
                    proof {
                        assert(mf.take(j + 1).drop_last() =~= mf.take(j as int));
                        assert(mf.take(j + 1).last() == mf[j as int]);
                        lemma_model_fields(extras@);
                    }
                    let known = fields[j].0 == todo_key || fields[j].0 == sched_key || fields[j].0
                        == tot_key;
                    if !known {
                        let kc = fields[j].0.clone();
                        let vc = fields[j].1.duplicate();
                        extras.push((kc, vc));
                    }
                    proof {
                        lemma_model_fields(extras@);
                        assert(JVal::model_fields(extras@) =~= extras_of(mf.take(j + 1)));
                    }
                    j = j + 1;
                }
                proof {
                    assert(mf.take(mf.len() as int) =~= mf);
                }
            },
            _ => {},
        }
        let doc = EnvironmentDoc { todo_list: todo, running_schedule: sched, totals, extras };
        proof {
            lemma_extras_not_known(fields_of(root@));
            assert(doc@.todo_list == load_doc(root@).0.todo_list);
            assert(doc@.running_schedule == load_doc(root@).0.running_schedule);
            assert(doc@.totals == load_doc(root@).0.totals);
            assert(doc@.extras == load_doc(root@).0.extras);
            assert(doc@ == load_doc(root@).0);
            assert(logs.deep_view() =~= load_doc(root@).1);
        }
        (doc, logs)
    }
}

/// The todo list written back: one string per item.
pub open spec fn todo_jsons(todo: Seq<Seq<char>>) -> Seq<JsonV> {
    Seq::new(todo.len(), |i: int| JsonV::Str(todo[i]))
}

/// One schedule entry written back: its date, then its present fields.
pub open spec fn entry_fields(e: EntryModel) -> Seq<(Seq<char>, JsonV)> {
    seq![("date"@, JsonV::Str(e.date))] + (match e.am {
        Some(a) => seq![("am"@, JsonV::Str(a))],
        None => Seq::<(Seq<char>, JsonV)>::empty(),
    }) + (match e.pm {
        Some(p) => seq![("pm"@, JsonV::Str(p))],
        None => Seq::<(Seq<char>, JsonV)>::empty(),
    })
}

pub open spec fn entry_json(e: EntryModel) -> JsonV {
    JsonV::Obj(entry_fields(e))
}

pub open spec fn sched_jsons(s: Seq<EntryModel>) -> Seq<JsonV> {
    Seq::new(s.len(), |i: int| entry_json(s[i]))
}

/// The totals written back: three decimal numbers.
pub open spec fn totals_json(t: Totals) -> JsonV {
    JsonV::Arr(
        seq![
            JsonV::Num(crate::num::fmt_milli(t.week as int)),
            JsonV::Num(crate::num::fmt_milli(t.month as int)),
            JsonV::Num(crate::num::fmt_milli(t.year as int)),
        ],
    )
}

/// The three known fields as saving writes them.
pub open spec fn save_known_fields(d: DocModel) -> Seq<(Seq<char>, JsonV)> {
    seq![
        ("todo_list"@, JsonV::Arr(todo_jsons(d.todo_list))),
        ("running_schedule"@, JsonV::Arr(sched_jsons(d.running_schedule))),
        ("running_totals"@, totals_json(d.totals)),
    ]
}

/// The field list `save_doc` wraps into an object: the three known fields,
/// rewritten from memory, then every field the store does not understand,
/// unchanged and in its stored order.
pub open spec fn save_doc_fields(d: DocModel) -> Seq<(Seq<char>, JsonV)> {
    save_known_fields(d) + d.extras
}

/// What saving a document writes.
pub open spec fn save_doc(d: DocModel) -> JsonV {
    JsonV::Obj(save_doc_fields(d))
}

impl EnvironmentDoc {
    /// Writes the document back as a JSON tree, exactly as `save_doc` lays
    /// it out.
    #[verifier::loop_isolation(false)]
    pub fn to_jval(&self) -> (v: JVal)
        requires
            self@.wf(),
        ensures
            v@ == save_doc(self@),
    {
        // Todo list.
        let mut todo: Vec<JVal> = Vec::new();
        let mut j: usize = 0;
        while j < self.todo_list.len()
            invariant
                0 <= j <= self.todo_list@.len(),
                todo@.len() == j,
                forall|t: int|
                    0 <= t < j ==> (#[trigger] todo@[t])@ == JsonV::Str(self.todo_list@[t]@),
            decreases self.todo_list@.len() - j,
        {
            todo.push(JVal::Str(self.todo_list[j].clone()));
            j = j + 1;
        }
        proof {
            lemma_model_items(todo@);
            assert(JVal::model_items(todo@) =~= todo_jsons(self@.todo_list));
        }
        // Schedule.
        let mut sched: Vec<JVal> = Vec::new();
        let mut k: usize = 0;
        while k < self.running_schedule.len()
            invariant
                0 <= k <= self.running_schedule@.len(),
                sched@.len() == k,
                forall|t: int|
                    0 <= t < k ==> (#[trigger] sched@[t])@ == entry_json(
                        self.running_schedule@[t]@,
                    ),
            decreases self.running_schedule@.len() - k,
        {
            let e = &self.running_schedule[k];
            let mut efields: Vec<(String, JVal)> = Vec::new();
            efields.push(("date".to_owned(), JVal::Str(e.date.clone())));
            match &e.am {
                Some(a) => {
                    efields.push(("am".to_owned(), JVal::Str(a.clone())));
                },
                None => {},
            }
            match &e.pm {
                Some(p) => {
                    efields.push(("pm".to_owned(), JVal::Str(p.clone())));
                },
                None => {},
            }
            proof {
                lemma_model_fields(efields@);
                assert(JVal::model_fields(efields@) =~= entry_fields(e@));
            }
            sched.push(JVal::Obj(efields));
            k = k + 1;
        }
        proof {
            lemma_model_items(sched@);
            assert(JVal::model_items(sched@) =~= sched_jsons(self@.running_schedule));
        }
        // Totals.
        let mut tot: Vec<JVal> = Vec::new();
        tot.push(JVal::Num(crate::num::fmt_milli_text(self.totals.week)));
        tot.push(JVal::Num(crate::num::fmt_milli_text(self.totals.month)));
        tot.push(JVal::Num(crate::num::fmt_milli_text(self.totals.year)));
        proof {
            lemma_model_items(tot@);
            assert(JVal::model_items(tot@) =~= seq![
                JsonV::Num(crate::num::fmt_milli(self.totals.week as int)),
                JsonV::Num(crate::num::fmt_milli(self.totals.month as int)),
                JsonV::Num(crate::num::fmt_milli(self.totals.year as int)),
            ]);
        }
        // The whole object.
        let mut fields: Vec<(String, JVal)> = Vec::new();
        fields.push(("todo_list".to_owned(), JVal::Arr(todo)));
        fields.push(("running_schedule".to_owned(), JVal::Arr(sched)));
        fields.push(("running_totals".to_owned(), JVal::Arr(tot)));
        let ghost base = JVal::model_fields(fields@);
        proof {
            assert(fields@.take(3) =~= fields@);
            lemma_model_fields(fields@);
            assert(base[0] == ("todo_list"@, JsonV::Arr(todo_jsons(self@.todo_list))));
            assert(base[1] == ("running_schedule"@, JsonV::Arr(sched_jsons(self@.running_schedule))));
            assert(base[2] == ("running_totals"@, totals_json(self@.totals)));
            assert(base.len() == 3);
        }
        let mut x: usize = 0;
        while x < self.extras.len()
            invariant
                0 <= x <= self.extras@.len(),
                fields@.len() == 3 + x,
                JVal::model_fields(fields@.take(3)) == base,
                forall|t: int|
                    0 <= t < x ==> (#[trigger] fields@[3 + t]).0@ == self.extras@[t].0@ && fields@[
                        3 + t
                    ].1@ == self.extras@[t].1@,
            decreases self.extras@.len() - x,
        {
            let kc = self.extras[x].0.clone();
            let vc = self.extras[x].1.duplicate();
            let ghost pre = fields@;
            fields.push((kc, vc));
            proof {
                assert(fields@.take(3) =~= pre.take(3));
            }
            x = x + 1;
        }
        proof {
            lemma_model_fields(fields@);
            lemma_model_fields(self.extras@);
            lemma_model_fields(fields@.take(3));
            let mf = JVal::model_fields(fields@);
            let sf = save_doc_fields(self@);
            assert(sf.len() == 3 + self.extras@.len());
            assert(mf.len() == fields@.len());
            assert forall|t: int| 0 <= t < 3 implies #[trigger] mf[t] == sf[t] by {
                assert(fields@.take(3)[t] == fields@[t]);
                assert(JVal::model_fields(fields@.take(3))[t] == (
                    fields@.take(3)[t].0@,
                    fields@.take(3)[t].1@,
                ));
                assert(base[t] == (fields@[t].0@, fields@[t].1@));
                assert(mf[t] == (fields@[t].0@, fields@[t].1@));
            }
            assert forall|t: int| 3 <= t < fields@.len() implies #[trigger] mf[t] == sf[t] by {
                assert(mf[t] == (fields@[t].0@, fields@[t].1@));
                assert(fields@[3 + (t - 3)].0@ == self.extras@[t - 3].0@ && fields@[3 + (t
                    - 3)].1@ == self.extras@[t - 3].1@);
                assert(fields@[t].0@ == self.extras@[t - 3].0@);
                assert(fields@[t].1@ == self.extras@[t - 3].1@);
                assert(sf[t] == self@.extras[t - 3]);
                assert(self@.extras[t - 3] == (self.extras@[t - 3].0@, self.extras@[t - 3].1@));
            }
            assert(mf =~= sf);
        }
        JVal::Obj(fields)
    }
}

/// Diagnostic line for a file that is not JSON at all.
pub open spec fn msg_unparsable() -> Seq<char> {
    "environment file could not be parsed"@
}

impl EnvironmentDoc {
    /// Loads the document from the file's text: whatever parses is read as
    /// `load_doc` reads it; text that is no JSON document at all yields the
    /// empty document, one line saying so, and the empty document's own
    /// anomaly lines. Nothing here is ever fatal.
    pub fn from_text(text: &str) -> (r: (EnvironmentDoc, Vec<String>))
        ensures
            match crate::json::parsed_json(text@) {
                Some(m) => r.0@ == load_doc(m).0 && r.1.deep_view() == load_doc(m).1,
                None => r.0@ == load_doc(JsonV::Null).0 && r.1.deep_view() == seq![
                    msg_unparsable(),
                ] + load_doc(JsonV::Null).1,
            },
            r.0@.wf(),
    {
        match crate::json::parse_json(text) {
            Some(v) => EnvironmentDoc::from_jval(&v),
            None => {
                let mut logs: Vec<String> = Vec::new();
                logs.push("environment file could not be parsed".to_owned());
                let (doc, mut more) = EnvironmentDoc::from_jval(&JVal::Null);
                logs.append(&mut more);
                proof {
                    assert(logs.deep_view() =~= seq![msg_unparsable()] + load_doc(
                        JsonV::Null,
                    ).1);
                }
                (doc, logs)
            },
        }
    }

    /// Whether the document is well formed: counters in range, no unknown
    /// field under one of the three known keys.
    #[verifier::loop_isolation(false)]
    pub fn is_wf(&self) -> (b: bool)
        ensures
            b == self@.wf(),
    {
        let cap = crate::num::TOTAL_CAP_MILLI;
        let t = &self.totals;
        if !(-cap <= t.week && t.week <= cap && -cap <= t.month && t.month <= cap && -cap <= t.year
            && t.year <= cap) {
            return false;
        }
        proof {
            lemma_model_fields(self.extras@);
        }
        let todo_key = "todo_list".to_owned();
        let sched_key = "running_schedule".to_owned();
        let tot_key = "running_totals".to_owned();
        let mut j: usize = 0;
        while j < self.extras.len()
            invariant
                0 <= j <= self.extras@.len(),
                todo_key@ == "todo_list"@,
                sched_key@ == "running_schedule"@,
                tot_key@ == "running_totals"@,
                forall|i: int| 0 <= i < j ==> !known_key((#[trigger] self@.extras[i]).0),
            decreases self.extras@.len() - j,
        {
            if self.extras[j].0 == todo_key || self.extras[j].0 == sched_key || self.extras[j].0
                == tot_key {
                proof {
                    lemma_model_fields(self.extras@);
                    assert(known_key(self@.extras[j as int].0));
                }
                return false;
            }
            j = j + 1;
        }
        true
    }

    /// Writes the document as JSON text: the rendering of `save_doc`.
    pub fn to_text(&self) -> (r: String)
        requires
            self@.wf(),
        ensures
            r@ == crate::json::rendered_json(save_doc(self@)),
    {
        let v = self.to_jval();
        crate::json::render_json(&v)
    }
}

/// Whatever is loaded is well formed: counters in range, unknown fields
/// under unknown keys.
pub proof fn lemma_load_wf(root: JsonV)
    ensures
        load_doc(root).0.wf(),
{
    lemma_extras_not_known(fields_of(root));
}

/// The written todo strings read back as themselves.
proof fn lemma_todo_round(x: Seq<Seq<char>>)
    ensures
        todo_items(todo_jsons(x)) == x,
    decreases x.len(),
{
    let a = todo_jsons(x);
    if x.len() == 0 {
        assert(todo_items(a) =~= x);
    } else {
        lemma_todo_round(x.drop_last());
        assert(a.drop_last() =~= todo_jsons(x.drop_last()));
        assert(a.last() == JsonV::Str(x.last()));
        assert(todo_items(a) =~= x);
    }
}

/// A written schedule entry reads back as itself.
proof fn lemma_entry_round(e: EntryModel)
    ensures
        entry_of(entry_json(e)) == Some(e),
{
    reveal_strlit("date");
    reveal_strlit("am");
    reveal_strlit("pm");
    assert("date"@.len() == 4);
    assert("am"@.len() == 2);
    assert("pm"@.len() == 2);
    assert("am"@[0] == 'a');
    assert("pm"@[0] == 'p');
    let fs = entry_fields(e);
    assert(fields_of(entry_json(e)) == fs);
    let fd = ("date"@, JsonV::Str(e.date));
    assert(fs[0] == fd);
    assert(lookup(fs, "date"@) == Some(JsonV::Str(e.date)));
    match (e.am, e.pm) {
        (Some(a), Some(p)) => {
            assert(fs =~= seq![fd, ("am"@, JsonV::Str(a)), ("pm"@, JsonV::Str(p))]);
            let s1 = fs.drop_first();
            assert(s1 =~= seq![("am"@, JsonV::Str(a)), ("pm"@, JsonV::Str(p))]);
            let s2 = s1.drop_first();
            assert(s2 =~= seq![("pm"@, JsonV::Str(p))]);
            assert(lookup(fs, "am"@) == lookup(s1, "am"@));
            assert(lookup(s1, "am"@) == Some(JsonV::Str(a)));
            assert(lookup(fs, "pm"@) == lookup(s1, "pm"@));
            assert(lookup(s1, "pm"@) == lookup(s2, "pm"@));
            assert(lookup(s2, "pm"@) == Some(JsonV::Str(p)));
        },
        (Some(a), None) => {
            assert(fs =~= seq![fd, ("am"@, JsonV::Str(a))]);
            let s1 = fs.drop_first();
            assert(s1 =~= seq![("am"@, JsonV::Str(a))]);
            let s2 = s1.drop_first();
            assert(s2 =~= Seq::<(Seq<char>, JsonV)>::empty());
            assert(lookup(fs, "am"@) == lookup(s1, "am"@));
            assert(lookup(s1, "am"@) == Some(JsonV::Str(a)));
            assert(lookup(fs, "pm"@) == lookup(s1, "pm"@));
            assert(lookup(s1, "pm"@) == lookup(s2, "pm"@));
            assert(lookup(s2, "pm"@) is None);
        },
        (None, Some(p)) => {
            assert(fs =~= seq![fd, ("pm"@, JsonV::Str(p))]);
            let s1 = fs.drop_first();
            assert(s1 =~= seq![("pm"@, JsonV::Str(p))]);
            let s2 = s1.drop_first();
            assert(s2 =~= Seq::<(Seq<char>, JsonV)>::empty());
            assert(lookup(fs, "pm"@) == lookup(s1, "pm"@));
            assert(lookup(s1, "pm"@) == Some(JsonV::Str(p)));
            assert(lookup(fs, "am"@) == lookup(s1, "am"@));
            assert(lookup(s1, "am"@) == lookup(s2, "am"@));
            assert(lookup(s2, "am"@) is None);
        },
        (None, None) => {
            assert(fs =~= seq![fd]);
            let s1 = fs.drop_first();
            assert(s1 =~= Seq::<(Seq<char>, JsonV)>::empty());
            assert(lookup(fs, "am"@) == lookup(s1, "am"@));
            assert(lookup(s1, "am"@) is None);
            assert(lookup(fs, "pm"@) == lookup(s1, "pm"@));
            assert(lookup(s1, "pm"@) is None);
        },
    }
}

/// The written schedule reads back as itself.
proof fn lemma_sched_round(s: Seq<EntryModel>)
    ensures
        sched_entries(sched_jsons(s)) == s,
    decreases s.len(),
{
    let a = sched_jsons(s);
    if s.len() == 0 {
        assert(sched_entries(a) =~= s);
    } else {
        lemma_sched_round(s.drop_last());
        lemma_entry_round(s.last());
        assert(a.drop_last() =~= sched_jsons(s.drop_last()));
        assert(a.last() == entry_json(s.last()));
        assert(sched_entries(a) =~= s);
    }
}

/// Unknown-field extraction distributes over concatenation.
proof fn lemma_extras_concat(a: Seq<(Seq<char>, JsonV)>, b: Seq<(Seq<char>, JsonV)>)
    ensures
        extras_of(a + b) == extras_of(a) + extras_of(b),
    decreases b.len(),
{
    if b.len() == 0 {
        assert(a + b =~= a);
        assert(extras_of(b) =~= Seq::<(Seq<char>, JsonV)>::empty());
        assert(extras_of(a) + extras_of(b) =~= extras_of(a));
    } else {
        lemma_extras_concat(a, b.drop_last());
        assert((a + b).drop_last() =~= a + b.drop_last());
        assert((a + b).last() == b.last());
        assert(extras_of(a + b) =~= extras_of(a) + extras_of(b));
    }
}

/// Fields under unknown keys come through extraction unchanged.
proof fn lemma_extras_all_unknown(s: Seq<(Seq<char>, JsonV)>)
    requires
        forall|i: int| 0 <= i < s.len() ==> !known_key((#[trigger] s[i]).0),
    ensures
        extras_of(s) == s,
    decreases s.len(),
{
    if s.len() == 0 {
        assert(extras_of(s) =~= s);
    } else {
        assert(forall|i: int|
            0 <= i < s.len() - 1 ==> (#[trigger] s.drop_last()[i]) == s[i]);
        lemma_extras_all_unknown(s.drop_last());
        assert(!known_key(s.last().0));
        assert(extras_of(s) =~= s);
    }
}

/// Saving a well-formed document and loading the result yields the document
/// back, with no anomaly: the three known fields round-trip exactly, and
/// every field the store does not understand is preserved unchanged.
#[verifier::rlimit(80)]
pub proof fn lemma_save_load_identity(d: DocModel)
    requires
        d.wf(),
    ensures
        load_doc(save_doc(d)).0 == d,
        load_doc(save_doc(d)).1 == Seq::<Seq<char>>::empty(),
        extras_of(fields_of(save_doc(d))) == d.extras,
{
    reveal_strlit("todo_list");
    reveal_strlit("running_schedule");
    reveal_strlit("running_totals");
    assert("todo_list"@.len() == 9);
    assert("running_schedule"@.len() == 16);
    assert("running_totals"@.len() == 14);
    let sf = save_doc_fields(d);
    let kn = save_known_fields(d);
    assert(fields_of(save_doc(d)) == sf);
    // The three lookups hit the three known fields.
    assert(sf[0] == kn[0] && sf[1] == kn[1] && sf[2] == kn[2]);
    assert(lookup(sf, "todo_list"@) == Some(JsonV::Arr(todo_jsons(d.todo_list))));
    let s1 = sf.drop_first();
    let s2 = s1.drop_first();
    assert(s1[0] == sf[1] && s2[0] == sf[2]);
    assert(lookup(sf, "running_schedule"@) == lookup(s1, "running_schedule"@));
    assert(lookup(s1, "running_schedule"@) == Some(JsonV::Arr(sched_jsons(d.running_schedule))));
    assert(lookup(sf, "running_totals"@) == lookup(s1, "running_totals"@));
    assert(lookup(s1, "running_totals"@) == lookup(s2, "running_totals"@));
    assert(lookup(s2, "running_totals"@) == Some(totals_json(d.totals)));
    // The three fields read back as themselves.
    lemma_todo_round(d.todo_list);
    lemma_sched_round(d.running_schedule);
    let ta = match totals_json(d.totals) {
        JsonV::Arr(items) => items,
        _ => Seq::<JsonV>::empty(),
    };
    crate::num::lemma_parse_fmt_milli(d.totals.week as int);
    crate::num::lemma_parse_fmt_milli(d.totals.month as int);
    crate::num::lemma_parse_fmt_milli(d.totals.year as int);
    assert(slot_milli(ta, 0) == Some(d.totals.week as int));
    assert(slot_milli(ta, 1) == Some(d.totals.month as int));
    assert(slot_milli(ta, 2) == Some(d.totals.year as int));
    // The unknown fields are exactly the document's extras.
    lemma_extras_concat(kn, d.extras);
    assert(kn.drop_last() =~= seq![kn[0], kn[1]]);
    assert(seq![kn[0], kn[1]].drop_last() =~= seq![kn[0]]);
    assert(seq![kn[0]].drop_last() =~= Seq::<(Seq<char>, JsonV)>::empty());
    assert(known_key(kn[0].0) && known_key(kn[1].0) && known_key(kn[2].0));
    assert(extras_of(kn) =~= Seq::<(Seq<char>, JsonV)>::empty()) by {
        reveal_with_fuel(extras_of, 5);
        assert(kn.last() == kn[2] && seq![kn[0], kn[1]].last() == kn[1] && seq![kn[0]].last()
            == kn[0]);
    }
    lemma_extras_all_unknown(d.extras);
    assert(extras_of(sf) == d.extras);
    // Whole document and silence of the log.
    assert(load_doc(save_doc(d)).0 == d);
    assert(load_doc(save_doc(d)).1 =~= Seq::<Seq<char>>::empty());
}

/// Saving right after loading is a fixed point: loading what was saved gives
/// the same document again, without any anomaly, and the saved file carries
/// exactly the unrecognized top-level fields the loaded file had.
pub proof fn lemma_save_load_fixed_point(root: JsonV)
    ensures
        load_doc(save_doc(load_doc(root).0)).0 == load_doc(root).0,
        load_doc(save_doc(load_doc(root).0)).1 == Seq::<Seq<char>>::empty(),
        extras_of(fields_of(save_doc(load_doc(root).0))) == extras_of(fields_of(root)),
{
    lemma_load_wf(root);
    lemma_save_load_identity(load_doc(root).0);
}

/// Nothing a known key names survives into the unknown fields.
proof fn lemma_extras_not_known(fields: Seq<(Seq<char>, JsonV)>)
    ensures
        forall|i: int|
            0 <= i < extras_of(fields).len() ==> !known_key((#[trigger] extras_of(fields)[i]).0),
    decreases fields,
{
    if fields.len() > 0 {
        lemma_extras_not_known(fields.drop_last());
        let prev = extras_of(fields.drop_last());
        assert forall|i: int|
            0 <= i < extras_of(fields).len() implies !known_key(
            (#[trigger] extras_of(fields)[i]).0,
        ) by {
            if i < prev.len() {
                assert(extras_of(fields)[i] == prev[i]);
            } else {
                assert(!known_key(fields.last().0));
                assert(extras_of(fields)[i] == fields.last());
            }
        }
    }
}

} // verus!
