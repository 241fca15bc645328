//! The schedule projector: lays the stored training entries onto the seven
//! consecutive days starting today. A slot reads "rest" until an entry for
//! its date overwrites it; later entries win, and only the fields an entry
//! actually carries overwrite anything.

use vstd::prelude::*;
use crate::date::{parse_date, parse_date_text, window7, Date};

verus! {

/// One stored schedule entry: a date written `MM/DD/YYYY`, and the morning
/// and afternoon training texts, either of which may be absent.
pub struct ScheduleEntry {
    pub date: String,
    pub am: Option<String>,
    pub pm: Option<String>,
}

/// Mathematical model of an entry.
pub struct EntryModel {
    pub date: Seq<char>,
    pub am: Option<Seq<char>>,
    pub pm: Option<Seq<char>>,
}

impl View for ScheduleEntry {
    type V = EntryModel;

    open spec fn view(&self) -> EntryModel {
        EntryModel {
            date: self.date@,
            am: match self.am {
                Option::Some(s) => Option::Some(s@),
                Option::None => Option::None,
            },
            pm: match self.pm {
                Option::Some(s) => Option::Some(s@),
                Option::None => Option::None,
            },
        }
    }
}

pub open spec fn entry_models(entries: Seq<ScheduleEntry>) -> Seq<EntryModel> {
    entries.map_values(|e: ScheduleEntry| e@)
}

/// First slot of the window holding this date, or -1.
pub open spec fn find_slot(win: Seq<Date>, d: Date) -> int
    decreases win,
{
    if win.len() == 0 {
        -1
    } else if win[0] == d {
        0
    } else {
        let r = find_slot(win.drop_first(), d);
        if r == -1 {
            -1
        } else {
            r + 1
        }
    }
}

/// The two rows of display texts, morning and afternoon.
pub struct Projection {
    pub am: Seq<Seq<char>>,
    pub pm: Seq<Seq<char>>,
}

/// Overwrites the slots one entry names: nothing unless the entry's date
/// parses and falls in the window, and then only the fields it carries.
pub open spec fn apply_entry(st: Projection, e: EntryModel, win: Seq<Date>) -> Projection {
    match parse_date(e.date) {
        Option::Some(d) => {
            let i = find_slot(win, d);
            if 0 <= i < st.am.len() && i < st.pm.len() {
                Projection {
                    am: match e.am {
                        Option::Some(a) => st.am.update(i, a),
                        Option::None => st.am,
                    },
                    pm: match e.pm {
                        Option::Some(p) => st.pm.update(i, p),
                        Option::None => st.pm,
                    },
                }
            } else {
                st
            }
        },
        Option::None => st,
    }
}

/// Projects the entries onto a window, in storage order, later entries
/// winning; untouched slots read "rest".
pub open spec fn project_entries(entries: Seq<EntryModel>, win: Seq<Date>) -> Projection
    decreases entries,
{
    if entries.len() == 0 {
        Projection {
            am: Seq::new(win.len(), |i: int| "rest"@),
            pm: Seq::new(win.len(), |i: int| "rest"@),
        }
    } else {
        apply_entry(project_entries(entries.drop_last(), win), entries.last(), win)
    }
}

/// First matching slot in a seven-day window, exactly as `find_slot` finds it.
fn find_slot_in(win: &Vec<Date>, d: &Date) -> (r: Option<usize>)
    requires
        win@.len() == 7,
    ensures
        match r {
            Option::Some(i) => 0 <= i < 7 && find_slot(win@, *d) == i as int,
            Option::None => find_slot(win@, *d) == -1,
        },
{
    proof {
        reveal_with_fuel(find_slot, 8);
    }
    let mut j: usize = 0;
    while j < 7
        invariant
            0 <= j <= 7,
            win@.len() == 7,
            forall|t: int| 0 <= t < j ==> win@[t] != d,
        decreases 7 - j,
    {
        if win[j] == *d {
            proof {
                lemma_find_slot_first(win@, *d, j as int);
            }
            return Some(j);
        }
        j = j + 1;
    }
    proof {
        lemma_find_slot_none(win@, *d);
    }
    None
}

/// Where a first match sits, `find_slot` finds exactly it.
proof fn lemma_find_slot_first(win: Seq<Date>, d: Date, i: int)
    requires
        0 <= i < win.len(),
        win[i] == d,
        forall|t: int| 0 <= t < i ==> win[t] != d,
    ensures
        find_slot(win, d) == i,
    decreases win,
{
    if i > 0 {
        assert(forall|t: int| 0 <= t < i - 1 ==> win.drop_first()[t] != d);
        lemma_find_slot_first(win.drop_first(), d, i - 1);
    }
}

/// Where nothing matches, `find_slot` finds nothing.
proof fn lemma_find_slot_none(win: Seq<Date>, d: Date)
    requires
        forall|t: int| 0 <= t < win.len() ==> win[t] != d,
    ensures
        find_slot(win, d) == -1,
    decreases win,
{
    if win.len() > 0 {
        assert(forall|t: int| 0 <= t < win.len() - 1 ==> win.drop_first()[t] != d);
        lemma_find_slot_none(win.drop_first(), d);
    }
}

/// Some entry names this date and carries this morning text.
pub open spec fn slot_from_am(entries: Seq<EntryModel>, d: Date, v: Seq<char>) -> bool {
    exists|j: int|
        0 <= j < entries.len() && parse_date(entries[j].date) == Some(d) && entries[j].am == Some(
            v,
        )
}

/// Some entry names this date and carries this afternoon text.
pub open spec fn slot_from_pm(entries: Seq<EntryModel>, d: Date, v: Seq<char>) -> bool {
    exists|j: int|
        0 <= j < entries.len() && parse_date(entries[j].date) == Some(d) && entries[j].pm == Some(
            v,
        )
}

/// A found slot really holds the date that was looked up.
proof fn lemma_find_slot_hit(win: Seq<Date>, d: Date)
    ensures
        find_slot(win, d) == -1 || (0 <= find_slot(win, d) < win.len() && win[find_slot(win, d)]
            == d),
    decreases win,
{
    if win.len() > 0 && win[0] != d {
        lemma_find_slot_hit(win.drop_first(), d);
    }
}

/// Projecting any entries over any window yields one text per window day,
/// each either "rest" or taken verbatim from some entry whose date names
/// that day.
pub proof fn lemma_projection_slots(entries: Seq<EntryModel>, win: Seq<Date>)
    ensures
        project_entries(entries, win).am.len() == win.len(),
        project_entries(entries, win).pm.len() == win.len(),
        forall|i: int|
            0 <= i < win.len() ==> #[trigger] project_entries(entries, win).am[i] == "rest"@
                || slot_from_am(entries, win[i], project_entries(entries, win).am[i]),
        forall|i: int|
            0 <= i < win.len() ==> #[trigger] project_entries(entries, win).pm[i] == "rest"@
                || slot_from_pm(entries, win[i], project_entries(entries, win).pm[i]),
    decreases entries,
{
    if entries.len() > 0 {
        let prev = entries.drop_last();
        lemma_projection_slots(prev, win);
        let e = entries.last();
        let q = project_entries(prev, win);
        let p = project_entries(entries, win);
        assert(forall|j: int| 0 <= j < prev.len() ==> prev[j] == entries[j]);
        assert(entries[entries.len() - 1] == e);
        assert forall|i: int|
            0 <= i < win.len() implies (#[trigger] p.am[i] == "rest"@ || slot_from_am(
            entries,
            win[i],
            p.am[i],
        )) by {
            if p.am[i] == q.am[i] {
                if q.am[i] != "rest"@ {
                    let j = choose|j: int|
                        0 <= j < prev.len() && parse_date(prev[j].date) == Some(win[i])
                            && prev[j].am == Some(q.am[i]);
                    assert(0 <= j < entries.len() && parse_date(entries[j].date) == Some(win[i])
                        && entries[j].am == Some(p.am[i]));
                }
            } else {
                lemma_find_slot_hit(win, parse_date(e.date)->0);
                let j = entries.len() - 1;
                assert(0 <= j < entries.len() && parse_date(entries[j].date) == Some(win[i])
                    && entries[j].am == Some(p.am[i]));
            }
        }
        assert forall|i: int|
            0 <= i < win.len() implies (#[trigger] p.pm[i] == "rest"@ || slot_from_pm(
            entries,
            win[i],
            p.pm[i],
        )) by {
            if p.pm[i] == q.pm[i] {
                if q.pm[i] != "rest"@ {
                    let j = choose|j: int|
                        0 <= j < prev.len() && parse_date(prev[j].date) == Some(win[i])
                            && prev[j].pm == Some(q.pm[i]);
                    assert(0 <= j < entries.len() && parse_date(entries[j].date) == Some(win[i])
                        && entries[j].pm == Some(p.pm[i]));
                }
            } else {
                lemma_find_slot_hit(win, parse_date(e.date)->0);
                let j = entries.len() - 1;
                assert(0 <= j < entries.len() && parse_date(entries[j].date) == Some(win[i])
                    && entries[j].pm == Some(p.pm[i]));
            }
        }
    }
}

/// Projecting any entries over the seven days starting at any date yields
/// exactly seven morning and seven afternoon texts, each either "rest" or
/// taken verbatim from some entry whose date names that day of the window.
pub proof fn lemma_projection_seven_days(entries: Seq<EntryModel>, today: Date)
    ensures
        project_entries(entries, window7(today)).am.len() == 7,
        project_entries(entries, window7(today)).pm.len() == 7,
        forall|i: int|
            0 <= i < 7 ==> #[trigger] project_entries(entries, window7(today)).am[i] == "rest"@
                || slot_from_am(
                entries,
                window7(today)[i],
                project_entries(entries, window7(today)).am[i],
            ),
        forall|i: int|
            0 <= i < 7 ==> #[trigger] project_entries(entries, window7(today)).pm[i] == "rest"@
                || slot_from_pm(
                entries,
                window7(today)[i],
                project_entries(entries, window7(today)).pm[i],
            ),
{
    lemma_projection_slots(entries, window7(today));
}

/// Projects the stored schedule onto the seven days starting `today`: the
/// morning and afternoon display rows, exactly as `project_entries` lays
/// them out over `window7(today)`.
#[verifier::loop_isolation(false)]
pub fn project_schedule(entries: &Vec<ScheduleEntry>, today: &Date) -> (r: (Vec<String>, Vec<
    String,
>))
    requires
        today.wf(),
        today.year <= 9998,
    ensures
        r.0.deep_view() == project_entries(entry_models(entries@), window7(*today)).am,
        r.1.deep_view() == project_entries(entry_models(entries@), window7(*today)).pm,
        r.0@.len() == 7,
        r.1@.len() == 7,
{
    let win = crate::date::build_window(today);
    let mut am: Vec<String> = Vec::new();
    let mut pm: Vec<String> = Vec::new();
    let mut i: usize = 0;
    while i < 7
        invariant
            am@.len() == i <= 7,
            pm@.len() == i,
            forall|t: int| 0 <= t < i ==> #[trigger] am@[t]@ == "rest"@,
            forall|t: int| 0 <= t < i ==> #[trigger] pm@[t]@ == "rest"@,
        decreases 7 - i,
    {
        am.push("rest".to_owned());
        pm.push("rest".to_owned());
        i = i + 1;
    }
    let ghost models = entry_models(entries@);
    proof {
        assert forall|t: int| 0 <= t < 7 implies #[trigger] am.deep_view()[t] == "rest"@ by {
            assert(am.deep_view()[t] == am@[t]@);
        }
        assert forall|t: int| 0 <= t < 7 implies #[trigger] pm.deep_view()[t] == "rest"@ by {
            assert(pm.deep_view()[t] == pm@[t]@);
        }
        assert(am.deep_view() =~= project_entries(models.take(0), window7(*today)).am);
        assert(pm.deep_view() =~= project_entries(models.take(0), window7(*today)).pm);
    }
    let mut k: usize = 0;
    while k < entries.len()
        invariant
            0 <= k <= entries@.len(),
            am@.len() == 7,
            pm@.len() == 7,
            am.deep_view() == project_entries(models.take(k as int), window7(*today)).am,
            pm.deep_view() == project_entries(models.take(k as int), window7(*today)).pm,
        decreases entries@.len() - k,
    {
        let e = &entries[k];
        let ghost st = project_entries(models.take(k as int), window7(*today));
        proof {
            assert(models.take(k + 1).drop_last() =~= models.take(k as int));
            assert(models.take(k + 1).last() == models[k as int]);
        }
        match parse_date_text(e.date.as_str()) {
            Option::Some(d) => {
                match find_slot_in(&win, &d) {
                    Option::Some(slot) => {
                        match &e.am {
                            Option::Some(a) => {
                                am[slot] = a.clone();
                            },
                            Option::None => {},
                        }
                        match &e.pm {
                            Option::Some(p) => {
                                pm[slot] = p.clone();
                            },
                            Option::None => {},
                        }
                        proof {
                            assert(am.deep_view() =~= apply_entry(st, models[k as int], window7(*today)).am);
                            assert(pm.deep_view() =~= apply_entry(st, models[k as int], window7(*today)).pm);
                        }
                    },
                    Option::None => {},
                }
            },
            Option::None => {},
        }
        k = k + 1;
    }
    proof {
        assert(models.take(models.len() as int) =~= models);
    }
    (am, pm)
}

} // verus!
