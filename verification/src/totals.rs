//! The running-distance accumulator: three counters, in milli-units, for the
//! current week, month and year. Every mutation is exact; a caller persists
//! the store after each one.

use vstd::prelude::*;
use crate::num::{parse_milli, parse_milli_text, TOTAL_CAP_MILLI};

verus! {

/// Why a totals mutation was refused.
#[derive(Clone, Copy, Debug, PartialEq, Eq, Structural)]
pub enum TotalsError {
    /// The text was not a decimal quantity.
    NotNumeric,
    /// The new totals would leave the library's range.
    OutOfRange,
}

/// The three cumulative distance counters, in milli-units.
#[derive(Clone, Copy, Debug, PartialEq, Eq, Structural)]
pub struct Totals {
    pub week: i64,
    pub month: i64,
    pub year: i64,
}

/// A counter value the library accepts.
pub open spec fn in_cap(v: int) -> bool {
    -TOTAL_CAP_MILLI <= v <= TOTAL_CAP_MILLI
}

/// Zeroes the week counter only.
pub open spec fn spec_reset_week(t: Totals) -> Totals {
    Totals { week: 0, month: t.month, year: t.year }
}

/// Adds one quantity to all three counters at once.
pub open spec fn spec_add(t: Totals, x: int) -> Totals
    recommends
        in_cap(t.week + x),
        in_cap(t.month + x),
        in_cap(t.year + x),
{
    Totals {
        week: (t.week + x) as i64,
        month: (t.month + x) as i64,
        year: (t.year + x) as i64,
    }
}

impl Totals {
    /// All three counters lie within the library's range.
    pub open spec fn wf(self) -> bool {
        in_cap(self.week as int) && in_cap(self.month as int) && in_cap(self.year as int)
    }

    /// The empty accumulator.
    pub fn new() -> (r: Totals)
        ensures
            r == (Totals { week: 0i64, month: 0i64, year: 0i64 }),
            r.wf(),
    {
        Totals { week: 0, month: 0, year: 0 }
    }

    /// Increments week, month and year by the same quantity.
    pub fn add(&mut self, delta: i64)
        requires
            old(self).wf(),
            in_cap(old(self).week + delta),
            in_cap(old(self).month + delta),
            in_cap(old(self).year + delta),
        ensures
            *final(self) == spec_add(*old(self), delta as int),
            final(self).wf(),
    {
        self.week = self.week + delta;
        self.month = self.month + delta;
        self.year = self.year + delta;
    }

    /// Sets the week counter to zero, leaving month and year untouched.
    pub fn reset_week(&mut self)
        requires
            old(self).wf(),
        ensures
            *final(self) == spec_reset_week(*old(self)),
            final(self).wf(),
    {
        self.week = 0;
    }

    /// Parses the text as a decimal quantity and adds it to all three
    /// counters; on any failure the counters are left untouched, and the
    /// error says whether the text did not parse or the sum left the range.
    pub fn parse_and_add(&mut self, raw: &str) -> (r: Result<(), TotalsError>)
        requires
            old(self).wf(),
        ensures
            final(self).wf(),
            match parse_milli(raw@) {
                Option::None => r == Err::<(), TotalsError>(TotalsError::NotNumeric) && *final(self)
                    == *old(self),
                Option::Some(v) => {
                    if in_cap(old(self).week + v) && in_cap(old(self).month + v) && in_cap(
                        old(self).year + v,
                    ) {
                        r == Ok::<(), TotalsError>(()) && *final(self) == spec_add(*old(self), v)
                    } else {
                        r == Err::<(), TotalsError>(TotalsError::OutOfRange) && *final(self)
                            == *old(self)
                    }
                },
            },
    {
        match parse_milli_text(raw) {
            Option::None => Err(TotalsError::NotNumeric),
            Option::Some(v) => {
                if self.week <= TOTAL_CAP_MILLI - v && -TOTAL_CAP_MILLI - v <= self.week
                    && self.month <= TOTAL_CAP_MILLI - v && -TOTAL_CAP_MILLI - v <= self.month
                    && self.year <= TOTAL_CAP_MILLI - v && -TOTAL_CAP_MILLI - v <= self.year {
                    self.add(v);
                    Ok(())
                } else {
                    Err(TotalsError::OutOfRange)
                }
            },
        }
    }
}

/// Resetting the week and then adding a quantity yields exactly that
/// quantity for the week, while month and year each grow by it: the week is
/// zeroed independently, and the other two scopes are not.
pub proof fn lemma_reset_week_then_add(t: Totals, x: int)
    requires
        t.wf(),
        in_cap(x),
        in_cap(t.month + x),
        in_cap(t.year + x),
    ensures
        spec_add(spec_reset_week(t), x) == (Totals {
            week: x as i64,
            month: (t.month + x) as i64,
            year: (t.year + x) as i64,
        }),
{
}

} // verus!
