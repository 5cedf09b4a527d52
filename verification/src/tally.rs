//! The tally of classified lines per severity level.
//!
//! The level set is closed and small, so the table is five counters. A level
//! is "in" the table when its counter is positive; the table starts empty and
//! grows by increment-or-insert. The summary view orders levels by descending
//! count; ties are broken by classification priority (`Error` first), a
//! deliberate, documented choice of tie-break.

use vstd::prelude::*;

use crate::level::{rank_of, LogLevelFilter};

verus! {

/// Per-level counts of classified lines over one run.
#[derive(Clone, Copy, Debug, PartialEq, Eq, Structural)]
pub struct TallyTable {
    pub errors: usize,
    pub warns: usize,
    pub infos: usize,
    pub debugs: usize,
    pub traces: usize,
}

/// The order of the summary table: larger counts first, equal counts in
/// classification priority order.
pub open spec fn entry_before(a: (LogLevelFilter, usize), b: (LogLevelFilter, usize)) -> bool {
    a.1 > b.1 || (a.1 == b.1 && rank_of(a.0) < rank_of(b.0))
}

/// Every pair of entries stands in the summary order.
pub open spec fn sorted_entries(s: Seq<(LogLevelFilter, usize)>) -> bool {
    forall|k1: int, k2: int|
        0 <= k1 < k2 < s.len() ==> entry_before(#[trigger] s[k1], #[trigger] s[k2])
}

impl TallyTable {
    /// The count recorded for one level.
    pub open spec fn spec_count(self, level: LogLevelFilter) -> nat {
        match level {
            LogLevelFilter::Error => self.errors as nat,
            LogLevelFilter::Warn => self.warns as nat,
            LogLevelFilter::Info => self.infos as nat,
            LogLevelFilter::Debug => self.debugs as nat,
            LogLevelFilter::Trace => self.traces as nat,
        }
    }

    /// The sum of all five counts.
    pub open spec fn spec_total(self) -> nat {
        (self.errors + self.warns + self.infos + self.debugs + self.traces) as nat
    }

    /// An empty table: every count is zero.
    pub fn new() -> (r: TallyTable)
        ensures
            forall|l: LogLevelFilter| r.spec_count(l) == 0,
            r.spec_total() == 0,
    {
        TallyTable { errors: 0, warns: 0, infos: 0, debugs: 0, traces: 0 }
    }

    /// The count recorded for `level`.
    pub fn count(&self, level: LogLevelFilter) -> (r: usize)
        ensures
            r as nat == self.spec_count(level),
    {
        match level {
            LogLevelFilter::Error => self.errors,
            LogLevelFilter::Warn => self.warns,
            LogLevelFilter::Info => self.infos,
            LogLevelFilter::Debug => self.debugs,
            LogLevelFilter::Trace => self.traces,
        }
    }

    /// Record one more line classified at `level`; the other counts stand.
    pub fn record(&mut self, level: LogLevelFilter)
        requires
            old(self).spec_count(level) < usize::MAX,
        ensures
            final(self).spec_count(level) == old(self).spec_count(level) + 1,
            forall|l: LogLevelFilter|
                l != level ==> final(self).spec_count(l) == old(self).spec_count(l),
            final(self).spec_total() == old(self).spec_total() + 1,
    {
        match level {
            LogLevelFilter::Error => {
                self.errors = self.errors + 1;
            },
            LogLevelFilter::Warn => {
                self.warns = self.warns + 1;
            },
            LogLevelFilter::Info => {
                self.infos = self.infos + 1;
            },
            LogLevelFilter::Debug => {
                self.debugs = self.debugs + 1;
            },
            LogLevelFilter::Trace => {
                self.traces = self.traces + 1;
            },
        }
    }

    /// Whether no line was classified at any level.
    pub fn is_empty(&self) -> (r: bool)
        ensures
            r == (self.spec_total() == 0),
    {
        self.errors == 0 && self.warns == 0 && self.infos == 0 && self.debugs == 0 && self.traces
            == 0
    }

    /// The nonzero entries of the table, largest count first; equal counts
    /// are ordered by classification priority (`Error` before `Warn`, and so
    /// on). Every level with a positive count appears, with its count, and
    /// nothing else appears.
    pub fn sorted_counts(&self) -> (r: Vec<(LogLevelFilter, usize)>)
        ensures
            sorted_entries(r@),
            forall|k: int|
                0 <= k < r@.len() ==> (#[trigger] r@[k]).1 as nat == self.spec_count(r@[k].0)
                    && r@[k].1 > 0,
            forall|l: LogLevelFilter|
                self.spec_count(l) > 0 ==> exists|k: int|
                    0 <= k < r@.len() && (#[trigger] r@[k]).0 == l,
            r@.len() == 0 <==> self.spec_total() == 0,
    {
        let mut r: Vec<(LogLevelFilter, usize)> = Vec::new();
        if self.errors > 0 {
            insert_entry(&mut r, LogLevelFilter::Error, self.errors);
        }
        if self.warns > 0 {
            insert_entry(&mut r, LogLevelFilter::Warn, self.warns);
        }
        if self.infos > 0 {
            insert_entry(&mut r, LogLevelFilter::Info, self.infos);
        }
        if self.debugs > 0 {
            insert_entry(&mut r, LogLevelFilter::Debug, self.debugs);
        }
        if self.traces > 0 {
            insert_entry(&mut r, LogLevelFilter::Trace, self.traces);
        }
        r
    }
}

/// Place `(level, c)` into the sorted entry list `r`, keeping the order. The
/// new level must rank after every level already present, so equal counts
/// settle in priority order.
fn insert_entry(r: &mut Vec<(LogLevelFilter, usize)>, level: LogLevelFilter, c: usize)
    requires
        sorted_entries(old(r)@),
        c > 0,
        forall|k: int|
            0 <= k < old(r)@.len() ==> rank_of((#[trigger] old(r)@[k]).0) < rank_of(level),
    ensures
        final(r)@.len() == old(r)@.len() + 1,
        sorted_entries(final(r)@),
        forall|k: int|
            0 <= k < final(r)@.len() ==> (#[trigger] final(r)@[k]) == (level, c) || old(
                r,
            )@.contains(final(r)@[k]),
        forall|k: int| 0 <= k < old(r)@.len() ==> final(r)@.contains(#[trigger] old(r)@[k]),
        final(r)@.contains((level, c)),
        forall|k: int|
            0 <= k < final(r)@.len() ==> rank_of((#[trigger] final(r)@[k]).0) <= rank_of(level),
{
    let mut idx: usize = 0;
    while idx < r.len() && r[idx].1 >= c
        invariant
            r@ == old(r)@,
            idx <= r@.len(),
            forall|k: int| 0 <= k < idx ==> (#[trigger] r@[k]).1 >= c,
        decreases r@.len() - idx,
    {
        idx += 1;
    }
    proof {
        old(r)@.insert_ensures(idx as int, (level, c));
    }
    let ghost s = old(r)@;
    let ghost pos = idx as int;
    r.insert(idx, (level, c));
    proof {
        let t = r@;
        let e = (level, c);
        assert forall|k1: int, k2: int| 0 <= k1 < k2 < t.len() implies entry_before(
            #[trigger] t[k1],
            #[trigger] t[k2],
        ) by {
            if k2 < pos {
                assert(t[k1] == s[k1] && t[k2] == s[k2]);
            } else if k1 < pos && k2 == pos {
                assert(t[k1] == s[k1] && t[k2] == e);
                assert(s[k1].1 >= c);
            } else if k1 < pos && k2 > pos {
                assert(t[k1] == s[k1] && t[k2] == s[k2 - 1]);
                assert(entry_before(s[k1], s[k2 - 1]));
            } else if k1 == pos {
                assert(t[k1] == e && t[k2] == s[k2 - 1]);
                assert(s[pos].1 < c);
                if k2 - 1 > pos {
                    assert(entry_before(s[pos], s[k2 - 1]));
                }
            } else {
                assert(t[k1] == s[k1 - 1] && t[k2] == s[k2 - 1]);
                assert(entry_before(s[k1 - 1], s[k2 - 1]));
            }
        }
        assert forall|k: int| 0 <= k < t.len() implies (#[trigger] t[k]) == e || s.contains(
            t[k],
        ) by {
            if k < pos {
                assert(t[k] == s[k]);
                assert(s.contains(s[k]));
            } else if k > pos {
                assert(t[k] == s[k - 1]);
                assert(s.contains(s[k - 1]));
            }
        }
        assert forall|k: int| 0 <= k < s.len() implies t.contains(#[trigger] s[k]) by {
            if k < pos {
                assert(t[k] == s[k]);
            } else {
                assert(t[k + 1] == s[k]);
            }
        }
        assert(t[pos] == e);
        assert(t.contains(e));
    }
}

} // verus!
