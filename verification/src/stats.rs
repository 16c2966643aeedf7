//! Summary statistics over the current spending period.
//!
//! Statistics never mix pre- and post-recharge spend: they cover only
//! the window from the most recent recharge day through the latest
//! record (the whole history when no recharge occurred). All figures
//! are integers in cents, so the average and the days-remaining
//! estimate are always defined; both divisions round down, and a zero
//! average yields an estimate of 0 rather than anything unbounded.

use vstd::prelude::*;

use crate::ledger::DerivedDayRecord;
use crate::ledger::records_wf;

verus! {

/// Aggregate figures for the current spending period.
#[derive(Clone, Copy, PartialEq, Eq, Structural, Debug)]
pub struct Statistics {
    pub total_cents: u64,
    pub valid_days: u64,
    pub average_cents: u64,
    pub estimated_days_remaining: u64,
}

/// Start of the spending period that ends at day `i`: the most recent
/// recharge day at or before `i`, or 0 when there is none.
pub open spec fn period_start(rs: Seq<DerivedDayRecord>, i: int) -> int
    decreases i,
{
    if rs[i].is_recharge_day {
        i
    } else if i <= 0 {
        0
    } else {
        period_start(rs, i - 1)
    }
}

/// Sum of daily consumption over records `from <= i < to`.
pub open spec fn window_sum(rs: Seq<DerivedDayRecord>, from: int, to: int) -> int
    decreases to - from,
{
    if from >= to {
        0
    } else {
        window_sum(rs, from, to - 1) + rs[to - 1].daily_cents
    }
}

/// The statistics a derived series denotes: totals over the current
/// spending period, the floored average per counted day, and the
/// floored days the latest balance would last at that average (0 when
/// the average is 0, never an unbounded value).
pub open spec fn spec_stats(rs: Seq<DerivedDayRecord>) -> Statistics {
    if rs.len() == 0 {
        Statistics { total_cents: 0, valid_days: 0, average_cents: 0, estimated_days_remaining: 0 }
    } else {
        let last = rs.len() - 1;
        let p = period_start(rs, last);
        let total = window_sum(rs, p, rs.len() as int);
        let days = rs.len() - p;
        let avg = total / days as int;
        Statistics {
            total_cents: total as u64,
            valid_days: days as u64,
            average_cents: avg as u64,
            estimated_days_remaining: if avg == 0 {
                0
            } else {
                (rs[last].remaining_cents as int / avg) as u64
            },
        }
    }
}

/// In a consistent series the period window's sum is what the last
/// record's cumulative total says: the running total is exactly the
/// consumption accumulated since the period began.
pub proof fn lemma_window_sum_is_cumulative(rs: Seq<DerivedDayRecord>, i: int)
    requires
        records_wf(rs),
        0 <= i < rs.len(),
    ensures
        0 <= period_start(rs, i) <= i,
        window_sum(rs, period_start(rs, i), i + 1) == rs[i].cumulative_cents,
    decreases i,
{
    if rs[i].is_recharge_day {
        assert(window_sum(rs, i, i) == 0);
        assert(window_sum(rs, i, i + 1) == rs[i].daily_cents);
    } else if i == 0 {
        assert(window_sum(rs, 0, 0) == 0);
        assert(window_sum(rs, 0, 1) == rs[0].daily_cents);
    } else {
        lemma_window_sum_is_cumulative(rs, i - 1);
    }
}

/// Computes the statistics of the current spending period.
pub fn compute_stats(records: &Vec<DerivedDayRecord>) -> (r: Statistics)
    requires
        records_wf(records@),
    ensures
        r == spec_stats(records@),
{
    let ghost rs = records@;
    let n = records.len();
    if n == 0 {
        return Statistics {
            total_cents: 0,
            valid_days: 0,
            average_cents: 0,
            estimated_days_remaining: 0,
        };
    }
    let mut p: usize = 0;
    let mut i: usize = 0;
    while i < n
        invariant
            0 <= i <= n,
            n == rs.len(),
            records@ == rs,
            p <= i,
            i > 0 ==> p == period_start(rs, i - 1),
            i == 0 ==> p == 0,
        decreases n - i,
    {
        if records[i].is_recharge_day {
            p = i;
        }
        i = i + 1;
    }
    proof {
        lemma_window_sum_is_cumulative(rs, n - 1);
    }
    let total = records[n - 1].cumulative_cents;
    let days = (n - p) as u64;
    let avg = total / days;
    let est = if avg == 0 {
        0
    } else {
        records[n - 1].remaining_cents / avg
    };
    Statistics {
        total_cents: total,
        valid_days: days,
        average_cents: avg,
        estimated_days_remaining: est,
    }
}

/// A single-record history yields exactly one counted day and a
/// defined average: the lone day's own consumption.
pub proof fn lemma_single_record_stats(rs: Seq<DerivedDayRecord>)
    requires
        records_wf(rs),
        rs.len() == 1,
    ensures
        spec_stats(rs).valid_days == 1,
        spec_stats(rs).total_cents == rs[0].daily_cents,
        spec_stats(rs).average_cents == rs[0].daily_cents,
{
    assert(rs[0].cumulative_cents == rs[0].daily_cents);
    lemma_window_sum_is_cumulative(rs, 0);
    assert(window_sum(rs, 0, 1) == rs[0].daily_cents);
}

} // verus!
