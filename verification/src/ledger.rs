//! The ledger builder: derives per-day consumption from the snapshots.
//!
//! For each date in the store it infers the amount spent that day from
//! the drop in remaining balance since the previous observation, flags
//! balance increases as recharge (top-up) days, and keeps a cumulative
//! total that resets on every recharge. The derived records are pure
//! functions of the snapshot sequence and are rebuilt in full on every
//! run; nothing incremental survives between runs.

use vstd::prelude::*;

use crate::amount::MAX_CENTS;
use crate::date::Date;
use crate::snapshot::Snapshot;
use crate::snapshot::SnapshotStore;
use crate::snapshot::store_seq_wf;

verus! {

/// The derived figures for one date, recomputed from the snapshots on
/// every run and never persisted.
#[derive(Clone, Copy, PartialEq, Eq, Structural, Debug)]
pub struct DerivedDayRecord {
    pub date: Date,
    pub remaining_cents: u64,
    pub daily_cents: u64,
    pub is_recharge_day: bool,
    pub cumulative_cents: u64,
}

/// Day `i` saw its remaining balance increase over the previous
/// observation: a top-up, by policy never partial spend.
pub open spec fn recharge_at(s: Seq<Snapshot>, i: int) -> bool {
    i > 0 && s[i].remaining_cents > s[i - 1].remaining_cents
}

/// Consumption inferred for day `i`:
/// the first day reports the source's own "used" figure, a recharge day
/// reports 0, and any other day reports the drop in remaining balance
/// since the previous observation (gaps count as "since last
/// observation").
pub open spec fn daily_at(s: Seq<Snapshot>, i: int) -> int {
    if i == 0 {
        s[0].used_cents as int
    } else if recharge_at(s, i) {
        0
    } else {
        s[i - 1].remaining_cents - s[i].remaining_cents
    }
}

/// Running consumption since the most recent recharge: resets to 0 on
/// every recharge day, otherwise accumulates `daily_at`.
pub open spec fn cumulative_at(s: Seq<Snapshot>, i: int) -> int
    decreases i,
{
    if recharge_at(s, i) {
        0
    } else if i <= 0 {
        daily_at(s, 0)
    } else {
        cumulative_at(s, i - 1) + daily_at(s, i)
    }
}

/// The derived record for day `i`.
pub open spec fn record_at(s: Seq<Snapshot>, i: int) -> DerivedDayRecord {
    DerivedDayRecord {
        date: s[i].date,
        remaining_cents: s[i].remaining_cents,
        daily_cents: daily_at(s, i) as u64,
        is_recharge_day: recharge_at(s, i),
        cumulative_cents: cumulative_at(s, i) as u64,
    }
}

/// The full derived series for a snapshot sequence.
pub open spec fn spec_derive(s: Seq<Snapshot>) -> Seq<DerivedDayRecord> {
    Seq::new(s.len(), |i: int| record_at(s, i))
}

/// Daily consumption is non-negative and bounded, and the cumulative
/// total plus the remaining balance never exceeds twice the amount
/// bound: within a spending period their sum is conserved, and a
/// recharge only lowers it.
pub proof fn lemma_cumulative_bound(s: Seq<Snapshot>, i: int)
    requires
        forall|k: int| 0 <= k < s.len() ==> (#[trigger] s[k]).wf(),
        0 <= i < s.len(),
    ensures
        0 <= daily_at(s, i) < MAX_CENTS,
        0 <= cumulative_at(s, i),
        cumulative_at(s, i) + s[i].remaining_cents < 2 * MAX_CENTS,
    decreases i,
{
    assert(s[i].wf());
    if i > 0 {
        assert(s[i - 1].wf());
        lemma_cumulative_bound(s, i - 1);
    }
}

/// Consistency of a derived series, stated over the records alone:
/// the first day is never a recharge day, a recharge day consumes 0 and
/// resets the cumulative total, any other day adds its consumption to
/// the previous total, and all figures stay within bounds.
pub open spec fn records_wf(rs: Seq<DerivedDayRecord>) -> bool {
    forall|i: int|
        0 <= i < rs.len() ==> {
            &&& (#[trigger] rs[i]).date.valid()
            &&& rs[i].daily_cents < MAX_CENTS
            &&& rs[i].cumulative_cents + rs[i].remaining_cents < 2 * MAX_CENTS
            &&& (rs[i].is_recharge_day ==> i > 0 && rs[i].daily_cents == 0)
            &&& rs[i].cumulative_cents == if rs[i].is_recharge_day {
                0
            } else if i == 0 {
                rs[i].daily_cents as int
            } else {
                rs[i - 1].cumulative_cents + rs[i].daily_cents
            }
        }
}

/// A series derived from a well-formed store is consistent.
pub proof fn lemma_spec_derive_wf(s: Seq<Snapshot>)
    requires
        store_seq_wf(s),
    ensures
        records_wf(spec_derive(s)),
{
    let rs = spec_derive(s);
    assert forall|i: int| 0 <= i < rs.len() implies {
        &&& (#[trigger] rs[i]).date.valid()
        &&& rs[i].daily_cents < MAX_CENTS
        &&& rs[i].cumulative_cents + rs[i].remaining_cents < 2 * MAX_CENTS
        &&& (rs[i].is_recharge_day ==> i > 0 && rs[i].daily_cents == 0)
        &&& rs[i].cumulative_cents == if rs[i].is_recharge_day {
            0
        } else if i == 0 {
            rs[i].daily_cents as int
        } else {
            rs[i - 1].cumulative_cents + rs[i].daily_cents
        }
    } by {
        assert(s[i].wf());
        lemma_cumulative_bound(s, i);
        if i > 0 {
            lemma_cumulative_bound(s, i - 1);
        }
    }
}

/// Builds the full derived series from the snapshot store.
///
/// The result is a pure function of the store's contents, so rebuilding
/// from the same snapshots always yields identical records.
pub fn derive_records(store: &SnapshotStore) -> (r: Vec<DerivedDayRecord>)
    requires
        store.wf(),
    ensures
        r@ == spec_derive(store@),
        records_wf(r@),
{
    let ghost s = store@;
    let n = store.len();
    let mut out: Vec<DerivedDayRecord> = Vec::new();
    let mut prev_cum: u64 = 0;
    let mut i: usize = 0;
    while i < n
        invariant
            0 <= i <= n,
            n == s.len(),
            store@ == s,
            store.wf(),
            out@.len() == i,
            forall|j: int| 0 <= j < i ==> out@[j] == record_at(s, j),
            i > 0 ==> prev_cum == cumulative_at(s, i - 1),
        decreases n - i,
    {
        proof {
            lemma_cumulative_bound(s, i as int);
        }
        let snap = store.get(i);
        let rec: DerivedDayRecord;
        if i == 0 {
            rec = DerivedDayRecord {
                date: snap.date,
                remaining_cents: snap.remaining_cents,
                daily_cents: snap.used_cents,
                is_recharge_day: false,
                cumulative_cents: snap.used_cents,
            };
        } else {
            let prev = store.get(i - 1);
            if snap.remaining_cents > prev.remaining_cents {
                rec = DerivedDayRecord {
                    date: snap.date,
                    remaining_cents: snap.remaining_cents,
                    daily_cents: 0,
                    is_recharge_day: true,
                    cumulative_cents: 0,
                };
            } else {
                let daily = prev.remaining_cents - snap.remaining_cents;
                rec = DerivedDayRecord {
                    date: snap.date,
                    remaining_cents: snap.remaining_cents,
                    daily_cents: daily,
                    is_recharge_day: false,
                    cumulative_cents: prev_cum + daily,
                };
            }
        }
        proof {
            assert(rec == record_at(s, i as int));
        }
        prev_cum = rec.cumulative_cents;
        out.push(rec);
        i = i + 1;
    }
    proof {
        assert(out@ =~= spec_derive(s));
        lemma_spec_derive_wf(s);
    }
    out
}

/// Any day whose remaining balance exceeds the previous day's is
/// flagged as a recharge day, its consumption is 0, and the cumulative
/// total resets — unconditionally.
pub proof fn lemma_recharge_day_flagged(s: Seq<Snapshot>, i: int)
    requires
        0 < i < s.len(),
        s[i].remaining_cents > s[i - 1].remaining_cents,
    ensures
        record_at(s, i).is_recharge_day,
        record_at(s, i).daily_cents == 0,
        record_at(s, i).cumulative_cents == 0,
{
}

/// Within a spending period the cumulative total never decreases, and
/// on a recharge day it resets to exactly that day's consumption
/// (which is 0).
pub proof fn lemma_cumulative_monotone_and_reset(s: Seq<Snapshot>, i: int)
    requires
        0 < i < s.len(),
    ensures
        !recharge_at(s, i) ==> cumulative_at(s, i) >= cumulative_at(s, i - 1),
        recharge_at(s, i) ==> cumulative_at(s, i) == daily_at(s, i),
{
}

/// Sum of the daily consumption over days `from <= i < to`.
pub open spec fn daily_sum(s: Seq<Snapshot>, from: int, to: int) -> int
    decreases to - from,
{
    if from >= to {
        0
    } else {
        daily_sum(s, from, to - 1) + daily_at(s, to - 1)
    }
}

/// Conservation across a recharge-free span: the consumption summed
/// over the days after `a` up to `b` equals the total drop in remaining
/// balance from `a` to `b`. With `a` and `b` consecutive recharge days
/// (or the ends of the history) this accounts for a whole spending
/// period.
pub proof fn lemma_period_sum_matches_drop(s: Seq<Snapshot>, a: int, b: int)
    requires
        0 <= a <= b < s.len(),
        forall|j: int| a < j <= b ==> !recharge_at(s, j),
    ensures
        daily_sum(s, a + 1, b + 1) == s[a].remaining_cents - s[b].remaining_cents,
    decreases b - a,
{
    if a < b {
        lemma_period_sum_matches_drop(s, a, b - 1);
        assert(!recharge_at(s, b));
    }
}

/// Rebuilding the derived series from the same snapshot set yields the
/// same records: derivation is a pure function of the snapshots, with
/// no hidden state, as `derive`'s contract also states.
pub proof fn lemma_derive_idempotent(s1: Seq<Snapshot>, s2: Seq<Snapshot>)
    requires
        s1 == s2,
    ensures
        spec_derive(s1) == spec_derive(s2),
{
}

} // verus!
