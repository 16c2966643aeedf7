//! A verified ledger for daily balance snapshots.
//!
//! The library turns a history of dated "remaining balance" observations
//! into a derived per-day consumption series, detecting balance top-ups
//! (recharge days), and renders the series as summary statistics, an
//! ASCII trend chart over a bounded recent window, and a full table.

use vstd::prelude::*;

pub mod amount;
pub mod chart;
pub mod date;
pub mod ledger;
pub mod report;
pub mod snapshot;
pub mod stats;
pub mod text;

use crate::ledger::DerivedDayRecord;
use crate::ledger::derive_records;
use crate::ledger::records_wf;
use crate::ledger::spec_derive;
use crate::report::TableColumn;
use crate::report::TrendVisualizer;
use crate::report::render_report;
use crate::report::report_rep;
use crate::snapshot::MalformedHistory;
use crate::snapshot::RawEntry;
use crate::snapshot::entry_err_field;
use crate::snapshot::entry_ok;
use crate::snapshot::parse_history;
use crate::snapshot::store_of;

verus! {

/// Builds the derived day records from a raw history: parses and
/// orders the snapshots, then derives consumption, recharge flags and
/// cumulative totals. Fails on the first malformed entry, succeeds on
/// every history whose entries are all well-formed, and the result is
/// a pure function of the input.
pub fn build_ledger(entries: &Vec<RawEntry>) -> (r: Result<Vec<DerivedDayRecord>, MalformedHistory>)
    ensures
        r is Ok <==> (forall|i: int| 0 <= i < entries@.len() ==> entry_ok(#[trigger] entries@[i])),
        r matches Ok(v) ==> v@ == spec_derive(store_of(entries@)) && records_wf(v@),
        r matches Err(e) ==> exists|i: int|
            {
                &&& 0 <= i < entries@.len()
                &&& !entry_ok(#[trigger] entries@[i])
                &&& forall|p: int| 0 <= p < i ==> entry_ok(#[trigger] entries@[p])
                &&& e.key@ == entries@[i].date@
                &&& e.field == entry_err_field(entries@[i])
            },
{
    match parse_history(entries) {
        Ok(store) => Ok(derive_records(&store)),
        Err(e) => Err(e),
    }
}

/// Builds the whole report from a raw history: the ledger is derived
/// and rendered as statistics, trend section and table in one pass.
pub fn build_report(entries: &Vec<RawEntry>, viz: TrendVisualizer, mode: TableColumn) -> (r: Result<
    String,
    MalformedHistory,
>)
    ensures
        r is Ok <==> (forall|i: int| 0 <= i < entries@.len() ==> entry_ok(#[trigger] entries@[i])),
        r matches Ok(s) ==> s@ == report_rep(spec_derive(store_of(entries@)), viz, mode),
        r matches Err(e) ==> exists|i: int|
            {
                &&& 0 <= i < entries@.len()
                &&& !entry_ok(#[trigger] entries@[i])
                &&& forall|p: int| 0 <= p < i ==> entry_ok(#[trigger] entries@[p])
                &&& e.key@ == entries@[i].date@
                &&& e.field == entry_err_field(entries@[i])
            },
{
    match build_ledger(entries) {
        Ok(records) => Ok(render_report(&records, viz, mode)),
        Err(e) => Err(e),
    }
}

} // verus!
