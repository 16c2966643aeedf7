//! Dated balance snapshots and the snapshot store.
//!
//! The store is the durable state of the system: at most one snapshot
//! per calendar date, held in ascending date order. A later fetch on a
//! date already present overwrites the earlier one.

use vstd::prelude::*;

use crate::amount::MAX_CENTS;
use crate::amount::amount_cents;
use crate::amount::is_amount_str;
use crate::amount::parse_amount;
use crate::date::Date;
use crate::date::date_of_str;
use crate::date::is_date_str;
use crate::date::parse_date;

verus! {

/// One dated observation of the account.
///
/// `used_cents` is the figure the remote source reported as "used". Its
/// bookkeeping varies by source, so the library treats it as advisory:
/// it only ever enters the derivation as the first day's consumption,
/// when there is no earlier snapshot to diff against.
#[derive(Debug)]
pub struct Snapshot {
    pub date: Date,
    pub remaining_cents: u64,
    pub used_cents: u64,
    pub fetched_at: Option<String>,
}

impl Snapshot {
    /// A valid date and amounts within the range the grammar admits.
    pub open spec fn wf(self) -> bool {
        &&& self.date.valid()
        &&& self.remaining_cents < MAX_CENTS
        &&& self.used_cents < MAX_CENTS
    }
}

/// One entry of the store as read from disk, before interpretation:
/// the date key and the raw field strings.
pub struct RawEntry {
    pub date: String,
    pub remaining_amount: Option<String>,
    pub used_amount: Option<String>,
    pub fetched_at: Option<String>,
}

/// Which part of a history entry could not be read.
#[derive(Clone, Copy, PartialEq, Eq, Structural, Debug)]
pub enum HistoryField {
    DateKey,
    RemainingAmount,
    UsedAmount,
}

/// A history entry that cannot be interpreted: an unparseable date key
/// or a present but non-numeric amount field. Fatal for the whole
/// build; carries the offending key and field.
#[derive(Debug)]
pub struct MalformedHistory {
    pub key: String,
    pub field: HistoryField,
}

/// The date key parses and denotes a real calendar date.
pub open spec fn date_ok(e: RawEntry) -> bool {
    is_date_str(e.date@) && date_of_str(e.date@).valid()
}

/// An amount field is well-formed when absent (it then defaults to 0)
/// or when it parses under the amount grammar.
pub open spec fn amount_opt_ok(o: Option<String>) -> bool {
    match o {
        Option::None => true,
        Option::Some(s) => is_amount_str(s@),
    }
}

/// The cents an amount field denotes; an absent field counts as 0.
pub open spec fn amount_opt_cents(o: Option<String>) -> int {
    match o {
        Option::None => 0,
        Option::Some(s) => amount_cents(s@),
    }
}

/// The whole entry can be interpreted.
pub open spec fn entry_ok(e: RawEntry) -> bool {
    date_ok(e) && amount_opt_ok(e.remaining_amount) && amount_opt_ok(e.used_amount)
}

/// The first field of `e` that fails, for error reporting.
pub open spec fn entry_err_field(e: RawEntry) -> HistoryField {
    if !date_ok(e) {
        HistoryField::DateKey
    } else if !amount_opt_ok(e.remaining_amount) {
        HistoryField::RemainingAmount
    } else {
        HistoryField::UsedAmount
    }
}

/// The snapshot a well-formed entry denotes.
pub open spec fn snapshot_of(e: RawEntry) -> Snapshot {
    Snapshot {
        date: date_of_str(e.date@),
        remaining_cents: amount_opt_cents(e.remaining_amount) as u64,
        used_cents: amount_opt_cents(e.used_amount) as u64,
        fetched_at: e.fetched_at,
    }
}

/// Strictly ascending calendar order: dates are unique keys.
pub open spec fn sorted_strict(s: Seq<Snapshot>) -> bool {
    forall|i: int, j: int|
        #![trigger s[i], s[j]]
        0 <= i < j < s.len() ==> s[i].date.key() < s[j].date.key()
}

/// Every snapshot well-formed, in strictly ascending date order.
pub open spec fn store_seq_wf(s: Seq<Snapshot>) -> bool {
    &&& forall|i: int| 0 <= i < s.len() ==> (#[trigger] s[i]).wf()
    &&& sorted_strict(s)
}

/// Where a snapshot with key `key` belongs in the ordered sequence:
/// the number of entries with strictly smaller keys.
pub open spec fn insert_pos(s: Seq<Snapshot>, key: int) -> int
    decreases s.len(),
{
    if s.len() == 0 {
        0
    } else if s[0].date.key() < key {
        1 + insert_pos(s.drop_first(), key)
    } else {
        0
    }
}

/// The sequence after an idempotent upsert keyed by date: replaces the
/// snapshot of the same date if present, else inserts in order.
pub open spec fn upsert_seq(s: Seq<Snapshot>, snap: Snapshot) -> Seq<Snapshot> {
    let p = insert_pos(s, snap.date.key());
    if p < s.len() && s[p].date.key() == snap.date.key() {
        s.update(p, snap)
    } else {
        s.insert(p, snap)
    }
}

proof fn lemma_insert_pos_is(s: Seq<Snapshot>, key: int, i: int)
    requires
        0 <= i <= s.len(),
        forall|p: int| 0 <= p < i ==> (#[trigger] s[p]).date.key() < key,
        i < s.len() ==> s[i].date.key() >= key,
    ensures
        insert_pos(s, key) == i,
    decreases s.len(),
{
    if s.len() > 0 {
        if i == 0 {
        } else {
            assert(s[0].date.key() < key);
            let t = s.drop_first();
            assert(forall|p: int| 0 <= p < i - 1 ==> (#[trigger] t[p]).date.key() < key) by {
                assert(forall|p: int| 0 <= p < i - 1 ==> t[p] == s[p + 1]);
            }
            lemma_insert_pos_is(t, key, i - 1);
        }
    }
}

/// The ordered store a raw history denotes: each entry upserted in
/// input order, so a later entry for the same date overwrites an
/// earlier one.
pub open spec fn store_of(es: Seq<RawEntry>) -> Seq<Snapshot>
    decreases es.len(),
{
    if es.len() == 0 {
        Seq::empty()
    } else {
        upsert_seq(store_of(es.drop_last()), snapshot_of(es.last()))
    }
}

/// The snapshot store: the full history, ordered by date.
#[derive(Debug)]
pub struct SnapshotStore {
    pub entries: Vec<Snapshot>,
}

impl View for SnapshotStore {
    type V = Seq<Snapshot>;

    open spec fn view(&self) -> Seq<Snapshot> {
        self.entries@
    }
}

impl SnapshotStore {
    /// All entries well-formed and in strictly ascending date order.
    pub open spec fn wf(&self) -> bool {
        store_seq_wf(self@)
    }

    /// The empty store: an absent history file denotes no snapshots.
    pub fn new() -> (s: Self)
        ensures
            s@ == Seq::<Snapshot>::empty(),
            s.wf(),
    {
        SnapshotStore { entries: Vec::new() }
    }

    /// Number of snapshots held.
    pub fn len(&self) -> (n: usize)
        ensures
            n == self@.len(),
    {
        self.entries.len()
    }

    /// Inserts or overwrites the snapshot for `snap.date`.
    pub fn upsert(&mut self, snap: Snapshot)
        requires
            old(self).wf(),
            snap.wf(),
        ensures
            final(self).wf(),
            final(self)@ == upsert_seq(old(self)@, snap),
    {
        let ghost s0 = self.entries@;
        let n = self.entries.len();
        let mut i: usize = 0;
        while i < n && self.entries[i].date.lt(&snap.date)
            invariant
                0 <= i <= n,
                n == self.entries@.len(),
                self.entries@ == s0,
                store_seq_wf(s0),
                snap.wf(),
                forall|p: int| 0 <= p < i ==> (#[trigger] s0[p]).date.key() < snap.date.key(),
            decreases n - i,
        {
            i = i + 1;
        }
        proof {
            lemma_insert_pos_is(s0, snap.date.key(), i as int);
        }
        if i < n && self.entries[i].date.same(&snap.date) {
            self.entries.remove(i);
            self.entries.insert(i, snap);
            proof {
                assert(self.entries@ =~= s0.update(i as int, snap));
                assert(store_seq_wf(self.entries@)) by {
                    let t = self.entries@;
                    assert(forall|x: int|
                        0 <= x < t.len() ==> (#[trigger] t[x]).date.key() == s0[x].date.key());
                }
            }
        } else {
            self.entries.insert(i, snap);
            proof {
                s0.insert_ensures(i as int, snap);
                let t = self.entries@;
                assert(t == s0.insert(i as int, snap));
                assert forall|a: int, b: int|
                    #![trigger t[a], t[b]]
                    0 <= a < b < t.len() implies t[a].date.key() < t[b].date.key() by {
                    if a < i && b < i {
                        assert(t[a] == s0[a] && t[b] == s0[b]);
                    } else if a < i && b == i {
                        assert(t[a] == s0[a] && t[b] == snap);
                    } else if a < i && b > i {
                        assert(t[a] == s0[a] && t[b] == s0[b - 1]);
                        assert(s0[a].date.key() < s0[b - 1].date.key());
                    } else if a == i && b > i {
                        assert(t[a] == snap && t[b] == s0[b - 1]);
                        assert(snap.date.key() <= s0[i as int].date.key() || i == s0.len());
                        if b - 1 > i {
                            assert(s0[i as int].date.key() < s0[b - 1].date.key());
                        }
                    } else {
                        assert(t[a] == s0[a - 1] && t[b] == s0[b - 1]);
                    }
                }
                assert(forall|x: int| 0 <= x < t.len() ==> (#[trigger] t[x]).wf());
            }
        }
    }

    /// The snapshot at position `i` in date order.
    pub fn get(&self, i: usize) -> (r: &Snapshot)
        requires
            i < self@.len(),
        ensures
            *r == self@[i as int],
    {
        &self.entries[i]
    }
}

/// Reads an optional amount field: absent defaults to 0 cents,
/// a present but non-numeric field is rejected.
fn resolve_amount(o: &Option<String>) -> (r: Option<u64>)
    ensures
        r is Some <==> amount_opt_ok(*o),
        r matches Some(c) ==> c == amount_opt_cents(*o) && c < MAX_CENTS,
{
    match o {
        Option::None => Some(0),
        Option::Some(s) => parse_amount(s.as_str()),
    }
}

/// Builds the ordered snapshot store from a raw history, in input
/// order, upserting entry by entry.
///
/// Fails with [`MalformedHistory`] on the first entry (in input order)
/// whose date does not parse or whose present amount field is not
/// numeric; an absent amount field defaults to 0.
pub fn parse_history(entries: &Vec<RawEntry>) -> (r: Result<SnapshotStore, MalformedHistory>)
    ensures
        r is Ok <==> (forall|i: int| 0 <= i < entries@.len() ==> entry_ok(#[trigger] entries@[i])),
        r matches Ok(store) ==> store.wf() && store@ == store_of(entries@),
        r matches Err(e) ==> exists|i: int|
            {
                &&& 0 <= i < entries@.len()
                &&& !entry_ok(#[trigger] entries@[i])
                &&& forall|p: int| 0 <= p < i ==> entry_ok(#[trigger] entries@[p])
                &&& e.key@ == entries@[i].date@
                &&& e.field == entry_err_field(entries@[i])
            },
{
    let n = entries.len();
    let mut store = SnapshotStore::new();
    let mut i: usize = 0;
    while i < n
        invariant
            0 <= i <= n,
            n == entries@.len(),
            store.wf(),
            store@ == store_of(entries@.subrange(0, i as int)),
            forall|p: int| 0 <= p < i ==> entry_ok(#[trigger] entries@[p]),
        decreases n - i,
    {
        let e = &entries[i];
        let parsed = parse_date(e.date.as_str());
        let date = match parsed {
            Option::Some(d) => d,
            Option::None => {
                return Err(MalformedHistory { key: e.date.clone(), field: HistoryField::DateKey });
            },
        };
        let remaining = match resolve_amount(&e.remaining_amount) {
            Option::Some(c) => c,
            Option::None => {
                return Err(
                    MalformedHistory { key: e.date.clone(), field: HistoryField::RemainingAmount },
                );
            },
        };
        let used = match resolve_amount(&e.used_amount) {
            Option::Some(c) => c,
            Option::None => {
                return Err(
                    MalformedHistory { key: e.date.clone(), field: HistoryField::UsedAmount },
                );
            },
        };
        let fetched_at = match &e.fetched_at {
            Option::Some(s) => Some(s.clone()),
            Option::None => None,
        };
        let snap = Snapshot { date, remaining_cents: remaining, used_cents: used, fetched_at };
        proof {
            assert(snap == snapshot_of(entries@[i as int]));
        }
        store.upsert(snap);
        proof {
            let pre = entries@.subrange(0, i as int);
            let cur = entries@.subrange(0, i + 1);
            assert(cur.drop_last() =~= pre);
            assert(cur.last() == entries@[i as int]);
        }
        i = i + 1;
    }
    proof {
        assert(entries@.subrange(0, n as int) =~= entries@);
    }
    Ok(store)
}

} // verus!
