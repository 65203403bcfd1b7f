use vstd::prelude::*;

use crate::dashboard::ApplicantRow;
use crate::datetime::{
    elapsed_days, parse_datetime, parsed_datetime, read_clock, whole_days, ClockReading,
    CREATED_AT_FORMAT,
};
use crate::state::{FRESH_CODE, OLD_CODE};

verus! {

/// A state code to write for the applicant with the given key.
pub struct StateUpdate {
    pub key: String,
    pub state: i32,
}

/// What one pass of the daily sweep does: the time of the pass, the updates to
/// write, in row order, and the index of the row whose creation time could not
/// be read, where the pass stops (rows after it are not looked at).
/// When the pass was planned from a reading of the clock, that reading is kept
/// beside the time.
pub struct SweepPlan {
    pub now: i64,
    pub clock: Option<ClockReading>,
    pub updates: Vec<StateUpdate>,
    pub unreadable_at: Option<usize>,
}

/// The row's creation time can be read.
pub open spec fn created_readable(row: ApplicantRow) -> bool {
    parsed_datetime(row.created_at@, CREATED_AT_FORMAT@) is Some
}

/// The row's creation time in seconds (meaningful when it can be read).
pub open spec fn created_seconds(row: ApplicantRow) -> int {
    parsed_datetime(row.created_at@, CREATED_AT_FORMAT@).unwrap().0 as int
}

/// A fresh application that is one whole day old at `now` becomes old.
pub open spec fn advances(now: int, row: ApplicantRow) -> bool {
    row.state == 1 && whole_days(now - created_seconds(row)) == 1
}

/// The (key, state) pairs that a sweep at `now` writes for the given rows.
pub open spec fn sweep_updates(now: int, rows: Seq<ApplicantRow>) -> Seq<(Seq<char>, i32)> {
    rows.filter(|r: ApplicantRow| advances(now, r)).map_values(|r: ApplicantRow| (r.key@, 2i32))
}

/// The index of the first row whose creation time cannot be read, or the
/// number of rows when every one can.
pub open spec fn readable_prefix(rows: Seq<ApplicantRow>, f: int) -> bool {
    &&& 0 <= f <= rows.len()
    &&& forall|i: int| 0 <= i < f ==> #[trigger] created_readable(rows[i])
    &&& f < rows.len() ==> !created_readable(rows[f])
}

/// The abstract contents of a list of updates.
pub open spec fn updates_view(updates: Seq<StateUpdate>) -> Seq<(Seq<char>, i32)> {
    updates.map_values(|u: StateUpdate| (u.key@, u.state))
}

/// Whether a fresh application created at `created` is due to become old at `now`.
pub fn should_advance(now: i64, created: i64, state: i32) -> (due: bool)
    ensures
        due == (state == 1 && whole_days(now - created) == 1),
{
    state == FRESH_CODE && elapsed_days(now, created) == 1
}

/// Plans one pass of the daily sweep at time `now` (in seconds) over the
/// applicant rows: every fresh application that is one whole day old becomes
/// old. The pass stops at the first row whose creation time cannot be read.
pub fn plan_state_advances(now: i64, rows: &Vec<ApplicantRow>) -> (plan: SweepPlan)
    ensures
        plan.now == now,
        plan.clock is None,
        match plan.unreadable_at {
            Some(f) => readable_prefix(rows@, f as int) && f < rows@.len()
                && updates_view(plan.updates@) == sweep_updates(now as int, rows@.take(f as int)),
            None => readable_prefix(rows@, rows@.len() as int) && updates_view(plan.updates@)
                == sweep_updates(now as int, rows@),
        },
{
    let mut updates: Vec<StateUpdate> = Vec::new();
    let n = rows.len();
    let mut i: usize = 0;
    while i < n
        invariant
            n == rows@.len(),
            i <= n,
            forall|t: int| 0 <= t < i ==> #[trigger] created_readable(rows@[t]),
            updates_view(updates@) == sweep_updates(now as int, rows@.take(i as int)),
        decreases n - i,
    {
        let row = &rows[i];
        let created = match parse_datetime(row.created_at.as_str(), CREATED_AT_FORMAT) {
            None => {
                return SweepPlan { now, clock: None, updates, unreadable_at: Some(i) };
            },
            Some(p) => p,
        };
        proof {
            lemma_sweep_step(now as int, rows@, i as int);
        }
        if should_advance(now, created.timestamp, row.state) {
            updates.push(StateUpdate { key: row.key.clone(), state: OLD_CODE });
            assert(updates_view(updates@) =~= sweep_updates(now as int, rows@.take(i + 1)));
        }
        i = i + 1;
    }
    assert(rows@.take(n as int) =~= rows@);
    SweepPlan { now, clock: None, updates, unreadable_at: None }
}

/// Plans one pass of the daily sweep at the current local time: the pass runs
/// at the time that the clock gave during the call, which the plan keeps.
pub fn plan_state_advances_now(rows: &Vec<ApplicantRow>) -> (plan: SweepPlan)
    ensures
        plan.clock matches Some(r) && plan.now == r.at(),
        match plan.unreadable_at {
            Some(f) => readable_prefix(rows@, f as int) && f < rows@.len() && updates_view(
                plan.updates@,
            ) == sweep_updates(plan.now as int, rows@.take(f as int)),
            None => readable_prefix(rows@, rows@.len() as int) && updates_view(plan.updates@)
                == sweep_updates(plan.now as int, rows@),
        },
{
    let reading = read_clock();
    let mut plan = plan_state_advances(reading.seconds(), rows);
    plan.clock = Some(reading);
    plan
}

/// One more row extends the sweep by that row's update, if it advances.
proof fn lemma_sweep_step(now: int, rows: Seq<ApplicantRow>, i: int)
    requires
        0 <= i < rows.len(),
    ensures
        sweep_updates(now, rows.take(i + 1)) == if advances(now, rows[i]) {
            sweep_updates(now, rows.take(i)).push((rows[i].key@, 2i32))
        } else {
            sweep_updates(now, rows.take(i))
        },
{
    reveal(Seq::filter);
    let pred = |r: ApplicantRow| advances(now, r);
    let next = rows.take(i + 1);
    assert(next.drop_last() =~= rows.take(i));
    assert(next.last() == rows[i]);
    assert(next.filter(pred) == if pred(rows[i]) {
        rows.take(i).filter(pred).push(rows[i])
    } else {
        rows.take(i).filter(pred)
    });
    if advances(now, rows[i]) {
        assert(sweep_updates(now, next) =~= sweep_updates(now, rows.take(i)).push(
            (rows[i].key@, 2i32),
        ));
    }
}

/// Filtering a sequence none of whose items passes leaves nothing.
proof fn lemma_filter_none(s: Seq<ApplicantRow>, pred: spec_fn(ApplicantRow) -> bool)
    requires
        forall|i: int| 0 <= i < s.len() ==> !pred(#[trigger] s[i]),
    ensures
        s.filter(pred).len() == 0,
    decreases s.len(),
{
    reveal(Seq::filter);
    if s.len() > 0 {
        let p = s.drop_last();
        assert forall|i: int| 0 <= i < p.len() implies !pred(#[trigger] p[i]) by {
            assert(p[i] == s[i]);
        }
        lemma_filter_none(p, pred);
        assert(!pred(s[s.len() - 1]));
    }
}

/// Writing updates keeps the number of rows.
proof fn lemma_apply_updates_len(rows: Seq<ApplicantRow>, updates: Seq<(Seq<char>, i32)>)
    ensures
        apply_updates(rows, updates).len() == rows.len(),
    decreases updates.len(),
{
    if updates.len() > 0 {
        lemma_apply_updates_len(rows, updates.drop_last());
    }
}

/// The rows after writing a list of updates: a row whose key some update names
/// takes the state of the last such update.
pub open spec fn apply_updates(rows: Seq<ApplicantRow>, updates: Seq<(Seq<char>, i32)>) -> Seq<
    ApplicantRow,
>
    decreases updates.len(),
{
    if updates.len() == 0 {
        rows
    } else {
        let u = updates.last();
        apply_updates(rows, updates.drop_last()).map_values(
            |r: ApplicantRow|
                if r.key@ == u.0 {
                    ApplicantRow { state: u.1, ..r }
                } else {
                    r
                },
        )
    }
}

/// Writing updates keeps each row's key and creation time, and a row whose key
/// is named by an update ends in the state that the last such update writes.
proof fn lemma_apply_updates(rows: Seq<ApplicantRow>, updates: Seq<(Seq<char>, i32)>, i: int)
    requires
        0 <= i < rows.len(),
    ensures
        apply_updates(rows, updates).len() == rows.len(),
        apply_updates(rows, updates)[i].key == rows[i].key,
        apply_updates(rows, updates)[i].created_at == rows[i].created_at,
        apply_updates(rows, updates)[i].value == rows[i].value,
        (exists|j: int| 0 <= j < updates.len() && (#[trigger] updates[j]).0 == rows[i].key@) ==> (
        exists|j: int|
            0 <= j < updates.len() && (#[trigger] updates[j]).0 == rows[i].key@
                && apply_updates(rows, updates)[i].state == updates[j].1),
        !(exists|j: int| 0 <= j < updates.len() && (#[trigger] updates[j]).0 == rows[i].key@)
            ==> apply_updates(rows, updates)[i] == rows[i],
    decreases updates.len(),
{
    if updates.len() > 0 {
        let p = updates.drop_last();
        lemma_apply_updates(rows, p, i);
        let u = updates.last();
        if rows[i].key@ == u.0 {
            assert(updates[updates.len() - 1] == u);
        } else {
            if exists|j: int| 0 <= j < updates.len() && (#[trigger] updates[j]).0 == rows[i].key@ {
                let j = choose|j: int|
                    0 <= j < updates.len() && (#[trigger] updates[j]).0 == rows[i].key@;
                assert(p[j] == updates[j]);
            }
            if exists|j: int| 0 <= j < p.len() && (#[trigger] p[j]).0 == rows[i].key@ {
                let j = choose|j: int|
                    0 <= j < p.len() && (#[trigger] p[j]).0 == rows[i].key@ && apply_updates(
                        rows,
                        p,
                    )[i].state == p[j].1;
                assert(p[j] == updates[j]);
            }
        }
    }
}

/// Every update that a sweep plans writes the old state.
proof fn lemma_sweep_updates_old(now: int, rows: Seq<ApplicantRow>, j: int)
    requires
        0 <= j < sweep_updates(now, rows).len(),
    ensures
        sweep_updates(now, rows)[j].1 == 2,
{
}

/// The sweep is idempotent: once the updates that a sweep at `now` plans are
/// written, a second sweep at the same moment over the rows finds nothing to do.
pub proof fn lemma_sweep_idempotent(now: int, rows: Seq<ApplicantRow>)
    ensures
        sweep_updates(now, apply_updates(rows, sweep_updates(now, rows))).len() == 0,
{
    let ups = sweep_updates(now, rows);
    let after = apply_updates(rows, ups);
    let pred = |r: ApplicantRow| advances(now, r);
    lemma_apply_updates_len(rows, ups);
    assert forall|i: int| 0 <= i < after.len() implies !pred(#[trigger] after[i]) by {
        lemma_apply_updates(rows, ups, i);
        if exists|j: int| 0 <= j < ups.len() && (#[trigger] ups[j]).0 == rows[i].key@ {
            let j = choose|j: int|
                0 <= j < ups.len() && (#[trigger] ups[j]).0 == rows[i].key@ && after[i].state
                    == ups[j].1;
            lemma_sweep_updates_old(now, rows, j);
        } else {
            if pred(rows[i]) {
                broadcast use vstd::seq_lib::group_filter_ensures;

                let f = rows.filter(pred);
                assert(f.contains(rows[i]));
                let k = choose|k: int| 0 <= k < f.len() && f[k] == rows[i];
                assert(ups[k].0 == rows[i].key@);
            }
        }
    }
    lemma_filter_none(after, pred);
}

/// No two rows share a key (the key is the table's primary key).
pub open spec fn row_keys_distinct(rows: Seq<ApplicantRow>) -> bool {
    forall|i: int, j: int|
        0 <= i < j < rows.len() ==> (#[trigger] rows[i]).key@ != (#[trigger] rows[j]).key@
}

/// The rows after one pass of the sweep at `now` has written its updates.
pub open spec fn sweep_pass(now: int, rows: Seq<ApplicantRow>) -> Seq<ApplicantRow> {
    apply_updates(rows, sweep_updates(now, rows))
}

/// The rows after passes of the sweep at the given times, in order.
pub open spec fn sweep_passes(times: Seq<int>, rows: Seq<ApplicantRow>) -> Seq<ApplicantRow>
    decreases times.len(),
{
    if times.len() == 0 {
        rows
    } else {
        sweep_pass(times.last(), sweep_passes(times.drop_last(), rows))
    }
}

/// Every item a filter keeps comes from the filtered sequence.
proof fn lemma_filter_from_source(s: Seq<ApplicantRow>, pred: spec_fn(ApplicantRow) -> bool, j: int)
    requires
        0 <= j < s.filter(pred).len(),
    ensures
        exists|k: int| 0 <= k < s.len() && s[k] == s.filter(pred)[j],
    decreases s.len(),
{
    reveal(Seq::filter);
    let p = s.drop_last();
    if j < p.filter(pred).len() {
        lemma_filter_from_source(p, pred, j);
        let k = choose|k: int| 0 <= k < p.len() && p[k] == p.filter(pred)[j];
        assert(s[k] == p[k]);
    } else {
        assert(s[s.len() - 1] == s.filter(pred)[j]);
    }
}

/// One pass of the sweep over rows with distinct keys adds and removes no
/// row, keeps every key, address and creation time, and changes a state only
/// from fresh (1) to old (2).
pub proof fn lemma_sweep_pass_row(now: int, rows: Seq<ApplicantRow>, i: int)
    requires
        row_keys_distinct(rows),
        0 <= i < rows.len(),
    ensures
        sweep_pass(now, rows).len() == rows.len(),
        sweep_pass(now, rows)[i].key == rows[i].key,
        sweep_pass(now, rows)[i].value == rows[i].value,
        sweep_pass(now, rows)[i].created_at == rows[i].created_at,
        sweep_pass(now, rows)[i].state == rows[i].state || (rows[i].state == 1 && sweep_pass(
            now,
            rows,
        )[i].state == 2),
{
    let ups = sweep_updates(now, rows);
    lemma_apply_updates_len(rows, ups);
    lemma_apply_updates(rows, ups, i);
    if exists|j: int| 0 <= j < ups.len() && (#[trigger] ups[j]).0 == rows[i].key@ {
        let j = choose|j: int|
            0 <= j < ups.len() && (#[trigger] ups[j]).0 == rows[i].key@ && sweep_pass(now, rows)[i].state
                == ups[j].1;
        let pred = |r: ApplicantRow| advances(now, r);
        let f = rows.filter(pred);
        assert(ups[j] == (f[j].key@, 2i32));
        lemma_filter_from_source(rows, pred, j);
        let k = choose|k: int| 0 <= k < rows.len() && rows[k] == f[j];
        broadcast use vstd::seq_lib::group_filter_ensures;

        assert(pred(f[j]));
        if k != i {
            if k < i {
                assert(rows[k].key@ != rows[i].key@);
            } else {
                assert(rows[i].key@ != rows[k].key@);
            }
        }
    }
}

/// However many passes of the sweep run, over rows with distinct keys, no row
/// is added or removed, keys, addresses and creation times never change, and a
/// row's state either stays as it was or went from fresh (1) to old (2).
pub proof fn lemma_sweep_passes_rows(times: Seq<int>, rows: Seq<ApplicantRow>, i: int)
    requires
        row_keys_distinct(rows),
        0 <= i < rows.len(),
    ensures
        sweep_passes(times, rows).len() == rows.len(),
        row_keys_distinct(sweep_passes(times, rows)),
        sweep_passes(times, rows)[i].key == rows[i].key,
        sweep_passes(times, rows)[i].value == rows[i].value,
        sweep_passes(times, rows)[i].created_at == rows[i].created_at,
        sweep_passes(times, rows)[i].state == rows[i].state || (rows[i].state == 1
            && sweep_passes(times, rows)[i].state == 2),
    decreases times.len(),
{
    if times.len() > 0 {
        let before = sweep_passes(times.drop_last(), rows);
        lemma_sweep_passes_rows(times.drop_last(), rows, i);
        lemma_sweep_pass_row(times.last(), before, i);
        let after = sweep_pass(times.last(), before);
        assert forall|a: int, b: int| 0 <= a < b < after.len() implies (#[trigger] after[a]).key@
            != (#[trigger] after[b]).key@ by {
            lemma_sweep_pass_row(times.last(), before, a);
            lemma_sweep_pass_row(times.last(), before, b);
        }
    }
}

/// Daily passes catch every fresh application exactly once: for a fresh row
/// whose creation time can be read, when the first pass comes before the row
/// is two whole days old, exactly one of the passes at `first`,
/// `first + 86400`, `first + 2 * 86400`, ... finds it due to become old.
pub proof fn lemma_daily_passes_catch_once(row: ApplicantRow, first: int)
    requires
        row.state == 1,
        created_readable(row),
        first - created_seconds(row) < 172800,
    ensures
        exists|k: int| k >= 0 && #[trigger] advances(first + 86400 * k, row),
        forall|k1: int, k2: int|
            k1 >= 0 && k2 >= 0 && #[trigger] advances(first + 86400 * k1, row) && #[trigger] advances(
                first + 86400 * k2,
                row,
            ) ==> k1 == k2,
{
    let c = created_seconds(row);
    let d = first - c;
    let n = 172799 - d;
    let q = n / 86400;
    assert(d + 86400 * q >= 86400 && d + 86400 * q < 172800);
    assert(whole_days(first + 86400 * q - c) == 1);
    assert(advances(first + 86400 * q, row));
    assert forall|k1: int, k2: int|
        k1 >= 0 && k2 >= 0 && #[trigger] advances(first + 86400 * k1, row) && #[trigger] advances(
            first + 86400 * k2,
            row,
        ) implies k1 == k2 by {
        let x1 = first + 86400 * k1 - c;
        let x2 = first + 86400 * k2 - c;
        assert(86400 <= x1 < 172800);
        assert(86400 <= x2 < 172800);
    }
}

/// A row is due at `now` exactly when it is fresh and at least one and less
/// than two whole days (86400 to 172799 seconds) have passed since it was
/// created; in particular a row younger than a day stays fresh.
pub proof fn lemma_advance_window(now: int, row: ApplicantRow)
    ensures
        advances(now, row) <==> row.state == 1 && 86400 <= now - created_seconds(row) < 172800,
{
}

} // verus!
