use vstd::prelude::*;

use crate::datetime::{parse_datetime, parsed_datetime, CREATED_AT_FORMAT};
use crate::state::{state_label, state_of_code, State};
use crate::templates::AdminDashboardTemplate;

verus! {

/// One applicant as the database holds it: the token, the e-mail address, the
/// state code and the creation time as text.
pub struct ApplicantRow {
    pub key: String,
    pub value: String,
    pub state: i32,
    pub created_at: String,
}

/// The dashboard line of an applicant.
pub open spec fn applicant_line(key: Seq<char>, value: Seq<char>, st: State, created: Seq<char>) -> Seq<
    char,
> {
    key + ",  "@ + value + "  state: "@ + state_label(st) + ",  created at: "@ + created
}

/// The dashboard line of a row, or nothing when its creation time cannot be read.
pub open spec fn row_line(row: ApplicantRow) -> Option<Seq<char>> {
    match parsed_datetime(row.created_at@, CREATED_AT_FORMAT@) {
        Some(p) => Some(applicant_line(row.key@, row.value@, state_of_code(row.state as int), p.1)),
        None => None,
    }
}

/// Every row's creation time can be read.
pub open spec fn all_rows_render(rows: Seq<ApplicantRow>) -> bool {
    forall|i: int| 0 <= i < rows.len() ==> (#[trigger] row_line(rows[i])) is Some
}

/// The (key, line) pair of each row, in order.
pub open spec fn row_pairs(rows: Seq<ApplicantRow>) -> Seq<(Seq<char>, Seq<char>)> {
    rows.map_values(|r: ApplicantRow| (r.key@, row_line(r).unwrap()))
}

/// Some entry has key `k`.
pub open spec fn has_key(entries: Seq<(Seq<char>, Seq<char>)>, k: Seq<char>) -> bool {
    exists|i: int| 0 <= i < entries.len() && (#[trigger] entries[i]).0 == k
}

/// No two entries share a key.
pub open spec fn keys_distinct(entries: Seq<(Seq<char>, Seq<char>)>) -> bool {
    forall|i: int, j: int|
        0 <= i < j < entries.len() ==> (#[trigger] entries[i]).0 != (#[trigger] entries[j]).0
}

/// Stores `v` under `k`: an entry with that key takes the new value in its
/// place, else a new entry is added at the end.
pub open spec fn upsert(entries: Seq<(Seq<char>, Seq<char>)>, k: Seq<char>, v: Seq<char>) -> Seq<
    (Seq<char>, Seq<char>),
> {
    if has_key(entries, k) {
        entries.update(choose|i: int| 0 <= i < entries.len() && (#[trigger] entries[i]).0 == k, (k, v))
    } else {
        entries.push((k, v))
    }
}

/// The entries after storing each pair in turn.
pub open spec fn collect_entries(pairs: Seq<(Seq<char>, Seq<char>)>) -> Seq<(Seq<char>, Seq<char>)>
    decreases pairs.len(),
{
    if pairs.len() == 0 {
        Seq::empty()
    } else {
        upsert(collect_entries(pairs.drop_last()), pairs.last().0, pairs.last().1)
    }
}

/// The map that inserting each pair in turn builds: a later pair with the same
/// key replaces the earlier one.
pub open spec fn insert_all(pairs: Seq<(Seq<char>, Seq<char>)>) -> Map<Seq<char>, Seq<char>>
    decreases pairs.len(),
{
    if pairs.len() == 0 {
        Map::empty()
    } else {
        insert_all(pairs.drop_last()).insert(pairs.last().0, pairs.last().1)
    }
}

/// The lines that the dashboard lists for a set of rows.
pub open spec fn dashboard_lines(rows: Seq<ApplicantRow>) -> Seq<Seq<char>> {
    collect_entries(row_pairs(rows)).map_values(|e: (Seq<char>, Seq<char>)| e.1)
}

/// The abstract contents of a vector of (key, line) strings.
pub open spec fn entries_view(entries: Seq<(String, String)>) -> Seq<(Seq<char>, Seq<char>)> {
    entries.map_values(|e: (String, String)| (e.0@, e.1@))
}

/// Storing a pair keeps the keys distinct.
proof fn lemma_upsert_keeps_distinct(entries: Seq<(Seq<char>, Seq<char>)>, k: Seq<char>, v: Seq<char>)
    requires
        keys_distinct(entries),
    ensures
        keys_distinct(upsert(entries, k, v)),
{
    let u = upsert(entries, k, v);
    if has_key(entries, k) {
        let c = choose|i: int| 0 <= i < entries.len() && (#[trigger] entries[i]).0 == k;
        assert forall|i: int, j: int| 0 <= i < j < u.len() implies (#[trigger] u[i]).0 != (
        #[trigger] u[j]).0 by {
            if i == c {
                assert(entries[i].0 == u[i].0);
            } else if j == c {
                assert(entries[j].0 == u[j].0);
            } else {
                assert(entries[i] == u[i] && entries[j] == u[j]);
            }
        }
    } else {
        assert forall|i: int, j: int| 0 <= i < j < u.len() implies (#[trigger] u[i]).0 != (
        #[trigger] u[j]).0 by {
            if j == entries.len() {
                assert(u[i] == entries[i]);
            } else {
                assert(entries[i] == u[i] && entries[j] == u[j]);
            }
        }
    }
}

/// The dashboard holds one entry per distinct key of the rows, and the entry of
/// a key carries the line of the last row with that key: the entries are the
/// map that inserting the rows in turn builds, listed without repetition, so
/// there are as many entries as distinct keys.
pub proof fn lemma_dashboard_is_map(pairs: Seq<(Seq<char>, Seq<char>)>)
    ensures
        keys_distinct(collect_entries(pairs)),
        insert_all(pairs).dom().finite(),
        collect_entries(pairs).len() == insert_all(pairs).dom().len(),
        forall|k: Seq<char>|
            has_key(collect_entries(pairs), k) <==> #[trigger] insert_all(pairs).dom().contains(k),
        forall|i: int|
            0 <= i < collect_entries(pairs).len() ==> (#[trigger] collect_entries(pairs)[i]).1
                == insert_all(pairs)[collect_entries(pairs)[i].0],
    decreases pairs.len(),
{
    if pairs.len() > 0 {
        let p = pairs.drop_last();
        lemma_dashboard_is_map(p);
        let prev = collect_entries(p);
        let m = insert_all(p);
        let k = pairs.last().0;
        let v = pairs.last().1;
        let c = collect_entries(pairs);
        assert(c == upsert(prev, k, v));
        assert(insert_all(pairs) == m.insert(k, v));
        lemma_upsert_keeps_distinct(prev, k, v);
        if has_key(prev, k) {
            let idx = choose|i: int| 0 <= i < prev.len() && (#[trigger] prev[i]).0 == k;
            assert forall|k2: Seq<char>| has_key(c, k2) <==> #[trigger] m.insert(k, v).dom().contains(
                k2,
            ) by {
                if has_key(c, k2) {
                    let i = choose|i: int| 0 <= i < c.len() && (#[trigger] c[i]).0 == k2;
                    if i != idx {
                        assert(prev[i] == c[i]);
                    }
                }
                if has_key(prev, k2) {
                    let i = choose|i: int| 0 <= i < prev.len() && (#[trigger] prev[i]).0 == k2;
                    if i != idx {
                        assert(prev[i] == c[i]);
                    } else {
                        assert(c[idx].0 == k);
                    }
                }
            }
            assert forall|i: int| 0 <= i < c.len() implies (#[trigger] c[i]).1 == m.insert(k, v)[c[
                i].0] by {
                if i != idx {
                    assert(prev[i] == c[i]);
                    assert(prev[i].0 != prev[idx].0);
                }
            }
        } else {
            assert forall|k2: Seq<char>| has_key(c, k2) <==> #[trigger] m.insert(k, v).dom().contains(
                k2,
            ) by {
                if has_key(c, k2) {
                    let i = choose|i: int| 0 <= i < c.len() && (#[trigger] c[i]).0 == k2;
                    if i < prev.len() {
                        assert(prev[i] == c[i]);
                    }
                }
                if has_key(prev, k2) {
                    let i = choose|i: int| 0 <= i < prev.len() && (#[trigger] prev[i]).0 == k2;
                    assert(prev[i] == c[i]);
                }
                if k2 == k {
                    assert(c[prev.len() as int].0 == k);
                }
            }
            assert forall|i: int| 0 <= i < c.len() implies (#[trigger] c[i]).1 == m.insert(k, v)[c[
                i].0] by {
                if i < prev.len() {
                    assert(prev[i] == c[i]);
                    assert(prev[i].0 != k);
                }
            }
        }
    }
}

/// Every row's key is on the dashboard, and the row that comes last among
/// those with its key gives that key's line.
pub proof fn lemma_last_row_wins(pairs: Seq<(Seq<char>, Seq<char>)>, i: int)
    requires
        0 <= i < pairs.len(),
    ensures
        insert_all(pairs).dom().contains(pairs[i].0),
        (forall|j: int| i < j < pairs.len() ==> (#[trigger] pairs[j]).0 != pairs[i].0) ==> insert_all(
            pairs,
        )[pairs[i].0] == pairs[i].1,
    decreases pairs.len(),
{
    if i < pairs.len() - 1 {
        let p = pairs.drop_last();
        assert(p[i] == pairs[i]);
        lemma_last_row_wins(p, i);
        if forall|j: int| i < j < pairs.len() ==> (#[trigger] pairs[j]).0 != pairs[i].0 {
            assert forall|j: int| i < j < p.len() implies (#[trigger] p[j]).0 != p[i].0 by {
                assert(p[j] == pairs[j]);
            }
            assert(pairs[pairs.len() - 1].0 != pairs[i].0);
        }
    }
}

/// The dashboard line of an applicant is laid out as: the whole key, a comma
/// and two spaces, the whole address, two spaces and `state: `, the state's
/// label (`fresh`, `old` or `none`), a comma, two spaces and `created at: `,
/// and the whole creation text; nothing is shortened, dropped or added, for
/// parts of any length.
pub proof fn lemma_applicant_line_layout(key: Seq<char>, value: Seq<char>, st: State, created: Seq<char>)
    ensures
        ({
            let line = applicant_line(key, value, st, created);
            let label = match st {
                State::Fresh => seq!['f', 'r', 'e', 's', 'h'],
                State::Old => seq!['o', 'l', 'd'],
                State::Unknown => seq!['n', 'o', 'n', 'e'],
            };
            let k = key.len() as int;
            let a = k + 3;
            let b = a + value.len();
            let c = b + 9;
            let e = c + label.len();
            let f = e + 15;
            &&& line.len() == f + created.len()
            &&& line.subrange(0, k) == key
            &&& line.subrange(k, a) == seq![',', ' ', ' ']
            &&& line.subrange(a, b) == value
            &&& line.subrange(b, c) == seq![' ', ' ', 's', 't', 'a', 't', 'e', ':', ' ']
            &&& line.subrange(c, e) == label
            &&& line.subrange(e, f) == seq![
                ',',
                ' ',
                ' ',
                'c',
                'r',
                'e',
                'a',
                't',
                'e',
                'd',
                ' ',
                'a',
                't',
                ':',
                ' ',
            ]
            &&& line.subrange(f, line.len() as int) == created
        }),
{
    reveal_strlit(",  ");
    reveal_strlit("  state: ");
    reveal_strlit(",  created at: ");
    let line = applicant_line(key, value, st, created);
    let label = state_label(st);
    let k = key.len() as int;
    let a = k + 3;
    let b = a + value.len();
    let c = b + 9;
    let e = c + label.len();
    let f = e + 15;
    assert(line.subrange(0, k) =~= key);
    assert(line.subrange(k, a) =~= seq![',', ' ', ' ']);
    assert(line.subrange(a, b) =~= value);
    assert(line.subrange(b, c) =~= seq![' ', ' ', 's', 't', 'a', 't', 'e', ':', ' ']);
    assert(line.subrange(c, e) =~= label);
    assert(line.subrange(e, f) =~= seq![
        ',',
        ' ',
        ' ',
        'c',
        'r',
        'e',
        'a',
        't',
        'e',
        'd',
        ' ',
        'a',
        't',
        ':',
        ' ',
    ]);
    assert(line.subrange(f, line.len() as int) =~= created);
}

/// Stores `line` under `key`, in place when the key is already there.
fn upsert_entry(entries: &mut Vec<(String, String)>, key: String, line: String)
    requires
        keys_distinct(entries_view(old(entries)@)),
    ensures
        entries_view(final(entries)@) == upsert(entries_view(old(entries)@), key@, line@),
        keys_distinct(entries_view(final(entries)@)),
{
    let ghost before = entries_view(entries@);
    proof {
        lemma_upsert_keeps_distinct(before, key@, line@);
    }
    let n = entries.len();
    let mut j: usize = 0;
    while j < n
        invariant
            n == entries.len(),
            entries_view(entries@) == before,
            before == entries_view(old(entries)@),
            keys_distinct(before),
            j <= n,
            forall|t: int| 0 <= t < j ==> (#[trigger] before[t]).0 != key@,
        decreases n - j,
    {
        if entries[j].0 == key {
            proof {
                assert(before[j as int].0 == key@);
                assert(has_key(before, key@));
                let c = choose|i: int| 0 <= i < before.len() && (#[trigger] before[i]).0 == key@;
                assert(c == j) by {
                    if c != j {
                        if c < j {
                            assert(before[c].0 != before[j as int].0);
                        } else {
                            assert(before[j as int].0 != before[c].0);
                        }
                    }
                }
                assert(upsert(before, key@, line@) == before.update(j as int, (key@, line@)));
            }
            entries.set(j, (key, line));
            assert(entries_view(entries@) =~= before.update(j as int, (key@, line@)));
            return;
        }
        assert(before[j as int].0 != key@);
        j = j + 1;
    }
    assert(!has_key(before, key@));
    entries.push((key, line));
    assert(entries_view(entries@) =~= before.push((key@, line@)));
}

/// The dashboard line of an applicant whose creation time reads as `created`.
pub fn format_applicant(key: &str, value: &str, state: i32, created: &str) -> (line: String)
    ensures
        line@ == applicant_line(key@, value@, state_of_code(state as int), created@),
{
    let st = State::from_code(state);
    let mut line = String::from_str(key);
    line.append(",  ");
    line.append(value);
    line.append("  state: ");
    line.append(st.as_str());
    line.append(",  created at: ");
    line.append(created);
    line
}

/// The dashboard line of one row, or nothing when its creation time cannot be read.
pub fn render_applicant(row: &ApplicantRow) -> (line: Option<String>)
    ensures
        match line {
            Some(l) => row_line(*row) == Some(l@),
            None => row_line(*row) is None,
        },
{
    match parse_datetime(row.created_at.as_str(), CREATED_AT_FORMAT) {
        None => None,
        Some(created) => Some(
            format_applicant(
                row.key.as_str(),
                row.value.as_str(),
                row.state,
                created.text.as_str(),
            ),
        ),
    }
}

/// Builds the admin dashboard from the applicant rows: one line per distinct
/// key, each the line of the last row with that key, in the order in which the
/// keys first occur. Gives nothing when some row's creation time cannot be read.
/// The lines are gathered in a vector of (key, line) entries with distinct
/// keys: vstd specifies `HashMap` only for keys that obey its key model, which
/// it states for integer keys and not for `String`, and a `HashMap` would list
/// the lines in an order that changes from run to run.
pub fn build_dashboard(rows: &Vec<ApplicantRow>) -> (dash: Option<AdminDashboardTemplate>)
    ensures
        dash is None <==> !all_rows_render(rows@),
        dash matches Some(t) ==> t.applicants@.map_values(|s: String| s@) == dashboard_lines(
            rows@,
        ),
{
    let mut entries: Vec<(String, String)> = Vec::new();
    let n = rows.len();
    let mut i: usize = 0;
    while i < n
        invariant
            n == rows@.len(),
            i <= n,
            forall|t: int| 0 <= t < i ==> (#[trigger] row_line(rows@[t])) is Some,
            entries_view(entries@) == collect_entries(row_pairs(rows@.take(i as int))),
            keys_distinct(entries_view(entries@)),
        decreases n - i,
    {
        let row = &rows[i];
        let line = match render_applicant(row) {
            None => {
                return None;
            },
            Some(l) => l,
        };
        let ghost prefix = rows@.take(i as int);
        let ghost next = rows@.take(i + 1);
        assert(next.drop_last() =~= prefix);
        assert(row_pairs(next).drop_last() =~= row_pairs(prefix));
        assert(row_pairs(next).last() == (row.key@, line@));
        upsert_entry(&mut entries, row.key.clone(), line);
        i = i + 1;
    }
    assert(rows@.take(n as int) =~= rows@);
    let mut lines: Vec<String> = Vec::new();
    let m = entries.len();
    let mut j: usize = 0;
    while j < m
        invariant
            m == entries@.len(),
            j <= m,
            lines@.len() == j,
            forall|t: int| 0 <= t < j ==> (#[trigger] lines@[t])@ == entries@[t].1@,
        decreases m - j,
    {
        lines.push(entries[j].1.clone());
        j = j + 1;
    }
    assert(lines@.map_values(|s: String| s@) =~= dashboard_lines(rows@));
    Some(AdminDashboardTemplate { applicants: lines })
}

} // verus!
