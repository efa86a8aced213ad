//! The aggregation of a day's stored events into the lists of its summary:
//! projects, files and minutes per language.

use vstd::prelude::*;
use crate::ingest::opt_view;
use crate::json::{json_index, json_or, json_or_spec, json_str};
use crate::model::{GitChange, JsonValue};
use crate::text::str_eq;
use crate::order::{find_slot, insert_sorted_unique, seq_lt, lemma_insert_keeps_sorted, lemma_lt_irreflexive, strictly_sorted, views};

verus! {

/// One stored event of the day, as the aggregation reads it: its project
/// name and the JSON texts of its file list and of its language minutes.
#[derive(Debug, Clone)]
pub struct DayRowText {
    pub project_name: Option<String>,
    pub files_json: String,
    pub languages_json: String,
}

/// One stored event of the day, its lists decoded.
#[derive(Debug, Clone)]
pub struct DayRow {
    pub project_name: Option<String>,
    pub files: Vec<String>,
    pub languages: Vec<(String, i64)>,
}

/// The lists of a day's summary.
#[derive(Debug, Clone, PartialEq)]
pub struct DayAggregate {
    pub projects: Vec<String>,
    pub files_modified: Vec<String>,
    pub languages: Vec<(String, i64)>,
}

/// The list of texts a JSON document holds, as `serde_json` reads a
/// `Vec<String>`; nothing when it holds something else.
pub uninterp spec fn json_string_list(text: Seq<char>) -> Option<Seq<Seq<char>>>;

/// The (name, minutes) pairs a JSON object holds, in key order, as
/// `serde_json` reads a `BTreeMap<String, i64>`; nothing when it holds
/// something else.
pub uninterp spec fn json_minutes_map(text: Seq<char>) -> Option<Seq<(Seq<char>, i64)>>;

/// `serde_json::from_str::<Vec<String>>`, its error dropped. The contract
/// names the decoded list; the JSON grammar is not restated.
#[verifier::external_body]
fn parse_string_list(text: &str) -> (r: Option<Vec<String>>)
    ensures
        match r {
            Some(v) => json_string_list(text@) == Some(views(v@)),
            None => json_string_list(text@) is None,
        },
{
    serde_json::from_str::<Vec<String>>(text).ok()
}

/// The views of (name, minutes) pairs.
pub open spec fn minutes_views(v: Seq<(String, i64)>) -> Seq<(Seq<char>, i64)> {
    v.map_values(|p: (String, i64)| (p.0@, p.1))
}

/// `serde_json::from_str::<BTreeMap<String, i64>>`, its entries in the map's
/// order, its error dropped. The contract names the decoded pairs; the JSON
/// grammar is not restated.
#[verifier::external_body]
fn parse_minutes_map(text: &str) -> (r: Option<Vec<(String, i64)>>)
    ensures
        match r {
            Some(v) => json_minutes_map(text@) == Some(minutes_views(v@)),
            None => json_minutes_map(text@) is None,
        },
{
    match serde_json::from_str::<std::collections::BTreeMap<String, i64>>(text) {
        Ok(m) => Some(m.into_iter().collect()),
        Err(_) => None,
    }
}

/// Decodes the lists of a stored event; a list that does not decode counts
/// as empty.
pub fn decode_day_row(row: DayRowText) -> (r: DayRow)
    ensures
        opt_view(r.project_name) == opt_view(row.project_name),
        views(r.files@) == match json_string_list(row.files_json@) {
            Some(v) => v,
            None => seq![],
        },
        minutes_views(r.languages@) == match json_minutes_map(row.languages_json@) {
            Some(v) => v,
            None => seq![],
        },
{
    let files = match parse_string_list(row.files_json.as_str()) {
        Some(v) => v,
        None => Vec::new(),
    };
    let languages = match parse_minutes_map(row.languages_json.as_str()) {
        Some(v) => v,
        None => Vec::new(),
    };
    proof {
        if files@.len() == 0 {
            assert(views(files@) =~= seq![]);
        }
        if languages@.len() == 0 {
            assert(minutes_views(languages@) =~= seq![]);
        }
    }
    DayRow { project_name: row.project_name, files, languages }
}

/// All the files of the rows, in order.
pub open spec fn all_files(rows: Seq<DayRow>) -> Seq<Seq<char>>
    decreases rows.len(),
{
    if rows.len() == 0 {
        seq![]
    } else {
        all_files(rows.drop_last()) + views(rows.last().files@)
    }
}

/// All the (name, minutes) pairs of the rows, in order.
pub open spec fn all_minutes(rows: Seq<DayRow>) -> Seq<(Seq<char>, i64)>
    decreases rows.len(),
{
    if rows.len() == 0 {
        seq![]
    } else {
        all_minutes(rows.drop_last()) + minutes_views(rows.last().languages@)
    }
}

/// Some row names the project `x`.
pub open spec fn names_project(rows: Seq<DayRow>, x: Seq<char>) -> bool {
    x.len() > 0 && exists|i: int| 0 <= i < rows.len() && opt_view(#[trigger] rows[i].project_name) == Some(x)
}

/// The minutes recorded for `key` over some pairs.
pub open spec fn minutes_total(entries: Seq<(Seq<char>, i64)>, key: Seq<char>) -> int
    decreases entries.len(),
{
    if entries.len() == 0 {
        0
    } else {
        minutes_total(entries.drop_last(), key) + if entries.last().0 == key {
            entries.last().1 as int
        } else {
            0
        }
    }
}

/// Every running sum of a name's minutes, taken in the order given, fits
/// `i64`: adding them up name by name never overflows.
pub open spec fn running_sums_fit(entries: Seq<(Seq<char>, i64)>) -> bool {
    forall|k: int, key: Seq<char>|
        0 <= k <= entries.len() ==> i64::MIN <= #[trigger] minutes_total(entries.take(k), key)
            <= i64::MAX
}

/// Some pair names `key`.
pub open spec fn names_key(entries: Seq<(Seq<char>, i64)>, key: Seq<char>) -> bool {
    exists|i: int| 0 <= i < entries.len() && (#[trigger] entries[i]).0 == key
}

proof fn lemma_absent_minutes(entries: Seq<(Seq<char>, i64)>, key: Seq<char>)
    requires
        !names_key(entries, key),
    ensures
        minutes_total(entries, key) == 0,
    decreases entries.len(),
{
    if entries.len() > 0 {
        let d = entries.drop_last();
        assert(!names_key(d, key)) by {
            if names_key(d, key) {
                let i = choose|i: int| 0 <= i < d.len() && (#[trigger] d[i]).0 == key;
                assert(entries[i] == d[i]);
            }
        }
        assert(entries[entries.len() - 1].0 != key);
        lemma_absent_minutes(d, key);
    }
}

/// The names of some pairs.
pub open spec fn names_of(r: Seq<(Seq<char>, i64)>) -> Seq<Seq<char>> {
    r.map_values(|p: (Seq<char>, i64)| p.0)
}

/// The pairs `r`, one per name, in name order, total the minutes of
/// `entries` per name.
pub open spec fn minutes_merged(entries: Seq<(Seq<char>, i64)>, r: Seq<(Seq<char>, i64)>) -> bool {
    &&& strictly_sorted(names_of(r))
    &&& forall|key: Seq<char>| #[trigger] names_of(r).contains(key) <==> names_key(entries, key)
    &&& forall|j: int| 0 <= j < r.len() ==> #[trigger] r[j].1 == minutes_total(entries, r[j].0)
}

/// Adds up minutes per name, one entry per name in name order; nothing when
/// a running sum of some name overflows `i64`.
pub fn merge_minutes_checked(entries: &Vec<(String, i64)>) -> (r: Option<Vec<(String, i64)>>)
    ensures
        r is Some <==> running_sums_fit(minutes_views(entries@)),
        r matches Some(v) ==> minutes_merged(minutes_views(entries@), minutes_views(v@)),
{
    let ghost ev = minutes_views(entries@);
    let mut keys: Vec<String> = Vec::new();
    let mut sums: Vec<i64> = Vec::new();
    let mut k: usize = 0;
    while k < entries.len()
        invariant
            k <= entries.len(),
            ev == minutes_views(entries@),
            forall|kk: int, name: Seq<char>|
                0 <= kk <= k ==> i64::MIN <= #[trigger] minutes_total(ev.take(kk), name)
                    <= i64::MAX,
            keys.len() == sums.len(),
            strictly_sorted(views(keys@)),
            forall|key: Seq<char>| #[trigger] views(keys@).contains(key) <==> names_key(ev.take(k as int), key),
            forall|j: int| 0 <= j < keys.len() ==> #[trigger] sums@[j] == minutes_total(ev.take(k as int), keys@[j]@),
        decreases entries.len() - k,
    {
        let key = entries[k].0.clone();
        let minutes = entries[k].1;
        let ghost prev = ev.take(k as int);
        let ghost next = ev.take(k + 1);
        proof {
            assert(next.drop_last() =~= prev);
            assert(next.last() == ev[k as int]);
            assert(ev[k as int] == (key@, minutes));
            assert(forall|name: Seq<char>| #[trigger] minutes_total(next, name) == minutes_total(prev, name)
                + if name == key@ { minutes as int } else { 0 });
        }
        let ghost old_keys = views(keys@);
        let ghost old_sums = sums@;
        let (j, found) = find_slot(&keys, key.as_str());
        if found {
            let cur = sums[j];
            proof {
                assert(cur == minutes_total(prev, key@));
            }
            let total = match cur.checked_add(minutes) {
                Some(v) => v,
                None => {
                    proof {
                        assert(!(i64::MIN <= minutes_total(ev.take(k + 1), key@) <= i64::MAX));
                    }
                    return None;
                },
            };
            sums.set(j, total);
            assert(i64::MIN <= minutes_total(next, key@) <= i64::MAX);
            proof {
                assert forall|jj: int| 0 <= jj < keys.len() implies #[trigger] sums@[jj] == minutes_total(next, keys@[jj]@) by {
                    if jj != j {
                        assert(keys@[jj]@ != key@) by {
                            if keys@[jj]@ == key@ {
                                if jj < j {
                                    assert(seq_lt(old_keys[jj], old_keys[j as int]));
                                } else {
                                    assert(seq_lt(old_keys[j as int], old_keys[jj]));
                                }
                                lemma_lt_irreflexive(key@);
                            }
                        }
                    }
                }
                assert forall|kk: Seq<char>| #[trigger] views(keys@).contains(kk) <==> names_key(next, kk) by {
                    if names_key(next, kk) {
                        let i = choose|i: int| 0 <= i < next.len() && (#[trigger] next[i]).0 == kk;
                        if i < k {
                            assert(prev[i] == next[i]);
                        }
                    }
                    if names_key(prev, kk) {
                        let i = choose|i: int| 0 <= i < prev.len() && (#[trigger] prev[i]).0 == kk;
                        assert(prev[i] == next[i]);
                    }
                    if kk == key@ {
                        assert(next[k as int].0 == kk);
                    }
                }
            }
        } else {
            proof {
                lemma_insert_keeps_sorted(old_keys, j as int, key@);
                lemma_absent_minutes(prev, key@);
            }
            assert(i64::MIN <= minutes_total(next, key@) <= i64::MAX);
            keys.insert(j, key);
            sums.insert(j, minutes);
            proof {
                assert(views(keys@) =~= old_keys.insert(j as int, keys@[j as int]@));
                let nk = views(keys@);
                assert forall|jj: int| 0 <= jj < keys.len() implies #[trigger] sums@[jj] == minutes_total(next, keys@[jj]@) by {
                    if jj < j {
                        assert(nk[jj] == old_keys[jj]);
                        assert(sums@[jj] == old_sums[jj]);
                        assert(old_keys[jj] != nk[j as int]) by {
                            lemma_lt_irreflexive(old_keys[jj]);
                        }
                    } else if jj > j {
                        assert(nk[jj] == old_keys[jj - 1]);
                        assert(sums@[jj] == old_sums[jj - 1]);
                        assert(old_keys[jj - 1] != nk[j as int]) by {
                            lemma_lt_irreflexive(old_keys[jj - 1]);
                        }
                    }
                }
                assert forall|kk: Seq<char>| #[trigger] nk.contains(kk) <==> names_key(next, kk) by {
                    if names_key(next, kk) {
                        let i = choose|i: int| 0 <= i < next.len() && (#[trigger] next[i]).0 == kk;
                        if i < k {
                            assert(prev[i] == next[i]);
                            assert(old_keys.contains(kk));
                            let t = choose|t: int| 0 <= t < old_keys.len() && old_keys[t] == kk;
                            if t < j {
                                assert(nk[t] == kk);
                            } else {
                                assert(nk[t + 1] == kk);
                            }
                        } else {
                            assert(nk[j as int] == kk);
                        }
                    }
                    if nk.contains(kk) {
                        let t = choose|t: int| 0 <= t < nk.len() && nk[t] == kk;
                        if t < j {
                            assert(old_keys.contains(kk));
                            let i = choose|i: int| 0 <= i < prev.len() && (#[trigger] prev[i]).0 == kk;
                            assert(prev[i] == next[i]);
                        } else if t > j {
                            assert(old_keys[t - 1] == kk);
                            assert(old_keys.contains(kk));
                            let i = choose|i: int| 0 <= i < prev.len() && (#[trigger] prev[i]).0 == kk;
                            assert(prev[i] == next[i]);
                        } else {
                            assert(next[k as int].0 == kk);
                        }
                    }
                }
            }
        }
        proof {
            assert forall|kk: int, name: Seq<char>| 0 <= kk <= k + 1 implies i64::MIN
                <= #[trigger] minutes_total(ev.take(kk), name) <= i64::MAX by {
                if kk == k + 1 {
                    assert(minutes_total(prev, name) == minutes_total(ev.take(k as int), name));
                }
            }
        }
        k = k + 1;
    }
    assert(ev.take(entries.len() as int) =~= ev);
    let mut r: Vec<(String, i64)> = Vec::new();
    let mut t: usize = 0;
    while t < keys.len()
        invariant
            t <= keys.len() == sums.len(),
            r.len() == t,
            forall|i: int| 0 <= i < t ==> (#[trigger] r@[i]).0@ == keys@[i]@ && r@[i].1 == sums@[i],
        decreases keys.len() - t,
    {
        r.push((keys[t].clone(), sums[t]));
        t = t + 1;
    }
    proof {
        assert(names_of(minutes_views(r@)) =~= views(keys@));
    }
    Some(r)
}

/// Adds up minutes per name, one entry per name in name order.
pub fn merge_minutes(entries: &Vec<(String, i64)>) -> (r: Vec<(String, i64)>)
    requires
        running_sums_fit(minutes_views(entries@)),
    ensures
        minutes_merged(minutes_views(entries@), minutes_views(r@)),
{
    match merge_minutes_checked(entries) {
        Some(v) => v,
        None => Vec::new(),
    }
}

} // verus!

verus! {

/// The minutes of the day add up per language within `i64`: no running sum
/// of a language's minutes, over the events in order, overflows.
pub open spec fn minutes_fit(rows: Seq<DayRow>) -> bool {
    running_sums_fit(all_minutes(rows))
}

proof fn lemma_all_step(rows: Seq<DayRow>, i: int)
    requires
        0 <= i < rows.len(),
    ensures
        all_files(rows.take(i + 1)) == all_files(rows.take(i)) + views(rows[i].files@),
        all_minutes(rows.take(i + 1)) == all_minutes(rows.take(i)) + minutes_views(
            rows[i].languages@,
        ),
{
    assert(rows.take(i + 1).drop_last() =~= rows.take(i));
    assert(rows.take(i + 1).last() == rows[i]);
}

/// All the (name, minutes) pairs of the rows, in order.
fn flat_minutes(rows: &Vec<DayRow>) -> (flat: Vec<(String, i64)>)
    ensures
        minutes_views(flat@) == all_minutes(rows@),
{
    let mut flat: Vec<(String, i64)> = Vec::new();
    let mut i: usize = 0;
    assert(rows@.take(0) =~= Seq::<DayRow>::empty());
    while i < rows.len()
        invariant
            i <= rows.len(),
            minutes_views(flat@) == all_minutes(rows@.take(i as int)),
        decreases rows.len() - i,
    {
        proof {
            lemma_all_step(rows@, i as int);
        }
        let langs = &rows[i].languages;
        let ghost lv = minutes_views(langs@);
        let ghost base_flat = minutes_views(flat@);
        let mut t: usize = 0;
        while t < langs.len()
            invariant
                i < rows.len(),
                langs == &rows@[i as int].languages,
                lv == minutes_views(langs@),
                t <= langs.len(),
                minutes_views(flat@) == base_flat + lv.take(t as int),
            decreases langs.len() - t,
        {
            let ghost before = minutes_views(flat@);
            let name = langs[t].0.clone();
            let m = langs[t].1;
            flat.push((name, m));
            assert(lv[t as int] == (name@, m));
            assert(minutes_views(flat@) =~= before.push((name@, m)));
            assert(lv.take(t + 1) =~= lv.take(t as int).push(lv[t as int]));
            t = t + 1;
        }
        assert(lv.take(t as int) =~= lv);
        i = i + 1;
    }
    assert(rows@.take(i as int) =~= rows@);
    flat
}

/// Whether the minutes of the day add up per language within `i64`.
pub fn minutes_fit_exec(rows: &Vec<DayRow>) -> (b: bool)
    ensures
        b == minutes_fit(rows@),
{
    let flat = flat_minutes(rows);
    merge_minutes_checked(&flat).is_some()
}

/// Gathers a day's stored events: the non-empty project names and the files,
/// each once and sorted, and the minutes per language added up over all
/// events.
pub fn aggregate_day(rows: &Vec<DayRow>) -> (r: DayAggregate)
    requires
        minutes_fit(rows@),
    ensures
        strictly_sorted(views(r.projects@)),
        forall|x: Seq<char>| #[trigger] views(r.projects@).contains(x) <==> names_project(rows@, x),
        strictly_sorted(views(r.files_modified@)),
        forall|x: Seq<char>| #[trigger] views(r.files_modified@).contains(x) <==> all_files(rows@).contains(x),
        minutes_merged(all_minutes(rows@), minutes_views(r.languages@)),
{
    let mut projects: Vec<String> = Vec::new();
    let mut files: Vec<String> = Vec::new();
    let mut i: usize = 0;
    assert(rows@.take(0) =~= Seq::<DayRow>::empty());
    while i < rows.len()
        invariant
            i <= rows.len(),
            strictly_sorted(views(projects@)),
            forall|x: Seq<char>| #[trigger] views(projects@).contains(x) <==> names_project(rows@.take(i as int), x),
            strictly_sorted(views(files@)),
            forall|x: Seq<char>| #[trigger] views(files@).contains(x) <==> all_files(rows@.take(i as int)).contains(x),
        decreases rows.len() - i,
    {
        proof {
            lemma_all_step(rows@, i as int);
        }
        let row = &rows[i];
        let ghost prev_rows = rows@.take(i as int);
        let ghost next_rows = rows@.take(i + 1);
        let ghost old_projects = views(projects@);
        let add_project = match &row.project_name {
            Some(p) => !p.as_str().is_empty(),
            None => false,
        };
        if add_project {
            match &row.project_name {
                Some(p) => insert_sorted_unique(&mut projects, p.clone()),
                None => {},
            }
        }
        proof {
            assert forall|x: Seq<char>| #[trigger] views(projects@).contains(x) <==> names_project(next_rows, x) by {
                if names_project(next_rows, x) {
                    let t = choose|t: int| 0 <= t < next_rows.len() && opt_view(#[trigger] next_rows[t].project_name) == Some(x);
                    if t < i {
                        assert(prev_rows[t] == next_rows[t]);
                        assert(names_project(prev_rows, x));
                    }
                }
                if names_project(prev_rows, x) {
                    let t = choose|t: int| 0 <= t < prev_rows.len() && opt_view(#[trigger] prev_rows[t].project_name) == Some(x);
                    assert(prev_rows[t] == next_rows[t]);
                }
                if views(projects@).contains(x) && !old_projects.contains(x) {
                    assert(next_rows[i as int] == *row);
                    assert(opt_view(next_rows[i as int].project_name) == Some(x));
                }
                if add_project && opt_view(row.project_name) == Some(x) {
                    assert(next_rows[i as int] == *row);
                }
            }
        }
        let ghost base_files = all_files(prev_rows);
        let ghost fv = views(row.files@);
        let mut j: usize = 0;
        while j < row.files.len()
            invariant
                row == &rows@[i as int],
                fv == views(row.files@),
                j <= row.files.len(),
                strictly_sorted(views(files@)),
                forall|x: Seq<char>| #[trigger] views(files@).contains(x) <==> (base_files + fv.take(j as int)).contains(x),
            decreases row.files.len() - j,
        {
            let ghost before = views(files@);
            insert_sorted_unique(&mut files, row.files[j].clone());
            proof {
                assert(base_files + fv.take(j + 1) =~= (base_files + fv.take(j as int)).push(fv[j as int]));
                assert forall|x: Seq<char>| #[trigger] views(files@).contains(x) <==> (base_files + fv.take(j + 1)).contains(x) by {
                    let s = base_files + fv.take(j as int);
                    if s.push(fv[j as int]).contains(x) {
                        let t = choose|t: int| 0 <= t < s.len() + 1 && s.push(fv[j as int])[t] == x;
                        if t < s.len() {
                            assert(s[t] == x);
                        }
                    }
                    if s.contains(x) {
                        let t = choose|t: int| 0 <= t < s.len() && s[t] == x;
                        assert(s.push(fv[j as int])[t] == x);
                    }
                    if x == fv[j as int] {
                        assert(s.push(fv[j as int])[s.len() as int] == x);
                    }
                }
            }
            j = j + 1;
        }
        assert(fv.take(j as int) =~= fv);
        i = i + 1;
    }
    assert(rows@.take(i as int) =~= rows@);
    let flat = flat_minutes(rows);
    let languages = merge_minutes(&flat);
    DayAggregate { projects, files_modified: files, languages }
}

} // verus!

verus! {

/// One stored event of the day as the Git signals read it: its type, the
/// JSON texts of its metadata and of its file list, and its line counts.
#[derive(Debug)]
pub struct GitRowText {
    pub event_type: String,
    pub metadata_json: String,
    pub files_json: String,
    pub lines_added: i64,
    pub lines_removed: i64,
}

/// The event types that carry a Git signal: snapshots of the worktree and
/// commits.
pub open spec fn is_git_event(t: Seq<char>) -> bool {
    t == "git_snapshot"@ || t == "git_commit"@
}

/// The rows that carry a Git signal, in the order given.
pub open spec fn git_rows(rows: Seq<GitRowText>) -> Seq<GitRowText>
    decreases rows.len(),
{
    if rows.len() == 0 {
        seq![]
    } else {
        let rest = git_rows(rows.drop_last());
        if is_git_event(rows.last().event_type@) {
            rest.push(rows.last())
        } else {
            rest
        }
    }
}

/// A text of the metadata.
pub open spec fn metadata_text(m: JsonValue, key: Seq<char>) -> Option<Seq<char>> {
    json_str(json_index(m, key))
}

/// The metadata of a stored row: its JSON document, null when it is not
/// JSON.
pub open spec fn row_metadata(row: GitRowText) -> JsonValue {
    json_or_spec(row.metadata_json@, JsonValue::Null)
}

/// `c` is the Git signal of `row`: the commit subject, diff summary and
/// status summary its metadata holds as texts, its files, and its counts.
pub open spec fn is_git_change(row: GitRowText, c: GitChange) -> bool {
    &&& opt_view(c.subject) == metadata_text(row_metadata(row), "subject"@)
    &&& opt_view(c.diff_summary) == metadata_text(row_metadata(row), "diff_summary"@)
    &&& opt_view(c.status_summary) == metadata_text(row_metadata(row), "status_summary"@)
    &&& views(c.files_modified@) == match json_string_list(row.files_json@) {
        Some(v) => v,
        None => seq![],
    }
    &&& c.lines_added == row.lines_added
    &&& c.lines_removed == row.lines_removed
}

fn is_git_event_exec(t: &str) -> (b: bool)
    ensures
        b == is_git_event(t@),
{
    str_eq(t, "git_snapshot") || str_eq(t, "git_commit")
}

fn metadata_text_exec(m: &JsonValue, key: &str) -> (r: Option<String>)
    ensures
        opt_view(r) == metadata_text(*m, key@),
{
    match m.get(key) {
        Some(v) => match v.as_str() {
            Some(t) => Some(String::from_str(t)),
            None => None,
        },
        None => None,
    }
}

/// The Git signals of the day: one for each snapshot or commit among `rows`,
/// in the order given; metadata that is not JSON counts as null, and a file
/// list that does not decode as empty.
pub fn git_changes(rows: &Vec<GitRowText>) -> (r: Vec<GitChange>)
    ensures
        r.len() == git_rows(rows@).len(),
        forall|k: int| 0 <= k < r.len() ==> is_git_change(git_rows(rows@)[k], #[trigger] r@[k]),
{
    let mut r: Vec<GitChange> = Vec::new();
    let mut i: usize = 0;
    assert(rows@.take(0) =~= Seq::<GitRowText>::empty());
    while i < rows.len()
        invariant
            i <= rows.len(),
            r.len() == git_rows(rows@.take(i as int)).len(),
            forall|k: int|
                0 <= k < r.len() ==> is_git_change(
                    git_rows(rows@.take(i as int))[k],
                    #[trigger] r@[k],
                ),
        decreases rows.len() - i,
    {
        let row = &rows[i];
        proof {
            assert(rows@.take(i + 1).drop_last() =~= rows@.take(i as int));
            assert(rows@.take(i + 1).last() == rows@[i as int]);
        }
        if is_git_event_exec(row.event_type.as_str()) {
            let files = match parse_string_list(row.files_json.as_str()) {
                Some(v) => v,
                None => Vec::new(),
            };
            proof {
                if files@.len() == 0 {
                    assert(views(files@) =~= seq![]);
                }
            }
            let metadata = json_or(row.metadata_json.as_str(), JsonValue::Null);
            let change = GitChange {
                subject: metadata_text_exec(&metadata, "subject"),
                diff_summary: metadata_text_exec(&metadata, "diff_summary"),
                status_summary: metadata_text_exec(&metadata, "status_summary"),
                files_modified: files,
                lines_added: row.lines_added,
                lines_removed: row.lines_removed,
            };
            r.push(change);
        }
        i = i + 1;
    }
    assert(rows@.take(rows.len() as int) =~= rows@);
    r
}

} // verus!
