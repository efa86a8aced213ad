//! Validation and normalization of incoming coding events: the only path by
//! which an event reaches storage.

use vstd::prelude::*;
use crate::ingest_laws::{law_normalize_event_idempotent, same_event};
use crate::text_laws::{lemma_lower_trim_idempotent, lemma_trim_idempotent};
use crate::model::{ActivityPayload, CodingEvent, JsonValue, ProjectContext};
use crate::order::{find_slot, insert_sorted_unique, strictly_sorted, views};
use crate::text::{
    contains_str, contains_sub, lower, lower_str, replace_char, replace_char_str, str_eq, trim,
    trim_str,
};

verus! {

/// The view of an optional string.
pub open spec fn opt_view(o: Option<String>) -> Option<Seq<char>> {
    match o {
        Some(s) => Some(s@),
        None => None,
    }
}

/// An optional text trimmed, and dropped when nothing is left.
pub open spec fn cleaned_optional(o: Option<Seq<char>>) -> Option<Seq<char>> {
    match o {
        Some(s) => if trim(s).len() > 0 {
            Some(trim(s))
        } else {
            None
        },
        None => None,
    }
}

/// Trims an optional text and drops it when it is blank.
pub fn clean_optional(value: Option<String>) -> (r: Option<String>)
    ensures
        opt_view(r) == cleaned_optional(opt_view(value)),
{
    match value {
        Some(v) => {
            let t = trim_str(v.as_str());
            if t.as_str().is_empty() {
                None
            } else {
                Some(t)
            }
        },
        None => None,
    }
}

/// A path names something secret: its ASCII-lowercased form contains one of
/// the markers `.env`, `secret`, `password`, `token`, `apikey`, `api_key`,
/// `.pem`, `.key`.
pub open spec fn is_sensitive(p: Seq<char>) -> bool {
    let l = lower(p);
    ||| contains_sub(l, ".env"@)
    ||| contains_sub(l, "secret"@)
    ||| contains_sub(l, "password"@)
    ||| contains_sub(l, "token"@)
    ||| contains_sub(l, "apikey"@)
    ||| contains_sub(l, "api_key"@)
    ||| contains_sub(l, ".pem"@)
    ||| contains_sub(l, ".key"@)
}

/// Whether a path names something secret.
pub fn is_sensitive_path(path: &str) -> (b: bool)
    ensures
        b == is_sensitive(path@),
{
    let lower = lower_str(path);
    let l = lower.as_str();
    contains_str(l, ".env") || contains_str(l, "secret") || contains_str(l, "password")
        || contains_str(l, "token") || contains_str(l, "apikey") || contains_str(l, "api_key")
        || contains_str(l, ".pem") || contains_str(l, ".key")
}

/// A file name trimmed, with Windows separators turned into `/`.
pub open spec fn clean_file(f: Seq<char>) -> Seq<char> {
    replace_char(trim(f), '\\', '/')
}

/// `x` is kept from `files`: some entry cleans to it, it is not empty and it
/// names nothing secret.
pub open spec fn is_file_candidate(files: Seq<Seq<char>>, x: Seq<char>) -> bool {
    &&& x.len() > 0
    &&& !is_sensitive(x)
    &&& exists|i: int| 0 <= i < files.len() && clean_file(#[trigger] files[i]) == x
}

/// `r` is the normalized file list of `files`: each kept name once, sorted.
pub open spec fn files_normalized(files: Seq<Seq<char>>, r: Seq<Seq<char>>) -> bool {
    &&& strictly_sorted(r)
    &&& forall|x: Seq<char>| #[trigger] r.contains(x) <==> is_file_candidate(files, x)
}

/// Cleans the file names of an event: trimmed, `\` turned into `/`, blank and
/// secret names dropped, each name once, in sorted order.
pub fn normalize_files(files: Vec<String>) -> (r: Vec<String>)
    ensures
        files_normalized(views(files@), views(r@)),
{
    let ghost fv = views(files@);
    let mut normalized: Vec<String> = Vec::new();
    let mut k: usize = 0;
    while k < files.len()
        invariant
            k <= files.len(),
            fv == views(files@),
            strictly_sorted(views(normalized@)),
            forall|x: Seq<char>| #[trigger]
                views(normalized@).contains(x) <==> is_file_candidate(fv.take(k as int), x),
        decreases files.len() - k,
    {
        let file = replace_char_str(trim_str(files[k].as_str()).as_str(), '\\', '/');
        let keep = !file.as_str().is_empty() && !is_sensitive_path(file.as_str());
        let ghost c = file@;
        let ghost before = views(normalized@);
        if keep {
            insert_sorted_unique(&mut normalized, file);
        }
        assert forall|x: Seq<char>| #[trigger] views(normalized@).contains(x) <==> (before.contains(x) || (keep && x == c)) by {}
        proof {
            assert(fv[k as int] == files@[k as int]@);
            assert forall|x: Seq<char>|
                is_file_candidate(fv.take(k + 1), x) <==> (is_file_candidate(fv.take(k as int), x) || (keep && x == c)) by {
                if is_file_candidate(fv.take(k + 1), x) {
                    let i = choose|i: int| 0 <= i < k + 1 && clean_file(#[trigger] fv.take(k + 1)[i]) == x;
                    if i < k {
                        assert(fv.take(k as int)[i] == fv.take(k + 1)[i]);
                    }
                }
                if is_file_candidate(fv.take(k as int), x) {
                    let i = choose|i: int| 0 <= i < k && clean_file(#[trigger] fv.take(k as int)[i]) == x;
                    assert(fv.take(k as int)[i] == fv.take(k + 1)[i]);
                }
                if keep && x == c {
                    assert(fv.take(k + 1)[k as int] == fv[k as int]);
                }
            }
            assert forall|x: Seq<char>| #[trigger] views(normalized@).contains(x) <==> is_file_candidate(fv.take(k + 1), x) by {
                assert(views(normalized@).contains(x) <==> (before.contains(x) || (keep && x == c)));
                assert(before.contains(x) <==> is_file_candidate(fv.take(k as int), x));
            }
        }
        k = k + 1;
    }
    assert(fv.take(files.len() as int) =~= fv);
    normalized
}

/// `x` is kept from `values`: some entry trims to it and it is not empty.
pub open spec fn is_string_candidate(values: Seq<Seq<char>>, x: Seq<char>) -> bool {
    &&& x.len() > 0
    &&& exists|i: int| 0 <= i < values.len() && trim(#[trigger] values[i]) == x
}

/// `r` is the normalized list of `values`: each trimmed non-empty value once,
/// sorted.
pub open spec fn strings_normalized(values: Seq<Seq<char>>, r: Seq<Seq<char>>) -> bool {
    &&& strictly_sorted(r)
    &&& forall|x: Seq<char>| #[trigger] r.contains(x) <==> is_string_candidate(values, x)
}

/// Cleans a list of names: trimmed, blank ones dropped, each once, sorted.
pub fn normalize_strings(values: Vec<String>) -> (r: Vec<String>)
    ensures
        strings_normalized(views(values@), views(r@)),
{
    let ghost fv = views(values@);
    let mut normalized: Vec<String> = Vec::new();
    let mut k: usize = 0;
    while k < values.len()
        invariant
            k <= values.len(),
            fv == views(values@),
            strictly_sorted(views(normalized@)),
            forall|x: Seq<char>| #[trigger]
                views(normalized@).contains(x) <==> is_string_candidate(fv.take(k as int), x),
        decreases values.len() - k,
    {
        let value = trim_str(values[k].as_str());
        let keep = !value.as_str().is_empty();
        let ghost c = value@;
        let ghost before = views(normalized@);
        if keep {
            insert_sorted_unique(&mut normalized, value);
        }
        assert forall|x: Seq<char>| #[trigger] views(normalized@).contains(x) <==> (before.contains(x) || (keep && x == c)) by {}
        proof {
            assert(fv[k as int] == values@[k as int]@);
            assert forall|x: Seq<char>|
                is_string_candidate(fv.take(k + 1), x) <==> (is_string_candidate(fv.take(k as int), x) || (keep && x == c)) by {
                if is_string_candidate(fv.take(k + 1), x) {
                    let i = choose|i: int| 0 <= i < k + 1 && trim(#[trigger] fv.take(k + 1)[i]) == x;
                    if i < k {
                        assert(fv.take(k as int)[i] == fv.take(k + 1)[i]);
                    }
                }
                if is_string_candidate(fv.take(k as int), x) {
                    let i = choose|i: int| 0 <= i < k && trim(#[trigger] fv.take(k as int)[i]) == x;
                    assert(fv.take(k as int)[i] == fv.take(k + 1)[i]);
                }
                if keep && x == c {
                    assert(fv.take(k + 1)[k as int] == fv[k as int]);
                }
            }
            assert forall|x: Seq<char>| #[trigger] views(normalized@).contains(x) <==> is_string_candidate(fv.take(k + 1), x) by {
                assert(views(normalized@).contains(x) <==> (before.contains(x) || (keep && x == c)));
                assert(before.contains(x) <==> is_string_candidate(fv.take(k as int), x));
            }
        }
        k = k + 1;
    }
    assert(fv.take(values.len() as int) =~= fv);
    normalized
}

} // verus!

verus! {

/// The views of a list of (name, minutes) entries.
pub open spec fn lang_views(v: Seq<(String, u64)>) -> Seq<(Seq<char>, u64)> {
    v.map_values(|p: (String, u64)| (p.0@, p.1))
}

/// The names of a list of (name, minutes) entries.
pub open spec fn keys_of(r: Seq<(Seq<char>, u64)>) -> Seq<Seq<char>> {
    r.map_values(|p: (Seq<char>, u64)| p.0)
}

/// The key a language name is counted under: trimmed, ASCII-lowercased.
pub open spec fn lang_key(name: Seq<char>) -> Seq<char> {
    lower(trim(name))
}

/// An entry adds minutes to `key`.
pub open spec fn lang_counts(e: (Seq<char>, u64), key: Seq<char>) -> bool {
    key.len() > 0 && lang_key(e.0) == key && e.1 > 0
}

/// Minutes of one entry, capped at a day.
pub open spec fn capped_minutes(m: u64) -> int {
    if m < 1440 {
        m as int
    } else {
        1440
    }
}

/// The minutes counted for `key`: the capped minutes of every entry that
/// counts for it.
pub open spec fn lang_total(entries: Seq<(Seq<char>, u64)>, key: Seq<char>) -> int
    decreases entries.len(),
{
    if entries.len() == 0 {
        0
    } else {
        lang_total(entries.drop_last(), key) + if lang_counts(entries.last(), key) {
            capped_minutes(entries.last().1)
        } else {
            0
        }
    }
}

/// Some entry counts for `key`.
pub open spec fn lang_present(entries: Seq<(Seq<char>, u64)>, key: Seq<char>) -> bool {
    exists|i: int| 0 <= i < entries.len() && lang_counts(#[trigger] entries[i], key)
}

/// `r` is the normalized language map of `entries`: one entry per key that
/// some entry counts for, in key order, with the total of its minutes.
pub open spec fn languages_normalized(
    entries: Seq<(Seq<char>, u64)>,
    r: Seq<(Seq<char>, u64)>,
) -> bool {
    &&& strictly_sorted(keys_of(r))
    &&& forall|key: Seq<char>| #[trigger] keys_of(r).contains(key) <==> lang_present(entries, key)
    &&& forall|j: int| 0 <= j < r.len() ==> #[trigger] r[j].1 == lang_total(entries, r[j].0)
}

/// The minutes counted for a key are never negative.
pub proof fn lemma_lang_total_nonneg(entries: Seq<(Seq<char>, u64)>, key: Seq<char>)
    ensures
        lang_total(entries, key) >= 0,
{
    lemma_lang_total_bound(entries, key);
}

proof fn lemma_lang_total_bound(entries: Seq<(Seq<char>, u64)>, key: Seq<char>)
    ensures
        0 <= lang_total(entries, key) <= 1440 * entries.len(),
    decreases entries.len(),
{
    if entries.len() > 0 {
        lemma_lang_total_bound(entries.drop_last(), key);
    }
}

/// Merges language names that differ only in case or surrounding space,
/// drops blank names and zero minutes, and caps each entry at a day before
/// adding it up.
pub fn normalize_languages(languages: Vec<(String, u64)>) -> (r: Vec<(String, u64)>)
    requires
        languages.len() * 1440 <= u64::MAX,
    ensures
        languages_normalized(lang_views(languages@), lang_views(r@)),
        r.len() <= languages.len(),
{
    let ghost lv = lang_views(languages@);
    let mut keys: Vec<String> = Vec::new();
    let mut mins: Vec<u64> = Vec::new();
    let mut k: usize = 0;
    while k < languages.len()
        invariant
            k <= languages.len(),
            languages.len() * 1440 <= u64::MAX,
            lv == lang_views(languages@),
            keys.len() == mins.len(),
            keys.len() <= k,
            strictly_sorted(views(keys@)),
            forall|key: Seq<char>| #[trigger]
                views(keys@).contains(key) <==> lang_present(lv.take(k as int), key),
            forall|j: int| 0 <= j < keys.len() ==> #[trigger] mins@[j] == lang_total(lv.take(k as int), keys@[j]@),
        decreases languages.len() - k,
    {
        let key = lower_str(trim_str(languages[k].0.as_str()).as_str());
        let minutes = languages[k].1;
        let ghost prev = lv.take(k as int);
        let ghost next = lv.take(k + 1);
        let ghost e = lv[k as int];
        proof {
            assert(next.drop_last() =~= prev);
            assert(next.last() == e);
            assert(e == (languages@[k as int].0@, minutes));
        }
        let ghost old_keys = views(keys@);
        let ghost old_mins = mins@;
        let counts = !key.as_str().is_empty() && minutes > 0;
        if counts {
            let add = if minutes < 1440 { minutes } else { 1440 };
            let (j, found) = find_slot(&keys, key.as_str());
            if found {
                proof {
                    lemma_lang_total_bound(prev, key@);
                }
                let cur = mins[j];
                mins.set(j, cur + add);
                proof {
                    assert forall|jj: int| 0 <= jj < keys.len() implies #[trigger] mins@[jj] == lang_total(next, keys@[jj]@) by {
                        if jj != j {
                            assert(keys@[jj]@ != key@) by {
                                if keys@[jj]@ == key@ {
                                    assert(old_keys[jj] == old_keys[j as int]);
                                    if jj < j {
                                        assert(crate::order::seq_lt(old_keys[jj], old_keys[j as int]));
                                    } else {
                                        assert(crate::order::seq_lt(old_keys[j as int], old_keys[jj]));
                                    }
                                    crate::order::lemma_lt_irreflexive(key@);
                                }
                            }
                        }
                    }
                    assert forall|kk: Seq<char>| #[trigger] views(keys@).contains(kk) <==> lang_present(next, kk) by {
                        if lang_present(next, kk) {
                            let i = choose|i: int| 0 <= i < next.len() && lang_counts(#[trigger] next[i], kk);
                            if i < k {
                                assert(prev[i] == next[i]);
                            }
                        }
                        if lang_present(prev, kk) {
                            let i = choose|i: int| 0 <= i < prev.len() && lang_counts(#[trigger] prev[i], kk);
                            assert(prev[i] == next[i]);
                        }
                        if kk == key@ {
                            assert(lang_counts(next[k as int], kk));
                        }
                    }
                }
            } else {
                proof {
                    crate::order::lemma_insert_keeps_sorted(old_keys, j as int, key@);
                }
                keys.insert(j, key);
                mins.insert(j, add);
                proof {
                    assert(views(keys@) =~= old_keys.insert(j as int, keys@[j as int]@));
                    let nk = views(keys@);
                    assert forall|jj: int| 0 <= jj < keys.len() implies #[trigger] mins@[jj] == lang_total(next, keys@[jj]@) by {
                        if jj < j {
                            assert(nk[jj] == old_keys[jj]);
                            assert(mins@[jj] == old_mins[jj]);
                            assert(old_keys[jj] != nk[j as int]) by {
                                crate::order::lemma_lt_irreflexive(old_keys[jj]);
                            }
                        } else if jj > j {
                            assert(nk[jj] == old_keys[jj - 1]);
                            assert(mins@[jj] == old_mins[jj - 1]);
                            assert(old_keys[jj - 1] != nk[j as int]) by {
                                crate::order::lemma_lt_irreflexive(old_keys[jj - 1]);
                            }
                        } else {
                            assert(!lang_present(prev, nk[j as int]));
                            lemma_absent_total(prev, nk[j as int]);
                        }
                    }
                    assert forall|kk: Seq<char>| #[trigger] nk.contains(kk) <==> lang_present(next, kk) by {
                        if lang_present(next, kk) {
                            let i = choose|i: int| 0 <= i < next.len() && lang_counts(#[trigger] next[i], kk);
                            if i < k {
                                assert(prev[i] == next[i]);
                                assert(old_keys.contains(kk));
                                let t = choose|t: int| 0 <= t < old_keys.len() && old_keys[t] == kk;
                                if t < j {
                                    assert(nk[t] == kk);
                                } else {
                                    assert(nk[t + 1] == kk);
                                }
                            } else {
                                assert(nk[j as int] == kk);
                            }
                        }
                        if nk.contains(kk) {
                            let t = choose|t: int| 0 <= t < nk.len() && nk[t] == kk;
                            if t < j {
                                assert(old_keys.contains(kk));
                                let i = choose|i: int| 0 <= i < prev.len() && lang_counts(#[trigger] prev[i], kk);
                                assert(prev[i] == next[i]);
                            } else if t > j {
                                assert(old_keys[t - 1] == kk);
                                assert(old_keys.contains(kk));
                                let i = choose|i: int| 0 <= i < prev.len() && lang_counts(#[trigger] prev[i], kk);
                                assert(prev[i] == next[i]);
                            } else {
                                assert(lang_counts(next[k as int], kk));
                            }
                        }
                    }
                }
            }
        } else {
            proof {
                assert forall|jj: int| 0 <= jj < keys.len() implies #[trigger] mins@[jj] == lang_total(next, keys@[jj]@) by {
                }
                assert forall|kk: Seq<char>| #[trigger] views(keys@).contains(kk) <==> lang_present(next, kk) by {
                    if lang_present(next, kk) {
                        let i = choose|i: int| 0 <= i < next.len() && lang_counts(#[trigger] next[i], kk);
                        if i < k {
                            assert(prev[i] == next[i]);
                        }
                    }
                    if lang_present(prev, kk) {
                        let i = choose|i: int| 0 <= i < prev.len() && lang_counts(#[trigger] prev[i], kk);
                        assert(prev[i] == next[i]);
                    }
                }
            }
        }
        k = k + 1;
    }
    assert(lv.take(languages.len() as int) =~= lv);
    let mut r: Vec<(String, u64)> = Vec::new();
    let mut t: usize = 0;
    while t < keys.len()
        invariant
            t <= keys.len() == mins.len(),
            r.len() == t,
            forall|i: int| 0 <= i < t ==> (#[trigger] r@[i]).0@ == keys@[i]@ && r@[i].1 == mins@[i],
        decreases keys.len() - t,
    {
        r.push((keys[t].clone(), mins[t]));
        t = t + 1;
    }
    proof {
        assert(keys_of(lang_views(r@)) =~= views(keys@));
    }
    r
}

/// No minutes are counted for a key that no entry counts for.
pub proof fn lemma_absent_total(entries: Seq<(Seq<char>, u64)>, key: Seq<char>)
    requires
        !lang_present(entries, key),
    ensures
        lang_total(entries, key) == 0,
    decreases entries.len(),
{
    if entries.len() > 0 {
        let d = entries.drop_last();
        assert(!lang_present(d, key)) by {
            if lang_present(d, key) {
                let i = choose|i: int| 0 <= i < d.len() && lang_counts(#[trigger] d[i], key);
                assert(entries[i] == d[i]);
            }
        }
        assert(!lang_counts(entries[entries.len() - 1], key));
        lemma_absent_total(d, key);
    }
}

} // verus!

verus! {

/// A metadata key that may carry a credential.
pub open spec fn is_secret_key(k: Seq<char>) -> bool {
    ||| k == "secret"@
    ||| k == "token"@
    ||| k == "password"@
    ||| k == "apiKey"@
    ||| k == "api_key"@
}

/// Whether a metadata key may carry a credential.
pub fn is_secret_key_exec(k: &str) -> (b: bool)
    ensures
        b == is_secret_key(k@),
{
    str_eq(k, "secret") || str_eq(k, "token") || str_eq(k, "password") || str_eq(k, "apiKey")
        || str_eq(k, "api_key")
}

/// The entries of an object without those under a credential key.
pub open spec fn without_secrets(s: Seq<(String, JsonValue)>) -> Seq<(String, JsonValue)>
    decreases s.len(),
{
    if s.len() == 0 {
        s
    } else {
        let rest = without_secrets(s.drop_last());
        if is_secret_key(s.last().0@) {
            rest
        } else {
            rest.push(s.last())
        }
    }
}

/// `r` is the normalized metadata of `m`: an object loses its credential
/// keys, a null becomes the empty object, anything else is kept.
pub open spec fn metadata_normalized(m: JsonValue, r: JsonValue) -> bool {
    match m {
        JsonValue::Object(entries) => r matches JsonValue::Object(kept) && kept@
            == without_secrets(entries@),
        JsonValue::Null => r matches JsonValue::Object(kept) && kept@.len() == 0,
        _ => r == m,
    }
}

/// Removes credential keys from object metadata; null metadata becomes `{}`.
pub fn normalize_metadata(metadata: JsonValue) -> (r: JsonValue)
    ensures
        metadata_normalized(metadata, r),
{
    match metadata {
        JsonValue::Object(entries) => {
            let ghost orig = entries@;
            let mut rest = entries;
            let mut kept: Vec<(String, JsonValue)> = Vec::new();
            while rest.len() > 0
                invariant
                    rest.len() <= orig.len(),
                    rest@ == orig.skip(orig.len() - rest.len()),
                    kept@ == without_secrets(orig.take(orig.len() - rest.len())),
                decreases rest.len(),
            {
                let ghost done = orig.len() - rest.len();
                let entry = rest.remove(0);
                assert(entry == orig[done]);
                assert(orig.take(done + 1).drop_last() =~= orig.take(done));
                assert(orig.take(done + 1).last() == entry);
                assert(rest@ =~= orig.skip(orig.len() - rest.len()));
                if !is_secret_key_exec(entry.0.as_str()) {
                    kept.push(entry);
                }
            }
            assert(orig.take(orig.len() as int) =~= orig);
            JsonValue::Object(kept)
        },
        JsonValue::Null => JsonValue::Object(Vec::new()),
        other => other,
    }
}

/// Why an incoming event is refused.
#[derive(Debug, Clone, PartialEq)]
pub enum IngestError {
    /// The event type, once trimmed and lowercased, is none of the known ones.
    UnsupportedEventType(String),
    /// The session id is blank.
    MissingSessionId,
}

/// An event type the daemon records.
pub open spec fn allowed_event_type(t: Seq<char>) -> bool {
    ||| t == "document_open"@
    ||| t == "document_edit"@
    ||| t == "active_editor"@
    ||| t == "git_commit"@
    ||| t == "git_snapshot"@
    ||| t == "session_heartbeat"@
    ||| t == "manual_note"@
}

/// Whether the daemon records this event type.
pub fn is_allowed_event_type(t: &str) -> (b: bool)
    ensures
        b == allowed_event_type(t@),
{
    str_eq(t, "document_open") || str_eq(t, "document_edit") || str_eq(t, "active_editor")
        || str_eq(t, "git_commit") || str_eq(t, "git_snapshot") || str_eq(t, "session_heartbeat") || str_eq(t, "manual_note")
}

/// A count that cannot be negative: negative values become zero.
pub open spec fn non_negative(x: i64) -> i64 {
    if x < 0 {
        0
    } else {
        x
    }
}

/// Minutes within one day: clamped to `0..=1440`.
pub open spec fn day_minutes(x: i64) -> i64 {
    if x < 0 {
        0
    } else if x > 1440 {
        1440
    } else {
        x
    }
}

/// The event type as it is checked and stored: trimmed, ASCII-lowercased.
pub open spec fn event_type_key(t: Seq<char>) -> Seq<char> {
    lower(trim(t))
}

/// `n` is the normalized form of the accepted event `e`.
pub open spec fn normalized_event(e: CodingEvent, n: CodingEvent) -> bool {
    &&& n.timestamp == e.timestamp
    &&& n.event_type@ == event_type_key(e.event_type@)
    &&& n.session_id@ == trim(e.session_id@)
    &&& opt_view(n.project.name) == cleaned_optional(opt_view(e.project.name))
    &&& opt_view(n.project.path) == cleaned_optional(opt_view(e.project.path))
    &&& opt_view(n.project.git_branch) == cleaned_optional(opt_view(e.project.git_branch))
    &&& opt_view(n.project.git_remote) == cleaned_optional(opt_view(e.project.git_remote))
    &&& n.activity.lines_added == non_negative(e.activity.lines_added)
    &&& n.activity.lines_removed == non_negative(e.activity.lines_removed)
    &&& n.activity.time_spent_minutes == day_minutes(e.activity.time_spent_minutes)
    &&& n.activity.errors_encountered == non_negative(e.activity.errors_encountered)
    &&& files_normalized(views(e.activity.files_modified@), views(n.activity.files_modified@))
    &&& strings_normalized(
        views(e.activity.functions_touched@),
        views(n.activity.functions_touched@),
    )
    &&& strings_normalized(views(e.activity.libraries_used@), views(n.activity.libraries_used@))
    &&& languages_normalized(lang_views(e.activity.languages@), lang_views(n.activity.languages@))
    &&& metadata_normalized(e.metadata, n.metadata)
}

/// Validates and normalizes an incoming event before it is stored: the event
/// type must be a known one (compared trimmed and lowercased), the session id
/// must not be blank; texts are trimmed, counts made non-negative, minutes
/// kept within a day, file lists cleaned of secrets and duplicates, language
/// names merged, and credential keys removed from the metadata.
pub fn normalize_event(event: CodingEvent) -> (r: Result<CodingEvent, IngestError>)
    requires
        event.activity.languages.len() * 1440 <= u64::MAX,
    ensures
        match r {
            Ok(n) => {
                &&& allowed_event_type(event_type_key(event.event_type@))
                &&& trim(event.session_id@).len() > 0
                &&& normalized_event(event, n)
            },
            Err(IngestError::UnsupportedEventType(t)) => {
                &&& !allowed_event_type(event_type_key(event.event_type@))
                &&& t@ == event_type_key(event.event_type@)
            },
            Err(IngestError::MissingSessionId) => {
                &&& allowed_event_type(event_type_key(event.event_type@))
                &&& trim(event.session_id@).len() == 0
            },
        },
        r matches Ok(n) ==> n.activity.languages.len() <= event.activity.languages.len(),
        match r {
            Ok(n) => (forall|j: int|
                0 <= j < n.activity.languages@.len() ==> #[trigger] n.activity.languages@[j].1
                    <= 1440) ==> {
                &&& allowed_event_type(event_type_key(n.event_type@))
                &&& trim(n.session_id@).len() > 0
                &&& forall|m: CodingEvent| #[trigger] normalized_event(n, m) ==> same_event(n, m)
            },
            Err(_) => true,
        },
{
    let ghost original = event;
    let CodingEvent { timestamp, session_id, event_type, project, activity, metadata } = event;
    let event_type = lower_str(trim_str(event_type.as_str()).as_str());
    if !is_allowed_event_type(event_type.as_str()) {
        return Err(IngestError::UnsupportedEventType(event_type));
    }
    let session_id = trim_str(session_id.as_str());
    if session_id.as_str().is_empty() {
        return Err(IngestError::MissingSessionId);
    }
    let ProjectContext { name, path, git_branch, git_remote } = project;
    let project = ProjectContext {
        name: clean_optional(name),
        path: clean_optional(path),
        git_branch: clean_optional(git_branch),
        git_remote: clean_optional(git_remote),
    };
    let ActivityPayload {
        files_modified,
        languages,
        lines_added,
        lines_removed,
        functions_touched,
        time_spent_minutes,
        errors_encountered,
        libraries_used,
    } = activity;
    let activity = ActivityPayload {
        files_modified: normalize_files(files_modified),
        languages: normalize_languages(languages),
        lines_added: if lines_added < 0 { 0 } else { lines_added },
        lines_removed: if lines_removed < 0 { 0 } else { lines_removed },
        functions_touched: normalize_strings(functions_touched),
        time_spent_minutes: if time_spent_minutes < 0 {
            0
        } else if time_spent_minutes > 1440 {
            1440
        } else {
            time_spent_minutes
        },
        errors_encountered: if errors_encountered < 0 { 0 } else { errors_encountered },
        libraries_used: normalize_strings(libraries_used),
    };
    let metadata = normalize_metadata(metadata);
    let n = CodingEvent { timestamp, session_id, event_type, project, activity, metadata };
    proof {
        if forall|j: int|
            0 <= j < n.activity.languages@.len() ==> #[trigger] n.activity.languages@[j].1 <= 1440 {
            lemma_lower_trim_idempotent(original.event_type@);
            lemma_trim_idempotent(original.session_id@);
            assert forall|m: CodingEvent| #[trigger] normalized_event(n, m) implies same_event(
                n,
                m,
            ) by {
                law_normalize_event_idempotent(original, n, m);
            }
        }
    }
    Ok(n)
}

} // verus!
