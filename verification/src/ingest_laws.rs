//! Laws of event normalization: an accepted event, once normalized, is
//! accepted again and left as it is (but for language minutes above a day,
//! which a second pass caps).

use vstd::prelude::*;
use crate::ingest::{
    allowed_event_type, capped_minutes, clean_file, cleaned_optional, event_type_key,
    files_normalized, is_file_candidate, is_secret_key, is_string_candidate, keys_of,
    lang_counts, lang_present, lang_total, lang_views, languages_normalized, metadata_normalized,
    normalized_event, opt_view, strings_normalized, without_secrets,
};
use crate::model::{CodingEvent, JsonValue};
use crate::order::{lemma_lt_irreflexive, lemma_sorted_unique, views};
use crate::text::{contains_sub, is_white_space, lower, trim};
use crate::text_laws::{lemma_clean_path_idempotent, lemma_lower_trim_idempotent, lemma_trim_idempotent};

verus! {

/// Normalizing a file list twice gives the list of the first pass.
pub proof fn law_files_idempotent(f: Seq<Seq<char>>, r1: Seq<Seq<char>>, r2: Seq<Seq<char>>)
    requires
        files_normalized(f, r1),
        files_normalized(r1, r2),
    ensures
        r2 == r1,
{
    assert forall|x: Seq<char>| r1.contains(x) <==> r2.contains(x) by {
        if r1.contains(x) {
            assert(is_file_candidate(f, x));
            let i = choose|i: int| 0 <= i < f.len() && clean_file(#[trigger] f[i]) == x;
            lemma_clean_path_idempotent(f[i]);
            let j = choose|j: int| 0 <= j < r1.len() && r1[j] == x;
            assert(clean_file(r1[j]) == x);
            assert(is_file_candidate(r1, x));
        }
        if r2.contains(x) {
            assert(is_file_candidate(r1, x));
            let j = choose|j: int| 0 <= j < r1.len() && clean_file(#[trigger] r1[j]) == x;
            assert(r1.contains(r1[j]));
            assert(is_file_candidate(f, r1[j]));
            let i = choose|i: int| 0 <= i < f.len() && clean_file(#[trigger] f[i]) == r1[j];
            lemma_clean_path_idempotent(f[i]);
        }
    }
    lemma_sorted_unique(r1, r2);
}

/// Normalizing a list of names twice gives the list of the first pass.
pub proof fn law_strings_idempotent(f: Seq<Seq<char>>, r1: Seq<Seq<char>>, r2: Seq<Seq<char>>)
    requires
        strings_normalized(f, r1),
        strings_normalized(r1, r2),
    ensures
        r2 == r1,
{
    assert forall|x: Seq<char>| r1.contains(x) <==> r2.contains(x) by {
        if r1.contains(x) {
            assert(is_string_candidate(f, x));
            let i = choose|i: int| 0 <= i < f.len() && trim(#[trigger] f[i]) == x;
            lemma_trim_idempotent(f[i]);
            let j = choose|j: int| 0 <= j < r1.len() && r1[j] == x;
            assert(trim(r1[j]) == x);
            assert(is_string_candidate(r1, x));
        }
        if r2.contains(x) {
            assert(is_string_candidate(r1, x));
            let j = choose|j: int| 0 <= j < r1.len() && trim(#[trigger] r1[j]) == x;
            assert(r1.contains(r1[j]));
            assert(is_string_candidate(f, r1[j]));
            let i = choose|i: int| 0 <= i < f.len() && trim(#[trigger] f[i]) == r1[j];
            lemma_trim_idempotent(f[i]);
        }
    }
    lemma_sorted_unique(r1, r2);
}

proof fn lemma_present_total_positive(entries: Seq<(Seq<char>, u64)>, key: Seq<char>)
    requires
        lang_present(entries, key),
    ensures
        lang_total(entries, key) > 0,
    decreases entries.len(),
{
    let d = entries.drop_last();
    if lang_counts(entries.last(), key) {
        crate::ingest::lemma_lang_total_nonneg(d, key);
    } else {
        let i = choose|i: int| 0 <= i < entries.len() && lang_counts(#[trigger] entries[i], key);
        assert(i < entries.len() - 1);
        assert(d[i] == entries[i]);
        lemma_present_total_positive(d, key);
    }
}

proof fn lemma_single_total(entries: Seq<(Seq<char>, u64)>, key: Seq<char>, j: int)
    requires
        0 <= j < entries.len(),
        lang_counts(entries[j], key),
        forall|i: int| 0 <= i < entries.len() && i != j ==> !lang_counts(#[trigger] entries[i], key),
    ensures
        lang_total(entries, key) == capped_minutes(entries[j].1),
    decreases entries.len(),
{
    let d = entries.drop_last();
    if j == entries.len() - 1 {
        assert(!lang_present(d, key)) by {
            if lang_present(d, key) {
                let i = choose|i: int| 0 <= i < d.len() && lang_counts(#[trigger] d[i], key);
                assert(entries[i] == d[i]);
            }
        }
        crate::ingest::lemma_absent_total(d, key);
    } else {
        assert forall|i: int| 0 <= i < d.len() && i != j implies !lang_counts(#[trigger] d[i], key) by {
            assert(entries[i] == d[i]);
        }
        assert(d[j] == entries[j]);
        lemma_single_total(d, key, j);
    }
}

/// Normalizing a language map twice gives the map of the first pass, as long
/// as no merged total exceeds a day.
pub proof fn law_languages_idempotent(
    e: Seq<(Seq<char>, u64)>,
    r1: Seq<(Seq<char>, u64)>,
    r2: Seq<(Seq<char>, u64)>,
)
    requires
        languages_normalized(e, r1),
        languages_normalized(r1, r2),
        forall|j: int| 0 <= j < r1.len() ==> #[trigger] r1[j].1 <= 1440,
    ensures
        r2 == r1,
{
    let k1 = keys_of(r1);
    let k2 = keys_of(r2);
    // every key of the first pass counts for itself, and for nothing else
    assert forall|j: int| 0 <= j < r1.len() implies lang_counts(#[trigger] r1[j], r1[j].0) by {
        assert(k1[j] == r1[j].0);
        assert(k1.contains(r1[j].0));
        assert(lang_present(e, r1[j].0));
        let i = choose|i: int| 0 <= i < e.len() && lang_counts(#[trigger] e[i], r1[j].0);
        lemma_lower_trim_idempotent(e[i].0);
        lemma_present_total_positive(e, r1[j].0);
    }
    assert forall|j: int, key: Seq<char>| 0 <= j < r1.len() && #[trigger] lang_counts(r1[j], key) implies key == r1[j].0 by {
        assert(lang_counts(r1[j], r1[j].0));
    }
    assert forall|x: Seq<char>| k1.contains(x) <==> k2.contains(x) by {
        if k1.contains(x) {
            let j = choose|j: int| 0 <= j < k1.len() && k1[j] == x;
            assert(lang_counts(r1[j], x));
            assert(lang_present(r1, x));
        }
        if k2.contains(x) {
            assert(lang_present(r1, x));
            let j = choose|j: int| 0 <= j < r1.len() && lang_counts(#[trigger] r1[j], x);
            assert(k1[j] == x);
        }
    }
    lemma_sorted_unique(k1, k2);
    assert forall|j: int| 0 <= j < r2.len() implies #[trigger] r2[j] == r1[j] by {
        assert(k2[j] == k1[j]);
        let key = r1[j].0;
        assert forall|i: int| 0 <= i < r1.len() && i != j implies !lang_counts(#[trigger] r1[i], key) by {
            if lang_counts(r1[i], key) {
                assert(k1[i] == k1[j]);
                if i < j {
                    assert(crate::order::seq_lt(k1[i], k1[j]));
                } else {
                    assert(crate::order::seq_lt(k1[j], k1[i]));
                }
                lemma_lt_irreflexive(key);
            }
        }
        lemma_single_total(r1, key, j);
    }
    assert(r2 =~= r1);
}

/// Dropping credential keys twice drops the same entries as once.
pub proof fn law_without_secrets_idempotent(s: Seq<(String, JsonValue)>)
    ensures
        without_secrets(without_secrets(s)) == without_secrets(s),
    decreases s.len(),
{
    if s.len() > 0 {
        law_without_secrets_idempotent(s.drop_last());
        let rest = without_secrets(s.drop_last());
        if !is_secret_key(s.last().0@) {
            assert(rest.push(s.last()).drop_last() =~= rest);
        }
    }
}

/// Two events carry the same values.
pub open spec fn same_event(a: CodingEvent, b: CodingEvent) -> bool {
    &&& a.timestamp == b.timestamp
    &&& a.event_type@ == b.event_type@
    &&& a.session_id@ == b.session_id@
    &&& opt_view(a.project.name) == opt_view(b.project.name)
    &&& opt_view(a.project.path) == opt_view(b.project.path)
    &&& opt_view(a.project.git_branch) == opt_view(b.project.git_branch)
    &&& opt_view(a.project.git_remote) == opt_view(b.project.git_remote)
    &&& a.activity.lines_added == b.activity.lines_added
    &&& a.activity.lines_removed == b.activity.lines_removed
    &&& a.activity.time_spent_minutes == b.activity.time_spent_minutes
    &&& a.activity.errors_encountered == b.activity.errors_encountered
    &&& views(a.activity.files_modified@) == views(b.activity.files_modified@)
    &&& views(a.activity.functions_touched@) == views(b.activity.functions_touched@)
    &&& views(a.activity.libraries_used@) == views(b.activity.libraries_used@)
    &&& lang_views(a.activity.languages@) == lang_views(b.activity.languages@)
    &&& match (a.metadata, b.metadata) {
        (JsonValue::Object(x), JsonValue::Object(y)) => x@ == y@,
        (x, y) => x == y,
    }
}

proof fn lemma_cleaned_optional_idempotent(o: Option<Seq<char>>)
    ensures
        cleaned_optional(cleaned_optional(o)) == cleaned_optional(o),
{
    if let Some(s) = o {
        lemma_trim_idempotent(s);
    }
}

/// Normalization settles after one pass: an accepted event, once normalized,
/// is accepted again, and normalizing it again changes nothing — provided no
/// merged language total of the first pass exceeds a day (a second pass would
/// cap it).
pub proof fn law_normalize_event_idempotent(e: CodingEvent, n1: CodingEvent, n2: CodingEvent)
    requires
        allowed_event_type(event_type_key(e.event_type@)),
        trim(e.session_id@).len() > 0,
        normalized_event(e, n1),
        normalized_event(n1, n2),
        forall|j: int|
            0 <= j < n1.activity.languages@.len() ==> #[trigger] n1.activity.languages@[j].1
                <= 1440,
    ensures
        allowed_event_type(event_type_key(n1.event_type@)),
        trim(n1.session_id@).len() > 0,
        same_event(n1, n2),
{
    lemma_lower_trim_idempotent(e.event_type@);
    lemma_trim_idempotent(e.session_id@);
    lemma_cleaned_optional_idempotent(opt_view(e.project.name));
    lemma_cleaned_optional_idempotent(opt_view(e.project.path));
    lemma_cleaned_optional_idempotent(opt_view(e.project.git_branch));
    lemma_cleaned_optional_idempotent(opt_view(e.project.git_remote));
    law_files_idempotent(
        views(e.activity.files_modified@),
        views(n1.activity.files_modified@),
        views(n2.activity.files_modified@),
    );
    law_strings_idempotent(
        views(e.activity.functions_touched@),
        views(n1.activity.functions_touched@),
        views(n2.activity.functions_touched@),
    );
    law_strings_idempotent(
        views(e.activity.libraries_used@),
        views(n1.activity.libraries_used@),
        views(n2.activity.libraries_used@),
    );
    let l1 = lang_views(n1.activity.languages@);
    assert forall|j: int| 0 <= j < l1.len() implies #[trigger] l1[j].1 <= 1440 by {
        assert(l1[j].1 == n1.activity.languages@[j].1);
    }
    law_languages_idempotent(
        lang_views(e.activity.languages@),
        l1,
        lang_views(n2.activity.languages@),
    );
    match e.metadata {
        JsonValue::Object(entries) => {
            law_without_secrets_idempotent(entries@);
        },
        JsonValue::Null => {
            if let JsonValue::Object(kept) = n1.metadata {
                assert(without_secrets(kept@) =~= kept@);
            }
        },
        _ => {},
    }
}

} // verus!

verus! {

/// No file name kept by normalization is blank, names a secret, or holds a
/// Windows separator.
pub proof fn law_normalized_files_are_clean(f: Seq<Seq<char>>, r: Seq<Seq<char>>)
    requires
        files_normalized(f, r),
    ensures
        forall|i: int|
            0 <= i < r.len() ==> (#[trigger] r[i]).len() > 0 && !crate::ingest::is_sensitive(r[i])
                && !r[i].contains('\\'),
{
    assert forall|i: int| 0 <= i < r.len() implies (#[trigger] r[i]).len() > 0
        && !crate::ingest::is_sensitive(r[i]) && !r[i].contains('\\') by {
        assert(r.contains(r[i]));
        let j = choose|j: int| 0 <= j < f.len() && clean_file(#[trigger] f[j]) == r[i];
        if r[i].contains('\\') {
            let k = choose|k: int| 0 <= k < r[i].len() && r[i][k] == '\\';
            assert(clean_file(f[j])[k] != '\\');
        }
    }
}

proof fn lemma_without_secrets_clean(s: Seq<(String, JsonValue)>)
    ensures
        forall|i: int|
            0 <= i < without_secrets(s).len() ==> !is_secret_key((#[trigger] without_secrets(s)[i]).0@),
    decreases s.len(),
{
    if s.len() > 0 {
        lemma_without_secrets_clean(s.drop_last());
        let rest = without_secrets(s.drop_last());
        if !is_secret_key(s.last().0@) {
            assert forall|i: int| 0 <= i < rest.push(s.last()).len() implies !is_secret_key(
                (#[trigger] rest.push(s.last())[i]).0@,
            ) by {
                if i < rest.len() {
                    assert(rest.push(s.last())[i] == rest[i]);
                }
            }
        }
    }
}

/// Normalized metadata that is an object holds none of the credential keys
/// `secret`, `token`, `password`, `apiKey`, `api_key`.
pub proof fn law_metadata_has_no_secret(m: JsonValue, r: JsonValue)
    requires
        metadata_normalized(m, r),
    ensures
        r matches JsonValue::Object(kept) ==> forall|i: int|
            0 <= i < kept@.len() ==> !is_secret_key((#[trigger] kept@[i]).0@),
{
    match m {
        JsonValue::Object(entries) => {
            lemma_without_secrets_clean(entries@);
        },
        _ => {},
    }
}

/// A file name that points at a secret: once lowercased it holds `.env`,
/// `secret`, `password`, `token`, `apikey`, `api_key`, `.pem` or `.key`.
pub open spec fn names_secret_file(p: Seq<char>) -> bool {
    let l = lower(p);
    contains_sub(l, ".env"@) || contains_sub(l, "secret"@) || contains_sub(l, "password"@)
        || contains_sub(l, "token"@) || contains_sub(l, "apikey"@) || contains_sub(l, "api_key"@)
        || contains_sub(l, ".pem"@) || contains_sub(l, ".key"@)
}

/// File normalization keeps exactly the harmless names: no kept name points
/// at a secret, is blank or has white space at either end, and every entry
/// whose cleaned name (trimmed, `\` turned into `/`) is not blank and
/// points at no secret is kept under that name.
pub proof fn law_files_keep_exactly_the_harmless(f: Seq<Seq<char>>, r: Seq<Seq<char>>)
    requires
        files_normalized(f, r),
    ensures
        forall|i: int|
            0 <= i < r.len() ==> !names_secret_file(#[trigger] r[i]) && r[i].len() > 0
                && !is_white_space(r[i][0]) && !is_white_space(r[i].last()),
        forall|j: int|
            0 <= j < f.len() && clean_file(#[trigger] f[j]).len() > 0 && !names_secret_file(
                clean_file(f[j]),
            ) ==> r.contains(clean_file(f[j])),
{
    assert forall|i: int| 0 <= i < r.len() implies !names_secret_file(#[trigger] r[i])
        && r[i].len() > 0 && !is_white_space(r[i][0]) && !is_white_space(r[i].last()) by {
        assert(r.contains(r[i]));
        let j = choose|j: int| 0 <= j < f.len() && clean_file(#[trigger] f[j]) == r[i];
        crate::text_laws::lemma_trim_shape(f[j]);
        let t = trim(f[j]);
        assert(r[i][0] == (if t[0] == '\\' { '/' } else { t[0] }));
        assert(r[i].last() == (if t.last() == '\\' { '/' } else { t.last() }));
    }
    assert forall|j: int|
        0 <= j < f.len() && clean_file(#[trigger] f[j]).len() > 0 && !names_secret_file(
            clean_file(f[j]),
        ) implies r.contains(clean_file(f[j])) by {
        assert(is_file_candidate(f, clean_file(f[j])));
    }
}

proof fn lemma_without_secrets_keeps(s: Seq<(String, JsonValue)>, j: int)
    requires
        0 <= j < s.len(),
        !is_secret_key(s[j].0@),
    ensures
        without_secrets(s).contains(s[j]),
    decreases s.len(),
{
    let rest = without_secrets(s.drop_last());
    if j == s.len() - 1 {
        assert(without_secrets(s) == rest.push(s.last()));
        assert(rest.push(s.last())[rest.len() as int] == s[j]);
    } else {
        lemma_without_secrets_keeps(s.drop_last(), j);
        assert(s.drop_last()[j] == s[j]);
        let k = choose|k: int| 0 <= k < rest.len() && rest[k] == s[j];
        if is_secret_key(s.last().0@) {
        } else {
            assert(rest.push(s.last())[k] == s[j]);
        }
    }
}

/// Metadata normalization drops exactly the credential keys: what an object
/// keeps has none of the keys `secret`, `token`, `password`, `apiKey` and
/// `api_key`, and it keeps every entry under any other key; null becomes an
/// empty object and other values stay as they are.
pub proof fn law_metadata_drops_exactly_credentials(m: JsonValue, r: JsonValue)
    requires
        metadata_normalized(m, r),
    ensures
        m is Object ==> r is Object,
        m is Null ==> (r matches JsonValue::Object(kept) && kept@.len() == 0),
        !(m is Object) && !(m is Null) ==> r == m,
        r matches JsonValue::Object(kept) ==> forall|i: int|
            0 <= i < kept@.len() ==> (#[trigger] kept@[i]).0@ != "secret"@ && kept@[i].0@
                != "token"@ && kept@[i].0@ != "password"@ && kept@[i].0@ != "apiKey"@
                && kept@[i].0@ != "api_key"@,
        m matches JsonValue::Object(entries) ==> forall|j: int|
            0 <= j < entries@.len() && (#[trigger] entries@[j]).0@ != "secret"@ && entries@[j].0@
                != "token"@ && entries@[j].0@ != "password"@ && entries@[j].0@ != "apiKey"@
                && entries@[j].0@ != "api_key"@ ==> (r matches JsonValue::Object(kept)
                && kept@.contains(entries@[j])),
{
    law_metadata_has_no_secret(m, r);
    match m {
        JsonValue::Object(entries) => {
            assert forall|j: int|
                0 <= j < entries@.len() && (#[trigger] entries@[j]).0@ != "secret"@
                    && entries@[j].0@ != "token"@ && entries@[j].0@ != "password"@
                    && entries@[j].0@ != "apiKey"@ && entries@[j].0@ != "api_key"@ implies (r matches JsonValue::Object(
                kept,
            ) && kept@.contains(entries@[j])) by {
                lemma_without_secrets_keeps(entries@, j);
            }
        },
        _ => {},
    }
}

/// Normalization keeps counts in range: line and error counts are never
/// negative and are kept when they are not, and the minutes spent are kept
/// within a day (0 to 1440), unchanged when already within it. The event
/// type is stored trimmed and ASCII-lowercased, the session id trimmed.
pub proof fn law_normalized_counts(e: CodingEvent, n: CodingEvent)
    requires
        normalized_event(e, n),
    ensures
        n.activity.lines_added == if e.activity.lines_added < 0 { 0 } else { e.activity.lines_added },
        n.activity.lines_removed == if e.activity.lines_removed < 0 {
            0
        } else {
            e.activity.lines_removed
        },
        n.activity.errors_encountered == if e.activity.errors_encountered < 0 {
            0
        } else {
            e.activity.errors_encountered
        },
        0 <= n.activity.time_spent_minutes <= 1440,
        0 <= e.activity.time_spent_minutes <= 1440 ==> n.activity.time_spent_minutes
            == e.activity.time_spent_minutes,
        e.activity.time_spent_minutes > 1440 ==> n.activity.time_spent_minutes == 1440,
        e.activity.time_spent_minutes < 0 ==> n.activity.time_spent_minutes == 0,
        n.event_type@ == lower(trim(e.event_type@)),
        n.session_id@ == trim(e.session_id@),
        n.timestamp == e.timestamp,
{
}

} // verus!
