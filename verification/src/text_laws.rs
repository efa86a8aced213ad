//! Facts about the text functions: trimming, lowercasing and replacing a
//! character each settle after one application, and commute with each other.

use vstd::prelude::*;
use crate::text::{
    contains_sub, is_white_space, lower, lower_char, occurs_at, replace_char, trim, trim_end,
    trim_start,
};

verus! {

proof fn lemma_trim_start_shape(s: Seq<char>)
    ensures
        trim_start(s).len() <= s.len(),
        trim_start(s) == s.skip(s.len() - trim_start(s).len()),
        trim_start(s).len() == 0 || !is_white_space(trim_start(s)[0]),
    decreases s.len(),
{
    if s.len() > 0 && is_white_space(s[0]) {
        lemma_trim_start_shape(s.drop_first());
        assert(s.drop_first().skip(s.drop_first().len() - trim_start(s).len()) =~= s.skip(
            s.len() - trim_start(s).len(),
        ));
    } else {
        assert(s.skip(0) =~= s);
    }
}

proof fn lemma_trim_end_shape(s: Seq<char>)
    ensures
        trim_end(s).len() <= s.len(),
        trim_end(s) == s.take(trim_end(s).len() as int),
        trim_end(s).len() == 0 || !is_white_space(trim_end(s).last()),
    decreases s.len(),
{
    if s.len() > 0 && is_white_space(s.last()) {
        lemma_trim_end_shape(s.drop_last());
        assert(s.drop_last().take(trim_end(s).len() as int) =~= s.take(trim_end(s).len() as int));
    } else {
        assert(s.take(s.len() as int) =~= s);
    }
}

/// A text with no white space at either end is its own trimmed form.
pub proof fn lemma_trim_fixed(s: Seq<char>)
    requires
        s.len() == 0 || (!is_white_space(s[0]) && !is_white_space(s.last())),
    ensures
        trim(s) == s,
{
    assert(trim_start(s) == s);
}

/// A trimmed text has no white space at either end.
pub proof fn lemma_trim_shape(s: Seq<char>)
    ensures
        trim(s).len() == 0 || (!is_white_space(trim(s)[0]) && !is_white_space(trim(s).last())),
{
    lemma_trim_start_shape(s);
    let ts = trim_start(s);
    lemma_trim_end_shape(ts);
    if trim(s).len() > 0 {
        assert(trim(s)[0] == ts[0]);
    }
}

/// Trimming twice is trimming once.
pub proof fn lemma_trim_idempotent(s: Seq<char>)
    ensures
        trim(trim(s)) == trim(s),
{
    lemma_trim_shape(s);
    lemma_trim_fixed(trim(s));
}

/// Lowercasing keeps whether a character is white space.
pub proof fn lemma_lower_char_white_space(c: char)
    ensures
        is_white_space(lower_char(c)) == is_white_space(c),
        lower_char(lower_char(c)) == lower_char(c),
{
    if 'A' <= c && c <= 'Z' {
        let u: u32 = ((c as u32) + 32) as u32;
        assert(0x61 <= u <= 0x7a);
        assert(lower_char(c) == u as char);
    }
}

/// Lowercasing twice is lowercasing once.
pub proof fn lemma_lower_idempotent(s: Seq<char>)
    ensures
        lower(lower(s)) == lower(s),
{
    assert forall|i: int| 0 <= i < s.len() implies lower(lower(s))[i] == lower(s)[i] by {
        lemma_lower_char_white_space(s[i]);
    }
    assert(lower(lower(s)) =~= lower(s));
}

/// Trimming and lowercasing commute.
pub proof fn lemma_trim_lower_commute(s: Seq<char>)
    ensures
        trim(lower(s)) == lower(trim(s)),
{
    lemma_trim_start_lower(s);
    lemma_trim_end_lower(trim_start(s));
}

proof fn lemma_trim_start_lower(s: Seq<char>)
    ensures
        trim_start(lower(s)) == lower(trim_start(s)),
    decreases s.len(),
{
    if s.len() > 0 {
        lemma_lower_char_white_space(s[0]);
        assert(lower(s)[0] == lower_char(s[0]));
        assert(lower(s).drop_first() =~= lower(s.drop_first()));
        lemma_trim_start_lower(s.drop_first());
    } else {
        assert(lower(s) =~= s);
    }
}

proof fn lemma_trim_end_lower(s: Seq<char>)
    ensures
        trim_end(lower(s)) == lower(trim_end(s)),
    decreases s.len(),
{
    if s.len() > 0 {
        lemma_lower_char_white_space(s.last());
        assert(lower(s).last() == lower_char(s.last()));
        assert(lower(s).drop_last() =~= lower(s.drop_last()));
        lemma_trim_end_lower(s.drop_last());
    } else {
        assert(lower(s) =~= s);
    }
}

/// Trimming then lowercasing settles after one application.
pub proof fn lemma_lower_trim_idempotent(s: Seq<char>)
    ensures
        lower(trim(lower(trim(s)))) == lower(trim(s)),
{
    lemma_trim_lower_commute(trim(s));
    lemma_trim_idempotent(s);
    lemma_lower_idempotent(trim(s));
    lemma_lower_idempotent(lower(trim(s)));
}

/// Replacing `\` by `/` commutes with trimming and settles after one
/// application.
pub proof fn lemma_clean_path_idempotent(s: Seq<char>)
    ensures
        replace_char(trim(replace_char(trim(s), '\\', '/')), '\\', '/') == replace_char(
            trim(s),
            '\\',
            '/',
        ),
{
    let t = trim(s);
    lemma_trim_shape(s);
    let r = replace_char(t, '\\', '/');
    assert(r.len() == t.len());
    if r.len() > 0 {
        assert(r[0] == (if t[0] == '\\' { '/' } else { t[0] }));
        assert(r.last() == (if t.last() == '\\' { '/' } else { t.last() }));
    }
    lemma_trim_fixed(r);
    assert(replace_char(r, '\\', '/') =~= r);
}

/// A text occurs in any text made of it with something before and after.
pub proof fn lemma_occurs_between(p: Seq<char>, m: Seq<char>, q: Seq<char>)
    ensures
        occurs_at(p + m + q, m, p.len() as int),
        contains_sub(p + m + q, m),
{
    assert((p + m + q).subrange(p.len() as int, (p.len() + m.len()) as int) =~= m);
}

/// What occurs in a part of a text occurs in the whole text.
pub proof fn lemma_occurs_within(p: Seq<char>, m: Seq<char>, q: Seq<char>, x: Seq<char>)
    requires
        contains_sub(m, x),
    ensures
        contains_sub(p + m + q, x),
{
    let i = choose|i: int| occurs_at(m, x, i);
    assert((p + m + q).subrange(p.len() + i, p.len() + i + x.len()) =~= m.subrange(i, i + x.len()));
    assert(occurs_at(p + m + q, x, p.len() + i));
}

} // verus!
