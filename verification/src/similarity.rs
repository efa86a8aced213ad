//! Word overlap between texts: the style score of a draft against the voice
//! examples, the similarity used to rank examples, and that ranking.

use vstd::prelude::*;
use crate::order::views;
use crate::text::{lower, lower_str, push_char, trim, trim_str, utf8_len};

verus! {

/// Whether a character is alphabetic or numeric in Unicode, as
/// `char::is_alphanumeric` decides.
pub uninterp spec fn is_alphanumeric(c: char) -> bool;

/// An ASCII letter or digit.
pub open spec fn is_ascii_alphanumeric(c: char) -> bool {
    ('a' <= c && c <= 'z') || ('A' <= c && c <= 'Z') || ('0' <= c && c <= '9')
}

/// `char::is_alphanumeric`: alphabetic or numeric in Unicode. The contract
/// names the property it reads from the character database, and states that
/// among ASCII characters it holds of the letters and digits alone; the
/// tables for the other characters are not restated.
#[verifier::external_body]
fn char_is_alphanumeric(c: char) -> (b: bool)
    ensures
        b == is_alphanumeric(c),
        (c as u32) < 128 ==> (b <==> is_ascii_alphanumeric(c)),
{
    c.is_alphanumeric()
}

/// The pieces `str::split` cuts a text into at each character that is not
/// alphanumeric, empty pieces included.
pub open spec fn split_pieces(s: Seq<char>) -> Seq<Seq<char>>
    decreases s.len(),
{
    if s.len() == 0 {
        seq![seq![]]
    } else {
        let p = split_pieces(s.drop_last());
        if !is_alphanumeric(s.last()) {
            p.push(seq![])
        } else {
            p.update(p.len() - 1, p.last().push(s.last()))
        }
    }
}

/// The tokens kept from some pieces: each trimmed and ASCII-lowercased, kept
/// when its UTF-8 encoding is longer than three bytes, as `str::len` counts.
pub open spec fn keep_tokens(pieces: Seq<Seq<char>>) -> Seq<Seq<char>>
    decreases pieces.len(),
{
    if pieces.len() == 0 {
        seq![]
    } else {
        let rest = keep_tokens(pieces.drop_last());
        let t = lower(trim(pieces.last()));
        if utf8_len(t) > 3 {
            rest.push(t)
        } else {
            rest
        }
    }
}

/// The words of a text that count for similarity.
pub open spec fn token_list(s: Seq<char>) -> Seq<Seq<char>> {
    keep_tokens(split_pieces(s))
}

proof fn lemma_split_nonempty(s: Seq<char>)
    ensures
        split_pieces(s).len() >= 1,
    decreases s.len(),
{
    if s.len() > 0 {
        lemma_split_nonempty(s.drop_last());
    }
}

fn push_token(tokens: &mut Vec<String>, piece: &String)
    ensures
        views(final(tokens)@) == views(old(tokens)@) + keep_tokens(seq![piece@]),
{
    let t = lower_str(trim_str(piece.as_str()).as_str());
    let ghost one = seq![piece@];
    assert(one.drop_last() =~= Seq::<Seq<char>>::empty());
    assert(one.last() == piece@);
    assert(keep_tokens(one.drop_last()) =~= Seq::<Seq<char>>::empty());
    if crate::text::utf8_len_exceeds(t.as_str(), 3) {
        tokens.push(t);
        assert(views(tokens@) =~= views(old(tokens)@) + keep_tokens(seq![piece@]));
    } else {
        assert(views(tokens@) =~= views(old(tokens)@) + keep_tokens(seq![piece@]));
    }
}

proof fn lemma_keep_tokens_append(a: Seq<Seq<char>>, b: Seq<Seq<char>>)
    ensures
        keep_tokens(a + b) == keep_tokens(a) + keep_tokens(b),
    decreases b.len(),
{
    if b.len() == 0 {
        assert(a + b =~= a);
        assert(keep_tokens(a) + keep_tokens(b) =~= keep_tokens(a));
    } else {
        lemma_keep_tokens_append(a, b.drop_last());
        assert((a + b).drop_last() =~= a + b.drop_last());
        assert(keep_tokens(b) == {
            let rest = keep_tokens(b.drop_last());
            let t = lower(trim(b.last()));
            if utf8_len(t) > 3 {
                rest.push(t)
            } else {
                rest
            }
        });
        let t = lower(trim(b.last()));
        if utf8_len(t) > 3 {
            assert(keep_tokens(a) + keep_tokens(b.drop_last()).push(t) =~= (keep_tokens(a)
                + keep_tokens(b.drop_last())).push(t));
        }
    }
}

/// The words of a text that count for similarity: the alphanumeric runs,
/// trimmed and ASCII-lowercased, of more than three bytes. Among the text's
/// ASCII characters, the alphanumeric ones are its letters and digits.
pub fn tokens(text: &str) -> (r: Vec<String>)
    ensures
        views(r@) == token_list(text@),
        forall|k: int|
            0 <= k < text@.len() && (text@[k] as u32) < 128 ==> (is_alphanumeric(#[trigger] text@[k])
                <==> is_ascii_alphanumeric(text@[k])),
{
    let v = crate::text::chars_of(text);
    let mut r: Vec<String> = Vec::new();
    let mut piece = String::new();
    let mut i: usize = 0;
    while i < v.len()
        invariant
            i <= v.len(),
            v@ == text@,
            split_pieces(v@.take(i as int)).len() >= 1,
            piece@ == split_pieces(v@.take(i as int)).last(),
            views(r@) == keep_tokens(split_pieces(v@.take(i as int)).drop_last()),
            forall|k: int|
                0 <= k < i && (v@[k] as u32) < 128 ==> (is_alphanumeric(#[trigger] v@[k])
                    <==> is_ascii_alphanumeric(v@[k])),
        decreases v.len() - i,
    {
        let ghost prev = split_pieces(v@.take(i as int));
        let c = v[i];
        assert(v@.take(i + 1).drop_last() =~= v@.take(i as int));
        assert(v@.take(i + 1).last() == c);
        if char_is_alphanumeric(c) {
            push_char(&mut piece, c);
            assert(split_pieces(v@.take(i + 1)).drop_last() =~= prev.drop_last());
        } else {
            proof {
                lemma_keep_tokens_append(prev.drop_last(), seq![prev.last()]);
                assert(prev.drop_last() + seq![prev.last()] =~= prev);
                assert(split_pieces(v@.take(i + 1)).drop_last() =~= prev);
            }
            push_token(&mut r, &piece);
            piece = String::new();
        }
        i = i + 1;
    }
    let ghost all = split_pieces(v@);
    assert(v@.take(v.len() as int) =~= v@);
    proof {
        lemma_keep_tokens_append(all.drop_last(), seq![all.last()]);
        assert(all.drop_last() + seq![all.last()] =~= all);
    }
    push_token(&mut r, &piece);
    r
}

/// How many of the tokens of `a` also occur in `b`, counting repeats in `a`.
pub open spec fn overlap_count(a: Seq<Seq<char>>, b: Seq<Seq<char>>) -> nat
    decreases a.len(),
{
    if a.len() == 0 {
        0
    } else {
        overlap_count(a.drop_last(), b) + if b.contains(a.last()) {
            1nat
        } else {
            0nat
        }
    }
}

proof fn lemma_overlap_bound(a: Seq<Seq<char>>, b: Seq<Seq<char>>)
    ensures
        overlap_count(a, b) <= a.len(),
    decreases a.len(),
{
    if a.len() > 0 {
        lemma_overlap_bound(a.drop_last(), b);
    }
}

fn contains_string(v: &Vec<String>, x: &String) -> (r: bool)
    ensures
        r == views(v@).contains(x@),
{
    let mut i: usize = 0;
    while i < v.len()
        invariant
            i <= v.len(),
            forall|j: int| 0 <= j < i ==> v@[j]@ != x@,
        decreases v.len() - i,
    {
        if v[i].eq(x) {
            assert(views(v@)[i as int] == x@);
            return true;
        }
        i = i + 1;
    }
    proof {
        if views(v@).contains(x@) {
            let j = choose|j: int| 0 <= j < views(v@).len() && views(v@)[j] == x@;
            assert(v@[j]@ == x@);
        }
    }
    false
}

/// The number of tokens of `a` that occur in `b`.
pub fn overlap(a: &Vec<String>, b: &Vec<String>) -> (r: usize)
    ensures
        r == overlap_count(views(a@), views(b@)),
        r <= a.len(),
{
    let ghost av = views(a@);
    let mut n: usize = 0;
    let mut i: usize = 0;
    while i < a.len()
        invariant
            i <= a.len(),
            av == views(a@),
            n == overlap_count(av.take(i as int), views(b@)),
            n <= i,
        decreases a.len() - i,
    {
        assert(av.take(i + 1).drop_last() =~= av.take(i as int));
        assert(av.take(i + 1).last() == a@[i as int]@);
        if contains_string(b, &a[i]) {
            n = n + 1;
        }
        i = i + 1;
    }
    assert(av.take(a.len() as int) =~= av);
    n
}

/// The similarity of two token lists as a fraction: the overlap over the
/// longer length; nothing when either list is empty.
pub open spec fn similarity_fraction(q: Seq<Seq<char>>, t: Seq<Seq<char>>) -> Option<(nat, nat)> {
    if q.len() == 0 || t.len() == 0 {
        None
    } else {
        Some(
            (
                overlap_count(q, t),
                if q.len() < t.len() {
                    t.len()
                } else {
                    q.len()
                },
            ),
        )
    }
}

/// The similarity of `query` and `text` before rounding: how many query
/// tokens occur in the text, over the larger token count. `None` stands for a
/// similarity of zero, when either text has no tokens.
pub fn text_similarity_fraction(query: &str, text: &str) -> (r: Option<(usize, usize)>)
    ensures
        match r {
            Some((n, d)) => similarity_fraction(token_list(query@), token_list(text@)) == Some(
                (n as nat, d as nat),
            ) && 0 < d && n <= d,
            None => similarity_fraction(token_list(query@), token_list(text@)) is None,
        },
{
    let q = tokens(query);
    let t = tokens(text);
    if q.len() == 0 || t.len() == 0 {
        return None;
    }
    let n = overlap(&q, &t);
    let d = if q.len() < t.len() { t.len() } else { q.len() };
    Some((n, d))
}

} // verus!

verus! {

/// How close a draft with tokens `ct` is to the example `ex`, as a fraction:
/// shared tokens over the larger token count.
pub open spec fn style_fraction(ct: Seq<Seq<char>>, ex: Seq<char>) -> (nat, nat) {
    let et = token_list(ex);
    (overlap_count(ct, et), if ct.len() < et.len() {
        et.len()
    } else {
        ct.len()
    })
}

/// An example with tokens of its own takes part in the style score.
pub open spec fn style_candidate(ex: Seq<char>) -> bool {
    token_list(ex).len() > 0
}

/// The style score of `content` against the voice examples before rounding:
/// the largest of its fractions over the examples that have tokens. `None`
/// stands for a score of zero: there are no examples, the draft has no
/// tokens, or no example has any.
pub fn best_style_fraction(content: &str, examples: &Vec<String>) -> (r: Option<(usize, usize)>)
    ensures
        ({
            let ct = token_list(content@);
            let ex = views(examples@);
            match r {
                None => ex.len() == 0 || ct.len() == 0 || forall|j: int|
                    0 <= j < ex.len() ==> !style_candidate(#[trigger] ex[j]),
                Some((n, d)) => {
                    &&& ct.len() > 0
                    &&& 0 < d
                    &&& n <= d
                    &&& exists|j: int|
                        0 <= j < ex.len() && style_candidate(#[trigger] ex[j]) && style_fraction(
                            ct,
                            ex[j],
                        ) == (n as nat, d as nat)
                    &&& forall|j: int|
                        0 <= j < ex.len() && style_candidate(#[trigger] ex[j]) ==> n
                            * style_fraction(ct, ex[j]).1 >= style_fraction(ct, ex[j]).0 * d
                },
            }
        }),
{
    let ghost ex = views(examples@);
    if examples.len() == 0 {
        return None;
    }
    let ct = tokens(content);
    if ct.len() == 0 {
        return None;
    }
    let mut best: Option<(usize, usize)> = None;
    let mut j: usize = 0;
    while j < examples.len()
        invariant
            j <= examples.len(),
            ex == views(examples@),
            views(ct@) == token_list(content@),
            ct.len() > 0,
            match best {
                None => forall|i: int| 0 <= i < j ==> !style_candidate(#[trigger] ex[i]),
                Some((n, d)) => {
                    &&& 0 < d
                    &&& n <= d
                    &&& exists|i: int|
                        0 <= i < j && style_candidate(#[trigger] ex[i]) && style_fraction(
                            views(ct@),
                            ex[i],
                        ) == (n as nat, d as nat)
                    &&& forall|i: int|
                        0 <= i < j && style_candidate(#[trigger] ex[i]) ==> n * style_fraction(
                            views(ct@),
                            ex[i],
                        ).1 >= style_fraction(views(ct@), ex[i]).0 * d
                },
            },
        decreases examples.len() - j,
    {
        let et = tokens(examples[j].as_str());
        assert(ex[j as int] == examples@[j as int]@);
        if et.len() > 0 {
            let o = overlap(&ct, &et);
            let den = if ct.len() < et.len() { et.len() } else { ct.len() };
            let better = match best {
                None => true,
                Some((n, d)) => mul_wide(o, d) > mul_wide(n, den),
            };
            let ghost old_best = best;
            if better {
                best = Some((o, den));
                proof {
                    assert(style_fraction(views(ct@), ex[j as int]) == (o as nat, den as nat));
                    if let Some((n0, d0)) = old_best {
                        assert forall|i: int| 0 <= i < j + 1 && style_candidate(#[trigger] ex[i]) implies o
                            * style_fraction(views(ct@), ex[i]).1 >= style_fraction(
                            views(ct@),
                            ex[i],
                        ).0 * den by {
                            if i < j {
                                let f = style_fraction(views(ct@), ex[i]);
                                // n0 * f.1 >= f.0 * d0 and o * d0 > n0 * den
                                assert(n0 * f.1 >= f.0 * d0);
                                assert(o * d0 > n0 * den);
                                assert(o * f.1 >= f.0 * den) by (nonlinear_arith)
                                    requires
                                        n0 * f.1 >= f.0 * d0,
                                        o * d0 > n0 * den,
                                        d0 > 0,
                                        den > 0,
                                        f.1 > 0,
                                ;
                            }
                        }
                    } else {
                        assert forall|i: int| 0 <= i < j + 1 && style_candidate(#[trigger] ex[i]) implies o
                            * style_fraction(views(ct@), ex[i]).1 >= style_fraction(
                            views(ct@),
                            ex[i],
                        ).0 * den by {
                            assert(i == j);
                        }
                    }
                }
            } else {
                proof {
                    if let Some((n0, d0)) = best {
                        assert(style_fraction(views(ct@), ex[j as int]) == (o as nat, den as nat));
                        assert(n0 * den >= o * d0) by (nonlinear_arith)
                            requires
                                !(o * d0 > n0 * den),
                        ;
                    }
                }
            }
        }
        j = j + 1;
    }
    best
}

/// The exact product of two sizes.
fn mul_wide(a: usize, b: usize) -> (r: u128)
    ensures
        r == a * b,
{
    assert(a * b <= 0xffff_ffff_ffff_ffff * 0xffff_ffff_ffff_ffffu128) by (nonlinear_arith)
        requires
            a <= 0xffff_ffff_ffff_ffffu128,
            b <= 0xffff_ffff_ffff_ffffu128,
    ;
    (a as u128) * (b as u128)
}

/// Score `scores[i]` ranks before `scores[j]`: higher, or equal and earlier.
pub open spec fn ranks_before(scores: Seq<u64>, i: int, j: int) -> bool {
    scores[i] > scores[j] || (scores[i] == scores[j] && i < j)
}

/// How many ranked results are returned for `limit`: clamped to `1..=20`.
pub open spec fn rank_limit(limit: i64) -> int {
    if limit < 1 {
        1
    } else if limit > 20 {
        20
    } else {
        limit as int
    }
}

/// The indices of the best scores, best first, ties in the order given,
/// as many as `limit` clamped to `1..=20` (fewer when there are fewer
/// scores): a stable sort by descending score, then a truncation.
pub fn rank_by_score(scores: &Vec<u64>, limit: i64) -> (r: Vec<usize>)
    ensures
        r.len() == if scores.len() < rank_limit(limit) {
            scores.len() as int
        } else {
            rank_limit(limit)
        },
        forall|k: int| 0 <= k < r.len() ==> #[trigger] r@[k] < scores.len(),
        forall|a: int, b: int|
            0 <= a < b < r.len() ==> ranks_before(scores@, #[trigger] r@[a] as int, #[trigger] r@[b] as int),
        forall|i: int, k: int|
            0 <= i < scores.len() && 0 <= k < r.len() && !r@.contains(i as usize)
                ==> #[trigger] ranks_before(scores@, r@[k] as int, i),
{
    let mut r: Vec<usize> = Vec::new();
    let mut i: usize = 0;
    while i < scores.len()
        invariant
            i <= scores.len(),
            r.len() == i,
            forall|k: int| 0 <= k < r.len() ==> #[trigger] r@[k] < i,
            forall|a: int, b: int|
                0 <= a < b < r.len() ==> ranks_before(scores@, #[trigger] r@[a] as int, #[trigger] r@[b] as int),
            forall|x: usize| x < i ==> #[trigger] r@.contains(x),
        decreases scores.len() - i,
    {
        let mut p: usize = 0;
        while p < r.len() && scores[r[p]] >= scores[i]
            invariant
                p <= r.len(),
                r.len() == i,
                i < scores.len(),
                forall|k: int| 0 <= k < r.len() ==> #[trigger] r@[k] < i,
                forall|k: int| 0 <= k < p ==> ranks_before(scores@, #[trigger] r@[k] as int, i as int),
            decreases r.len() - p,
        {
            p = p + 1;
        }
        let ghost old_r = r@;
        proof {
            if p < r.len() {
                assert forall|k: int| p <= k < r.len() implies ranks_before(scores@, i as int, #[trigger] old_r[k] as int) by {
                    if k > p {
                        assert(ranks_before(scores@, old_r[p as int] as int, old_r[k] as int));
                    }
                }
            }
        }
        r.insert(p, i);
        assert(r@ =~= old_r.insert(p as int, i));
        proof {
            assert forall|a: int, b: int| 0 <= a < b < r.len() implies ranks_before(scores@, #[trigger] r@[a] as int, #[trigger] r@[b] as int) by {
                if a < p && b > p {
                    assert(r@[b] == old_r[b - 1]);
                    assert(ranks_before(scores@, old_r[a] as int, i as int));
                    assert(ranks_before(scores@, i as int, old_r[b - 1] as int));
                } else if b < p {
                } else if a < p {
                } else if a == p {
                    assert(r@[b] == old_r[b - 1]);
                } else {
                    assert(r@[b] == old_r[b - 1]);
                    assert(r@[a] == old_r[a - 1]);
                }
            }
            assert forall|x: usize| x < i + 1 implies #[trigger] r@.contains(x) by {
                if x < i {
                    assert(old_r.contains(x));
                    let k = choose|k: int| 0 <= k < old_r.len() && old_r[k] == x;
                    if k < p {
                        assert(r@[k] == x);
                    } else {
                        assert(r@[k + 1] == x);
                    }
                } else {
                    assert(r@[p as int] == x);
                }
            }
        }
        i = i + 1;
    }
    let m: usize = if limit < 1 {
        1
    } else if limit > 20 {
        20
    } else {
        limit as usize
    };
    let ghost full = r@;
    if m < r.len() {
        r.truncate(m);
    }
    proof {
        assert forall|x: int, k: int|
            0 <= x < scores.len() && 0 <= k < r.len() && !r@.contains(x as usize) implies #[trigger] ranks_before(
            scores@,
            r@[k] as int,
            x,
        ) by {
            assert(full.contains(x as usize));
            let t = choose|t: int| 0 <= t < full.len() && full[t] == x as usize;
            if t < r.len() {
                assert(r@[t] == x as usize);
                assert(r@.contains(x as usize));
            }
            assert(r@[k] == full[k]);
            assert(ranks_before(scores@, full[k] as int, full[t] as int));
        }
    }
    r
}

/// The test "occurs among `b`".
pub open spec fn occurs_among(b: Seq<Seq<char>>) -> spec_fn(Seq<char>) -> bool {
    |x: Seq<char>| b.contains(x)
}

proof fn lemma_overlap_is_filter_count(a: Seq<Seq<char>>, b: Seq<Seq<char>>)
    ensures
        overlap_count(a, b) == a.filter(occurs_among(b)).len(),
    decreases a.len(),
{
    if a.len() > 0 {
        lemma_overlap_is_filter_count(a.drop_last(), b);
        a.drop_last().lemma_filter_len_push(occurs_among(b), a.last());
        assert(a.drop_last().push(a.last()) =~= a);
    } else {
        assert(a.filter(occurs_among(b)) =~= Seq::<Seq<char>>::empty()) by {
            reveal(Seq::filter);
        }
    }
}

/// A draft's style fraction against an example counts the draft's tokens,
/// repeats included, that occur among the example's tokens, over the larger
/// of the two token counts.
pub proof fn law_style_fraction_counts_draft_tokens(ct: Seq<Seq<char>>, ex: Seq<char>)
    ensures
        style_fraction(ct, ex).0 == ct.filter(occurs_among(token_list(ex))).len(),
        style_fraction(ct, ex).1 >= ct.len(),
        style_fraction(ct, ex).1 >= token_list(ex).len(),
        style_fraction(ct, ex).1 == ct.len() || style_fraction(ct, ex).1 == token_list(ex).len(),
{
    lemma_overlap_is_filter_count(ct, token_list(ex));
}

/// The similarity of a query to a text counts the query's tokens, repeats
/// included, that occur among the text's tokens, over the larger of the two
/// token counts; it is nothing when either has no tokens.
pub proof fn law_similarity_counts_query_tokens(q: Seq<Seq<char>>, t: Seq<Seq<char>>)
    ensures
        (q.len() == 0 || t.len() == 0) <==> similarity_fraction(q, t) is None,
        similarity_fraction(q, t) matches Some((n, d)) ==> n == q.filter(occurs_among(t)).len()
            && d >= q.len() && d >= t.len() && (d == q.len() || d == t.len()),
{
    lemma_overlap_is_filter_count(q, t);
}

proof fn lemma_kept_tokens_are_clean(pieces: Seq<Seq<char>>)
    ensures
        forall|k: int|
            0 <= k < keep_tokens(pieces).len() ==> utf8_len(#[trigger] keep_tokens(pieces)[k]) > 3
                && lower(trim(keep_tokens(pieces)[k])) == keep_tokens(pieces)[k],
    decreases pieces.len(),
{
    if pieces.len() > 0 {
        lemma_kept_tokens_are_clean(pieces.drop_last());
        crate::text_laws::lemma_lower_trim_idempotent(pieces.last());
        let rest = keep_tokens(pieces.drop_last());
        let t = lower(trim(pieces.last()));
        assert forall|k: int| 0 <= k < keep_tokens(pieces).len() implies utf8_len(
            #[trigger] keep_tokens(pieces)[k],
        ) > 3 && lower(trim(keep_tokens(pieces)[k])) == keep_tokens(pieces)[k] by {
            if utf8_len(t) > 3 {
                assert(keep_tokens(pieces) == rest.push(t));
                if k < rest.len() {
                    assert(keep_tokens(pieces)[k] == rest[k]);
                }
            } else {
                assert(keep_tokens(pieces) == rest);
            }
        }
    }
}

/// Every token of a text is a word of more than three bytes that is already
/// trimmed and ASCII-lowercased.
pub proof fn law_tokens_are_clean_words(text: Seq<char>)
    ensures
        forall|k: int|
            0 <= k < token_list(text).len() ==> utf8_len(#[trigger] token_list(text)[k]) > 3
                && lower(trim(token_list(text)[k])) == token_list(text)[k],
{
    lemma_kept_tokens_are_clean(split_pieces(text));
}

} // verus!
