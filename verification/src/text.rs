//! Character-level text utilities, each stated over `Seq<char>`.

use vstd::prelude::*;

verus! {

/// The Unicode `White_Space` property, as listed in `PropList.txt`.
pub open spec fn is_white_space(c: char) -> bool {
    let u = c as u32;
    ||| (0x09 <= u && u <= 0x0d)
    ||| u == 0x20
    ||| u == 0x85
    ||| u == 0xa0
    ||| u == 0x1680
    ||| (0x2000 <= u && u <= 0x200a)
    ||| u == 0x2028
    ||| u == 0x2029
    ||| u == 0x202f
    ||| u == 0x205f
    ||| u == 0x3000
}

/// Whether `c` has the Unicode `White_Space` property.
pub fn char_is_white_space(c: char) -> (b: bool)
    ensures
        b == is_white_space(c),
{
    let u = c as u32;
    (0x09 <= u && u <= 0x0d) || u == 0x20 || u == 0x85 || u == 0xa0 || u == 0x1680 || (0x2000
        <= u && u <= 0x200a) || u == 0x2028 || u == 0x2029 || u == 0x202f || u == 0x205f || u
        == 0x3000
}

} // verus!

verus! {

/// `s` without its leading white space.
pub open spec fn trim_start(s: Seq<char>) -> Seq<char>
    decreases s.len(),
{
    if s.len() > 0 && is_white_space(s[0]) {
        trim_start(s.drop_first())
    } else {
        s
    }
}

/// `s` without its trailing white space.
pub open spec fn trim_end(s: Seq<char>) -> Seq<char>
    decreases s.len(),
{
    if s.len() > 0 && is_white_space(s.last()) {
        trim_end(s.drop_last())
    } else {
        s
    }
}

/// `s` without leading and trailing white space, as `str::trim` gives it.
pub open spec fn trim(s: Seq<char>) -> Seq<char> {
    trim_end(trim_start(s))
}

/// `String::push`: appends one character to the end of the string, as its
/// documentation says.
#[verifier::external_body]
pub(crate) fn push_char(s: &mut String, c: char)
    ensures
        final(s)@ == old(s)@.push(c),
{
    s.push(c);
}

/// The characters of `s`, in order.
pub fn chars_of(s: &str) -> (v: Vec<char>)
    ensures
        v@ == s@,
{
    let mut v: Vec<char> = Vec::new();
    for c in iter: s.chars()
        invariant
            v@ == iter.seq().take(iter.index() as int),
    {
        v.push(c);
    }
    v
}

} // verus!

verus! {

/// The string made of `v[lo..hi]`.
pub fn string_from_range(v: &Vec<char>, lo: usize, hi: usize) -> (s: String)
    requires
        lo <= hi <= v.len(),
    ensures
        s@ == v@.subrange(lo as int, hi as int),
{
    let mut s = String::new();
    let mut k = lo;
    while k < hi
        invariant
            lo <= k <= hi <= v.len(),
            s@ == v@.subrange(lo as int, k as int),
        decreases hi - k,
    {
        push_char(&mut s, v[k]);
        assert(v@.subrange(lo as int, k + 1) =~= v@.subrange(lo as int, k as int).push(v@[k as int]));
        k = k + 1;
    }
    s
}

/// `str::trim`: `s` without leading and trailing white space.
pub fn trim_str(s: &str) -> (r: String)
    ensures
        r@ == trim(s@),
{
    let v = chars_of(s);
    let n = v.len();
    let mut i: usize = 0;
    assert(v@.subrange(0, n as int) =~= v@);
    while i < n && char_is_white_space(v[i])
        invariant
            i <= n == v.len(),
            trim_start(v@) == trim_start(v@.subrange(i as int, n as int)),
        decreases n - i,
    {
        assert(v@.subrange(i as int, n as int).drop_first() =~= v@.subrange(i + 1, n as int));
        i = i + 1;
    }
    assert(trim_start(v@) == v@.subrange(i as int, n as int));
    let mut j: usize = n;
    while j > i && char_is_white_space(v[j - 1])
        invariant
            i <= j <= n == v.len(),
            trim(v@) == trim_end(v@.subrange(i as int, j as int)),
        decreases j,
    {
        assert(v@.subrange(i as int, j as int).drop_last() =~= v@.subrange(i as int, j - 1));
        j = j - 1;
    }
    string_from_range(&v, i, j)
}

/// ASCII upper-case letters mapped to lower case, all else unchanged.
pub open spec fn lower_char(c: char) -> char {
    if 'A' <= c && c <= 'Z' {
        ((c as u32) + 32) as char
    } else {
        c
    }
}

/// `str::to_ascii_lowercase` over characters.
pub open spec fn lower(s: Seq<char>) -> Seq<char> {
    s.map_values(|c: char| lower_char(c))
}

/// `char::to_ascii_lowercase`.
pub fn lower_char_exec(c: char) -> (r: char)
    ensures
        r == lower_char(c),
{
    if 'A' <= c && c <= 'Z' {
        let u = (c as u32) + 32;
        assert(0x61 <= u <= 0x7a);
        char_from_ascii(u)
    } else {
        c
    }
}

/// The character with the given ASCII code.
fn char_from_ascii(u: u32) -> (c: char)
    requires
        u < 128,
    ensures
        c == u as char,
{
    let b = u as u8;
    b as char
}

/// `str::to_ascii_lowercase`.
pub fn lower_str(s: &str) -> (r: String)
    ensures
        r@ == lower(s@),
{
    let v = chars_of(s);
    let mut r = String::new();
    let mut k: usize = 0;
    while k < v.len()
        invariant
            k <= v.len(),
            v@ == s@,
            r@ == lower(v@.subrange(0, k as int)),
        decreases v.len() - k,
    {
        let c = lower_char_exec(v[k]);
        push_char(&mut r, c);
        assert(lower(v@.subrange(0, k + 1)) =~= lower(v@.subrange(0, k as int)).push(c));
        k = k + 1;
    }
    assert(v@.subrange(0, v.len() as int) =~= v@);
    r
}

} // verus!

verus! {

/// Character-wise equality of two strings.
pub fn str_eq(a: &str, b: &str) -> (r: bool)
    ensures
        r == (a@ == b@),
{
    let va = chars_of(a);
    let vb = chars_of(b);
    if va.len() != vb.len() {
        return false;
    }
    let mut k: usize = 0;
    while k < va.len()
        invariant
            k <= va.len() == vb.len(),
            va@ == a@,
            vb@ == b@,
            forall|i: int| 0 <= i < k ==> va@[i] == vb@[i],
        decreases va.len() - k,
    {
        if va[k] != vb[k] {
            return false;
        }
        k = k + 1;
    }
    assert(va@ =~= vb@);
    true
}

/// `s` with every `from` replaced by `to`.
pub open spec fn replace_char(s: Seq<char>, from: char, to: char) -> Seq<char> {
    s.map_values(|c: char| if c == from { to } else { c })
}

/// `str::replace` of one character by another.
pub fn replace_char_str(s: &str, from: char, to: char) -> (r: String)
    ensures
        r@ == replace_char(s@, from, to),
{
    let v = chars_of(s);
    let mut r = String::new();
    let mut k: usize = 0;
    while k < v.len()
        invariant
            k <= v.len(),
            v@ == s@,
            r@ == replace_char(v@.subrange(0, k as int), from, to),
        decreases v.len() - k,
    {
        let c = if v[k] == from {
            to
        } else {
            v[k]
        };
        push_char(&mut r, c);
        assert(replace_char(v@.subrange(0, k + 1), from, to) =~= replace_char(
            v@.subrange(0, k as int),
            from,
            to,
        ).push(c));
        k = k + 1;
    }
    assert(v@.subrange(0, v.len() as int) =~= v@);
    r
}

/// `m` occurs in `s` starting at index `i`.
pub open spec fn occurs_at(s: Seq<char>, m: Seq<char>, i: int) -> bool {
    0 <= i && i + m.len() <= s.len() && s.subrange(i, i + m.len()) == m
}

/// `str::contains` with a string pattern.
pub open spec fn contains_sub(s: Seq<char>, m: Seq<char>) -> bool {
    exists|i: int| occurs_at(s, m, i)
}

/// Whether `m` occurs in `v` at index `i`.
fn occurs_at_exec(v: &Vec<char>, m: &Vec<char>, i: usize) -> (r: bool)
    requires
        i + m.len() <= v.len(),
    ensures
        r == occurs_at(v@, m@, i as int),
{
    let mut k: usize = 0;
    while k < m.len()
        invariant
            i + m.len() <= v.len(),
            k <= m.len(),
            forall|j: int| 0 <= j < k ==> v@[i + j] == m@[j],
        decreases m.len() - k,
    {
        if v[i + k] != m[k] {
            assert(v@.subrange(i as int, i + m.len())[k as int] != m@[k as int]);
            return false;
        }
        k = k + 1;
    }
    assert(v@.subrange(i as int, i + m.len()) =~= m@);
    true
}

/// `str::contains`: whether `m` occurs in `s`.
pub fn contains_str(s: &str, m: &str) -> (r: bool)
    ensures
        r == contains_sub(s@, m@),
{
    let v = chars_of(s);
    let w = chars_of(m);
    if w.len() > v.len() {
        return false;
    }
    let last = v.len() - w.len();
    let mut i: usize = 0;
    while i <= last
        invariant
            last + w.len() == v.len(),
            v@ == s@,
            w@ == m@,
            forall|j: int| 0 <= j < i ==> !occurs_at(v@, w@, j),
        decreases last + 1 - i,
    {
        if occurs_at_exec(&v, &w, i) {
            return true;
        }
        if i == last {
            return false;
        }
        i = i + 1;
    }
    false
}

} // verus!

verus! {

/// The number of bytes UTF-8 takes for `c`.
pub open spec fn utf8_width(c: char) -> nat {
    if (c as u32) < 0x80 {
        1
    } else if (c as u32) < 0x800 {
        2
    } else if (c as u32) < 0x10000 {
        3
    } else {
        4
    }
}

/// The length of the UTF-8 encoding of `s`, which `str::len` gives.
pub open spec fn utf8_len(s: Seq<char>) -> nat
    decreases s.len(),
{
    if s.len() == 0 {
        0
    } else {
        utf8_len(s.drop_last()) + utf8_width(s.last())
    }
}

/// Whether `s.len()`, its length in bytes, exceeds `k`.
pub fn utf8_len_exceeds(s: &str, k: usize) -> (b: bool)
    ensures
        b == (utf8_len(s@) > k),
{
    let v = chars_of(s);
    let mut n: usize = 0;
    let mut i: usize = 0;
    while i < v.len()
        invariant
            i <= v.len(),
            v@ == s@,
            n == utf8_len(v@.take(i as int)),
            n <= k,
        decreases v.len() - i,
    {
        let c = v[i] as u32;
        let w: usize = if c < 0x80 { 1 } else if c < 0x800 { 2 } else if c < 0x10000 { 3 } else { 4 };
        assert(v@.take(i + 1).drop_last() =~= v@.take(i as int));
        assert(v@.take(i + 1).last() == v@[i as int]);
        if w > k - n {
            proof {
                lemma_utf8_len_prefix(v@, i + 1);
            }
            return true;
        }
        n = n + w;
        i = i + 1;
    }
    assert(v@.take(v.len() as int) =~= v@);
    false
}

proof fn lemma_utf8_len_prefix(s: Seq<char>, k: int)
    requires
        0 <= k <= s.len(),
    ensures
        utf8_len(s.take(k)) <= utf8_len(s),
    decreases s.len() - k,
{
    if k < s.len() {
        lemma_utf8_len_prefix(s, k + 1);
        assert(s.take(k + 1).drop_last() =~= s.take(k));
    } else {
        assert(s.take(k) =~= s);
    }
}

} // verus!
