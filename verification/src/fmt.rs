//! Decimal numbers and joined lists, as `format!` writes them.

use vstd::prelude::*;
use crate::order::views;
use crate::text::push_char;

verus! {

/// The ASCII digit for `d`.
pub open spec fn digit_char(d: nat) -> char {
    ((d + 48) as u32) as char
}

/// The decimal digits of `n`, most significant first, without leading zeros.
pub open spec fn decimal_nat(n: nat) -> Seq<char>
    decreases n,
{
    if n < 10 {
        seq![digit_char(n)]
    } else {
        decimal_nat(n / 10).push(digit_char(n % 10))
    }
}

/// `x` written in decimal, with a leading `-` when negative.
pub open spec fn decimal_int(x: int) -> Seq<char> {
    if x < 0 {
        seq!['-'] + decimal_nat((-x) as nat)
    } else {
        decimal_nat(x as nat)
    }
}

fn digit(d: u64) -> (c: char)
    requires
        d < 10,
    ensures
        c == digit_char(d as nat),
{
    let b = (d as u8) + 48;
    b as char
}

fn push_decimal(s: &mut String, n: u64)
    ensures
        final(s)@ == old(s)@ + decimal_nat(n as nat),
    decreases n,
{
    if n < 10 {
        push_char(s, digit(n));
        assert(old(s)@.push(digit_char(n as nat)) =~= old(s)@ + decimal_nat(n as nat));
    } else {
        push_decimal(s, n / 10);
        push_char(s, digit(n % 10));
        assert(old(s)@ + decimal_nat(n as nat) =~= (old(s)@ + decimal_nat((n / 10) as nat)).push(
            digit_char((n % 10) as nat),
        ));
    }
}

/// `u64` written in decimal, as `Display` writes it.
pub fn fmt_u64(n: u64) -> (s: String)
    ensures
        s@ == decimal_int(n as int),
{
    let mut s = String::new();
    push_decimal(&mut s, n);
    assert(Seq::<char>::empty() + decimal_nat(n as nat) =~= decimal_nat(n as nat));
    s
}

/// `i64` written in decimal, as `Display` writes it.
pub fn fmt_i64(x: i64) -> (s: String)
    ensures
        s@ == decimal_int(x as int),
{
    let mut s = String::new();
    if x < 0 {
        push_char(&mut s, '-');
        let m: u64 = (0 - (x as i128)) as u64;
        push_decimal(&mut s, m);
    } else {
        push_decimal(&mut s, x as u64);
        assert(Seq::<char>::empty() + decimal_nat(x as nat) =~= decimal_nat(x as nat));
    }
    s
}

/// `usize` written in decimal, as `Display` writes it.
pub fn fmt_usize(n: usize) -> (s: String)
    ensures
        s@ == decimal_int(n as int),
{
    fmt_u64(n as u64)
}

/// The items joined with `sep` between each two, as `[String]::join` gives.
pub open spec fn join(items: Seq<Seq<char>>, sep: Seq<char>) -> Seq<char>
    decreases items.len(),
{
    if items.len() == 0 {
        seq![]
    } else if items.len() == 1 {
        items[0]
    } else {
        join(items.drop_last(), sep) + sep + items.last()
    }
}

/// The first `n` strings of `items` (all when there are fewer) joined with `sep`.
pub fn join_first(items: &Vec<String>, n: usize, sep: &str) -> (s: String)
    ensures
        s@ == join(views(items@).take(if n < items.len() { n as int } else { items.len() as int }), sep@),
{
    let count = if n < items.len() { n } else { items.len() };
    let ghost iv = views(items@);
    let mut s = String::new();
    let mut i: usize = 0;
    while i < count
        invariant
            count <= items.len(),
            iv == views(items@),
            i <= count,
            s@ == join(iv.take(i as int), sep@),
        decreases count - i,
    {
        if i > 0 {
            s.append(sep);
        }
        s.append(items[i].as_str());
        assert(iv.take(i + 1).drop_last() =~= iv.take(i as int));
        i = i + 1;
    }
    s
}

} // verus!

verus! {

/// Every character is an ASCII digit.
pub open spec fn all_digits(s: Seq<char>) -> bool {
    forall|i: int| 0 <= i < s.len() ==> '0' <= #[trigger] s[i] && s[i] <= '9'
}

/// The number an all-digit text denotes.
pub open spec fn digits_value(s: Seq<char>) -> nat
    decreases s.len(),
{
    if s.len() == 0 {
        0
    } else {
        digits_value(s.drop_last()) * 10 + ((s.last() as u32) - 48) as nat
    }
}

proof fn lemma_digits_value_prefix(s: Seq<char>, k: int)
    requires
        all_digits(s),
        0 <= k <= s.len(),
    ensures
        digits_value(s.take(k)) <= digits_value(s),
    decreases s.len() - k,
{
    if k < s.len() {
        lemma_digits_value_prefix(s, k + 1);
        assert(s.take(k + 1).drop_last() =~= s.take(k));
    } else {
        assert(s.take(k) =~= s);
    }
}

/// The value of the all-digit text `v[lo..]`, when it is not empty and at
/// most `bound`.
pub fn parse_digits(v: &Vec<char>, lo: usize, bound: u64) -> (r: Option<u64>)
    requires
        lo <= v.len(),
    ensures
        ({
            let d = v@.skip(lo as int);
            r == if d.len() > 0 && all_digits(d) && digits_value(d) <= bound {
                Some(digits_value(d) as u64)
            } else {
                None
            }
        }),
{
    let ghost d = v@.skip(lo as int);
    if lo == v.len() {
        return None;
    }
    let mut acc: u128 = 0;
    let mut k: usize = lo;
    while k < v.len()
        invariant
            lo <= k <= v.len(),
            d == v@.skip(lo as int),
            all_digits(d.take(k - lo)),
            acc == digits_value(d.take(k - lo)),
            acc <= bound,
        decreases v.len() - k,
    {
        let c = v[k];
        if c < '0' || c > '9' {
            assert(d[k - lo] == c);
            return None;
        }
        assert(d.take(k - lo + 1).drop_last() =~= d.take(k - lo));
        assert(d.take(k - lo + 1).last() == c);
        acc = acc * 10 + ((c as u32) - 48) as u128;
        if acc > bound as u128 {
            proof {
                if all_digits(d) {
                    lemma_digits_value_prefix(d, k - lo + 1);
                }
            }
            return None;
        }
        k = k + 1;
    }
    assert(d.take(k - lo) =~= d);
    Some(acc as u64)
}

/// The value `u16::from_str` gives a text: an optional `+`, then one or more
/// digits, at most 65535.
pub open spec fn u16_text_value(s: Seq<char>) -> Option<u16> {
    let d = if s.len() > 0 && s[0] == '+' {
        s.drop_first()
    } else {
        s
    };
    if d.len() > 0 && all_digits(d) && digits_value(d) <= 65535 {
        Some(digits_value(d) as u16)
    } else {
        None
    }
}

/// `u16::from_str`, its error dropped.
pub fn parse_u16(s: &str) -> (r: Option<u16>)
    ensures
        r == u16_text_value(s@),
{
    let v = crate::text::chars_of(s);
    let lo: usize = if v.len() > 0 && v[0] == '+' { 1 } else { 0 };
    assert(v@.skip(lo as int) =~= (if s@.len() > 0 && s@[0] == '+' { s@.drop_first() } else { s@ }));
    match parse_digits(&v, lo, 65535) {
        Some(n) => Some(n as u16),
        None => None,
    }
}

/// The `i64` an integer JSON number text denotes: an optional `-`, then one
/// or more digits, within range.
pub open spec fn i64_text_value(s: Seq<char>) -> Option<i64> {
    if s.len() > 0 && s[0] == '-' {
        let d = s.drop_first();
        if d.len() > 0 && all_digits(d) && digits_value(d) <= 9223372036854775808 {
            Some((0 - digits_value(d)) as i64)
        } else {
            None
        }
    } else if s.len() > 0 && all_digits(s) && digits_value(s) <= 9223372036854775807 {
        Some(digits_value(s) as i64)
    } else {
        None
    }
}

/// The `i64` an integer number text denotes, if any.
pub fn parse_i64(s: &str) -> (r: Option<i64>)
    ensures
        r == i64_text_value(s@),
{
    let v = crate::text::chars_of(s);
    if v.len() > 0 && v[0] == '-' {
        assert(v@.skip(1) =~= s@.drop_first());
        match parse_digits(&v, 1, 9223372036854775808) {
            Some(n) => {
                let x: i128 = 0 - (n as i128);
                Some(x as i64)
            },
            None => None,
        }
    } else {
        assert(v@.skip(0) =~= s@);
        match parse_digits(&v, 0, 9223372036854775807) {
            Some(n) => Some(n as i64),
            None => None,
        }
    }
}

} // verus!
