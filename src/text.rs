//! Character-level helpers shared by the text query layer and the monitor:
//! decimal digits, digit extraction and substring search.

use vstd::prelude::*;

verus! {

/// An ASCII decimal digit.
pub open spec fn is_digit(c: char) -> bool {
    '0' <= c && c <= '9'
}

/// The numeric value of an ASCII digit.
pub open spec fn digit_value(c: char) -> int {
    (c as int) - ('0' as int)
}

/// The ASCII digits of `s`, in order, with every other character dropped.
pub open spec fn digits_of(s: Seq<char>) -> Seq<char>
    decreases s.len(),
{
    if s.len() == 0 {
        Seq::empty()
    } else if is_digit(s.last()) {
        digits_of(s.drop_last()).push(s.last())
    } else {
        digits_of(s.drop_last())
    }
}

/// The number written by the digit string `d` in base ten.
pub open spec fn decimal_value(d: Seq<char>) -> int
    decreases d.len(),
{
    if d.len() == 0 {
        0
    } else {
        decimal_value(d.drop_last()) * 10 + digit_value(d.last())
    }
}

/// The value of the digits in `s`, if there are any and the value is at most `limit`.
pub open spec fn digits_number(s: Seq<char>, limit: u64) -> Option<u64> {
    let d = digits_of(s);
    if d.len() == 0 || decimal_value(d) > limit {
        None
    } else {
        Some(decimal_value(d) as u64)
    }
}

pub proof fn lemma_decimal_value_nonneg(d: Seq<char>)
    requires
        forall|i: int| 0 <= i < d.len() ==> is_digit(#[trigger] d[i]),
    ensures
        decimal_value(d) >= 0,
    decreases d.len(),
{
    if d.len() > 0 {
        lemma_decimal_value_nonneg(d.drop_last());
    }
}

pub proof fn lemma_digits_of_are_digits(s: Seq<char>)
    ensures
        forall|i: int| 0 <= i < digits_of(s).len() ==> is_digit(#[trigger] digits_of(s)[i]),
    decreases s.len(),
{
    if s.len() > 0 {
        let d = digits_of(s.drop_last());
        lemma_digits_of_are_digits(s.drop_last());
        assert forall|i: int| 0 <= i < digits_of(s).len() implies is_digit(
            #[trigger] digits_of(s)[i],
        ) by {
            if i < d.len() {
                assert(digits_of(s)[i] == d[i]);
            }
        }
    }
}

pub proof fn lemma_digits_number_bounds(s: Seq<char>, limit: u64)
    ensures
        digits_number(s, limit) matches Some(v) ==> v as int == decimal_value(digits_of(s)) && v
            <= limit,
{
    lemma_digits_of_are_digits(s);
    lemma_decimal_value_nonneg(digits_of(s));
}

/// Reads the ASCII digits of `text`, ignoring every other character, as one
/// number in base ten. `None` when there is no digit or the number exceeds `limit`.
pub fn extract_number(text: &str, limit: u64) -> (r: Option<u64>)
    ensures
        r == digits_number(text@, limit),
{
    let mut value: u64 = 0;
    let mut seen = false;
    let mut over = false;
    for c in it: text.chars()
        invariant
            it.seq() == text@,
            seen == (digits_of(text@.take(it.index() as int)).len() > 0),
            !over ==> value == decimal_value(digits_of(text@.take(it.index() as int))),
            !over ==> value <= limit,
            over ==> decimal_value(digits_of(text@.take(it.index() as int))) > limit,
    {
        let ghost p = text@.take(it.index() as int);
        proof {
            assert(text@.take(it.index() + 1) =~= p.push(c));
            assert(p.push(c).drop_last() =~= p);
            assert(digits_of(p).push(c).drop_last() =~= digits_of(p));
            lemma_digits_of_are_digits(p);
            lemma_decimal_value_nonneg(digits_of(p));
        }
        if '0' <= c && c <= '9' {
            seen = true;
            if !over {
                let d: u64 = (c as u64) - ('0' as u64);
                let next: u128 = (value as u128) * 10 + (d as u128);
                if next > limit as u128 {
                    over = true;
                } else {
                    value = next as u64;
                }
            }
        }
    }
    proof {
        assert(text@.take(text@.len() as int) =~= text@);
    }
    if !seen || over {
        None
    } else {
        Some(value)
    }
}

/// `p` occurs in `t` starting at position `i`.
pub open spec fn occurs_at(t: Seq<char>, p: Seq<char>, i: int) -> bool {
    0 <= i && i + p.len() <= t.len() && t.subrange(i, i + p.len()) == p
}

/// `p` occurs somewhere in `t` as a contiguous run of characters.
pub open spec fn contains_seq(t: Seq<char>, p: Seq<char>) -> bool {
    exists|i: int| #[trigger] occurs_at(t, p, i)
}

/// The characters of `s`, in order.
pub fn str_chars(s: &str) -> (r: Vec<char>)
    ensures
        r@ == s@,
{
    let mut out: Vec<char> = Vec::new();
    for c in it: s.chars()
        invariant
            it.seq() == s@,
            out@ == s@.take(it.index() as int),
    {
        proof {
            assert(s@.take(it.index() + 1) =~= out@.push(c));
        }
        out.push(c);
    }
    proof {
        assert(s@.take(s@.len() as int) =~= s@);
    }
    out
}

/// Whether `p` occurs at position `i` of `t`.
fn chars_occur_at(t: &Vec<char>, p: &Vec<char>, i: usize) -> (r: bool)
    requires
        i + p@.len() <= t@.len(),
    ensures
        r == occurs_at(t@, p@, i as int),
{
    let mut k: usize = 0;
    while k < p.len()
        invariant
            k <= p@.len(),
            i + p@.len() <= t.len(),
            forall|j: int| 0 <= j < k ==> t@[i + j] == p@[j],
        decreases p@.len() - k,
    {
        if t[i + k] != p[k] {
            proof {
                assert(t@.subrange(i as int, i + p@.len())[k as int] != p@[k as int]);
            }
            return false;
        }
        k += 1;
    }
    proof {
        assert(t@.subrange(i as int, i + p@.len()) =~= p@);
    }
    true
}

/// Whether `p` occurs in `t` as a contiguous run of characters.
pub fn chars_contain(t: &Vec<char>, p: &Vec<char>) -> (r: bool)
    ensures
        r == contains_seq(t@, p@),
{
    if p.len() > t.len() {
        proof {
            assert forall|i: int| !occurs_at(t@, p@, i) by {}
        }
        return false;
    }
    let last = t.len() - p.len();
    let mut i: usize = 0;
    loop
        invariant
            last == t@.len() - p@.len(),
            i <= last,
            forall|j: int| 0 <= j < i ==> !occurs_at(t@, p@, j),
        decreases last - i,
    {
        if chars_occur_at(t, p, i) {
            return true;
        }
        if i == last {
            proof {
                assert forall|j: int| !occurs_at(t@, p@, j) by {
                    if 0 <= j < i {
                    }
                }
            }
            return false;
        }
        i += 1;
    }
}

} // verus!
