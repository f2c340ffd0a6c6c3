use vstd::prelude::*;
use crate::text::chars_of;

verus! {

pub open spec fn is_digit(c: char) -> bool {
    48 <= (c as u32) && (c as u32) <= 57
}

pub open spec fn all_digits(d: Seq<char>) -> bool {
    forall|i: int| 0 <= i < d.len() ==> is_digit(d[i])
}

/// The number that a run of decimal digits writes.
pub open spec fn digits_value(d: Seq<char>) -> int
    decreases d.len(),
{
    if d.len() == 0 {
        0
    } else {
        digits_value(d.drop_last()) * 10 + ((d.last() as u32) - 48)
    }
}

/// The integer that `s` writes: an optional sign, then one or more decimal digits.
pub open spec fn int_text(s: Seq<char>) -> Option<int> {
    let signed = s.len() > 0 && (s[0] == '-' || s[0] == '+');
    let d = if signed {
        s.drop_first()
    } else {
        s
    };
    if d.len() == 0 || !all_digits(d) {
        None
    } else if signed && s[0] == '-' {
        Some(-digits_value(d))
    } else {
        Some(digits_value(d))
    }
}

/// The `i32` that `s` writes, as `str::parse::<i32>` reads it.
pub open spec fn i32_of(s: Seq<char>) -> Option<i32> {
    match int_text(s) {
        Some(v) => if i32::MIN <= v <= i32::MAX {
            Some(v as i32)
        } else {
            None
        },
        None => None,
    }
}

/// The `bool` that `s` writes, as `str::parse::<bool>` reads it.
pub open spec fn bool_of(s: Seq<char>) -> Option<bool> {
    if s == "true"@ {
        Some(true)
    } else if s == "false"@ {
        Some(false)
    } else {
        None
    }
}

pub proof fn lemma_digits_nonneg(d: Seq<char>)
    requires
        all_digits(d),
    ensures
        digits_value(d) >= 0,
    decreases d.len(),
{
    if d.len() > 0 {
        lemma_digits_nonneg(d.drop_last());
    }
}

pub proof fn lemma_digits_grow(d: Seq<char>, k: int)
    requires
        all_digits(d),
        0 <= k <= d.len(),
    ensures
        digits_value(d.subrange(0, k)) <= digits_value(d),
    decreases d.len() - k,
{
    if k == d.len() {
        assert(d.subrange(0, k) =~= d);
    } else {
        lemma_digits_grow(d, k + 1);
        assert(d.subrange(0, k + 1).drop_last() =~= d.subrange(0, k));
        lemma_digits_nonneg(d.subrange(0, k));
    }
}

pub fn parse_i32(s: &str) -> (r: Option<i32>)
    ensures
        r == i32_of(s@),
{
    let cs = chars_of(s);
    let signed = cs.len() > 0 && (cs[0] == '-' || cs[0] == '+');
    let neg = signed && cs[0] == '-';
    let start: usize = if signed {
        1
    } else {
        0
    };
    let ghost d = if signed {
        s@.drop_first()
    } else {
        s@
    };
    assert(d =~= cs@.subrange(start as int, cs@.len() as int));
    if start == cs.len() {
        return None;
    }
    let mut acc: i64 = 0;
    let mut i: usize = start;
    while i < cs.len()
        invariant
            start <= i <= cs.len(),
            start < cs.len(),
            cs@ == s@,
            signed == (s@.len() > 0 && (s@[0] == '-' || s@[0] == '+')),
            neg == (signed && s@[0] == '-'),
            start == (if signed { 1usize } else { 0usize }),
            d == (if signed { s@.drop_first() } else { s@ }),
            d == cs@.subrange(start as int, cs@.len() as int),
            0 <= acc <= 2147483648,
            acc == digits_value(d.subrange(0, i - start)),
            forall|j: int| 0 <= j < i - start ==> is_digit(d[j]),
        decreases cs.len() - i,
    {
        let c = cs[i];
        let u = c as u32;
        if u < 48 || u > 57 {
            assert(!is_digit(d[i - start]));
            return None;
        }
        assert(d.subrange(0, i + 1 - start).drop_last() =~= d.subrange(0, i - start));
        acc = acc * 10 + (u - 48) as i64;
        i = i + 1;
        if acc > 2147483648 {
            proof {
                if all_digits(d) {
                    lemma_digits_grow(d, i - start);
                }
            }
            return None;
        }
    }
    assert(d.subrange(0, i - start) =~= d);
    if neg {
        Some((-acc) as i32)
    } else if acc > 2147483647 {
        None
    } else {
        Some(acc as i32)
    }
}

pub fn parse_bool(s: &String) -> (r: Option<bool>)
    ensures
        r == bool_of(s@),
{
    let t = "true".to_owned();
    let f = "false".to_owned();
    if *s == t {
        Some(true)
    } else if *s == f {
        Some(false)
    } else {
        None
    }
}

} // verus!
