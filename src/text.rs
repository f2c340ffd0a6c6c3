use vstd::prelude::*;

verus! {

/// The characters with the Unicode `White_Space` property.
pub open spec fn is_space(c: char) -> bool {
    let u = c as u32;
    (0x09 <= u && u <= 0x0D) || u == 0x20 || u == 0x85 || u == 0xA0 || u == 0x1680 || (0x2000
        <= u && u <= 0x200A) || u == 0x2028 || u == 0x2029 || u == 0x202F || u == 0x205F || u
        == 0x3000
}

pub fn is_space_char(c: char) -> (r: bool)
    ensures
        r == is_space(c),
{
    let u = c as u32;
    (0x09 <= u && u <= 0x0D) || u == 0x20 || u == 0x85 || u == 0xA0 || u == 0x1680 || (0x2000
        <= u && u <= 0x200A) || u == 0x2028 || u == 0x2029 || u == 0x202F || u == 0x205F || u
        == 0x3000
}

/// `p` occurs in `s` starting at index `i`.
pub open spec fn occurs_at(s: Seq<char>, p: Seq<char>, i: int) -> bool {
    0 <= i && i + p.len() <= s.len() && s.subrange(i, i + p.len()) == p
}

/// The first index at or after `i` where the non-empty pattern `p` occurs.
pub open spec fn find_from(s: Seq<char>, p: Seq<char>, i: int) -> Option<int>
    decreases s.len() - i,
{
    if p.len() == 0 || i < 0 || i + p.len() > s.len() {
        None
    } else if occurs_at(s, p, i) {
        Some(i)
    } else {
        find_from(s, p, i + 1)
    }
}

/// Splitting `s` on `p`, scanning from index `i` inside the piece that starts at `piece`.
pub open spec fn split_scan(s: Seq<char>, p: Seq<char>, piece: int, i: int) -> Seq<Seq<char>>
    decreases s.len() - i,
{
    if p.len() == 0 || i < 0 || i + p.len() > s.len() {
        seq![s.subrange(piece, s.len() as int)]
    } else if occurs_at(s, p, i) {
        seq![s.subrange(piece, i)] + split_scan(s, p, i + p.len(), i + p.len())
    } else {
        split_scan(s, p, piece, i + 1)
    }
}

/// The pieces of `s` between occurrences of the separator `p`, as `str::split` gives them.
pub open spec fn split(s: Seq<char>, p: Seq<char>) -> Seq<Seq<char>> {
    split_scan(s, p, 0, 0)
}

/// The text before and after the first occurrence of `p`, as `str::split_once` gives them.
pub open spec fn split_once(s: Seq<char>, p: Seq<char>) -> Option<(Seq<char>, Seq<char>)> {
    match find_from(s, p, 0) {
        Some(i) => Some((s.subrange(0, i), s.subrange(i + p.len(), s.len() as int))),
        None => None,
    }
}

/// The words of `s` from index `i` on, where `start` is the start of the word being read.
pub open spec fn words_scan(s: Seq<char>, i: int, start: Option<int>) -> Seq<Seq<char>>
    decreases s.len() - i,
{
    if i < 0 || i >= s.len() {
        match start {
            Some(a) => seq![s.subrange(a, s.len() as int)],
            None => seq![],
        }
    } else if is_space(s[i]) {
        match start {
            Some(a) => seq![s.subrange(a, i)] + words_scan(s, i + 1, None),
            None => words_scan(s, i + 1, None),
        }
    } else {
        match start {
            Some(a) => words_scan(s, i + 1, Some(a)),
            None => words_scan(s, i + 1, Some(i)),
        }
    }
}

/// The maximal runs of non-space characters, as `str::split_whitespace` gives them.
pub open spec fn words(s: Seq<char>) -> Seq<Seq<char>> {
    words_scan(s, 0, None)
}

/// The first index at or after `i` that holds no space.
pub open spec fn skip_space(s: Seq<char>, i: int) -> int
    decreases s.len() - i,
{
    if 0 <= i < s.len() && is_space(s[i]) {
        skip_space(s, i + 1)
    } else {
        i
    }
}

/// The end of `s.subrange(0, e)` once trailing spaces are dropped.
pub open spec fn back_space(s: Seq<char>, e: int) -> int
    decreases e,
{
    if 0 < e <= s.len() && is_space(s[e - 1]) {
        back_space(s, e - 1)
    } else {
        e
    }
}

/// `s` without leading and trailing spaces, as `str::trim` gives it.
pub open spec fn trim(s: Seq<char>) -> Seq<char> {
    let t = s.subrange(0, back_space(s, s.len() as int));
    t.subrange(skip_space(t, 0), t.len() as int)
}

pub open spec fn views(v: Seq<Vec<char>>) -> Seq<Seq<char>> {
    v.map_values(|x: Vec<char>| x@)
}

/// Relies on `Iterator::collect` over `str::chars`: the characters of `s`, in order.
#[verifier::external_body]
pub(crate) fn chars_of(s: &str) -> (r: Vec<char>)
    ensures
        r@ == s@,
{
    s.chars().collect()
}

/// Relies on `Iterator::collect` into a `String`: the string of the characters of `v`.
#[verifier::external_body]
pub(crate) fn string_of(v: &Vec<char>) -> (r: String)
    ensures
        r@ == v@,
{
    v.iter().collect()
}

pub fn occurs(s: &Vec<char>, p: &Vec<char>, i: usize) -> (r: bool)
    ensures
        r == occurs_at(s@, p@, i as int),
{
    if p.len() > s.len() || i > s.len() - p.len() {
        return false;
    }
    let mut k: usize = 0;
    while k < p.len()
        invariant
            k <= p.len(),
            i + p.len() <= s.len(),
            forall|j: int| 0 <= j < k ==> s@[i + j] == p@[j],
        decreases p.len() - k,
    {
        if s[i + k] != p[k] {
            assert(s@.subrange(i as int, i + p.len())[k as int] != p@[k as int]);
            return false;
        }
        k = k + 1;
    }
    assert(s@.subrange(i as int, i + p.len()) =~= p@);
    true
}

pub fn same_chars(a: &Vec<char>, b: &Vec<char>) -> (r: bool)
    ensures
        r == (a@ == b@),
{
    if a.len() != b.len() {
        return false;
    }
    let mut k: usize = 0;
    while k < a.len()
        invariant
            k <= a.len() == b.len(),
            forall|j: int| 0 <= j < k ==> a@[j] == b@[j],
        decreases a.len() - k,
    {
        if a[k] != b[k] {
            return false;
        }
        k = k + 1;
    }
    assert(a@ =~= b@);
    true
}

/// The characters of `s` from `a` up to `b`.
pub fn slice_chars(s: &Vec<char>, a: usize, b: usize) -> (r: Vec<char>)
    requires
        a <= b <= s.len(),
    ensures
        r@ == s@.subrange(a as int, b as int),
{
    let mut r: Vec<char> = Vec::new();
    let mut k: usize = a;
    while k < b
        invariant
            a <= k <= b <= s.len(),
            r@ == s@.subrange(a as int, k as int),
        decreases b - k,
    {
        r.push(s[k]);
        k = k + 1;
        assert(r@ =~= s@.subrange(a as int, k as int));
    }
    r
}

pub fn find_in(s: &Vec<char>, p: &Vec<char>) -> (r: Option<usize>)
    ensures
        r matches Some(i) ==> find_from(s@, p@, 0) == Some(i as int),
        r is None ==> find_from(s@, p@, 0) is None,
{
    if p.len() == 0 {
        return None;
    }
    let mut i: usize = 0;
    while p.len() <= s.len() - i
        invariant
            p.len() > 0,
            i <= s.len(),
            find_from(s@, p@, i as int) == find_from(s@, p@, 0),
        decreases s.len() - i,
    {
        if occurs(s, p, i) {
            return Some(i);
        }
        i = i + 1;
    }
    None
}

pub fn split_chars(s: &Vec<char>, p: &Vec<char>) -> (r: Vec<Vec<char>>)
    ensures
        views(r@) == split(s@, p@),
{
    let mut out: Vec<Vec<char>> = Vec::new();
    if p.len() == 0 {
        out.push(slice_chars(s, 0, s.len()));
        assert(views(out@) =~= split(s@, p@));
        return out;
    }
    let mut piece: usize = 0;
    let mut i: usize = 0;
    while p.len() <= s.len() - i
        invariant
            p.len() > 0,
            piece <= i <= s.len(),
            views(out@) + split_scan(s@, p@, piece as int, i as int) == split(s@, p@),
        decreases s.len() - i,
    {
        if occurs(s, p, i) {
            let part = slice_chars(s, piece, i);
            let ghost before = out@;
            out.push(part);
            assert(views(out@) =~= views(before).push(part@));
            assert(views(out@) + split_scan(s@, p@, (i + p.len()) as int, (i + p.len()) as int)
                =~= views(before) + split_scan(s@, p@, piece as int, i as int));
            i = i + p.len();
            piece = i;
        } else {
            i = i + 1;
        }
    }
    let part = slice_chars(s, piece, s.len());
    let ghost before = out@;
    out.push(part);
    assert(views(out@) =~= views(before) + split_scan(s@, p@, piece as int, i as int));
    out
}

pub fn words_of(s: &Vec<char>) -> (r: Vec<Vec<char>>)
    ensures
        views(r@) == words(s@),
{
    let mut out: Vec<Vec<char>> = Vec::new();
    let mut start: Option<usize> = None;
    let mut i: usize = 0;
    while i < s.len()
        invariant
            i <= s.len(),
            start matches Some(a) ==> a <= i,
            views(out@) + words_scan(s@, i as int, match start {
                Some(a) => Some(a as int),
                None => None,
            }) == words(s@),
        decreases s.len() - i,
    {
        let ghost before = out@;
        if is_space_char(s[i]) {
            if let Some(a) = start {
                let part = slice_chars(s, a, i);
                out.push(part);
                assert(views(out@) + words_scan(s@, i + 1, None) =~= views(before) + (seq![
                    part@,
                ] + words_scan(s@, i + 1, None)));
            }
            start = None;
        } else if start.is_none() {
            start = Some(i);
        }
        i = i + 1;
    }
    if let Some(a) = start {
        let ghost before = out@;
        let part = slice_chars(s, a, s.len());
        out.push(part);
        assert(views(out@) =~= views(before) + seq![part@]);
    } else {
        assert(views(out@) =~= views(out@) + Seq::<Seq<char>>::empty());
    }
    out
}

pub fn trim_chars(s: &Vec<char>) -> (r: Vec<char>)
    ensures
        r@ == trim(s@),
{
    let mut e: usize = s.len();
    while e > 0 && is_space_char(s[e - 1])
        invariant
            e <= s.len(),
            back_space(s@, e as int) == back_space(s@, s.len() as int),
        decreases e,
    {
        e = e - 1;
    }
    let ghost t = s@.subrange(0, e as int);
    let mut b: usize = 0;
    while b < e && is_space_char(s[b])
        invariant
            b <= e <= s.len(),
            t == s@.subrange(0, e as int),
            skip_space(t, b as int) == skip_space(t, 0),
        decreases e - b,
    {
        b = b + 1;
    }
    slice_chars(s, b, e)
}

} // verus!
