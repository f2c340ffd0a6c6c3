use vstd::prelude::*;
use crate::params::{Entry, Params};
use crate::text::{split, split_chars, string_of, views};

verus! {

pub open spec fn slash() -> Seq<char> {
    seq!['/']
}

/// A template segment of the form `{name}`.
pub open spec fn is_placeholder(seg: Seq<char>) -> bool {
    seg.len() >= 2 && seg[0] == '{' && seg[seg.len() - 1] == '}'
}

pub open spec fn placeholder_name(seg: Seq<char>) -> Seq<char> {
    seg.subrange(1, seg.len() - 1)
}

/// One template segment accepts one actual segment.
pub open spec fn segment_matches(t: Seq<char>, a: Seq<char>) -> bool {
    if is_placeholder(t) {
        a.len() > 0
    } else {
        t == a
    }
}

/// The template matches the path: as many segments, each accepted.
pub open spec fn template_matches(template: Seq<char>, path: Seq<char>) -> bool {
    let t = split(template, slash());
    let a = split(path, slash());
    t.len() == a.len() && forall|i: int| 0 <= i < t.len() ==> segment_matches(t[i], a[i])
}

/// The bindings that the first `n` segment pairs give, in template order.
pub open spec fn bindings_upto(t: Seq<Seq<char>>, a: Seq<Seq<char>>, n: int) -> Seq<Entry>
    decreases n,
{
    if n <= 0 {
        Seq::empty()
    } else {
        bindings_upto(t, a, n - 1) + if is_placeholder(t[n - 1]) {
            seq![(placeholder_name(t[n - 1]), a[n - 1])]
        } else {
            Seq::empty()
        }
    }
}

/// The route parameters that a template binds against a path.
pub open spec fn bindings(template: Seq<char>, path: Seq<char>) -> Seq<Entry> {
    let t = split(template, slash());
    let a = split(path, slash());
    bindings_upto(t, a, if t.len() <= a.len() { t.len() as int } else { a.len() as int })
}

fn slash_chars() -> (r: Vec<char>)
    ensures
        r@ == slash(),
{
    let mut r: Vec<char> = Vec::new();
    r.push('/');
    assert(r@ =~= slash());
    r
}

fn is_placeholder_chars(seg: &Vec<char>) -> (r: bool)
    ensures
        r == is_placeholder(seg@),
{
    seg.len() >= 2 && seg[0] == '{' && seg[seg.len() - 1] == '}'
}

/// Whether the template matches the path, segment by segment.
pub fn matches_pattern(template: &str, path: &str) -> (r: bool)
    ensures
        r == template_matches(template@, path@),
{
    let t = split_chars(&crate::text::chars_of(template), &slash_chars());
    let a = split_chars(&crate::text::chars_of(path), &slash_chars());
    if t.len() != a.len() {
        return false;
    }
    let mut i: usize = 0;
    while i < t.len()
        invariant
            i <= t.len() == a.len(),
            views(t@) == split(template@, slash()),
            views(a@) == split(path@, slash()),
            forall|j: int| 0 <= j < i ==> segment_matches(views(t@)[j], views(a@)[j]),
        decreases t.len() - i,
    {
        let ok = if is_placeholder_chars(&t[i]) {
            a[i].len() > 0
        } else {
            crate::text::same_chars(&t[i], &a[i])
        };
        if !ok {
            assert(!segment_matches(views(t@)[i as int], views(a@)[i as int]));
            return false;
        }
        i = i + 1;
    }
    true
}

/// Adds to `params` the route parameters that the template binds against the path.
pub fn extract_params(template: &str, path: &str, params: &mut Params)
    ensures
        final(params)@ == old(params)@ + bindings(template@, path@),
{
    let t = split_chars(&crate::text::chars_of(template), &slash_chars());
    let a = split_chars(&crate::text::chars_of(path), &slash_chars());
    let n = if t.len() <= a.len() {
        t.len()
    } else {
        a.len()
    };
    let mut i: usize = 0;
    while i < n
        invariant
            i <= n,
            n <= t.len(),
            n <= a.len(),
            n == (if t.len() <= a.len() { t.len() } else { a.len() }),
            views(t@) == split(template@, slash()),
            views(a@) == split(path@, slash()),
            params@ == old(params)@ + bindings_upto(views(t@), views(a@), i as int),
        decreases n - i,
    {
        let seg = &t[i];
        if is_placeholder_chars(seg) {
            let name = crate::text::slice_chars(seg, 1, seg.len() - 1);
            params.insert(string_of(&name), string_of(&a[i]));
        }
        i = i + 1;
        assert(params@ =~= old(params)@ + bindings_upto(views(t@), views(a@), i as int));
    }
}

} // verus!
