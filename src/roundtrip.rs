use vstd::prelude::*;
use crate::params::Entry;
use crate::request::{blank_line, line_break};
use crate::request::{lemma_find_bounds, headers_of, lines_of, pairs_of, parse_error, request_tokens};
use crate::text::{
    back_space, find_from, is_space, occurs_at, skip_space, split_once, split_scan, trim, words,
    words_scan,
};

verus! {

/// No occurrence of `p` starts in `[i, k)`.
pub open spec fn absent_between(s: Seq<char>, p: Seq<char>, i: int, k: int) -> bool {
    forall|j: int| i <= j < k ==> !#[trigger] occurs_at(s, p, j)
}

proof fn lemma_scan_skip(s: Seq<char>, p: Seq<char>, piece: int, i: int, k: int)
    requires
        p.len() > 0,
        0 <= i <= k,
        k + p.len() <= s.len(),
        absent_between(s, p, i, k),
    ensures
        split_scan(s, p, piece, i) == split_scan(s, p, piece, k),
    decreases k - i,
{
    if i < k {
        assert(!occurs_at(s, p, i));
        lemma_scan_skip(s, p, piece, i + 1, k);
    }
}

proof fn lemma_scan_to_end(s: Seq<char>, p: Seq<char>, piece: int, i: int)
    requires
        p.len() > 0,
        0 <= i,
        absent_between(s, p, i, s.len() as int),
    ensures
        split_scan(s, p, piece, i) == seq![s.subrange(piece, s.len() as int)],
    decreases s.len() - i,
{
    if i + p.len() <= s.len() {
        assert(!occurs_at(s, p, i));
        lemma_scan_to_end(s, p, piece, i + 1);
    }
}

/// The first piece ends at the first occurrence of the separator.
proof fn lemma_scan_piece(s: Seq<char>, p: Seq<char>, piece: int, k: int)
    requires
        p.len() > 0,
        0 <= piece <= k,
        absent_between(s, p, piece, k),
        occurs_at(s, p, k),
    ensures
        split_scan(s, p, piece, piece) == seq![s.subrange(piece, k)] + split_scan(
            s,
            p,
            k + p.len(),
            k + p.len(),
        ),
{
    lemma_scan_skip(s, p, piece, piece, k);
}

pub open spec fn no_cr(s: Seq<char>) -> bool {
    forall|i: int| 0 <= i < s.len() ==> s[i] != '\r'
}

/// Lines joined by line breaks.
pub open spec fn join_lines(ls: Seq<Seq<char>>) -> Seq<char>
    decreases ls.len(),
{
    if ls.len() <= 1 {
        if ls.len() == 1 {
            ls[0]
        } else {
            Seq::empty()
        }
    } else {
        ls[0] + "\r\n"@ + join_lines(ls.drop_first())
    }
}

pub open spec fn plain_lines(ls: Seq<Seq<char>>) -> bool {
    forall|m: int| 0 <= m < ls.len() ==> #[trigger] ls[m].len() > 0 && no_cr(ls[m])
}

proof fn lemma_crlf_view()
    ensures
        "\r\n"@ == seq!['\r', '\n'],
{
    reveal_strlit("\r\n");
    assert("\r\n"@ =~= seq!['\r', '\n']);
}

/// Splitting joined lines on line breaks gives the lines back.
proof fn lemma_split_join(s: Seq<char>, ls: Seq<Seq<char>>, off: int)
    requires
        ls.len() >= 1,
        plain_lines(ls),
        0 <= off <= s.len(),
        s.subrange(off, s.len() as int) == join_lines(ls),
    ensures
        split_scan(s, line_break(), off, off) == ls,
    decreases ls.len(),
{
    lemma_crlf_view();
    let p = line_break();
    let l0 = ls[0];
    assert(l0.len() > 0 && no_cr(l0));
    if ls.len() == 1 {
        assert forall|j: int| off <= j < s.len() implies !#[trigger] occurs_at(s, p, j) by {
            if occurs_at(s, p, j) {
                assert(s.subrange(j, j + 2)[0] == s[j]);
                assert(s[j] == s.subrange(off, s.len() as int)[j - off]);
            }
        }
        lemma_scan_to_end(s, p, off, off);
        assert(seq![s.subrange(off, s.len() as int)] =~= ls);
    } else {
        let rest = ls.drop_first();
        let k = off + l0.len();
        assert(s.subrange(off, s.len() as int) =~= l0 + (seq!['\r', '\n'] + join_lines(rest)));
        assert forall|j: int| off <= j < k implies !#[trigger] occurs_at(s, p, j) by {
            if occurs_at(s, p, j) {
                assert(s.subrange(j, j + 2)[0] == s[j]);
                assert(s[j] == s.subrange(off, s.len() as int)[j - off]);
                assert(s[j] == l0[j - off]);
            }
        }
        assert(s[k] == s.subrange(off, s.len() as int)[k - off]);
        assert(s[k + 1] == s.subrange(off, s.len() as int)[k + 1 - off]);
        assert(s.subrange(k, k + 2) =~= p);
        lemma_scan_piece(s, p, off, k);
        assert(s.subrange(k + 2, s.len() as int) =~= s.subrange(off, s.len() as int).subrange(
            l0.len() + 2int,
            s.len() - off,
        ));
        assert(s.subrange(k + 2, s.len() as int) =~= join_lines(rest));
        assert(plain_lines(rest)) by {
            assert forall|m: int| 0 <= m < rest.len() implies #[trigger] rest[m].len() > 0
                && no_cr(rest[m]) by {
                assert(rest[m] == ls[m + 1]);
            }
        }
        lemma_split_join(s, rest, k + 2);
        assert(s.subrange(off, k) =~= l0);
        assert(seq![l0] + rest =~= ls);
    }
}


proof fn lemma_join_first(ls: Seq<Seq<char>>)
    requires
        ls.len() >= 1,
        plain_lines(ls),
    ensures
        join_lines(ls).len() >= ls[0].len(),
        join_lines(ls).subrange(0, ls[0].len() as int) == ls[0],
{
    assert(ls[0].len() > 0);
    if ls.len() > 1 {
        assert(join_lines(ls).subrange(0, ls[0].len() as int) =~= ls[0]);
    }
}

/// In joined lines, a carriage return is followed, two places on, by a line's first character.
proof fn lemma_join_cr(ls: Seq<Seq<char>>, j: int)
    requires
        ls.len() >= 1,
        plain_lines(ls),
        0 <= j < join_lines(ls).len(),
        join_lines(ls)[j] == '\r',
    ensures
        j + 2 < join_lines(ls).len(),
        join_lines(ls)[j + 2] != '\r',
    decreases ls.len(),
{
    lemma_crlf_view();
    let l0 = ls[0];
    assert(l0.len() > 0 && no_cr(l0));
    if ls.len() == 1 {
        assert(join_lines(ls)[j] == l0[j]);
    } else {
        let rest = ls.drop_first();
        let jr = join_lines(rest);
        assert(join_lines(ls) =~= l0 + (seq!['\r', '\n'] + jr));
        assert(plain_lines(rest)) by {
            assert forall|m: int| 0 <= m < rest.len() implies #[trigger] rest[m].len() > 0
                && no_cr(rest[m]) by {
                assert(rest[m] == ls[m + 1]);
            }
        }
        lemma_join_first(rest);
        assert(rest[0].len() > 0 && no_cr(rest[0]));
        if j < l0.len() {
            assert(join_lines(ls)[j] == l0[j]);
        } else if j == l0.len() {
            assert(jr[0] == jr.subrange(0, rest[0].len() as int)[0]);
            assert(join_lines(ls)[j + 2] == jr[0]);
        } else if j == l0.len() + 1 {
            assert(join_lines(ls)[j] == '\n');
        } else {
            let jj = j - l0.len() - 2;
            assert(join_lines(ls)[j] == jr[jj]);
            lemma_join_cr(rest, jj);
            assert(join_lines(ls)[j + 2] == jr[jj + 2]);
        }
    }
}

/// The text of a request whose head is the given lines.
pub open spec fn message_text(ls: Seq<Seq<char>>, body: Seq<char>) -> Seq<char> {
    join_lines(ls) + "\r\n\r\n"@ + body
}

/// The head of such a text is the joined lines, and its lines are the given ones.
proof fn lemma_head_lines(ls: Seq<Seq<char>>, body: Seq<char>)
    requires
        ls.len() >= 1,
        plain_lines(ls),
    ensures
        crate::request::head_of(message_text(ls, body)) == join_lines(ls),
        crate::request::lines_of(message_text(ls, body)) == ls,
{
    reveal_strlit("\r\n\r\n");
    let s = message_text(ls, body);
    let j0 = join_lines(ls);
    let h = j0.len() as int;
    let p = blank_line();
    assert(s =~= j0 + (p + body));
    assert forall|j: int| 0 <= j < h implies !#[trigger] occurs_at(s, p, j) by {
        if occurs_at(s, p, j) {
            assert(s.subrange(j, j + 4)[0] == s[j]);
            assert(s.subrange(j, j + 4)[2] == s[j + 2]);
            assert(s[j] == j0[j]);
            lemma_join_cr(ls, j);
            assert(s[j + 2] == j0[j + 2]);
        }
    }
    assert(s.subrange(h, h + 4) =~= p);
    lemma_find_skip(s, p, 0, h);
    assert(s.subrange(0, h) =~= j0);
    assert(j0.subrange(0, j0.len() as int) =~= j0);
    lemma_split_join(j0, ls, 0);
}


/// A request-line token: non-empty, without spaces.
pub open spec fn is_token(t: Seq<char>) -> bool {
    t.len() > 0 && forall|i: int| 0 <= i < t.len() ==> !is_space(#[trigger] t[i])
}

proof fn lemma_words_run(s: Seq<char>, i: int, k: int, start: Option<int>)
    requires
        0 <= i <= k <= s.len(),
        forall|j: int| i <= j < k ==> !is_space(#[trigger] s[j]),
    ensures
        words_scan(s, i, start) == words_scan(
            s,
            k,
            if i < k && start is None {
                Some(i)
            } else {
                start
            },
        ),
    decreases k - i,
{
    if i < k {
        assert(!is_space(s[i]));
        let next = if start is None {
            Some(i)
        } else {
            start
        };
        lemma_words_run(s, i + 1, k, next);
    }
}

/// The words of `m t v` are the three tokens.
proof fn lemma_three_words(m: Seq<char>, t: Seq<char>, v: Seq<char>)
    requires
        is_token(m),
        is_token(t),
        is_token(v),
    ensures
        words(m + " "@ + t + " "@ + v) == seq![m, t, v],
{
    reveal_strlit(" ");
    let s = m + " "@ + t + " "@ + v;
    let a = m.len() as int;
    let b = a + 1 + t.len();
    let n = s.len() as int;
    assert(s =~= m + (seq![' '] + (t + (seq![' '] + v))));
    assert forall|j: int| 0 <= j < a implies !is_space(#[trigger] s[j]) by {
        assert(s[j] == m[j]);
    }
    assert forall|j: int| a + 1 <= j < b implies !is_space(#[trigger] s[j]) by {
        assert(s[j] == t[j - a - 1]);
    }
    assert forall|j: int| b + 1 <= j < n implies !is_space(#[trigger] s[j]) by {
        assert(s[j] == v[j - b - 1]);
    }
    assert(s[a] == ' ' && is_space(s[a]));
    assert(s[b] == ' ' && is_space(s[b]));
    lemma_words_run(s, 0, a, None);
    lemma_words_run(s, a + 1, b, None);
    lemma_words_run(s, b + 1, n, None);
    assert(s.subrange(0, a) =~= m);
    assert(s.subrange(a + 1, b) =~= t);
    assert(s.subrange(b + 1, n) =~= v);
    assert(words_scan(s, n, Some(b + 1)) == seq![v]);
    assert(words(s) =~= seq![m, t, v]);
}

/// `s` has no spaces at its ends.
pub open spec fn trimmed(s: Seq<char>) -> bool {
    s.len() > 0 ==> !is_space(s[0]) && !is_space(s[s.len() - 1])
}

proof fn lemma_trim_trimmed(s: Seq<char>)
    requires
        trimmed(s),
    ensures
        trim(s) == s,
{
    assert(back_space(s, s.len() as int) == s.len());
    assert(s.subrange(0, s.len() as int) =~= s);
    assert(skip_space(s, 0) == 0);
    assert(s.subrange(0, s.len() as int) =~= s);
}

proof fn lemma_trim_space_before(v: Seq<char>)
    requires
        trimmed(v),
    ensures
        trim(seq![' '] + v) == v,
{
    let s = seq![' '] + v;
    assert(is_space(' '));
    if v.len() == 0 {
        assert(back_space(s, 0) == 0);
        assert(back_space(s, 1) == 0);
        assert(s.subrange(0, 0) =~= v);
        assert(skip_space(s.subrange(0, 0), 0) == 0);
        assert(s.subrange(0, 0).subrange(0, 0) =~= v);
    } else {
        assert(s[s.len() - 1] == v[v.len() - 1]);
        assert(back_space(s, s.len() as int) == s.len());
        let t = s.subrange(0, s.len() as int);
        assert(t =~= s);
        assert(t[1] == v[0]);
        assert(skip_space(t, 1) == 1);
        assert(skip_space(t, 0) == 1);
        assert(t.subrange(1, t.len() as int) =~= v);
    }
}

/// A header name and value that print and parse back unchanged.
pub open spec fn plain_header(e: Entry) -> bool {
    &&& no_cr(e.0) && no_cr(e.1)
    &&& trimmed(e.0) && trimmed(e.1)
    &&& forall|i: int| 0 <= i < e.0.len() ==> #[trigger] e.0[i] != ':'
}

pub open spec fn header_line(e: Entry) -> Seq<char> {
    e.0 + ": "@ + e.1
}

proof fn lemma_find_skip(s: Seq<char>, p: Seq<char>, i: int, k: int)
    requires
        p.len() > 0,
        0 <= i <= k,
        k + p.len() <= s.len(),
        absent_between(s, p, i, k),
    ensures
        find_from(s, p, i) == find_from(s, p, k),
    decreases k - i,
{
    if i < k {
        assert(!occurs_at(s, p, i));
        lemma_find_skip(s, p, i + 1, k);
    }
}

proof fn lemma_header_pair(e: Entry)
    requires
        plain_header(e),
    ensures
        split_once(header_line(e), seq![':']) == Some((e.0, seq![' '] + e.1)),
        trim(e.0) == e.0,
        trim(seq![' '] + e.1) == e.1,
{
    reveal_strlit(": ");
    let s = header_line(e);
    let k = e.0.len() as int;
    let p = seq![':'];
    assert(s =~= e.0 + (seq![':', ' '] + e.1));
    assert forall|j: int| 0 <= j < k implies !#[trigger] occurs_at(s, p, j) by {
        if occurs_at(s, p, j) {
            assert(s.subrange(j, j + 1)[0] == s[j]);
            assert(s[j] == e.0[j]);
        }
    }
    assert(s.subrange(k, k + 1) =~= p);
    lemma_find_skip(s, p, 0, k);
    assert(s.subrange(0, k) =~= e.0);
    assert(s.subrange(k + 1, s.len() as int) =~= seq![' '] + e.1);
    lemma_trim_trimmed(e.0);
    lemma_trim_space_before(e.1);
}

proof fn lemma_pairs_of_headers(hs: Seq<Entry>)
    requires
        forall|i: int| 0 <= i < hs.len() ==> plain_header(#[trigger] hs[i]),
    ensures
        pairs_of(hs.map_values(|e: Entry| header_line(e)), ':', true) == hs,
    decreases hs.len(),
{
    let ls = hs.map_values(|e: Entry| header_line(e));
    if hs.len() > 0 {
        assert(ls.drop_last() =~= hs.drop_last().map_values(|e: Entry| header_line(e)));
        lemma_pairs_of_headers(hs.drop_last());
        assert(plain_header(hs[hs.len() - 1]));
        lemma_header_pair(hs.last());
        assert(hs.drop_last().push(hs.last()) =~= hs);
    } else {
        assert(ls.len() == 0);
    }
}

/// The head of a request: the request line, then one line per header.
pub open spec fn request_head(m: Seq<char>, t: Seq<char>, v: Seq<char>, hs: Seq<Entry>) -> Seq<
    Seq<char>,
> {
    seq![m + " "@ + t + " "@ + v] + hs.map_values(|e: Entry| header_line(e))
}

/// A request written out as method, target (not starting with `?`) and version, headers, a blank line and a
/// body parses back to the same request line and the same headers, in the same order.
pub proof fn lemma_request_round_trip(
    m: Seq<char>,
    t: Seq<char>,
    v: Seq<char>,
    hs: Seq<Entry>,
    body: Seq<char>,
)
    requires
        is_token(m),
        is_token(t),
        is_token(v),
        t[0] != '?',
        forall|i: int| 0 <= i < hs.len() ==> plain_header(#[trigger] hs[i]),
    ensures
        parse_error(message_text(request_head(m, t, v, hs), body)) is None,
        request_tokens(message_text(request_head(m, t, v, hs), body)) == seq![m, t, v],
        headers_of(message_text(request_head(m, t, v, hs), body)) == hs,
{
    reveal_strlit(" ");
    reveal_strlit(": ");
    let ls = request_head(m, t, v, hs);
    let line0 = m + " "@ + t + " "@ + v;
    assert forall|j: int| 0 <= j < line0.len() implies line0[j] != '\r' by {
        assert(line0 =~= m + (seq![' '] + (t + (seq![' '] + v))));
        if j < m.len() {
            assert(line0[j] == m[j]);
            assert(!is_space(m[j]));
        } else if j == m.len() {
        } else if j < m.len() + 1 + t.len() {
            assert(line0[j] == t[j - m.len() - 1]);
            assert(!is_space(t[j - m.len() - 1]));
        } else if j == m.len() + 1 + t.len() {
        } else {
            assert(line0[j] == v[j - m.len() - 2 - t.len()]);
            assert(!is_space(v[j - m.len() - 2 - t.len()]));
        }
    }
    assert(plain_lines(ls)) by {
        assert forall|i: int| 0 <= i < ls.len() implies #[trigger] ls[i].len() > 0 && no_cr(
            ls[i],
        ) by {
            if i > 0 {
                let e = hs[i - 1];
                assert(plain_header(e));
                assert(ls[i] == header_line(e));
                assert(header_line(e) =~= e.0 + (seq![':', ' '] + e.1));
                assert forall|j: int| 0 <= j < ls[i].len() implies ls[i][j] != '\r' by {
                    if j < e.0.len() {
                        assert(ls[i][j] == e.0[j]);
                    } else if j >= e.0.len() + 2 {
                        assert(ls[i][j] == e.1[j - e.0.len() - 2]);
                    }
                }
            } else {
                assert(ls[0] == line0);
            }
        }
    }
    let text = message_text(ls, body);
    lemma_head_lines(ls, body);
    lemma_join_first(ls);
    assert(ls[0] == line0);
    lemma_three_words(m, t, v);
    lemma_find_bounds(t, seq!['?'], 0);
    if let Some(i) = find_from(t, seq!['?'], 0) {
        assert(t.subrange(i, i + 1)[0] == t[i]);
        assert(i > 0);
    }
    assert(lines_of(text).drop_first() =~= hs.map_values(|e: Entry| header_line(e)));
    lemma_pairs_of_headers(hs);
}

} // verus!
