use vstd::prelude::*;
use crate::params::{Entry, Params, lookup};
use crate::number::{bool_of, i32_of, parse_bool, parse_i32};
use crate::text::{
    chars_of, find_in, split, split_chars, split_once, string_of, trim, trim_chars, views, words,
    words_of,
};


verus! {

/// Why a raw request could not be parsed.
#[derive(Clone, Copy, Debug, PartialEq, Eq, Structural)]
pub enum ParseError {
    EmptyRequest,
    InvalidRequestLine,
}

impl ParseError {
    pub open spec fn text(self) -> Seq<char> {
        match self {
            ParseError::EmptyRequest => "Empty request"@,
            ParseError::InvalidRequestLine => "Invalid request line format"@,
        }
    }

    pub fn message(&self) -> (r: String)
        ensures
            r@ == self.text(),
    {
        match self {
            ParseError::EmptyRequest => "Empty request".to_owned(),
            ParseError::InvalidRequestLine => "Invalid request line format".to_owned(),
        }
    }
}

pub open spec fn blank_line() -> Seq<char> {
    seq!['\r', '\n', '\r', '\n']
}

pub open spec fn line_break() -> Seq<char> {
    seq!['\r', '\n']
}

/// Everything before the first blank line.
pub open spec fn head_of(s: Seq<char>) -> Seq<char> {
    match split_once(s, blank_line()) {
        Some((h, _)) => h,
        None => s,
    }
}

/// Everything after the first blank line; empty when there is none.
pub open spec fn body_of(s: Seq<char>) -> Seq<char> {
    match split_once(s, blank_line()) {
        Some((_, b)) => b,
        None => Seq::empty(),
    }
}

pub open spec fn lines_of(s: Seq<char>) -> Seq<Seq<char>> {
    split(head_of(s), line_break())
}

/// The whitespace-separated tokens of the request line.
pub open spec fn request_tokens(s: Seq<char>) -> Seq<Seq<char>> {
    words(lines_of(s)[0])
}

/// The pairs that `sep` splits out of `items`, both sides trimmed when `trimmed`;
/// items without `sep` are skipped.
pub open spec fn pairs_of(items: Seq<Seq<char>>, sep: char, trimmed: bool) -> Seq<Entry>
    decreases items.len(),
{
    if items.len() == 0 {
        Seq::empty()
    } else {
        pairs_of(items.drop_last(), sep, trimmed) + match split_once(items.last(), seq![sep]) {
            Some((k, v)) => if trimmed {
                seq![(trim(k), trim(v))]
            } else {
                seq![(k, v)]
            },
            None => Seq::empty(),
        }
    }
}

pub open spec fn headers_of(s: Seq<char>) -> Seq<Entry> {
    pairs_of(lines_of(s).drop_first(), ':', true)
}

/// The path part of a request target.
pub open spec fn path_of(target: Seq<char>) -> Seq<char> {
    match split_once(target, seq!['?']) {
        Some((p, _)) => p,
        None => target,
    }
}

/// The query parameters of a request target.
pub open spec fn query_of(target: Seq<char>) -> Seq<Entry> {
    match split_once(target, seq!['?']) {
        Some((_, q)) => pairs_of(split(q, seq!['&']), '=', false),
        None => Seq::empty(),
    }
}

pub open spec fn parse_error(s: Seq<char>) -> Option<ParseError> {
    if head_of(s).len() == 0 {
        Some(ParseError::EmptyRequest)
    } else if request_tokens(s).len() != 3 || path_of(request_tokens(s)[1]).len() == 0 {
        Some(ParseError::InvalidRequestLine)
    } else {
        None
    }
}

/// What a request is, as values.
pub struct RequestView {
    pub method: Seq<char>,
    pub route: Seq<char>,
    pub version: Seq<char>,
    pub headers: Seq<Entry>,
    pub body: Seq<char>,
    pub route_params: Seq<Entry>,
    pub query_params: Seq<Entry>,
}

#[derive(Clone, Debug)]
pub struct HTTPRequest {
    pub method: String,
    pub route: String,
    pub version: String,
    pub headers: Params,
    pub body: String,
    pub route_params: Params,
    pub query_params: Params,
}


/// The request that a parse of `s` gives, where it succeeds.
pub open spec fn parse_view(s: Seq<char>) -> RequestView {
    RequestView {
        method: request_tokens(s)[0],
        route: path_of(request_tokens(s)[1]),
        version: request_tokens(s)[2],
        headers: headers_of(s),
        body: body_of(s),
        route_params: Seq::empty(),
        query_params: query_of(request_tokens(s)[1]),
    }
}

/// The value found, or the default where there is none.
pub open spec fn value_or(v: Option<Seq<char>>, default: Seq<char>) -> Seq<char> {
    match v {
        Some(x) => x,
        None => default,
    }
}

/// The value found read as an `i32`, or the default where there is none or it does not read.
pub open spec fn int_or(v: Option<Seq<char>>, default: i32) -> i32 {
    match v {
        Some(x) => match i32_of(x) {
            Some(n) => n,
            None => default,
        },
        None => default,
    }
}

/// The value found read as a `bool`, or the default where there is none or it does not read.
pub open spec fn bool_or(v: Option<Seq<char>>, default: bool) -> bool {
    match v {
        Some(x) => match bool_of(x) {
            Some(b) => b,
            None => default,
        },
        None => default,
    }
}

pub proof fn lemma_split_nonempty(s: Seq<char>, p: Seq<char>, piece: int, i: int)
    ensures
        crate::text::split_scan(s, p, piece, i).len() >= 1,
    decreases s.len() - i,
{
    if p.len() == 0 || i < 0 || i + p.len() > s.len() {
    } else if crate::text::occurs_at(s, p, i) {
        lemma_split_nonempty(s, p, i + p.len(), i + p.len());
    } else {
        lemma_split_nonempty(s, p, piece, i + 1);
    }
}

fn chars2(a: char, b: char) -> (r: Vec<char>)
    ensures
        r@ == seq![a, b],
{
    let mut r: Vec<char> = Vec::new();
    r.push(a);
    r.push(b);
    assert(r@ =~= seq![a, b]);
    r
}

fn blank_chars() -> (r: Vec<char>)
    ensures
        r@ == blank_line(),
{
    let mut r = chars2('\r', '\n');
    r.push('\r');
    r.push('\n');
    assert(r@ =~= blank_line());
    r
}

fn char1(a: char) -> (r: Vec<char>)
    ensures
        r@ == seq![a],
{
    let mut r: Vec<char> = Vec::new();
    r.push(a);
    assert(r@ =~= seq![a]);
    r
}

fn split_once_chars(s: &Vec<char>, sep: char) -> (r: Option<(Vec<char>, Vec<char>)>)
    ensures
        r matches Some(kv) ==> split_once(s@, seq![sep]) == Some((kv.0@, kv.1@)),
        r is None ==> split_once(s@, seq![sep]) is None,
{
    let p = char1(sep);
    match find_in(s, &p) {
        Some(i) => {
            proof {
                lemma_find_bounds(s@, p@, 0);
                assert(p@.len() == 1);
                assert(i + 1 <= s.len());
            }
            Some((crate::text::slice_chars(s, 0, i), crate::text::slice_chars(s, i + 1, s.len())))
        },
        None => None,
    }
}

pub proof fn lemma_find_bounds(s: Seq<char>, p: Seq<char>, i: int)
    ensures
        crate::text::find_from(s, p, i) matches Some(j) ==> i <= j && j + p.len() <= s.len()
            && crate::text::occurs_at(s, p, j),
    decreases s.len() - i,
{
    if p.len() == 0 || i < 0 || i + p.len() > s.len() {
    } else if crate::text::occurs_at(s, p, i) {
    } else {
        lemma_find_bounds(s, p, i + 1);
    }
}

/// The pairs of `items` from index `from` on.
fn pairs_from(items: &Vec<Vec<char>>, from: usize, sep: char, trimmed: bool) -> (r: Params)
    requires
        from <= items.len(),
    ensures
        r@ == pairs_of(views(items@).skip(from as int), sep, trimmed),
{
    let mut r = Params::new();
    let mut k: usize = from;
    while k < items.len()
        invariant
            from <= k <= items.len(),
            r@ == pairs_of(views(items@).subrange(from as int, k as int), sep, trimmed),
        decreases items.len() - k,
    {
        assert(views(items@).subrange(from as int, k + 1).drop_last() =~= views(items@).subrange(
            from as int,
            k as int,
        ));
        let ghost before = r@;
        match split_once_chars(&items[k], sep) {
            Some(kv) => {
                if trimmed {
                    r.insert(string_of(&trim_chars(&kv.0)), string_of(&trim_chars(&kv.1)));
                } else {
                    r.insert(string_of(&kv.0), string_of(&kv.1));
                }
            },
            None => {},
        }
        assert(r@ =~= pairs_of(views(items@).subrange(from as int, k + 1), sep, trimmed));
        k = k + 1;
    }
    assert(views(items@).subrange(from as int, items.len() as int) =~= views(items@).skip(
        from as int,
    ));
    r
}

/// Splits a request target into its path and its query parameters.
fn extract_query_params(t: &Vec<char>) -> (r: (String, Params))
    ensures
        r.0@ == path_of(t@),
        r.1@ == query_of(t@),
{
    match split_once_chars(t, '?') {
        Some(pq) => {
            let pieces = split_chars(&pq.1, &char1('&'));
            let q = pairs_from(&pieces, 0, '=', false);
            assert(views(pieces@).skip(0) =~= views(pieces@));
            (string_of(&pq.0), q)
        },
        None => (string_of(t), Params::new()),
    }
}

impl View for HTTPRequest {
    type V = RequestView;

    open spec fn view(&self) -> RequestView {
        RequestView {
            method: self.method@,
            route: self.route@,
            version: self.version@,
            headers: self.headers@,
            body: self.body@,
            route_params: self.route_params@,
            query_params: self.query_params@,
        }
    }
}

impl HTTPRequest {
    /// Parses a raw request: request line, headers, body and query parameters.
    pub fn new(request: &str) -> (r: Result<HTTPRequest, ParseError>)
        ensures
            match r {
                Ok(q) => parse_error(request@) is None && q@ == parse_view(request@),
                Err(e) => parse_error(request@) == Some(e),
            },
    {
        let cs = chars_of(request);
        let blank = blank_chars();
        let (head, body) = match find_in(&cs, &blank) {
            Some(i) => {
                proof {
                    lemma_find_bounds(cs@, blank_line(), 0);
                }
                (
                    crate::text::slice_chars(&cs, 0, i),
                    string_of(&crate::text::slice_chars(&cs, i + 4, cs.len())),
                )
            },
            None => (crate::text::slice_chars(&cs, 0, cs.len()), String::new()),
        };
        assert(cs@.subrange(0, cs@.len() as int) =~= cs@);
        let head = &head;
        if head.len() == 0 {
            return Err(ParseError::EmptyRequest);
        }
        let lines = split_chars(head, &chars2('\r', '\n'));
        proof {
            lemma_split_nonempty(head@, line_break(), 0, 0);
        }
        let tokens = words_of(&lines[0]);
        if tokens.len() != 3 {
            return Err(ParseError::InvalidRequestLine);
        }
        let headers = pairs_from(&lines, 1, ':', true);
        let (path, query_params) = extract_query_params(&tokens[1]);
        if path.as_str().is_empty() {
            return Err(ParseError::InvalidRequestLine);
        }
        Ok(HTTPRequest {
            method: string_of(&tokens[0]),
            route: path,
            version: string_of(&tokens[2]),
            headers,
            body,
            route_params: Params::new(),
            query_params,
        })
    }

    /// A copy with the same contents.
    pub fn duplicate(&self) -> (r: HTTPRequest)
        ensures
            r@ == self@,
    {
        HTTPRequest {
            method: self.method.clone(),
            route: self.route.clone(),
            version: self.version.clone(),
            headers: self.headers.duplicate(),
            body: self.body.clone(),
            route_params: self.route_params.duplicate(),
            query_params: self.query_params.duplicate(),
        }
    }

    /// The query parameter `key`, or `default`.
    pub fn query(&self, key: &str, default: &str) -> (r: String)
        ensures
            r@ == value_or(lookup(self.query_params@, key@), default@),
    {
        match self.query_params.get(key) {
            Some(v) => v,
            None => default.to_owned(),
        }
    }

    /// The route parameter `key`, or `default`.
    pub fn param(&self, key: &str, default: &str) -> (r: String)
        ensures
            r@ == value_or(lookup(self.route_params@, key@), default@),
    {
        match self.route_params.get(key) {
            Some(v) => v,
            None => default.to_owned(),
        }
    }

    /// The query parameter `key` as an `i32`, or `default`.
    pub fn query_int(&self, key: &str, default: i32) -> (r: i32)
        ensures
            r == int_or(lookup(self.query_params@, key@), default),
    {
        match self.query_params.get(key) {
            Some(v) => match parse_i32(v.as_str()) {
                Some(n) => n,
                None => default,
            },
            None => default,
        }
    }

    /// The query parameter `key` as a `bool`, or `default`.
    pub fn query_bool(&self, key: &str, default: bool) -> (r: bool)
        ensures
            r == bool_or(lookup(self.query_params@, key@), default),
    {
        match self.query_params.get(key) {
            Some(v) => match parse_bool(&v) {
                Some(b) => b,
                None => default,
            },
            None => default,
        }
    }

    pub fn has_query(&self, key: &str) -> (r: bool)
        ensures
            r == lookup(self.query_params@, key@) is Some,
    {
        self.query_params.contains_key(key)
    }

    /// The header `header`, by exact name.
    pub fn get_header(&self, header: &str) -> (r: Option<String>)
        ensures
            r matches Some(v) ==> lookup(self.headers@, header@) == Some(v@),
            r is None ==> lookup(self.headers@, header@) is None,
    {
        self.headers.get(header)
    }

    /// The body as raw text.
    pub fn raw_body(&self) -> (r: &String)
        ensures
            r@ == self.body@,
    {
        &self.body
    }
}

} // verus!
