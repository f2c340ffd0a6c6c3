use vstd::prelude::*;
use crate::params::{Entry, Params};
use crate::text::{chars_of, string_of};

verus! {

/// What a response is, as values.
pub struct ResponseView {
    pub status: u16,
    pub headers: Seq<Entry>,
    pub body: Seq<char>,
}

/// The reason phrase that goes with a status code on the status line.
pub open spec fn reason_of(code: u16) -> Seq<char> {
    if code == 200 {
        "OK"@
    } else if code == 201 {
        "Created"@
    } else if code == 204 {
        "No Content"@
    } else if code == 400 {
        "Bad Request"@
    } else if code == 401 {
        "Unauthorized"@
    } else if code == 403 {
        "Forbidden"@
    } else if code == 404 {
        "Not Found"@
    } else if code == 405 {
        "Method Not Allowed"@
    } else if code == 500 {
        "Internal Server Error"@
    } else if code == 503 {
        "Service Unavailable"@
    } else {
        "Unknown"@
    }
}

pub open spec fn digit_of(d: nat) -> char {
    if d == 0 { '0' } else if d == 1 { '1' } else if d == 2 { '2' } else if d == 3 { '3' }
    else if d == 4 { '4' } else if d == 5 { '5' } else if d == 6 { '6' } else if d == 7 { '7' }
    else if d == 8 { '8' } else { '9' }
}

/// The decimal digits of `n`.
pub open spec fn decimal(n: nat) -> Seq<char>
    decreases n,
{
    if n < 10 {
        seq![digit_of(n)]
    } else {
        decimal(n / 10).push(digit_of(n % 10))
    }
}

/// Each header as `Key: Value` followed by a line break.
pub open spec fn header_lines(h: Seq<Entry>) -> Seq<char>
    decreases h.len(),
{
    if h.len() == 0 {
        Seq::empty()
    } else {
        header_lines(h.drop_last()) + h.last().0 + ": "@ + h.last().1 + "\r\n"@
    }
}

/// The bytes of a response on the wire.
pub open spec fn wire_of(r: ResponseView) -> Seq<char> {
    "HTTP/1.1 "@ + decimal(r.status as nat) + " "@ + reason_of(r.status) + "\r\n"@ + header_lines(
        r.headers,
    ) + "\r\n"@ + r.body
}

pub open spec fn plain_response(code: u16, text: Seq<char>) -> ResponseView {
    ResponseView { status: code, headers: Seq::empty(), body: text }
}

pub fn reason_phrase(code: u16) -> (r: &'static str)
    ensures
        r@ == reason_of(code),
{
    if code == 200 {
        "OK"
    } else if code == 201 {
        "Created"
    } else if code == 204 {
        "No Content"
    } else if code == 400 {
        "Bad Request"
    } else if code == 401 {
        "Unauthorized"
    } else if code == 403 {
        "Forbidden"
    } else if code == 404 {
        "Not Found"
    } else if code == 405 {
        "Method Not Allowed"
    } else if code == 500 {
        "Internal Server Error"
    } else if code == 503 {
        "Service Unavailable"
    } else {
        "Unknown"
    }
}

fn digit_char(d: u64) -> (c: char)
    requires
        d < 10,
    ensures
        c == digit_of(d as nat),
{
    if d == 0 { '0' } else if d == 1 { '1' } else if d == 2 { '2' } else if d == 3 { '3' }
    else if d == 4 { '4' } else if d == 5 { '5' } else if d == 6 { '6' } else if d == 7 { '7' }
    else if d == 8 { '8' } else { '9' }
}

pub fn decimal_chars(n: u64) -> (r: Vec<char>)
    ensures
        r@ == decimal(n as nat),
    decreases n,
{
    if n < 10 {
        let mut r: Vec<char> = Vec::new();
        r.push(digit_char(n));
        assert(r@ =~= decimal(n as nat));
        r
    } else {
        let mut r = decimal_chars(n / 10);
        r.push(digit_char(n % 10));
        r
    }
}

fn push_all(out: &mut Vec<char>, s: &Vec<char>)
    ensures
        final(out)@ == old(out)@ + s@,
{
    let mut k: usize = 0;
    while k < s.len()
        invariant
            k <= s.len(),
            out@ == old(out)@ + s@.subrange(0, k as int),
        decreases s.len() - k,
    {
        out.push(s[k]);
        k = k + 1;
        assert(out@ =~= old(out)@ + s@.subrange(0, k as int));
    }
    assert(s@.subrange(0, s.len() as int) =~= s@);
}

fn push_str(out: &mut Vec<char>, s: &str)
    ensures
        final(out)@ == old(out)@ + s@,
{
    push_all(out, &chars_of(s));
}

#[derive(Clone, Debug)]
pub struct HTTPResponse {
    pub status: u16,
    pub headers: Params,
    pub body: String,
}

impl View for HTTPResponse {
    type V = ResponseView;

    open spec fn view(&self) -> ResponseView {
        ResponseView { status: self.status, headers: self.headers@, body: self.body@ }
    }
}

impl HTTPResponse {
    /// A response with the given status and body, and no headers.
    pub fn new(status: u16, body: &str) -> (r: HTTPResponse)
        ensures
            r@ == plain_response(status, body@),
    {
        HTTPResponse { status, headers: Params::new(), body: body.to_owned() }
    }

    pub fn ok(body: &str) -> (r: HTTPResponse)
        ensures
            r@ == plain_response(200, body@),
    {
        HTTPResponse::new(200, body)
    }

    pub fn not_found(message: &str) -> (r: HTTPResponse)
        ensures
            r@ == plain_response(404, message@),
    {
        HTTPResponse::new(404, message)
    }

    /// A response whose body is the given JSON text.
    pub fn json(status: u16, json: &str) -> (r: HTTPResponse)
        ensures
            r@ == (ResponseView {
                status,
                headers: seq![("Content-Type"@, "application/json"@)],
                body: json@,
            }),
    {
        HTTPResponse::new(status, json).with_header("Content-Type", "application/json")
    }

    pub fn ok_json(json: &str) -> (r: HTTPResponse)
        ensures
            r@ == (ResponseView {
                status: 200,
                headers: seq![("Content-Type"@, "application/json"@)],
                body: json@,
            }),
    {
        HTTPResponse::json(200, json)
    }

    pub fn with_header(self, key: &str, value: &str) -> (r: HTTPResponse)
        ensures
            r@ == (ResponseView { headers: self@.headers.push((key@, value@)), ..self@ }),
    {
        let mut r = self;
        r.headers.insert(key.to_owned(), value.to_owned());
        r
    }

    pub fn with_html_body(self, html: &str) -> (r: HTTPResponse)
        ensures
            r@ == (ResponseView {
                status: self.status,
                headers: self@.headers.push(("Content-Type"@, "text/html"@)),
                body: html@,
            }),
    {
        let mut r = self.with_header("Content-Type", "text/html");
        r.body = html.to_owned();
        r
    }

    /// The response as it goes on the wire.
    pub fn to_http_string(&self) -> (r: String)
        ensures
            r@ == wire_of(self@),
    {
        let mut out: Vec<char> = Vec::new();
        push_str(&mut out, "HTTP/1.1 ");
        push_all(&mut out, &decimal_chars(self.status as u64));
        push_str(&mut out, " ");
        push_str(&mut out, reason_phrase(self.status));
        push_str(&mut out, "\r\n");
        let ghost start = out@;
        let mut k: usize = 0;
        while k < self.headers.entries.len()
            invariant
                k <= self.headers.entries.len(),
                out@ == start + header_lines(self.headers@.subrange(0, k as int)),
            decreases self.headers.entries.len() - k,
        {
            let e = &self.headers.entries[k];
            push_all(&mut out, &chars_of(e.0.as_str()));
            push_str(&mut out, ": ");
            push_all(&mut out, &chars_of(e.1.as_str()));
            push_str(&mut out, "\r\n");
            assert(self.headers@.subrange(0, k + 1).drop_last() =~= self.headers@.subrange(
                0,
                k as int,
            ));
            k = k + 1;
            assert(out@ =~= start + header_lines(self.headers@.subrange(0, k as int)));
        }
        assert(self.headers@.subrange(0, k as int) =~= self.headers@);
        push_str(&mut out, "\r\n");
        push_all(&mut out, &chars_of(self.body.as_str()));
        assert(out@ =~= wire_of(self@));
        string_of(&out)
    }
}

} // verus!
