//! A minimal HTTP/1.1 client over a [`StreamSocket`]: it writes one
//! request and reads one response per connection, as the Docker Engine
//! expects with `Connection: close`.
//!
//! The request wire format and the whole framing of the response — head
//! up to the blank line, then a body by `Content-Length` or chunked
//! transfer encoding — are specified byte-exactly. Only the parsing of
//! the response head itself (status line and header lines) is delegated
//! to the `httparse` crate, behind one trusted wrapper.

use vstd::prelude::*;

use crate::json_text::{append_bytes, lit_bytes, write_lit};
use crate::numeric::{
    all_dec_digits, all_hex_digits, dec_value, hex_value, parse_dec_usize, parse_hex_usize,
    trim_end, trim_end_spec,
};
use crate::unix_stream::{IoFailure, IoKind, StreamSocket, find_lf, lemma_find_lf};

verus! {

/// The request methods the engine uses.
#[derive(Clone, Copy, PartialEq, Eq, Structural, Debug)]
pub enum Method {
    Get,
    Post,
    Delete,
}

/// The wire name of a method.
pub open spec fn method_bytes(m: Method) -> Seq<u8> {
    match m {
        Method::Get => lit_bytes("GET"),
        Method::Post => lit_bytes("POST"),
        Method::Delete => lit_bytes("DELETE"),
    }
}

/// A request body: empty, or raw bytes (the caller sets `Content-Length`).
pub enum Body {
    Empty(),
    Bytes(Vec<u8>),
}

impl Body {
    /// The bytes the body contributes to the wire.
    pub open spec fn wire(&self) -> Seq<u8> {
        match self {
            Body::Empty() => Seq::<u8>::empty(),
            Body::Bytes(v) => v@,
        }
    }
}

/// One request: method, path with query, headers in order, body.
pub struct Request {
    pub method: Method,
    pub path: Vec<u8>,
    pub headers: Vec<(Vec<u8>, Vec<u8>)>,
    pub body: Body,
}

/// The header lines of the first `k` headers, joined by `CRLF`.
pub open spec fn headers_join(hs: Seq<(Seq<u8>, Seq<u8>)>, k: int) -> Seq<u8>
    decreases k,
{
    if k <= 0 {
        Seq::<u8>::empty()
    } else if k == 1 {
        hs[0].0 + lit_bytes(": ") + hs[0].1
    } else {
        headers_join(hs, k - 1) + lit_bytes("\r\n") + hs[k - 1].0 + lit_bytes(": ") + hs[k - 1].1
    }
}

impl Request {
    /// The headers as sequences.
    pub open spec fn header_view(&self) -> Seq<(Seq<u8>, Seq<u8>)> {
        self.headers@.map_values(|h: (Vec<u8>, Vec<u8>)| (h.0@, h.1@))
    }

    /// The exact bytes this request puts on the wire: the request line,
    /// the headers joined by `CRLF`, a blank line, then the body.
    pub open spec fn wire(&self) -> Seq<u8> {
        method_bytes(self.method) + lit_bytes(" ") + self.path@ + lit_bytes(" HTTP/1.1\r\n")
            + headers_join(self.header_view(), self.header_view().len() as int) + lit_bytes(
            "\r\n\r\n",
        ) + self.body.wire()
    }
}

/// Renders a request to its wire bytes.
pub fn render_request(req: &Request) -> (r: Vec<u8>)
    ensures
        r@ == req.wire(),
{
    let mut out: Vec<u8> = Vec::new();
    match req.method {
        Method::Get => write_lit(&mut out, "GET"),
        Method::Post => write_lit(&mut out, "POST"),
        Method::Delete => write_lit(&mut out, "DELETE"),
    }
    write_lit(&mut out, " ");
    append_bytes(&mut out, req.path.as_slice());
    write_lit(&mut out, " HTTP/1.1\r\n");
    let ghost hs = req.header_view();
    let ghost base = out@;
    let mut i: usize = 0;
    while i < req.headers.len()
        invariant
            0 <= i <= req.headers@.len(),
            hs == req.header_view(),
            hs.len() == req.headers@.len(),
            base == method_bytes(req.method) + lit_bytes(" ") + req.path@ + lit_bytes(
                " HTTP/1.1\r\n",
            ),
            out@ == base + headers_join(hs, i as int),
        decreases req.headers@.len() - i,
    {
        if i > 0 {
            write_lit(&mut out, "\r\n");
        }
        let ghost pre = out@;
        append_bytes(&mut out, req.headers[i].0.as_slice());
        write_lit(&mut out, ": ");
        append_bytes(&mut out, req.headers[i].1.as_slice());
        proof {
            assert(hs[i as int] == (req.headers@[i as int].0@, req.headers@[i as int].1@));
            if i == 0 {
                assert(out@ =~= base + headers_join(hs, i as int + 1));
            } else {
                assert(out@ =~= base + headers_join(hs, i as int + 1));
            }
        }
        i = i + 1;
    }
    write_lit(&mut out, "\r\n\r\n");
    match &req.body {
        Body::Empty() => {},
        Body::Bytes(v) => {
            append_bytes(&mut out, v.as_slice());
        },
    }
    proof {
        assert(out@ =~= req.wire());
    }
    out
}

/// True for bytes allowed in a header name: the HTTP token characters.
pub open spec fn is_header_name_byte(b: u8) -> bool {
    (0x30 <= b <= 0x39)  // digits
     || (0x61 <= b <= 0x7A)  // a-z
     || (0x41 <= b <= 0x5A)  // A-Z
     || b == 0x21  // !
     || (0x23 <= b <= 0x27)  // # $ % & '
     || b == 0x2A  // *
     || b == 0x2B  // +
     || b == 0x2D  // -
     || b == 0x2E  // .
     || b == 0x5E  // ^
     || b == 0x5F  // _
     || b == 0x60  // `
     || b == 0x7C  // |
     || b == 0x7E  // ~

}

/// A header-name byte with upper case folded to lower case.
pub open spec fn header_name_lower(b: u8) -> u8 {
    if 0x41 <= b <= 0x5A {
        (b + 0x20) as u8
    } else {
        b
    }
}

/// The lower-case form of a header name.
pub open spec fn header_name_canon(s: Seq<u8>) -> Seq<u8> {
    s.map_values(|b: u8| header_name_lower(b))
}

/// True when every byte of `s` may stand in a header name, and `s` is
/// not empty.
pub open spec fn valid_header_name(s: Seq<u8>) -> bool {
    s.len() > 0 && forall|i: int| 0 <= i < s.len() ==> is_header_name_byte(#[trigger] s[i])
}

/// True for bytes allowed in a header value: tab, or any visible or
/// high byte (space through `0xFF`, except delete).
pub open spec fn is_header_value_byte(b: u8) -> bool {
    b == 0x09 || (b >= 0x20 && b != 0x7F)
}

/// True when every byte of `s` may stand in a header value.
pub open spec fn valid_header_value(s: Seq<u8>) -> bool {
    forall|i: int| 0 <= i < s.len() ==> is_header_value_byte(#[trigger] s[i])
}

/// Validates a header name and returns its lower-case form.
pub fn canonicalize_header_name(name: &[u8]) -> (r: Option<Vec<u8>>)
    ensures
        match r {
            Some(v) => valid_header_name(name@) && v@ == header_name_canon(name@),
            None => !valid_header_name(name@),
        },
{
    if name.len() == 0 {
        return None;
    }
    let mut out: Vec<u8> = Vec::new();
    let mut i: usize = 0;
    while i < name.len()
        invariant
            0 <= i <= name@.len(),
            forall|j: int| 0 <= j < i ==> is_header_name_byte(#[trigger] name@[j]),
            out@ == header_name_canon(name@.take(i as int)),
        decreases name@.len() - i,
    {
        let b = name[i];
        let ok = (b >= 0x30 && b <= 0x39) || (b >= 0x61 && b <= 0x7A) || (b >= 0x41 && b <= 0x5A)
            || b == 0x21 || (b >= 0x23 && b <= 0x27) || b == 0x2A || b == 0x2B || b == 0x2D || b
            == 0x2E || b == 0x5E || b == 0x5F || b == 0x60 || b == 0x7C || b == 0x7E;
        if !ok {
            assert(!is_header_name_byte(name@[i as int]));
            return None;
        }
        let lower = if b >= 0x41 && b <= 0x5A {
            b + 0x20
        } else {
            b
        };
        out.push(lower);
        proof {
            assert(header_name_canon(name@.take(i as int + 1)) =~= header_name_canon(
                name@.take(i as int),
            ).push(header_name_lower(name@[i as int])));
        }
        i = i + 1;
    }
    proof {
        assert(name@.take(name@.len() as int) =~= name@);
    }
    Some(out)
}

/// Checks that every byte of `value` may stand in a header value.
pub fn check_header_value(value: &[u8]) -> (r: bool)
    ensures
        r == valid_header_value(value@),
{
    let mut i: usize = 0;
    while i < value.len()
        invariant
            0 <= i <= value@.len(),
            forall|j: int| 0 <= j < i ==> is_header_value_byte(#[trigger] value@[j]),
        decreases value@.len() - i,
    {
        let b = value[i];
        if !(b == 0x09 || (b >= 0x20 && b != 0x7F)) {
            assert(!is_header_value_byte(value@[i as int]));
            return false;
        }
        i = i + 1;
    }
    true
}

/// True when two byte strings are equal.
pub fn bytes_eq(a: &[u8], b: &[u8]) -> (r: bool)
    ensures
        r == (a@ == b@),
{
    if a.len() != b.len() {
        return false;
    }
    let mut i: usize = 0;
    while i < a.len()
        invariant
            0 <= i <= a@.len(),
            a@.len() == b@.len(),
            forall|j: int| 0 <= j < i ==> a@[j] == b@[j],
        decreases a@.len() - i,
    {
        if a[i] != b[i] {
            return false;
        }
        i = i + 1;
    }
    proof {
        assert(a@ =~= b@);
    }
    true
}

/// What the head parser found, in the model.
pub ghost enum HeadView {
    /// A complete head: the status code and the raw headers.
    Complete { code: u16, headers: Seq<(Seq<char>, Seq<u8>)> },
    /// A complete status line without a code.
    MissingStatus,
    /// The bytes end before the head does.
    Partial,
    /// The bytes are not an HTTP response head.
    Malformed,
}

/// What `httparse` makes of a response head. The result is a function of
/// the bytes alone.
pub uninterp spec fn parsed_head(bytes: Seq<u8>) -> HeadView;

/// The outcome of parsing a response head.
pub enum RawHead {
    /// Status code and raw headers, in order.
    Complete(u16, Vec<(String, Vec<u8>)>),
    MissingStatus,
    Partial,
    /// Not a response head; the parser's message.
    Malformed(String),
}

/// How a parse outcome corresponds to the model.
pub open spec fn raw_head_matches(r: RawHead, v: HeadView) -> bool {
    match v {
        HeadView::Complete { code, headers } => r matches RawHead::Complete(c, hs) && c == code
            && hs@.map_values(|p: (String, Vec<u8>)| (p.0@, p.1@)) == headers,
        HeadView::MissingStatus => r is MissingStatus,
        HeadView::Partial => r is Partial,
        HeadView::Malformed => r is Malformed,
    }
}

/// Relies on `httparse::Response::parse` with a 30-header buffer: parsing
/// a response head is a function of the bytes alone, and yields either a
/// complete head (status code and header name/value pairs, in order), a
/// partial head, or a syntax error.
#[verifier::external_body]
fn parse_head_raw(bytes: &Vec<u8>) -> (r: RawHead)
    ensures
        raw_head_matches(r, parsed_head(bytes@)),
{
    let mut headers = [httparse::EMPTY_HEADER; 30];
    let mut resp = httparse::Response::new(&mut headers);
    match resp.parse(bytes.as_slice()) {
        Ok(httparse::Status::Complete(_)) => match resp.code {
            Some(code) => RawHead::Complete(
                code,
                resp.headers.iter().map(|h| (h.name.to_string(), h.value.to_vec())).collect(),
            ),
            None => RawHead::MissingStatus,
        },
        Ok(httparse::Status::Partial) => RawHead::Partial,
        Err(e) => RawHead::Malformed(format!("{}", e)),
    }
}

/// Failure to parse a response head.
#[derive(Debug)]
pub enum ParseError {
    /// The response was empty.
    Empty,
    /// The head ended before the blank line.
    Partial,
    /// Not an HTTP response head; the parser's message.
    Syntax(String),
    /// A header name holds a byte outside the token characters.
    InvalidHeaderName,
    /// A header value holds a control byte.
    InvalidHeaderValue,
    /// The status line carries no code.
    MissingStatus,
    /// The status code is out of the 100-999 range.
    BuildResponse,
}

/// The outcome of validating and canonicalizing headers, in the model.
pub ghost enum CanonResult {
    Accepted(Seq<(Seq<u8>, Seq<u8>)>),
    BadName,
    BadValue,
}

/// Validates raw headers in order and folds names to lower case: the
/// first invalid name or value decides the outcome.
pub open spec fn canon_headers(hs: Seq<(Seq<char>, Seq<u8>)>) -> CanonResult
    decreases hs.len(),
{
    if hs.len() == 0 {
        CanonResult::Accepted(Seq::<(Seq<u8>, Seq<u8>)>::empty())
    } else {
        let name_bytes = vstd::utf8::encode_utf8(hs[0].0);
        if !valid_header_name(name_bytes) {
            CanonResult::BadName
        } else if !valid_header_value(hs[0].1) {
            CanonResult::BadValue
        } else {
            match canon_headers(hs.drop_first()) {
                CanonResult::Accepted(rest) => CanonResult::Accepted(
                    seq![(header_name_canon(name_bytes), hs[0].1)] + rest,
                ),
                e => e,
            }
        }
    }
}

/// Validates and canonicalizes the parsed headers.
fn canonicalize_headers(raw: &Vec<(String, Vec<u8>)>) -> (r: Result<
    Vec<(Vec<u8>, Vec<u8>)>,
    ParseError,
>)
    ensures
        match canon_headers(raw@.map_values(|p: (String, Vec<u8>)| (p.0@, p.1@))) {
            CanonResult::Accepted(hs) => r matches Ok(v) && v@.map_values(
                |p: (Vec<u8>, Vec<u8>)| (p.0@, p.1@),
            ) == hs,
            CanonResult::BadName => r == Err::<Vec<(Vec<u8>, Vec<u8>)>, ParseError>(
                ParseError::InvalidHeaderName,
            ),
            CanonResult::BadValue => r == Err::<Vec<(Vec<u8>, Vec<u8>)>, ParseError>(
                ParseError::InvalidHeaderValue,
            ),
        },
{
    let ghost hv = raw@.map_values(|p: (String, Vec<u8>)| (p.0@, p.1@));
    let mut out: Vec<(Vec<u8>, Vec<u8>)> = Vec::new();
    proof {
        assert(hv.skip(0) =~= hv);
        match canon_headers(hv) {
            CanonResult::Accepted(rest) => {
                assert(Seq::<(Seq<u8>, Seq<u8>)>::empty() + rest =~= rest);
            },
            _ => {},
        }
        assert(out@.map_values(|p: (Vec<u8>, Vec<u8>)| (p.0@, p.1@)) =~= Seq::<(
            Seq<u8>,
            Seq<u8>,
        )>::empty());
    }
    let mut i: usize = 0;
    while i < raw.len()
        invariant
            0 <= i <= raw@.len(),
            hv == raw@.map_values(|p: (String, Vec<u8>)| (p.0@, p.1@)),
            hv.len() == raw@.len(),
            ({
                let done = out@.map_values(|p: (Vec<u8>, Vec<u8>)| (p.0@, p.1@));
                canon_headers(hv) == (match canon_headers(hv.skip(i as int)) {
                    CanonResult::Accepted(rest) => CanonResult::Accepted(done + rest),
                    e => e,
                })
            }),
        decreases raw@.len() - i,
    {
        let ghost done_pre = out@.map_values(|p: (Vec<u8>, Vec<u8>)| (p.0@, p.1@));
        proof {
            assert(hv.skip(i as int)[0] == hv[i as int]);
            assert(hv.skip(i as int).drop_first() =~= hv.skip(i as int + 1));
            assert(hv[i as int] == (raw@[i as int].0@, raw@[i as int].1@));
        }
        let name = canonicalize_header_name(raw[i].0.as_str().as_bytes());
        match name {
            None => {
                return Err(ParseError::InvalidHeaderName);
            },
            Some(canon) => {
                if !check_header_value(raw[i].1.as_slice()) {
                    return Err(ParseError::InvalidHeaderValue);
                }
                let mut value: Vec<u8> = Vec::new();
                append_bytes(&mut value, raw[i].1.as_slice());
                out.push((canon, value));
                proof {
                    let done_post = out@.map_values(|p: (Vec<u8>, Vec<u8>)| (p.0@, p.1@));
                    assert(done_post =~= done_pre + seq![
                        (
                            header_name_canon(vstd::utf8::encode_utf8(hv[i as int].0)),
                            hv[i as int].1,
                        ),
                    ]);
                    match canon_headers(hv.skip(i as int + 1)) {
                        CanonResult::Accepted(rest) => {
                            assert(done_pre + (seq![
                                (
                                    header_name_canon(vstd::utf8::encode_utf8(hv[i as int].0)),
                                    hv[i as int].1,
                                ),
                            ] + rest) =~= done_post + rest);
                        },
                        _ => {},
                    }
                }
            },
        }
        i = i + 1;
    }
    proof {
        assert(hv.skip(hv.len() as int) =~= Seq::<(Seq<char>, Seq<u8>)>::empty());
        let done = out@.map_values(|p: (Vec<u8>, Vec<u8>)| (p.0@, p.1@));
        match canon_headers(hv) {
            CanonResult::Accepted(hs) => {
                assert(done + Seq::<(Seq<u8>, Seq<u8>)>::empty() =~= done);
            },
            _ => {},
        }
    }
    Ok(out)
}

/// The value of the last header with the given (lower-case) name.
pub open spec fn header_lookup(hs: Seq<(Seq<u8>, Seq<u8>)>, name: Seq<u8>) -> Option<Seq<u8>>
    decreases hs.len(),
{
    if hs.len() == 0 {
        None
    } else if hs.last().0 == name {
        Some(hs.last().1)
    } else {
        header_lookup(hs.drop_last(), name)
    }
}

/// Finds the index of the last header with the given name.
fn find_header(headers: &Vec<(Vec<u8>, Vec<u8>)>, name: &[u8]) -> (r: Option<usize>)
    ensures
        ({
            let hs = headers@.map_values(|p: (Vec<u8>, Vec<u8>)| (p.0@, p.1@));
            match r {
                Some(i) => i < headers@.len() && headers@[i as int].0@ == name@ && header_lookup(
                    hs,
                    name@,
                ) == Some(headers@[i as int].1@),
                None => header_lookup(hs, name@) is None,
            }
        }),
{
    let ghost hs = headers@.map_values(|p: (Vec<u8>, Vec<u8>)| (p.0@, p.1@));
    proof {
        assert(hs.take(hs.len() as int) =~= hs);
    }
    let mut i: usize = headers.len();
    while i > 0
        invariant
            0 <= i <= headers@.len(),
            hs == headers@.map_values(|p: (Vec<u8>, Vec<u8>)| (p.0@, p.1@)),
            hs.len() == headers@.len(),
            header_lookup(hs, name@) == header_lookup(hs.take(i as int), name@),
        decreases i,
    {
        proof {
            assert(hs.take(i as int).last() == hs[i as int - 1]);
            assert(hs.take(i as int).drop_last() =~= hs.take(i as int - 1));
        }
        if bytes_eq(headers[i - 1].0.as_slice(), name) {
            return Some(i - 1);
        }
        i = i - 1;
    }
    proof {
        assert(hs.take(0) =~= Seq::<(Seq<u8>, Seq<u8>)>::empty());
    }
    None
}

/// The body length announced by `Content-Length`: absent, unparseable or
/// oversized values count as zero.
pub open spec fn content_length_of(hs: Seq<(Seq<u8>, Seq<u8>)>) -> nat {
    match header_lookup(hs, lit_bytes("content-length")) {
        None => 0,
        Some(v) => if v.len() > 0 && all_dec_digits(v) && dec_value(v) <= usize::MAX as nat {
            dec_value(v)
        } else {
            0
        },
    }
}

/// Reads the announced body length out of the headers.
fn get_content_length(headers: &Vec<(Vec<u8>, Vec<u8>)>) -> (r: usize)
    ensures
        r as nat == content_length_of(
            headers@.map_values(|p: (Vec<u8>, Vec<u8>)| (p.0@, p.1@)),
        ),
{
    match find_header(headers, "content-length".as_bytes()) {
        None => 0,
        Some(i) => match parse_dec_usize(headers[i].1.as_slice()) {
            Some(n) => n,
            None => 0,
        },
    }
}

/// True when the response announces chunked transfer encoding.
pub open spec fn is_chunked(hs: Seq<(Seq<u8>, Seq<u8>)>) -> bool {
    header_lookup(hs, lit_bytes("transfer-encoding")) == Some(lit_bytes("chunked"))
}

/// Checks whether the response announces chunked transfer encoding.
fn get_is_chunked(headers: &Vec<(Vec<u8>, Vec<u8>)>) -> (r: bool)
    ensures
        r == is_chunked(headers@.map_values(|p: (Vec<u8>, Vec<u8>)| (p.0@, p.1@))),
{
    match find_header(headers, "transfer-encoding".as_bytes()) {
        None => false,
        Some(i) => bytes_eq(headers[i].1.as_slice(), "chunked".as_bytes()),
    }
}

/// A transfer encoding as named by the response headers.
#[derive(Debug)]
pub enum TransferEncoding {
    NoEncoding(),
    Chunked(),
    Other(String),
}

impl TransferEncoding {
    /// Classifies a `Transfer-Encoding` value: exactly `chunked` is
    /// chunked, the empty string is no encoding, anything else is other.
    pub fn from_str(value: &str) -> (r: TransferEncoding)
        ensures
            (r is Chunked) == (lit_bytes(value) == lit_bytes("chunked")),
            lit_bytes(value) != lit_bytes("chunked") ==> ((r is NoEncoding) == (lit_bytes(value)
                == lit_bytes(""))),
            r matches TransferEncoding::Other(o) ==> o@ == value@,
    {
        if bytes_eq(value.as_bytes(), "chunked".as_bytes()) {
            TransferEncoding::Chunked()
        } else if value.as_bytes().len() == 0 {
            proof {
                reveal_strlit("");
                assert(lit_bytes("") =~= Seq::<u8>::empty());
                assert(lit_bytes(value) =~= Seq::<u8>::empty());
            }
            TransferEncoding::NoEncoding()
        } else {
            proof {
                reveal_strlit("");
                assert(lit_bytes("") =~= Seq::<u8>::empty());
            }
            TransferEncoding::Other(value.to_owned())
        }
    }
}

/// True when `s` ends with `CR LF CR LF`.
pub open spec fn ends_crlfcrlf(s: Seq<u8>) -> bool {
    s.len() >= 4 && s[s.len() - 4] == 0x0D && s[s.len() - 3] == 0x0A && s[s.len() - 2] == 0x0D
        && s[s.len() - 1] == 0x0A
}

/// Checks whether `s` ends with `CR LF CR LF`.
fn check_ends_crlfcrlf(s: &Vec<u8>) -> (r: bool)
    ensures
        r == ends_crlfcrlf(s@),
{
    let n = s.len();
    n >= 4 && s[n - 4] == 0x0D && s[n - 3] == 0x0A && s[n - 2] == 0x0D && s[n - 1] == 0x0A
}

/// The model of reading the response head: up to `fuel` line reads, each
/// stopping early once the accumulated bytes end with the blank line.
/// `None` means a read blocked.
pub open spec fn head_read(serves: Seq<u8>, blocks: bool, fuel: nat, acc: Seq<u8>) -> Option<
    (Seq<u8>, Seq<u8>),
>
    decreases fuel,
{
    if ends_crlfcrlf(acc) || fuel == 0 {
        Some((acc, serves))
    } else {
        match find_lf(serves) {
            Some(i) => head_read(
                serves.skip(i + 1),
                blocks,
                (fuel - 1) as nat,
                acc + serves.take(i + 1),
            ),
            None => if blocks {
                None
            } else {
                head_read(Seq::<u8>::empty(), blocks, (fuel - 1) as nat, acc + serves)
            },
        }
    }
}

/// Reads the response head: up to 20 line reads, stopping once the
/// accumulated bytes end with the blank line.
fn read_response_head<S: StreamSocket>(s: &mut S) -> (r: Result<Vec<u8>, IoFailure>)
    requires
        old(s).current() is Some,
    ensures
        final(s).future() == old(s).future(),
        final(s).used() == old(s).used(),
        final(s).current() is Some,
        ({
            let c = old(s).current().unwrap();
            let cc = final(s).current().unwrap();
            cc.wrote == c.wrote && cc.write_closed == c.write_closed && cc.accepts_writes
                == c.accepts_writes && cc.blocks_after == c.blocks_after && cc.read_timeout_ms
                == c.read_timeout_ms
        }),
        ({
            let c = old(s).current().unwrap();
            match head_read(c.serves, c.blocks_after, 20, Seq::<u8>::empty()) {
                Some((head, rest)) => r matches Ok(v) && v@ == head && final(s).current().unwrap().serves == rest,
                None => r matches Err(f) && f.kind == IoKind::WouldBlock,
            }
        }),
{
    let ghost c0 = old(s).current().unwrap();
    let ghost blocks = c0.blocks_after;
    let mut buf: Vec<u8> = Vec::new();
    let mut n: usize = 0;
    proof {
        assert(buf@ =~= Seq::<u8>::empty());
    }
    loop
        invariant
            s.current() is Some,
            s.future() == old(s).future(),
            s.used() == old(s).used(),
            old(s).current() is Some,
            c0 == old(s).current().unwrap(),
            blocks == c0.blocks_after,
            ({
                let cc = s.current().unwrap();
                cc.wrote == c0.wrote && cc.write_closed == c0.write_closed && cc.accepts_writes
                    == c0.accepts_writes && cc.blocks_after == blocks && cc.read_timeout_ms
                    == c0.read_timeout_ms
            }),
            n <= 20,
            head_read(c0.serves, blocks, 20, Seq::<u8>::empty()) == head_read(
                s.current().unwrap().serves,
                blocks,
                (20 - n) as nat,
                buf@,
            ),
        decreases 20 - n,
    {
        if check_ends_crlfcrlf(&buf) {
            return Ok(buf);
        }
        if n == 20 {
            return Ok(buf);
        }
        match s.read_line_lf() {
            Ok(mut line) => {
                buf.append(&mut line);
            },
            Err(f) => {
                return Err(f);
            },
        }
        n = n + 1;
    }
}

/// Failure while reading a chunked response body.
#[derive(Debug)]
pub enum ReadChunkError {
    /// The chunk-length line could not be read.
    ReadChunkLength(IoFailure),
    /// The chunk-length line was not a hex number (carried here, trimmed).
    ParseChunkLength(Vec<u8>),
    /// The chunk bytes could not be read in full.
    ReadChunk(IoFailure),
    /// The line feed after a chunk could not be read.
    SkipLineFeed(IoFailure),
}

/// Outcome of reading a chunked body, in the model.
pub ghost enum ChunkOutcome {
    /// The concatenated chunk bytes, and what remains after the stream.
    Done { body: Seq<u8>, rest: Seq<u8> },
    /// Reading a chunk-length line blocked.
    FailLength,
    /// A chunk-length line that is not a hex number (trimmed).
    FailParse(Seq<u8>),
    /// Reading chunk bytes failed; true when it blocked, false at end of
    /// input.
    FailChunk(bool),
    /// Reading the line feed after a chunk blocked.
    FailTerminator,
}

/// The model of the chunked-body reader: hex length line, chunk bytes,
/// trailing line, until a zero-length chunk.
pub open spec fn chunked_read(serves: Seq<u8>, blocks: bool, acc: Seq<u8>) -> ChunkOutcome
    decreases serves.len(),
    via chunked_read_decreases
{
    let line_rest = match find_lf(serves) {
        Some(i) => Some((serves.take(i + 1), serves.skip(i + 1))),
        None => if blocks {
            None
        } else {
            Some((serves, Seq::<u8>::empty()))
        },
    };
    match line_rest {
        None => ChunkOutcome::FailLength,
        Some((line, rest)) => {
            let trimmed = trim_end_spec(line);
            if !(trimmed.len() > 0 && all_hex_digits(trimmed) && hex_value(trimmed)
                <= usize::MAX as nat) {
                ChunkOutcome::FailParse(trimmed)
            } else {
                let n = hex_value(trimmed);
                if n == 0 {
                    match find_lf(rest) {
                        Some(j) => ChunkOutcome::Done { body: acc, rest: rest.skip(j + 1) },
                        None => if blocks {
                            ChunkOutcome::FailTerminator
                        } else {
                            ChunkOutcome::Done { body: acc, rest: Seq::<u8>::empty() }
                        },
                    }
                } else if n > rest.len() {
                    ChunkOutcome::FailChunk(blocks)
                } else {
                    let chunk = rest.take(n as int);
                    let rest2 = rest.skip(n as int);
                    match find_lf(rest2) {
                        Some(j) => chunked_read(rest2.skip(j + 1), blocks, acc + chunk),
                        None => if blocks {
                            ChunkOutcome::FailTerminator
                        } else {
                            chunked_read(Seq::<u8>::empty(), blocks, acc + chunk)
                        },
                    }
                }
            }
        },
    }
}

#[via_fn]
proof fn chunked_read_decreases(serves: Seq<u8>, blocks: bool, acc: Seq<u8>) {
    lemma_find_lf(serves);
    match find_lf(serves) {
        Some(i) => {
            let rest = serves.skip(i + 1);
            let trimmed = trim_end_spec(serves.take(i + 1));
            if trimmed.len() > 0 && all_hex_digits(trimmed) && hex_value(trimmed)
                <= usize::MAX as nat {
                let n = hex_value(trimmed);
                if 0 < n <= rest.len() {
                    lemma_find_lf(rest.skip(n as int));
                }
            }
        },
        None => {
            if !blocks {
                let trimmed = trim_end_spec(serves);
                if trimmed.len() > 0 && all_hex_digits(trimmed) && hex_value(trimmed)
                    <= usize::MAX as nat {
                    let n = hex_value(trimmed);
                    if 0 < n {
                        // the remaining input is empty, so the chunk read fails
                        // and no recursive call is made
                    } else {
                        lemma_trim_end_len(serves);
                    }
                }
            }
        },
    }
}

/// Trimming never lengthens a byte string.
proof fn lemma_trim_end_len(s: Seq<u8>)
    ensures
        trim_end_spec(s).len() <= s.len(),
    decreases s.len(),
{
    if s.len() > 0 && crate::numeric::is_ascii_space(s.last()) {
        lemma_trim_end_len(s.drop_last());
    }
}

/// How an executable chunked-read result corresponds to the model.
pub open spec fn chunk_result_matches(r: Result<Vec<u8>, ReadChunkError>, m: ChunkOutcome) -> bool {
    match m {
        ChunkOutcome::Done { body, rest } => r matches Ok(v) && v@ == body,
        ChunkOutcome::FailLength => r matches Err(ReadChunkError::ReadChunkLength(f)) && f.kind
            == IoKind::WouldBlock,
        ChunkOutcome::FailParse(t) => r matches Err(ReadChunkError::ParseChunkLength(tv)) && tv@
            == t,
        ChunkOutcome::FailChunk(wb) => r matches Err(ReadChunkError::ReadChunk(f)) && f.kind == (
        if wb {
            IoKind::WouldBlock
        } else {
            IoKind::UnexpectedEof
        }),
        ChunkOutcome::FailTerminator => r matches Err(ReadChunkError::SkipLineFeed(f)) && f.kind
            == IoKind::WouldBlock,
    }
}

/// Reads a chunked response body: hex length line, chunk bytes, trailing
/// line, until a zero-length chunk.
fn read_chunked_body<S: StreamSocket>(s: &mut S) -> (r: Result<Vec<u8>, ReadChunkError>)
    requires
        old(s).current() is Some,
    ensures
        final(s).future() == old(s).future(),
        final(s).used() == old(s).used(),
        final(s).current() is Some,
        ({
            let c = old(s).current().unwrap();
            let cc = final(s).current().unwrap();
            cc.wrote == c.wrote && cc.write_closed == c.write_closed && cc.accepts_writes
                == c.accepts_writes && cc.blocks_after == c.blocks_after && cc.read_timeout_ms
                == c.read_timeout_ms
        }),
        chunk_result_matches(
            r,
            chunked_read(
                old(s).current().unwrap().serves,
                old(s).current().unwrap().blocks_after,
                Seq::<u8>::empty(),
            ),
        ),
        ({
            let c = old(s).current().unwrap();
            chunked_read(c.serves, c.blocks_after, Seq::<u8>::empty()) matches ChunkOutcome::Done {
                body,
                rest,
            } ==> final(s).current().unwrap().serves == rest
        }),
{
    let ghost c0 = old(s).current().unwrap();
    let ghost blocks = c0.blocks_after;
    let mut body: Vec<u8> = Vec::new();
    proof {
        assert(body@ =~= Seq::<u8>::empty());
    }
    loop
        invariant
            s.current() is Some,
            s.future() == old(s).future(),
            s.used() == old(s).used(),
            old(s).current() is Some,
            c0 == old(s).current().unwrap(),
            blocks == c0.blocks_after,
            ({
                let cc = s.current().unwrap();
                cc.wrote == c0.wrote && cc.write_closed == c0.write_closed && cc.accepts_writes
                    == c0.accepts_writes && cc.blocks_after == blocks && cc.read_timeout_ms
                    == c0.read_timeout_ms
            }),
            chunked_read(c0.serves, blocks, Seq::<u8>::empty()) == chunked_read(
                s.current().unwrap().serves,
                blocks,
                body@,
            ),
        decreases s.current().unwrap().serves.len(),
    {
        let ghost sv = s.current().unwrap().serves;
        let line = match s.read_line_lf() {
            Ok(v) => v,
            Err(f) => {
                return Err(ReadChunkError::ReadChunkLength(f));
            },
        };
        let ghost sv1 = s.current().unwrap().serves;
        let trimmed = trim_end(line.as_slice());
        let n = match parse_hex_usize(trimmed.as_slice()) {
            Some(n) => n,
            None => {
                return Err(ReadChunkError::ParseChunkLength(trimmed));
            },
        };
        if n == 0 {
            match s.read_line_lf() {
                Ok(_) => {
                    return Ok(body);
                },
                Err(f) => {
                    return Err(ReadChunkError::SkipLineFeed(f));
                },
            }
        }
        let mut chunk = match s.read_exact(n) {
            Ok(v) => v,
            Err(f) => {
                return Err(ReadChunkError::ReadChunk(f));
            },
        };
        let ghost sv2 = s.current().unwrap().serves;
        body.append(&mut chunk);
        match s.read_line_lf() {
            Ok(_) => {},
            Err(f) => {
                return Err(ReadChunkError::SkipLineFeed(f));
            },
        }
        proof {
            lemma_find_lf(sv);
            lemma_trim_end_len(line@);
            assert(line@.len() >= 1);
            match find_lf(sv) {
                Some(i) => {
                    assert(sv1 =~= sv.skip(i + 1));
                    assert(sv1.len() < sv.len());
                },
                None => {
                    assert(sv1.len() == 0);
                    assert(false);
                },
            }
            assert(sv2.len() == sv1.len() - n);
            lemma_find_lf(sv2);
            assert(s.current().unwrap().serves.len() <= sv2.len());
            assert(s.current().unwrap().serves.len() < sv.len());
        }
    }
}

/// Reads a body of exactly `content_length` bytes; zero reads nothing.
fn read_response_body<S: StreamSocket>(s: &mut S, content_length: usize) -> (r: Result<
    Vec<u8>,
    IoFailure,
>)
    requires
        old(s).current() is Some,
    ensures
        final(s).future() == old(s).future(),
        final(s).used() == old(s).used(),
        final(s).current() is Some,
        ({
            let c = old(s).current().unwrap();
            let cc = final(s).current().unwrap();
            cc.wrote == c.wrote && cc.write_closed == c.write_closed && cc.accepts_writes
                == c.accepts_writes && cc.blocks_after == c.blocks_after && cc.read_timeout_ms
                == c.read_timeout_ms
        }),
        ({
            let c = old(s).current().unwrap();
            if content_length == 0 {
                r matches Ok(v) && v@ == Seq::<u8>::empty() && final(s).current() == old(
                    s,
                ).current()
            } else if content_length <= c.serves.len() {
                r matches Ok(v) && v@ == c.serves.take(content_length as int) && final(s).current().unwrap().serves == c.serves.skip(content_length as int)
            } else {
                r matches Err(f) && f.kind == (if c.blocks_after {
                    IoKind::WouldBlock
                } else {
                    IoKind::UnexpectedEof
                }) && final(s).current() == old(s).current()
            }
        }),
{
    if content_length == 0 {
        let v: Vec<u8> = Vec::new();
        proof {
            assert(v@ =~= Seq::<u8>::empty());
        }
        Ok(v)
    } else {
        s.read_exact(content_length)
    }
}

/// A parsed response: status, canonical headers, raw body bytes.
#[derive(Debug)]
pub struct HttpResponse {
    pub status: u16,
    pub headers: Vec<(Vec<u8>, Vec<u8>)>,
    pub body: Vec<u8>,
}

impl HttpResponse {
    /// The headers as sequences.
    pub open spec fn header_view(&self) -> Seq<(Seq<u8>, Seq<u8>)> {
        self.headers@.map_values(|p: (Vec<u8>, Vec<u8>)| (p.0@, p.1@))
    }
}

/// A failed JSON decode: the decoder's message.
#[derive(Debug)]
pub struct JsonFailure {
    pub message: String,
}

/// Failure of one request/response exchange.
#[derive(Debug)]
pub enum Error {
    /// The request could not be written.
    WriteRequest(IoFailure),
    /// The response head could not be read.
    ReadResponse(IoFailure),
    /// The response head could not be parsed.
    ParseResponseHead(ParseError),
    /// A response outside the 2xx range: its status and raw body.
    BadStatus(u16, Vec<u8>),
    /// The chunked body could not be read.
    ReadChunkedBody(ReadChunkError),
    /// The body could not be read in full.
    ReadBody(IoFailure),
    /// The body was not the expected JSON.
    DeserializeBody(JsonFailure),
}

/// Outcome of one exchange, in the model.
pub ghost enum HttpView {
    /// A 2xx response: status, headers, body, and what remains unread.
    Success { status: u16, headers: Seq<(Seq<u8>, Seq<u8>)>, body: Seq<u8>, rest: Seq<u8> },
    /// A non-2xx response: its status, raw body, and what remains unread.
    BadStat { status: u16, body: Seq<u8>, rest: Seq<u8> },
    FailRead,
    FailEmpty,
    FailPartial,
    FailSyntax,
    FailMissingStatus,
    FailName,
    FailValue,
    FailBuild,
    FailChunkLength,
    FailChunkParse(Seq<u8>),
    FailChunkRead(bool),
    FailChunkTerm,
    FailBody(bool),
}

/// Sorts a complete response into success or bad status.
pub open spec fn http_finish(
    code: u16,
    headers: Seq<(Seq<u8>, Seq<u8>)>,
    body: Seq<u8>,
    rest: Seq<u8>,
) -> HttpView {
    if 200 <= code < 300 {
        HttpView::Success { status: code, headers, body, rest }
    } else {
        HttpView::BadStat { status: code, body, rest }
    }
}

/// The model of reading one response: head, head parse, header
/// validation, framing by transfer encoding or content length, then the
/// status check. Opaque: callers match on its value; only the exchange
/// itself reasons from the definition.
#[verifier::opaque]
pub open spec fn http_read(serves: Seq<u8>, blocks: bool) -> HttpView {
    match head_read(serves, blocks, 20, Seq::<u8>::empty()) {
        None => HttpView::FailRead,
        Some((head, rest)) => match parsed_head(head) {
            HeadView::Partial => if head.len() == 0 {
                HttpView::FailEmpty
            } else {
                HttpView::FailPartial
            },
            HeadView::Malformed => HttpView::FailSyntax,
            HeadView::MissingStatus => HttpView::FailMissingStatus,
            HeadView::Complete { code, headers } => match canon_headers(headers) {
                CanonResult::BadName => HttpView::FailName,
                CanonResult::BadValue => HttpView::FailValue,
                CanonResult::Accepted(hs) => if !(100 <= code && code <= 999) {
                    HttpView::FailBuild
                } else if is_chunked(hs) {
                    match chunked_read(rest, blocks, Seq::<u8>::empty()) {
                        ChunkOutcome::Done { body, rest: rest2 } => http_finish(
                            code,
                            hs,
                            body,
                            rest2,
                        ),
                        ChunkOutcome::FailLength => HttpView::FailChunkLength,
                        ChunkOutcome::FailParse(t) => HttpView::FailChunkParse(t),
                        ChunkOutcome::FailChunk(wb) => HttpView::FailChunkRead(wb),
                        ChunkOutcome::FailTerminator => HttpView::FailChunkTerm,
                    }
                } else {
                    let n = content_length_of(hs);
                    if n == 0 {
                        http_finish(code, hs, Seq::<u8>::empty(), rest)
                    } else if n <= rest.len() {
                        http_finish(code, hs, rest.take(n as int), rest.skip(n as int))
                    } else {
                        HttpView::FailBody(blocks)
                    }
                },
            },
        },
    }
}

/// How an executable exchange result corresponds to the model.
pub open spec fn http_result_matches(r: Result<HttpResponse, Error>, v: HttpView) -> bool {
    match v {
        HttpView::Success { status, headers, body, rest } => r matches Ok(resp) && resp.status
            == status && resp.header_view() == headers && resp.body@ == body,
        HttpView::BadStat { status, body, rest } => r matches Err(Error::BadStatus(st, b)) && st
            == status && b@ == body,
        HttpView::FailRead => r matches Err(Error::ReadResponse(f)) && f.kind
            == IoKind::WouldBlock,
        HttpView::FailEmpty => r matches Err(Error::ParseResponseHead(ParseError::Empty)),
        HttpView::FailPartial => r matches Err(Error::ParseResponseHead(ParseError::Partial)),
        HttpView::FailSyntax => r matches Err(Error::ParseResponseHead(ParseError::Syntax(_))),
        HttpView::FailMissingStatus => r matches Err(
            Error::ParseResponseHead(ParseError::MissingStatus),
        ),
        HttpView::FailName => r matches Err(
            Error::ParseResponseHead(ParseError::InvalidHeaderName),
        ),
        HttpView::FailValue => r matches Err(
            Error::ParseResponseHead(ParseError::InvalidHeaderValue),
        ),
        HttpView::FailBuild => r matches Err(
            Error::ParseResponseHead(ParseError::BuildResponse),
        ),
        HttpView::FailChunkLength => r matches Err(
            Error::ReadChunkedBody(ReadChunkError::ReadChunkLength(f)),
        ) && f.kind == IoKind::WouldBlock,
        HttpView::FailChunkParse(t) => r matches Err(
            Error::ReadChunkedBody(ReadChunkError::ParseChunkLength(tv)),
        ) && tv@ == t,
        HttpView::FailChunkRead(wb) => r matches Err(
            Error::ReadChunkedBody(ReadChunkError::ReadChunk(f)),
        ) && f.kind == (if wb {
            IoKind::WouldBlock
        } else {
            IoKind::UnexpectedEof
        }),
        HttpView::FailChunkTerm => r matches Err(
            Error::ReadChunkedBody(ReadChunkError::SkipLineFeed(f)),
        ) && f.kind == IoKind::WouldBlock,
        HttpView::FailBody(wb) => r matches Err(Error::ReadBody(f)) && f.kind == (if wb {
            IoKind::WouldBlock
        } else {
            IoKind::UnexpectedEof
        }),
    }
}

/// Writes one request on the open connection and reads one response.
/// Exactly the request's wire bytes are written; the response is read
/// and framed as the model [`http_read`] says for the bytes the daemon
/// serves, and a non-2xx status is surfaced with its raw body.
pub fn send_request<S: StreamSocket>(s: &mut S, req: &Request) -> (r: Result<HttpResponse, Error>)
    requires
        old(s).current() is Some,
    ensures
        final(s).future() == old(s).future(),
        final(s).used() == old(s).used(),
        final(s).current() is Some,
        ({
            let c = old(s).current().unwrap();
            let cc = final(s).current().unwrap();
            cc.write_closed == c.write_closed && cc.accepts_writes == c.accepts_writes
                && cc.blocks_after == c.blocks_after && cc.read_timeout_ms == c.read_timeout_ms
        }),
        ({
            let c = old(s).current().unwrap();
            if !(c.accepts_writes && !c.write_closed) {
                (r matches Err(Error::WriteRequest(f)) && f.kind == IoKind::WouldBlock) && final(s).current().unwrap().wrote == c.wrote && final(s).current().unwrap().serves == c.serves
            } else {
                final(s).current().unwrap().wrote == c.wrote + req.wire() && http_result_matches(
                    r,
                    http_read(c.serves, c.blocks_after),
                ) && (match http_read(c.serves, c.blocks_after) {
                    HttpView::Success { rest, .. } => final(s).current().unwrap().serves == rest,
                    HttpView::BadStat { rest, .. } => final(s).current().unwrap().serves == rest,
                    _ => true,
                })
            }
        }),
{
    proof {
        reveal(http_read);
    }
    let out = render_request(req);
    match s.write_all(out.as_slice()) {
        Ok(()) => {},
        Err(f) => {
            return Err(Error::WriteRequest(f));
        },
    }
    let head = match read_response_head(s) {
        Ok(v) => v,
        Err(f) => {
            return Err(Error::ReadResponse(f));
        },
    };
    let raw = parse_head_raw(&head);
    let (code, raw_headers) = match raw {
        RawHead::Complete(code, hs) => (code, hs),
        RawHead::MissingStatus => {
            return Err(Error::ParseResponseHead(ParseError::MissingStatus));
        },
        RawHead::Partial => {
            if head.len() == 0 {
                return Err(Error::ParseResponseHead(ParseError::Empty));
            } else {
                return Err(Error::ParseResponseHead(ParseError::Partial));
            }
        },
        RawHead::Malformed(m) => {
            return Err(Error::ParseResponseHead(ParseError::Syntax(m)));
        },
    };
    let headers = match canonicalize_headers(&raw_headers) {
        Ok(h) => h,
        Err(e) => {
            return Err(Error::ParseResponseHead(e));
        },
    };
    if code < 100 || code > 999 {
        return Err(Error::ParseResponseHead(ParseError::BuildResponse));
    }
    let raw_body = if get_is_chunked(&headers) {
        match read_chunked_body(s) {
            Ok(b) => b,
            Err(e) => {
                return Err(Error::ReadChunkedBody(e));
            },
        }
    } else {
        let n = get_content_length(&headers);
        match read_response_body(s, n) {
            Ok(b) => b,
            Err(f) => {
                return Err(Error::ReadBody(f));
            },
        }
    };
    if !(code >= 200 && code < 300) {
        return Err(Error::BadStatus(code, raw_body));
    }
    Ok(HttpResponse { status: code, headers, body: raw_body })
}

/// A 2xx response that announces neither chunked encoding nor a body
/// length is read without touching a byte past its head: the body is
/// empty and the stream rests where the head ended.
pub proof fn lemma_no_content_reads_no_body(serves: Seq<u8>, blocks: bool)
    requires
        ({
            match head_read(serves, blocks, 20, Seq::<u8>::empty()) {
                Some((head, rest)) => match parsed_head(head) {
                    HeadView::Complete { code, headers } => match canon_headers(headers) {
                        CanonResult::Accepted(hs) => 200 <= code < 300 && !is_chunked(hs)
                            && content_length_of(hs) == 0,
                        _ => false,
                    },
                    _ => false,
                },
                None => false,
            }
        }),
    ensures
        ({
            let (head, rest) = head_read(serves, blocks, 20, Seq::<u8>::empty()).unwrap();
            http_read(serves, blocks) matches HttpView::Success { body, rest: r2, .. } && body
                == Seq::<u8>::empty() && r2 == rest
        }),
{
    reveal(http_read);
}

/// How an error-only result corresponds to a failed exchange in the
/// model (the success case never maps to an error).
pub open spec fn http_err_matches(e: Error, v: HttpView) -> bool {
    match v {
        HttpView::Success { .. } => false,
        HttpView::BadStat { status, body, rest } => e matches Error::BadStatus(st, b) && st
            == status && b@ == body,
        HttpView::FailRead => e matches Error::ReadResponse(f) && f.kind == IoKind::WouldBlock,
        HttpView::FailEmpty => e matches Error::ParseResponseHead(ParseError::Empty),
        HttpView::FailPartial => e matches Error::ParseResponseHead(ParseError::Partial),
        HttpView::FailSyntax => e matches Error::ParseResponseHead(ParseError::Syntax(_)),
        HttpView::FailMissingStatus => e matches Error::ParseResponseHead(
            ParseError::MissingStatus,
        ),
        HttpView::FailName => e matches Error::ParseResponseHead(ParseError::InvalidHeaderName),
        HttpView::FailValue => e matches Error::ParseResponseHead(
            ParseError::InvalidHeaderValue,
        ),
        HttpView::FailBuild => e matches Error::ParseResponseHead(ParseError::BuildResponse),
        HttpView::FailChunkLength => e matches Error::ReadChunkedBody(
            ReadChunkError::ReadChunkLength(f),
        ) && f.kind == IoKind::WouldBlock,
        HttpView::FailChunkParse(t) => e matches Error::ReadChunkedBody(
            ReadChunkError::ParseChunkLength(tv),
        ) && tv@ == t,
        HttpView::FailChunkRead(wb) => e matches Error::ReadChunkedBody(
            ReadChunkError::ReadChunk(f),
        ) && f.kind == (if wb {
            IoKind::WouldBlock
        } else {
            IoKind::UnexpectedEof
        }),
        HttpView::FailChunkTerm => e matches Error::ReadChunkedBody(
            ReadChunkError::SkipLineFeed(f),
        ) && f.kind == IoKind::WouldBlock,
        HttpView::FailBody(wb) => e matches Error::ReadBody(f) && f.kind == (if wb {
            IoKind::WouldBlock
        } else {
            IoKind::UnexpectedEof
        }),
    }
}

impl ParseError {
    /// A human-readable description of the failure.
    pub open spec fn message_spec(&self) -> Seq<char> {
        match self {
            ParseError::Empty => "Received empty response"@,
            ParseError::Partial => "Received partial response"@,
            ParseError::Syntax(m) => m@,
            ParseError::InvalidHeaderName => "Invalid header name"@,
            ParseError::InvalidHeaderValue => "Invalid header value"@,
            ParseError::MissingStatus => "Failed to parse status code"@,
            ParseError::BuildResponse => "Response builder error"@,
        }
    }

    /// Describes the failure.
    pub fn message(&self) -> (r: String)
        ensures
            r@ == self.message_spec(),
    {
        match self {
            ParseError::Empty => <String as vstd::string::StringExecFns>::from_str("Received empty response"),
            ParseError::Partial => <String as vstd::string::StringExecFns>::from_str(
                "Received partial response",
            ),
            ParseError::Syntax(m) => m.clone(),
            ParseError::InvalidHeaderName => <String as vstd::string::StringExecFns>::from_str(
                "Invalid header name",
            ),
            ParseError::InvalidHeaderValue => <String as vstd::string::StringExecFns>::from_str(
                "Invalid header value",
            ),
            ParseError::MissingStatus => <String as vstd::string::StringExecFns>::from_str(
                "Failed to parse status code",
            ),
            ParseError::BuildResponse => <String as vstd::string::StringExecFns>::from_str(
                "Response builder error",
            ),
        }
    }
}

impl ReadChunkError {
    /// A human-readable description of the failure.
    pub open spec fn message_spec(&self) -> Seq<char> {
        match self {
            ReadChunkError::ReadChunkLength(f) => "Failed to read chunk length: "@ + f.message@,
            ReadChunkError::ParseChunkLength(_) => "Failed parse chunk length"@,
            ReadChunkError::ReadChunk(f) => "Failed read chunk: "@ + f.message@,
            ReadChunkError::SkipLineFeed(f) => "Failed read line feed at end of chunk: "@
                + f.message@,
        }
    }

    /// Describes the failure.
    pub fn message(&self) -> (r: String)
        ensures
            r@ == self.message_spec(),
    {
        match self {
            ReadChunkError::ReadChunkLength(f) => {
                let mut m = <String as vstd::string::StringExecFns>::from_str(
                    "Failed to read chunk length: ",
                );
                m.append( f.message.as_str());
                m
            },
            ReadChunkError::ParseChunkLength(_) => <String as vstd::string::StringExecFns>::from_str(
                "Failed parse chunk length",
            ),
            ReadChunkError::ReadChunk(f) => {
                let mut m = <String as vstd::string::StringExecFns>::from_str("Failed read chunk: ");
                m.append( f.message.as_str());
                m
            },
            ReadChunkError::SkipLineFeed(f) => {
                let mut m = <String as vstd::string::StringExecFns>::from_str(
                    "Failed read line feed at end of chunk: ",
                );
                m.append( f.message.as_str());
                m
            },
        }
    }
}

impl Error {
    /// A human-readable description of the failure.
    pub open spec fn message_spec(&self) -> Seq<char> {
        match self {
            Error::WriteRequest(f) => "Failed to send request: "@ + f.message@,
            Error::ReadResponse(f) => "Failed read response: "@ + f.message@,
            Error::ParseResponseHead(p) => "Failed parse response head: "@ + p.message_spec(),
            Error::BadStatus(_, _) => "Unexpected status code"@,
            Error::ReadChunkedBody(c) => "Failed read to chunked response body: "@
                + c.message_spec(),
            Error::ReadBody(f) => "Failed read to response body: "@ + f.message@,
            Error::DeserializeBody(j) => "Failed deserialize response body: "@ + j.message@,
        }
    }

    /// Describes the failure.
    pub fn message(&self) -> (r: String)
        ensures
            r@ == self.message_spec(),
    {
        match self {
            Error::WriteRequest(f) => {
                let mut m = <String as vstd::string::StringExecFns>::from_str("Failed to send request: ");
                m.append( f.message.as_str());
                m
            },
            Error::ReadResponse(f) => {
                let mut m = <String as vstd::string::StringExecFns>::from_str("Failed read response: ");
                m.append( f.message.as_str());
                m
            },
            Error::ParseResponseHead(p) => {
                let mut m = <String as vstd::string::StringExecFns>::from_str("Failed parse response head: ");
                let detail = p.message();
                m.append( detail.as_str());
                m
            },
            Error::BadStatus(_, _) => <String as vstd::string::StringExecFns>::from_str(
                "Unexpected status code",
            ),
            Error::ReadChunkedBody(c) => {
                let mut m = <String as vstd::string::StringExecFns>::from_str(
                    "Failed read to chunked response body: ",
                );
                let detail = c.message();
                m.append( detail.as_str());
                m
            },
            Error::ReadBody(f) => {
                let mut m = <String as vstd::string::StringExecFns>::from_str(
                    "Failed read to response body: ",
                );
                m.append( f.message.as_str());
                m
            },
            Error::DeserializeBody(j) => {
                let mut m = <String as vstd::string::StringExecFns>::from_str(
                    "Failed deserialize response body: ",
                );
                m.append( j.message.as_str());
                m
            },
        }
    }
}

/// A response whose body carries nothing of interest, as start, remove
/// and attach answer.
pub struct EmptyResponse {}

/// The text a byte string decodes to: its UTF-8 decoding when valid,
/// else nothing.
pub open spec fn utf8_text_or_empty(b: Seq<u8>) -> Seq<char> {
    if vstd::utf8::valid_utf8(b) {
        vstd::utf8::decode_utf8(b)
    } else {
        Seq::<char>::empty()
    }
}

/// Relies on `str::from_utf8`: it succeeds exactly on valid UTF-8 and
/// returns the decoded text.
#[verifier::external_body]
fn utf8_str(v: &[u8]) -> (r: Option<String>)
    ensures
        r is Some <==> vstd::utf8::valid_utf8(v@),
        r matches Some(s) ==> s@ == vstd::utf8::decode_utf8(v@),
{
    std::str::from_utf8(v).ok().map(|s| s.to_owned())
}

/// The UTF-8 text of the bytes, empty when they do not decode.
pub fn bytes_text(v: &[u8]) -> (r: String)
    ensures
        r@ == utf8_text_or_empty(v@),
{
    match utf8_str(v) {
        Some(s) => s,
        None => String::new(),
    }
}

} // verus!
