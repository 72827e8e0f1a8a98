//! The request line and the whole request.
use vstd::prelude::*;

use crate::error::{HttpHeaderParseError, HttpRequestLineParseError, HttpRequestParseError};
use crate::header::{header_list_of, HttpHeaderList};
use crate::method::{method_of, HttpMethod};
use crate::path::{path_of, HttpPath};
use crate::text::{join_lines, join_range, lines, split_lines, split_ws, texts, tokens};
use crate::version::{version_accepts, version_groups, version_result, HttpVersion};

verus! {

/// The first line of a request.
#[derive(Debug, Clone, PartialEq, Eq)]
pub struct HttpRequestLine {
    pub method: HttpMethod,
    pub path: HttpPath,
    pub version: HttpVersion,
}

/// What parsing the request line `s` gives. Its whitespace-separated tokens are taken
/// in order as method, target and version (later ones are ignored); a missing token
/// is reported by position, and a target that fails is reported before a missing version.
pub open spec fn request_line_result(
    s: Seq<char>,
    r: Result<HttpRequestLine, HttpRequestLineParseError>,
) -> bool {
    let t = tokens(s);
    if t.len() == 0 {
        r matches Err(HttpRequestLineParseError::NoMethod)
    } else if t.len() == 1 {
        r matches Err(HttpRequestLineParseError::NoPath)
    } else if path_of(t[1]) is Err {
        r == Err::<HttpRequestLine, _>(HttpRequestLineParseError::Path(path_of(t[1])->Err_0))
    } else if t.len() == 2 {
        r matches Err(HttpRequestLineParseError::NoVersion)
    } else {
        match r {
            Ok(l) => l.method@ == method_of(t[0]) && l.path@ == path_of(t[1])->Ok_0
                && version_result(t[2], Ok(l.version)),
            Err(HttpRequestLineParseError::Version(e)) => version_result(t[2], Err(e)),
            Err(_) => false,
        }
    }
}

/// Whether the request line `s` parses.
pub open spec fn request_line_accepts(s: Seq<char>) -> bool {
    let t = tokens(s);
    t.len() >= 3 && path_of(t[1]) is Ok && version_accepts(t[2])
}

/// A request line parses exactly when it is accepted.
pub proof fn lemma_request_line_accepts(
    s: Seq<char>,
    r: Result<HttpRequestLine, HttpRequestLineParseError>,
)
    requires
        request_line_result(s, r),
    ensures
        r is Ok <==> request_line_accepts(s),
{
    let t = tokens(s);
    if t.len() >= 3 && path_of(t[1]) is Ok {
        match version_groups(t[2]) {
            Some((a, b)) => {},
            None => {},
        }
    }
}

/// A decoded request.
#[derive(Debug, Clone, PartialEq, Eq)]
pub struct HttpRequest {
    pub request_line: HttpRequestLine,
    pub headers: HttpHeaderList,
    pub body: String,
}

/// Index of the first empty line of `ls` at or after `i`, or the number of lines.
pub open spec fn blank_from(ls: Seq<Seq<char>>, i: int) -> int
    decreases ls.len() - i,
{
    if i >= ls.len() {
        ls.len() as int
    } else if ls[i].len() == 0 {
        i
    } else {
        blank_from(ls, i + 1)
    }
}

/// `blank_from` lies between `i` and the number of lines, and skips no empty line.
pub proof fn lemma_blank_from(ls: Seq<Seq<char>>, i: int)
    requires
        0 <= i <= ls.len(),
    ensures
        i <= blank_from(ls, i) <= ls.len(),
        blank_from(ls, i) < ls.len() ==> ls[blank_from(ls, i)].len() == 0,
        forall|j: int| i <= j < blank_from(ls, i) ==> ls[j].len() > 0,
    decreases ls.len() - i,
{
    if i < ls.len() && ls[i].len() > 0 {
        lemma_blank_from(ls, i + 1);
    }
}

/// The first line of the request text `s` (empty when `s` has no line).
pub open spec fn request_line_text(s: Seq<char>) -> Seq<char> {
    let ls = lines(s);
    if ls.len() == 0 {
        seq![]
    } else {
        ls[0]
    }
}

/// The lines after the first one up to the first empty line, joined with `\n`.
pub open spec fn header_block_text(s: Seq<char>) -> Seq<char> {
    let ls = lines(s);
    if ls.len() == 0 {
        seq![]
    } else {
        join_lines(ls.subrange(1, blank_from(ls, 1)))
    }
}

/// The lines after that first empty line, joined with `\n` (empty when there are none).
pub open spec fn body_text(s: Seq<char>) -> Seq<char> {
    let ls = lines(s);
    let h = blank_from(ls, 1);
    if ls.len() > 0 && h < ls.len() {
        join_lines(ls.subrange(h + 1, ls.len() as int))
    } else {
        seq![]
    }
}

/// What parsing the request text `s` gives: the request line is parsed first, then
/// the header block; the body is taken as it is.
pub open spec fn request_result(s: Seq<char>, r: Result<HttpRequest, HttpRequestParseError>) -> bool {
    match r {
        Ok(req) => request_line_result(request_line_text(s), Ok(req.request_line))
            && header_list_of(header_block_text(s)) == Some(req.headers@) && req.body@ == body_text(s),
        Err(HttpRequestParseError::RequestLine(e)) => request_line_result(request_line_text(s), Err(e)),
        Err(HttpRequestParseError::Headers(e)) => request_line_accepts(request_line_text(s))
            && header_list_of(header_block_text(s)) is None && e == HttpHeaderParseError::EmptyHeader,
    }
}

impl HttpRequestLine {
    /// Parses a request line such as `GET /index.html HTTP/1.1`.
    pub fn parse(value: &str) -> (r: Result<HttpRequestLine, HttpRequestLineParseError>)
        ensures
            request_line_result(value@, r),
    {
        let ts = split_ws(value);
        let ghost t = tokens(value@);
        proof {
            assert(texts(ts@).len() == ts@.len());
        }
        if ts.len() == 0 {
            return Err(HttpRequestLineParseError::NoMethod);
        }
        proof {
            assert(ts@[0]@ == t[0]);
        }
        let method = match HttpMethod::parse(ts[0].as_str()) {
            Ok(m) => m,
            Err(e) => return Err(HttpRequestLineParseError::Method(e)),
        };
        if ts.len() == 1 {
            return Err(HttpRequestLineParseError::NoPath);
        }
        proof {
            assert(ts@[1]@ == t[1]);
        }
        let path = match HttpPath::parse(ts[1].as_str()) {
            Ok(p) => p,
            Err(e) => return Err(HttpRequestLineParseError::Path(e)),
        };
        if ts.len() == 2 {
            return Err(HttpRequestLineParseError::NoVersion);
        }
        proof {
            assert(ts@[2]@ == t[2]);
        }
        let version = match HttpVersion::parse(ts[2].as_str()) {
            Ok(v) => v,
            Err(e) => return Err(HttpRequestLineParseError::Version(e)),
        };
        Ok(HttpRequestLine { method, path, version })
    }
}

impl HttpRequest {
    /// Parses a whole request: a request line, header lines up to the first empty
    /// line, and everything after that as the body.
    pub fn parse(value: &str) -> (r: Result<HttpRequest, HttpRequestParseError>)
        ensures
            request_result(value@, r),
    {
        let ls = split_lines(value);
        let ghost lv = lines(value@);
        let n: usize = ls.len();
        proof {
            assert(texts(ls@).len() == ls@.len());
            reveal_strlit("");
        }
        let first: &str = if n == 0 {
            ""
        } else {
            proof {
                assert(ls@[0]@ == lv[0]);
            }
            ls[0].as_str()
        };
        let request_line = match HttpRequestLine::parse(first) {
            Ok(l) => l,
            Err(e) => return Err(HttpRequestParseError::RequestLine(e)),
        };
        proof {
            lemma_request_line_accepts(first@, Ok::<HttpRequestLine, HttpRequestLineParseError>(request_line));
        }
        let start: usize = if n == 0 { 0 } else { 1 };
        let mut h: usize = start;
        proof {
            if n > 0 {
                lemma_blank_from(lv, 1);
            }
        }
        while h < n && !ls[h].as_str().is_empty()
            invariant
                lv == lines(value@),
                texts(ls@) == lv,
                n == ls@.len(),
                start <= h <= n,
                n > 0 ==> start == 1 && blank_from(lv, h as int) == blank_from(lv, 1),
            decreases n - h,
        {
            proof {
                assert(ls@[h as int]@ == lv[h as int]);
            }
            h = h + 1;
        }
        proof {
            if h < n {
                assert(ls@[h as int]@ == lv[h as int]);
            }
        }
        let block = join_range(&ls, start, h);
        let headers = match HttpHeaderList::parse(block.as_str()) {
            Ok(l) => l,
            Err(e) => return Err(HttpRequestParseError::Headers(e)),
        };
        let body = if h < n {
            join_range(&ls, h + 1, n)
        } else {
            String::new()
        };
        proof {
            if n == 0 {
                assert(block@ =~= seq![]);
            }
        }
        Ok(HttpRequest { request_line, headers, body })
    }
}

impl<'a> TryFrom<&'a str> for HttpRequest {
    type Error = HttpRequestParseError;

    fn try_from(value: &'a str) -> (r: Result<HttpRequest, HttpRequestParseError>)
        ensures
            request_result(value@, r),
    {
        HttpRequest::parse(value)
    }
}

/// The contract of `try_from` is stated on the impl above, as on `HttpRequest::parse`.
impl<'a> vstd::std_specs::convert::TryFromSpecImpl<&'a str> for HttpRequest {
    open spec fn obeys_try_from_spec() -> bool {
        false
    }

    open spec fn try_from_spec(v: &'a str) -> Result<HttpRequest, HttpRequestParseError> {
        arbitrary()
    }
}

impl<'a> TryFrom<&'a str> for HttpRequestLine {
    type Error = HttpRequestLineParseError;

    fn try_from(value: &'a str) -> (r: Result<HttpRequestLine, HttpRequestLineParseError>)
        ensures
            request_line_result(value@, r),
    {
        HttpRequestLine::parse(value)
    }
}

/// The contract of `try_from` is stated on the impl above, as on `HttpRequestLine::parse`.
impl<'a> vstd::std_specs::convert::TryFromSpecImpl<&'a str> for HttpRequestLine {
    open spec fn obeys_try_from_spec() -> bool {
        false
    }

    open spec fn try_from_spec(v: &'a str) -> Result<HttpRequestLine, HttpRequestLineParseError> {
        arbitrary()
    }
}

} // verus!
