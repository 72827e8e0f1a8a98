//! The error tree: each layer wraps the error of the layer it delegates to.
use vstd::prelude::*;

verus! {

/// `std::num::ParseIntError`, carried by the version errors.
#[verifier::external_type_specification]
#[verifier::external_body]
pub struct ExParseIntError(std::num::ParseIntError);

/// Why a request could not be parsed.
#[derive(Debug)]
pub enum HttpRequestParseError {
    /// The request line is malformed.
    RequestLine(HttpRequestLineParseError),
    /// A line of the header block is malformed.
    Headers(HttpHeaderParseError),
}

/// Why a request line could not be parsed.
#[derive(Debug)]
pub enum HttpRequestLineParseError {
    Method(HttpMethodParseError),
    Version(HttpVersionParseError),
    Path(HttpPathParseError),
    /// The line has no token at all.
    NoMethod,
    /// The line has a single token.
    NoPath,
    /// The line has two tokens.
    NoVersion,
}

/// Method parsing accepts every token, so this is never produced.
#[derive(Debug)]
pub enum HttpMethodParseError {
    Invalid,
}

/// Why a version token could not be parsed.
#[derive(Debug)]
pub enum HttpVersionParseError {
    /// The token is not `HTTP/<digits>.<digits>`.
    Invalid,
    /// The major number does not fit in a `u8`.
    MajorVersionParseError(std::num::ParseIntError),
    /// The minor number does not fit in a `u8`.
    MinorVersionParseError(std::num::ParseIntError),
}

/// Why a request target could not be parsed.
#[derive(Debug)]
pub enum HttpPathParseError {
    /// The target does not start with `/`.
    NoLeadingSlash,
    /// The query string is malformed.
    QueryError(HttpQueryListParseError),
}

/// Why a `name=value` fragment could not be parsed.
#[derive(Debug)]
pub enum HttpQueryParseError {
    /// The fragment has no `=`.
    Invalid,
}

/// Why a query string could not be parsed.
#[derive(Debug)]
pub enum HttpQueryListParseError {
    /// One of its fragments is malformed.
    Invalid(HttpQueryParseError),
}

/// Why a header line could not be parsed.
#[derive(Debug)]
pub enum HttpHeaderParseError {
    /// The line has no `:`.
    EmptyHeader,
}

/// `t` starts with `p`.
pub open spec fn starts_with(t: Seq<char>, p: Seq<char>) -> bool {
    p.len() <= t.len() && t.subrange(0, p.len() as int) == p
}

pub open spec fn method_error_text(e: HttpMethodParseError) -> Seq<char> {
    "Invalid method"@
}

pub open spec fn query_error_text(e: HttpQueryParseError) -> Seq<char> {
    "Error parsing http query"@
}

pub open spec fn query_list_error_text(e: HttpQueryListParseError) -> Seq<char> {
    match e {
        HttpQueryListParseError::Invalid(q) => "Error parsing http query list: "@ + query_error_text(q),
    }
}

pub open spec fn path_error_text(e: HttpPathParseError) -> Seq<char> {
    match e {
        HttpPathParseError::NoLeadingSlash => "Error parsing http path, no leading slash"@,
        HttpPathParseError::QueryError(q) => query_list_error_text(q),
    }
}

pub open spec fn header_error_text(e: HttpHeaderParseError) -> Seq<char> {
    "Empty header"@
}

/// `t` describes `e`: a fixed text, and for a number that does not fit, a fixed
/// prefix followed by the description of the numeric error.
pub open spec fn describes_version_error(e: HttpVersionParseError, t: Seq<char>) -> bool {
    match e {
        HttpVersionParseError::Invalid => t == "Error parsing http version"@,
        HttpVersionParseError::MajorVersionParseError(_) => starts_with(
            t,
            "Error parsing major http version: "@,
        ),
        HttpVersionParseError::MinorVersionParseError(_) => starts_with(
            t,
            "Error parsing minor http version: "@,
        ),
    }
}

pub open spec fn describes_line_error(e: HttpRequestLineParseError, t: Seq<char>) -> bool {
    match e {
        HttpRequestLineParseError::Method(m) => t == method_error_text(m),
        HttpRequestLineParseError::Version(v) => describes_version_error(v, t),
        HttpRequestLineParseError::Path(p) => t == "Error parsing http request path: "@
            + path_error_text(p),
        HttpRequestLineParseError::NoMethod => t == "No method"@,
        HttpRequestLineParseError::NoPath => t == "No path"@,
        HttpRequestLineParseError::NoVersion => t == "No version"@,
    }
}

pub open spec fn describes_request_error(e: HttpRequestParseError, t: Seq<char>) -> bool {
    let p = "Error parsing http request line: "@;
    match e {
        HttpRequestParseError::RequestLine(l) => starts_with(t, p) && describes_line_error(
            l,
            t.subrange(p.len() as int, t.len() as int),
        ),
        HttpRequestParseError::Headers(h) => t == "Error parsing http headers: "@
            + header_error_text(h),
    }
}

/// `prefix` followed by `rest`.
fn joined(prefix: &str, rest: &str) -> (r: String)
    ensures
        r@ == prefix@ + rest@,
{
    let mut r = String::from_str(prefix);
    r.append(rest);
    r
}

impl HttpMethodParseError {
    /// A description of the error.
    pub fn message(&self) -> (r: String)
        ensures
            r@ == method_error_text(*self),
    {
        String::from_str("Invalid method")
    }
}

impl HttpQueryParseError {
    /// A description of the error.
    pub fn message(&self) -> (r: String)
        ensures
            r@ == query_error_text(*self),
    {
        String::from_str("Error parsing http query")
    }
}

impl HttpQueryListParseError {
    /// A description of the error.
    pub fn message(&self) -> (r: String)
        ensures
            r@ == query_list_error_text(*self),
    {
        match self {
            HttpQueryListParseError::Invalid(q) => joined(
                "Error parsing http query list: ",
                q.message().as_str(),
            ),
        }
    }
}

impl HttpPathParseError {
    /// A description of the error.
    pub fn message(&self) -> (r: String)
        ensures
            r@ == path_error_text(*self),
    {
        match self {
            HttpPathParseError::NoLeadingSlash => String::from_str(
                "Error parsing http path, no leading slash",
            ),
            HttpPathParseError::QueryError(q) => q.message(),
        }
    }
}

impl HttpHeaderParseError {
    /// A description of the error.
    pub fn message(&self) -> (r: String)
        ensures
            r@ == header_error_text(*self),
    {
        String::from_str("Empty header")
    }
}

impl HttpVersionParseError {
    /// A description of the error.
    pub fn message(&self) -> (r: String)
        ensures
            describes_version_error(*self, r@),
    {
        match self {
            HttpVersionParseError::Invalid => String::from_str("Error parsing http version"),
            HttpVersionParseError::MajorVersionParseError(e) => {
                let r = joined("Error parsing major http version: ", e.to_string().as_str());
                proof {
                    let p = "Error parsing major http version: "@;
                    assert(r@.subrange(0, p.len() as int) =~= p);
                }
                r
            },
            HttpVersionParseError::MinorVersionParseError(e) => {
                let r = joined("Error parsing minor http version: ", e.to_string().as_str());
                proof {
                    let p = "Error parsing minor http version: "@;
                    assert(r@.subrange(0, p.len() as int) =~= p);
                }
                r
            },
        }
    }
}

impl HttpRequestLineParseError {
    /// A description of the error.
    pub fn message(&self) -> (r: String)
        ensures
            describes_line_error(*self, r@),
    {
        match self {
            HttpRequestLineParseError::Method(m) => m.message(),
            HttpRequestLineParseError::Version(v) => v.message(),
            HttpRequestLineParseError::Path(p) => joined(
                "Error parsing http request path: ",
                p.message().as_str(),
            ),
            HttpRequestLineParseError::NoMethod => String::from_str("No method"),
            HttpRequestLineParseError::NoPath => String::from_str("No path"),
            HttpRequestLineParseError::NoVersion => String::from_str("No version"),
        }
    }
}

impl HttpRequestParseError {
    /// A description of the error.
    pub fn message(&self) -> (r: String)
        ensures
            describes_request_error(*self, r@),
    {
        match self {
            HttpRequestParseError::RequestLine(l) => {
                let inner = l.message();
                let r = joined("Error parsing http request line: ", inner.as_str());
                proof {
                    let p = "Error parsing http request line: "@;
                    assert(r@.subrange(0, p.len() as int) =~= p);
                    assert(r@.subrange(p.len() as int, r@.len() as int) =~= inner@);
                }
                r
            },
            HttpRequestParseError::Headers(h) => joined(
                "Error parsing http headers: ",
                h.message().as_str(),
            ),
        }
    }
}

} // verus!
