use http_lib::error::{
    HttpHeaderParseError, HttpPathParseError, HttpQueryListParseError, HttpQueryParseError,
    HttpRequestLineParseError, HttpRequestParseError, HttpVersionParseError,
};
use http_lib::{
    HttpHeader, HttpHeaderList, HttpMethod, HttpPath, HttpQuery, HttpQueryList, HttpRequest,
    HttpRequestLine, HttpVersion,
};

fn pairs_of_queries(l: &HttpQueryList) -> Vec<(String, String)> {
    l.queries.iter().map(|q| (q.name.clone(), q.value.clone())).collect()
}

fn pairs_of_headers(l: &HttpHeaderList) -> Vec<(String, String)> {
    l.headers.iter().map(|h| (h.name.clone(), h.value.clone())).collect()
}

fn owned(v: &[(&str, &str)]) -> Vec<(String, String)> {
    v.iter().map(|(a, b)| (a.to_string(), b.to_string())).collect()
}

#[test]
fn round_trip_request_line_with_queries() {
    let req = HttpRequest::parse("POST /a/b?x=1&y=2 HTTP/1.0").unwrap();
    assert_eq!(req.request_line.method, HttpMethod::POST);
    assert_eq!(req.request_line.path.path, "/a/b");
    assert_eq!(pairs_of_queries(&req.request_line.path.queries), owned(&[("x", "1"), ("y", "2")]));
    assert_eq!(req.request_line.version, HttpVersion { major: 1, minor: 0 });
    assert!(req.headers.headers.is_empty());
    assert_eq!(req.body, "");
}

#[test]
fn round_trip_request_line_without_query() {
    let req = HttpRequest::parse("HEAD /index.html HTTP/2.0").unwrap();
    assert_eq!(req.request_line.method, HttpMethod::HEAD);
    assert_eq!(req.request_line.path.path, "/index.html");
    assert!(req.request_line.path.queries.queries.is_empty());
    assert_eq!(req.request_line.version, HttpVersion { major: 2, minor: 0 });
}

#[test]
fn try_into_matches_parse() {
    let req: HttpRequest = "GET / HTTP/1.1".try_into().unwrap();
    assert_eq!(req.request_line.method, HttpMethod::GET);
    let line: Result<HttpRequestLine, _> = "GET".try_into();
    assert!(matches!(line, Err(HttpRequestLineParseError::NoPath)));
}

#[test]
fn path_without_leading_slash_fails() {
    assert!(matches!(HttpPath::parse("index.html"), Err(HttpPathParseError::NoLeadingSlash)));
    assert!(matches!(HttpPath::parse("a/b?x=1"), Err(HttpPathParseError::NoLeadingSlash)));
    assert!(matches!(HttpPath::parse(""), Err(HttpPathParseError::NoLeadingSlash)));
    let r = HttpRequest::parse("GET index.html HTTP/1.1");
    assert!(matches!(
        r,
        Err(HttpRequestParseError::RequestLine(HttpRequestLineParseError::Path(
            HttpPathParseError::NoLeadingSlash
        )))
    ));
}

#[test]
fn path_error_comes_before_missing_version() {
    let r = HttpRequestLine::parse("GET x");
    assert!(matches!(
        r,
        Err(HttpRequestLineParseError::Path(HttpPathParseError::NoLeadingSlash))
    ));
}

#[test]
fn query_splits_at_first_equals_sign() {
    let q = HttpQuery::parse("a=b=c").unwrap();
    assert_eq!(q.name, "a");
    assert_eq!(q.value, "b=c");
    let l = HttpQueryList::parse("a=b=c").unwrap();
    assert_eq!(pairs_of_queries(&l), owned(&[("a", "b=c")]));
}

#[test]
fn query_without_equals_sign_fails() {
    assert!(matches!(HttpQuery::parse("abc"), Err(HttpQueryParseError::Invalid)));
    assert!(matches!(HttpQuery::parse(""), Err(HttpQueryParseError::Invalid)));
    let q = HttpQuery::parse("=").unwrap();
    assert_eq!((q.name.as_str(), q.value.as_str()), ("", ""));
}

#[test]
fn query_list_fails_on_any_bad_fragment() {
    assert!(matches!(
        HttpQueryList::parse(""),
        Err(HttpQueryListParseError::Invalid(HttpQueryParseError::Invalid))
    ));
    assert!(HttpQueryList::parse("x=1&").is_err());
    assert!(HttpQueryList::parse("x=1&y").is_err());
    let l = HttpQueryList::parse("x=1&y=&=z").unwrap();
    assert_eq!(pairs_of_queries(&l), owned(&[("x", "1"), ("y", ""), ("", "z")]));
}

#[test]
fn path_with_empty_query_string_fails() {
    assert!(matches!(
        HttpPath::parse("/a?"),
        Err(HttpPathParseError::QueryError(HttpQueryListParseError::Invalid(
            HttpQueryParseError::Invalid
        )))
    ));
    let p = HttpPath::parse("/a?b=c?d").unwrap();
    assert_eq!(p.path, "/a");
    assert_eq!(pairs_of_queries(&p.queries), owned(&[("b", "c?d")]));
}

#[test]
fn header_splits_at_first_colon_and_trims_left_only() {
    let h = HttpHeader::parse("X-Test:  value  ").unwrap();
    assert_eq!(h.name, "X-Test");
    assert_eq!(h.value, "value  ");
    let h = HttpHeader::parse("Name :a:b").unwrap();
    assert_eq!(h.name, "Name ");
    assert_eq!(h.value, "a:b");
    let h = HttpHeader::parse("Empty:").unwrap();
    assert_eq!(h.value, "");
}

#[test]
fn header_without_colon_fails() {
    assert!(matches!(HttpHeader::parse("Broken"), Err(HttpHeaderParseError::EmptyHeader)));
    assert!(matches!(HttpHeader::parse(""), Err(HttpHeaderParseError::EmptyHeader)));
}

#[test]
fn header_list_parses_each_line() {
    let l = HttpHeaderList::parse("A: 1\r\nB:2").unwrap();
    assert_eq!(pairs_of_headers(&l), owned(&[("A", "1"), ("B", "2")]));
    assert!(HttpHeaderList::parse("").unwrap().headers.is_empty());
    assert!(HttpHeaderList::parse("A: 1\nB").is_err());
}

#[test]
fn unknown_method_is_an_extension() {
    assert_eq!(HttpMethod::parse("PATCH").unwrap(), HttpMethod::Extension("PATCH".to_string()));
    assert_eq!(HttpMethod::parse("get").unwrap(), HttpMethod::Extension("get".to_string()));
    assert_eq!(HttpMethod::parse("GET").unwrap(), HttpMethod::GET);
    assert_eq!(HttpMethod::parse("HEAD").unwrap(), HttpMethod::HEAD);
    assert_eq!(HttpMethod::parse("POST").unwrap(), HttpMethod::POST);
    assert_eq!(HttpMethod::parse("GETS").unwrap(), HttpMethod::Extension("GETS".to_string()));
}

#[test]
fn version_boundary() {
    assert_eq!(HttpVersion::parse("HTTP/1.1").unwrap(), HttpVersion { major: 1, minor: 1 });
    assert!(matches!(HttpVersion::parse("HTTP/1.x"), Err(HttpVersionParseError::Invalid)));
    assert!(matches!(HttpVersion::parse("http/1.1"), Err(HttpVersionParseError::Invalid)));
}

#[test]
fn version_shapes() {
    assert_eq!(HttpVersion::parse("HTTP/12.34").unwrap(), HttpVersion { major: 12, minor: 34 });
    assert_eq!(HttpVersion::parse("HTTP/001.255").unwrap(), HttpVersion { major: 1, minor: 255 });
    for bad in ["HTTP/1x1", "HTTP/1.", "HTTP/.1", "HTTP/", "HTTP", "", " HTTP/1.1", "HTTP/1.1 ", "HTTP/1.1.1", "HTTP/+1.1"] {
        assert!(matches!(HttpVersion::parse(bad), Err(HttpVersionParseError::Invalid)), "{bad}");
    }
}

#[test]
fn version_numbers_must_fit_a_byte() {
    assert!(matches!(
        HttpVersion::parse("HTTP/256.1"),
        Err(HttpVersionParseError::MajorVersionParseError(_))
    ));
    assert!(matches!(
        HttpVersion::parse("HTTP/1.300"),
        Err(HttpVersionParseError::MinorVersionParseError(_))
    ));
    assert!(matches!(
        HttpVersion::parse("HTTP/999.999"),
        Err(HttpVersionParseError::MajorVersionParseError(_))
    ));
}

#[test]
fn missing_fields_are_named() {
    assert!(matches!(HttpRequestLine::parse("GET"), Err(HttpRequestLineParseError::NoPath)));
    assert!(matches!(HttpRequestLine::parse("GET /x"), Err(HttpRequestLineParseError::NoVersion)));
    assert!(matches!(HttpRequestLine::parse(""), Err(HttpRequestLineParseError::NoMethod)));
    assert!(matches!(HttpRequestLine::parse("  \t "), Err(HttpRequestLineParseError::NoMethod)));
}

#[test]
fn request_line_tokens_collapse_whitespace() {
    let l = HttpRequestLine::parse("  GET \t /x\u{3000}HTTP/1.1 extra tokens").unwrap();
    assert_eq!(l.method, HttpMethod::GET);
    assert_eq!(l.path.path, "/x");
    assert_eq!(l.version, HttpVersion { major: 1, minor: 1 });
}

#[test]
fn bad_version_in_request_line() {
    assert!(matches!(
        HttpRequestLine::parse("GET / HTTP/1.x"),
        Err(HttpRequestLineParseError::Version(HttpVersionParseError::Invalid))
    ));
}

#[test]
fn header_block_ends_at_blank_line() {
    let req = HttpRequest::parse("GET / HTTP/1.1\nHost: x\n\nbody-line-1\nbody-line-2").unwrap();
    assert_eq!(pairs_of_headers(&req.headers), owned(&[("Host", "x")]));
    assert_eq!(req.body, "body-line-1\nbody-line-2");
}

#[test]
fn crlf_request() {
    let req = HttpRequest::parse("GET / HTTP/1.1\r\nHost: x\r\nAccept: */*\r\n\r\nhello\r\n").unwrap();
    assert_eq!(pairs_of_headers(&req.headers), owned(&[("Host", "x"), ("Accept", "*/*")]));
    assert_eq!(req.body, "hello");
}

#[test]
fn blank_line_at_end_gives_empty_body() {
    let req = HttpRequest::parse("GET / HTTP/1.1\nHost: x\n\n").unwrap();
    assert_eq!(req.body, "");
    let req = HttpRequest::parse("GET / HTTP/1.1\n\n").unwrap();
    assert!(req.headers.headers.is_empty());
    assert_eq!(req.body, "");
}

#[test]
fn no_blank_line_means_headers_to_the_end() {
    let req = HttpRequest::parse("GET / HTTP/1.1\nA: 1\nB: 2").unwrap();
    assert_eq!(pairs_of_headers(&req.headers), owned(&[("A", "1"), ("B", "2")]));
    assert_eq!(req.body, "");
}

#[test]
fn body_keeps_later_blank_lines() {
    let req = HttpRequest::parse("GET / HTTP/1.1\n\na\n\nb").unwrap();
    assert_eq!(req.body, "a\n\nb");
}

#[test]
fn malformed_header_fails_whole_request() {
    let r = HttpRequest::parse("GET / HTTP/1.1\nHost: x\nBroken\n\nbody");
    assert!(matches!(r, Err(HttpRequestParseError::Headers(HttpHeaderParseError::EmptyHeader))));
}

#[test]
fn request_line_error_comes_first() {
    let r = HttpRequest::parse("GET /\nBroken\n\n");
    assert!(matches!(
        r,
        Err(HttpRequestParseError::RequestLine(HttpRequestLineParseError::NoVersion))
    ));
}

#[test]
fn empty_input_has_no_method() {
    let r = HttpRequest::parse("");
    assert!(matches!(
        r,
        Err(HttpRequestParseError::RequestLine(HttpRequestLineParseError::NoMethod))
    ));
    let r = HttpRequest::parse("\nHost: x");
    assert!(matches!(
        r,
        Err(HttpRequestParseError::RequestLine(HttpRequestLineParseError::NoMethod))
    ));
}

#[test]
fn error_messages() {
    let e = HttpRequest::parse("GET").unwrap_err();
    assert_eq!(e.message(), "Error parsing http request line: No path");
    let e = HttpRequest::parse("GET a HTTP/1.1").unwrap_err();
    assert_eq!(
        e.message(),
        "Error parsing http request line: Error parsing http request path: Error parsing http path, no leading slash"
    );
    let e = HttpRequest::parse("GET /?a HTTP/1.1").unwrap_err();
    assert_eq!(
        e.message(),
        "Error parsing http request line: Error parsing http request path: Error parsing http query list: Error parsing http query"
    );
    let e = HttpRequest::parse("GET / HTTP/1.1\nBroken").unwrap_err();
    assert_eq!(e.message(), "Error parsing http headers: Empty header");
    let e = HttpRequest::parse("GET / HTTP/x").unwrap_err();
    assert_eq!(e.message(), "Error parsing http request line: Error parsing http version");
}

#[test]
fn version_overflow_message_carries_numeric_error() {
    let prefix = "Error parsing major http version: ";
    let m = HttpVersion::parse("HTTP/300.1").unwrap_err().message();
    assert!(m.starts_with(prefix));
    assert!(m.len() > prefix.len());
    let m = HttpVersion::parse("HTTP/1.300").unwrap_err().message();
    assert!(m.starts_with("Error parsing minor http version: "));
}

#[test]
fn non_ascii_digits_are_not_a_version() {
    assert!(matches!(HttpVersion::parse("HTTP/\u{661}.1"), Err(HttpVersionParseError::Invalid)));
    let v: Result<HttpVersion, _> = "HTTP/1.\u{661}".try_into();
    assert!(matches!(v, Err(HttpVersionParseError::Invalid)));
}
