//! Properties that relate the parsers' contracts across whole requests.
use vstd::prelude::*;

use crate::error::{HttpPathParseError, HttpRequestLineParseError, HttpRequestParseError};
use crate::header::{header_list_of, header_split};
use crate::method::method_of;
use crate::path::path_of;
use crate::query::{query_list_of, query_split};
use crate::request::{
    blank_from, body_text, header_block_text, lemma_blank_from, lemma_request_line_accepts,
    request_line_accepts, request_line_result, request_line_text, request_result, HttpRequest,
    HttpRequestLine,
};
use crate::text::{
    first_from, is_ws, lemma_first_from, lemma_ws_from, lines, pieces, pieces_from, tokens,
    tokens_from, ws_from,
};
use crate::version::{decimal_value, digits_between, is_digit, version_groups, HttpVersion};

verus! {

/// `s` holds no `c`.
pub open spec fn lacks(s: Seq<char>, c: char) -> bool {
    forall|i: int| 0 <= i < s.len() ==> s[i] != c
}

/// `s` is a non-empty run of non-whitespace characters.
pub open spec fn is_token(s: Seq<char>) -> bool {
    s.len() > 0 && forall|i: int| 0 <= i < s.len() ==> !is_ws(#[trigger] s[i])
}

/// The fragment `name=value`.
pub open spec fn query_text(q: (Seq<char>, Seq<char>)) -> Seq<char> {
    q.0 + seq!['='] + q.1
}

/// The fragments of `qs` joined with `&`.
pub open spec fn join_queries(qs: Seq<(Seq<char>, Seq<char>)>) -> Seq<char>
    decreases qs.len(),
{
    if qs.len() == 0 {
        seq![]
    } else if qs.len() == 1 {
        query_text(qs[0])
    } else {
        query_text(qs[0]) + seq!['&'] + join_queries(qs.drop_first())
    }
}

/// The target `path`, followed by `?` and the query string when there are pairs.
pub open spec fn target_text(path: Seq<char>, qs: Seq<(Seq<char>, Seq<char>)>) -> Seq<char> {
    if qs.len() == 0 {
        path
    } else {
        path + seq!['?'] + join_queries(qs)
    }
}

/// The token `HTTP/<major>.<minor>`.
pub open spec fn version_text(major: Seq<char>, minor: Seq<char>) -> Seq<char> {
    seq!['H', 'T', 'T', 'P', '/'] + major + seq!['.'] + minor
}

/// The request line `<method> <target> <version>`.
pub open spec fn request_text(
    method: Seq<char>,
    path: Seq<char>,
    qs: Seq<(Seq<char>, Seq<char>)>,
    major: Seq<char>,
    minor: Seq<char>,
) -> Seq<char> {
    method + seq![' '] + target_text(path, qs) + seq![' '] + version_text(major, minor)
}

/// A pair that can be written in a query string and read back: the name has no `=`,
/// neither side has `&` or whitespace.
pub open spec fn query_pair_ok(q: (Seq<char>, Seq<char>)) -> bool {
    lacks(q.0, '=') && lacks(q.0, '&') && lacks(q.1, '&') && (forall|i: int|
        0 <= i < q.0.len() ==> !is_ws(#[trigger] q.0[i])) && (forall|i: int|
        0 <= i < q.1.len() ==> !is_ws(#[trigger] q.1[i]))
}

proof fn lemma_first_from_shift(a: Seq<char>, b: Seq<char>, c: char, i: int)
    requires
        0 <= i <= b.len(),
    ensures
        first_from(a + b, c, a.len() + i) == a.len() + first_from(b, c, i),
    decreases b.len() - i,
{
    if i < b.len() {
        assert((a + b)[a.len() + i] == b[i]);
        if b[i] != c {
            lemma_first_from_shift(a, b, c, i + 1);
        }
    }
}

proof fn lemma_ws_from_shift(a: Seq<char>, b: Seq<char>, i: int)
    requires
        0 <= i <= b.len(),
    ensures
        ws_from(a + b, a.len() + i) == a.len() + ws_from(b, i),
    decreases b.len() - i,
{
    if i < b.len() {
        assert((a + b)[a.len() + i] == b[i]);
        if !is_ws(b[i]) {
            lemma_ws_from_shift(a, b, i + 1);
        }
    }
}

proof fn lemma_tokens_shift(a: Seq<char>, b: Seq<char>, i: int)
    requires
        0 <= i <= b.len(),
    ensures
        tokens_from(a + b, a.len() + i) == tokens_from(b, i),
    decreases b.len() - i,
{
    let s = a + b;
    if i < b.len() {
        assert(s[a.len() + i] == b[i]);
        if is_ws(b[i]) {
            lemma_tokens_shift(a, b, i + 1);
        } else {
            lemma_ws_from_shift(a, b, i);
            lemma_ws_from(b, i);
            let j = ws_from(b, i);
            if i < j {
                lemma_tokens_shift(a, b, j);
                assert(s.subrange(a.len() + i, a.len() + j) =~= b.subrange(i, j));
            }
        }
    }
}

proof fn lemma_pieces_shift(a: Seq<char>, b: Seq<char>, c: char, i: int)
    requires
        0 <= i <= b.len(),
    ensures
        pieces_from(a + b, c, a.len() + i) == pieces_from(b, c, i),
    decreases b.len() - i,
{
    let s = a + b;
    lemma_first_from_shift(a, b, c, i);
    lemma_first_from(b, c, i);
    let k = first_from(b, c, i);
    assert(s.subrange(a.len() + i, a.len() + k) =~= b.subrange(i, k));
    if k < b.len() {
        lemma_pieces_shift(a, b, c, k + 1);
    }
}

/// The first `c` of `x + [c] + y` is the one after `x` when `x` has none.
proof fn lemma_first_after(x: Seq<char>, y: Seq<char>, c: char)
    requires
        lacks(x, c),
    ensures
        first_from(x + seq![c] + y, c, 0) == x.len(),
{
    let s = x + seq![c] + y;
    lemma_first_from(s, c, 0);
    let k = first_from(s, c, 0);
    assert(s[x.len() as int] == c);
    if k < x.len() {
        assert(s[k] == x[k]);
    }
}

proof fn lemma_first_is(s: Seq<char>, c: char, i: int, k: int)
    requires
        0 <= i <= k < s.len(),
        s[k] == c,
        forall|j: int| i <= j < k ==> s[j] != c,
    ensures
        first_from(s, c, i) == k,
{
    lemma_first_from(s, c, i);
    let f = first_from(s, c, i);
    if f < k {
        assert(s[f] != c);
    }
}

proof fn lemma_ws_end(s: Seq<char>, j: int)
    requires
        0 <= j <= s.len(),
        j < s.len() ==> is_ws(s[j]),
        forall|i: int| 0 <= i < j ==> !is_ws(#[trigger] s[i]),
    ensures
        ws_from(s, 0) == j,
{
    lemma_ws_from(s, 0);
    let f = ws_from(s, 0);
    if f < j {
        assert(!is_ws(s[f]));
    }
}

/// A text with no `c` has no first `c`.
proof fn lemma_first_none(x: Seq<char>, c: char)
    requires
        lacks(x, c),
    ensures
        first_from(x, c, 0) == x.len(),
{
    lemma_first_from(x, c, 0);
}

proof fn lemma_pieces_cons(x: Seq<char>, y: Seq<char>, c: char)
    requires
        lacks(x, c),
    ensures
        pieces(x + seq![c] + y, c) == seq![x] + pieces(y, c),
{
    let s = x + seq![c] + y;
    lemma_first_after(x, y, c);
    lemma_pieces_shift(x + seq![c], y, c, 0);
    assert(s.subrange(0, x.len() as int) =~= x);
}

proof fn lemma_pieces_single(x: Seq<char>, c: char)
    requires
        lacks(x, c),
    ensures
        pieces(x, c) == seq![x],
{
    lemma_first_none(x, c);
    assert(x.subrange(0, x.len() as int) =~= x);
}

proof fn lemma_query_text(q: (Seq<char>, Seq<char>))
    requires
        query_pair_ok(q),
    ensures
        query_split(query_text(q)) == Some(q),
        lacks(query_text(q), '&'),
        forall|i: int| 0 <= i < query_text(q).len() ==> !is_ws(#[trigger] query_text(q)[i]),
{
    let s = query_text(q);
    lemma_first_after(q.0, q.1, '=');
    assert(s.subrange(0, q.0.len() as int) =~= q.0);
    assert(s.subrange(q.0.len() as int + 1, s.len() as int) =~= q.1);
    assert forall|i: int| 0 <= i < s.len() implies s[i] != '&' && !is_ws(s[i]) by {
        if i < q.0.len() {
            assert(s[i] == q.0[i]);
        } else if i > q.0.len() {
            assert(s[i] == q.1[i - q.0.len() - 1]);
        }
    }
}

proof fn lemma_join_queries(qs: Seq<(Seq<char>, Seq<char>)>)
    requires
        qs.len() > 0,
        forall|i: int| 0 <= i < qs.len() ==> query_pair_ok(#[trigger] qs[i]),
    ensures
        pieces(join_queries(qs), '&') == qs.map_values(|q: (Seq<char>, Seq<char>)| query_text(q)),
        forall|i: int|
            0 <= i < join_queries(qs).len() ==> !is_ws(#[trigger] join_queries(qs)[i]),
    decreases qs.len(),
{
    let f = |q: (Seq<char>, Seq<char>)| query_text(q);
    assert(query_pair_ok(qs[0]));
    lemma_query_text(qs[0]);
    if qs.len() == 1 {
        lemma_pieces_single(query_text(qs[0]), '&');
        assert(qs.map_values(f) =~= seq![query_text(qs[0])]);
    } else {
        let rest = qs.drop_first();
        assert forall|i: int| 0 <= i < rest.len() implies query_pair_ok(#[trigger] rest[i]) by {
            assert(rest[i] == qs[i + 1]);
        }
        lemma_join_queries(rest);
        lemma_pieces_cons(query_text(qs[0]), join_queries(rest), '&');
        assert(qs.map_values(f) =~= seq![query_text(qs[0])] + rest.map_values(f));
        let s = join_queries(qs);
        let h = query_text(qs[0]);
        assert forall|i: int| 0 <= i < s.len() implies !is_ws(#[trigger] s[i]) by {
            if i < h.len() {
                assert(s[i] == h[i]);
            } else if i > h.len() {
                assert(s[i] == join_queries(rest)[i - h.len() - 1]);
            }
        }
    }
}

/// `tokens(x + [' '] + y)` is `x` followed by the tokens of `y`, for a token `x`.
proof fn lemma_tokens_cons(x: Seq<char>, y: Seq<char>)
    requires
        is_token(x),
    ensures
        tokens(x + seq![' '] + y) == seq![x] + tokens(y),
{
    let s = x + seq![' '] + y;
    assert(s[x.len() as int] == ' ');
    assert(is_ws(' '));
    assert forall|i: int| 0 <= i < x.len() implies !is_ws(#[trigger] s[i]) by {
        assert(s[i] == x[i]);
    }
    lemma_ws_end(s, x.len() as int);
    assert(!is_ws(s[0]));
    assert(s.subrange(0, x.len() as int) =~= x);
    assert(tokens_from(s, x.len() as int) == tokens_from(s, x.len() as int + 1));
    lemma_tokens_shift(x + seq![' '], y, 0);
}

proof fn lemma_tokens_single(x: Seq<char>)
    requires
        is_token(x),
    ensures
        tokens(x) == seq![x],
{
    lemma_ws_end(x, x.len() as int);
    assert(!is_ws(x[0]));
    assert(x.subrange(0, x.len() as int) =~= x);
    assert(tokens_from(x, x.len() as int) == Seq::<Seq<char>>::empty());
}

proof fn lemma_lines_single(s: Seq<char>)
    requires
        s.len() > 0,
        lacks(s, '\n'),
    ensures
        lines(s) == seq![s],
{
    lemma_first_none(s, '\n');
    assert(s.subrange(0, s.len() as int) =~= s);
}

/// A request line built from a method token, a target that starts with `/` and has no
/// `?` before its query pairs, and a version `HTTP/<major>.<minor>` whose numbers fit in
/// a byte, parses as a request with exactly those parts, no headers and an empty body.
pub proof fn law_request_round_trip(
    method: Seq<char>,
    path: Seq<char>,
    qs: Seq<(Seq<char>, Seq<char>)>,
    major: Seq<char>,
    minor: Seq<char>,
    r: Result<HttpRequest, HttpRequestParseError>,
)
    requires
        is_token(method),
        is_token(path),
        path[0] == '/',
        lacks(path, '?'),
        forall|i: int| 0 <= i < qs.len() ==> query_pair_ok(#[trigger] qs[i]),
        digits_between(major, 0, major.len() as int),
        digits_between(minor, 0, minor.len() as int),
        decimal_value(major) <= 255,
        decimal_value(minor) <= 255,
        request_result(request_text(method, path, qs, major, minor), r),
    ensures
        r is Ok,
        r->Ok_0.request_line.method@ == method_of(method),
        r->Ok_0.request_line.path@ == (path, qs),
        r->Ok_0.request_line.version == (HttpVersion {
            major: decimal_value(major) as u8,
            minor: decimal_value(minor) as u8,
        }),
        r->Ok_0.headers@ == Seq::<(Seq<char>, Seq<char>)>::empty(),
        r->Ok_0.body@ == Seq::<char>::empty(),
{
    let target = target_text(path, qs);
    let ver = version_text(major, minor);
    let s = request_text(method, path, qs, major, minor);
    // the target
    assert(target[0] == '/');
    if qs.len() == 0 {
        lemma_first_none(path, '?');
        assert(qs =~= Seq::<(Seq<char>, Seq<char>)>::empty());
        assert(path_of(target) == Ok::<_, HttpPathParseError>((path, qs)));
    } else {
        lemma_first_after(path, join_queries(qs), '?');
        lemma_join_queries(qs);
        let jq = join_queries(qs);
        assert(target.subrange(0, path.len() as int) =~= path);
        assert(target.subrange(path.len() as int + 1, target.len() as int) =~= jq);
        let ps = pieces(jq, '&');
        assert forall|i: int| 0 <= i < ps.len() implies (#[trigger] query_split(ps[i])) is Some
            && query_split(ps[i])->Some_0 == qs[i] by {
            assert(query_pair_ok(qs[i]));
            lemma_query_text(qs[i]);
        }
        assert(ps.map_values(|p: Seq<char>| query_split(p)->Some_0) =~= qs);
        assert(query_list_of(jq) == Some(qs));
    }
    assert(is_token(target)) by {
        if qs.len() > 0 {
            lemma_join_queries(qs);
            let jq = join_queries(qs);
            assert forall|i: int| 0 <= i < target.len() implies !is_ws(#[trigger] target[i]) by {
                if i < path.len() {
                    assert(target[i] == path[i]);
                } else if i > path.len() {
                    assert(target[i] == jq[i - path.len() - 1]);
                }
            }
        }
    }
    // the version
    let k: int = 5 + major.len() as int;
    assert(ver[k] == '.');
    assert(lacks(seq!['H', 'T', 'T', 'P', '/'] + major, '.')) by {
        let a = seq!['H', 'T', 'T', 'P', '/'] + major;
        assert forall|i: int| 0 <= i < a.len() implies a[i] != '.' by {
            if i >= 5 {
                assert(a[i] == major[i - 5]);
            }
        }
    }
    assert forall|i: int| 5 <= i < k implies ver[i] != '.' by {
        assert(ver[i] == major[i - 5]);
        assert(is_digit(major[i - 5]));
    }
    lemma_first_is(ver, '.', 5, k);
    assert(ver.subrange(0, 5) =~= seq!['H', 'T', 'T', 'P', '/']);
    assert(ver.subrange(5, k) =~= major);
    assert(ver.subrange(k + 1, ver.len() as int) =~= minor);
    assert forall|i: int| 5 <= i < k implies is_digit(#[trigger] ver[i]) by {
        assert(ver[i] == major[i - 5]);
    }
    assert forall|i: int| k + 1 <= i < ver.len() implies is_digit(
        #[trigger] ver[i],
    ) by {
        assert(ver[i] == minor[i - k - 1]);
    }
    assert(version_groups(ver) == Some((major, minor)));
    assert(is_token(ver)) by {
        assert forall|i: int| 0 <= i < ver.len() implies !is_ws(#[trigger] ver[i]) by {
            if 5 <= i < k {
                assert(ver[i] == major[i - 5]);
                assert(is_digit(major[i - 5]));
            } else if i > k {
                assert(ver[i] == minor[i - k - 1]);
                assert(is_digit(minor[i - k - 1]));
            }
        }
    }
    // the tokens
    lemma_tokens_single(ver);
    lemma_tokens_cons(target, ver);
    assert(s =~= method + seq![' '] + (target + seq![' '] + ver));
    lemma_tokens_cons(method, target + seq![' '] + ver);
    let t = tokens(s);
    assert(t =~= seq![method, target, ver]);
    // the lines
    assert(lacks(s, '\n')) by {
        assert forall|i: int| 0 <= i < s.len() implies s[i] != '\n' by {
            assert(is_ws('\n'));
            assert(is_ws(' '));
            if i < method.len() {
                assert(s[i] == method[i]);
            } else if method.len() < i < method.len() + 1 + target.len() {
                assert(s[i] == target[i - method.len() - 1]);
            } else if i > method.len() + 1 + target.len() {
                assert(s[i] == ver[i - method.len() - 2 - target.len()]);
            }
        }
    }
    lemma_lines_single(s);
    let ls = lines(s);
    assert(request_line_text(s) == s);
    assert(blank_from(ls, 1) == 1);
    assert(ls.subrange(1, 1) =~= Seq::<Seq<char>>::empty());
    assert(header_block_text(s) == Seq::<char>::empty());
    assert(lines(Seq::<char>::empty()) =~= Seq::<Seq<char>>::empty());
    assert(header_list_of(Seq::<char>::empty()) == Some(Seq::<(Seq<char>, Seq<char>)>::empty())) by {
        let e = lines(Seq::<char>::empty());
        assert(e.map_values(|l: Seq<char>| header_split(l)->Some_0) =~= Seq::<
            (Seq<char>, Seq<char>),
        >::empty());
    }
    assert(body_text(s) == Seq::<char>::empty());
}

/// A request line whose second token does not start with `/` fails with
/// `NoLeadingSlash`, whatever that token holds.
pub proof fn law_no_leading_slash(
    s: Seq<char>,
    r: Result<HttpRequestLine, HttpRequestLineParseError>,
)
    requires
        tokens(s).len() >= 2,
        !(tokens(s)[1].len() > 0 && tokens(s)[1][0] == '/'),
        request_line_result(s, r),
    ensures
        r matches Err(HttpRequestLineParseError::Path(HttpPathParseError::NoLeadingSlash)),
{
}

/// A request whose request line has a second token that does not start with `/`
/// fails with `NoLeadingSlash`, whatever follows.
pub proof fn law_request_no_leading_slash(s: Seq<char>, r: Result<HttpRequest, HttpRequestParseError>)
    requires
        tokens(request_line_text(s)).len() >= 2,
        !(tokens(request_line_text(s))[1].len() > 0 && tokens(request_line_text(s))[1][0] == '/'),
        request_result(s, r),
    ensures
        r matches Err(
            HttpRequestParseError::RequestLine(
                HttpRequestLineParseError::Path(HttpPathParseError::NoLeadingSlash),
            ),
        ),
{
    let line = request_line_text(s);
    match r {
        Ok(req) => {
            law_no_leading_slash(line, Ok(req.request_line));
        },
        Err(HttpRequestParseError::RequestLine(e)) => {
            law_no_leading_slash(line, Err(e));
        },
        Err(HttpRequestParseError::Headers(e)) => {},
    }
}

/// When the empty line that ends the header block is the last line of the request,
/// the body is the empty string.
pub proof fn law_empty_body(s: Seq<char>, r: Result<HttpRequest, HttpRequestParseError>)
    requires
        lines(s).len() >= 2,
        lines(s).last().len() == 0,
        forall|j: int| 1 <= j < lines(s).len() - 1 ==> (#[trigger] lines(s)[j]).len() > 0,
        request_result(s, r),
    ensures
        body_text(s) == Seq::<char>::empty(),
        r is Ok ==> r->Ok_0.body@ == Seq::<char>::empty(),
{
    let ls = lines(s);
    lemma_blank_from(ls, 1);
    let h = blank_from(ls, 1);
    if h < ls.len() - 1 {
        assert(ls[h].len() > 0);
    }
    assert(ls.subrange(h + 1, ls.len() as int) =~= Seq::<Seq<char>>::empty());
}

/// A header line without `:` fails the whole request, whatever the other header lines
/// hold; once the request line parses, the failure is the header error.
pub proof fn law_bad_header_fails(
    s: Seq<char>,
    j: int,
    r: Result<HttpRequest, HttpRequestParseError>,
)
    requires
        0 <= j < lines(header_block_text(s)).len(),
        header_split(lines(header_block_text(s))[j]) is None,
        request_result(s, r),
    ensures
        r is Err,
        request_line_accepts(request_line_text(s)) ==> r matches Err(
            HttpRequestParseError::Headers(_),
        ),
{
    let line = request_line_text(s);
    match r {
        Ok(req) => {
            assert(header_list_of(header_block_text(s)) is None);
        },
        Err(HttpRequestParseError::RequestLine(e)) => {
            lemma_request_line_accepts(line, Err(e));
        },
        Err(HttpRequestParseError::Headers(e)) => {},
    }
}

} // verus!
