//! The request target: a path and an optional query string.
use vstd::prelude::*;

use crate::error::{HttpPathParseError, HttpQueryListParseError, HttpQueryParseError};
use crate::query::{query_list_of, HttpQueryList};
use crate::text::{chars_of, copy_range, find_char, first_from};

verus! {

/// A request target: the path as written, and the pairs of its query string.
#[derive(Debug, Clone, PartialEq, Eq)]
pub struct HttpPath {
    pub path: String,
    pub queries: HttpQueryList,
}

impl View for HttpPath {
    type V = (Seq<char>, Seq<(Seq<char>, Seq<char>)>);

    open spec fn view(&self) -> Self::V {
        (self.path@, self.queries@)
    }
}

/// What the target `s` decodes to: it must start with `/`; its first `?`, if any,
/// ends the path and starts a query string, which must parse.
pub open spec fn path_of(s: Seq<char>) -> Result<
    (Seq<char>, Seq<(Seq<char>, Seq<char>)>),
    HttpPathParseError,
> {
    if s.len() == 0 || s[0] != '/' {
        Err(HttpPathParseError::NoLeadingSlash)
    } else {
        let k = first_from(s, '?', 0);
        if !(0 <= k < s.len()) {
            Ok((s, seq![]))
        } else {
            match query_list_of(s.subrange(k + 1, s.len() as int)) {
                Some(q) => Ok((s.subrange(0, k), q)),
                None => Err(
                    HttpPathParseError::QueryError(
                        HttpQueryListParseError::Invalid(HttpQueryParseError::Invalid),
                    ),
                ),
            }
        }
    }
}

impl HttpPath {
    /// Parses a request target such as `/a/b?x=1&y=2`.
    pub fn parse(value: &str) -> (r: Result<HttpPath, HttpPathParseError>)
        ensures
            match r {
                Ok(p) => path_of(value@) == Ok::<_, HttpPathParseError>(p@),
                Err(e) => path_of(value@) == Err::<(Seq<char>, Seq<(Seq<char>, Seq<char>)>), _>(e),
            },
    {
        let cs = chars_of(value);
        let n: usize = cs.len();
        if n == 0 || cs[0] != '/' {
            return Err(HttpPathParseError::NoLeadingSlash);
        }
        let k = find_char(&cs, '?', 0);
        if k == n {
            let p = HttpPath {
                path: copy_range(value, 0, n),
                queries: HttpQueryList { queries: Vec::new() },
            };
            proof {
                assert(p.path@ =~= value@);
                assert(p.queries@ =~= seq![]);
            }
            return Ok(p);
        }
        let query_text = copy_range(value, k + 1, n);
        match HttpQueryList::parse(query_text.as_str()) {
            Ok(queries) => Ok(HttpPath { path: copy_range(value, 0, k), queries }),
            Err(e) => Err(HttpPathParseError::QueryError(e)),
        }
    }
}

impl<'a> TryFrom<&'a str> for HttpPath {
    type Error = HttpPathParseError;

    fn try_from(value: &'a str) -> (r: Result<HttpPath, HttpPathParseError>)
        ensures
            match r {
                Ok(p) => path_of(value@) == Ok::<_, HttpPathParseError>(p@),
                Err(e) => path_of(value@) == Err::<(Seq<char>, Seq<(Seq<char>, Seq<char>)>), _>(e),
            },
    {
        HttpPath::parse(value)
    }
}

/// The contract of `try_from` is stated on the impl above, as on `HttpPath::parse`.
impl<'a> vstd::std_specs::convert::TryFromSpecImpl<&'a str> for HttpPath {
    open spec fn obeys_try_from_spec() -> bool {
        false
    }

    open spec fn try_from_spec(v: &'a str) -> Result<HttpPath, HttpPathParseError> {
        arbitrary()
    }
}

} // verus!
