//! The request method.
use vstd::prelude::*;

use crate::error::HttpMethodParseError;
use crate::text::chars_of;

verus! {

/// A request method: one of the three named ones, or any other token as it was written.
#[derive(Debug, Clone, PartialEq, Eq)]
pub enum HttpMethod {
    GET,
    HEAD,
    POST,
    Extension(String),
}

/// The meaning of a method.
pub enum MethodView {
    Get,
    Head,
    Post,
    Extension(Seq<char>),
}

impl View for HttpMethod {
    type V = MethodView;

    open spec fn view(&self) -> MethodView {
        match self {
            HttpMethod::GET => MethodView::Get,
            HttpMethod::HEAD => MethodView::Head,
            HttpMethod::POST => MethodView::Post,
            HttpMethod::Extension(s) => MethodView::Extension(s@),
        }
    }
}

/// The method that the token `tok` names; the match is case-sensitive.
pub open spec fn method_of(tok: Seq<char>) -> MethodView {
    if tok == seq!['G', 'E', 'T'] {
        MethodView::Get
    } else if tok == seq!['H', 'E', 'A', 'D'] {
        MethodView::Head
    } else if tok == seq!['P', 'O', 'S', 'T'] {
        MethodView::Post
    } else {
        MethodView::Extension(tok)
    }
}

impl HttpMethod {
    /// Classifies a method token; any token that is not `GET`, `HEAD` or `POST` is an extension.
    pub fn parse(value: &str) -> (r: Result<HttpMethod, HttpMethodParseError>)
        ensures
            r is Ok,
            r->Ok_0@ == method_of(value@),
    {
        let cs = chars_of(value);
        let n: usize = cs.len();
        let m = if n == 3 && cs[0] == 'G' && cs[1] == 'E' && cs[2] == 'T' {
            proof {
                assert(value@ =~= seq!['G', 'E', 'T']);
            }
            HttpMethod::GET
        } else if n == 4 && cs[0] == 'H' && cs[1] == 'E' && cs[2] == 'A' && cs[3] == 'D' {
            proof {
                assert(value@ =~= seq!['H', 'E', 'A', 'D']);
            }
            HttpMethod::HEAD
        } else if n == 4 && cs[0] == 'P' && cs[1] == 'O' && cs[2] == 'S' && cs[3] == 'T' {
            proof {
                assert(value@ =~= seq!['P', 'O', 'S', 'T']);
            }
            HttpMethod::POST
        } else {
            proof {
                assert(value@ != seq!['G', 'E', 'T'] && value@ != seq!['H', 'E', 'A', 'D'] && value@
                    != seq!['P', 'O', 'S', 'T']) by {
                    if value@ == seq!['G', 'E', 'T'] {
                        assert(cs@[0] == 'G' && cs@[1] == 'E' && cs@[2] == 'T');
                    }
                    if value@ == seq!['H', 'E', 'A', 'D'] {
                        assert(cs@[0] == 'H' && cs@[1] == 'E' && cs@[2] == 'A' && cs@[3] == 'D');
                    }
                    if value@ == seq!['P', 'O', 'S', 'T'] {
                        assert(cs@[0] == 'P' && cs@[1] == 'O' && cs@[2] == 'S' && cs@[3] == 'T');
                    }
                }
            }
            HttpMethod::Extension(String::from_str(value))
        };
        Ok(m)
    }
}

impl<'a> TryFrom<&'a str> for HttpMethod {
    type Error = HttpMethodParseError;

    fn try_from(value: &'a str) -> (r: Result<HttpMethod, HttpMethodParseError>)
        ensures
            r is Ok,
            r->Ok_0@ == method_of(value@),
    {
        HttpMethod::parse(value)
    }
}

/// The contract of `try_from` is stated on the impl above, as on `HttpMethod::parse`.
impl<'a> vstd::std_specs::convert::TryFromSpecImpl<&'a str> for HttpMethod {
    open spec fn obeys_try_from_spec() -> bool {
        false
    }

    open spec fn try_from_spec(v: &'a str) -> Result<HttpMethod, HttpMethodParseError> {
        arbitrary()
    }
}

} // verus!
