//! Query strings: `name=value` fragments separated by `&`.
use vstd::prelude::*;

use crate::error::{HttpQueryListParseError, HttpQueryParseError};
use crate::text::{chars_of, copy_range, find_char, first_from, pieces, split_char, texts};

verus! {

/// One `name=value` pair, both sides kept as written.
#[derive(Debug, Clone, PartialEq, Eq)]
pub struct HttpQuery {
    pub name: String,
    pub value: String,
}

impl View for HttpQuery {
    type V = (Seq<char>, Seq<char>);

    open spec fn view(&self) -> (Seq<char>, Seq<char>) {
        (self.name@, self.value@)
    }
}

/// The pairs of a query string, in the order they were written.
#[derive(Debug, Clone, PartialEq, Eq)]
pub struct HttpQueryList {
    pub queries: Vec<HttpQuery>,
}

impl View for HttpQueryList {
    type V = Seq<(Seq<char>, Seq<char>)>;

    open spec fn view(&self) -> Seq<(Seq<char>, Seq<char>)> {
        self.queries@.map_values(|q: HttpQuery| q@)
    }
}

/// A fragment split at its first `=`, or `None` when it has none.
pub open spec fn query_split(s: Seq<char>) -> Option<(Seq<char>, Seq<char>)> {
    let k = first_from(s, '=', 0);
    if 0 <= k < s.len() {
        Some((s.subrange(0, k), s.subrange(k + 1, s.len() as int)))
    } else {
        None
    }
}

/// The pairs of the query string `s`, split at each `&`, or `None` when any fragment
/// has no `=` (so an empty query string has none).
pub open spec fn query_list_of(s: Seq<char>) -> Option<Seq<(Seq<char>, Seq<char>)>> {
    let ps = pieces(s, '&');
    if forall|i: int| 0 <= i < ps.len() ==> (#[trigger] query_split(ps[i])) is Some {
        Some(ps.map_values(|p: Seq<char>| query_split(p)->Some_0))
    } else {
        None
    }
}

impl HttpQuery {
    /// Parses one fragment, splitting it at its first `=`.
    pub fn parse(value: &str) -> (r: Result<HttpQuery, HttpQueryParseError>)
        ensures
            match r {
                Ok(q) => query_split(value@) == Some(q@),
                Err(e) => query_split(value@) is None && e == HttpQueryParseError::Invalid,
            },
    {
        let cs = chars_of(value);
        let n: usize = cs.len();
        let k = find_char(&cs, '=', 0);
        if k == n {
            return Err(HttpQueryParseError::Invalid);
        }
        let name = copy_range(value, 0, k);
        let rest = copy_range(value, k + 1, n);
        Ok(HttpQuery { name, value: rest })
    }
}

impl HttpQueryList {
    /// Parses a query string; the first malformed fragment fails the whole list.
    pub fn parse(value: &str) -> (r: Result<HttpQueryList, HttpQueryListParseError>)
        ensures
            match r {
                Ok(l) => query_list_of(value@) == Some(l@),
                Err(e) => query_list_of(value@) is None && e == HttpQueryListParseError::Invalid(
                    HttpQueryParseError::Invalid,
                ),
            },
    {
        let ps = split_char(value, '&');
        let ghost pv = pieces(value@, '&');
        let mut queries: Vec<HttpQuery> = Vec::new();
        let mut i: usize = 0;
        while i < ps.len()
            invariant
                pv == pieces(value@, '&'),
                texts(ps@) == pv,
                i <= ps@.len(),
                queries@.len() == i,
                forall|j: int| 0 <= j < i ==> (#[trigger] query_split(pv[j])) is Some,
                forall|j: int|
                    0 <= j < i ==> Some(#[trigger] queries@[j]@) == query_split(pv[j]),
            decreases ps@.len() - i,
        {
            proof {
                assert(texts(ps@).len() == ps@.len());
                assert(ps@[i as int]@ == pv[i as int]);
            }
            match HttpQuery::parse(ps[i].as_str()) {
                Ok(q) => {
                    queries.push(q);
                },
                Err(e) => {
                    proof {
                        assert(query_split(pv[i as int]) is None);
                    }
                    return Err(HttpQueryListParseError::Invalid(e));
                },
            }
            i = i + 1;
        }
        let l = HttpQueryList { queries };
        proof {
            assert(l@ =~= pv.map_values(|p: Seq<char>| query_split(p)->Some_0));
        }
        Ok(l)
    }
}

impl<'a> TryFrom<&'a str> for HttpQuery {
    type Error = HttpQueryParseError;

    fn try_from(value: &'a str) -> (r: Result<HttpQuery, HttpQueryParseError>)
        ensures
            match r {
                Ok(q) => query_split(value@) == Some(q@),
                Err(e) => query_split(value@) is None && e == HttpQueryParseError::Invalid,
            },
    {
        HttpQuery::parse(value)
    }
}

/// The contract of `try_from` is stated on the impl above, as on `HttpQuery::parse`.
impl<'a> vstd::std_specs::convert::TryFromSpecImpl<&'a str> for HttpQuery {
    open spec fn obeys_try_from_spec() -> bool {
        false
    }

    open spec fn try_from_spec(v: &'a str) -> Result<HttpQuery, HttpQueryParseError> {
        arbitrary()
    }
}

impl<'a> TryFrom<&'a str> for HttpQueryList {
    type Error = HttpQueryListParseError;

    fn try_from(value: &'a str) -> (r: Result<HttpQueryList, HttpQueryListParseError>)
        ensures
            match r {
                Ok(l) => query_list_of(value@) == Some(l@),
                Err(e) => query_list_of(value@) is None && e == HttpQueryListParseError::Invalid(
                    HttpQueryParseError::Invalid,
                ),
            },
    {
        HttpQueryList::parse(value)
    }
}

/// The contract of `try_from` is stated on the impl above, as on `HttpQueryList::parse`.
impl<'a> vstd::std_specs::convert::TryFromSpecImpl<&'a str> for HttpQueryList {
    open spec fn obeys_try_from_spec() -> bool {
        false
    }

    open spec fn try_from_spec(v: &'a str) -> Result<HttpQueryList, HttpQueryListParseError> {
        arbitrary()
    }
}

} // verus!
