//! Header lines and the header block.
use vstd::prelude::*;

use crate::error::HttpHeaderParseError;
use crate::text::{
    chars_of, copy_range, find_char, first_from, lines, non_ws_from, skip_ws, split_lines, texts,
};

verus! {

/// One header field: the name as written before the first `:`, and the rest of
/// the line without its leading whitespace.
#[derive(Debug, Clone, PartialEq, Eq)]
pub struct HttpHeader {
    pub name: String,
    pub value: String,
}

impl View for HttpHeader {
    type V = (Seq<char>, Seq<char>);

    open spec fn view(&self) -> (Seq<char>, Seq<char>) {
        (self.name@, self.value@)
    }
}

/// The fields of a header block, in the order they were written.
#[derive(Debug, Clone, PartialEq, Eq)]
pub struct HttpHeaderList {
    pub headers: Vec<HttpHeader>,
}

impl View for HttpHeaderList {
    type V = Seq<(Seq<char>, Seq<char>)>;

    open spec fn view(&self) -> Seq<(Seq<char>, Seq<char>)> {
        self.headers@.map_values(|h: HttpHeader| h@)
    }
}

/// A header line split at its first `:`, the value left-trimmed of whitespace (and
/// not right-trimmed), or `None` when the line has no `:`.
pub open spec fn header_split(s: Seq<char>) -> Option<(Seq<char>, Seq<char>)> {
    let k = first_from(s, ':', 0);
    if 0 <= k < s.len() {
        Some((s.subrange(0, k), s.subrange(non_ws_from(s, k + 1), s.len() as int)))
    } else {
        None
    }
}

/// The fields of the header block `s`, one per line, or `None` when any line has no `:`.
pub open spec fn header_list_of(s: Seq<char>) -> Option<Seq<(Seq<char>, Seq<char>)>> {
    let ls = lines(s);
    if forall|i: int| 0 <= i < ls.len() ==> (#[trigger] header_split(ls[i])) is Some {
        Some(ls.map_values(|l: Seq<char>| header_split(l)->Some_0))
    } else {
        None
    }
}

impl HttpHeader {
    /// Parses one header line.
    pub fn parse(value: &str) -> (r: Result<HttpHeader, HttpHeaderParseError>)
        ensures
            match r {
                Ok(h) => header_split(value@) == Some(h@),
                Err(e) => header_split(value@) is None && e == HttpHeaderParseError::EmptyHeader,
            },
    {
        let cs = chars_of(value);
        let n: usize = cs.len();
        let k = find_char(&cs, ':', 0);
        if k == n {
            return Err(HttpHeaderParseError::EmptyHeader);
        }
        let start = skip_ws(&cs, k + 1);
        let name = copy_range(value, 0, k);
        let rest = copy_range(value, start, n);
        Ok(HttpHeader { name, value: rest })
    }
}

impl HttpHeaderList {
    /// Parses a header block, line by line; the first malformed line fails the whole block.
    pub fn parse(value: &str) -> (r: Result<HttpHeaderList, HttpHeaderParseError>)
        ensures
            match r {
                Ok(l) => header_list_of(value@) == Some(l@),
                Err(e) => header_list_of(value@) is None && e == HttpHeaderParseError::EmptyHeader,
            },
    {
        let ls = split_lines(value);
        let ghost lv = lines(value@);
        let mut headers: Vec<HttpHeader> = Vec::new();
        let mut i: usize = 0;
        while i < ls.len()
            invariant
                lv == lines(value@),
                texts(ls@) == lv,
                i <= ls@.len(),
                headers@.len() == i,
                forall|j: int| 0 <= j < i ==> (#[trigger] header_split(lv[j])) is Some,
                forall|j: int|
                    0 <= j < i ==> Some(#[trigger] headers@[j]@) == header_split(lv[j]),
            decreases ls@.len() - i,
        {
            proof {
                assert(texts(ls@).len() == ls@.len());
                assert(ls@[i as int]@ == lv[i as int]);
            }
            match HttpHeader::parse(ls[i].as_str()) {
                Ok(h) => {
                    headers.push(h);
                },
                Err(e) => {
                    proof {
                        assert(header_split(lv[i as int]) is None);
                    }
                    return Err(e);
                },
            }
            i = i + 1;
        }
        let l = HttpHeaderList { headers };
        proof {
            assert(l@ =~= lv.map_values(|s: Seq<char>| header_split(s)->Some_0));
        }
        Ok(l)
    }
}

impl<'a> TryFrom<&'a str> for HttpHeader {
    type Error = HttpHeaderParseError;

    fn try_from(value: &'a str) -> (r: Result<HttpHeader, HttpHeaderParseError>)
        ensures
            match r {
                Ok(h) => header_split(value@) == Some(h@),
                Err(e) => header_split(value@) is None && e == HttpHeaderParseError::EmptyHeader,
            },
    {
        HttpHeader::parse(value)
    }
}

/// The contract of `try_from` is stated on the impl above, as on `HttpHeader::parse`.
impl<'a> vstd::std_specs::convert::TryFromSpecImpl<&'a str> for HttpHeader {
    open spec fn obeys_try_from_spec() -> bool {
        false
    }

    open spec fn try_from_spec(v: &'a str) -> Result<HttpHeader, HttpHeaderParseError> {
        arbitrary()
    }
}

impl<'a> TryFrom<&'a str> for HttpHeaderList {
    type Error = HttpHeaderParseError;

    fn try_from(value: &'a str) -> (r: Result<HttpHeaderList, HttpHeaderParseError>)
        ensures
            match r {
                Ok(l) => header_list_of(value@) == Some(l@),
                Err(e) => header_list_of(value@) is None && e == HttpHeaderParseError::EmptyHeader,
            },
    {
        HttpHeaderList::parse(value)
    }
}

/// The contract of `try_from` is stated on the impl above, as on `HttpHeaderList::parse`.
impl<'a> vstd::std_specs::convert::TryFromSpecImpl<&'a str> for HttpHeaderList {
    open spec fn obeys_try_from_spec() -> bool {
        false
    }

    open spec fn try_from_spec(v: &'a str) -> Result<HttpHeaderList, HttpHeaderParseError> {
        arbitrary()
    }
}

} // verus!
