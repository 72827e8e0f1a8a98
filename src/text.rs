//! Character-level models of the text operations the parsers are built from,
//! with executable counterparts proved against them.
use vstd::prelude::*;
use vstd::std_specs::iter::IteratorSpec;

verus! {

/// The characters with Unicode's `White_Space` property.
pub open spec fn is_ws(c: char) -> bool {
    let v: u32 = c as u32;
    (9 <= v && v <= 13) || v == 32 || v == 0x85 || v == 0xa0 || v == 0x1680 || (0x2000 <= v
        && v <= 0x200a) || v == 0x2028 || v == 0x2029 || v == 0x202f || v == 0x205f || v == 0x3000
}

/// Index of the first `c` at or after `i`, or the length when there is none.
pub open spec fn first_from(s: Seq<char>, c: char, i: int) -> int
    decreases s.len() - i,
{
    if i >= s.len() {
        s.len() as int
    } else if s[i] == c {
        i
    } else {
        first_from(s, c, i + 1)
    }
}

/// Index of the first whitespace character at or after `i`, or the length.
pub open spec fn ws_from(s: Seq<char>, i: int) -> int
    decreases s.len() - i,
{
    if i >= s.len() {
        s.len() as int
    } else if is_ws(s[i]) {
        i
    } else {
        ws_from(s, i + 1)
    }
}

/// Index of the first non-whitespace character at or after `i`, or the length.
pub open spec fn non_ws_from(s: Seq<char>, i: int) -> int
    decreases s.len() - i,
{
    if i >= s.len() {
        s.len() as int
    } else if !is_ws(s[i]) {
        i
    } else {
        non_ws_from(s, i + 1)
    }
}

/// The pieces of `s` from `i` on, separated by `c` (at least one piece, maybe empty).
pub open spec fn pieces_from(s: Seq<char>, c: char, i: int) -> Seq<Seq<char>>
    decreases s.len() - i,
{
    let k: int = first_from(s, c, i);
    if i <= k < s.len() {
        seq![s.subrange(i, k)] + pieces_from(s, c, k + 1)
    } else {
        seq![s.subrange(i, s.len() as int)]
    }
}

/// The pieces of `s` separated by `c`.
pub open spec fn pieces(s: Seq<char>, c: char) -> Seq<Seq<char>> {
    pieces_from(s, c, 0)
}

/// A line's text without the carriage return of a `\r\n` terminator.
pub open spec fn strip_cr(l: Seq<char>) -> Seq<char> {
    if l.len() > 0 && l.last() == '\r' {
        l.drop_last()
    } else {
        l
    }
}

/// The lines of `s` from `i` on: each ends at `\n` or `\r\n`, or at the end of the
/// text; a terminator at the very end opens no further line.
pub open spec fn lines_from(s: Seq<char>, i: int) -> Seq<Seq<char>>
    decreases s.len() - i,
{
    if i >= s.len() {
        seq![]
    } else {
        let k: int = first_from(s, '\n', i);
        if i <= k < s.len() {
            seq![strip_cr(s.subrange(i, k))] + lines_from(s, k + 1)
        } else {
            seq![s.subrange(i, s.len() as int)]
        }
    }
}

/// The lines of `s`.
pub open spec fn lines(s: Seq<char>) -> Seq<Seq<char>> {
    lines_from(s, 0)
}

/// The maximal runs of non-whitespace characters of `s` from `i` on.
pub open spec fn tokens_from(s: Seq<char>, i: int) -> Seq<Seq<char>>
    decreases s.len() - i,
{
    if i >= s.len() {
        seq![]
    } else if is_ws(s[i]) {
        tokens_from(s, i + 1)
    } else {
        let j: int = ws_from(s, i);
        if i < j <= s.len() {
            seq![s.subrange(i, j)] + tokens_from(s, j)
        } else {
            seq![]
        }
    }
}

/// The whitespace-separated tokens of `s`.
pub open spec fn tokens(s: Seq<char>) -> Seq<Seq<char>> {
    tokens_from(s, 0)
}

/// The lines `ls` joined with `\n` between each two of them.
pub open spec fn join_lines(ls: Seq<Seq<char>>) -> Seq<char>
    decreases ls.len(),
{
    if ls.len() == 0 {
        seq![]
    } else if ls.len() == 1 {
        ls[0]
    } else {
        join_lines(ls.drop_last()) + seq!['\n'] + ls.last()
    }
}

/// The text of each string in `v`.
pub open spec fn texts(v: Seq<String>) -> Seq<Seq<char>> {
    v.map_values(|p: String| p@)
}

/// `first_from` lies between `i` and the length, finds a `c`, and skips none.
pub proof fn lemma_first_from(s: Seq<char>, c: char, i: int)
    requires
        0 <= i <= s.len(),
    ensures
        i <= first_from(s, c, i) <= s.len(),
        first_from(s, c, i) < s.len() ==> s[first_from(s, c, i)] == c,
        forall|j: int| i <= j < first_from(s, c, i) ==> s[j] != c,
    decreases s.len() - i,
{
    if i < s.len() && s[i] != c {
        lemma_first_from(s, c, i + 1);
    }
}

/// `ws_from` lies between `i` and the length, finds whitespace, and skips none.
pub proof fn lemma_ws_from(s: Seq<char>, i: int)
    requires
        0 <= i <= s.len(),
    ensures
        i <= ws_from(s, i) <= s.len(),
        ws_from(s, i) < s.len() ==> is_ws(s[ws_from(s, i)]),
        forall|j: int| i <= j < ws_from(s, i) ==> !is_ws(s[j]),
    decreases s.len() - i,
{
    if i < s.len() && !is_ws(s[i]) {
        lemma_ws_from(s, i + 1);
    }
}

/// `non_ws_from` lies between `i` and the length, and skips only whitespace.
pub proof fn lemma_non_ws_from(s: Seq<char>, i: int)
    requires
        0 <= i <= s.len(),
    ensures
        i <= non_ws_from(s, i) <= s.len(),
        non_ws_from(s, i) < s.len() ==> !is_ws(s[non_ws_from(s, i)]),
        forall|j: int| i <= j < non_ws_from(s, i) ==> is_ws(s[j]),
    decreases s.len() - i,
{
    if i < s.len() && is_ws(s[i]) {
        lemma_non_ws_from(s, i + 1);
    }
}

/// Whether `c` is a whitespace character.
pub fn is_whitespace(c: char) -> (r: bool)
    ensures
        r == is_ws(c),
{
    let v: u32 = c as u32;
    (9 <= v && v <= 13) || v == 32 || v == 0x85 || v == 0xa0 || v == 0x1680 || (0x2000 <= v && v
        <= 0x200a) || v == 0x2028 || v == 0x2029 || v == 0x202f || v == 0x205f || v == 0x3000
}

/// The characters of `s`, in order.
pub fn chars_of(s: &str) -> (r: Vec<char>)
    ensures
        r@ == s@,
{
    let n: usize = s.unicode_len();
    let mut r: Vec<char> = Vec::new();
    let mut it = s.chars();
    proof {
        broadcast use vstd::string::axiom_spec_iter;
    }
    while r.len() < n
        invariant
            n == s@.len(),
            r@ + it.remaining() == s@,
        decreases n - r.len(),
    {
        proof {
            assert(r@.len() + it.remaining().len() == s@.len());
        }
        let ghost before = it.remaining();
        match it.next() {
            Some(c) => {
                r.push(c);
                proof {
                    assert(r@ + it.remaining() =~= s@) by {
                        assert(before.len() > 0);
                        assert(r@ =~= (r@.drop_last()).push(before[0]));
                    }
                }
            },
            None => {
                proof {
                    assert(before.len() == 0);
                }
            },
        }
    }
    proof {
        assert(r@.len() == s@.len());
        assert(r@ =~= s@);
    }
    r
}

/// The first index at or after `from` where `c` stands, or the length.
pub fn find_char(s: &Vec<char>, c: char, from: usize) -> (k: usize)
    requires
        from <= s@.len(),
    ensures
        k == first_from(s@, c, from as int),
        from <= k <= s@.len(),
{
    let mut k: usize = from;
    proof {
        lemma_first_from(s@, c, from as int);
    }
    while k < s.len() && s[k] != c
        invariant
            from <= k <= s@.len(),
            first_from(s@, c, k as int) == first_from(s@, c, from as int),
        decreases s@.len() - k,
    {
        k = k + 1;
    }
    k
}

/// The first whitespace index at or after `from`, or the length.
pub fn find_ws(s: &Vec<char>, from: usize) -> (k: usize)
    requires
        from <= s@.len(),
    ensures
        k == ws_from(s@, from as int),
        from <= k <= s@.len(),
{
    let mut k: usize = from;
    proof {
        lemma_ws_from(s@, from as int);
    }
    while k < s.len() && !is_whitespace(s[k])
        invariant
            from <= k <= s@.len(),
            ws_from(s@, k as int) == ws_from(s@, from as int),
        decreases s@.len() - k,
    {
        k = k + 1;
    }
    k
}

/// The first non-whitespace index at or after `from`, or the length.
pub fn skip_ws(s: &Vec<char>, from: usize) -> (k: usize)
    requires
        from <= s@.len(),
    ensures
        k == non_ws_from(s@, from as int),
        from <= k <= s@.len(),
{
    let mut k: usize = from;
    proof {
        lemma_non_ws_from(s@, from as int);
    }
    while k < s.len() && is_whitespace(s[k])
        invariant
            from <= k <= s@.len(),
            non_ws_from(s@, k as int) == non_ws_from(s@, from as int),
        decreases s@.len() - k,
    {
        k = k + 1;
    }
    k
}

/// An owned copy of the characters `from..to` of `s`.
pub fn copy_range(s: &str, from: usize, to: usize) -> (r: String)
    requires
        from <= to <= s@.len(),
    ensures
        r@ == s@.subrange(from as int, to as int),
{
    String::from_str(s.substring_char(from, to))
}

} // verus!

verus! {

/// The pieces of `s` separated by `c`, as owned strings.
pub fn split_char(s: &str, c: char) -> (r: Vec<String>)
    ensures
        texts(r@) == pieces(s@, c),
{
    let cs = chars_of(s);
    let n: usize = cs.len();
    let mut r: Vec<String> = Vec::new();
    let mut start: usize = 0;
    loop
        invariant
            cs@ == s@,
            n == s@.len(),
            start <= n,
            texts(r@) + pieces_from(s@, c, start as int) == pieces(s@, c),
        decreases n - start,
    {
        let k = find_char(&cs, c, start);
        let piece = copy_range(s, start, k);
        let ghost old_r = r@;
        r.push(piece);
        proof {
            assert(texts(r@) =~= texts(old_r).push(piece@));
        }
        if k == n {
            proof {
                assert(texts(r@) =~= pieces(s@, c));
            }
            return r;
        }
        proof {
            assert(texts(r@) + pieces_from(s@, c, k + 1) =~= texts(old_r) + pieces_from(
                s@,
                c,
                start as int,
            ));
        }
        start = k + 1;
    }
}

/// The lines of `s`, as owned strings.
pub fn split_lines(s: &str) -> (r: Vec<String>)
    ensures
        texts(r@) == lines(s@),
{
    let cs = chars_of(s);
    let n: usize = cs.len();
    let mut r: Vec<String> = Vec::new();
    let mut start: usize = 0;
    while start < n
        invariant
            cs@ == s@,
            n == s@.len(),
            start <= n,
            texts(r@) + lines_from(s@, start as int) == lines(s@),
        decreases n - start,
    {
        let k = find_char(&cs, '\n', start);
        let ghost old_r = r@;
        if k == n {
            r.push(copy_range(s, start, k));
            proof {
                assert(texts(r@) =~= texts(old_r).push(s@.subrange(start as int, k as int)));
                assert(lines_from(s@, n as int) =~= seq![]);
                assert(texts(r@) + lines_from(s@, n as int) =~= texts(old_r) + lines_from(
                    s@,
                    start as int,
                ));
            }
            start = n;
        } else {
            let end: usize = if k > start && cs[k - 1] == '\r' {
                k - 1
            } else {
                k
            };
            let line = copy_range(s, start, end);
            r.push(line);
            proof {
                let l = s@.subrange(start as int, k as int);
                assert(line@ =~= strip_cr(l));
                assert(texts(r@) =~= texts(old_r).push(strip_cr(l)));
                assert(texts(r@) + lines_from(s@, k + 1) =~= texts(old_r) + lines_from(
                    s@,
                    start as int,
                ));
            }
            start = k + 1;
        }
    }
    proof {
        assert(texts(r@) + lines_from(s@, start as int) =~= texts(r@));
    }
    r
}

/// The whitespace-separated tokens of `s`, as owned strings.
pub fn split_ws(s: &str) -> (r: Vec<String>)
    ensures
        texts(r@) == tokens(s@),
{
    let cs = chars_of(s);
    let n: usize = cs.len();
    let mut r: Vec<String> = Vec::new();
    let mut i: usize = 0;
    while i < n
        invariant
            cs@ == s@,
            n == s@.len(),
            i <= n,
            texts(r@) + tokens_from(s@, i as int) == tokens(s@),
        decreases n - i,
    {
        if is_whitespace(cs[i]) {
            i = i + 1;
        } else {
            let j = find_ws(&cs, i);
            proof {
                lemma_ws_from(s@, i as int + 1);
            }
            let ghost old_r = r@;
            r.push(copy_range(s, i, j));
            proof {
                assert(texts(r@) =~= texts(old_r).push(s@.subrange(i as int, j as int)));
                assert(texts(r@) + tokens_from(s@, j as int) =~= texts(old_r) + tokens_from(
                    s@,
                    i as int,
                ));
            }
            i = j;
        }
    }
    proof {
        assert(texts(r@) + tokens_from(s@, i as int) =~= texts(r@));
    }
    r
}

/// The strings `ls[from..to]` joined with `\n` between each two of them.
pub fn join_range(ls: &Vec<String>, from: usize, to: usize) -> (r: String)
    requires
        from <= to <= ls@.len(),
    ensures
        r@ == join_lines(texts(ls@).subrange(from as int, to as int)),
{
    let mut r = String::new();
    let mut i: usize = from;
    while i < to
        invariant
            from <= i <= to <= ls@.len(),
            r@ == join_lines(texts(ls@).subrange(from as int, i as int)),
        decreases to - i,
    {
        let ghost prev = texts(ls@).subrange(from as int, i as int);
        if i > from {
            r.append("\n");
            proof {
                reveal_strlit("\n");
            }
        }
        r.append(ls[i].as_str());
        proof {
            let next = texts(ls@).subrange(from as int, i + 1);
            assert(next.drop_last() =~= prev);
            assert(next.last() == ls@[i as int]@);
            assert(r@ =~= join_lines(next));
        }
        i = i + 1;
    }
    r
}

} // verus!
