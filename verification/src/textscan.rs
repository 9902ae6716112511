//! Text utilities the kernel-log scanner and the platform checker rest on:
//! string equality, substring search (exact and ASCII-case-insensitive),
//! and splitting text into lines.
use vstd::prelude::*;

verus! {

/// Turns a string into its character vector, so that scanning can index
/// characters directly.
pub fn to_chars(s: &str) -> (v: Vec<char>)
    ensures
        v@ == s@,
{
    let n = s.unicode_len();
    let mut v: Vec<char> = Vec::new();
    let mut i: usize = 0;
    while i < n
        invariant
            i <= n,
            n == s@.len(),
            v@ =~= s@.take(i as int),
        decreases n - i,
    {
        v.push(s.get_char(i));
        i += 1;
    }
    proof {
        assert(v@ =~= s@);
    }
    v
}

/// Character-for-character string equality.
pub fn str_eq(a: &str, b: &str) -> (r: bool)
    ensures
        r == (a@ == b@),
{
    let n = a.unicode_len();
    if n != b.unicode_len() {
        return false;
    }
    let mut i: usize = 0;
    while i < n
        invariant
            i <= n,
            n == a@.len(),
            n == b@.len(),
            forall|j: int| 0 <= j < i ==> a@[j] == b@[j],
        decreases n - i,
    {
        if a.get_char(i) != b.get_char(i) {
            return false;
        }
        i += 1;
    }
    proof {
        assert(a@ =~= b@);
    }
    true
}

/// The code point of a character with an ASCII capital letter folded to
/// its small form; other characters keep their own code point.
pub open spec fn spec_lower(c: char) -> int {
    if 65 <= c as int && c as int <= 90 {
        c as int + 32
    } else {
        c as int
    }
}

/// The needle `n` stands at offset `i` of the haystack `h`.
pub open spec fn match_at(h: Seq<char>, n: Seq<char>, i: int) -> bool {
    0 <= i && i + n.len() <= h.len() && h.subrange(i, i + n.len()) == n
}

/// The haystack holds the needle somewhere.
pub open spec fn has_substr(h: Seq<char>, n: Seq<char>) -> bool {
    exists|i: int| match_at(h, n, i)
}

/// The needle stands at offset `i` when ASCII letter case is ignored.
pub open spec fn match_at_ci(h: Seq<char>, n: Seq<char>, i: int) -> bool {
    0 <= i && i + n.len() <= h.len() && (forall|j: int|
        0 <= j < n.len() ==> spec_lower(h[i + j]) == spec_lower(n[j]))
}

/// The haystack holds the needle somewhere, ignoring ASCII letter case.
pub open spec fn has_substr_ci(h: Seq<char>, n: Seq<char>) -> bool {
    exists|i: int| match_at_ci(h, n, i)
}

/// The folded code point of one character.
fn lower_code(c: char) -> (r: u32)
    ensures
        r as int == spec_lower(c),
{
    let u = c as u32;
    if 65 <= u && u <= 90 {
        u + 32
    } else {
        u
    }
}

/// Exact substring search.
pub fn str_has(h: &str, n: &str) -> (r: bool)
    ensures
        r == has_substr(h@, n@),
{
    let hv = to_chars(h);
    let nv = to_chars(n);
    let hl = hv.len();
    let nl = nv.len();
    if nl > hl {
        return false;
    }
    if nl == 0 {
        proof {
            assert(h@.subrange(0, 0) =~= n@);
            assert(match_at(h@, n@, 0));
        }
        return true;
    }
    let mut i: usize = 0;
    while i <= hl - nl
        invariant
            0 < nl <= hl,
            i <= hl - nl + 1,
            hl == h@.len(),
            nl == n@.len(),
            hv@ == h@,
            nv@ == n@,
            forall|q: int| 0 <= q < i ==> !match_at(h@, n@, q),
        decreases hl - nl - i + 1,
    {
        let mut j: usize = 0;
        let mut hit = true;
        while j < nl
            invariant
                hit ==> forall|q: int| 0 <= q < j ==> h@[i + q] == n@[q],
                i + nl <= hl,
                j <= nl,
                hl == h@.len(),
                nl == n@.len(),
                hv@ == h@,
                nv@ == n@,
                !hit ==> !match_at(h@, n@, i as int),
            decreases nl - j,
        {
            if hv[i + j] != nv[j] {
                proof {
                    assert(h@.subrange(i as int, i + nl) != n@) by {
                        if h@.subrange(i as int, i + nl) == n@ {
                            assert(h@.subrange(i as int, i + nl)[j as int] == n@[j as int]);
                        }
                    }
                }
                hit = false;
                j = nl;
            } else {
                j += 1;
            }
        }
        if hit {
            proof {
                assert(h@.subrange(i as int, i + nl) =~= n@);
                assert(match_at(h@, n@, i as int));
            }
            return true;
        }
        i += 1;
    }
    proof {
        assert forall|q: int| !match_at(h@, n@, q) by {
            if q >= i {
                assert(q + n@.len() > h@.len());
            }
        }
    }
    false
}

/// Substring search that ignores ASCII letter case.
pub fn str_has_ci(h: &str, n: &str) -> (r: bool)
    ensures
        r == has_substr_ci(h@, n@),
{
    let hv = to_chars(h);
    let nv = to_chars(n);
    let hl = hv.len();
    let nl = nv.len();
    if nl > hl {
        return false;
    }
    if nl == 0 {
        proof {
            assert(match_at_ci(h@, n@, 0));
        }
        return true;
    }
    let mut i: usize = 0;
    while i <= hl - nl
        invariant
            0 < nl <= hl,
            i <= hl - nl + 1,
            hl == h@.len(),
            nl == n@.len(),
            hv@ == h@,
            nv@ == n@,
            forall|q: int| 0 <= q < i ==> !match_at_ci(h@, n@, q),
        decreases hl - nl - i + 1,
    {
        let mut j: usize = 0;
        let mut hit = true;
        while j < nl
            invariant
                hit ==> forall|q: int| 0 <= q < j ==> spec_lower(h@[i + q]) == spec_lower(n@[q]),
                i + nl <= hl,
                j <= nl,
                hl == h@.len(),
                nl == n@.len(),
                hv@ == h@,
                nv@ == n@,
                !hit ==> !match_at_ci(h@, n@, i as int),
            decreases nl - j,
        {
            if lower_code(hv[i + j]) != lower_code(nv[j]) {
                hit = false;
                j = nl;
            } else {
                j += 1;
            }
        }
        if hit {
            proof {
                assert(match_at_ci(h@, n@, i as int));
            }
            return true;
        }
        i += 1;
    }
    proof {
        assert forall|q: int| !match_at_ci(h@, n@, q) by {
            if q >= i {
                assert(q + n@.len() > h@.len());
            }
        }
    }
    false
}

/// The offset of the first occurrence of the needle; the haystack's
/// length when it never occurs.
pub open spec fn first_occ(h: Seq<char>, n: Seq<char>) -> nat
    decreases h.len(),
{
    if match_at(h, n, 0) {
        0
    } else if h.len() == 0 {
        0
    } else {
        (1 + first_occ(h.drop_first(), n)) as nat
    }
}

/// What stands before the first occurrence of the needle; the whole
/// haystack when the needle never occurs.
pub open spec fn split_prefix(h: Seq<char>, n: Seq<char>) -> Seq<char> {
    if has_substr(h, n) {
        h.take(first_occ(h, n) as int)
    } else {
        h
    }
}

/// Dropping the first character moves every match down by one.
proof fn lemma_match_shift(h: Seq<char>, n: Seq<char>, q: int)
    requires
        q >= 0,
        h.len() > 0,
    ensures
        match_at(h, n, q + 1) == match_at(h.drop_first(), n, q),
{
    if q + 1 + n.len() <= h.len() {
        assert(h.subrange(q + 1, q + 1 + n.len()) =~= h.drop_first().subrange(q, q + n.len()));
    }
}

/// A first match at `i` pins `first_occ` down to `i`.
proof fn lemma_first_occ_is(h: Seq<char>, n: Seq<char>, i: int)
    requires
        match_at(h, n, i),
        forall|q: int| 0 <= q < i ==> !match_at(h, n, q),
    ensures
        first_occ(h, n) == i,
        has_substr(h, n),
    decreases i,
{
    if i == 0 {
    } else {
        assert(h.len() > 0);
        assert(!match_at(h, n, 0));
        lemma_match_shift(h, n, i - 1);
        assert forall|q: int| 0 <= q < i - 1 implies !match_at(h.drop_first(), n, q) by {
            lemma_match_shift(h, n, q);
        }
        lemma_first_occ_is(h.drop_first(), n, i - 1);
    }
}

/// The text of `h` that stands before the first occurrence of `n`, or all
/// of `h` when `n` never occurs.
pub fn str_split_prefix<'a>(h: &'a str, n: &str) -> (r: &'a str)
    ensures
        r@ == split_prefix(h@, n@),
{
    let hv = to_chars(h);
    let nv = to_chars(n);
    let hl = hv.len();
    let nl = nv.len();
    if nl > hl {
        return h;
    }
    if nl == 0 {
        proof {
            assert(h@.subrange(0, 0) =~= n@);
            lemma_first_occ_is(h@, n@, 0);
        }
        return h.substring_char(0, 0);
    }
    let mut i: usize = 0;
    while i <= hl - nl
        invariant
            0 < nl <= hl,
            i <= hl - nl + 1,
            hl == h@.len(),
            nl == n@.len(),
            hv@ == h@,
            nv@ == n@,
            forall|q: int| 0 <= q < i ==> !match_at(h@, n@, q),
        decreases hl - nl - i + 1,
    {
        let mut j: usize = 0;
        let mut hit = true;
        while j < nl
            invariant
                hit ==> forall|q: int| 0 <= q < j ==> h@[i + q] == n@[q],
                i + nl <= hl,
                j <= nl,
                hl == h@.len(),
                nl == n@.len(),
                hv@ == h@,
                nv@ == n@,
                !hit ==> !match_at(h@, n@, i as int),
            decreases nl - j,
        {
            if hv[i + j] != nv[j] {
                proof {
                    assert(h@.subrange(i as int, i + nl) != n@) by {
                        if h@.subrange(i as int, i + nl) == n@ {
                            assert(h@.subrange(i as int, i + nl)[j as int] == n@[j as int]);
                        }
                    }
                }
                hit = false;
                j = nl;
            } else {
                j += 1;
            }
        }
        if hit {
            proof {
                assert(h@.subrange(i as int, i + nl) =~= n@);
                lemma_first_occ_is(h@, n@, i as int);
            }
            return h.substring_char(0, i);
        }
        i += 1;
    }
    proof {
        assert forall|q: int| !match_at(h@, n@, q) by {
            if q >= i {
                assert(q + n@.len() > h@.len());
            }
        }
    }
    h
}

/// The offset of the first line break; the text's length when there is
/// none.
pub open spec fn first_nl(s: Seq<char>) -> nat
    decreases s.len(),
{
    if s.len() == 0 {
        0
    } else if s[0] == '\n' {
        0
    } else {
        (1 + first_nl(s.drop_first())) as nat
    }
}

/// A first line break at `k` pins `first_nl` down to `k`; `k` is the
/// text's length when there is none.
proof fn lemma_first_nl_is(s: Seq<char>, k: int)
    requires
        0 <= k <= s.len(),
        forall|j: int| 0 <= j < k ==> s[j] != '\n',
        k < s.len() ==> s[k] == '\n',
    ensures
        first_nl(s) == k,
    decreases k,
{
    if k == 0 {
    } else {
        assert forall|j: int| 0 <= j < k - 1 implies s.drop_first()[j] != '\n' by {
            assert(s.drop_first()[j] == s[j + 1]);
        }
        if k - 1 < s.drop_first().len() {
            assert(s.drop_first()[k - 1] == s[k]);
        }
        lemma_first_nl_is(s.drop_first(), k - 1);
    }
}

/// A line fragment with a carriage return dropped from its end.
pub open spec fn strip_cr(t: Seq<char>) -> Seq<char> {
    if t.len() > 0 && t[t.len() - 1] == '\r' {
        t.drop_last()
    } else {
        t
    }
}

/// The lines of a text: fragments between line breaks, each with a
/// carriage return stripped from its end, and nothing after a final line
/// break.
pub open spec fn spec_lines(s: Seq<char>) -> Seq<Seq<char>>
    decreases s.len(),
{
    if s.len() == 0 {
        Seq::empty()
    } else {
        let i = first_nl(s) as int;
        if i >= s.len() {
            seq![s]
        } else {
            seq![strip_cr(s.take(i))] + spec_lines(s.skip(i + 1))
        }
    }
}

/// The views of a sequence of string slices.
pub open spec fn views_of(v: Seq<&str>) -> Seq<Seq<char>> {
    Seq::new(v.len(), |j: int| v[j]@)
}

/// Splits a text into its lines.
pub fn split_lines<'a>(log: &'a str) -> (r: Vec<&'a str>)
    ensures
        views_of(r@) == spec_lines(log@),
        r@.len() == spec_lines(log@).len(),
        forall|j: int| 0 <= j < r@.len() ==> r@[j]@ == spec_lines(log@)[j],
{
    let cv = to_chars(log);
    let n = cv.len();
    let mut out: Vec<&'a str> = Vec::new();
    let mut start: usize = 0;
    let mut i: usize = 0;
    proof {
        assert(log@.skip(0) =~= log@);
        assert(views_of(out@) + spec_lines(log@) =~= spec_lines(log@));
    }
    while i < n
        invariant
            start <= i <= n,
            n == log@.len(),
            cv@ == log@,
            forall|j: int| start <= j < i ==> log@[j] != '\n',
            spec_lines(log@) == views_of(out@) + spec_lines(log@.skip(start as int)),
        decreases n - i,
    {
        if cv[i] == '\n' {
            let end = if i > start && cv[i - 1] == '\r' {
                i - 1
            } else {
                i
            };
            let line = log.substring_char(start, end);
            proof {
                let tail = log@.skip(start as int);
                assert forall|j: int| 0 <= j < i - start implies tail[j] != '\n' by {
                    assert(tail[j] == log@[start + j]);
                }
                assert(tail[i - start] == log@[i as int]);
                lemma_first_nl_is(tail, i - start);
                assert(tail.take(i - start) =~= log@.subrange(start as int, i as int));
                assert(tail.skip(i - start + 1) =~= log@.skip(i + 1));
                if i > start && log@[i - 1] == '\r' {
                    assert(strip_cr(tail.take(i - start)) =~= log@.subrange(
                        start as int,
                        end as int,
                    ));
                } else {
                    assert(strip_cr(tail.take(i - start)) =~= log@.subrange(
                        start as int,
                        end as int,
                    ));
                }
                assert(spec_lines(tail) == seq![line@] + spec_lines(log@.skip(i + 1)));
                assert(views_of(out@.push(line)) =~= views_of(out@).push(line@));
                assert(views_of(out@) + spec_lines(tail) =~= views_of(out@.push(line))
                    + spec_lines(log@.skip(i + 1)));
            }
            out.push(line);
            start = i + 1;
        }
        i += 1;
    }
    if start < n {
        let line = log.substring_char(start, n);
        proof {
            let tail = log@.skip(start as int);
            assert forall|j: int| 0 <= j < tail.len() implies tail[j] != '\n' by {
                assert(tail[j] == log@[start + j]);
            }
            lemma_first_nl_is(tail, tail.len() as int);
            assert(tail =~= log@.subrange(start as int, n as int));
            assert(spec_lines(tail) == seq![line@]);
            assert(views_of(out@.push(line)) =~= views_of(out@).push(line@));
            assert(views_of(out@) + spec_lines(tail) =~= views_of(out@.push(line)));
        }
        out.push(line);
    } else {
        proof {
            assert(log@.skip(start as int).len() == 0);
            assert(views_of(out@) + spec_lines(log@.skip(start as int)) =~= views_of(out@));
        }
    }
    proof {
        assert forall|j: int| 0 <= j < out@.len() implies out@[j]@ == spec_lines(log@)[j] by {
            assert(views_of(out@)[j] == out@[j]@);
        }
    }
    out
}

} // verus!
