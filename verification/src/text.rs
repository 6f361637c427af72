//! Lines, trimming and whitespace-separated tokens of a text held as a
//! sequence of `char`s, with the meaning that `str::lines`, `str::trim`
//! and `str::split_whitespace` give them. Pieces of the text are named by
//! spans: a start index (inclusive) and an end index (exclusive).

use vstd::prelude::*;

verus! {

/// A `char` with the Unicode `White_Space` property, which is what
/// `char::is_whitespace` tests.
pub open spec fn is_ws(c: char) -> bool {
    ||| ('\u{9}' <= c && c <= '\u{d}')
    ||| c == ' '
    ||| c == '\u{85}'
    ||| c == '\u{a0}'
    ||| c == '\u{1680}'
    ||| ('\u{2000}' <= c && c <= '\u{200a}')
    ||| c == '\u{2028}'
    ||| c == '\u{2029}'
    ||| c == '\u{202f}'
    ||| c == '\u{205f}'
    ||| c == '\u{3000}'
}

/// Whether `c` is Unicode whitespace.
pub fn is_whitespace_char(c: char) -> (b: bool)
    ensures
        b == is_ws(c),
{
    ('\u{9}' <= c && c <= '\u{d}') || c == ' ' || c == '\u{85}' || c == '\u{a0}' || c == '\u{1680}'
        || ('\u{2000}' <= c && c <= '\u{200a}') || c == '\u{2028}' || c == '\u{2029}' || c
        == '\u{202f}' || c == '\u{205f}' || c == '\u{3000}'
}

/// A piece `start..end` of a text.
#[derive(Clone, Copy, Debug, PartialEq, Eq)]
pub struct Span {
    pub start: usize,
    pub end: usize,
}

impl Span {
    pub open spec fn view(self) -> (int, int) {
        (self.start as int, self.end as int)
    }
}

/// The spans of a vector of spans, as pairs of integers.
pub open spec fn spans_view(v: Seq<Span>) -> Seq<(int, int)> {
    v.map_values(|s: Span| s.view())
}

/// The first position at or after `i`, and before `hi`, that does not hold
/// whitespace; `hi` where there is none.
pub open spec fn skip_ws(t: Seq<char>, i: int, hi: int) -> int
    decreases hi - i,
{
    if i < hi && is_ws(t[i]) {
        skip_ws(t, i + 1, hi)
    } else {
        i
    }
}

/// The first position at or after `i`, and before `hi`, that holds
/// whitespace; `hi` where there is none.
pub open spec fn skip_token(t: Seq<char>, i: int, hi: int) -> int
    decreases hi - i,
{
    if i < hi && !is_ws(t[i]) {
        skip_token(t, i + 1, hi)
    } else {
        i
    }
}

pub proof fn lemma_skip_ws(t: Seq<char>, i: int, hi: int)
    requires
        i <= hi,
    ensures
        i <= skip_ws(t, i, hi) <= hi,
        skip_ws(t, i, hi) < hi ==> !is_ws(t[skip_ws(t, i, hi)]),
        forall|k: int| i <= k < skip_ws(t, i, hi) ==> is_ws(#[trigger] t[k]),
    decreases hi - i,
{
    if i < hi && is_ws(t[i]) {
        lemma_skip_ws(t, i + 1, hi);
    }
}

pub proof fn lemma_skip_token(t: Seq<char>, i: int, hi: int)
    requires
        i <= hi,
    ensures
        i <= skip_token(t, i, hi) <= hi,
        skip_token(t, i, hi) < hi ==> is_ws(t[skip_token(t, i, hi)]),
        forall|k: int| i <= k < skip_token(t, i, hi) ==> !is_ws(#[trigger] t[k]),
    decreases hi - i,
{
    if i < hi && !is_ws(t[i]) {
        lemma_skip_token(t, i + 1, hi);
    }
}

/// The tokens of `t[i..hi]` that `split_whitespace` gives: its maximal runs
/// of characters that are not whitespace, in order.
pub open spec fn token_spans(t: Seq<char>, i: int, hi: int) -> Seq<(int, int)>
    decreases hi - i,
{
    if i >= hi {
        seq![]
    } else if is_ws(t[i]) {
        token_spans(t, i + 1, hi)
    } else {
        let b = skip_token(t, i, hi);
        proof {
            lemma_skip_token(t, i + 1, hi);
        }
        seq![(i, b)] + token_spans(t, b, hi)
    }
}

/// The last position after which `t[lo..hi]` holds only whitespace.
pub open spec fn trim_back(t: Seq<char>, lo: int, hi: int) -> int
    decreases hi - lo,
{
    if lo < hi && is_ws(t[hi - 1]) {
        trim_back(t, lo, hi - 1)
    } else {
        hi
    }
}

/// `t[lo..hi]` without its leading and trailing whitespace, as `str::trim`
/// gives it.
pub open spec fn trimmed(t: Seq<char>, lo: int, hi: int) -> (int, int) {
    let a = skip_ws(t, lo, hi);
    (a, trim_back(t, a, hi))
}

/// The position of the first `'\n'` at or after `i`; `t.len()` where there
/// is none.
pub open spec fn find_newline(t: Seq<char>, i: int) -> int
    decreases t.len() - i,
{
    if i < t.len() && t[i] != '\n' {
        find_newline(t, i + 1)
    } else {
        i
    }
}

pub proof fn lemma_find_newline(t: Seq<char>, i: int)
    requires
        i <= t.len(),
    ensures
        i <= find_newline(t, i) <= t.len(),
        find_newline(t, i) < t.len() ==> t[find_newline(t, i)] == '\n',
        forall|k: int| i <= k < find_newline(t, i) ==> #[trigger] t[k] != '\n',
    decreases t.len() - i,
{
    if i < t.len() && t[i] != '\n' {
        lemma_find_newline(t, i + 1);
    }
}

/// The lines of `t[i..]` that `str::lines` gives: split at each `'\n'`, a
/// `'\r'` just before a `'\n'` dropped, and no empty line after a final
/// `'\n'`.
pub open spec fn line_spans(t: Seq<char>, i: int) -> Seq<(int, int)>
    decreases t.len() - i,
{
    if i >= t.len() {
        seq![]
    } else {
        let n = find_newline(t, i);
        proof {
            lemma_find_newline(t, i);
        }
        if n >= t.len() {
            seq![(i, t.len() as int)]
        } else {
            let e = if n > i && t[n - 1] == '\r' {
                n - 1
            } else {
                n
            };
            seq![(i, e)] + line_spans(t, n + 1)
        }
    }
}

/// The line that starts at `pos`, and where the next one starts, or `None`
/// where no line is left.
pub fn next_line(t: &[char], pos: usize) -> (r: Option<(Span, usize)>)
    requires
        pos <= t@.len(),
    ensures
        match r {
            None => line_spans(t@, pos as int) == Seq::<(int, int)>::empty(),
            Some((s, next)) => {
                &&& pos < next <= t@.len()
                &&& pos == s.start <= s.end <= next
                &&& line_spans(t@, pos as int) == seq![s.view()] + line_spans(t@, next as int)
            },
        },
{
    let len = t.len();
    if pos >= len {
        return None;
    }
    let mut n = pos;
    while n < len && t[n] != '\n'
        invariant
            pos <= n <= len,
            len == t@.len(),
            find_newline(t@, n as int) == find_newline(t@, pos as int),
        decreases len - n,
    {
        n = n + 1;
    }
    if n >= len {
        Some((Span { start: pos, end: len }, len))
    } else {
        let e = if n > pos && t[n - 1] == '\r' {
            n - 1
        } else {
            n
        };
        Some((Span { start: pos, end: e }, n + 1))
    }
}

/// `t[lo..hi]` without leading and trailing whitespace.
pub fn trim_span(t: &[char], lo: usize, hi: usize) -> (r: Span)
    requires
        lo <= hi <= t@.len(),
    ensures
        r.view() == trimmed(t@, lo as int, hi as int),
        lo <= r.start <= r.end <= hi,
{
    let mut a = lo;
    while a < hi && is_whitespace_char(t[a])
        invariant
            lo <= a <= hi <= t@.len(),
            skip_ws(t@, a as int, hi as int) == skip_ws(t@, lo as int, hi as int),
        decreases hi - a,
    {
        a = a + 1;
    }
    let mut b = hi;
    while a < b && is_whitespace_char(t[b - 1])
        invariant
            lo <= a <= b <= hi <= t@.len(),
            trim_back(t@, a as int, b as int) == trim_back(t@, a as int, hi as int),
        decreases b - a,
    {
        b = b - 1;
    }
    Span { start: a, end: b }
}

/// The tokens of `t[lo..hi]`, as `split_whitespace` gives them.
pub fn split_tokens(t: &[char], lo: usize, hi: usize) -> (r: Vec<Span>)
    requires
        lo <= hi <= t@.len(),
    ensures
        spans_view(r@) == token_spans(t@, lo as int, hi as int),
        forall|q: int| 0 <= q < r@.len() ==> lo <= #[trigger] r@[q].start <= r@[q].end <= hi,
{
    let mut r: Vec<Span> = Vec::new();
    let mut i = lo;
    while i < hi
        invariant
            lo <= i <= hi <= t@.len(),
            spans_view(r@) + token_spans(t@, i as int, hi as int) == token_spans(
                t@,
                lo as int,
                hi as int,
            ),
            forall|q: int| 0 <= q < r@.len() ==> lo <= #[trigger] r@[q].start <= r@[q].end <= i,
        decreases hi - i,
    {
        if is_whitespace_char(t[i]) {
            i = i + 1;
        } else {
            let mut b = i + 1;
            while b < hi && !is_whitespace_char(t[b])
                invariant
                    i < b <= hi <= t@.len(),
                    !is_ws(t@[i as int]),
                    skip_token(t@, b as int, hi as int) == skip_token(t@, i as int, hi as int),
                decreases hi - b,
            {
                b = b + 1;
            }
            let ghost old_r = r@;
            r.push(Span { start: i, end: b });
            assert(spans_view(r@) == spans_view(old_r) + seq![(i as int, b as int)]);
            assert(token_spans(t@, i as int, hi as int) == seq![(i as int, b as int)]
                + token_spans(t@, b as int, hi as int));
            i = b;
        }
    }
    assert(token_spans(t@, i as int, hi as int) == Seq::<(int, int)>::empty());
    r
}

} // verus!

verus! {

/// Law: the tokens of `t[i..hi]` are exactly its maximal runs of characters
/// that are not whitespace, in order: each is a nonempty run inside
/// `i..hi` with no whitespace in it, bounded on each side by whitespace or
/// by the ends of the range, each starts after the previous one ends, and
/// every character that is not whitespace lies in one of them.
pub proof fn law_tokens_are_maximal_runs(t: Seq<char>, i: int, hi: int)
    requires
        0 <= i <= hi <= t.len(),
    ensures
        forall|q: int|
            0 <= q < token_spans(t, i, hi).len() ==> i <= (#[trigger] token_spans(t, i, hi)[q]).0
                < token_spans(t, i, hi)[q].1 <= hi,
        forall|q: int, k: int|
            0 <= q < token_spans(t, i, hi).len() && (#[trigger] token_spans(t, i, hi)[q]).0 <= k
                < token_spans(t, i, hi)[q].1 ==> !is_ws(#[trigger] t[k]),
        forall|q: int|
            0 <= q < token_spans(t, i, hi).len() ==> (#[trigger] token_spans(t, i, hi)[q]).1 == hi
                || is_ws(t[token_spans(t, i, hi)[q].1]),
        forall|q: int|
            0 <= q < token_spans(t, i, hi).len() ==> (#[trigger] token_spans(t, i, hi)[q]).0 == i
                || is_ws(t[token_spans(t, i, hi)[q].0 - 1]),
        forall|q: int|
            0 <= q < token_spans(t, i, hi).len() - 1 ==> (#[trigger] token_spans(t, i, hi)[q]).1
                < token_spans(t, i, hi)[q + 1].0,
        forall|k: int|
            i <= k < hi && !is_ws(#[trigger] t[k]) ==> exists|q: int|
                0 <= q < token_spans(t, i, hi).len() && (#[trigger] token_spans(t, i, hi)[q]).0
                    <= k < token_spans(t, i, hi)[q].1,
    decreases hi - i,
{
    let s = token_spans(t, i, hi);
    if i >= hi {
    } else if is_ws(t[i]) {
        law_tokens_are_maximal_runs(t, i + 1, hi);
        assert(s == token_spans(t, i + 1, hi));
        assert forall|k: int| i <= k < hi && !is_ws(#[trigger] t[k]) implies exists|q: int|
            0 <= q < s.len() && (#[trigger] s[q]).0 <= k < s[q].1 by {
            assert(k != i);
        }
    } else {
        let b = skip_token(t, i, hi);
        lemma_skip_token(t, i, hi);
        law_tokens_are_maximal_runs(t, b, hi);
        let r = token_spans(t, b, hi);
        assert(s == seq![(i, b)] + r);
        assert(b > i) by {
            lemma_skip_token(t, i + 1, hi);
        }
        assert forall|q: int| 0 <= q < s.len() implies (#[trigger] s[q]).0 == i || is_ws(
            t[s[q].0 - 1],
        ) by {
            if q > 0 {
                assert(s[q] == r[q - 1]);
                if r[q - 1].0 == b {
                    assert(!is_ws(t[b]));
                }
            }
        }
        assert forall|q: int| 0 <= q < s.len() - 1 implies (#[trigger] s[q]).1 < s[q + 1].0 by {
            if q == 0 {
                assert(s[1] == r[0]);
                if r[0].0 == b {
                    assert(!is_ws(t[b]));
                }
            } else {
                assert(s[q] == r[q - 1]);
                assert(s[q + 1] == r[q]);
            }
        }
        assert forall|q: int, k: int|
            0 <= q < s.len() && (#[trigger] s[q]).0 <= k < s[q].1 implies !is_ws(
                #[trigger] t[k],
            ) by {
            if q > 0 {
                assert(s[q] == r[q - 1]);
            }
        }
        assert forall|q: int| 0 <= q < s.len() implies (#[trigger] s[q]).1 == hi || is_ws(
            t[s[q].1],
        ) by {
            if q > 0 {
                assert(s[q] == r[q - 1]);
            }
        }
        assert forall|q: int| 0 <= q < s.len() implies i <= (#[trigger] s[q]).0 < s[q].1 <= hi by {
            if q > 0 {
                assert(s[q] == r[q - 1]);
            }
        }
        assert forall|k: int| i <= k < hi && !is_ws(#[trigger] t[k]) implies exists|q: int|
            0 <= q < s.len() && (#[trigger] s[q]).0 <= k < s[q].1 by {
            if k < b {
                assert(s[0] == (i, b));
            } else {
                let q = choose|q: int| 0 <= q < r.len() && (#[trigger] r[q]).0 <= k < r[q].1;
                assert(s[q + 1] == r[q]);
            }
        }
    }
}

/// Law: each line lies inside the text, holds no `'\n'`, and starts after
/// the previous one ends.
pub proof fn law_lines_hold_no_newline(t: Seq<char>, i: int)
    requires
        0 <= i <= t.len(),
    ensures
        forall|q: int|
            0 <= q < line_spans(t, i).len() ==> i <= (#[trigger] line_spans(t, i)[q]).0
                <= line_spans(t, i)[q].1 <= t.len(),
        forall|q: int, k: int|
            0 <= q < line_spans(t, i).len() && (#[trigger] line_spans(t, i)[q]).0 <= k
                < line_spans(t, i)[q].1 ==> #[trigger] t[k] != '\n',
        forall|q: int|
            0 <= q < line_spans(t, i).len() - 1 ==> (#[trigger] line_spans(t, i)[q]).1
                < line_spans(t, i)[q + 1].0,
    decreases t.len() - i,
{
    if i < t.len() {
        let n = find_newline(t, i);
        lemma_find_newline(t, i);
        if n < t.len() {
            law_lines_hold_no_newline(t, n + 1);
            let s = line_spans(t, i);
            let r = line_spans(t, n + 1);
            assert forall|q: int| 0 <= q < s.len() implies i <= (#[trigger] s[q]).0 <= s[q].1
                <= t.len() by {
                if q > 0 {
                    assert(s[q] == r[q - 1]);
                }
            }
            assert forall|q: int, k: int|
                0 <= q < s.len() && (#[trigger] s[q]).0 <= k < s[q].1 implies #[trigger] t[k]
                != '\n' by {
                if q > 0 {
                    assert(s[q] == r[q - 1]);
                }
            }
            assert forall|q: int| 0 <= q < s.len() - 1 implies (#[trigger] s[q]).1 < s[q
                + 1].0 by {
                if q > 0 {
                    assert(s[q] == r[q - 1]);
                    assert(s[q + 1] == r[q]);
                } else {
                    assert(s[1] == r[0]);
                }
            }
        }
    }
}

pub proof fn lemma_token_count_fits(t: Seq<char>, lo: int, hi: int)
    ensures
        token_spans(t, lo, hi).len() <= if hi - lo > 0 {
            hi - lo
        } else {
            0
        },
    decreases hi - lo,
{
    if lo < hi {
        if is_ws(t[lo]) {
            lemma_token_count_fits(t, lo + 1, hi);
        } else {
            let b = skip_token(t, lo, hi);
            lemma_skip_token(t, lo, hi);
            lemma_skip_token(t, lo + 1, hi);
            lemma_token_count_fits(t, b, hi);
        }
    }
}

proof fn lemma_trim_back(t: Seq<char>, lo: int, hi: int)
    requires
        lo <= hi,
    ensures
        lo <= trim_back(t, lo, hi) <= hi,
        trim_back(t, lo, hi) > lo ==> !is_ws(t[trim_back(t, lo, hi) - 1]),
        forall|k: int| trim_back(t, lo, hi) <= k < hi ==> is_ws(#[trigger] t[k]),
    decreases hi - lo,
{
    if lo < hi && is_ws(t[hi - 1]) {
        lemma_trim_back(t, lo, hi - 1);
    }
}

/// Law: trimming removes whitespace from the two ends and nothing else:
/// what it keeps neither starts nor ends with whitespace, and all it drops
/// is whitespace.
pub proof fn law_trim_removes_outer_whitespace(t: Seq<char>, lo: int, hi: int)
    requires
        lo <= hi,
    ensures
        lo <= trimmed(t, lo, hi).0 <= trimmed(t, lo, hi).1 <= hi,
        forall|k: int| lo <= k < trimmed(t, lo, hi).0 ==> is_ws(#[trigger] t[k]),
        forall|k: int| trimmed(t, lo, hi).1 <= k < hi ==> is_ws(#[trigger] t[k]),
        trimmed(t, lo, hi).0 < trimmed(t, lo, hi).1 ==> !is_ws(t[trimmed(t, lo, hi).0]) && !is_ws(
            t[trimmed(t, lo, hi).1 - 1],
        ),
{
    lemma_skip_ws(t, lo, hi);
    let a = skip_ws(t, lo, hi);
    lemma_trim_back(t, a, hi);
}

/// Whether a line may end at `b`: at the end of the text, at a `'\n'`, or at
/// a `'\r'` just before a `'\n'`.
pub open spec fn is_line_end(t: Seq<char>, b: int) -> bool {
    ||| b == t.len()
    ||| t[b] == '\n'
    ||| (t[b] == '\r' && b + 1 < t.len() && t[b + 1] == '\n')
}

/// Whether `k` holds a `'\n'`, or a `'\r'` just before one: the characters
/// that no line holds.
pub open spec fn is_terminator(t: Seq<char>, k: int) -> bool {
    ||| t[k] == '\n'
    ||| (t[k] == '\r' && k + 1 < t.len() && t[k + 1] == '\n')
}

/// Law: the lines of `t[i..]` are cut exactly at the line endings: each
/// line starts before the end of the text, at `i` or just after a `'\n'`,
/// and ends where a line may end; every character that is not part of a
/// line ending lies in some line; and every `'\n'` ends some line, right
/// after it or after the `'\r'` before it.
pub proof fn law_lines_cover_text(t: Seq<char>, i: int)
    requires
        0 <= i <= t.len(),
    ensures
        forall|q: int|
            0 <= q < line_spans(t, i).len() ==> {
                let l = #[trigger] line_spans(t, i)[q];
                &&& l.0 < t.len()
                &&& l.0 == i || t[l.0 - 1] == '\n'
                &&& is_line_end(t, l.1)
            },
        forall|k: int|
            i <= k < t.len() && !is_terminator(t, k) ==> exists|q: int|
                0 <= q < line_spans(t, i).len() && (#[trigger] line_spans(t, i)[q]).0 <= k
                    < line_spans(t, i)[q].1,
        forall|k: int|
            i <= k < t.len() && #[trigger] t[k] == '\n' ==> exists|q: int|
                0 <= q < line_spans(t, i).len() && ((#[trigger] line_spans(t, i)[q]).1 == k || (
                line_spans(t, i)[q].1 == k - 1 && t[k - 1] == '\r')),
    decreases t.len() - i,
{
    if i < t.len() {
        let n = find_newline(t, i);
        lemma_find_newline(t, i);
        let s = line_spans(t, i);
        if n >= t.len() {
            assert(s == seq![(i, t.len() as int)]);
            assert forall|k: int|
                i <= k < t.len() && !is_terminator(t, k) implies exists|q: int|
                0 <= q < s.len() && (#[trigger] s[q]).0 <= k < s[q].1 by {
                assert(s[0] == (i, t.len() as int));
            }
            assert forall|k: int| i <= k < t.len() && #[trigger] t[k] == '\n' implies exists|q: int|
                0 <= q < s.len() && ((#[trigger] s[q]).1 == k || (s[q].1 == k - 1 && t[k - 1]
                    == '\r')) by {
                assert(t[k] != '\n');
            }
        } else {
            law_lines_cover_text(t, n + 1);
            let r = line_spans(t, n + 1);
            let e = if n > i && t[n - 1] == '\r' {
                n - 1
            } else {
                n
            };
            assert(s == seq![(i, e)] + r);
            assert forall|q: int| 0 <= q < s.len() implies {
                let l = #[trigger] s[q];
                &&& l.0 < t.len()
                &&& l.0 == i || t[l.0 - 1] == '\n'
                &&& is_line_end(t, l.1)
            } by {
                if q > 0 {
                    assert(s[q] == r[q - 1]);
                }
            }
            assert forall|k: int|
                i <= k < t.len() && !is_terminator(t, k) implies exists|q: int|
                0 <= q < s.len() && (#[trigger] s[q]).0 <= k < s[q].1 by {
                if k < e {
                    assert(s[0] == (i, e));
                } else if k <= n {
                    assert(false);
                } else {
                    let q = choose|q: int| 0 <= q < r.len() && (#[trigger] r[q]).0 <= k < r[q].1;
                    assert(s[q + 1] == r[q]);
                }
            }
            assert forall|k: int| i <= k < t.len() && #[trigger] t[k] == '\n' implies exists|q: int|
                0 <= q < s.len() && ((#[trigger] s[q]).1 == k || (s[q].1 == k - 1 && t[k - 1]
                    == '\r')) by {
                if k < n {
                    assert(false);
                } else if k == n {
                    assert(s[0] == (i, e));
                } else {
                    let q = choose|q: int|
                        0 <= q < r.len() && ((#[trigger] r[q]).1 == k || (r[q].1 == k - 1 && t[k
                            - 1] == '\r'));
                    assert(s[q + 1] == r[q]);
                }
            }
        }
    }
}

} // verus!
