//! Character-level utilities shared by the tokenizer and the interpreter:
//! whitespace scanning, trimming, word splitting, and splitting a whole
//! script into physical lines.

use vstd::prelude::*;

verus! {

/// The characters treated as horizontal/vertical whitespace when trimming
/// lines and splitting words.
pub open spec fn is_space(c: char) -> bool {
    c == ' ' || c == '\t' || c == '\n' || c == '\r' || c == '\x0b' || c == '\x0c'
}

/// Runtime test for [`is_space`].
#[verifier::when_used_as_spec(is_space)]
pub fn is_space_char(c: char) -> (r: bool)
    ensures
        r == is_space(c),
{
    c == ' ' || c == '\t' || c == '\n' || c == '\r' || c == '\x0b' || c == '\x0c'
}

/// Index of the first non-space character at or after `from`, or `s.len()`
/// if all remaining characters are spaces.
pub open spec fn first_non_space(s: Seq<char>, from: int) -> int
    decreases s.len() - from,
{
    if from < 0 || from >= s.len() {
        s.len() as int
    } else if !is_space(s[from]) {
        from
    } else {
        first_non_space(s, from + 1)
    }
}

/// Index of the first space character at or after `from`, or `s.len()`
/// if none follows.
pub open spec fn first_space(s: Seq<char>, from: int) -> int
    decreases s.len() - from,
{
    if from < 0 || from >= s.len() {
        s.len() as int
    } else if is_space(s[from]) {
        from
    } else {
        first_space(s, from + 1)
    }
}

/// Moves `e` left past trailing spaces, stopping at `low`: the end index of
/// `s[low..e]` once trailing whitespace is dropped.
pub open spec fn rstrip_end(s: Seq<char>, low: int, e: int) -> int
    decreases e,
{
    if e <= low || e - 1 < 0 || e - 1 >= s.len() {
        low
    } else if is_space(s[e - 1]) {
        rstrip_end(s, low, e - 1)
    } else {
        e
    }
}

pub proof fn lemma_first_non_space_bounds(s: Seq<char>, from: int)
    requires
        0 <= from <= s.len(),
    ensures
        from <= first_non_space(s, from) <= s.len(),
        forall|j: int| from <= j < first_non_space(s, from) ==> is_space(s[j]),
        first_non_space(s, from) < s.len() ==> !is_space(s[first_non_space(s, from)]),
    decreases s.len() - from,
{
    if from < s.len() && is_space(s[from]) {
        lemma_first_non_space_bounds(s, from + 1);
    }
}

pub proof fn lemma_first_space_bounds(s: Seq<char>, from: int)
    requires
        0 <= from <= s.len(),
    ensures
        from <= first_space(s, from) <= s.len(),
        forall|j: int| from <= j < first_space(s, from) ==> !is_space(s[j]),
        first_space(s, from) < s.len() ==> is_space(s[first_space(s, from)]),
    decreases s.len() - from,
{
    if from < s.len() && !is_space(s[from]) {
        lemma_first_space_bounds(s, from + 1);
    }
}

pub proof fn lemma_rstrip_end_bounds(s: Seq<char>, low: int, e: int)
    requires
        0 <= low <= e <= s.len(),
    ensures
        low <= rstrip_end(s, low, e) <= e,
        rstrip_end(s, low, e) > low ==> !is_space(s[rstrip_end(s, low, e) - 1]),
        forall|j: int| rstrip_end(s, low, e) <= j < e ==> is_space(s[j]),
    decreases e,
{
    if e > low && is_space(s[e - 1]) {
        lemma_rstrip_end_bounds(s, low, e - 1);
    }
}

/// `s` with leading and trailing whitespace removed.
pub open spec fn trim_of(s: Seq<char>) -> Seq<char> {
    let i = first_non_space(s, 0);
    s.subrange(i, rstrip_end(s, i, s.len() as int))
}

/// The first whitespace-delimited word of `s` (empty if `s` is all spaces).
pub open spec fn word_of(s: Seq<char>) -> Seq<char> {
    let i = first_non_space(s, 0);
    s.subrange(i, first_space(s, i))
}

/// Everything after the first word of `s`, trimmed on both sides.
pub open spec fn rest_of(s: Seq<char>) -> Seq<char> {
    let i = first_non_space(s, 0);
    let j = first_space(s, i);
    let k = first_non_space(s, j);
    s.subrange(k, rstrip_end(s, k, s.len() as int))
}

/// After pushing one element, the deep view grows by that element's view.
pub proof fn lemma_deep_view_push<T: DeepView>(a: Vec<T>, b: Vec<T>, x: T)
    requires
        b@ == a@.push(x),
    ensures
        b.deep_view() =~= a.deep_view().push(x.deep_view()),
{
    assert forall|j: int| 0 <= j < b@.len() implies b.deep_view()[j] == a.deep_view().push(
        x.deep_view(),
    )[j] by {
        if j < a@.len() {
            assert(b@[j] == a@[j]);
        } else {
            assert(b@[j] == x);
        }
    }
}

/// `l` with one trailing carriage return removed, if it ends with one.
pub open spec fn strip_cr(l: Seq<char>) -> Seq<char> {
    if l.len() > 0 && l.last() == '\r' {
        l.drop_last()
    } else {
        l
    }
}

/// The physical lines of `s[from..]`, given that `cur` holds the characters
/// of the current line read so far: each `\n` ends a line, a final line
/// needs no terminator, and a line's trailing carriage return is dropped.
pub open spec fn split_lines_rec(s: Seq<char>, from: int, cur: Seq<char>) -> Seq<Seq<char>>
    decreases s.len() - from,
{
    if from < 0 || from >= s.len() {
        if cur.len() == 0 {
            Seq::empty()
        } else {
            seq![strip_cr(cur)]
        }
    } else if s[from] == '\n' {
        seq![strip_cr(cur)] + split_lines_rec(s, from + 1, Seq::empty())
    } else {
        split_lines_rec(s, from + 1, cur.push(s[from]))
    }
}

/// The physical lines of a whole script.
pub open spec fn split_lines_spec(s: Seq<char>) -> Seq<Seq<char>> {
    split_lines_rec(s, 0, Seq::empty())
}

/// Splits a script into its physical lines: `\n` ends a line, a line's
/// trailing carriage return is dropped, and a final line needs no
/// terminator.
pub fn split_lines(s: &str) -> (r: Vec<String>)
    ensures
        r.deep_view() == split_lines_spec(s@),
{
    let n = s.unicode_len();
    let mut lines: Vec<String> = Vec::new();
    let mut start: usize = 0;
    let mut i: usize = 0;
    proof {
        assert(s@.subrange(0, 0) =~= Seq::<char>::empty());
        assert(lines.deep_view() + split_lines_rec(s@, 0, Seq::empty()) =~= split_lines_rec(
            s@,
            0,
            Seq::empty(),
        ));
    }
    while i < n
        invariant
            start <= i <= n,
            n == s@.len(),
            split_lines_spec(s@) == lines.deep_view() + split_lines_rec(
                s@,
                i as int,
                s@.subrange(start as int, i as int),
            ),
            forall|j: int| start <= j < i ==> s@[j] != '\n',
        decreases n - i,
    {
        if s.get_char(i) == '\n' {
            let e = if i > start && s.get_char(i - 1) == '\r' {
                i - 1
            } else {
                i
            };
            let line = s.substring_char(start, e).to_owned();
            proof {
                let cur = s@.subrange(start as int, i as int);
                if i > start {
                    assert(cur.last() == s@[i as int - 1]);
                    assert(cur.drop_last() =~= s@.subrange(start as int, i as int - 1));
                }
                assert(line@ == strip_cr(cur));
            }
            let ghost lines_snap = lines;
            let ghost line_snap = line;
            lines.push(line);
            start = i + 1;
            i = i + 1;
            proof {
                lemma_deep_view_push(lines_snap, lines, line_snap);
                let rest = split_lines_rec(s@, i as int, Seq::empty());
                assert(s@.subrange(start as int, i as int) =~= Seq::<char>::empty());
                assert(lines.deep_view() + rest =~= lines_snap.deep_view() + (seq![line_snap@]
                    + rest));
                assert(split_lines_spec(s@) == lines.deep_view() + split_lines_rec(
                    s@,
                    i as int,
                    s@.subrange(start as int, i as int),
                ));
            }
        } else {
            i = i + 1;
            proof {
                assert(s@.subrange(start as int, i as int) =~= s@.subrange(
                    start as int,
                    i as int - 1,
                ).push(s@[i as int - 1]));
            }
        }
    }
    if start < n {
        let e = if s.get_char(n - 1) == '\r' {
            n - 1
        } else {
            n
        };
        let line = s.substring_char(start, e).to_owned();
        proof {
            let cur = s@.subrange(start as int, n as int);
            assert(cur.len() > 0);
            assert(cur.last() == s@[n as int - 1]);
            assert(cur.drop_last() =~= s@.subrange(start as int, n as int - 1));
            assert(line@ == strip_cr(cur));
        }
        let ghost lines_snap = lines;
        let ghost line_snap = line;
        lines.push(line);
        proof {
            lemma_deep_view_push(lines_snap, lines, line_snap);
            assert(lines.deep_view() =~= lines_snap.deep_view() + seq![line_snap@]);
            assert(lines.deep_view() == split_lines_spec(s@));
        }
    } else {
        proof {
            assert(s@.subrange(start as int, n as int).len() == 0);
            assert(lines.deep_view() + Seq::<Seq<char>>::empty() =~= lines.deep_view());
        }
    }
    lines
}

/// Character-for-character string equality.
pub fn str_eq(a: &str, b: &str) -> (r: bool)
    ensures
        r == (a@ == b@),
{
    let na = a.unicode_len();
    let nb = b.unicode_len();
    if na != nb {
        return false;
    }
    let mut i: usize = 0;
    while i < na
        invariant
            na == a@.len(),
            na == b@.len(),
            i <= na,
            forall|j: int| 0 <= j < i ==> a@[j] == b@[j],
        decreases na - i,
    {
        if a.get_char(i) != b.get_char(i) {
            return false;
        }
        i += 1;
    }
    proof {
        assert(a@ =~= b@);
    }
    true
}

/// Finds the first non-space index at or after `from`.
pub fn scan_non_space(s: &str, from: usize) -> (r: usize)
    requires
        from <= s@.len(),
    ensures
        r == first_non_space(s@, from as int),
{
    let n = s.unicode_len();
    let mut i: usize = from;
    while i < n && is_space_char(s.get_char(i))
        invariant
            from <= i <= n,
            n == s@.len(),
            first_non_space(s@, from as int) == first_non_space(s@, i as int),
        decreases n - i,
    {
        i += 1;
    }
    i
}

/// Finds the first space index at or after `from`.
fn scan_space(s: &str, from: usize) -> (r: usize)
    requires
        from <= s@.len(),
    ensures
        r == first_space(s@, from as int),
{
    let n = s.unicode_len();
    let mut i: usize = from;
    while i < n && !is_space_char(s.get_char(i))
        invariant
            from <= i <= n,
            n == s@.len(),
            first_space(s@, from as int) == first_space(s@, i as int),
        decreases n - i,
    {
        i += 1;
    }
    i
}

/// Moves `e` left past trailing spaces, stopping at `low`.
fn scan_rstrip(s: &str, low: usize, e: usize) -> (r: usize)
    requires
        low <= e <= s@.len(),
    ensures
        r == rstrip_end(s@, low as int, e as int),
{
    let mut i: usize = e;
    while i > low && is_space_char(s.get_char(i - 1))
        invariant
            low <= i <= e <= s@.len(),
            rstrip_end(s@, low as int, e as int) == rstrip_end(s@, low as int, i as int),
        decreases i,
    {
        i -= 1;
    }
    i
}

/// `s` with leading and trailing whitespace removed.
pub fn trim(s: &str) -> (r: String)
    ensures
        r@ == trim_of(s@),
{
    let n = s.unicode_len();
    let i = scan_non_space(s, 0);
    proof {
        lemma_first_non_space_bounds(s@, 0);
        lemma_rstrip_end_bounds(s@, i as int, n as int);
    }
    let e = scan_rstrip(s, i, n);
    s.substring_char(i, e).to_owned()
}

/// Splits `s` into its first whitespace-delimited word and the trimmed
/// remainder.
pub fn split_word(s: &str) -> (r: (String, String))
    ensures
        r.0@ == word_of(s@),
        r.1@ == rest_of(s@),
{
    let n = s.unicode_len();
    let i = scan_non_space(s, 0);
    proof {
        lemma_first_non_space_bounds(s@, 0);
    }
    let j = scan_space(s, i);
    proof {
        lemma_first_space_bounds(s@, i as int);
    }
    let word = s.substring_char(i, j).to_owned();
    let k = scan_non_space(s, j);
    proof {
        lemma_first_non_space_bounds(s@, j as int);
        lemma_rstrip_end_bounds(s@, k as int, n as int);
    }
    let e = scan_rstrip(s, k, n);
    let rest = s.substring_char(k, e).to_owned();
    (word, rest)
}

} // verus!
