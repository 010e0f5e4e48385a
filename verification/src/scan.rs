//! Reading text: blanks, prefixes, lines, and joining what was split.

use vstd::prelude::*;

use crate::pieces::holds;
use crate::pieces::lemma_holds_in_both;
use crate::pieces::lemma_holds_itself;
use crate::text::chars_of;
use crate::text::dec;
use crate::text::digit;
use crate::text::string_of;
use crate::text::texts;

verus! {

// ---------------------------------------------------------------------------
// Characters
// ---------------------------------------------------------------------------

/// A character with the Unicode property `White_Space`.
pub open spec fn is_white(c: char) -> bool {
    ||| '\u{9}' <= c <= '\u{d}'
    ||| c == ' '
    ||| c == '\u{85}'
    ||| c == '\u{a0}'
    ||| c == '\u{1680}'
    ||| '\u{2000}' <= c <= '\u{200a}'
    ||| c == '\u{2028}'
    ||| c == '\u{2029}'
    ||| c == '\u{202f}'
    ||| c == '\u{205f}'
    ||| c == '\u{3000}'
}

/// Whether `c` is a blank.
pub fn white(c: char) -> (r: bool)
    ensures
        r == is_white(c),
{
    ('\u{9}' <= c && c <= '\u{d}') || c == ' ' || c == '\u{85}' || c == '\u{a0}' || c == '\u{1680}'
        || ('\u{2000}' <= c && c <= '\u{200a}') || c == '\u{2028}' || c == '\u{2029}' || c
        == '\u{202f}' || c == '\u{205f}' || c == '\u{3000}'
}

/// An ASCII decimal digit.
pub open spec fn is_digit(c: char) -> bool {
    '0' <= c <= '9'
}

/// Every character is an ASCII decimal digit.
pub open spec fn all_digits(s: Seq<char>) -> bool {
    forall|i: int| 0 <= i < s.len() ==> is_digit(#[trigger] s[i])
}

/// Whether every character is an ASCII decimal digit.
pub fn only_digits(s: &str) -> (r: bool)
    ensures
        r == all_digits(s@),
{
    let cs = chars_of(s);
    let mut i: usize = 0;
    while i < cs.len()
        invariant
            i <= cs.len(),
            cs@ == s@,
            forall|j: int| 0 <= j < i ==> is_digit(#[trigger] s@[j]),
        decreases cs.len() - i,
    {
        if !('0' <= cs[i] && cs[i] <= '9') {
            assert(!is_digit(s@[i as int]));
            return false;
        }
        i = i + 1;
    }
    true
}

/// How often `c` occurs in `s`.
pub open spec fn occurrences(s: Seq<char>, c: char) -> nat
    decreases s.len(),
{
    if s.len() == 0 {
        0
    } else {
        occurrences(s.drop_last(), c) + (if s.last() == c {
            1nat
        } else {
            0nat
        })
    }
}

/// The position of the first `c` in `s`, or its length where there is none.
pub open spec fn first_index(s: Seq<char>, c: char) -> nat
    decreases s.len(),
{
    if s.len() == 0 || s[0] == c {
        0
    } else {
        1 + first_index(s.skip(1), c)
    }
}

/// What is known of the position that `first_index` gives.
pub proof fn lemma_first_index(s: Seq<char>, c: char, k: int)
    requires
        0 <= k <= s.len(),
        forall|i: int| 0 <= i < k ==> s[i] != c,
        k < s.len() ==> s[k] == c,
    ensures
        first_index(s, c) == k,
    decreases k,
{
    if k > 0 {
        let t = s.skip(1);
        assert forall|i: int| 0 <= i < k - 1 implies t[i] != c by {
            assert(t[i] == s[i + 1]);
        }
        lemma_first_index(t, c, k - 1);
    }
}

/// The position of the first `c`, or the length where there is none.
pub fn index_of(cs: &Vec<char>, c: char) -> (r: usize)
    ensures
        r == first_index(cs@, c),
        r <= cs.len(),
        forall|i: int| 0 <= i < r ==> cs@[i] != c,
        r < cs.len() ==> cs@[r as int] == c,
{
    let mut i: usize = 0;
    while i < cs.len() && cs[i] != c
        invariant
            i <= cs.len(),
            forall|j: int| 0 <= j < i ==> cs@[j] != c,
        decreases cs.len() - i,
    {
        i = i + 1;
    }
    proof {
        lemma_first_index(cs@, c, i as int);
    }
    i
}

/// How often `c` occurs among the characters.
pub fn count_of(cs: &Vec<char>, c: char) -> (r: usize)
    ensures
        r == occurrences(cs@, c),
{
    let mut n: usize = 0;
    let mut i: usize = 0;
    while i < cs.len()
        invariant
            i <= cs.len(),
            n <= i,
            n == occurrences(cs@.take(i as int), c),
        decreases cs.len() - i,
    {
        proof {
            assert(cs@.take(i + 1).drop_last() =~= cs@.take(i as int));
        }
        if cs[i] == c {
            n = n + 1;
        }
        i = i + 1;
    }
    proof {
        assert(cs@.take(cs@.len() as int) =~= cs@);
    }
    n
}

// ---------------------------------------------------------------------------
// Trimming
// ---------------------------------------------------------------------------

/// `s` without its leading blanks.
pub open spec fn trim_start(s: Seq<char>) -> Seq<char>
    decreases s.len(),
{
    if s.len() > 0 && is_white(s[0]) {
        trim_start(s.skip(1))
    } else {
        s
    }
}

/// `s` without its trailing blanks.
pub open spec fn trim_end(s: Seq<char>) -> Seq<char>
    decreases s.len(),
{
    if s.len() > 0 && is_white(s.last()) {
        trim_end(s.drop_last())
    } else {
        s
    }
}

/// `s` without its leading and trailing blanks.
pub open spec fn trim(s: Seq<char>) -> Seq<char> {
    trim_end(trim_start(s))
}

/// `s` without the occurrences of `c` that it starts with.
pub open spec fn strip_leading(s: Seq<char>, c: char) -> Seq<char>
    decreases s.len(),
{
    if s.len() > 0 && s[0] == c {
        strip_leading(s.skip(1), c)
    } else {
        s
    }
}

/// `s` without the occurrences of `c` that it ends with.
pub open spec fn strip_trailing(s: Seq<char>, c: char) -> Seq<char>
    decreases s.len(),
{
    if s.len() > 0 && s.last() == c {
        strip_trailing(s.drop_last(), c)
    } else {
        s
    }
}

proof fn lemma_trim_start(s: Seq<char>, k: int)
    requires
        0 <= k <= s.len(),
        forall|i: int| 0 <= i < k ==> is_white(s[i]),
        k < s.len() ==> !is_white(s[k]),
    ensures
        trim_start(s) == s.skip(k),
    decreases k,
{
    if k > 0 {
        assert(is_white(s[0]));
        let t = s.skip(1);
        assert forall|i: int| 0 <= i < k - 1 implies is_white(t[i]) by {
            assert(t[i] == s[i + 1]);
        }
        lemma_trim_start(t, k - 1);
        assert(t.skip(k - 1) =~= s.skip(k));
    } else {
        assert(s.skip(0) =~= s);
    }
}

proof fn lemma_trim_end(s: Seq<char>, k: int)
    requires
        0 <= k <= s.len(),
        forall|i: int| k <= i < s.len() ==> is_white(s[i]),
        k > 0 ==> !is_white(s[k - 1]),
    ensures
        trim_end(s) == s.take(k),
    decreases s.len() - k,
{
    if k < s.len() {
        lemma_trim_end(s.drop_last(), k);
        assert(s.drop_last().take(k) =~= s.take(k));
    } else {
        assert(s.take(k) =~= s);
    }
}

proof fn lemma_strip_leading(s: Seq<char>, c: char, k: int)
    requires
        0 <= k <= s.len(),
        forall|i: int| 0 <= i < k ==> s[i] == c,
        k < s.len() ==> s[k] != c,
    ensures
        strip_leading(s, c) == s.skip(k),
    decreases k,
{
    if k > 0 {
        let t = s.skip(1);
        assert forall|i: int| 0 <= i < k - 1 implies t[i] == c by {
            assert(t[i] == s[i + 1]);
        }
        lemma_strip_leading(t, c, k - 1);
        assert(t.skip(k - 1) =~= s.skip(k));
    } else {
        assert(s.skip(0) =~= s);
    }
}

proof fn lemma_strip_trailing(s: Seq<char>, c: char, k: int)
    requires
        0 <= k <= s.len(),
        forall|i: int| k <= i < s.len() ==> s[i] == c,
        k > 0 ==> s[k - 1] != c,
    ensures
        strip_trailing(s, c) == s.take(k),
    decreases s.len() - k,
{
    if k < s.len() {
        lemma_strip_trailing(s.drop_last(), c, k);
        assert(s.drop_last().take(k) =~= s.take(k));
    } else {
        assert(s.take(k) =~= s);
    }
}

/// `s` without its leading and trailing blanks.
pub fn trimmed(s: &str) -> (r: String)
    ensures
        r@ == trim(s@),
{
    let cs = chars_of(s);
    let n: usize = cs.len();
    let mut lo: usize = 0;
    while lo < n && white(cs[lo])
        invariant
            n == cs.len(),
            lo <= n,
            forall|i: int| 0 <= i < lo ==> is_white(cs@[i]),
        decreases n - lo,
    {
        lo = lo + 1;
    }
    proof {
        lemma_trim_start(cs@, lo as int);
    }
    let mut hi: usize = n;
    while hi > lo && white(cs[hi - 1])
        invariant
            n == cs.len(),
            lo <= hi <= n,
            forall|i: int| hi <= i < n ==> is_white(cs@[i]),
        decreases hi,
    {
        hi = hi - 1;
    }
    proof {
        let t = cs@.skip(lo as int);
        assert forall|i: int| hi - lo <= i < t.len() implies is_white(t[i]) by {
            assert(t[i] == cs@[i + lo]);
        }
        lemma_trim_end(t, hi - lo);
        assert(t.take(hi - lo) =~= cs@.subrange(lo as int, hi as int));
    }
    string_of(&cs, lo, hi)
}

/// `s` without the occurrences of `c` that it starts with.
pub fn stripped_leading(s: &str, c: char) -> (r: String)
    ensures
        r@ == strip_leading(s@, c),
{
    let cs = chars_of(s);
    let mut lo: usize = 0;
    while lo < cs.len() && cs[lo] == c
        invariant
            lo <= cs.len(),
            forall|i: int| 0 <= i < lo ==> cs@[i] == c,
        decreases cs.len() - lo,
    {
        lo = lo + 1;
    }
    proof {
        lemma_strip_leading(cs@, c, lo as int);
        assert(cs@.skip(lo as int) =~= cs@.subrange(lo as int, cs@.len() as int));
    }
    string_of(&cs, lo, cs.len())
}

/// `s` without the occurrences of `c` that it ends with.
pub fn stripped_trailing(s: &str, c: char) -> (r: String)
    ensures
        r@ == strip_trailing(s@, c),
{
    let cs = chars_of(s);
    let mut hi: usize = cs.len();
    while hi > 0 && cs[hi - 1] == c
        invariant
            hi <= cs.len(),
            forall|i: int| hi <= i < cs.len() ==> cs@[i] == c,
        decreases hi,
    {
        hi = hi - 1;
    }
    proof {
        lemma_strip_trailing(cs@, c, hi as int);
        assert(cs@.take(hi as int) =~= cs@.subrange(0, hi as int));
    }
    string_of(&cs, 0, hi)
}

// ---------------------------------------------------------------------------
// Prefixes and suffixes
// ---------------------------------------------------------------------------

/// `s` starts with `p`.
pub open spec fn has_prefix(s: Seq<char>, p: Seq<char>) -> bool {
    p.len() <= s.len() && s.take(p.len() as int) == p
}

/// `s` ends with `p`.
pub open spec fn has_suffix(s: Seq<char>, p: Seq<char>) -> bool {
    p.len() <= s.len() && s.skip(s.len() - p.len()) == p
}

/// Whether the characters of `p` stand in `cs` from `at` on.
pub fn stands_at(cs: &Vec<char>, at: usize, p: &Vec<char>) -> (r: bool)
    requires
        at <= cs.len(),
    ensures
        r == (p.len() <= cs.len() - at && cs@.subrange(at as int, at + p.len()) == p@),
{
    if p.len() > cs.len() - at {
        return false;
    }
    let mut i: usize = 0;
    while i < p.len()
        invariant
            i <= p.len(),
            at <= cs.len(),
            p.len() <= cs.len() - at,
            forall|j: int| 0 <= j < i ==> cs@[at + j] == p@[j],
        decreases p.len() - i,
    {
        if cs[at + i] != p[i] {
            assert(cs@.subrange(at as int, at + p.len())[i as int] != p@[i as int]);
            return false;
        }
        i = i + 1;
    }
    proof {
        assert(cs@.subrange(at as int, at + p.len()) =~= p@);
    }
    true
}

/// Whether `s` starts with `p`.
pub fn begins(s: &str, p: &str) -> (r: bool)
    ensures
        r == has_prefix(s@, p@),
{
    let cs = chars_of(s);
    let ps = chars_of(p);
    proof {
        if p@.len() <= s@.len() {
            assert(s@.subrange(0, p@.len() as int) =~= s@.take(p@.len() as int));
        }
    }
    stands_at(&cs, 0, &ps)
}

/// Whether `s` ends with `p`.
pub fn ends(s: &str, p: &str) -> (r: bool)
    ensures
        r == has_suffix(s@, p@),
{
    let cs = chars_of(s);
    let ps = chars_of(p);
    if ps.len() > cs.len() {
        return false;
    }
    proof {
        assert(s@.subrange(s@.len() - p@.len(), s@.len() as int) =~= s@.skip(s@.len() - p@.len()));
    }
    stands_at(&cs, cs.len() - ps.len(), &ps)
}

/// `s` without its first `n` characters.
pub fn dropped(s: &str, n: usize) -> (r: String)
    requires
        n <= s@.len(),
    ensures
        r@ == s@.skip(n as int),
{
    let cs = chars_of(s);
    proof {
        assert(s@.skip(n as int) =~= s@.subrange(n as int, s@.len() as int));
    }
    string_of(&cs, n, cs.len())
}

// ---------------------------------------------------------------------------
// Lines and lists
// ---------------------------------------------------------------------------

/// A line that ended in a line feed, without a carriage return before it.
pub open spec fn unterminated(s: Seq<char>) -> Seq<char> {
    if s.len() > 0 && s.last() == '\r' {
        s.drop_last()
    } else {
        s
    }
}

/// The lines of `s`: each ends at a line feed, which is dropped together with
/// a carriage return before it. Text after the last line feed is a line of its
/// own, unless it is empty.
pub open spec fn lines(s: Seq<char>) -> Seq<Seq<char>>
    decreases s.len(),
{
    let k = first_index(s, '\n') as int;
    if s.len() == 0 {
        seq![]
    } else if k < s.len() {
        seq![unterminated(s.take(k))] + lines(s.skip(k + 1))
    } else {
        seq![s]
    }
}

fn next_line_feed(cs: &Vec<char>, at: usize) -> (r: usize)
    requires
        at <= cs.len(),
    ensures
        at <= r <= cs.len(),
        r - at == first_index(cs@.skip(at as int), '\n'),
{
    let mut i: usize = at;
    while i < cs.len() && cs[i] != '\n'
        invariant
            at <= i <= cs.len(),
            forall|j: int| at <= j < i ==> cs@[j] != '\n',
        decreases cs.len() - i,
    {
        i = i + 1;
    }
    proof {
        let t = cs@.skip(at as int);
        assert forall|j: int| 0 <= j < i - at implies t[j] != '\n' by {
            assert(t[j] == cs@[j + at]);
        }
        lemma_first_index(t, '\n', i - at);
    }
    i
}

/// The lines of `s`.
pub fn lines_of(s: &str) -> (r: Vec<String>)
    ensures
        texts(r@) == lines(s@),
{
    let cs = chars_of(s);
    let mut out: Vec<String> = Vec::new();
    let mut at: usize = 0;
    proof {
        assert(cs@.skip(0) =~= s@);
        assert(texts(out@) + lines(s@) =~= lines(s@));
    }
    while at < cs.len()
        invariant
            at <= cs.len(),
            texts(out@) + lines(cs@.skip(at as int)) == lines(s@),
        decreases cs.len() - at,
    {
        let k: usize = next_line_feed(&cs, at);
        let ghost rest = cs@.skip(at as int);
        let ghost before = out@;
        if k < cs.len() {
            let hi: usize = if k > at && cs[k - 1] == '\r' {
                k - 1
            } else {
                k
            };
            let line = string_of(&cs, at, hi);
            proof {
                assert(rest.take(k - at) =~= cs@.subrange(at as int, k as int));
                assert(unterminated(rest.take(k - at)) =~= line@);
                assert(rest.skip(k - at + 1) =~= cs@.skip(k + 1));
            }
            out.push(line);
            proof {
                assert(texts(out@) =~= texts(before).push(line@));
                assert(texts(before) + (seq![line@] + lines(cs@.skip(k + 1))) =~= texts(out@)
                    + lines(cs@.skip(k + 1)));
            }
            at = k + 1;
        } else {
            let line = string_of(&cs, at, k);
            proof {
                assert(rest =~= line@);
                assert(cs@.skip(k as int) =~= seq![]);
            }
            out.push(line);
            proof {
                assert(texts(out@) =~= texts(before).push(line@));
                assert(texts(before) + seq![line@] =~= texts(out@) + lines(cs@.skip(k as int)));
            }
            at = k;
        }
    }
    proof {
        assert(cs@.skip(at as int) =~= seq![]);
        assert(texts(out@) + lines(cs@.skip(at as int)) =~= texts(out@));
    }
    out
}

/// The pieces in order, with `sep` between each two of them.
pub open spec fn join(parts: Seq<Seq<char>>, sep: Seq<char>) -> Seq<char>
    decreases parts.len(),
{
    if parts.len() == 0 {
        seq![]
    } else if parts.len() == 1 {
        parts[0]
    } else {
        join(parts.drop_last(), sep) + sep + parts.last()
    }
}

/// The pieces in order, with `sep` between each two of them.
pub fn joined(parts: &Vec<String>, sep: &str) -> (r: String)
    ensures
        r@ == join(texts(parts@), sep@),
{
    let mut out = String::new();
    let mut i: usize = 0;
    proof {
        assert(texts(parts@).take(0) =~= seq![]);
    }
    while i < parts.len()
        invariant
            i <= parts.len(),
            out@ == join(texts(parts@).take(i as int), sep@),
        decreases parts.len() - i,
    {
        let ghost done = texts(parts@).take(i + 1);
        proof {
            assert(done.drop_last() =~= texts(parts@).take(i as int));
            assert(done.last() == parts@[i as int]@);
            assert(seq![] + parts@[0]@ =~= parts@[0]@);
        }
        if i > 0 {
            out.append(sep);
        }
        out.append(parts[i].as_str());
        i = i + 1;
    }
    proof {
        assert(texts(parts@).take(parts@.len() as int) =~= texts(parts@));
    }
    out
}


// ---------------------------------------------------------------------------
// Words
// ---------------------------------------------------------------------------

/// The words of `s`: its longest stretches without a blank, in order.
pub open spec fn words(s: Seq<char>) -> Seq<Seq<char>>
    decreases s.len(),
{
    if s.len() == 0 {
        seq![]
    } else {
        let before = words(s.drop_last());
        if is_white(s.last()) {
            before
        } else if s.len() == 1 || is_white(s[s.len() - 2]) {
            before.push(seq![s.last()])
        } else {
            before.drop_last().push(before.last().push(s.last()))
        }
    }
}

proof fn lemma_words_nonempty(s: Seq<char>)
    requires
        s.len() > 0,
        !is_white(s.last()),
    ensures
        words(s).len() > 0,
{
}

/// The words of `s`.
pub fn words_of(s: &str) -> (r: Vec<String>)
    ensures
        texts(r@) == words(s@),
{
    let cs = chars_of(s);
    let mut out: Vec<String> = Vec::new();
    let mut i: usize = 0;
    proof {
        assert(texts(out@) =~= words(cs@.take(0)));
    }
    while i < cs.len()
        invariant
            i <= cs.len(),
            texts(out@) == words(cs@.take(i as int)),
        decreases cs.len() - i,
    {
        let c: char = cs[i];
        let ghost now = cs@.take(i + 1);
        let ghost before = out@;
        proof {
            assert(now.drop_last() =~= cs@.take(i as int));
            assert(now.last() == c);
            if i > 0 {
                assert(now[now.len() - 2] == cs@[i - 1]);
                assert(cs@.take(i as int).last() == cs@[i - 1]);
            }
        }
        if !white(c) {
            if i == 0 || white(cs[i - 1]) {
                let mut word = String::new();
                word.push(c);
                proof {
                    assert(word@ =~= seq![c]);
                }
                out.push(word);
                proof {
                    assert(texts(out@) =~= texts(before).push(seq![c]));
                }
            } else {
                proof {
                    lemma_words_nonempty(cs@.take(i as int));
                    assert(out@.len() == texts(out@).len());
                }
                let mut word = out.pop().unwrap();
                word.push(c);
                out.push(word);
                proof {
                    assert(texts(out@) =~= texts(before).drop_last().push(
                        texts(before).last().push(c),
                    ));
                }
            }
        }
        i = i + 1;
    }
    proof {
        assert(cs@.take(cs@.len() as int) =~= s@);
    }
    out
}

// ---------------------------------------------------------------------------
// Numbers in text
// ---------------------------------------------------------------------------

/// The value of a sequence of decimal digits.
pub open spec fn value(s: Seq<char>) -> nat
    decreases s.len(),
{
    if s.len() == 0 {
        0
    } else {
        value(s.drop_last()) * 10 + (s.last() as nat - 48) as nat
    }
}

/// `s` without a leading plus sign.
pub open spec fn unsigned(s: Seq<char>) -> Seq<char> {
    if s.len() > 0 && s[0] == '+' {
        s.skip(1)
    } else {
        s
    }
}

/// The number that `s` writes: an optional plus sign and decimal digits, with a
/// value of at most `max`.
pub open spec fn number_in(s: Seq<char>, max: nat) -> Option<nat> {
    let digits = unsigned(s);
    if digits.len() > 0 && all_digits(digits) && value(digits) <= max {
        Some(value(digits))
    } else {
        None
    }
}

proof fn lemma_value_grows(s: Seq<char>, k: int)
    requires
        0 <= k <= s.len(),
    ensures
        value(s.take(k)) <= value(s),
    decreases s.len() - k,
{
    if k < s.len() {
        lemma_value_grows(s, k + 1);
        assert(s.take(k + 1).drop_last() =~= s.take(k));
    } else {
        assert(s.take(k) =~= s);
    }
}

/// The number of at most `max` that `s` writes.
pub fn parse_number(s: &str, max: u32) -> (r: Option<u32>)
    ensures
        r is Some <==> number_in(s@, max as nat) is Some,
        r matches Some(n) ==> number_in(s@, max as nat) == Some(n as nat),
{
    let cs = chars_of(s);
    let start: usize = if cs.len() > 0 && cs[0] == '+' {
        1
    } else {
        0
    };
    let ghost digits = cs@.skip(start as int);
    proof {
        if start == 0 {
            assert(digits =~= cs@);
        }
    }
    if start == cs.len() {
        return None;
    }
    let mut n: u64 = 0;
    let mut i: usize = start;
    while i < cs.len()
        invariant
            start <= i <= cs.len(),
            start <= 1,
            digits == cs@.skip(start as int),
            digits == unsigned(s@),
            digits.len() > 0,
            forall|j: int| 0 <= j < i - start ==> is_digit(#[trigger] digits[j]),
            n == value(digits.take(i - start)),
            n <= max,
        decreases cs.len() - i,
    {
        let c: char = cs[i];
        proof {
            assert(digits[i - start] == c);
        }
        if !('0' <= c && c <= '9') {
            assert(!is_digit(digits[i - start]));
            return None;
        }
        proof {
            assert(digits.take(i + 1 - start).drop_last() =~= digits.take(i - start));
            lemma_value_grows(digits, i + 1 - start);
        }
        n = n * 10 + (c as u64 - 48);
        if n > max as u64 {
            return None;
        }
        i = i + 1;
    }
    proof {
        assert(digits.take(digits.len() as int) =~= digits);
    }
    Some(n as u32)
}

/// What follows the last `c` in `s`; all of it where there is none.
pub open spec fn after_last(s: Seq<char>, c: char) -> Seq<char>
    decreases s.len(),
{
    if s.len() == 0 || s.last() == c {
        seq![]
    } else {
        after_last(s.drop_last(), c).push(s.last())
    }
}

proof fn lemma_after_last(s: Seq<char>, c: char, k: int)
    requires
        0 <= k <= s.len(),
        forall|i: int| k <= i < s.len() ==> s[i] != c,
        k > 0 ==> s[k - 1] == c,
    ensures
        after_last(s, c) == s.skip(k),
    decreases s.len() - k,
{
    if k < s.len() {
        lemma_after_last(s.drop_last(), c, k);
        assert(s.skip(k) =~= s.drop_last().skip(k).push(s.last()));
    } else {
        assert(s.skip(k) =~= seq![]);
    }
}

/// What follows the last `c` in `s`; all of it where there is none.
pub fn tail_after(s: &str, c: char) -> (r: String)
    ensures
        r@ == after_last(s@, c),
{
    let cs = chars_of(s);
    let mut k: usize = cs.len();
    while k > 0 && cs[k - 1] != c
        invariant
            k <= cs.len(),
            forall|i: int| k <= i < cs.len() ==> cs@[i] != c,
        decreases k,
    {
        k = k - 1;
    }
    proof {
        lemma_after_last(cs@, c, k as int);
        assert(cs@.skip(k as int) =~= cs@.subrange(k as int, cs@.len() as int));
    }
    string_of(&cs, k, cs.len())
}

/// `s` cut to `max` characters, the last three of them dots where there is
/// room for more than three.
pub open spec fn truncated(s: Seq<char>, max: nat) -> Seq<char> {
    if s.len() <= max {
        s
    } else if max > 3 {
        s.take(max - 3) + "..."@
    } else {
        s.take(max as int)
    }
}

/// Truncates a string to `max` characters, appending "..." if truncated.
pub fn truncate(s: &str, max: usize) -> (r: String)
    ensures
        r@ == truncated(s@, max as nat),
{
    let cs = chars_of(s);
    if cs.len() <= max {
        s.to_owned()
    } else if max > 3 {
        proof {
            assert(cs@.subrange(0, max - 3) =~= cs@.take(max - 3));
        }
        let mut out = string_of(&cs, 0, max - 3);
        out.append("...");
        out
    } else {
        proof {
            assert(cs@.subrange(0, max as int) =~= cs@.take(max as int));
        }
        string_of(&cs, 0, max)
    }
}

/// A truncated string has at most `max` characters.
pub proof fn law_truncated_is_short(s: Seq<char>, max: nat)
    ensures
        truncated(s, max).len() <= max,
{
    reveal_strlit("...");
}


// ---------------------------------------------------------------------------
// Searching
// ---------------------------------------------------------------------------

/// `part` stands somewhere in `s`.
pub open spec fn contains_text(s: Seq<char>, part: Seq<char>) -> bool {
    exists|i: int|
        0 <= i && i + part.len() <= s.len() && #[trigger] s.subrange(i, i + part.len()) == part
}

/// Whether `part` stands somewhere in `s`.
pub fn has_text(s: &str, part: &str) -> (r: bool)
    ensures
        r == contains_text(s@, part@),
{
    let cs = chars_of(s);
    let ps = chars_of(part);
    if ps.len() > cs.len() {
        return false;
    }
    let last: usize = cs.len() - ps.len();
    let mut i: usize = 0;
    while i <= last
        invariant
            cs@ == s@,
            ps@ == part@,
            ps.len() <= cs.len(),
            last == cs.len() - ps.len(),
            i <= last + 1,
            forall|j: int| 0 <= j < i ==> #[trigger] s@.subrange(j, j + ps.len()) != part@,
        decreases last + 1 - i,
    {
        if stands_at(&cs, i, &ps) {
            assert(s@.subrange(i as int, i + part@.len()) == part@);
            return true;
        }
        if i == last {
            assert forall|j: int|
                0 <= j && j + part@.len() <= s@.len() implies #[trigger] s@.subrange(
                j,
                j + part@.len(),
            ) != part@ by {}
            return false;
        }
        i = i + 1;
    }
    false
}

// ---------------------------------------------------------------------------
// Laws
// ---------------------------------------------------------------------------

/// The blanks of ASCII are white space; no other character from the exclamation
/// mark to the tilde is, and no letter or digit.
pub proof fn law_visible_characters_are_not_white(c: char)
    ensures
        '!' <= c <= '~' ==> !is_white(c),
        c == ' ' || c == '\t' || c == '\n' || c == '\r' ==> is_white(c),
{
}

proof fn lemma_leading_blanks(s: Seq<char>) -> (k: int)
    ensures
        0 <= k <= s.len(),
        forall|i: int| 0 <= i < k ==> is_white(#[trigger] s[i]),
        k < s.len() ==> !is_white(s[k]),
        trim_start(s) == s.skip(k),
    decreases s.len(),
{
    if s.len() > 0 && is_white(s[0]) {
        let t = s.skip(1);
        let k = lemma_leading_blanks(t);
        assert forall|i: int| 0 <= i < k + 1 implies is_white(#[trigger] s[i]) by {
            if i > 0 {
                assert(s[i] == t[i - 1]);
            }
        }
        assert(t.skip(k) =~= s.skip(k + 1));
        k + 1
    } else {
        assert(s.skip(0) =~= s);
        0
    }
}

proof fn lemma_trailing_blanks(s: Seq<char>) -> (k: int)
    ensures
        0 <= k <= s.len(),
        forall|i: int| k <= i < s.len() ==> is_white(#[trigger] s[i]),
        k > 0 ==> !is_white(s[k - 1]),
        trim_end(s) == s.take(k),
    decreases s.len(),
{
    if s.len() > 0 && is_white(s.last()) {
        let t = s.drop_last();
        let k = lemma_trailing_blanks(t);
        assert forall|i: int| k <= i < s.len() implies is_white(#[trigger] s[i]) by {
            if i < t.len() {
                assert(s[i] == t[i]);
            }
        }
        assert(t.take(k) =~= s.take(k));
        k
    } else {
        assert(s.take(s.len() as int) =~= s);
        s.len() as int
    }
}

/// Every character is a blank.
pub open spec fn all_white(s: Seq<char>) -> bool {
    forall|i: int| 0 <= i < s.len() ==> is_white(#[trigger] s[i])
}

/// Trimming takes blanks off both ends, and nothing else: a text is blanks, what
/// is left of it, and blanks.
pub proof fn law_trimming_takes_blanks_alone(s: Seq<char>) -> (r: (Seq<char>, Seq<char>))
    ensures
        s == r.0 + trim(s) + r.1,
        all_white(r.0),
        all_white(r.1),
        trim(s).len() > 0 ==> !is_white(trim(s)[0]) && !is_white(trim(s).last()),
        trim(s).len() == 0 <==> all_white(s),
{
    let lo = lemma_leading_blanks(s);
    let t = s.skip(lo);
    let hi = lemma_trailing_blanks(t);
    let before = s.take(lo);
    let after = t.skip(hi);
    assert(s =~= before + trim(s) + after);
    assert forall|i: int| 0 <= i < after.len() implies is_white(#[trigger] after[i]) by {
        assert(after[i] == t[hi + i]);
    }
    if hi > 0 {
        assert(trim(s)[0] == s[lo]);
        assert(trim(s).last() == t[hi - 1]);
    } else {
        assert forall|i: int| 0 <= i < s.len() implies is_white(#[trigger] s[i]) by {
            if i >= lo {
                assert(s[i] == t[i - lo]);
            }
        }
    }
    if all_white(s) && hi > 0 {
        assert(is_white(s[lo]));
    }
    (before, after)
}

/// Blanks around a text that has none at its ends come off again.
pub proof fn law_trimming_undoes_blanks(before: Seq<char>, s: Seq<char>, after: Seq<char>)
    requires
        all_white(before),
        all_white(after),
        s.len() > 0,
        !is_white(s[0]),
        !is_white(s.last()),
    ensures
        trim(before + s + after) == s,
{
    let whole = before + s + after;
    let lo = before.len() as int;
    assert forall|i: int| 0 <= i < lo implies is_white(#[trigger] whole[i]) by {
        assert(whole[i] == before[i]);
    }
    assert(whole[lo] == s[0]);
    lemma_trim_start(whole, lo);
    let t = whole.skip(lo);
    assert(t =~= s + after);
    assert forall|i: int| s.len() <= i < t.len() implies is_white(#[trigger] t[i]) by {
        assert(t[i] == after[i - s.len()]);
    }
    lemma_trim_end(t, s.len() as int);
    assert(t.take(s.len() as int) =~= s);
}

/// What has no blank at its ends stays as it is, and so does the empty text.
pub proof fn law_trimmed_text_stays(s: Seq<char>)
    requires
        s.len() > 0 ==> !is_white(s[0]) && !is_white(s.last()),
    ensures
        trim(s) == s,
{
    if s.len() > 0 {
        law_trimming_undoes_blanks(seq![], s, seq![]);
        assert(seq![] + s + seq![] =~= s);
    }
}

/// Trimming twice is trimming once.
pub proof fn law_trimming_is_idempotent(s: Seq<char>)
    ensures
        trim(trim(s)) == trim(s),
{
    let r = law_trimming_takes_blanks_alone(s);
    law_trimmed_text_stays(trim(s));
}

/// What is taken off at the beginning is one character, again and again.
pub proof fn law_stripping_takes_one_character_alone(s: Seq<char>, c: char)
    ensures
        strip_leading(s, c).len() <= s.len(),
        strip_leading(s, c) == s.skip(s.len() - strip_leading(s, c).len()),
        forall|i: int| 0 <= i < s.len() - strip_leading(s, c).len() ==> s[i] == c,
        strip_leading(s, c).len() > 0 ==> strip_leading(s, c)[0] != c,
    decreases s.len(),
{
    if s.len() > 0 && s[0] == c {
        let t = s.skip(1);
        law_stripping_takes_one_character_alone(t, c);
        let r = strip_leading(t, c);
        assert(r =~= s.skip(s.len() - r.len()));
        assert forall|i: int| 0 <= i < s.len() - r.len() implies s[i] == c by {
            if i > 0 {
                assert(s[i] == t[i - 1]);
            }
        }
    } else {
        assert(s.skip(0) =~= s);
    }
}

/// The same at the end.
pub proof fn law_stripping_the_end_takes_one_character_alone(s: Seq<char>, c: char)
    ensures
        strip_trailing(s, c).len() <= s.len(),
        strip_trailing(s, c) == s.take(strip_trailing(s, c).len() as int),
        forall|i: int| strip_trailing(s, c).len() <= i < s.len() ==> s[i] == c,
        strip_trailing(s, c).len() > 0 ==> strip_trailing(s, c).last() != c,
    decreases s.len(),
{
    if s.len() > 0 && s.last() == c {
        let t = s.drop_last();
        law_stripping_the_end_takes_one_character_alone(t, c);
        let r = strip_trailing(t, c);
        assert(r =~= s.take(r.len() as int));
        assert forall|i: int| r.len() <= i < s.len() implies s[i] == c by {
            if i < t.len() {
                assert(s[i] == t[i]);
            }
        }
    } else {
        assert(s.take(s.len() as int) =~= s);
    }
}

/// The first line of a text ends at its first line feed; the rest of the text
/// gives the other lines.
pub proof fn law_lines_end_at_line_feeds(first: Seq<char>, rest: Seq<char>)
    requires
        forall|i: int| 0 <= i < first.len() ==> first[i] != '\n',
        first.len() > 0 ==> first.last() != '\r',
    ensures
        lines(first + seq!['\n'] + rest) == seq![first] + lines(rest),
        lines(first + seq!['\r', '\n'] + rest) == seq![first] + lines(rest),
        first.len() > 0 ==> lines(first) == seq![first],
        lines(Seq::<char>::empty()) == Seq::<Seq<char>>::empty(),
{
    let a = first + seq!['\n'] + rest;
    let k = first.len() as int;
    assert forall|i: int| 0 <= i < k implies a[i] != '\n' by {
        assert(a[i] == first[i]);
    }
    assert(a[k] == '\n');
    lemma_first_index(a, '\n', k);
    assert(a.take(k) =~= first);
    assert(a.skip(k + 1) =~= rest);
    let b = first + seq!['\r', '\n'] + rest;
    assert forall|i: int| 0 <= i < k + 1 implies b[i] != '\n' by {
        if i < k {
            assert(b[i] == first[i]);
        } else {
            assert(b[i] == '\r');
        }
    }
    assert(b[k + 1] == '\n');
    lemma_first_index(b, '\n', k + 1);
    assert(b.take(k + 1) =~= first.push('\r'));
    assert(unterminated(first.push('\r')) =~= first);
    assert(b.skip(k + 2) =~= rest);
    if k > 0 {
        lemma_first_index(first, '\n', k);
    }
}

/// No line holds a line feed.
pub proof fn law_no_line_holds_a_line_feed(s: Seq<char>, i: int, j: int)
    requires
        0 <= i < lines(s).len(),
        0 <= j < lines(s)[i].len(),
    ensures
        lines(s)[i][j] != '\n',
    decreases s.len(),
{
    let k = first_index(s, '\n') as int;
    lemma_before_first_index(s, '\n');
    if s.len() > 0 && k < s.len() {
        if i > 0 {
            assert(lines(s)[i] == lines(s.skip(k + 1))[i - 1]);
            law_no_line_holds_a_line_feed(s.skip(k + 1), i - 1, j);
        } else {
            assert(lines(s)[0] == unterminated(s.take(k)));
            assert(lines(s)[0][j] == s[j]);
        }
    }
}

proof fn lemma_before_first_index(s: Seq<char>, c: char)
    ensures
        first_index(s, c) <= s.len(),
        forall|i: int| 0 <= i < first_index(s, c) ==> s[i] != c,
        first_index(s, c) < s.len() ==> s[first_index(s, c) as int] == c,
    decreases s.len(),
{
    if s.len() > 0 && s[0] != c {
        let t = s.skip(1);
        lemma_before_first_index(t, c);
        assert forall|i: int| 0 <= i < first_index(s, c) implies s[i] != c by {
            if i > 0 {
                assert(s[i] == t[i - 1]);
            }
        }
    }
}

/// The position of a character is that of its first occurrence.
pub proof fn law_the_first_occurrence_is_found(s: Seq<char>, c: char)
    ensures
        first_index(s, c) <= s.len(),
        forall|i: int| 0 <= i < first_index(s, c) ==> s[i] != c,
        first_index(s, c) < s.len() ==> s[first_index(s, c) as int] == c,
{
    lemma_before_first_index(s, c);
}

/// Lists that are joined one after the other make the list of both: the texts
/// stand in their order, with the separator between each two.
pub proof fn law_joining_keeps_every_part(a: Seq<Seq<char>>, b: Seq<Seq<char>>, sep: Seq<char>)
    ensures
        join(Seq::<Seq<char>>::empty(), sep) == Seq::<char>::empty(),
        a.len() > 0 && b.len() > 0 ==> join(a + b, sep) == join(a, sep) + sep + join(b, sep),
        a.len() == 1 ==> join(a, sep) == a[0],
    decreases b.len(),
{
    if a.len() > 0 && b.len() > 0 {
        let both = a + b;
        assert(both.drop_last() =~= a + b.drop_last());
        assert(both.last() == b.last());
        if b.len() == 1 {
            assert(a + b.drop_last() =~= a);
        } else {
            law_joining_keeps_every_part(a, b.drop_last(), sep);
            assert(join(both, sep) =~= join(a, sep) + sep + join(b, sep));
        }
    }
}

/// A joined text holds each of its parts.
pub proof fn law_a_joined_text_holds_its_parts(parts: Seq<Seq<char>>, sep: Seq<char>, i: int)
    requires
        0 <= i < parts.len(),
    ensures
        holds(join(parts, sep), parts[i]),
    decreases parts.len(),
{
    broadcast use lemma_holds_itself, lemma_holds_in_both;

    if parts.len() > 1 && i < parts.len() - 1 {
        law_a_joined_text_holds_its_parts(parts.drop_last(), sep, i);
    }
}

/// A text that is not too long is kept whole; of another one the beginning is
/// kept, and dots say so.
pub proof fn law_truncating_keeps_the_beginning(s: Seq<char>, max: nat)
    ensures
        s.len() <= max ==> truncated(s, max) == s,
        s.len() > max ==> truncated(s, max).len() == max,
        s.len() > max > 3 ==> truncated(s, max).take(max - 3) == s.take(max - 3) && forall|i: int|
            max - 3 <= i < max ==> truncated(s, max)[i] == '.',
        s.len() > max && max <= 3 ==> truncated(s, max) == s.take(max as int),
{
    reveal_strlit("...");
    if s.len() > max && max > 3 {
        assert(truncated(s, max).take(max - 3) =~= s.take(max - 3));
    }
}

/// The texts one after the other.
pub open spec fn run_together(parts: Seq<Seq<char>>) -> Seq<char>
    decreases parts.len(),
{
    if parts.len() == 0 {
        seq![]
    } else {
        run_together(parts.drop_last()) + parts.last()
    }
}

/// `s` without its blanks.
pub open spec fn without_blanks(s: Seq<char>) -> Seq<char>
    decreases s.len(),
{
    if s.len() == 0 {
        seq![]
    } else if is_white(s.last()) {
        without_blanks(s.drop_last())
    } else {
        without_blanks(s.drop_last()).push(s.last())
    }
}

/// The words of a text hold all its characters but the blanks, in their order.
pub proof fn law_words_hold_all_but_blanks(s: Seq<char>)
    ensures
        run_together(words(s)) == without_blanks(s),
    decreases s.len(),
{
    if s.len() > 0 {
        let t = s.drop_last();
        law_words_hold_all_but_blanks(t);
        let w = words(t);
        if !is_white(s.last()) {
            if s.len() == 1 || is_white(s[s.len() - 2]) {
                assert(words(s).drop_last() =~= w);
                assert(run_together(words(s)) =~= without_blanks(s));
            } else {
                lemma_words_nonempty(t);
                assert(words(s).drop_last() =~= w.drop_last());
                assert(words(s).last() == w.last().push(s.last()));
                assert(run_together(words(s)) =~= run_together(w).push(s.last()));
            }
        }
    }
}

/// A word is not empty and holds no blank.
pub proof fn law_words_hold_no_blank(s: Seq<char>, i: int)
    requires
        0 <= i < words(s).len(),
    ensures
        words(s)[i].len() > 0,
        forall|j: int| 0 <= j < words(s)[i].len() ==> !is_white(#[trigger] words(s)[i][j]),
    decreases s.len(),
{
    let t = s.drop_last();
    let w = words(t);
    if is_white(s.last()) {
        law_words_hold_no_blank(t, i);
    } else if s.len() == 1 || is_white(s[s.len() - 2]) {
        if i < w.len() {
            law_words_hold_no_blank(t, i);
        }
    } else {
        lemma_words_nonempty(t);
        law_words_hold_no_blank(t, i);
        assert forall|j: int| 0 <= j < words(s)[i].len() implies !is_white(
            #[trigger] words(s)[i][j],
        ) by {
            if j < w[i].len() {
                assert(words(s)[i][j] == w[i][j]);
            }
        }
    }
}

/// What follows the last occurrence of a character holds it no more, and stands
/// at the end, right behind it.
pub proof fn law_the_end_follows_the_last_occurrence(s: Seq<char>, c: char)
    ensures
        after_last(s, c).len() <= s.len(),
        after_last(s, c) == s.skip(s.len() - after_last(s, c).len()),
        forall|i: int| 0 <= i < after_last(s, c).len() ==> after_last(s, c)[i] != c,
        after_last(s, c).len() < s.len() ==> s[s.len() - after_last(s, c).len() - 1] == c,
    decreases s.len(),
{
    if s.len() > 0 && s.last() != c {
        let t = s.drop_last();
        law_the_end_follows_the_last_occurrence(t, c);
        assert(after_last(s, c) =~= s.skip(s.len() - after_last(s, c).len()));
    } else {
        assert(s.skip(s.len() as int) =~= seq![]);
    }
}

/// Occurrences add up over two texts, and a character occurs once in itself.
pub proof fn law_occurrences_add_up(a: Seq<char>, b: Seq<char>, c: char, d: char)
    ensures
        occurrences(a + b, c) == occurrences(a, c) + occurrences(b, c),
        occurrences(seq![d], c) == (if c == d {
            1nat
        } else {
            0nat
        }),
        occurrences(Seq::<char>::empty(), c) == 0,
    decreases b.len(),
{
    assert(seq![d].drop_last() =~= seq![]);
    assert(occurrences(seq![d].drop_last(), c) == 0);
    if b.len() == 0 {
        assert(a + b =~= a);
    } else {
        law_occurrences_add_up(a, b.drop_last(), c, d);
        assert((a + b).drop_last() =~= a + b.drop_last());
    }
}

/// A number that was written in decimal reads back as itself, and is refused
/// exactly where it is too large.
pub proof fn law_written_numbers_read_back(n: nat, max: nat)
    ensures
        value(dec(n)) == n,
        all_digits(dec(n)),
        dec(n).len() > 0,
        number_in(dec(n), max) == (if n <= max {
            Some(n)
        } else {
            None
        }),
        number_in(seq!['+'] + dec(n), max) == number_in(dec(n), max),
    decreases n,
{
    if n < 10 {
        let s = seq![digit(n)];
        assert(s.drop_last() =~= seq![]);
        assert(value(s.drop_last()) == 0);
        assert(digit(n) as nat == 48 + n);
    } else {
        law_written_numbers_read_back(n / 10, max);
        let s = dec(n);
        assert(s.drop_last() =~= dec(n / 10));
        assert(digit(n % 10) as nat == 48 + n % 10);
        assert forall|i: int| 0 <= i < s.len() implies is_digit(#[trigger] s[i]) by {
            if i < s.len() - 1 {
                assert(s[i] == dec(n / 10)[i]);
            }
        }
    }
    assert(is_digit(dec(n)[0]));
    assert((seq!['+'] + dec(n)).skip(1) =~= dec(n));
}

/// A text with anything but digits behind an optional plus sign is no number.
pub proof fn law_other_text_is_no_number(s: Seq<char>, i: int, max: nat)
    requires
        0 <= i < s.len(),
        !('0' <= s[i] <= '9'),
        i > 0 || s[i] != '+',
    ensures
        number_in(s, max) is None,
        number_in(Seq::<char>::empty(), max) is None,
        number_in(seq!['+'], max) is None,
{
    let d = unsigned(s);
    if s[0] == '+' {
        assert(d[i - 1] == s[i]);
        assert(!is_digit(d[i - 1]));
    } else {
        assert(!is_digit(d[i]));
    }
    assert(seq!['+'].skip(1) =~= seq![]);
}

/// A blank parts words: those before it and those after it are the words of the
/// whole text. A text without blanks is one word.
pub proof fn law_blanks_part_words(a: Seq<char>, blank: char, b: Seq<char>)
    requires
        is_white(blank),
    ensures
        words(a + seq![blank] + b) == words(a) + words(b),
    decreases b.len(),
{
    let whole = a + seq![blank] + b;
    if b.len() == 0 {
        assert(whole.drop_last() =~= a);
        assert(words(a) + words(b) =~= words(a));
    } else {
        let c = b.drop_last();
        law_blanks_part_words(a, blank, c);
        assert(whole.drop_last() =~= a + seq![blank] + c);
        if !is_white(b.last()) {
            if b.len() == 1 {
                assert(words(c).len() == 0);
                assert(whole[whole.len() - 2] == blank);
                assert(words(whole) =~= words(a) + words(b));
            } else {
                assert(whole[whole.len() - 2] == b[b.len() - 2]);
                if !is_white(b[b.len() - 2]) {
                    lemma_words_nonempty(c);
                    let before = words(a) + words(c);
                    assert(before.last() == words(c).last());
                    assert(before.drop_last() =~= words(a) + words(c).drop_last());
                }
                assert(words(whole) =~= words(a) + words(b));
            }
        }
    }
}

/// A text without blanks is one word.
pub proof fn law_text_without_blanks_is_one_word(s: Seq<char>)
    requires
        s.len() > 0,
        forall|i: int| 0 <= i < s.len() ==> !is_white(#[trigger] s[i]),
    ensures
        words(s) == seq![s],
    decreases s.len(),
{
    let t = s.drop_last();
    assert(!is_white(s.last()));
    if s.len() == 1 {
        assert(words(t).len() == 0);
        assert(seq![s.last()] =~= s);
        assert(words(s) =~= seq![s]);
    } else {
        assert forall|i: int| 0 <= i < t.len() implies !is_white(#[trigger] t[i]) by {
            assert(t[i] == s[i]);
        }
        law_text_without_blanks_is_one_word(t);
        assert(!is_white(s[s.len() - 2]));
        assert(t.push(s.last()) =~= s);
        assert(words(s) =~= seq![s]);
    }
}

} // verus!
