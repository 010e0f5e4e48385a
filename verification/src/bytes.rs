//! Lengths and cuts of text counted in UTF-8 bytes.

use vstd::prelude::*;

use crate::text::chars_of;
use crate::text::string_of;

verus! {

/// How many bytes UTF-8 spends on `c`.
pub open spec fn width(c: char) -> nat {
    if c <= '\u{7f}' {
        1
    } else if c <= '\u{7ff}' {
        2
    } else if c <= '\u{ffff}' {
        3
    } else {
        4
    }
}

/// How many bytes UTF-8 spends on `s`.
pub open spec fn byte_len(s: Seq<char>) -> nat
    decreases s.len(),
{
    if s.len() == 0 {
        0
    } else {
        byte_len(s.drop_last()) + width(s.last())
    }
}

/// The longest beginning of `s` that takes at most `n` bytes.
pub open spec fn byte_prefix(s: Seq<char>, n: nat) -> Seq<char>
    decreases s.len(),
{
    if byte_len(s) <= n || s.len() == 0 {
        s
    } else {
        byte_prefix(s.drop_last(), n)
    }
}

/// `n` bytes into `s` one character ends and the next begins.
pub open spec fn cuts_at(s: Seq<char>, n: nat) -> bool {
    byte_len(byte_prefix(s, n)) == n
}

proof fn lemma_byte_len_take(s: Seq<char>, k: int)
    requires
        0 <= k < s.len(),
    ensures
        byte_len(s.take(k + 1)) == byte_len(s.take(k)) + width(s[k]),
{
    assert(s.take(k + 1).drop_last() =~= s.take(k));
}

/// A longer beginning takes more bytes.
pub proof fn lemma_byte_len_grows(s: Seq<char>, j: int, k: int)
    requires
        0 <= j <= k <= s.len(),
    ensures
        byte_len(s.take(j)) + (k - j) <= byte_len(s.take(k)),
    decreases k - j,
{
    if j < k {
        lemma_byte_len_grows(s, j, k - 1);
        lemma_byte_len_take(s, k - 1);
    }
}

proof fn lemma_byte_prefix(s: Seq<char>, n: nat, k: int)
    requires
        0 <= k <= s.len(),
        byte_len(s.take(k)) <= n,
        k < s.len() ==> byte_len(s.take(k + 1)) > n,
    ensures
        byte_prefix(s, n) == s.take(k),
    decreases s.len(),
{
    if k == s.len() {
        assert(s.take(k) =~= s);
    } else {
        lemma_byte_len_grows(s, k + 1, s.len() as int);
        assert(s.take(s.len() as int) =~= s);
        let t = s.drop_last();
        assert(t.take(k) =~= s.take(k));
        if k < t.len() {
            assert(t.take(k + 1) =~= s.take(k + 1));
        }
        lemma_byte_prefix(t, n, k);
    }
}

/// Appending text adds its bytes.
pub proof fn lemma_byte_len_concat(a: Seq<char>, b: Seq<char>)
    ensures
        byte_len(a + b) == byte_len(a) + byte_len(b),
    decreases b.len(),
{
    if b.len() == 0 {
        assert(a + b =~= a);
    } else {
        lemma_byte_len_concat(a, b.drop_last());
        assert((a + b).drop_last() =~= a + b.drop_last());
    }
}

fn width_of(c: char) -> (r: usize)
    ensures
        r == width(c),
{
    if c <= '\u{7f}' {
        1
    } else if c <= '\u{7ff}' {
        2
    } else if c <= '\u{ffff}' {
        3
    } else {
        4
    }
}

/// Whether `s` takes more than `n` bytes.
pub fn exceeds(s: &str, n: usize) -> (r: bool)
    ensures
        r == (byte_len(s@) > n),
{
    let cs = chars_of(s);
    let mut used: usize = 0;
    let mut i: usize = 0;
    while i < cs.len()
        invariant
            i <= cs.len(),
            cs@ == s@,
            used == byte_len(cs@.take(i as int)),
            used <= n,
        decreases cs.len() - i,
    {
        let w: usize = width_of(cs[i]);
        proof {
            lemma_byte_len_take(cs@, i as int);
            lemma_byte_len_grows(cs@, i + 1, cs@.len() as int);
            assert(cs@.take(cs@.len() as int) =~= cs@);
        }
        if w > n - used {
            return true;
        }
        used = used + w;
        i = i + 1;
    }
    proof {
        assert(cs@.take(cs@.len() as int) =~= cs@);
    }
    false
}

/// How many bytes `s` takes.
pub fn bytes_in(s: &str) -> (r: usize)
    requires
        byte_len(s@) <= usize::MAX,
    ensures
        r == byte_len(s@),
{
    let cs = chars_of(s);
    let mut used: usize = 0;
    let mut i: usize = 0;
    while i < cs.len()
        invariant
            i <= cs.len(),
            byte_len(cs@) <= usize::MAX,
            used == byte_len(cs@.take(i as int)),
        decreases cs.len() - i,
    {
        proof {
            lemma_byte_len_take(cs@, i as int);
            lemma_byte_len_grows(cs@, i + 1, cs@.len() as int);
            assert(cs@.take(cs@.len() as int) =~= cs@);
        }
        used = used + width_of(cs[i]);
        i = i + 1;
    }
    proof {
        assert(cs@.take(cs@.len() as int) =~= cs@);
    }
    used
}

/// The longest beginning of `s` that takes at most `n` bytes.
pub fn first_bytes(s: &str, n: usize) -> (r: String)
    ensures
        r@ == byte_prefix(s@, n as nat),
{
    let cs = chars_of(s);
    let mut used: usize = 0;
    let mut i: usize = 0;
    while i < cs.len() && width_of(cs[i]) <= n - used
        invariant
            i <= cs.len(),
            used == byte_len(cs@.take(i as int)),
            used <= n,
        decreases cs.len() - i,
    {
        proof {
            lemma_byte_len_take(cs@, i as int);
        }
        used = used + width_of(cs[i]);
        i = i + 1;
    }
    proof {
        if i < cs@.len() {
            lemma_byte_len_take(cs@, i as int);
        }
        lemma_byte_prefix(cs@, n as nat, i as int);
        assert(cs@.take(i as int) =~= cs@.subrange(0, i as int));
    }
    string_of(&cs, 0, i)
}

/// `s`, or where it takes more than `max` bytes, its first `keep` bytes and
/// three dots.
pub open spec fn ellipsis(s: Seq<char>, max: nat, keep: nat) -> Seq<char> {
    if byte_len(s) > max {
        byte_prefix(s, keep) + "..."@
    } else {
        s
    }
}

/// `s`, or where it takes more than `max` bytes, its first `keep` bytes and
/// three dots.
pub fn shortened(s: &str, max: usize, keep: usize) -> (r: String)
    requires
        byte_len(s@) > max ==> cuts_at(s@, keep as nat),
    ensures
        r@ == ellipsis(s@, max as nat, keep as nat),
{
    if exceeds(s, max) {
        let mut out = first_bytes(s, keep);
        out.append("...");
        out
    } else {
        s.to_owned()
    }
}

/// The bytes of two texts add up; an ASCII character takes one byte, and no
/// character more than four.
pub proof fn law_bytes_add_up(a: Seq<char>, b: Seq<char>, c: char)
    ensures
        byte_len(a + b) == byte_len(a) + byte_len(b),
        byte_len(seq![c]) == width(c),
        1 <= width(c) <= 4,
        c <= '\u{7f}' ==> width(c) == 1,
    decreases b.len(),
{
    assert(seq![c].drop_last() =~= seq![]);
    assert(byte_len(seq![c].drop_last()) == 0);
    if b.len() == 0 {
        assert(a + b =~= a);
    } else {
        law_bytes_add_up(a, b.drop_last(), c);
        assert((a + b).drop_last() =~= a + b.drop_last());
    }
}

/// The first bytes of a text are its beginning, as long as fits; a text that fits
/// is kept whole.
pub proof fn law_first_bytes_are_the_beginning(s: Seq<char>, n: nat)
    ensures
        byte_prefix(s, n).len() <= s.len(),
        byte_prefix(s, n) == s.take(byte_prefix(s, n).len() as int),
        byte_len(byte_prefix(s, n)) <= n,
        byte_len(s) <= n ==> byte_prefix(s, n) == s,
        byte_prefix(s, n).len() < s.len() ==> byte_len(
            s.take(byte_prefix(s, n).len() as int + 1),
        ) > n,
    decreases s.len(),
{
    if byte_len(s) <= n || s.len() == 0 {
        assert(s.take(s.len() as int) =~= s);
    } else {
        let t = s.drop_last();
        law_first_bytes_are_the_beginning(t, n);
        let k = byte_prefix(t, n).len() as int;
        assert(t.take(k) =~= s.take(k));
        if k < t.len() {
            assert(t.take(k + 1) =~= s.take(k + 1));
        } else {
            assert(s.take(k + 1) =~= s);
        }
    }
}

/// A text that is short enough is kept whole; of a longer one the beginning is
/// kept, and three dots.
pub proof fn law_short_texts_are_kept_whole(s: Seq<char>, max: nat, keep: nat)
    ensures
        byte_len(s) <= max ==> ellipsis(s, max, keep) == s,
        byte_len(s) > max ==> ellipsis(s, max, keep) == s.take(
            ellipsis(s, max, keep).len() - 3,
        ) + "..."@,
        byte_len(s) > max ==> byte_len(s.take(ellipsis(s, max, keep).len() - 3)) <= keep,
{
    reveal_strlit("...");
    law_first_bytes_are_the_beginning(s, keep);
    if byte_len(s) > max {
        let n = ellipsis(s, max, keep).len() - 3;
        assert(n == byte_prefix(s, keep).len());
        assert(s.take(n) =~= byte_prefix(s, keep));
    }
}

} // verus!
