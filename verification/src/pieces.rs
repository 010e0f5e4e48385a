//! Text within text: what a longer text holds.

use vstd::prelude::*;

use crate::scan::contains_text;
use crate::scan::law_stripping_the_end_takes_one_character_alone;
use crate::scan::strip_trailing;

verus! {

/// `part` stands somewhere in `s`.
pub open spec fn holds(s: Seq<char>, part: Seq<char>) -> bool {
    exists|i: int|
        0 <= i && i + part.len() <= s.len() && #[trigger] s.subrange(i, i + part.len()) == part
}

/// A text holds itself.
pub broadcast proof fn lemma_holds_itself(s: Seq<char>)
    ensures
        #[trigger] holds(s, s),
{
    let i: int = 0;
    assert(s.subrange(i, i + s.len()) =~= s);
}

/// What one of two texts holds, both together hold.
pub broadcast proof fn lemma_holds_in_both(s: Seq<char>, t: Seq<char>, part: Seq<char>)
    ensures
        holds(s, part) || holds(t, part) ==> #[trigger] holds(s + t, part),
{
    if holds(s, part) {
        let i = choose|i: int|
            0 <= i && i + part.len() <= s.len() && #[trigger] s.subrange(i, i + part.len()) == part;
        assert((s + t).subrange(i, i + part.len()) =~= part);
    }
    if holds(t, part) {
        let i = choose|i: int|
            0 <= i && i + part.len() <= t.len() && #[trigger] t.subrange(i, i + part.len()) == part;
        let k = s.len() + i;
        assert((s + t).subrange(k, k + part.len()) =~= part);
    }
}

/// What a part holds, the whole holds.
pub proof fn lemma_holds_through(s: Seq<char>, part: Seq<char>, small: Seq<char>)
    requires
        holds(s, part),
        holds(part, small),
    ensures
        holds(s, small),
{
    let i = choose|i: int|
        0 <= i && i + part.len() <= s.len() && #[trigger] s.subrange(i, i + part.len()) == part;
    let j = choose|j: int|
        0 <= j && j + small.len() <= part.len() && #[trigger] part.subrange(j, j + small.len())
            == small;
    assert(s.subrange(i + j, i + j + small.len()) =~= small);
}

/// Searching finds a part exactly where the text is made of something before
/// it, the part, and something after it.
pub proof fn law_searching_finds_parts(s: Seq<char>, part: Seq<char>)
    ensures
        contains_text(s, part) <==> exists|a: Seq<char>, b: Seq<char>| s == #[trigger] (a + part + b),
{
    if contains_text(s, part) {
        let i = choose|i: int|
            0 <= i && i + part.len() <= s.len() && #[trigger] s.subrange(i, i + part.len()) == part;
        let a = s.take(i);
        let b = s.skip(i + part.len());
        assert(s =~= a + part + b);
    }
    if exists|a: Seq<char>, b: Seq<char>| s == #[trigger] (a + part + b) {
        let (a, b) = choose|a: Seq<char>, b: Seq<char>| s == #[trigger] (a + part + b);
        let i = a.len() as int;
        assert(s.subrange(i, i + part.len()) =~= part);
    }
}

/// Two texts that stand next to each other are held together.
pub broadcast proof fn lemma_holds_neighbours(s: Seq<char>, a: Seq<char>, b: Seq<char>)
    ensures
        #[trigger] holds(s + a + b, a + b),
{
    let i = s.len() as int;
    assert((s + a + b).subrange(i, i + (a + b).len()) =~= a + b);
}

/// Three texts that stand next to each other are held together.
pub broadcast proof fn lemma_holds_three(s: Seq<char>, a: Seq<char>, b: Seq<char>, c: Seq<char>)
    ensures
        #[trigger] holds(s + a + b + c, a + b + c),
{
    let i = s.len() as int;
    assert((s + a + b + c).subrange(i, i + (a + b + c).len()) =~= a + b + c);
}

pub broadcast group group_holds {
    lemma_holds_itself,
    lemma_holds_in_both,
    lemma_holds_neighbours,
    lemma_holds_three,
}

/// `part` stands in `s` at the position `at`.
pub open spec fn found_at(s: Seq<char>, at: int, part: Seq<char>) -> bool {
    &&& 0 <= at
    &&& at + part.len() <= s.len()
    &&& s.subrange(at, at + part.len()) == part
}

/// What does not end in a character is still held once that character is taken
/// off the end.
pub proof fn lemma_holds_stripped(s: Seq<char>, c: char, part: Seq<char>)
    requires
        holds(s, part),
        part.len() > 0,
        part.last() != c,
    ensures
        holds(strip_trailing(s, c), part),
{
    let i = choose|i: int|
        0 <= i && i + part.len() <= s.len() && #[trigger] s.subrange(i, i + part.len()) == part;
    let t = strip_trailing(s, c);
    law_stripping_the_end_takes_one_character_alone(s, c);
    let last = i + part.len() - 1;
    assert(part.last() == s.subrange(i, i + part.len())[part.len() - 1]);
    assert(s[last] != c);
    assert(t.subrange(i, i + part.len()) =~= part);
}

/// The elements of `part` stand in `s` next to each other.
pub open spec fn part_of<T>(s: Seq<T>, part: Seq<T>) -> bool {
    exists|i: int|
        0 <= i && i + part.len() <= s.len() && #[trigger] s.subrange(i, i + part.len()) == part
}

/// A list is part of itself.
pub broadcast proof fn lemma_part_of_itself<T>(s: Seq<T>)
    ensures
        #[trigger] part_of(s, s),
{
    let i: int = 0;
    assert(s.subrange(i, i + s.len()) =~= s);
}

/// What is part of one of two lists is part of both together.
pub broadcast proof fn lemma_part_of_both<T>(s: Seq<T>, t: Seq<T>, part: Seq<T>)
    ensures
        part_of(s, part) || part_of(t, part) ==> #[trigger] part_of(s + t, part),
{
    if part_of(s, part) {
        let i = choose|i: int|
            0 <= i && i + part.len() <= s.len() && #[trigger] s.subrange(i, i + part.len()) == part;
        assert((s + t).subrange(i, i + part.len()) =~= part);
    }
    if part_of(t, part) {
        let i = choose|i: int|
            0 <= i && i + part.len() <= t.len() && #[trigger] t.subrange(i, i + part.len()) == part;
        let k = s.len() + i;
        assert((s + t).subrange(k, k + part.len()) =~= part);
    }
}

pub broadcast group group_parts {
    lemma_part_of_itself,
    lemma_part_of_both,
}

} // verus!
