//! Ordering text, and stable orders over keys.

use vstd::prelude::*;

use crate::text::chars_of;
use crate::text::texts;

verus! {

/// `a` comes before `b` when they are compared character by character.
pub open spec fn text_lt(a: Seq<char>, b: Seq<char>) -> bool
    decreases a.len(),
{
    if b.len() == 0 {
        false
    } else if a.len() == 0 {
        true
    } else if a[0] == b[0] {
        text_lt(a.skip(1), b.skip(1))
    } else {
        a[0] < b[0]
    }
}

/// No text comes before itself.
pub proof fn lemma_text_lt_irreflexive(a: Seq<char>)
    ensures
        !text_lt(a, a),
    decreases a.len(),
{
    if a.len() > 0 {
        lemma_text_lt_irreflexive(a.skip(1));
    }
}

/// Of two different texts one comes before the other.
pub proof fn lemma_text_lt_total(a: Seq<char>, b: Seq<char>)
    ensures
        text_lt(a, b) || text_lt(b, a) || a == b,
    decreases a.len(),
{
    if a.len() == 0 {
        if b.len() == 0 {
            assert(a =~= b);
        }
    } else if b.len() > 0 && a[0] == b[0] {
        lemma_text_lt_total(a.skip(1), b.skip(1));
        if a.skip(1) == b.skip(1) {
            assert(a =~= seq![a[0]] + a.skip(1));
            assert(b =~= seq![b[0]] + b.skip(1));
        }
    }
}

/// What comes before a text comes before all that it comes before.
pub proof fn lemma_text_lt_transitive(a: Seq<char>, b: Seq<char>, c: Seq<char>)
    requires
        text_lt(a, b),
        text_lt(b, c),
    ensures
        text_lt(a, c),
    decreases a.len(),
{
    if a.len() > 0 && b.len() > 0 && c.len() > 0 && a[0] == b[0] && b[0] == c[0] {
        lemma_text_lt_transitive(a.skip(1), b.skip(1), c.skip(1));
    }
}

/// Of two texts at most one comes before the other.
pub proof fn lemma_text_lt_asymmetric(a: Seq<char>, b: Seq<char>)
    requires
        text_lt(a, b),
    ensures
        !text_lt(b, a),
{
    if text_lt(b, a) {
        lemma_text_lt_transitive(a, b, a);
        lemma_text_lt_irreflexive(a);
    }
}

/// Whether `a` comes before `b`.
pub fn text_less(a: &str, b: &str) -> (r: bool)
    ensures
        r == text_lt(a@, b@),
{
    let x = chars_of(a);
    let y = chars_of(b);
    let mut i: usize = 0;
    proof {
        assert(x@.skip(0) =~= a@);
        assert(y@.skip(0) =~= b@);
    }
    while i < x.len() && i < y.len()
        invariant
            i <= x.len(),
            i <= y.len(),
            text_lt(a@, b@) == text_lt(x@.skip(i as int), y@.skip(i as int)),
        decreases x.len() - i,
    {
        proof {
            assert(x@.skip(i as int).skip(1) =~= x@.skip(i + 1));
            assert(y@.skip(i as int).skip(1) =~= y@.skip(i + 1));
        }
        if x[i] != y[i] {
            return x[i] < y[i];
        }
        i = i + 1;
    }
    i < y.len()
}

/// `p` lists each position below `n` once.
pub open spec fn is_order(p: Seq<usize>, n: nat) -> bool {
    &&& p.len() == n
    &&& p.no_duplicates()
    &&& forall|i: int| 0 <= i < p.len() ==> (#[trigger] p[i]) < n
}

/// In `p` a position with a greater number stands before one with a smaller
/// number; positions with the same number keep their order.
pub open spec fn largest_first(keys: Seq<u64>, p: Seq<usize>) -> bool {
    forall|i: int, j: int|
        #![trigger p[i], p[j]]
        0 <= i < j < p.len() ==> keys[p[i] as int] > keys[p[j] as int] || (keys[p[i] as int]
            == keys[p[j] as int] && p[i] < p[j])
}

/// In `p` a position with a later text stands before one with an earlier text;
/// positions with the same text keep their order.
pub open spec fn latest_first(keys: Seq<Seq<char>>, p: Seq<usize>) -> bool {
    forall|i: int, j: int|
        #![trigger p[i], p[j]]
        0 <= i < j < p.len() ==> text_lt(keys[p[j] as int], keys[p[i] as int]) || (
        keys[p[i] as int] == keys[p[j] as int] && p[i] < p[j])
}

/// In `p` a position with an earlier text stands before one with a later text;
/// positions with the same text keep their order.
pub open spec fn earliest_first(keys: Seq<Seq<char>>, p: Seq<usize>) -> bool {
    forall|i: int, j: int|
        #![trigger p[i], p[j]]
        0 <= i < j < p.len() ==> text_lt(keys[p[i] as int], keys[p[j] as int]) || (
        keys[p[i] as int] == keys[p[j] as int] && p[i] < p[j])
}

/// The positions of `keys`, largest number first.
pub fn order_largest_first(keys: &Vec<u64>) -> (p: Vec<usize>)
    ensures
        is_order(p@, keys.len() as nat),
        largest_first(keys@, p@),
{
    let mut p: Vec<usize> = Vec::new();
    let mut k: usize = 0;
    while k < keys.len()
        invariant
            k <= keys.len(),
            is_order(p@, k as nat),
            largest_first(keys@, p@),
        decreases keys.len() - k,
    {
        let mut at: usize = 0;
        while at < p.len() && keys[p[at]] >= keys[k]
            invariant
                k < keys.len(),
                at <= p.len(),
                is_order(p@, k as nat),
                forall|i: int| 0 <= i < at ==> keys@[p@[i] as int] >= keys@[k as int],
            decreases p.len() - at,
        {
            at = at + 1;
        }
        let ghost before = p@;
        p.insert(at, k);
        proof {
            lemma_insert_is_order(before, at as int, k);
            assert forall|i: int, j: int|
                #![trigger p@[i], p@[j]]
                0 <= i < j < p@.len() implies keys@[p@[i] as int] > keys@[p@[j] as int] || (
            keys@[p@[i] as int] == keys@[p@[j] as int] && p@[i] < p@[j]) by {
                let oi = if i < at {
                    i
                } else {
                    i - 1
                };
                let oj = if j < at {
                    j
                } else {
                    j - 1
                };
                if i != at {
                    assert(p@[i] == before[oi]);
                }
                if j != at {
                    assert(p@[j] == before[oj]);
                }
                if i == at {
                    assert(before[at as int] == before[at as int]);
                    assert(keys@[before[at as int] as int] < keys@[k as int]);
                }
            }
        }
        k = k + 1;
    }
    p
}

proof fn lemma_insert_is_order(p: Seq<usize>, at: int, k: usize)
    requires
        is_order(p, k as nat),
        0 <= at <= p.len(),
        k < usize::MAX,
    ensures
        is_order(p.insert(at, k), (k + 1) as nat),
{
    let q = p.insert(at, k);
    assert forall|i: int| 0 <= i < q.len() implies (#[trigger] q[i]) < k + 1 by {
        if i < at {
            assert(q[i] == p[i]);
        } else if i > at {
            assert(q[i] == p[i - 1]);
        }
    }
    assert forall|i: int, j: int| 0 <= i < q.len() && 0 <= j < q.len() && i != j implies q[i]
        != q[j] by {
        let oi = if i < at {
            i
        } else {
            i - 1
        };
        let oj = if j < at {
            j
        } else {
            j - 1
        };
        if i != at {
            assert(q[i] == p[oi]);
        }
        if j != at {
            assert(q[j] == p[oj]);
        }
    }
}

/// The positions of `keys`, latest text first.
pub fn order_latest_first(keys: &Vec<String>) -> (p: Vec<usize>)
    ensures
        is_order(p@, keys.len() as nat),
        latest_first(texts(keys@), p@),
{
    let mut p: Vec<usize> = Vec::new();
    let ghost ks = texts(keys@);
    let mut k: usize = 0;
    while k < keys.len()
        invariant
            k <= keys.len(),
            ks == texts(keys@),
            is_order(p@, k as nat),
            latest_first(ks, p@),
        decreases keys.len() - k,
    {
        let mut at: usize = 0;
        while at < p.len() && !text_less(keys[p[at]].as_str(), keys[k].as_str())
            invariant
                k < keys.len(),
                at <= p.len(),
                ks == texts(keys@),
                is_order(p@, k as nat),
                forall|i: int| 0 <= i < at ==> !text_lt(ks[p@[i] as int], ks[k as int]),
            decreases p.len() - at,
        {
            at = at + 1;
        }
        let ghost before = p@;
        p.insert(at, k);
        proof {
            lemma_insert_is_order(before, at as int, k);
            assert forall|i: int, j: int|
                #![trigger p@[i], p@[j]]
                0 <= i < j < p@.len() implies text_lt(ks[p@[j] as int], ks[p@[i] as int]) || (
            ks[p@[i] as int] == ks[p@[j] as int] && p@[i] < p@[j]) by {
                let oi = if i < at {
                    i
                } else {
                    i - 1
                };
                let oj = if j < at {
                    j
                } else {
                    j - 1
                };
                if i != at {
                    assert(p@[i] == before[oi]);
                }
                if j != at {
                    assert(p@[j] == before[oj]);
                }
                if i < at && j == at {
                    lemma_text_lt_total(ks[before[i] as int], ks[k as int]);
                }
                if i == at {
                    assert(text_lt(ks[before[at as int] as int], ks[k as int]));
                    if oj > at {
                        if ks[before[oj] as int] != ks[before[at as int] as int] {
                            lemma_text_lt_transitive(
                                ks[before[oj] as int],
                                ks[before[at as int] as int],
                                ks[k as int],
                            );
                        }
                    }
                }
            }
        }
        k = k + 1;
    }
    p
}

/// The positions of `keys`, earliest text first.
pub fn order_earliest_first(keys: &Vec<String>) -> (p: Vec<usize>)
    ensures
        is_order(p@, keys.len() as nat),
        earliest_first(texts(keys@), p@),
{
    let mut p: Vec<usize> = Vec::new();
    let ghost ks = texts(keys@);
    let mut k: usize = 0;
    while k < keys.len()
        invariant
            k <= keys.len(),
            ks == texts(keys@),
            is_order(p@, k as nat),
            earliest_first(ks, p@),
        decreases keys.len() - k,
    {
        let mut at: usize = 0;
        while at < p.len() && !text_less(keys[k].as_str(), keys[p[at]].as_str())
            invariant
                k < keys.len(),
                at <= p.len(),
                ks == texts(keys@),
                is_order(p@, k as nat),
                forall|i: int| 0 <= i < at ==> !text_lt(ks[k as int], ks[p@[i] as int]),
            decreases p.len() - at,
        {
            at = at + 1;
        }
        let ghost before = p@;
        p.insert(at, k);
        proof {
            lemma_insert_is_order(before, at as int, k);
            assert forall|i: int, j: int|
                #![trigger p@[i], p@[j]]
                0 <= i < j < p@.len() implies text_lt(ks[p@[i] as int], ks[p@[j] as int]) || (
            ks[p@[i] as int] == ks[p@[j] as int] && p@[i] < p@[j]) by {
                let oi = if i < at {
                    i
                } else {
                    i - 1
                };
                let oj = if j < at {
                    j
                } else {
                    j - 1
                };
                if i != at {
                    assert(p@[i] == before[oi]);
                }
                if j != at {
                    assert(p@[j] == before[oj]);
                }
                if i < at && j == at {
                    lemma_text_lt_total(ks[before[i] as int], ks[k as int]);
                }
                if i == at {
                    assert(text_lt(ks[k as int], ks[before[at as int] as int]));
                    if oj > at {
                        if ks[before[oj] as int] != ks[before[at as int] as int] {
                            lemma_text_lt_transitive(
                                ks[k as int],
                                ks[before[at as int] as int],
                                ks[before[oj] as int],
                            );
                        }
                    }
                }
            }
        }
        k = k + 1;
    }
    p
}

/// The first difference decides, and a text comes after its own beginnings.
pub proof fn law_the_first_difference_decides(
    start: Seq<char>,
    x: char,
    y: char,
    a: Seq<char>,
    b: Seq<char>,
)
    ensures
        x < y ==> text_lt(start + seq![x] + a, start + seq![y] + b),
        x < y ==> !text_lt(start + seq![y] + b, start + seq![x] + a),
        text_lt(start, start + seq![x] + a),
        !text_lt(start + seq![x] + a, start),
    decreases start.len(),
{
    let s = start + seq![x] + a;
    let t = start + seq![y] + b;
    if start.len() == 0 {
        assert(s[0] == x);
        assert(t[0] == y);
    } else {
        let rest = start.skip(1);
        law_the_first_difference_decides(rest, x, y, a, b);
        assert(s.skip(1) =~= rest + seq![x] + a);
        assert(t.skip(1) =~= rest + seq![y] + b);
        assert(s[0] == t[0] == start[0]);
    }
}

/// In an order by size, what comes first is at least as large; in an order by time
/// nothing comes before what is later, or earlier.
pub proof fn law_orders_are_sorted(
    sizes: Seq<u64>,
    times: Seq<Seq<char>>,
    p: Seq<usize>,
    i: int,
    j: int,
)
    requires
        0 <= i < j < p.len(),
    ensures
        largest_first(sizes, p) ==> sizes[p[i] as int] >= sizes[p[j] as int],
        latest_first(times, p) ==> !text_lt(times[p[i] as int], times[p[j] as int]),
        earliest_first(times, p) ==> !text_lt(times[p[j] as int], times[p[i] as int]),
        latest_first(times, p) && times[p[i] as int] == times[p[j] as int] ==> p[i] < p[j],
        earliest_first(times, p) && times[p[i] as int] == times[p[j] as int] ==> p[i] < p[j],
{
    let a = times[p[i] as int];
    let b = times[p[j] as int];
    lemma_text_lt_irreflexive(a);
    lemma_text_lt_irreflexive(b);
    if text_lt(a, b) {
        lemma_text_lt_asymmetric(a, b);
    }
    if text_lt(b, a) {
        lemma_text_lt_asymmetric(b, a);
    }
}

} // verus!
