//! Numbers with thousands separators, and bars that show a share.

use vstd::prelude::*;

use crate::scan::law_written_numbers_read_back;
use crate::scan::is_digit;
use crate::text::dec;
use crate::text::dec_u64;
use crate::text::digit;
use crate::text::digit_char;
use crate::text::repeat;
use crate::text::repeat_char;

verus! {

/// The three decimal digits of a value below a thousand.
pub open spec fn dec3(n: nat) -> Seq<char> {
    seq![digit(n / 100), digit(n / 10 % 10), digit(n % 10)]
}

/// `n` in decimal, with a comma before each group of three digits that has
/// digits before it.
pub open spec fn grouped(n: nat) -> Seq<char>
    decreases n,
{
    if n < 1000 {
        dec(n)
    } else {
        grouped(n / 1000) + ","@ + dec3(n % 1000)
    }
}

/// `n` with comma-separated thousands.
pub fn format_number(n: u64) -> (r: String)
    ensures
        r@ == grouped(n as nat),
    decreases n,
{
    if n < 1000 {
        return dec_u64(n);
    }
    let mut out = format_number(n / 1000);
    let m: u64 = n % 1000;
    out.append(",");
    let mut low = String::new();
    low.push(digit_char(m / 100));
    low.push(digit_char(m / 10 % 10));
    low.push(digit_char(m % 10));
    proof {
        assert(low@ =~= dec3(m as nat));
    }
    out.append(low.as_str());
    out
}

/// Formats a number with comma separators for readability.
pub fn fmt_num(n: u64) -> (r: String)
    ensures
        r@ == grouped(n as nat),
{
    format_number(n)
}

/// `s` without its commas.
pub open spec fn without_commas(s: Seq<char>) -> Seq<char>
    decreases s.len(),
{
    if s.len() == 0 {
        seq![]
    } else if s.last() == ',' {
        without_commas(s.drop_last())
    } else {
        without_commas(s.drop_last()).push(s.last())
    }
}

proof fn lemma_without_commas_concat(a: Seq<char>, b: Seq<char>)
    ensures
        without_commas(a + b) == without_commas(a) + without_commas(b),
    decreases b.len(),
{
    if b.len() == 0 {
        assert(a + b =~= a);
        assert(without_commas(a) + without_commas(b) =~= without_commas(a));
    } else {
        lemma_without_commas_concat(a, b.drop_last());
        assert((a + b).drop_last() =~= a + b.drop_last());
        if b.last() != ',' {
            assert(without_commas(a) + without_commas(b) =~= (without_commas(a) + without_commas(
                b.drop_last(),
            )).push(b.last()));
        }
    }
}

proof fn lemma_digit(d: nat)
    requires
        d < 10,
    ensures
        digit(d) != ',',
        '0' <= digit(d) <= '9',
{
}

proof fn lemma_dec_no_commas(n: nat)
    ensures
        without_commas(dec(n)) == dec(n),
    decreases n,
{
    if n < 10 {
        lemma_digit(n);
        let s = seq![digit(n)];
        assert(s.drop_last() =~= seq![]);
        assert(without_commas(s.drop_last()) == Seq::<char>::empty());
        assert(without_commas(s) =~= s);
    } else {
        lemma_dec_no_commas(n / 10);
        lemma_digit(n % 10);
        assert(dec(n).drop_last() =~= dec(n / 10));
    }
}

/// Taking the commas out of a grouped number leaves its decimal digits.
pub proof fn law_grouping_keeps_the_digits(n: nat)
    ensures
        without_commas(grouped(n)) == dec(n),
    decreases n,
{
    if n < 1000 {
        lemma_dec_no_commas(n);
    } else {
        law_grouping_keeps_the_digits(n / 1000);
        let m = n % 1000;
        let head = grouped(n / 1000);
        reveal_strlit(",");
        let comma = ","@;
        assert(comma.drop_last() =~= seq![]);
        assert(without_commas(comma.drop_last()) == Seq::<char>::empty());
        assert(without_commas(comma) =~= seq![]);
        lemma_without_commas_concat(head, comma);
        lemma_without_commas_concat(head + comma, dec3(m));
        let a = digit(m / 100);
        let b = digit(m / 10 % 10);
        let c = digit(m % 10);
        lemma_digit(m / 100);
        lemma_digit(m / 10 % 10);
        lemma_digit(m % 10);
        assert(dec3(m).drop_last() =~= seq![a, b]);
        assert(seq![a, b].drop_last() =~= seq![a]);
        assert(seq![a].drop_last() =~= seq![]);
        assert(without_commas(seq![a]) =~= seq![a]);
        assert(without_commas(seq![a, b]) =~= seq![a, b]);
        assert(without_commas(dec3(m)) =~= dec3(m));
        assert(n / 10 / 10 / 10 == n / 1000);
        assert(n / 10 / 10 % 10 == m / 100);
        assert(n / 10 % 10 == m / 10 % 10);
        assert(n % 10 == m % 10);
        assert(dec(n) == dec(n / 10).push(c));
        assert(dec(n / 10) == dec(n / 10 / 10).push(b));
        assert(dec(n / 10 / 10) == dec(n / 10 / 10 / 10).push(a));
        assert(without_commas(grouped(n)) =~= dec(n));
    }
}

/// A number of at most `k` digits is below ten to the power `k`.
pub proof fn lemma_dec_short(n: nat)
    ensures
        dec(n).len() >= 1,
        n < 10000000000 ==> dec(n).len() <= 10,
        n < 1000000000 ==> dec(n).len() <= 9,
        n < 100000000 ==> dec(n).len() <= 8,
        n < 10000000 ==> dec(n).len() <= 7,
        n < 1000000 ==> dec(n).len() <= 6,
        n < 100000 ==> dec(n).len() <= 5,
        n < 10000 ==> dec(n).len() <= 4,
        n < 1000 ==> dec(n).len() <= 3,
        n < 100 ==> dec(n).len() <= 2,
        n < 10 ==> dec(n).len() == 1,
    decreases n,
{
    if n >= 10 {
        lemma_dec_short(n / 10);
    }
}

/// How many of `width` cells are filled at `pct` percent.
pub open spec fn filled_cells(pct: nat, width: nat) -> nat {
    if pct * width / 100 <= width {
        pct * width / 100
    } else {
        width
    }
}

/// A bar of `width` cells, filled to `pct` percent.
pub open spec fn progress_bar(pct: nat, width: nat) -> Seq<char> {
    "["@ + repeat('#', filled_cells(pct, width)) + repeat(
        '.',
        (width - filled_cells(pct, width)) as nat,
    ) + "]"@
}

/// A text-based progress bar of the given width.
///
/// `pct` is meant as a value from 0 to 100; more than that fills the bar.
pub fn render_progress_bar(pct: u32, width: usize) -> (r: String)
    requires
        pct * width <= usize::MAX,
    ensures
        r@ == progress_bar(pct as nat, width as nat),
{
    let share: usize = pct as usize * width / 100;
    let filled: usize = if share <= width {
        share
    } else {
        width
    };
    let mut out = "[".to_string();
    let full = repeat_char('#', filled);
    out.append(full.as_str());
    let rest = repeat_char('.', width - filled);
    out.append(rest.as_str());
    out.append("]");
    out
}

/// A progress bar of width `w` has `w` cells between its brackets.
pub proof fn law_progress_bar_length(pct: nat, width: nat)
    ensures
        progress_bar(pct, width).len() == width + 2,
{
    reveal_strlit("[");
    reveal_strlit("]");
}

/// From one hundred percent on the bar is full.
pub proof fn law_progress_bar_full(pct: nat, width: nat)
    requires
        pct >= 100,
    ensures
        progress_bar(pct, width) == "["@ + repeat('#', width) + "]"@,
{
    assert(pct * width >= 100 * width) by (nonlinear_arith)
        requires
            pct >= 100,
    ;
    assert(filled_cells(pct, width) == width);
    assert(progress_bar(pct, width) =~= "["@ + repeat('#', width) + "]"@);
}

/// More percent never empty a bar: the filled cells come first, and there are no
/// fewer of them.
pub proof fn law_progress_bars_fill_up(pct: nat, more: nat, width: nat, i: int)
    requires
        pct <= more,
        1 <= i <= width,
    ensures
        progress_bar(pct, width)[i] == '#' || progress_bar(pct, width)[i] == '.',
        progress_bar(pct, width)[i] == '#' ==> progress_bar(more, width)[i] == '#',
        progress_bar(pct, width)[i] == '#' && i > 1 ==> progress_bar(pct, width)[i - 1] == '#',
        progress_bar(pct, width)[0] == '[',
        progress_bar(pct, width)[width as int + 1] == ']',
{
    reveal_strlit("[");
    reveal_strlit("]");
    assert(pct * width <= more * width) by (nonlinear_arith)
        requires
            pct <= more,
    ;
    assert(pct * width / 100 <= more * width / 100);
}

/// A bar shows its share: `k` filled cells of a hundred at `k` percent.
pub proof fn law_a_hundred_cells_show_percents(pct: nat, i: int)
    requires
        pct <= 100,
        1 <= i <= 100,
    ensures
        progress_bar(pct, 100)[i] == '#' <==> i <= pct,
        progress_bar(0, 100)[i] == '.',
{
    reveal_strlit("[");
    reveal_strlit("]");
    assert(pct * 100 / 100 == pct);
}

/// Of a grouped number each group but the first has three digits: the commas
/// stand at every fourth place from the end.
pub proof fn law_commas_stand_at_every_fourth_place(n: nat, i: int)
    requires
        0 <= i < grouped(n).len(),
    ensures
        grouped(n)[grouped(n).len() - 1 - i] == ',' <==> i % 4 == 3,
    decreases n,
{
    reveal_strlit(",");
    let g = grouped(n);
    if n < 1000 {
        lemma_dec_short(n);
        lemma_dec_no_commas(n);
        law_written_numbers_read_back(n, n);
        assert(is_digit(dec(n)[g.len() - 1 - i]));
    } else {
        let head = grouped(n / 1000);
        let m = n % 1000;
        lemma_digit(m / 100);
        lemma_digit(m / 10 % 10);
        lemma_digit(m % 10);
        assert(g.len() == head.len() + 4);
        if i < 3 {
            assert(g[g.len() - 1 - i] == dec3(m)[2 - i]);
        } else if i == 3 {
            assert(g[g.len() - 4] == ',');
        } else {
            law_commas_stand_at_every_fourth_place(n / 1000, i - 4);
            assert(g[g.len() - 1 - i] == head[head.len() - 1 - (i - 4)]);
        }
    }
}

} // verus!
