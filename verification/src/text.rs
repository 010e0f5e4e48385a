//! Text building blocks: decimal numbers, padding, trimming, splitting and
//! joining, all stated over sequences of characters.

use vstd::prelude::*;

verus! {

/// `String::push` appends one character to the end of the string.
pub assume_specification[ String::push ](s: &mut String, c: char)
    ensures
        final(s)@ == old(s)@.push(c),
;

/// The contents of a list of strings.
pub open spec fn texts(v: Seq<String>) -> Seq<Seq<char>> {
    Seq::new(v.len(), |i: int| v[i]@)
}

/// The contents of an optional string.
pub open spec fn opt_text(v: Option<String>) -> Option<Seq<char>> {
    match v {
        Some(s) => Some(s@),
        None => None,
    }
}

/// The contents of an optional string, or `default` where there is none.
pub open spec fn text_or(v: Option<String>, default: Seq<char>) -> Seq<char> {
    match v {
        Some(s) => s@,
        None => default,
    }
}

/// Whether two strings hold the same characters.
pub fn text_eq(a: &str, b: &str) -> (r: bool)
    ensures
        r == (a@ == b@),
{
    a.to_owned() == b.to_owned()
}

/// An owned copy of `v`, or of `default` where there is none.
pub fn unwrap_text(v: &Option<String>, default: &str) -> (r: String)
    ensures
        r@ == text_or(*v, default@),
{
    match v {
        Some(s) => s.clone(),
        None => default.to_owned(),
    }
}

/// The characters of a string.
pub fn chars_of(s: &str) -> (r: Vec<char>)
    ensures
        r@ == s@,
{
    let mut v: Vec<char> = Vec::new();
    for c in it: s.chars()
        invariant
            v@ == s@.take(it.index() as int),
            it.seq() == s@,
    {
        v.push(c);
        proof {
            assert(s@.take(it.index() + 1) =~= s@.take(it.index() as int).push(c));
        }
    }
    proof {
        assert(s@.take(s@.len() as int) =~= s@);
    }
    v
}

/// The string of the characters `cs[lo..hi]`.
pub fn string_of(cs: &Vec<char>, lo: usize, hi: usize) -> (r: String)
    requires
        lo <= hi <= cs.len(),
    ensures
        r@ == cs@.subrange(lo as int, hi as int),
{
    let mut out = String::new();
    let mut i: usize = lo;
    while i < hi
        invariant
            lo <= i <= hi <= cs.len(),
            out@ == cs@.subrange(lo as int, i as int),
        decreases hi - i,
    {
        out.push(cs[i]);
        proof {
            assert(cs@.subrange(lo as int, i + 1) =~= cs@.subrange(lo as int, i as int).push(
                cs@[i as int],
            ));
        }
        i = i + 1;
    }
    out
}

// ---------------------------------------------------------------------------
// Decimal numbers
// ---------------------------------------------------------------------------

/// The decimal digit for a value below ten.
pub open spec fn digit(d: nat) -> char {
    (48 + d) as char
}

/// The decimal digits of `n`, most significant first.
pub open spec fn dec(n: nat) -> Seq<char>
    decreases n,
{
    if n < 10 {
        seq![digit(n)]
    } else {
        dec(n / 10).push(digit(n % 10))
    }
}

/// The decimal digits of `n`, with a leading minus where it is negative.
pub open spec fn dec_int(n: int) -> Seq<char> {
    if n < 0 {
        "-"@ + dec((-n) as nat)
    } else {
        dec(n as nat)
    }
}

/// The decimal digit for a value below ten.
pub fn digit_char(d: u64) -> (c: char)
    requires
        d < 10,
    ensures
        c == digit(d as nat),
{
    (48 + d as u8) as char
}

/// `n` in decimal.
pub fn dec_u64(n: u64) -> (r: String)
    ensures
        r@ == dec(n as nat),
    decreases n,
{
    if n < 10 {
        let mut s = String::new();
        s.push(digit_char(n));
        s
    } else {
        let mut s = dec_u64(n / 10);
        s.push(digit_char(n % 10));
        s
    }
}

/// `n` in decimal.
pub fn dec_u32(n: u32) -> (r: String)
    ensures
        r@ == dec(n as nat),
{
    dec_u64(n as u64)
}

/// `n` in decimal.
pub fn dec_usize(n: usize) -> (r: String)
    ensures
        r@ == dec(n as nat),
{
    dec_u64(n as u64)
}

/// `n` in decimal, with a leading minus where it is negative.
pub fn dec_i64(n: i64) -> (r: String)
    ensures
        r@ == dec_int(n as int),
{
    if n < 0 {
        let mut s = "-".to_string();
        let digits = dec_u64((-(n as i128)) as u64);
        s.append(digits.as_str());
        s
    } else {
        dec_u64(n as u64)
    }
}

// ---------------------------------------------------------------------------
// Repetition and padding
// ---------------------------------------------------------------------------

/// `n` copies of `c`.
pub open spec fn repeat(c: char, n: nat) -> Seq<char> {
    Seq::new(n, |i: int| c)
}

/// `n` copies of `c`.
pub fn repeat_char(c: char, n: usize) -> (r: String)
    ensures
        r@ == repeat(c, n as nat),
{
    let mut out = String::new();
    let mut i: usize = 0;
    while i < n
        invariant
            i <= n,
            out@ == repeat(c, i as nat),
        decreases n - i,
    {
        out.push(c);
        proof {
            assert(repeat(c, i as nat).push(c) =~= repeat(c, (i + 1) as nat));
        }
        i = i + 1;
    }
    out
}

/// How many characters `s` lacks to be `w` long.
pub open spec fn lack(s: Seq<char>, w: nat) -> nat {
    if s.len() < w {
        (w - s.len()) as nat
    } else {
        0
    }
}

/// `s`, filled up with blanks on the right to at least `w` characters.
pub open spec fn pad_right(s: Seq<char>, w: nat) -> Seq<char> {
    s + repeat(' ', lack(s, w))
}

/// `s`, filled up with blanks on the left to at least `w` characters.
pub open spec fn pad_left(s: Seq<char>, w: nat) -> Seq<char> {
    repeat(' ', lack(s, w)) + s
}

/// `s` in the middle of at least `w` characters; an odd blank goes right.
pub open spec fn pad_center(s: Seq<char>, w: nat) -> Seq<char> {
    repeat(' ', lack(s, w) / 2) + s + repeat(' ', (lack(s, w) - lack(s, w) / 2) as nat)
}

fn missing(s: &str, w: usize) -> (r: usize)
    ensures
        r == lack(s@, w as nat),
{
    let n = s.unicode_len();
    if n < w {
        w - n
    } else {
        0
    }
}

/// `s`, filled up with blanks on the right to at least `w` characters.
pub fn padded_right(s: &str, w: usize) -> (r: String)
    ensures
        r@ == pad_right(s@, w as nat),
{
    let mut out = s.to_owned();
    let blanks = repeat_char(' ', missing(s, w));
    out.append(blanks.as_str());
    out
}

/// `s`, filled up with blanks on the left to at least `w` characters.
pub fn padded_left(s: &str, w: usize) -> (r: String)
    ensures
        r@ == pad_left(s@, w as nat),
{
    let mut out = repeat_char(' ', missing(s, w));
    out.append(s);
    out
}

/// `s` in the middle of at least `w` characters; an odd blank goes right.
pub fn padded_center(s: &str, w: usize) -> (r: String)
    ensures
        r@ == pad_center(s@, w as nat),
{
    let gap: usize = missing(s, w);
    let mut out = repeat_char(' ', gap / 2);
    out.append(s);
    let right = repeat_char(' ', gap - gap / 2);
    out.append(right.as_str());
    out
}

// ---------------------------------------------------------------------------
// Concatenation
// ---------------------------------------------------------------------------

/// Two texts, one after the other.
pub fn cat2(a: &str, b: &str) -> (r: String)
    ensures
        r@ == a@ + b@,
{
    let mut out = a.to_owned();
    out.append(b);
    out
}

/// Three texts, one after the other.
pub fn cat3(a: &str, b: &str, c: &str) -> (r: String)
    ensures
        r@ == a@ + b@ + c@,
{
    let mut out = a.to_owned();
    out.append(b);
    out.append(c);
    out
}

/// Four texts, one after the other.
pub fn cat4(a: &str, b: &str, c: &str, d: &str) -> (r: String)
    ensures
        r@ == a@ + b@ + c@ + d@,
{
    let mut out = a.to_owned();
    out.append(b);
    out.append(c);
    out.append(d);
    out
}

/// Five texts, one after the other.
pub fn cat5(a: &str, b: &str, c: &str, d: &str, e: &str) -> (r: String)
    ensures
        r@ == a@ + b@ + c@ + d@ + e@,
{
    let mut out = a.to_owned();
    out.append(b);
    out.append(c);
    out.append(d);
    out.append(e);
    out
}

// ---------------------------------------------------------------------------
// Laws
// ---------------------------------------------------------------------------

/// Padding adds blanks on one side, as many as a text lacks, and keeps the text.
pub proof fn law_padding_keeps_the_text(s: Seq<char>, w: nat)
    ensures
        pad_right(s, w).len() >= s.len(),
        pad_right(s, w).take(s.len() as int) == s,
        forall|i: int| s.len() <= i < pad_right(s, w).len() ==> pad_right(s, w)[i] == ' ',
        pad_left(s, w).skip(pad_left(s, w).len() - s.len()) == s,
        forall|i: int| 0 <= i < pad_left(s, w).len() - s.len() ==> pad_left(s, w)[i] == ' ',
        s.len() <= w ==> pad_right(s, w).len() == w && pad_left(s, w).len() == w && pad_center(
            s,
            w,
        ).len() == w,
        s.len() >= w ==> pad_right(s, w) == s && pad_left(s, w) == s && pad_center(s, w) == s,
{
    assert(pad_right(s, w).take(s.len() as int) =~= s);
    assert(pad_left(s, w).skip(pad_left(s, w).len() - s.len()) =~= s);
    if s.len() >= w {
        assert(pad_right(s, w) =~= s);
        assert(pad_left(s, w) =~= s);
        assert(pad_center(s, w) =~= s);
    }
}

/// A text in the middle has as many blanks before it as after it, or one less.
pub proof fn law_centering_is_even(s: Seq<char>, w: nat) -> (left: int)
    ensures
        0 <= left,
        left + s.len() <= pad_center(s, w).len(),
        pad_center(s, w).subrange(left, left + s.len()) == s,
        forall|i: int| 0 <= i < left ==> pad_center(s, w)[i] == ' ',
        forall|i: int| left + s.len() <= i < pad_center(s, w).len() ==> pad_center(s, w)[i] == ' ',
        left <= pad_center(s, w).len() - s.len() - left <= left + 1,
{
    let left = (lack(s, w) / 2) as int;
    assert(pad_center(s, w).subrange(left, left + s.len()) =~= s);
    left
}

/// Ten digits, one for each value.
pub proof fn law_digits_differ(a: nat, b: nat)
    requires
        a < 10,
        b < 10,
    ensures
        '0' <= digit(a) <= '9',
        a != b ==> digit(a) != digit(b),
        digit(0) == '0',
{
}

/// Different numbers are written differently; the sign of a negative number comes
/// first, and its digits are those of the number without it.
pub proof fn law_signs_come_first(n: int)
    ensures
        n >= 0 ==> dec_int(n) == dec(n as nat),
        n < 0 ==> dec_int(n).len() > 0 && dec_int(n)[0] == '-' && dec_int(n).skip(1) == dec_int(-n),
{
    reveal_strlit("-");
    if n < 0 {
        assert(dec_int(n).skip(1) =~= dec_int(-n));
    }
}

/// Repeating makes a text of one character alone, as long as it says.
pub proof fn law_repeating_repeats(c: char, n: nat)
    ensures
        repeat(c, n).len() == n,
        forall|i: int| 0 <= i < n ==> repeat(c, n)[i] == c,
{
}

/// A text that is there is taken as it is, and the default only where there is
/// none.
pub proof fn law_defaults_are_for_what_is_missing(s: String, default: Seq<char>)
    ensures
        text_or(Some(s), default) == s@,
        text_or(None, default) == default,
        opt_text(Some(s)) == Some(s@),
        opt_text(None) == None::<Seq<char>>,
{
}

/// A list of texts keeps their number and their order.
pub proof fn law_lists_of_texts_keep_their_order(v: Seq<String>, i: int)
    requires
        0 <= i < v.len(),
    ensures
        texts(v).len() == v.len(),
        texts(v)[i] == v[i]@,
{
}

} // verus!
