//! Decimal digit strings: formatting of whole numbers, fixed-width
//! zero-padded fields, and the value read back from a digit string.
//! The log-line format and its parser are built on these.

use vstd::prelude::*;
use vstd::arithmetic::div_mod::lemma_breakdown;

verus! {

/// The character for one decimal digit.
pub open spec fn digit_char(d: int) -> char {
    if d == 0 {
        '0'
    } else if d == 1 {
        '1'
    } else if d == 2 {
        '2'
    } else if d == 3 {
        '3'
    } else if d == 4 {
        '4'
    } else if d == 5 {
        '5'
    } else if d == 6 {
        '6'
    } else if d == 7 {
        '7'
    } else if d == 8 {
        '8'
    } else {
        '9'
    }
}

/// The value of one decimal digit character; 10 marks a non-digit.
pub open spec fn digit_value(c: char) -> int {
    if c == '0' {
        0
    } else if c == '1' {
        1
    } else if c == '2' {
        2
    } else if c == '3' {
        3
    } else if c == '4' {
        4
    } else if c == '5' {
        5
    } else if c == '6' {
        6
    } else if c == '7' {
        7
    } else if c == '8' {
        8
    } else if c == '9' {
        9
    } else {
        10
    }
}

pub open spec fn is_digit(c: char) -> bool {
    digit_value(c) < 10
}

pub open spec fn all_digits(s: Seq<char>) -> bool {
    forall|k: int| 0 <= k < s.len() ==> is_digit(#[trigger] s[k])
}

/// The decimal digits of `n`, most significant first, no leading zeros
/// (a single `'0'` for zero itself).
pub open spec fn dec_digits(n: int) -> Seq<char>
    recommends
        0 <= n,
    decreases n,
{
    if n < 10 {
        seq![digit_char(n)]
    } else {
        dec_digits(n / 10).push(digit_char(n % 10))
    }
}

/// The last `w` decimal digits of `n`, zero padded to exactly `w` characters.
pub open spec fn fixed_digits(n: int, w: int) -> Seq<char>
    recommends
        0 <= n,
    decreases w,
{
    if w <= 0 {
        Seq::<char>::empty()
    } else {
        fixed_digits(n / 10, w - 1).push(digit_char(n % 10))
    }
}

/// The number a digit string denotes, most significant digit first.
pub open spec fn digits_value(s: Seq<char>) -> int
    decreases s.len(),
{
    if s.len() == 0 {
        0
    } else {
        digits_value(s.drop_last()) * 10 + digit_value(s.last())
    }
}

pub open spec fn pow10(w: int) -> int
    decreases w,
{
    if w <= 0 {
        1
    } else {
        10 * pow10(w - 1)
    }
}

pub proof fn lemma_pow10_pos(w: int)
    ensures
        pow10(w) >= 1,
    decreases w,
{
    if w > 0 {
        lemma_pow10_pos(w - 1);
    }
}

pub proof fn lemma_digit_char_value(d: int)
    requires
        0 <= d < 10,
    ensures
        digit_value(digit_char(d)) == d,
        is_digit(digit_char(d)),
{
}

/// The digits of a number are digits, read back to the number itself, and
/// there is at least one of them.
pub proof fn lemma_dec_digits_props(n: int)
    requires
        0 <= n,
    ensures
        all_digits(dec_digits(n)),
        digits_value(dec_digits(n)) == n,
        dec_digits(n).len() >= 1,
    decreases n,
{
    if n < 10 {
        let s = dec_digits(n);
        lemma_digit_char_value(n);
        assert(s =~= seq![digit_char(n)]);
        assert(s.drop_last() =~= Seq::<char>::empty());
        assert(digits_value(Seq::<char>::empty()) == 0);
        assert(s.last() == digit_char(n));
        assert(digits_value(s) == digits_value(s.drop_last()) * 10 + digit_value(s.last()));
    } else {
        lemma_dec_digits_props(n / 10);
        let p = dec_digits(n / 10);
        let s = dec_digits(n);
        lemma_digit_char_value(n % 10);
        assert(s.drop_last() =~= p);
        assert(digits_value(s) == (n / 10) * 10 + n % 10);
    }
}

/// A number below `pow10(w)` takes at most `w` digits.
pub proof fn lemma_dec_digits_len(n: int, w: int)
    requires
        1 <= w,
        0 <= n < pow10(w),
    ensures
        dec_digits(n).len() <= w,
    decreases w,
{
    if n < 10 {
    } else {
        if w == 1 {
            assert(pow10(1) == 10);
        }
        assert(pow10(w) == 10 * pow10(w - 1));
        lemma_dec_digits_len(n / 10, w - 1);
    }
}

/// A fixed-width field holds exactly `w` digit characters and reads back
/// as the number modulo `pow10(w)`.
pub proof fn lemma_fixed_digits_props(n: int, w: int)
    requires
        0 <= n,
        0 <= w,
    ensures
        fixed_digits(n, w).len() == w,
        all_digits(fixed_digits(n, w)),
        digits_value(fixed_digits(n, w)) == n % pow10(w),
    decreases w,
{
    if w == 0 {
        assert(n % pow10(0) == n % 1 == 0);
    } else {
        lemma_fixed_digits_props(n / 10, w - 1);
        let p = fixed_digits(n / 10, w - 1);
        let s = fixed_digits(n, w);
        lemma_digit_char_value(n % 10);
        assert(s.drop_last() =~= p);
        lemma_pow10_pos(w - 1);
        lemma_breakdown(n, 10, pow10(w - 1));
        assert(digits_value(s) == ((n / 10) % pow10(w - 1)) * 10 + n % 10);
        assert(n % (10 * pow10(w - 1)) == 10 * ((n / 10) % pow10(w - 1)) + n % 10);
    }
}

/// The value of any digit string is bounded by `pow10` of its length.
pub proof fn lemma_digits_value_bound(s: Seq<char>)
    requires
        all_digits(s),
    ensures
        0 <= digits_value(s) < pow10(s.len() as int),
    decreases s.len(),
{
    if s.len() == 0 {
    } else {
        let p = s.drop_last();
        assert(all_digits(p)) by {
            assert(forall|k: int| 0 <= k < p.len() ==> p[k] == s[k]);
        }
        lemma_digits_value_bound(p);
        assert(is_digit(s.last()));
        assert(digit_value(s.last()) <= 9);
        assert(digits_value(p) <= pow10(p.len() as int) - 1);
        assert(digits_value(s) <= (pow10(p.len() as int) - 1) * 10 + 9);
        assert(pow10(s.len() as int) == 10 * pow10(p.len() as int));
    }
}

/// The first position at or after `from` holding `c`, if any.
pub open spec fn find_from(s: Seq<char>, from: int, c: char) -> Option<int>
    decreases s.len() - from,
{
    if from < 0 || from >= s.len() {
        None
    } else if s[from] == c {
        Some(from)
    } else {
        find_from(s, from + 1, c)
    }
}

/// Pin `find_from` down from explicit knowledge of a prefix free of `c`.
pub proof fn lemma_find_from_exact(s: Seq<char>, from: int, i: int, c: char)
    requires
        0 <= from <= i <= s.len(),
        forall|k: int| from <= k < i ==> #[trigger] s[k] != c,
        i < s.len() ==> s[i] == c,
    ensures
        i < s.len() ==> find_from(s, from, c) == Some(i),
        i == s.len() ==> find_from(s, from, c) is None,
    decreases i - from,
{
    if from < i {
        lemma_find_from_exact(s, from + 1, i, c);
    }
}

/// Append the character for one digit.
pub fn push_digit(s: &mut String, d: u64)
    requires
        d < 10,
    ensures
        final(s)@ == old(s)@.push(digit_char(d as int)),
{
    let table = "0123456789";
    proof {
        reveal_strlit("0123456789");
    }
    let piece = table.substring_char(d as usize, d as usize + 1);
    s.append(piece);
    proof {
        assert(piece@ =~= seq![digit_char(d as int)]);
        assert(s@ =~= old(s)@.push(digit_char(d as int)));
    }
}

/// The decimal digits of `n`, without leading zeros.
pub fn dec_string(n: u64) -> (r: String)
    ensures
        r@ == dec_digits(n as int),
    decreases n,
{
    if n < 10 {
        let mut r = String::new();
        push_digit(&mut r, n);
        proof {
            assert(r@ =~= dec_digits(n as int));
        }
        r
    } else {
        let mut r = dec_string(n / 10);
        push_digit(&mut r, n % 10);
        proof {
            assert(r@ =~= dec_digits(n as int));
        }
        r
    }
}

/// The last `w` decimal digits of `n`, zero padded to width `w`.
pub fn fixed_string(n: u64, w: u64) -> (r: String)
    ensures
        r@ == fixed_digits(n as int, w as int),
    decreases w,
{
    if w == 0 {
        let r = String::new();
        proof {
            assert(r@ =~= fixed_digits(n as int, 0));
        }
        r
    } else {
        let mut r = fixed_string(n / 10, w - 1);
        push_digit(&mut r, n % 10);
        proof {
            assert(r@ =~= fixed_digits(n as int, w as int));
        }
        r
    }
}

/// The value of one digit character; 10 for anything else.
pub fn digit_val(c: char) -> (r: u64)
    ensures
        r as int == digit_value(c),
{
    if c == '0' {
        0
    } else if c == '1' {
        1
    } else if c == '2' {
        2
    } else if c == '3' {
        3
    } else if c == '4' {
        4
    } else if c == '5' {
        5
    } else if c == '6' {
        6
    } else if c == '7' {
        7
    } else if c == '8' {
        8
    } else if c == '9' {
        9
    } else {
        10
    }
}

/// The first position at or after `from` holding `c`, if any.
pub fn find_char(s: &str, from: usize, c: char) -> (r: Option<usize>)
    requires
        from <= s@.len(),
    ensures
        r matches Some(i) ==> from <= i < s@.len() && find_from(s@, from as int, c) == Some(
            i as int,
        ),
        r is None ==> find_from(s@, from as int, c) is None,
{
    let len = s.unicode_len();
    let mut i = from;
    while i < len
        invariant
            from <= i <= len,
            len == s@.len(),
            find_from(s@, from as int, c) == find_from(s@, i as int, c),
        decreases len - i,
    {
        if s.get_char(i) == c {
            return Some(i);
        }
        i = i + 1;
    }
    None
}

/// Read the number in `s[from..to]`; `None` when a non-digit stands there.
pub fn parse_digits(s: &str, from: usize, to: usize) -> (r: Option<u64>)
    requires
        from <= to <= s@.len(),
        to - from <= 14,
    ensures
        all_digits(s@.subrange(from as int, to as int)) ==> (r matches Some(v) && v as int
            == digits_value(s@.subrange(from as int, to as int))),
        !all_digits(s@.subrange(from as int, to as int)) ==> r is None,
{
    let mut acc: u64 = 0;
    let mut i = from;
    while i < to
        invariant
            from <= i <= to,
            to <= s@.len(),
            to - from <= 14,
            all_digits(s@.subrange(from as int, i as int)),
            acc as int == digits_value(s@.subrange(from as int, i as int)),
            acc < pow10((i - from) as int),
        decreases to - i,
    {
        let ch = s.get_char(i);
        let d = digit_val(ch);
        if d >= 10 {
            proof {
                assert(s@.subrange(from as int, to as int)[i - from] == s@[i as int]);
                assert(!all_digits(s@.subrange(from as int, to as int)));
            }
            return None;
        }
        proof {
            let pre = s@.subrange(from as int, i as int);
            let ext = s@.subrange(from as int, i as int + 1);
            assert(ext =~= pre.push(s@[i as int]));
            assert(ext.drop_last() =~= pre);
            reveal_with_fuel(pow10, 16);
            assert(pow10((i + 1 - from) as int) == 10 * pow10((i - from) as int));
            assert(pow10((i - from) as int) <= pow10(13)) by {
                lemma_pow10_increases((i - from) as int, 13);
            }
        }
        acc = acc * 10 + d;
        i = i + 1;
    }
    proof {
        assert(s@.subrange(from as int, i as int) =~= s@.subrange(from as int, to as int));
    }
    Some(acc)
}

/// `pow10` grows with its exponent.
pub proof fn lemma_pow10_increases(a: int, b: int)
    requires
        a <= b,
    ensures
        pow10(a) <= pow10(b),
    decreases b - a,
{
    if a < b {
        lemma_pow10_increases(a, b - 1);
        lemma_pow10_pos(b - 1);
    }
}

/// Whether the characters of `pat` stand in `s` at position `pos`.
pub fn match_at(s: &str, pos: usize, pat: &str) -> (r: bool)
    requires
        pos <= s@.len(),
    ensures
        r == (pos + pat@.len() <= s@.len() && s@.subrange(
            pos as int,
            pos as int + pat@.len() as int,
        ) == pat@),
{
    let len = s.unicode_len();
    let plen = pat.unicode_len();
    if plen > len - pos {
        return false;
    }
    let mut j: usize = 0;
    while j < plen
        invariant
            0 <= j <= plen,
            pos + plen <= len,
            len == s@.len(),
            plen == pat@.len(),
            forall|k: int| 0 <= k < j ==> s@[pos + k] == pat@[k],
        decreases plen - j,
    {
        if s.get_char(pos + j) != pat.get_char(j) {
            proof {
                assert(s@.subrange(pos as int, pos as int + pat@.len() as int)[j as int]
                    != pat@[j as int]);
            }
            return false;
        }
        j = j + 1;
    }
    proof {
        assert(s@.subrange(pos as int, pos as int + pat@.len() as int) =~= pat@);
    }
    true
}

} // verus!
