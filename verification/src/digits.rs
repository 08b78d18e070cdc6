//! Decimal text for the integers that cross the wire: formatting a number
//! into its canonical decimal digits and reading a decimal string back.
//! Both directions are verified against the same digit-sequence model, so
//! the codec's contracts can speak of the exact characters on the line.

use vstd::prelude::*;

verus! {

/// Is `c` a decimal digit?
pub open spec fn is_digit(c: char) -> bool {
    c == '0' || c == '1' || c == '2' || c == '3' || c == '4' || c == '5' || c == '6' || c == '7'
        || c == '8' || c == '9'
}

/// The numeric value of the digit `c`.
pub open spec fn digit_val(c: char) -> nat {
    if c == '0' {
        0
    } else if c == '1' {
        1
    } else if c == '2' {
        2
    } else if c == '3' {
        3
    } else if c == '4' {
        4
    } else if c == '5' {
        5
    } else if c == '6' {
        6
    } else if c == '7' {
        7
    } else if c == '8' {
        8
    } else {
        9
    }
}

/// The digit character for a value below ten.
pub open spec fn digit_char(d: nat) -> char
    recommends
        d < 10,
{
    if d == 0 {
        '0'
    } else if d == 1 {
        '1'
    } else if d == 2 {
        '2'
    } else if d == 3 {
        '3'
    } else if d == 4 {
        '4'
    } else if d == 5 {
        '5'
    } else if d == 6 {
        '6'
    } else if d == 7 {
        '7'
    } else if d == 8 {
        '8'
    } else {
        '9'
    }
}

/// The canonical decimal digits of `n`, most significant first, with no
/// leading zero except for `n == 0` itself.
pub open spec fn dec_digits(n: nat) -> Seq<char>
    decreases n,
{
    if n < 10 {
        seq![digit_char(n)]
    } else {
        dec_digits(n / 10) + seq![digit_char(n % 10)]
    }
}

/// The canonical decimal text of a signed number: a leading minus sign for
/// negative values, then the digits of the magnitude.
pub open spec fn dec_int(n: int) -> Seq<char> {
    if n < 0 {
        seq!['-'] + dec_digits((-n) as nat)
    } else {
        dec_digits(n as nat)
    }
}

/// The number named by a digit string, most significant digit first.
pub open spec fn digits_val(s: Seq<char>) -> nat
    decreases s.len(),
{
    if s.len() == 0 {
        0
    } else {
        digits_val(s.drop_last()) * 10 + digit_val(s.last())
    }
}

/// Every character of `s` is a decimal digit.
pub open spec fn all_digits(s: Seq<char>) -> bool {
    forall|i: int| 0 <= i < s.len() ==> is_digit(s[i])
}

/// What `parse_i64` accepts: an optional minus sign, then at least one
/// digit, naming a value in the range of `i64`.
pub open spec fn spec_parse_i64(s: Seq<char>) -> Option<i64> {
    if s.len() >= 1 && s[0] == '-' {
        let ds = s.subrange(1, s.len() as int);
        if ds.len() >= 1 && all_digits(ds) && digits_val(ds) <= 0x8000_0000_0000_0000 {
            Some((-(digits_val(ds) as int)) as i64)
        } else {
            None
        }
    } else if s.len() >= 1 && all_digits(s) && digits_val(s) <= 0x7fff_ffff_ffff_ffff {
        Some(digits_val(s) as i64)
    } else {
        None
    }
}

/// A digit string never names less than any of its prefixes.
pub proof fn lemma_digits_val_prefix_le(t: Seq<char>, i: int)
    requires
        0 <= i <= t.len(),
    ensures
        digits_val(t.take(i)) <= digits_val(t),
    decreases t.len() - i,
{
    if i == t.len() {
        assert(t.take(i) =~= t);
    } else {
        lemma_digits_val_prefix_le(t, i + 1);
        assert(t.take(i + 1).drop_last() =~= t.take(i));
        assert(digits_val(t.take(i + 1)) == digits_val(t.take(i)) * 10 + digit_val(t[i]));
        assert(digits_val(t.take(i)) * 10 >= digits_val(t.take(i)));
    }
}

/// The canonical digits of a number are digits, and there is at least one.
pub proof fn lemma_dec_digits_shape(n: nat)
    ensures
        all_digits(dec_digits(n)),
        dec_digits(n).len() >= 1,
    decreases n,
{
    if n < 10 {
        assert(is_digit(dec_digits(n)[0]));
    } else {
        lemma_dec_digits_shape(n / 10);
        assert forall|i: int| 0 <= i < dec_digits(n).len() implies is_digit(
            dec_digits(n)[i],
        ) by {
            if i < dec_digits(n / 10).len() {
                assert(dec_digits(n)[i] == dec_digits(n / 10)[i]);
            } else {
                assert(dec_digits(n)[i] == digit_char(n % 10));
            }
        }
    }
}

/// The canonical digits of a number name that number back.
pub proof fn lemma_dec_digits_value(n: nat)
    ensures
        digits_val(dec_digits(n)) == n,
    decreases n,
{
    assert(digits_val(Seq::<char>::empty()) == 0);
    if n < 10 {
        assert(dec_digits(n) == seq![digit_char(n)]);
        assert(dec_digits(n).drop_last() =~= Seq::<char>::empty());
        assert(dec_digits(n).last() == digit_char(n));
        assert(digits_val(dec_digits(n)) == digits_val(dec_digits(n).drop_last()) * 10
            + digit_val(dec_digits(n).last()));
        assert(digit_val(digit_char(n)) == n);
    } else {
        lemma_dec_digits_value(n / 10);
        assert(dec_digits(n).drop_last() =~= dec_digits(n / 10));
        assert(dec_digits(n).last() == digit_char(n % 10));
        assert(digits_val(dec_digits(n)) == digits_val(dec_digits(n).drop_last()) * 10
            + digit_val(dec_digits(n).last()));
        assert(digit_val(digit_char(n % 10)) == n % 10);
    }
}

/// Formatting a signed 64-bit number and reading the text back yields the
/// same number: the decimal text is a faithful image of the value.
pub proof fn lemma_dec_int_round_trip(n: i64)
    ensures
        spec_parse_i64(dec_int(n as int)) == Some(n),
{
    if n >= 0 {
        lemma_dec_digits_shape(n as nat);
        lemma_dec_digits_value(n as nat);
        let s = dec_digits(n as nat);
        assert(is_digit(s[0]));
        assert(s[0] != '-');
    } else {
        let mag = (-(n as int)) as nat;
        lemma_dec_digits_shape(mag);
        lemma_dec_digits_value(mag);
        let s = dec_int(n as int);
        assert(s[0] == '-');
        assert(s.subrange(1, s.len() as int) =~= dec_digits(mag));
        assert(mag <= 0x8000_0000_0000_0000);
    }
}

/// Appends the single digit `d` to `s`.
fn append_digit(s: &mut String, d: u64)
    requires
        d < 10,
    ensures
        final(s)@ == old(s)@ + seq![digit_char(d as nat)],
{
    if d == 0 {
        s.append("0");
        proof {
            reveal_strlit("0");
            assert(s@ =~= old(s)@ + seq![digit_char(d as nat)]);
        }
    } else if d == 1 {
        s.append("1");
        proof {
            reveal_strlit("1");
            assert(s@ =~= old(s)@ + seq![digit_char(d as nat)]);
        }
    } else if d == 2 {
        s.append("2");
        proof {
            reveal_strlit("2");
            assert(s@ =~= old(s)@ + seq![digit_char(d as nat)]);
        }
    } else if d == 3 {
        s.append("3");
        proof {
            reveal_strlit("3");
            assert(s@ =~= old(s)@ + seq![digit_char(d as nat)]);
        }
    } else if d == 4 {
        s.append("4");
        proof {
            reveal_strlit("4");
            assert(s@ =~= old(s)@ + seq![digit_char(d as nat)]);
        }
    } else if d == 5 {
        s.append("5");
        proof {
            reveal_strlit("5");
            assert(s@ =~= old(s)@ + seq![digit_char(d as nat)]);
        }
    } else if d == 6 {
        s.append("6");
        proof {
            reveal_strlit("6");
            assert(s@ =~= old(s)@ + seq![digit_char(d as nat)]);
        }
    } else if d == 7 {
        s.append("7");
        proof {
            reveal_strlit("7");
            assert(s@ =~= old(s)@ + seq![digit_char(d as nat)]);
        }
    } else if d == 8 {
        s.append("8");
        proof {
            reveal_strlit("8");
            assert(s@ =~= old(s)@ + seq![digit_char(d as nat)]);
        }
    } else {
        s.append("9");
        proof {
            reveal_strlit("9");
            assert(s@ =~= old(s)@ + seq![digit_char(d as nat)]);
        }
    }
}

/// Appends the decimal digits of `n` to `s`.
pub fn append_u64(s: &mut String, n: u64)
    ensures
        final(s)@ == old(s)@ + dec_digits(n as nat),
    decreases n,
{
    if n < 10 {
        append_digit(s, n);
    } else {
        append_u64(s, n / 10);
        append_digit(s, n % 10);
        proof {
            assert(s@ =~= old(s)@ + dec_digits(n as nat));
        }
    }
}

/// Appends the decimal text of `n`, sign included, to `s`.
pub fn append_i64(s: &mut String, n: i64)
    ensures
        final(s)@ == old(s)@ + dec_int(n as int),
{
    if n >= 0 {
        append_u64(s, n as u64);
    } else {
        s.append("-");
        let mag: u64 = (-(n as i128)) as u64;
        append_u64(s, mag);
        proof {
            reveal_strlit("-");
            assert(s@ =~= old(s)@ + dec_int(n as int));
        }
    }
}

/// Reads the digit at position `i` of `s`, if there is one.
fn digit_at(s: &str, i: usize) -> (r: Option<u64>)
    requires
        i < s@.len(),
    ensures
        match r {
            Some(d) => is_digit(s@[i as int]) && d == digit_val(s@[i as int]) && d < 10,
            None => !is_digit(s@[i as int]),
        },
{
    let c = s.get_char(i);
    if c == '0' {
        Some(0)
    } else if c == '1' {
        Some(1)
    } else if c == '2' {
        Some(2)
    } else if c == '3' {
        Some(3)
    } else if c == '4' {
        Some(4)
    } else if c == '5' {
        Some(5)
    } else if c == '6' {
        Some(6)
    } else if c == '7' {
        Some(7)
    } else if c == '8' {
        Some(8)
    } else if c == '9' {
        Some(9)
    } else {
        None
    }
}

/// Reads the digit string `s[lo..]` as a number of at most `limit`.
fn parse_digits(s: &str, lo: usize, limit: u64) -> (r: Option<u64>)
    requires
        lo <= s@.len(),
    ensures
        ({
            let ds = s@.subrange(lo as int, s@.len() as int);
            match r {
                Some(v) => ds.len() >= 1 && all_digits(ds) && v == digits_val(ds) && v <= limit,
                None => ds.len() == 0 || !all_digits(ds) || digits_val(ds) > limit,
            }
        }),
{
    let ghost ds = s@.subrange(lo as int, s@.len() as int);
    let n = s.unicode_len();
    if lo >= n {
        return None;
    }
    let mut acc: u64 = 0;
    let mut i = lo;
    while i < n
        invariant
            lo <= i <= n,
            n == s@.len(),
            ds == s@.subrange(lo as int, s@.len() as int),
            acc == digits_val(s@.subrange(lo as int, i as int)),
            acc <= limit,
            all_digits(s@.subrange(lo as int, i as int)),
        decreases n - i,
    {
        let d = match digit_at(s, i) {
            Some(d) => d,
            None => {
                proof {
                    assert(ds[i - lo] == s@[i as int]);
                    assert(!all_digits(ds));
                }
                return None;
            },
        };
        let next: u128 = acc as u128 * 10 + d as u128;
        proof {
            assert(s@.subrange(lo as int, i + 1).drop_last() =~= s@.subrange(lo as int, i as int));
            assert(s@.subrange(lo as int, i + 1).last() == s@[i as int]);
            assert(digits_val(s@.subrange(lo as int, i + 1)) == acc * 10 + d);
        }
        if next > limit as u128 {
            proof {
                assert(s@.subrange(lo as int, i + 1) =~= ds.take(i + 1 - lo));
                lemma_digits_val_prefix_le(ds, i + 1 - lo);
                assert(digits_val(ds) > limit);
            }
            return None;
        }
        acc = next as u64;
        i += 1;
        proof {
            assert(forall|k: int|
                0 <= k < i - lo ==> s@.subrange(lo as int, i as int)[k] == s@[lo + k]);
        }
    }
    proof {
        assert(ds =~= s@.subrange(lo as int, i as int));
        assert(ds.len() >= 1);
    }
    Some(acc)
}

/// Reads the decimal text `s` as a signed 64-bit number: an optional minus
/// sign, then at least one digit, within the range of `i64`; anything else
/// is refused.
pub fn parse_i64(s: &str) -> (r: Option<i64>)
    ensures
        r == spec_parse_i64(s@),
{
    let n = s.unicode_len();
    if n == 0 {
        return None;
    }
    if s.get_char(0) == '-' {
        match parse_digits(s, 1, 0x8000_0000_0000_0000u64) {
            Some(v) => Some((-(v as i128)) as i64),
            None => None,
        }
    } else {
        proof {
            assert(s@.subrange(0, s@.len() as int) =~= s@);
        }
        match parse_digits(s, 0, 0x7fff_ffff_ffff_ffffu64) {
            Some(v) => Some(v as i64),
            None => None,
        }
    }
}

} // verus!
