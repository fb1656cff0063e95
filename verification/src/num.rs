//! Decimal text for integers: rendering an integer as its decimal digit
//! sequence, and reading an integer back from such a sequence.

use vstd::prelude::*;

verus! {

/// Is `c` a decimal digit?
pub open spec fn is_digit(c: char) -> bool {
    '0' <= c && c <= '9'
}

/// Numeric value of a digit character.
pub open spec fn digit_val(c: char) -> int {
    c as int - '0' as int
}

/// The digit character for a value in `0 .. 10`.
pub open spec fn digit_char(d: int) -> char {
    ((48 + d) as u8) as char
}

/// Decimal representation of a natural number, most significant digit first.
pub open spec fn dec_rep(n: nat) -> Seq<char>
    decreases n,
{
    if n < 10 {
        seq![digit_char(n as int)]
    } else {
        dec_rep(n / 10).push(digit_char((n % 10) as int))
    }
}

/// Decimal representation of a signed integer.
pub open spec fn int_rep(v: int) -> Seq<char> {
    if v < 0 {
        seq!['-'] + dec_rep((-v) as nat)
    } else {
        dec_rep(v as nat)
    }
}

/// Value of a digit sequence read as a decimal numeral (most significant
/// digit first); meaningful when every character is a digit.
pub open spec fn digits_val(s: Seq<char>) -> nat
    decreases s.len(),
{
    if s.len() == 0 {
        0
    } else {
        digits_val(s.drop_last()) * 10 + (if is_digit(s.last()) {
            digit_val(s.last()) as nat
        } else {
            0
        })
    }
}

/// Is `s` a decimal numeral: one or more digits?
pub open spec fn all_digits(s: Seq<char>) -> bool {
    forall|i: int| 0 <= i < s.len() ==> is_digit(#[trigger] s[i])
}

/// The signed integer denoted by `s`, when `s` is an optional minus sign
/// followed by one or more digits and the value fits in `i64`.
pub open spec fn spec_parse_i64(s: Seq<char>) -> Option<i64> {
    let (neg, digits) = if s.len() > 0 && s[0] == '-' {
        (true, s.drop_first())
    } else {
        (false, s)
    };
    if digits.len() == 0 || !all_digits(digits) {
        None
    } else {
        let v = if neg {
            -(digits_val(digits) as int)
        } else {
            digits_val(digits) as int
        };
        if i64::MIN <= v <= i64::MAX {
            Some(v as i64)
        } else {
            None
        }
    }
}

/// Appends the decimal representation of `n` to `out`.
pub fn push_dec_u64(n: u64, out: &mut Vec<char>)
    ensures
        final(out)@ == old(out)@ + dec_rep(n as nat),
    decreases n,
{
    if n < 10 {
        let c = (48 + n as u8) as char;
        out.push(c);
        assert(out@ =~= old(out)@ + dec_rep(n as nat));
    } else {
        push_dec_u64(n / 10, out);
        let c = (48 + (n % 10) as u8) as char;
        out.push(c);
        assert(out@ =~= old(out)@ + dec_rep(n as nat));
    }
}

/// Appends the decimal representation of `v` to `out`, with a leading minus
/// sign when `v` is negative.
pub fn push_dec_i64(v: i64, out: &mut Vec<char>)
    ensures
        final(out)@ == old(out)@ + int_rep(v as int),
{
    if v < 0 {
        out.push('-');
        let m: u64 = if v == i64::MIN {
            9223372036854775808u64
        } else {
            (-v) as u64
        };
        assert(m == -(v as int));
        push_dec_u64(m, out);
        assert(out@ =~= old(out)@ + int_rep(v as int));
    } else {
        push_dec_u64(v as u64, out);
    }
}

/// Grows strictly: appending a digit multiplies the value by ten.
proof fn lemma_digits_val_prefix(s: Seq<char>, i: int)
    requires
        0 <= i <= s.len(),
    ensures
        digits_val(s.take(i)) <= digits_val(s),
    decreases s.len() - i,
{
    if i < s.len() {
        lemma_digits_val_prefix(s, i + 1);
        assert(s.take(i + 1).drop_last() =~= s.take(i));
        assert(digits_val(s.take(i)) <= digits_val(s.take(i + 1)));
    } else {
        assert(s.take(i) =~= s);
    }
}

/// Reads an unsigned decimal numeral; `None` when `s` is empty, holds a
/// non-digit, or denotes a value above `bound`.
fn parse_u64_bounded(s: &Vec<char>, from: usize, bound: u64) -> (r: Option<u64>)
    requires
        from <= s@.len(),
    ensures
        match r {
            Some(v) => {
                &&& all_digits(s@.skip(from as int))
                &&& s@.len() - from >= 1
                &&& v == digits_val(s@.skip(from as int))
                &&& v <= bound
            },
            None => s@.len() - from < 1 || !all_digits(s@.skip(from as int)) || digits_val(
                s@.skip(from as int),
            ) > bound,
        },
{
    let ghost digits = s@.skip(from as int);
    if from == s.len() {
        return None;
    }
    let mut acc: u64 = 0;
    let mut i: usize = from;
    while i < s.len()
        invariant
            from <= i <= s@.len(),
            digits == s@.skip(from as int),
            all_digits(digits.take(i - from)),
            acc == digits_val(digits.take(i - from)),
            acc <= bound,
        decreases s@.len() - i,
    {
        let c = s[i];
        if !('0' <= c && c <= '9') {
            proof {
                assert(digits[i - from] == c);
                assert(!all_digits(digits));
            }
            return None;
        }
        let d: u64 = (c as u64) - 48;
        if acc > bound / 10 || (acc == bound / 10 && d > bound % 10) {
            proof {
                assert(digits.take(i - from + 1).drop_last() =~= digits.take(i - from));
                assert(digits.take(i - from + 1).last() == c);
                assert(digits_val(digits.take(i - from + 1)) > bound);
                lemma_digits_val_prefix(digits, i - from + 1);
            }
            return None;
        }
        proof {
            assert(digits.take(i - from + 1).drop_last() =~= digits.take(i - from));
            assert(digits.take(i - from + 1).last() == c);
        }
        acc = acc * 10 + d;
        i = i + 1;
    }
    proof {
        assert(digits.take(i - from) =~= digits);
    }
    Some(acc)
}

/// Reads a signed decimal numeral: an optional minus sign followed by one or
/// more digits. Returns exactly the value that the text denotes, and `None`
/// exactly when the text is not such a numeral or overflows `i64`.
pub fn parse_i64_chars(s: &Vec<char>) -> (r: Option<i64>)
    ensures
        r == spec_parse_i64(s@),
{
    if s.len() > 0 && s[0] == '-' {
        proof {
            assert(s@.skip(1) =~= s@.drop_first());
        }
        match parse_u64_bounded(s, 1, 9223372036854775808u64) {
            Some(m) => {
                let v: i64 = if m == 9223372036854775808u64 {
                    i64::MIN
                } else {
                    -(m as i64)
                };
                Some(v)
            },
            None => None,
        }
    } else {
        proof {
            assert(s@.skip(0) =~= s@);
        }
        match parse_u64_bounded(s, 0, i64::MAX as u64) {
            Some(m) => Some(m as i64),
            None => None,
        }
    }
}

} // verus!
