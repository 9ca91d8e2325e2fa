//! Parsing of head-style count tokens: a strictly positive count, and a
//! signed count whose leading minus selects all-but-the-last semantics.
//! An invalid token is handed back verbatim so callers can name it.

use vstd::prelude::*;
use vstd::string::*;
use crate::window::Count;

verus! {

/// Whether `c` is a decimal digit.
pub open spec fn is_dec_digit(c: char) -> bool {
    '0' <= c && c <= '9'
}

/// The numeric value of a decimal digit character.
pub open spec fn digit_value(c: char) -> nat
    recommends
        is_dec_digit(c),
{
    (c as int - '0' as int) as nat
}

/// Whether every character of `s` is a decimal digit.
pub open spec fn all_dec_digits(s: Seq<char>) -> bool {
    forall|i: int| 0 <= i < s.len() ==> is_dec_digit(s[i])
}

/// The value of a run of decimal digits, most significant first.
pub open spec fn digits_value(s: Seq<char>) -> nat
    decreases s.len(),
{
    if s.len() == 0 {
        0
    } else {
        digits_value(s.drop_last()) * 10 + digit_value(s.last())
    }
}

/// A nonempty run of decimal digits.
pub open spec fn is_digit_run(s: Seq<char>) -> bool {
    s.len() > 0 && all_dec_digits(s)
}

/// The token with an optional leading plus sign removed.
pub open spec fn unsigned_body(s: Seq<char>) -> Seq<char> {
    if s.len() > 0 && s[0] == '+' {
        s.skip(1)
    } else {
        s
    }
}

/// The token with an optional leading minus sign removed.
pub open spec fn signed_body(s: Seq<char>) -> Seq<char> {
    if s.len() > 0 && s[0] == '-' {
        s.skip(1)
    } else {
        s
    }
}

/// Whether `s` is a valid strictly positive count token: optional plus
/// sign, digits, value representable and nonzero.
pub open spec fn positive_int_ok(s: Seq<char>) -> bool {
    is_digit_run(unsigned_body(s)) && digits_value(unsigned_body(s)) <= usize::MAX
        && digits_value(unsigned_body(s)) > 0
}

/// Whether `s` is a valid signed count token: optional minus sign, then
/// digits whose value is representable.
pub open spec fn count_token_ok(s: Seq<char>) -> bool {
    is_digit_run(signed_body(s)) && digits_value(signed_body(s)) <= usize::MAX
}

/// The count a valid signed token denotes: a leading minus selects
/// all-but-the-last semantics.
pub open spec fn count_of(s: Seq<char>) -> Count
    recommends
        count_token_ok(s),
{
    if s.len() > 0 && s[0] == '-' {
        Count::AllButLast(digits_value(s.skip(1)) as usize)
    } else {
        Count::First(digits_value(s) as usize)
    }
}

/// Appending digit `j` multiplies the prefix value by ten and adds it.
proof fn lemma_digits_value_step(s: Seq<char>, j: int)
    requires
        0 <= j < s.len(),
    ensures
        digits_value(s.take(j + 1)) == digits_value(s.take(j)) * 10 + digit_value(s[j]),
{
    assert(s.take(j + 1).drop_last() =~= s.take(j));
    assert(s.take(j + 1).last() == s[j]);
}

/// Over digits, the value of a prefix never exceeds the whole value.
proof fn lemma_digits_value_prefix(s: Seq<char>, j: int)
    requires
        0 <= j <= s.len(),
        all_dec_digits(s),
    ensures
        digits_value(s.take(j)) <= digits_value(s),
    decreases s.len(),
{
    if j < s.len() {
        assert(all_dec_digits(s.drop_last()));
        assert(s.take(j) =~= s.drop_last().take(j));
        lemma_digits_value_prefix(s.drop_last(), j);
        assert(digits_value(s.drop_last()) * 10 >= digits_value(s.drop_last()));
    } else {
        assert(s.take(j) =~= s);
    }
}

/// Parses the digits of `s` from position `start` to the end. `None`
/// when anything but a nonempty all-digit run stands there, or when the
/// value does not fit.
fn parse_digit_run(s: &str, start: usize) -> (r: Option<usize>)
    requires
        start as int <= s@.len(),
    ensures
        ({
            let body = s@.skip(start as int);
            match r {
                Some(v) => is_digit_run(body) && digits_value(body) <= usize::MAX && v
                    == digits_value(body),
                None => !(is_digit_run(body) && digits_value(body) <= usize::MAX),
            }
        }),
{
    let ghost body = s@.skip(start as int);
    let len = s.unicode_len();
    if start >= len {
        return None;
    }
    let mut acc: usize = 0;
    let mut i: usize = start;
    while i < len
        invariant
            start <= i <= len,
            len == s@.len(),
            body == s@.skip(start as int),
            all_dec_digits(body.take(i - start)),
            acc == digits_value(body.take(i - start)),
        decreases len - i,
    {
        let c = s.get_char(i);
        proof {
            assert(body[i - start] == s@[i as int]);
        }
        let cv = c as u32;
        if cv < 48 || cv > 57 {
            proof {
                assert(!is_dec_digit(body[i - start]));
            }
            return None;
        }
        let d = (cv - 48) as usize;
        proof {
            assert(d == digit_value(body[i - start]));
            lemma_digits_value_step(body, i - start);
        }
        let next: usize = match acc.checked_mul(10) {
            Some(m10) => match m10.checked_add(d) {
                Some(n) => n,
                None => {
                    proof {
                        if all_dec_digits(body) {
                            lemma_digits_value_prefix(body, i - start + 1);
                        }
                    }
                    return None;
                },
            },
            None => {
                proof {
                    if all_dec_digits(body) {
                        lemma_digits_value_prefix(body, i - start + 1);
                    }
                }
                return None;
            },
        };
        acc = next;
        i += 1;
    }
    proof {
        assert(body.take(len - start) =~= body);
    }
    Some(acc)
}

/// Parses a strictly positive decimal count, as the line and byte
/// options of the head-style surface historically required. The exact
/// offending token comes back as the error.
pub fn parse_positive_int(val: &str) -> (r: Result<usize, String>)
    ensures
        ({
            let s = val@;
            if positive_int_ok(s) {
                r matches Ok(v) && v == digits_value(unsigned_body(s))
            } else {
                r matches Err(e) && e@ == s
            }
        }),
{
    let len = val.unicode_len();
    let mut start: usize = 0;
    if len > 0 {
        let c0 = val.get_char(0);
        if c0 == '+' {
            start = 1;
        }
    }
    proof {
        assert(unsigned_body(val@) =~= val@.skip(start as int));
    }
    match parse_digit_run(val, start) {
        Some(v) => {
            if v > 0 {
                Ok(v)
            } else {
                Err(val.to_owned())
            }
        },
        None => Err(val.to_owned()),
    }
}

/// Parses a signed decimal count token: an optional leading minus, then
/// digits. The exact offending token comes back as the error.
pub fn parse_count(val: &str) -> (r: Result<Count, String>)
    ensures
        ({
            let s = val@;
            if count_token_ok(s) {
                r matches Ok(c) && c == count_of(s)
            } else {
                r matches Err(e) && e@ == s
            }
        }),
{
    let len = val.unicode_len();
    let mut neg = false;
    let mut start: usize = 0;
    if len > 0 {
        let c0 = val.get_char(0);
        if c0 == '-' {
            neg = true;
            start = 1;
        }
    }
    proof {
        assert(signed_body(val@) =~= val@.skip(start as int));
    }
    match parse_digit_run(val, start) {
        Some(v) => {
            if neg {
                Ok(Count::AllButLast(v))
            } else {
                Ok(Count::First(v))
            }
        },
        None => Err(val.to_owned()),
    }
}

} // verus!
