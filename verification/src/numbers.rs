//! Numbers and truth values as text.
use crate::text::{chars_of, same_text, string_of};
use vstd::prelude::*;

verus! {

/// The decimal digit `d`.
pub open spec fn digit(d: nat) -> char {
    ((48 + d) as u8) as char
}

/// `n` in decimal digits, without leading zeros.
pub open spec fn decimal(n: nat) -> Seq<char>
    decreases n,
{
    if n < 10 {
        seq![digit(n)]
    } else {
        decimal(n / 10).push(digit(n % 10))
    }
}

fn decimal_chars(n: u64) -> (r: Vec<char>)
    ensures
        r@ == decimal(n as nat),
    decreases n,
{
    if n < 10 {
        let mut r: Vec<char> = Vec::new();
        r.push((48 + n as u8) as char);
        assert(r@ =~= decimal(n as nat));
        r
    } else {
        let mut r = decimal_chars(n / 10);
        r.push((48 + (n % 10) as u8) as char);
        r
    }
}

/// `n` in decimal digits.
pub fn decimal_of(n: u64) -> (r: String)
    ensures
        r@ == decimal(n as nat),
{
    string_of(&decimal_chars(n))
}

/// Whether `c` is a decimal digit.
pub open spec fn is_digit(c: char) -> bool {
    '0' <= c <= '9'
}

/// Whether `s` is made of decimal digits.
pub open spec fn all_digits(s: Seq<char>) -> bool {
    forall|i: int| 0 <= i < s.len() ==> is_digit(#[trigger] s[i])
}

/// The number that the digits `s` stand for.
pub open spec fn number(s: Seq<char>) -> nat
    decreases s.len(),
{
    if s.len() == 0 {
        0
    } else {
        number(s.drop_last()) * 10 + ((s.last() as int - '0' as int) as nat)
    }
}

/// `s` without a plus sign in front.
pub open spec fn unsigned(s: Seq<char>) -> Seq<char> {
    if s.len() > 0 && s[0] == '+' {
        s.drop_first()
    } else {
        s
    }
}

/// The number that `s` stands for: at least one decimal digit, a plus sign allowed in front, and no
/// more than 64 bits.
pub open spec fn parse_number(s: Seq<char>) -> Option<u64> {
    let t = unsigned(s);
    if t.len() > 0 && all_digits(t) && number(t) <= u64::MAX {
        Some(number(t) as u64)
    } else {
        None
    }
}

/// More digits do not make a number smaller.
proof fn lemma_number_grows(s: Seq<char>, n: int)
    requires
        0 <= n <= s.len(),
        all_digits(s),
    ensures
        number(s.take(n)) <= number(s),
    decreases s.len() - n,
{
    if n < s.len() {
        lemma_number_grows(s, n + 1);
        assert(s.take(n + 1).drop_last() =~= s.take(n));
        assert(is_digit(s[n]));
    } else {
        assert(s.take(n) =~= s);
    }
}

/// The number that `text` stands for, if it is one.
pub fn parse_u64(text: &str) -> (r: Option<u64>)
    ensures
        r == parse_number(text@),
{
    let v = chars_of(text);
    let start: usize = if v.len() > 0 && v[0] == '+' {
        1
    } else {
        0
    };
    let ghost t = unsigned(v@);
    assert(t =~= v@.skip(start as int));
    if v.len() == start {
        return None;
    }
    let mut n: u64 = 0;
    assert(t.take(0) =~= Seq::<char>::empty());
    for i in start..v.len()
        invariant
            start <= 1,
            start <= v@.len(),
            v@ == text@,
            t == unsigned(text@),
            t == v@.skip(start as int),
            t.len() > 0,
            all_digits(t.take(i - start)),
            n == number(t.take(i - start)),
    {
        let c = v[i];
        let ghost k = i - start;
        assert(t[k] == c);
        assert(t.take(k + 1).drop_last() =~= t.take(k));
        if c < '0' || c > '9' {
            assert(!is_digit(t[k]));
            return None;
        }
        let d: u64 = (c as u32 - '0' as u32) as u64;
        assert(number(t.take(k + 1)) == number(t.take(k)) * 10 + d);
        if n > (u64::MAX - d) / 10 {
            proof {
                if all_digits(t) {
                    lemma_number_grows(t, k + 1);
                }
            }
            return None;
        }
        n = n * 10 + d;
        assert forall|j: int| 0 <= j < k + 1 implies is_digit(#[trigger] t.take(k + 1)[j]) by {
            if j < k {
                assert(is_digit(t.take(k)[j]));
            }
        }
    }
    assert(t.take(t.len() as int) =~= t);
    Some(n)
}

/// The truth value that `s` stands for: the word `true` or the word `false`.
pub open spec fn parse_truth(s: Seq<char>) -> Option<bool> {
    if s == "true"@ {
        Some(true)
    } else if s == "false"@ {
        Some(false)
    } else {
        None
    }
}

/// The truth value that `text` stands for, if it is one.
pub fn parse_bool(text: &str) -> (r: Option<bool>)
    ensures
        r == parse_truth(text@),
{
    if same_text(text, "true") {
        Some(true)
    } else if same_text(text, "false") {
        Some(false)
    } else {
        None
    }
}

} // verus!
