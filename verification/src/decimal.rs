//! Decimal text for unsigned integers: rendering and parsing, with the
//! exact rules of Rust's `u64` `Display` and `FromStr`.

use vstd::prelude::*;

verus! {

/// Whether `c` is an ASCII decimal digit.
pub open spec fn is_digit(c: char) -> bool {
    '0' <= c && c <= '9'
}

/// Numeric value of a digit character.
pub open spec fn digit_value(c: char) -> int {
    (c as int) - ('0' as int)
}

/// The digit character for `d`, where `0 <= d < 10`.
pub open spec fn digit_char(d: int) -> char {
    if d == 0 { '0' }
    else if d == 1 { '1' }
    else if d == 2 { '2' }
    else if d == 3 { '3' }
    else if d == 4 { '4' }
    else if d == 5 { '5' }
    else if d == 6 { '6' }
    else if d == 7 { '7' }
    else if d == 8 { '8' }
    else { '9' }
}

/// The shortest decimal text of `n`, as `u64`'s `Display` writes it.
pub open spec fn decimal(n: nat) -> Seq<char>
    decreases n,
{
    if n < 10 {
        seq![digit_char(n as int)]
    } else {
        decimal(n / 10).push(digit_char((n % 10) as int))
    }
}

/// Whether every character of `d` is a decimal digit.
pub open spec fn all_digits(d: Seq<char>) -> bool {
    forall|i: int| 0 <= i < d.len() ==> is_digit(#[trigger] d[i])
}

/// The value of a digit string read in base ten.
pub open spec fn digits_value(d: Seq<char>) -> nat
    decreases d.len(),
{
    if d.len() == 0 {
        0
    } else {
        (digits_value(d.drop_last()) * 10 + digit_value(d.last())) as nat
    }
}

/// The digits of a numeral: the text without one leading `+`.
pub open spec fn numeral_digits(t: Seq<char>) -> Seq<char> {
    if t.len() > 0 && t[0] == '+' {
        t.drop_first()
    } else {
        t
    }
}

/// Whether `u64::from_str` accepts `t`: an optional `+`, then at least one
/// digit, with a value that fits in 64 bits.
pub open spec fn parses_as_u64(t: Seq<char>) -> bool {
    let d = numeral_digits(t);
    &&& d.len() > 0
    &&& all_digits(d)
    &&& digits_value(d) <= u64::MAX
}

/// The value `u64::from_str` gives for `t`, where it accepts `t`.
pub open spec fn numeral_value(t: Seq<char>) -> nat {
    digits_value(numeral_digits(t))
}

proof fn lemma_digit_char(d: int)
    requires
        0 <= d < 10,
    ensures
        is_digit(digit_char(d)),
        digit_value(digit_char(d)) == d,
        digit_char(d) != '+',
        digit_char(d) != '|',
{
}

/// The decimal text of `n` is a non-empty run of digits, without a sign,
/// whose value is `n`.
pub proof fn lemma_decimal_digits(n: nat)
    ensures
        decimal(n).len() > 0,
        all_digits(decimal(n)),
        digits_value(decimal(n)) == n,
        decimal(n)[0] != '+',
    decreases n,
{
    if n < 10 {
        lemma_digit_char(n as int);
        assert(decimal(n).drop_last() =~= Seq::<char>::empty());
        assert(digits_value(Seq::<char>::empty()) == 0);
        assert(decimal(n).last() == digit_char(n as int));
    } else {
        lemma_decimal_digits(n / 10);
        lemma_digit_char((n % 10) as int);
        let d = decimal(n);
        assert(d.drop_last() =~= decimal(n / 10));
        assert(d.last() == digit_char((n % 10) as int));
        assert(digit_value(d.last()) == n % 10);
        assert(digits_value(d) == digits_value(decimal(n / 10)) * 10 + n % 10);
        assert((n / 10) * 10 + n % 10 == n) by (nonlinear_arith);
        assert forall|i: int| 0 <= i < d.len() implies is_digit(#[trigger] d[i]) by {
            if i < d.len() - 1 {
                assert(d[i] == decimal(n / 10)[i]);
            }
        }
    }
}

/// Reading back the decimal text of a `u64` gives the number.
pub proof fn lemma_decimal_parses(n: u64)
    ensures
        parses_as_u64(decimal(n as nat)),
        numeral_value(decimal(n as nat)) == n,
{
    lemma_decimal_digits(n as nat);
}

/// The value of a prefix never exceeds that of a longer prefix.
proof fn lemma_digits_value_prefix(d: Seq<char>, i: int, j: int)
    requires
        0 <= i <= j <= d.len(),
        all_digits(d),
    ensures
        digits_value(d.take(i)) <= digits_value(d.take(j)),
    decreases j - i,
{
    if i < j {
        lemma_digits_value_prefix(d, i, j - 1);
        assert(d.take(j).drop_last() =~= d.take(j - 1));
        assert(is_digit(d[j - 1]));
    }
}

/// One-character text of the digit `d`.
fn digit_str(d: u64) -> (s: &'static str)
    requires
        d < 10,
    ensures
        s@ == seq![digit_char(d as int)],
{
    if d == 0 {
        proof { reveal_strlit("0"); }
        "0"
    } else if d == 1 {
        proof { reveal_strlit("1"); }
        "1"
    } else if d == 2 {
        proof { reveal_strlit("2"); }
        "2"
    } else if d == 3 {
        proof { reveal_strlit("3"); }
        "3"
    } else if d == 4 {
        proof { reveal_strlit("4"); }
        "4"
    } else if d == 5 {
        proof { reveal_strlit("5"); }
        "5"
    } else if d == 6 {
        proof { reveal_strlit("6"); }
        "6"
    } else if d == 7 {
        proof { reveal_strlit("7"); }
        "7"
    } else if d == 8 {
        proof { reveal_strlit("8"); }
        "8"
    } else {
        proof { reveal_strlit("9"); }
        "9"
    }
}

/// Appends the decimal text of `n` to `out`.
pub fn push_decimal(n: u64, out: &mut String)
    ensures
        final(out)@ == old(out)@ + decimal(n as nat),
    decreases n,
{
    if n >= 10 {
        push_decimal(n / 10, out);
    }
    out.append(digit_str(n % 10));
    proof {
        if n >= 10 {
            assert(decimal(n as nat) == decimal((n / 10) as nat).push(digit_char((n % 10) as int)));
        }
    }
}

/// The decimal text of `n`.
pub fn u64_to_decimal(n: u64) -> (s: String)
    ensures
        s@ == decimal(n as nat),
{
    let mut s = String::new();
    push_decimal(n, &mut s);
    assert(s@ =~= decimal(n as nat));
    s
}

/// Parses `t[lo..hi]` as `u64::from_str` does: `Some` exactly where it
/// accepts the text, with its value.
pub fn parse_u64(t: &Vec<char>, lo: usize, hi: usize) -> (r: Option<u64>)
    requires
        lo <= hi <= t@.len(),
    ensures
        r is Some <==> parses_as_u64(t@.subrange(lo as int, hi as int)),
        r matches Some(v) ==> v == numeral_value(t@.subrange(lo as int, hi as int)),
{
    let ghost text = t@.subrange(lo as int, hi as int);
    let mut start = lo;
    if lo < hi && t[lo] == '+' {
        start = lo + 1;
    }
    let ghost d = t@.subrange(start as int, hi as int);
    assert(d =~= numeral_digits(text));
    if start == hi {
        return None;
    }
    let mut value: u64 = 0;
    let mut i = start;
    while i < hi
        invariant
            start <= i <= hi <= t@.len(),
            d == t@.subrange(start as int, hi as int),
            d == numeral_digits(t@.subrange(lo as int, hi as int)),
            all_digits(d.take(i - start)),
            value == digits_value(d.take(i - start)),
        decreases hi - i,
    {
        let c = t[i];
        if !('0' <= c && c <= '9') {
            proof {
                assert(d[i - start] == c);
            }
            return None;
        }
        let dv = (c as u32 - '0' as u32) as u64;
        proof {
            assert(d.take(i - start + 1).drop_last() =~= d.take(i - start));
            assert(d.take(i - start + 1).last() == c);
        }
        let next = match value.checked_mul(10) {
            Some(m) => m.checked_add(dv),
            None => None,
        };
        match next {
            Some(v) => {
                value = v;
                proof {
                    assert forall|k: int| 0 <= k < d.take(i - start + 1).len() implies is_digit(
                        #[trigger] d.take(i - start + 1)[k],
                    ) by {
                        if k < i - start {
                            assert(d.take(i - start + 1)[k] == d.take(i - start)[k]);
                        }
                    }
                }
                i = i + 1;
            },
            None => {
                proof {
                    assert forall|k: int| 0 <= k < d.take(i - start + 1).len() implies is_digit(
                        #[trigger] d.take(i - start + 1)[k],
                    ) by {
                        if k < i - start {
                            assert(d.take(i - start + 1)[k] == d.take(i - start)[k]);
                        }
                    }
                    if all_digits(d) {
                        lemma_digits_value_prefix(d, i - start + 1, d.len() as int);
                        assert(d.take(d.len() as int) =~= d);
                    }
                }
                return None;
            },
        }
    }
    proof {
        assert(d.take(i - start) =~= d);
    }
    Some(value)
}

} // verus!
