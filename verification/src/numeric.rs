use vstd::prelude::*;
use vstd::std_specs::iter::IteratorSpec;
use vstd::string::StrSliceExecFns;

verus! {

broadcast use vstd::string::group_string_axioms;

/// The ASCII digit for `d`, which lies in `0..10`.
pub open spec fn digit_char(d: int) -> char {
    ((d + 48) as u8) as char
}

/// The decimal digits of `n`, most significant first, with no leading zero.
pub open spec fn decimal(n: nat) -> Seq<char>
    decreases n,
{
    if n < 10 {
        seq![digit_char(n as int)]
    } else {
        decimal(n / 10).push(digit_char((n % 10) as int))
    }
}

/// `n` written in decimal, with a leading `-` when it is negative, as `Display` writes integers.
pub open spec fn signed_decimal(n: int) -> Seq<char> {
    if n < 0 {
        seq!['-'] + decimal((-n) as nat)
    } else {
        decimal(n as nat)
    }
}

fn push_decimal(s: &mut String, n: u64)
    ensures
        final(s)@ == old(s)@ + decimal(n as nat),
    decreases n,
{
    if n >= 10 {
        push_decimal(s, n / 10);
    }
    let d: u8 = (n % 10) as u8;
    let c: char = (d + 48) as char;
    let ghost mid = s@;
    crate::bindings::string_push(s, c);
    assert(c == digit_char((n % 10) as int));
    if n < 10 {
        assert(s@ =~= old(s)@ + decimal(n as nat));
    } else {
        assert(s@ =~= old(s)@ + decimal(n as nat));
    }
}

/// Writes `n` in decimal.
pub fn format_decimal(n: i64) -> (r: String)
    ensures
        r@ == signed_decimal(n as int),
{
    let mut r = String::new();
    if n < 0 {
        crate::bindings::string_push(&mut r, '-');
        let wide: i128 = n as i128;
        let magnitude: u64 = (-wide) as u64;
        push_decimal(&mut r, magnitude);
    } else {
        push_decimal(&mut r, n as u64);
    }
    r
}

/// Writes a count in decimal.
pub fn format_count(n: usize) -> (r: String)
    ensures
        r@ == decimal(n as nat),
{
    let mut r = String::new();
    push_decimal(&mut r, n as u64);
    assert(r@ =~= decimal(n as nat));
    r
}

/// Whether `c` is an ASCII decimal digit.
pub open spec fn is_digit(c: char) -> bool {
    '0' <= c <= '9'
}

/// Whether every character of `s` is an ASCII decimal digit.
pub open spec fn all_digits(s: Seq<char>) -> bool {
    forall|i: int| 0 <= i < s.len() ==> is_digit(#[trigger] s[i])
}

/// The number that the decimal digits `s` denote.
pub open spec fn digits_value(s: Seq<char>) -> int
    decreases s.len(),
{
    if s.len() == 0 {
        0
    } else {
        digits_value(s.drop_last()) * 10 + (s.last() as int - 48)
    }
}

/// What `str::parse::<i64>` gives for `s`: an optional `+` or `-`, then at least one
/// decimal digit and nothing else, denoting a number that fits in an `i64`.
pub open spec fn parse_i64_spec(s: Seq<char>) -> Option<i64> {
    let signed = s.len() > 0 && (s[0] == '-' || s[0] == '+');
    let digits = if signed { s.skip(1) } else { s };
    let value = if s.len() > 0 && s[0] == '-' { -digits_value(digits) } else { digits_value(digits) };
    if digits.len() == 0 || !all_digits(digits) {
        None
    } else if i64::MIN <= value <= i64::MAX {
        Some(value as i64)
    } else {
        None
    }
}

proof fn lemma_digits_value_nonneg(s: Seq<char>)
    requires
        all_digits(s),
    ensures
        digits_value(s) >= 0,
    decreases s.len(),
{
    if s.len() > 0 {
        assert(all_digits(s.drop_last())) by {
            assert forall|i: int| 0 <= i < s.drop_last().len() implies is_digit(#[trigger] s.drop_last()[i]) by {
                assert(s.drop_last()[i] == s[i]);
            }
        }
        lemma_digits_value_nonneg(s.drop_last());
        assert(is_digit(s[s.len() - 1]));
    }
}

proof fn lemma_digits_value_grows(s: Seq<char>, k: int)
    requires
        all_digits(s),
        0 <= k <= s.len(),
    ensures
        digits_value(s.take(k)) <= digits_value(s),
    decreases s.len() - k,
{
    if k < s.len() {
        lemma_digits_value_grows(s, k + 1);
        let t = s.take(k + 1);
        assert(t.drop_last() =~= s.take(k));
        assert(all_digits(s.take(k))) by {
            assert forall|i: int| 0 <= i < s.take(k).len() implies is_digit(#[trigger] s.take(k)[i]) by {
                assert(s.take(k)[i] == s[i]);
            }
        }
        lemma_digits_value_nonneg(s.take(k));
        assert(is_digit(s[k]));
        assert(t.last() == s[k]);
    } else {
        assert(s.take(k) =~= s);
    }
}

/// Parses a decimal `i64` exactly as `str::parse::<i64>` does; `None` stands for its error.
pub fn parse_i64(s: &str) -> (r: Option<i64>)
    ensures
        r == parse_i64_spec(s@),
{
    let n = s.unicode_len();
    if n == 0 {
        return None;
    }
    let first = s.get_char(0);
    let negative = first == '-';
    let start: usize = if first == '-' || first == '+' { 1 } else { 0 };
    if start == n {
        return None;
    }
    let digits = s.substring_char(start, n);
    assert(digits@ =~= if start == 1 { s@.skip(1) } else { s@ });
    let ghost d = digits@;
    // the magnitude read so far; an i64 never needs more than 2^63
    let mut acc: u64 = 0;
    let chars = digits.chars();
    assert(chars.remaining() == d);
    let bound: u64 = 0x8000_0000_0000_0000;
    for c in it: chars
        invariant
            it.seq() == d,
            d.len() == n - start,
            n == s@.len(),
            n > 0,
            first == s@[0],
            negative == (first == '-'),
            start == (if first == '-' || first == '+' { 1usize } else { 0usize }),
            d == (if start == 1 { s@.skip(1) } else { s@ }),
            0 <= it.index() <= d.len(),
            all_digits(d.take(it.index())),
            acc == digits_value(d.take(it.index())),
            acc <= bound,
            bound == 0x8000_0000_0000_0000u64,
    {
        let ghost i = it.index();
        assert(c == d[i]);
        assert(d.take(i + 1).drop_last() =~= d.take(i));
        assert(d.take(i + 1).last() == c);
        if c < '0' || c > '9' {
            assert(!all_digits(d)) by {
                assert(!is_digit(d[i]));
            }
            return None;
        }
        let v: u64 = (c as u64) - 48;
        if acc > (bound - v) / 10 {
            proof {
                assert(all_digits(d.take(i + 1))) by {
                    assert forall|j: int| 0 <= j < i + 1 implies is_digit(#[trigger] d.take(i + 1)[j]) by {
                        if j < i {
                            assert(d.take(i + 1)[j] == d.take(i)[j]);
                        }
                    }
                }
                assert(digits_value(d.take(i + 1)) > bound) by (nonlinear_arith)
                    requires
                        acc > (bound - v) / 10,
                        digits_value(d.take(i + 1)) == acc * 10 + v,
                        v <= 9,
                        bound > 9,
                ;
                if all_digits(d) {
                    lemma_digits_value_grows(d, i + 1);
                }
            }
            return None;
        }
        assert(all_digits(d.take(i + 1))) by {
            assert forall|j: int| 0 <= j < i + 1 implies is_digit(#[trigger] d.take(i + 1)[j]) by {
                if j < i {
                    assert(d.take(i + 1)[j] == d.take(i)[j]);
                }
            }
        }
        assert(acc * 10 + v <= bound) by (nonlinear_arith)
            requires
                acc <= (bound - v) / 10,
                v <= 9,
                bound > 9,
        ;
        acc = acc * 10 + v;
    }
    assert(d.take(d.len() as int) =~= d);
    if negative {
        let wide: i128 = -(acc as i128);
        Some(wide as i64)
    } else if acc <= 0x7fff_ffff_ffff_ffff {
        Some(acc as i64)
    } else {
        None
    }
}

proof fn lemma_decimal(n: nat)
    ensures
        decimal(n).len() >= 1,
        all_digits(decimal(n)),
        digits_value(decimal(n)) == n,
    decreases n,
{
    if n < 10 {
        let c = digit_char(n as int);
        assert(c as int == n + 48);
        assert(decimal(n).drop_last() =~= Seq::<char>::empty());
        assert(decimal(n).last() == c);
        assert(digits_value(decimal(n)) == digits_value(Seq::<char>::empty()) * 10 + (c as int - 48));
    } else {
        lemma_decimal(n / 10);
        let c = digit_char((n % 10) as int);
        assert(c as int == n % 10 + 48);
        let d = decimal(n);
        assert(d.drop_last() =~= decimal(n / 10));
        assert(d.last() == c);
        assert(n == (n / 10) * 10 + n % 10) by (nonlinear_arith);
        assert(digits_value(d) == digits_value(decimal(n / 10)) * 10 + (c as int - 48));
        assert forall|i: int| 0 <= i < d.len() implies is_digit(#[trigger] d[i]) by {
            if i < d.len() - 1 {
                assert(d[i] == decimal(n / 10)[i]);
            }
        }
    }
}

/// Reading back what `format_decimal` writes gives the same number, for every `i64`.
pub proof fn law_parse_formatted(x: i64)
    ensures
        parse_i64_spec(signed_decimal(x as int)) == Some(x),
{
    let s = signed_decimal(x as int);
    if x < 0 {
        let m = (-(x as int)) as nat;
        lemma_decimal(m);
        assert(s.skip(1) =~= decimal(m));
        assert(s[0] == '-');
    } else {
        lemma_decimal(x as nat);
        let c = s[0];
        assert(is_digit(c));
    }
}

/// A leading `+` before the digits changes nothing, and a leading `-` negates.
pub proof fn law_parse_sign(d: Seq<char>)
    requires
        d.len() > 0,
        is_digit(d[0]),
    ensures
        parse_i64_spec(seq!['+'] + d) == parse_i64_spec(d),
        (parse_i64_spec(d) is Some) ==> parse_i64_spec(seq!['-'] + d) == Some((-(parse_i64_spec(d)->0 as int)) as i64),
{
    assert((seq!['+'] + d).skip(1) =~= d);
    assert((seq!['-'] + d).skip(1) =~= d);
    assert((seq!['+'] + d)[0] == '+');
    assert((seq!['-'] + d)[0] == '-');
    if parse_i64_spec(d) is Some {
        lemma_digits_value_nonneg(d);
        assert(parse_i64_spec(d)->0 as int == digits_value(d));
    }
}

} // verus!
