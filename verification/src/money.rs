//! Exact decimal amounts, counted in hundredths of the currency unit, and
//! their textual form.

use vstd::prelude::*;
use vstd::string::*;

verus! {

/// The largest magnitude that an amount can have, in hundredths.
pub const MAX_AMOUNT: i64 = 9223372036854775807;

/// Whether `c` is one of the ten ASCII digits.
pub open spec fn is_digit(c: char) -> bool {
    0x30 <= c as u32 <= 0x39
}

/// The number that the digit `c` stands for; zero for any other character.
pub open spec fn digit_value(c: char) -> nat {
    if is_digit(c) {
        (c as u32 - 0x30) as nat
    } else {
        0
    }
}

/// The number that `s` denotes when read as a decimal numeral.
pub open spec fn digits_value(s: Seq<char>) -> nat
    decreases s.len(),
{
    if s.len() == 0 {
        0
    } else {
        digits_value(s.drop_last()) * 10 + digit_value(s.last())
    }
}

/// Whether every character of `s` is a digit.
pub open spec fn all_digits(s: Seq<char>) -> bool {
    forall|k: int| 0 <= k < s.len() ==> is_digit(#[trigger] s[k])
}

/// Where the first decimal point of `s` stands; the length of `s` if it has
/// none.
pub open spec fn point_position(s: Seq<char>) -> int {
    match s.index_of_first('.') {
        Some(p) => p,
        None => s.len() as int,
    }
}

/// What stands before the first decimal point.
pub open spec fn whole_part(s: Seq<char>) -> Seq<char> {
    s.subrange(0, point_position(s))
}

/// What stands after the first decimal point.
pub open spec fn fraction_part(s: Seq<char>) -> Seq<char> {
    if point_position(s) < s.len() {
        s.subrange(point_position(s) + 1, s.len() as int)
    } else {
        Seq::empty()
    }
}

/// Whether `s` is an unsigned decimal numeral with at most two fractional
/// digits: digits, optionally a point and more digits, and at least one
/// digit in all.
pub open spec fn is_decimal(s: Seq<char>) -> bool {
    &&& all_digits(whole_part(s))
    &&& all_digits(fraction_part(s))
    &&& whole_part(s).len() + fraction_part(s).len() >= 1
    &&& fraction_part(s).len() <= 2
}

/// The factor that brings a numeral with `n` fractional digits to
/// hundredths.
pub open spec fn fraction_scale(n: nat) -> nat {
    if n == 0 {
        100
    } else if n == 1 {
        10
    } else {
        1
    }
}

/// The value of the unsigned decimal numeral `s`, in hundredths.
pub open spec fn magnitude(s: Seq<char>) -> nat {
    digits_value(whole_part(s) + fraction_part(s)) * fraction_scale(fraction_part(s).len())
}

/// Whether `s` begins with a plus or a minus sign.
pub open spec fn has_sign(s: Seq<char>) -> bool {
    s.len() > 0 && (s[0] == '-' || s[0] == '+')
}

/// `s` without its sign, if it has one.
pub open spec fn unsigned_part(s: Seq<char>) -> Seq<char> {
    if has_sign(s) {
        s.drop_first()
    } else {
        s
    }
}

/// The amount, in hundredths, that the text `s` denotes: an optional sign
/// followed by a decimal numeral with at most two fractional digits whose
/// magnitude does not exceed `MAX_AMOUNT`. Any other text denotes nothing.
pub open spec fn parse_amount_spec(s: Seq<char>) -> Option<int> {
    let body = unsigned_part(s);
    if is_decimal(body) && magnitude(body) <= MAX_AMOUNT {
        if has_sign(s) && s[0] == '-' {
            Some(-(magnitude(body) as int))
        } else {
            Some(magnitude(body) as int)
        }
    } else {
        None
    }
}

/// The digit that writes `d`, for `d` below ten.
pub open spec fn digit_char(d: nat) -> char {
    if d == 0 {
        '0'
    } else if d == 1 {
        '1'
    } else if d == 2 {
        '2'
    } else if d == 3 {
        '3'
    } else if d == 4 {
        '4'
    } else if d == 5 {
        '5'
    } else if d == 6 {
        '6'
    } else if d == 7 {
        '7'
    } else if d == 8 {
        '8'
    } else {
        '9'
    }
}

/// The decimal numeral of `n`, without leading zeros.
pub open spec fn decimal_text(n: nat) -> Seq<char>
    decreases n,
{
    if n < 10 {
        seq![digit_char(n)]
    } else {
        decimal_text(n / 10).push(digit_char(n % 10))
    }
}

/// The magnitude of `v`.
pub open spec fn abs_value(v: int) -> nat {
    if v < 0 {
        (-v) as nat
    } else {
        v as nat
    }
}

/// The digits of an amount of `m` hundredths: the whole units, a point, and
/// two fractional digits.
pub open spec fn unsigned_amount_text(m: nat) -> Seq<char> {
    decimal_text(m / 100) + seq!['.', digit_char(m % 100 / 10), digit_char(m % 10)]
}

/// The text of the amount `v`: a minus sign if it is negative, then its
/// digits.
pub open spec fn amount_text(v: int) -> Seq<char> {
    if v < 0 {
        seq!['-'] + unsigned_amount_text(abs_value(v))
    } else {
        unsigned_amount_text(abs_value(v))
    }
}

/// The text of the amount `v` with its sign always written.
pub open spec fn signed_amount_text(v: int) -> Seq<char> {
    if v < 0 {
        seq!['-'] + unsigned_amount_text(abs_value(v))
    } else {
        seq!['+'] + unsigned_amount_text(abs_value(v))
    }
}

/// A position that holds the first point of `s`, or its length if no point
/// stands before it, is the point position of `s`.
pub proof fn lemma_point_position(s: Seq<char>, p: int)
    requires
        0 <= p <= s.len(),
        forall|k: int| 0 <= k < p ==> #[trigger] s[k] != '.',
        p < s.len() ==> s[p] == '.',
    ensures
        point_position(s) == p,
{
    s.index_of_first_ensures('.');
    match s.index_of_first('.') {
        Some(q) => {
            if q < p {
                assert(s[q] != '.');
            }
            if p < q {
                assert(s[p] == '.');
            }
        },
        None => {
            if p < s.len() {
                assert(s.contains(s[p]));
            }
        },
    }
}

/// The digit that writes `d` is a digit, and stands for `d`.
pub proof fn lemma_digit_char(d: nat)
    requires
        d < 10,
    ensures
        is_digit(digit_char(d)),
        digit_value(digit_char(d)) == d,
        digit_char(d) != '.',
        digit_char(d) != '-',
        digit_char(d) != '+',
{
}

/// The decimal numeral of `n` is made of digits, at least one, and denotes
/// `n`.
pub proof fn lemma_decimal_text(n: nat)
    ensures
        decimal_text(n).len() >= 1,
        all_digits(decimal_text(n)),
        digits_value(decimal_text(n)) == n,
    decreases n,
{
    if n < 10 {
        lemma_digit_char(n);
        let t = decimal_text(n);
        assert(t.drop_last() =~= Seq::<char>::empty());
        assert(digits_value(t) == digits_value(t.drop_last()) * 10 + digit_value(t.last()));
    } else {
        lemma_decimal_text(n / 10);
        lemma_digit_char(n % 10);
        let t = decimal_text(n);
        assert(t.drop_last() =~= decimal_text(n / 10));
        assert forall|k: int| 0 <= k < t.len() implies is_digit(#[trigger] t[k]) by {
            if k < t.len() - 1 {
                assert(t[k] == decimal_text(n / 10)[k]);
            }
        }
    }
}

/// The digits of an amount of `m` hundredths are a decimal numeral that
/// denotes `m` hundredths, and begin with a digit.
pub proof fn lemma_unsigned_amount_text(m: nat)
    ensures
        is_decimal(unsigned_amount_text(m)),
        magnitude(unsigned_amount_text(m)) == m,
        unsigned_amount_text(m).len() >= 4,
        is_digit(unsigned_amount_text(m)[0]),
        is_digit(unsigned_amount_text(m).last()),
{
    let w = decimal_text(m / 100);
    let tens = digit_char(m % 100 / 10);
    let ones = digit_char(m % 10);
    let t = unsigned_amount_text(m);
    lemma_decimal_text(m / 100);
    lemma_digit_char(m % 100 / 10);
    lemma_digit_char(m % 10);
    let p = w.len() as int;
    assert(t.len() == p + 3);
    assert(t[p] == '.');
    assert(t[p + 1] == tens);
    assert(t[p + 2] == ones);
    assert forall|k: int| 0 <= k < p implies #[trigger] t[k] != '.' by {
        assert(t[k] == w[k]);
        assert(is_digit(w[k]));
    }
    lemma_point_position(t, p);
    assert(whole_part(t) =~= w);
    assert(fraction_part(t) =~= seq![tens, ones]);
    let all = whole_part(t) + fraction_part(t);
    assert(all =~= w.push(tens).push(ones));
    assert(all.drop_last() =~= w.push(tens));
    assert(w.push(tens).drop_last() =~= w);
    assert(digits_value(w.push(tens)) == digits_value(w) * 10 + digit_value(tens));
    assert(digits_value(all) == digits_value(w.push(tens)) * 10 + digit_value(ones));
    assert(t[0] == w[0]);
    assert(fraction_part(t).len() == 2);
    assert(m % 10 == (m % 100) % 10);
    assert(m == (m / 100) * 100 + (m % 100 / 10) * 10 + m % 10);
    assert(digits_value(all) == m);
    assert(fraction_scale(fraction_part(t).len()) == 1);
    assert(magnitude(t) == digits_value(all) * 1);
}

/// Writing an amount and reading it back gives the same amount, for every
/// amount whose magnitude does not exceed `MAX_AMOUNT`.
pub proof fn lemma_parse_amount_text(v: int)
    requires
        -MAX_AMOUNT <= v <= MAX_AMOUNT,
    ensures
        parse_amount_spec(amount_text(v)) == Some(v),
{
    let m = abs_value(v);
    let t = unsigned_amount_text(m);
    lemma_unsigned_amount_text(m);
    if v < 0 {
        assert(amount_text(v)[0] == '-');
        assert(amount_text(v).drop_first() =~= t);
    } else {
        assert(amount_text(v)[0] == t[0]);
    }
}

/// Tells whether `c` is an ASCII digit.
pub fn is_digit_char(c: char) -> (b: bool)
    ensures
        b == is_digit(c),
{
    let u: u32 = c as u32;
    0x30 <= u && u <= 0x39
}

/// Reads an unsigned decimal numeral as a count of hundredths.
pub fn parse_magnitude(body: &str) -> (r: Option<u64>)
    ensures
        match r {
            Some(m) => is_decimal(body@) && magnitude(body@) == m && m <= MAX_AMOUNT,
            None => !(is_decimal(body@) && magnitude(body@) <= MAX_AMOUNT),
        },
{
    let n: usize = body.unicode_len();
    let mut p: usize = 0;
    while p < n && body.get_char(p) != '.'
        invariant
            p <= n,
            n == body@.len(),
            forall|k: int| 0 <= k < p ==> #[trigger] body@[k] != '.',
        decreases n - p,
    {
        p += 1;
    }
    proof {
        lemma_point_position(body@, p as int);
    }
    let fraction_len: usize = if p < n {
        n - p - 1
    } else {
        0
    };
    if fraction_len > 2 || p + fraction_len == 0 {
        return None;
    }
    let ghost whole = whole_part(body@);
    let ghost fraction = fraction_part(body@);
    let ghost mut digits: Seq<char> = Seq::empty();
    let mut acc: u64 = 0;
    let mut over: bool = false;
    let mut i: usize = 0;
    while i < n
        invariant
            i <= n,
            p <= n,
            n == body@.len(),
            point_position(body@) == p,
            whole == whole_part(body@),
            fraction == fraction_part(body@),
            i <= p ==> digits =~= whole.subrange(0, i as int),
            i > p ==> digits =~= whole + fraction.subrange(0, i - p - 1),
            all_digits(digits),
            !over ==> acc == digits_value(digits) && acc <= MAX_AMOUNT,
            over ==> digits_value(digits) > MAX_AMOUNT,
        decreases n - i,
    {
        if i != p {
            let c = body.get_char(i);
            if !is_digit_char(c) {
                proof {
                    if i < p {
                        assert(whole[i as int] == c);
                    } else {
                        assert(fraction[i - p - 1] == c);
                    }
                }
                return None;
            }
            let d: u64 = (c as u32 - 0x30) as u64;
            proof {
                let next = digits.push(c);
                assert(next.drop_last() =~= digits);
                assert(digits_value(next) == digits_value(digits) * 10 + d);
                if i < p {
                    assert(next =~= whole.subrange(0, i + 1));
                } else {
                    assert(next =~= whole + fraction.subrange(0, i - p));
                }
                digits = next;
            }
            if over || acc > (MAX_AMOUNT as u64 - d) / 10 {
                over = true;
            } else {
                acc = acc * 10 + d;
            }
        } else {
            proof {
                assert(digits =~= whole + fraction.subrange(0, 0));
            }
        }
        i += 1;
    }
    proof {
        assert(whole.len() == p);
        assert(fraction.len() == fraction_len);
        if p < n {
            assert(fraction.subrange(0, n - p - 1) =~= fraction);
        } else {
            assert(whole.subrange(0, n as int) =~= whole);
            assert(whole + fraction =~= whole);
        }
        assert(digits =~= whole + fraction);
        assert forall|k: int| 0 <= k < whole.len() implies is_digit(#[trigger] whole[k]) by {
            assert(whole[k] == digits[k]);
        }
        assert forall|k: int| 0 <= k < fraction.len() implies is_digit(#[trigger] fraction[k]) by {
            assert(fraction[k] == digits[k + whole.len()]);
        }
    }
    let scale: u64 = if fraction_len == 0 {
        100
    } else if fraction_len == 1 {
        10
    } else {
        1
    };
    assert(scale == fraction_scale(fraction.len()));
    assert(magnitude(body@) == digits_value(digits) * scale);
    if over || acc > MAX_AMOUNT as u64 / scale {
        proof {
            if scale == 100 {
                assert(digits_value(digits) * 100 > MAX_AMOUNT);
            } else if scale == 10 {
                assert(digits_value(digits) * 10 > MAX_AMOUNT);
            } else {
                assert(digits_value(digits) * 1 > MAX_AMOUNT);
            }
        }
        None
    } else {
        proof {
            if scale == 100 {
                assert(acc * 100 <= MAX_AMOUNT);
            } else if scale == 10 {
                assert(acc * 10 <= MAX_AMOUNT);
            } else {
                assert(acc * 1 <= MAX_AMOUNT);
            }
        }
        Some(acc * scale)
    }
}

/// Reads a signed decimal numeral as a count of hundredths.
pub fn parse_amount(s: &str) -> (r: Option<i64>)
    ensures
        match r {
            Some(v) => parse_amount_spec(s@) == Some(v as int),
            None => parse_amount_spec(s@) is None,
        },
{
    let n: usize = s.unicode_len();
    let mut negative: bool = false;
    let mut start: usize = 0;
    if n > 0 {
        let c = s.get_char(0);
        if c == '-' {
            negative = true;
            start = 1;
        } else if c == '+' {
            start = 1;
        }
    }
    let body = s.substring_char(start, n);
    assert(body@ =~= unsigned_part(s@));
    match parse_magnitude(body) {
        Some(m) => {
            if negative {
                Some(-(m as i64))
            } else {
                Some(m as i64)
            }
        },
        None => None,
    }
}

/// The one-character text of the digit `d`.
pub fn digit_str(d: u128) -> (r: &'static str)
    requires
        d < 10,
    ensures
        r@ == seq![digit_char(d as nat)],
{
    let r = if d == 0 {
        "0"
    } else if d == 1 {
        "1"
    } else if d == 2 {
        "2"
    } else if d == 3 {
        "3"
    } else if d == 4 {
        "4"
    } else if d == 5 {
        "5"
    } else if d == 6 {
        "6"
    } else if d == 7 {
        "7"
    } else if d == 8 {
        "8"
    } else {
        "9"
    };
    proof {
        reveal_strlit("0");
        reveal_strlit("1");
        reveal_strlit("2");
        reveal_strlit("3");
        reveal_strlit("4");
        reveal_strlit("5");
        reveal_strlit("6");
        reveal_strlit("7");
        reveal_strlit("8");
        reveal_strlit("9");
        assert(r@ =~= seq![digit_char(d as nat)]);
    }
    r
}

/// Appends the decimal numeral of `n` to `out`.
pub fn push_decimal(out: &mut String, n: u128)
    ensures
        final(out)@ == old(out)@ + decimal_text(n as nat),
    decreases n,
{
    if n >= 10 {
        push_decimal(out, n / 10);
    }
    out.append(digit_str(n % 10));
    proof {
        if n >= 10 {
            assert(out@ =~= old(out)@ + decimal_text((n / 10) as nat).push(
                digit_char((n % 10) as nat),
            ));
        }
    }
}

/// Appends the digits of an amount of `m` hundredths to `out`.
pub fn push_unsigned_amount(out: &mut String, m: u128)
    ensures
        final(out)@ == old(out)@ + unsigned_amount_text(m as nat),
{
    push_decimal(out, m / 100);
    out.append(".");
    out.append(digit_str(m % 100 / 10));
    out.append(digit_str(m % 10));
    proof {
        reveal_strlit(".");
        assert("."@ =~= seq!['.']);
        assert(out@ =~= old(out)@ + unsigned_amount_text(m as nat));
    }
}

/// The magnitude of `v`.
pub fn magnitude_of(v: i128) -> (m: u128)
    ensures
        m == abs_value(v as int),
{
    if v >= 0 {
        v as u128
    } else if v == i128::MIN {
        170141183460469231731687303715884105728
    } else {
        (-v) as u128
    }
}

/// Writes the amount `v` with two fractional digits, and a minus sign if it
/// is negative.
pub fn format_amount(v: i128) -> (r: String)
    ensures
        r@ == amount_text(v as int),
{
    let mut out = String::new();
    if v < 0 {
        out.append("-");
    }
    push_unsigned_amount(&mut out, magnitude_of(v));
    proof {
        reveal_strlit("-");
        assert(out@ =~= amount_text(v as int));
    }
    out
}

/// Writes the amount `v` with two fractional digits and with its sign, a
/// plus sign where it is not negative.
pub fn format_signed_amount(v: i128) -> (r: String)
    ensures
        r@ == signed_amount_text(v as int),
{
    let mut out = String::new();
    if v < 0 {
        out.append("-");
    } else {
        out.append("+");
    }
    push_unsigned_amount(&mut out, magnitude_of(v));
    proof {
        reveal_strlit("-");
        reveal_strlit("+");
        assert(out@ =~= signed_amount_text(v as int));
    }
    out
}

} // verus!
