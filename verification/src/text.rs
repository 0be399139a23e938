//! Whitespace handling for free-text form fields.

use vstd::prelude::*;
use vstd::string::*;

verus! {

/// Whether `c` is whitespace as Unicode defines it (`White_Space`).
pub open spec fn is_space(c: char) -> bool {
    let u = c as u32;
    ||| 0x09 <= u <= 0x0D
    ||| u == 0x20
    ||| u == 0x85
    ||| u == 0xA0
    ||| u == 0x1680
    ||| 0x2000 <= u <= 0x200A
    ||| u == 0x2028
    ||| u == 0x2029
    ||| u == 0x202F
    ||| u == 0x205F
    ||| u == 0x3000
}

/// How many whitespace characters stand at the front of `s`.
pub open spec fn leading_spaces(s: Seq<char>) -> nat
    decreases s.len(),
{
    if s.len() > 0 && is_space(s[0]) {
        1 + leading_spaces(s.drop_first())
    } else {
        0
    }
}

/// How many whitespace characters stand at the back of `s`.
pub open spec fn trailing_spaces(s: Seq<char>) -> nat
    decreases s.len(),
{
    if s.len() > 0 && is_space(s.last()) {
        1 + trailing_spaces(s.drop_last())
    } else {
        0
    }
}

/// `s` without its leading and trailing whitespace.
pub open spec fn trimmed(s: Seq<char>) -> Seq<char> {
    let rest = s.subrange(leading_spaces(s) as int, s.len() as int);
    rest.subrange(0, rest.len() - trailing_spaces(rest))
}

/// A run of `a` whitespace characters at the front of `s`, ended by the end
/// of `s` or by another character, is all of its leading whitespace.
pub proof fn lemma_leading_spaces(s: Seq<char>, a: int)
    requires
        0 <= a <= s.len(),
        forall|k: int| 0 <= k < a ==> is_space(#[trigger] s[k]),
        a < s.len() ==> !is_space(s[a]),
    ensures
        leading_spaces(s) == a,
    decreases a,
{
    if a > 0 {
        let t = s.drop_first();
        assert forall|k: int| 0 <= k < a - 1 implies is_space(#[trigger] t[k]) by {
            assert(t[k] == s[k + 1]);
        }
        lemma_leading_spaces(t, a - 1);
    }
}

/// A run of `b` whitespace characters at the back of `s`, begun by the start
/// of `s` or by another character, is all of its trailing whitespace.
pub proof fn lemma_trailing_spaces(s: Seq<char>, b: int)
    requires
        0 <= b <= s.len(),
        forall|k: int| s.len() - b <= k < s.len() ==> is_space(#[trigger] s[k]),
        b < s.len() ==> !is_space(s[s.len() - b - 1]),
    ensures
        trailing_spaces(s) == b,
    decreases b,
{
    if b > 0 {
        let t = s.drop_last();
        assert forall|k: int| t.len() - (b - 1) <= k < t.len() implies is_space(
            #[trigger] t[k],
        ) by {
            assert(t[k] == s[k]);
        }
        lemma_trailing_spaces(t, b - 1);
    }
}

/// Trimming leaves no whitespace at either end, and trims nothing further.
pub proof fn lemma_trimmed_is_trimmed(s: Seq<char>)
    ensures
        trimmed(s).len() > 0 ==> !is_space(trimmed(s)[0]) && !is_space(trimmed(s).last()),
        trimmed(s).len() <= s.len(),
{
    lemma_leading_bound(s);
    let rest = s.subrange(leading_spaces(s) as int, s.len() as int);
    lemma_trailing_bound(rest);
}

/// The leading whitespace is a prefix of whitespace characters that ends at
/// the end of `s` or before a character that is not whitespace.
pub proof fn lemma_leading_bound(s: Seq<char>)
    ensures
        leading_spaces(s) <= s.len(),
        forall|k: int| 0 <= k < leading_spaces(s) ==> is_space(#[trigger] s[k]),
        leading_spaces(s) < s.len() ==> !is_space(s[leading_spaces(s) as int]),
    decreases s.len(),
{
    if s.len() > 0 && is_space(s[0]) {
        let t = s.drop_first();
        lemma_leading_bound(t);
        assert forall|k: int| 0 <= k < leading_spaces(s) implies is_space(#[trigger] s[k]) by {
            if k > 0 {
                assert(s[k] == t[k - 1]);
            }
        }
        if leading_spaces(s) < s.len() {
            assert(s[leading_spaces(s) as int] == t[leading_spaces(t) as int]);
        }
    }
}

/// The trailing whitespace is a suffix of whitespace characters that begins
/// at the start of `s` or after a character that is not whitespace.
pub proof fn lemma_trailing_bound(s: Seq<char>)
    ensures
        trailing_spaces(s) <= s.len(),
        forall|k: int| s.len() - trailing_spaces(s) <= k < s.len() ==> is_space(#[trigger] s[k]),
        trailing_spaces(s) < s.len() ==> !is_space(s[s.len() - trailing_spaces(s) - 1]),
    decreases s.len(),
{
    if s.len() > 0 && is_space(s.last()) {
        let t = s.drop_last();
        lemma_trailing_bound(t);
        assert forall|k: int| s.len() - trailing_spaces(s) <= k < s.len() implies is_space(
            #[trigger] s[k],
        ) by {
            if k < s.len() - 1 {
                assert(s[k] == t[k]);
            }
        }
        if trailing_spaces(s) < s.len() {
            assert(s[s.len() - trailing_spaces(s) - 1] == t[t.len() - trailing_spaces(t) - 1]);
        }
    }
}

/// Text that neither begins nor ends with whitespace is its own trimmed
/// form.
pub proof fn lemma_trimmed_unchanged(s: Seq<char>)
    requires
        s.len() > 0 ==> !is_space(s[0]) && !is_space(s.last()),
    ensures
        trimmed(s) == s,
{
    lemma_leading_spaces(s, 0);
    let rest = s.subrange(0, s.len() as int);
    assert(rest =~= s);
    lemma_trailing_spaces(rest, 0);
    assert(rest.subrange(0, rest.len() as int) =~= s);
}

/// Trimming twice is trimming once.
pub proof fn lemma_trimmed_twice(s: Seq<char>)
    ensures
        trimmed(trimmed(s)) == trimmed(s),
{
    lemma_trimmed_is_trimmed(s);
    lemma_trimmed_unchanged(trimmed(s));
}

/// Tells whether `c` is a whitespace character.
pub fn is_space_char(c: char) -> (b: bool)
    ensures
        b == is_space(c),
{
    let u: u32 = c as u32;
    (0x09 <= u && u <= 0x0D) || u == 0x20 || u == 0x85 || u == 0xA0 || u == 0x1680 || (0x2000 <= u
        && u <= 0x200A) || u == 0x2028 || u == 0x2029 || u == 0x202F || u == 0x205F || u == 0x3000
}

/// Returns `s` without its leading and trailing whitespace.
pub fn trim(s: &str) -> (r: &str)
    ensures
        r@ == trimmed(s@),
{
    let n: usize = s.unicode_len();
    let mut a: usize = 0;
    while a < n && is_space_char(s.get_char(a))
        invariant
            a <= n,
            n == s@.len(),
            forall|k: int| 0 <= k < a ==> is_space(#[trigger] s@[k]),
        decreases n - a,
    {
        a += 1;
    }
    let mut b: usize = n;
    while b > a && is_space_char(s.get_char(b - 1))
        invariant
            a <= b <= n,
            n == s@.len(),
            forall|k: int| b <= k < n ==> is_space(#[trigger] s@[k]),
        decreases b,
    {
        b -= 1;
    }
    proof {
        lemma_leading_spaces(s@, a as int);
        let rest = s@.subrange(a as int, n as int);
        assert forall|k: int| rest.len() - (n - b) <= k < rest.len() implies is_space(
            #[trigger] rest[k],
        ) by {
            assert(rest[k] == s@[k + a]);
        }
        lemma_trailing_spaces(rest, n - b);
        assert(rest.subrange(0, rest.len() - (n - b)) =~= s@.subrange(a as int, b as int));
    }
    s.substring_char(a, b)
}

} // verus!
