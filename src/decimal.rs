//! Decimal rendering of unsigned integers, plain and zero-padded.

use vstd::prelude::*;

verus! {

/// The character of a decimal digit `d < 10`.
pub open spec fn digit_char(d: nat) -> char {
    seq!['0', '1', '2', '3', '4', '5', '6', '7', '8', '9'][d as int]
}

/// The value of a decimal digit character.
pub open spec fn digit_value(c: char) -> nat {
    if c == '1' { 1 } else if c == '2' { 2 } else if c == '3' { 3 } else if c == '4' { 4 }
    else if c == '5' { 5 } else if c == '6' { 6 } else if c == '7' { 7 } else if c == '8' { 8 }
    else if c == '9' { 9 } else { 0 }
}

/// The shortest decimal text of `n`, most significant digit first.
pub open spec fn decimal(n: nat) -> Seq<char>
    decreases n,
{
    if n < 10 {
        seq![digit_char(n)]
    } else {
        decimal(n / 10).push(digit_char(n % 10))
    }
}

/// `k` zero characters.
pub open spec fn zeros(k: nat) -> Seq<char> {
    Seq::new(k, |i: int| '0')
}

/// The decimal text of `n`, zero-padded on the left to at least `width`
/// characters; never truncated.
pub open spec fn padded(n: nat, width: nat) -> Seq<char> {
    let d = decimal(n);
    if d.len() >= width {
        d
    } else {
        zeros((width - d.len()) as nat) + d
    }
}

/// The number that a text of decimal digits denotes.
pub open spec fn digits_value(s: Seq<char>) -> nat
    decreases s.len(),
{
    if s.len() == 0 {
        0
    } else {
        digits_value(s.drop_last()) * 10 + digit_value(s.last())
    }
}

pub open spec fn pow10(k: nat) -> nat
    decreases k,
{
    if k == 0 { 1 } else { 10 * pow10((k - 1) as nat) }
}

pub proof fn lemma_decimal_len(n: nat)
    ensures
        1 <= decimal(n).len() <= n + 1,
    decreases n,
{
    if n >= 10 {
        lemma_decimal_len(n / 10);
    }
}

/// Reading the decimal text of `n` gives `n` back.
pub proof fn lemma_decimal_value(n: nat)
    ensures
        digits_value(decimal(n)) == n,
    decreases n,
{
    if n < 10 {
        let s = decimal(n);
        assert(s.drop_last() =~= Seq::<char>::empty());
        assert(digits_value(s.drop_last()) == 0);
        assert(s.last() == digit_char(n));
        lemma_digit_round_trip(n);
    } else {
        lemma_decimal_value(n / 10);
        let s = decimal(n);
        assert(s.drop_last() =~= decimal(n / 10));
        assert(s.last() == digit_char(n % 10));
        lemma_digit_round_trip(n % 10);
        assert(n == (n / 10) * 10 + n % 10);
    }
}

proof fn lemma_digit_round_trip(d: nat)
    requires
        d < 10,
    ensures
        digit_value(digit_char(d)) == d,
{
    assert(d == 0 || d == 1 || d == 2 || d == 3 || d == 4 || d == 5 || d == 6 || d == 7 || d == 8
        || d == 9);
}

/// Leading zeros do not change the number that a text denotes.
pub proof fn lemma_zeros_value(k: nat, s: Seq<char>)
    ensures
        digits_value(zeros(k) + s) == digits_value(s),
    decreases s.len(),
{
    if s.len() == 0 {
        lemma_only_zeros_value(k);
        assert(zeros(k) + s =~= zeros(k));
    } else {
        lemma_zeros_value(k, s.drop_last());
        assert((zeros(k) + s).drop_last() =~= zeros(k) + s.drop_last());
    }
}

pub proof fn lemma_only_zeros_value(k: nat)
    ensures
        digits_value(zeros(k)) == 0,
    decreases k,
{
    if k > 0 {
        lemma_only_zeros_value((k - 1) as nat);
        assert(zeros(k).drop_last() =~= zeros((k - 1) as nat));
    }
}

/// Reading a zero-padded text gives the number back.
pub proof fn lemma_padded_value(n: nat, width: nat)
    ensures
        digits_value(padded(n, width)) == n,
{
    lemma_decimal_value(n);
    let d = decimal(n);
    if d.len() < width {
        lemma_zeros_value((width - d.len()) as nat, d);
    }
}

/// Below `10^width` (and with `width >= 1`) the decimal text fits in `width`
/// characters.
pub proof fn lemma_decimal_fits(n: nat, width: nat)
    requires
        width >= 1,
        n < pow10(width),
    ensures
        decimal(n).len() <= width,
    decreases n,
{
    if n >= 10 {
        let w1 = (width - 1) as nat;
        if width == 1 {
            assert(pow10(1) == 10) by {
                reveal_with_fuel(pow10, 2);
            }
        } else {
            assert(pow10(width) == 10 * pow10(w1));
            assert(n / 10 < pow10(w1)) by (nonlinear_arith)
                requires
                    n < 10 * pow10(w1),
            ;
            lemma_decimal_fits(n / 10, w1);
        }
    }
}

/// Below `10^width` the padded text is exactly `width` characters long.
pub proof fn lemma_padded_len(n: nat, width: nat)
    requires
        width >= 1,
        n < pow10(width),
    ensures
        padded(n, width).len() == width,
{
    lemma_decimal_fits(n, width);
}

/// Two numbers below `10^width` have the same padded text only when they are
/// equal.
pub proof fn lemma_padded_injective(a: nat, b: nat, width: nat)
    requires
        padded(a, width) == padded(b, width),
    ensures
        a == b,
{
    lemma_padded_value(a, width);
    lemma_padded_value(b, width);
}

/// The zero-padded text ends with the shortest decimal text.
pub proof fn lemma_padded_ends_with_decimal(n: nat, width: nat)
    ensures
        padded(n, width).len() >= decimal(n).len(),
        padded(n, width).subrange(
            padded(n, width).len() - decimal(n).len(),
            padded(n, width).len() as int,
        ) == decimal(n),
{
    let p = padded(n, width);
    let d = decimal(n);
    assert(p.subrange(p.len() - d.len(), p.len() as int) =~= d);
}

/// An ASCII decimal digit.
pub open spec fn is_digit(c: char) -> bool {
    '0' <= c && c <= '9'
}

pub open spec fn all_digits(s: Seq<char>) -> bool {
    forall|i: int| 0 <= i < s.len() ==> #[trigger] is_digit(s[i])
}

proof fn lemma_digit_char_is_digit(d: nat)
    requires
        d < 10,
    ensures
        is_digit(digit_char(d)),
{
    assert(d == 0 || d == 1 || d == 2 || d == 3 || d == 4 || d == 5 || d == 6 || d == 7 || d == 8
        || d == 9);
}

pub proof fn lemma_concat_digits(a: Seq<char>, b: Seq<char>)
    requires
        all_digits(a),
        all_digits(b),
    ensures
        all_digits(a + b),
{
    assert forall|i: int| 0 <= i < (a + b).len() implies #[trigger] is_digit((a + b)[i]) by {
        if i < a.len() {
            assert((a + b)[i] == a[i]);
        } else {
            assert((a + b)[i] == b[i - a.len()]);
        }
    }
}

/// The decimal text holds digits only.
pub proof fn lemma_decimal_digits(n: nat)
    ensures
        all_digits(decimal(n)),
    decreases n,
{
    if n < 10 {
        lemma_digit_char_is_digit(n);
        assert(is_digit(decimal(n)[0]));
    } else {
        lemma_decimal_digits(n / 10);
        lemma_digit_char_is_digit(n % 10);
        assert(is_digit(seq![digit_char(n % 10)][0]));
        lemma_concat_digits(decimal(n / 10), seq![digit_char(n % 10)]);
        assert(decimal(n) =~= decimal(n / 10) + seq![digit_char(n % 10)]);
    }
}

/// The zero-padded text holds digits only.
pub proof fn lemma_padded_digits(n: nat, width: nat)
    ensures
        all_digits(padded(n, width)),
{
    lemma_decimal_digits(n);
    let d = decimal(n);
    if d.len() < width {
        let z = zeros((width - d.len()) as nat);
        assert(all_digits(z));
        lemma_concat_digits(z, d);
    }
}

/// Appends one digit character.
fn push_digit(s: &mut String, d: u32)
    requires
        d < 10,
    ensures
        final(s)@ == old(s)@.push(digit_char(d as nat)),
{
    proof {
        reveal_strlit("0");
        reveal_strlit("1");
        reveal_strlit("2");
        reveal_strlit("3");
        reveal_strlit("4");
        reveal_strlit("5");
        reveal_strlit("6");
        reveal_strlit("7");
        reveal_strlit("8");
        reveal_strlit("9");
    }
    let t: &str = if d == 0 {
        "0"
    } else if d == 1 {
        "1"
    } else if d == 2 {
        "2"
    } else if d == 3 {
        "3"
    } else if d == 4 {
        "4"
    } else if d == 5 {
        "5"
    } else if d == 6 {
        "6"
    } else if d == 7 {
        "7"
    } else if d == 8 {
        "8"
    } else {
        "9"
    };
    s.append(t);
    assert(final(s)@ =~= old(s)@.push(digit_char(d as nat)));
}

/// Appends the shortest decimal text of `n`.
pub fn push_decimal(s: &mut String, n: u32)
    ensures
        final(s)@ == old(s)@ + decimal(n as nat),
    decreases n,
{
    if n >= 10 {
        push_decimal(s, n / 10);
        push_digit(s, n % 10);
        assert(final(s)@ =~= old(s)@ + decimal(n as nat));
    } else {
        push_digit(s, n);
        assert(final(s)@ =~= old(s)@ + decimal(n as nat));
    }
}

/// The number of characters in the shortest decimal text of `n`.
pub fn decimal_len(n: u32) -> (r: usize)
    ensures
        r as nat == decimal(n as nat).len(),
    decreases n,
{
    proof {
        lemma_decimal_len(n as nat);
    }
    if n >= 10 {
        let k = decimal_len(n / 10);
        proof {
            lemma_decimal_len((n / 10) as nat);
        }
        k + 1
    } else {
        1
    }
}

/// Appends the decimal text of `n`, zero-padded on the left to at least
/// `width` characters.
pub fn push_padded(s: &mut String, n: u32, width: usize)
    ensures
        final(s)@ == old(s)@ + padded(n as nat, width as nat),
{
    let len = decimal_len(n);
    if len < width {
        let k: usize = width - len;
        let mut i: usize = 0;
        while i < k
            invariant
                i <= k,
                s@ == old(s)@ + zeros(i as nat),
            decreases k - i,
        {
            s.append("0");
            proof {
                reveal_strlit("0");
            }
            i = i + 1;
            assert(s@ =~= old(s)@ + zeros(i as nat));
        }
        push_decimal(s, n);
        assert(s@ =~= old(s)@ + padded(n as nat, width as nat));
    } else {
        push_decimal(s, n);
    }
}

} // verus!
