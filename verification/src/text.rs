//! Decimal rendering and padding of text, as used by the time stamps, task
//! labels and request addresses of the library.
use vstd::prelude::*;

verus! {

/// The character of a decimal digit `d` (`0 <= d < 10`).
pub open spec fn digit_char(d: int) -> char {
    (48 + d) as char
}

/// The decimal representation of `n`, without leading zeros ("0" for zero).
pub open spec fn decimal(n: nat) -> Seq<char>
    decreases n,
{
    if n < 10 {
        seq![digit_char(n as int)]
    } else {
        decimal(n / 10).push(digit_char((n % 10) as int))
    }
}

/// Appends `c` to `s`.
#[verifier::external_body]
pub(crate) fn push_char(s: &mut String, c: char)
    ensures
        final(s)@ == old(s)@.push(c),
{
    s.push(c);
}

/// Appends the decimal representation of `n` to `s`.
pub fn push_decimal(s: &mut String, n: u128)
    ensures
        final(s)@ == old(s)@ + decimal(n as nat),
    decreases n,
{
    if n >= 10 {
        push_decimal(s, n / 10);
    }
    let d: u8 = (n % 10) as u8;
    let c: char = (48u8 + d) as char;
    push_char(s, c);
}

/// `10` to the power `k`.
pub open spec fn pow10(k: nat) -> nat
    decreases k,
{
    if k == 0 {
        1
    } else {
        10 * pow10((k - 1) as nat)
    }
}

/// Whether `c` is one of the ASCII digits `0` to `9`.
pub open spec fn is_digit(c: char) -> bool {
    '0' <= c && c <= '9'
}

/// The decimal representation of `n`, with zeros in front up to `width` characters.
pub open spec fn zero_padded(n: nat, width: nat) -> Seq<char> {
    let d = decimal(n);
    if d.len() < width {
        Seq::new((width - d.len()) as nat, |i: int| '0') + d
    } else {
        d
    }
}

/// `s`, followed by spaces up to `width` characters (text is left-aligned).
pub open spec fn space_padded(s: Seq<char>, width: nat) -> Seq<char> {
    if s.len() < width {
        s + Seq::new((width - s.len()) as nat, |i: int| ' ')
    } else {
        s
    }
}

/// Every character of a decimal representation is a digit, and it is never empty.
pub proof fn lemma_decimal_digits(n: nat)
    ensures
        decimal(n).len() >= 1,
        forall|i: int| 0 <= i < decimal(n).len() ==> is_digit(#[trigger] decimal(n)[i]),
    decreases n,
{
    if n >= 10 {
        lemma_decimal_digits(n / 10);
    }
}

/// A number below `10^k` (`k >= 1`) has at most `k` decimal digits.
pub proof fn lemma_decimal_len_bound(n: nat, k: nat)
    requires
        k >= 1,
        n < pow10(k),
    ensures
        decimal(n).len() <= k,
    decreases n,
{
    if n >= 10 {
        assert(k >= 2) by {
            if k == 1 {
                assert(pow10(0) == 1);
            }
        }
        assert(pow10(k) == 10 * pow10((k - 1) as nat));
        lemma_decimal_len_bound(n / 10, (k - 1) as nat);
    }
}

/// The number that the digit string `s` denotes in base ten (the value of
/// each character is its distance from `0`).
pub open spec fn digits_value(s: Seq<char>) -> nat
    decreases s.len(),
{
    if s.len() == 0 {
        0
    } else {
        digits_value(s.drop_last()) * 10 + ((s.last() as int - 48) as nat)
    }
}

/// `s` is the usual decimal numeral of `n`: one or more digits, no leading
/// zero (but for `0` itself), denoting `n`.
pub open spec fn is_decimal_numeral(s: Seq<char>, n: nat) -> bool {
    &&& s.len() >= 1
    &&& forall|i: int| 0 <= i < s.len() ==> is_digit(#[trigger] s[i])
    &&& (s.len() == 1 || s[0] != '0')
    &&& digits_value(s) == n
}

/// `s` is `n` written with at least `width` digits: digits only, denoting
/// `n`, at least `width` long and longer only when no zero leads.
pub open spec fn is_zero_padded_numeral(s: Seq<char>, n: nat, width: nat) -> bool {
    &&& s.len() >= 1
    &&& s.len() >= width
    &&& forall|i: int| 0 <= i < s.len() ==> is_digit(#[trigger] s[i])
    &&& (s.len() > width && s.len() > 1 ==> s[0] != '0')
    &&& digits_value(s) == n
}

/// The decimal rendering of `n` is its usual decimal numeral.
pub proof fn lemma_decimal_is_numeral(n: nat)
    ensures
        is_decimal_numeral(decimal(n), n),
    decreases n,
{
    lemma_decimal_digits(n);
    let d = decimal(n);
    if n >= 10 {
        let m = n / 10;
        lemma_decimal_is_numeral(m);
        let dm = decimal(m);
        assert(d.drop_last() =~= dm);
        assert(d.last() == digit_char((n % 10) as int));
        assert(digits_value(d) == m * 10 + n % 10);
        assert(d[0] == dm[0]);
        if dm.len() == 1 {
            assert(dm.drop_last() =~= Seq::<char>::empty());
            assert(digits_value(Seq::<char>::empty()) == 0);
            assert(dm.last() == dm[0]);
            assert(digits_value(dm) == (dm[0] as int - 48) as nat);
        }
    } else {
        assert(d =~= seq![digit_char(n as int)]);
        assert(d.drop_last() =~= Seq::<char>::empty());
        assert(digits_value(Seq::<char>::empty()) == 0);
        assert(digits_value(d) == n);
    }
}

/// Zeros in front do not change what a digit string denotes.
proof fn lemma_leading_zeros_value(k: nat, d: Seq<char>)
    ensures
        digits_value(Seq::new(k, |i: int| '0') + d) == digits_value(d),
    decreases d.len(), k,
{
    let z = Seq::new(k, |i: int| '0');
    if d.len() == 0 {
        assert(z + d =~= z);
        if k > 0 {
            assert(z.drop_last() =~= Seq::new((k - 1) as nat, |i: int| '0'));
            lemma_leading_zeros_value((k - 1) as nat, d);
            assert(Seq::new((k - 1) as nat, |i: int| '0') + d =~= Seq::new(
                (k - 1) as nat,
                |i: int| '0',
            ));
        }
    } else {
        assert((z + d).drop_last() =~= z + d.drop_last());
        lemma_leading_zeros_value(k, d.drop_last());
    }
}

/// The zero-padded rendering of `n` is `n` written with at least `width` digits.
pub proof fn lemma_zero_padded_is_numeral(n: nat, width: nat)
    ensures
        is_zero_padded_numeral(zero_padded(n, width), n, width),
{
    lemma_decimal_is_numeral(n);
    let d = decimal(n);
    if d.len() < width {
        let k = (width - d.len()) as nat;
        let z = Seq::new(k, |i: int| '0');
        lemma_leading_zeros_value(k, d);
        let s = z + d;
        assert forall|i: int| 0 <= i < s.len() implies is_digit(#[trigger] s[i]) by {
            if i >= k {
                assert(s[i] == d[i - k]);
            }
        }
    }
}

/// `s` without the spaces at its end.
pub open spec fn trim_trailing_spaces(s: Seq<char>) -> Seq<char>
    decreases s.len(),
{
    if s.len() > 0 && s.last() == ' ' {
        trim_trailing_spaces(s.drop_last())
    } else {
        s
    }
}

/// Spaces after a numeral are all that trimming removes.
proof fn lemma_trim_after_numeral(d: Seq<char>, k: nat)
    requires
        d.len() >= 1,
        is_digit(d.last()),
    ensures
        trim_trailing_spaces(d + Seq::new(k, |i: int| ' ')) == d,
    decreases k,
{
    let t = d + Seq::new(k, |i: int| ' ');
    if k == 0 {
        assert(t =~= d);
    } else {
        assert(t.drop_last() =~= d + Seq::new((k - 1) as nat, |i: int| ' '));
        lemma_trim_after_numeral(d, (k - 1) as nat);
    }
}

/// Left-aligning the numeral of `n` in a field of `width` characters gives
/// the numeral followed by spaces only, and takes at least `width` characters,
/// more only when the numeral itself is longer.
pub proof fn lemma_space_padded_numeral(n: nat, width: nat)
    ensures
        is_decimal_numeral(trim_trailing_spaces(space_padded(decimal(n), width)), n),
        space_padded(decimal(n), width).len() >= width,
        space_padded(decimal(n), width).len() > width ==> trim_trailing_spaces(
            space_padded(decimal(n), width),
        ) == space_padded(decimal(n), width),
        forall|i: int|
            trim_trailing_spaces(space_padded(decimal(n), width)).len() <= i < space_padded(
                decimal(n),
                width,
            ).len() ==> #[trigger] space_padded(decimal(n), width)[i] == ' ',
{
    lemma_decimal_is_numeral(n);
    let d = decimal(n);
    let k: nat = if d.len() < width {
        (width - d.len()) as nat
    } else {
        0
    };
    assert(space_padded(d, width) =~= d + Seq::new(k, |i: int| ' '));
    lemma_trim_after_numeral(d, k);
}

/// The number of decimal digits of `n`.
pub fn decimal_len(n: u128) -> (r: usize)
    ensures
        r == decimal(n as nat).len(),
    decreases n,
{
    proof {
        lemma_decimal_len_is_small(n as nat);
    }
    if n >= 10 {
        decimal_len(n / 10) + 1
    } else {
        1
    }
}

proof fn lemma_decimal_len_is_small(n: nat)
    requires
        n <= u128::MAX,
    ensures
        decimal(n).len() <= 39,
{
    reveal_with_fuel(pow10, 40);
    assert(pow10(39) == 1000000000000000000000000000000000000000nat);
    lemma_decimal_len_bound(n, 39);
}

/// Appends `n` in decimal, with zeros in front up to `width` characters.
pub fn push_zero_padded(s: &mut String, n: u128, width: usize)
    ensures
        final(s)@ == old(s)@ + zero_padded(n as nat, width as nat),
{
    let len = decimal_len(n);
    let ghost start = s@;
    if len < width {
        let mut i: usize = len;
        while i < width
            invariant
                len <= i <= width,
                s@ == start + Seq::new((i - len) as nat, |j: int| '0'),
            decreases width - i,
        {
            push_char(s, '0');
            i = i + 1;
            assert(s@ =~= start + Seq::new((i - len) as nat, |j: int| '0'));
        }
    }
    push_decimal(s, n);
    assert(s@ =~= start + zero_padded(n as nat, width as nat));
}

/// Appends `t`, followed by spaces up to `width` characters.
pub fn push_space_padded(s: &mut String, t: &str, width: usize)
    ensures
        final(s)@ == old(s)@ + space_padded(t@, width as nat),
{
    let ghost start = s@;
    s.append(t);
    let len = t.unicode_len();
    if len < width {
        let mut i: usize = len;
        while i < width
            invariant
                len == t@.len(),
                len <= i <= width,
                s@ == start + t@ + Seq::new((i - len) as nat, |j: int| ' '),
            decreases width - i,
        {
            push_char(s, ' ');
            i = i + 1;
            assert(s@ =~= start + t@ + Seq::new((i - len) as nat, |j: int| ' '));
        }
    }
    assert(s@ =~= start + space_padded(t@, width as nat));
}

} // verus!
