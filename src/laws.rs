use vstd::prelude::*;
use vstd::arithmetic::div_mod::{lemma_fundamental_div_mod, lemma_mod_multiples_basic};
use crate::bytesize::{Value, decimal, digit_char, suffix, unit, unit_exponent, bytesize_text};

verus! {

/// Whether `c` is an ASCII decimal digit.
pub open spec fn is_digit(c: char) -> bool {
    '0' <= c && c <= '9'
}

/// Whether `d` is a decimal numeral: at least one digit, digits only, and no
/// leading zero unless the numeral is `0` itself.
pub open spec fn is_numeral(d: Seq<char>) -> bool {
    &&& d.len() > 0
    &&& forall|i: int| 0 <= i < d.len() ==> is_digit(#[trigger] d[i])
    &&& d.len() > 1 ==> d[0] != '0'
}

/// The value of the digit character `c`.
pub open spec fn digit_value(c: char) -> nat {
    if c == '1' {
        1
    } else if c == '2' {
        2
    } else if c == '3' {
        3
    } else if c == '4' {
        4
    } else if c == '5' {
        5
    } else if c == '6' {
        6
    } else if c == '7' {
        7
    } else if c == '8' {
        8
    } else if c == '9' {
        9
    } else {
        0
    }
}

/// The number that the decimal numeral `d` denotes.
pub open spec fn numeral_value(d: Seq<char>) -> nat
    decreases d.len(),
{
    if d.len() == 0 {
        0
    } else {
        numeral_value(d.drop_last()) * 10 + digit_value(d.last())
    }
}

/// The unit exponent that the text `s` ends in: the letter before a final `B`,
/// or bytes where there is none.
pub open spec fn suffix_exponent(s: Seq<char>) -> nat {
    if s.len() >= 2 && s.last() == 'B' {
        let c = s[s.len() - 2];
        if c == 'K' {
            1
        } else if c == 'M' {
            2
        } else if c == 'G' {
            3
        } else if c == 'T' {
            4
        } else if c == 'P' {
            5
        } else {
            0
        }
    } else {
        0
    }
}

/// The byte count that a shown text stands for: the numeral before the suffix,
/// times the suffix's unit.
pub open spec fn reparse(s: Seq<char>) -> nat {
    let k = suffix_exponent(s);
    numeral_value(s.subrange(0, s.len() - suffix(k).len())) * unit(k)
}

proof fn lemma_digit_char(d: nat)
    requires
        d < 10,
    ensures
        is_digit(digit_char(d)),
        digit_value(digit_char(d)) == d,
        digit_char(d) == '0' <==> d == 0,
{
}

proof fn lemma_decimal(n: nat)
    ensures
        is_numeral(decimal(n)),
        decimal(n)[0] == '0' <==> n == 0,
        numeral_value(decimal(n)) == n,
    decreases n,
{
    if n < 10 {
        lemma_digit_char(n);
        let d = decimal(n);
        assert(d.drop_last() =~= Seq::<char>::empty());
        assert(numeral_value(d.drop_last()) == 0);
    } else {
        lemma_decimal(n / 10);
        lemma_digit_char(n % 10);
        let p = decimal(n / 10);
        let d = decimal(n);
        assert(d == p.push(digit_char(n % 10)));
        assert(d.drop_last() =~= p);
        assert(d[0] == p[0]);
        assert forall|i: int| 0 <= i < d.len() implies is_digit(#[trigger] d[i]) by {
            if i < p.len() {
                assert(d[i] == p[i]);
            }
        }
        lemma_fundamental_div_mod(n as int, 10);
    }
}

proof fn lemma_unit_positive(k: nat)
    ensures
        unit(k) > 0,
    decreases k,
{
    if k > 0 {
        lemma_unit_positive((k - 1) as nat);
    }
}

/// A count that some unit above bytes divides is a whole number of kilobytes.
proof fn lemma_unit_divides_kilo(n: nat, k: nat)
    requires
        1 <= k,
        n % unit(k) == 0,
    ensures
        n % 1024 == 0,
    decreases k,
{
    lemma_unit_positive(k);
    lemma_unit_positive((k - 1) as nat);
    let u = unit((k - 1) as nat);
    lemma_fundamental_div_mod(n as int, unit(k) as int);
    let q = n / unit(k);
    assert(n == (q * u) * 1024) by (nonlinear_arith)
        requires
            n == unit(k) * q,
            unit(k) == 1024 * u,
    ;
    lemma_mod_multiples_basic((q * u) as int, 1024);
}

/// The chosen unit divides the count, and no larger unit up to PB does.
proof fn lemma_unit_exponent(n: nat)
    ensures
        unit_exponent(n) <= 5,
        n % unit(unit_exponent(n)) == 0,
        n != 0 ==> forall|j: nat| unit_exponent(n) < j <= 5 ==> n % #[trigger] unit(j) != 0,
{
    if n == 0 {
        reveal_with_fuel(unit, 1);
    }
}

/// Every shown text is a decimal numeral followed by one of the suffixes
/// B, KB, MB, GB, TB and PB.
pub proof fn lemma_text_shape(n: Value)
    ensures
        exists|d: Seq<char>, k: nat|
            k <= 5 && is_numeral(d) && bytesize_text(n as nat) == d + suffix(k),
{
    let k = unit_exponent(n as nat);
    let d = decimal(n as nat / unit(k));
    lemma_unit_exponent(n as nat);
    lemma_decimal(n as nat / unit(k));
    assert(k <= 5 && is_numeral(d) && bytesize_text(n as nat) == d + suffix(k));
}

/// A count that is not a whole number of kilobytes is shown in bytes, with its
/// own numeral.
pub proof fn lemma_bytes_below_kilo(n: Value)
    requires
        n % 1024 != 0,
    ensures
        bytesize_text(n as nat) == decimal(n as nat) + seq!['B'],
{
    lemma_unit_exponent(n as nat);
    let k = unit_exponent(n as nat);
    if k >= 1 {
        lemma_unit_divides_kilo(n as nat, k);
    }
    assert(k == 0);
    reveal_with_fuel(unit, 1);
    assert(n as nat / 1 == n as nat);
}

/// Reading a shown text back, the numeral times the unit of its suffix, gives
/// the count that was shown.
pub proof fn lemma_reparse(n: Value)
    ensures
        reparse(bytesize_text(n as nat)) == n,
{
    let k = unit_exponent(n as nat);
    let u = unit(k);
    let q = n as nat / u;
    let d = decimal(q);
    let s = bytesize_text(n as nat);
    lemma_unit_exponent(n as nat);
    lemma_unit_positive(k);
    lemma_decimal(q);
    assert(s == d + suffix(k));
    assert(s[s.len() - 1] == 'B');
    if k == 0 {
        assert(s[s.len() - 2] == d[d.len() - 1]);
        assert(is_digit(d[d.len() - 1]));
    } else {
        assert(s[s.len() - 2] == suffix(k)[0]);
    }
    assert(suffix_exponent(s) == k);
    assert(s.subrange(0, s.len() - suffix(k).len()) =~= d);
    lemma_fundamental_div_mod(n as int, u as int);
    assert(q * u == n) by (nonlinear_arith)
        requires
            n == u * q + 0,
    ;
}

/// The unit shown is the largest of PB, TB, GB, MB, KB and B that divides a
/// nonzero count exactly; the numeral is the count in that unit.
pub proof fn lemma_largest_unit(n: Value)
    requires
        n != 0,
    ensures
        ({
            let k = unit_exponent(n as nat);
            &&& k <= 5
            &&& n as nat % unit(k) == 0
            &&& forall|j: nat| k < j <= 5 ==> n as nat % #[trigger] unit(j) != 0
            &&& bytesize_text(n as nat) == decimal(n as nat / unit(k)) + suffix(k)
        }),
{
    lemma_unit_exponent(n as nat);
}

} // verus!
