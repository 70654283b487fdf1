use vstd::prelude::*;

verus! {

/// A count of bytes.
pub type Value = u64;

pub const B: Value = 1;
pub const KB: Value = 1024;
pub const MB: Value = 1024 * KB;
pub const GB: Value = 1024 * MB;
pub const TB: Value = 1024 * GB;
pub const PB: Value = 1024 * TB;

/// The character of the decimal digit `d` (for `d < 10`).
pub open spec fn digit_char(d: nat) -> char {
    if d == 0 {
        '0'
    } else if d == 1 {
        '1'
    } else if d == 2 {
        '2'
    } else if d == 3 {
        '3'
    } else if d == 4 {
        '4'
    } else if d == 5 {
        '5'
    } else if d == 6 {
        '6'
    } else if d == 7 {
        '7'
    } else if d == 8 {
        '8'
    } else {
        '9'
    }
}

/// The decimal numeral of `n`: no sign, no separators, no leading zeros.
pub open spec fn decimal(n: nat) -> Seq<char>
    decreases n,
{
    if n < 10 {
        seq![digit_char(n)]
    } else {
        decimal(n / 10).push(digit_char(n % 10))
    }
}

/// The byte count of the unit with exponent `k`: `1024` to the power `k`.
pub open spec fn unit(k: nat) -> nat
    decreases k,
{
    if k == 0 {
        1
    } else {
        1024 * unit((k - 1) as nat)
    }
}

/// The suffix of the unit with exponent `k` (B, KB, MB, GB, TB, PB for 0 to 5).
pub open spec fn suffix(k: nat) -> Seq<char> {
    if k == 0 {
        seq!['B']
    } else if k == 1 {
        seq!['K', 'B']
    } else if k == 2 {
        seq!['M', 'B']
    } else if k == 3 {
        seq!['G', 'B']
    } else if k == 4 {
        seq!['T', 'B']
    } else {
        seq!['P', 'B']
    }
}

/// The exponent of the unit in which `n` is shown: the largest `k <= 5` whose unit
/// divides `n`, and bytes for zero.
pub open spec fn unit_exponent(n: nat) -> nat {
    if n == 0 {
        0
    } else if n % unit(5) == 0 {
        5
    } else if n % unit(4) == 0 {
        4
    } else if n % unit(3) == 0 {
        3
    } else if n % unit(2) == 0 {
        2
    } else if n % unit(1) == 0 {
        1
    } else {
        0
    }
}

/// The text shown for `n` bytes: the count in the chosen unit, then its suffix.
pub open spec fn bytesize_text(n: nat) -> Seq<char> {
    decimal(n / unit(unit_exponent(n))) + suffix(unit_exponent(n))
}

/// The named constants are the units with exponents 0 to 5.
pub proof fn lemma_unit_constants()
    ensures
        unit(0) == B,
        unit(1) == KB,
        unit(2) == MB,
        unit(3) == GB,
        unit(4) == TB,
        unit(5) == PB,
{
    reveal_with_fuel(unit, 6);
}

/// A one-character string holding the digit `d`.
fn digit_str(d: u64) -> (r: &'static str)
    requires
        d < 10,
    ensures
        r@ == seq![digit_char(d as nat)],
{
    if d == 0 {
        proof { reveal_strlit("0"); }
        "0"
    } else if d == 1 {
        proof { reveal_strlit("1"); }
        "1"
    } else if d == 2 {
        proof { reveal_strlit("2"); }
        "2"
    } else if d == 3 {
        proof { reveal_strlit("3"); }
        "3"
    } else if d == 4 {
        proof { reveal_strlit("4"); }
        "4"
    } else if d == 5 {
        proof { reveal_strlit("5"); }
        "5"
    } else if d == 6 {
        proof { reveal_strlit("6"); }
        "6"
    } else if d == 7 {
        proof { reveal_strlit("7"); }
        "7"
    } else if d == 8 {
        proof { reveal_strlit("8"); }
        "8"
    } else {
        proof { reveal_strlit("9"); }
        "9"
    }
}

/// Appends the decimal numeral of `n` to `s`.
fn push_decimal(s: &mut String, n: u64)
    ensures
        final(s)@ == old(s)@ + decimal(n as nat),
    decreases n,
{
    if n >= 10 {
        push_decimal(s, n / 10);
    }
    s.append(digit_str(n % 10));
    proof {
        if n >= 10 {
            assert(old(s)@ + decimal(n as nat) =~= old(s)@ + decimal((n / 10) as nat) + seq![
                digit_char((n % 10) as nat),
            ]);
        } else {
            assert(n as nat % 10 == n as nat);
        }
    }
}

/// Human-readable display of a byte count in binary units.
pub trait Trait {
    fn bytesize_string(&self) -> String;
}

/// The suffix string of the unit with exponent `k`.
fn suffix_str(k: u64) -> (r: &'static str)
    requires
        k <= 5,
    ensures
        r@ == suffix(k as nat),
{
    if k == 0 {
        proof { reveal_strlit("B"); }
        "B"
    } else if k == 1 {
        proof { reveal_strlit("KB"); }
        "KB"
    } else if k == 2 {
        proof { reveal_strlit("MB"); }
        "MB"
    } else if k == 3 {
        proof { reveal_strlit("GB"); }
        "GB"
    } else if k == 4 {
        proof { reveal_strlit("TB"); }
        "TB"
    } else {
        proof { reveal_strlit("PB"); }
        "PB"
    }
}

/// The exponent of the unit in which `v` is shown, tried from PB down.
fn choose_unit(v: Value) -> (k: u64)
    ensures
        k <= 5,
        k as nat == unit_exponent(v as nat),
{
    proof {
        lemma_unit_constants();
    }
    if v == 0 {
        0
    } else if v % PB == 0 {
        5
    } else if v % TB == 0 {
        4
    } else if v % GB == 0 {
        3
    } else if v % MB == 0 {
        2
    } else if v % KB == 0 {
        1
    } else {
        0
    }
}

/// The unit with exponent `k`, as an integer.
fn unit_value(k: u64) -> (u: Value)
    requires
        k <= 5,
    ensures
        u > 0,
        u as nat == unit(k as nat),
{
    proof {
        lemma_unit_constants();
    }
    if k == 0 {
        B
    } else if k == 1 {
        KB
    } else if k == 2 {
        MB
    } else if k == 3 {
        GB
    } else if k == 4 {
        TB
    } else {
        PB
    }
}

impl Trait for Value {
    /// Shows the count in the largest of PB, TB, GB, MB and KB that divides it
    /// exactly, else in bytes; zero is shown as `0B`.
    fn bytesize_string(&self) -> (r: String)
        ensures
            r@ == bytesize_text(*self as nat),
    {
        let v: Value = *self;
        let k: u64 = choose_unit(v);
        let u: Value = unit_value(k);
        let mut r = String::new();
        push_decimal(&mut r, v / u);
        r.append(suffix_str(k));
        r
    }
}

} // verus!
