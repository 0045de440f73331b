use vstd::prelude::*;
use vstd::string::StringExecFns;
use crate::text::{decimal_digits, digit_char, digit_str, push_decimal};

verus! {

/// The unit a size is shown in.
#[derive(Clone, Copy, Debug, PartialEq, Eq, Structural)]
pub enum SizeUnit {
    Bytes,
    KiloBytes,
    MegaBytes,
}

/// A size as shown: a whole part, hundredths (for the larger units) and a unit.
pub struct SizeDisplay {
    pub whole: u64,
    pub hundredths: u64,
    pub unit: SizeUnit,
}

/// `n / d` rounded to the nearest integer, ties to the even one.
pub open spec fn round_half_even(n: nat, d: nat) -> nat
    recommends
        d > 0,
{
    let q = n / d;
    let r = n % d;
    if 2 * r > d || (2 * r == d && q % 2 == 1) {
        q + 1
    } else {
        q
    }
}

pub open spec fn unit_of(bytes: nat) -> SizeUnit {
    if bytes < 1024 {
        SizeUnit::Bytes
    } else if bytes < 1024 * 1024 {
        SizeUnit::KiloBytes
    } else {
        SizeUnit::MegaBytes
    }
}

pub open spec fn unit_divisor(u: SizeUnit) -> nat {
    match u {
        SizeUnit::Bytes => 1,
        SizeUnit::KiloBytes => 1024,
        SizeUnit::MegaBytes => 1024 * 1024,
    }
}

/// Chooses the unit of a byte count (bytes below 1024, kilobytes below 1024 * 1024,
/// megabytes above) and, for the larger units, rounds to the nearest hundredth with
/// ties to even.
pub fn size_display(bytes: u64) -> (r: SizeDisplay)
    ensures
        r == display_of(bytes),
        r.unit == unit_of(bytes as nat),
        r.unit == SizeUnit::Bytes ==> r.whole == bytes && r.hundredths == 0,
        r.unit != SizeUnit::Bytes ==> r.hundredths < 100
            && r.whole * 100 + r.hundredths == round_half_even(bytes as nat * 100, unit_divisor(r.unit)),
{
    if bytes < 1024 {
        return SizeDisplay { whole: bytes, hundredths: 0, unit: SizeUnit::Bytes };
    }
    let unit = if bytes < 1024 * 1024 { SizeUnit::KiloBytes } else { SizeUnit::MegaBytes };
    let d: u128 = if bytes < 1024 * 1024 { 1024 } else { 1024 * 1024 };
    let n: u128 = bytes as u128 * 100;
    let q: u128 = n / d;
    let rem: u128 = n % d;
    let rounded: u128 = if 2 * rem > d || (2 * rem == d && q % 2 == 1) { q + 1 } else { q };
    assert(q <= n / 1024) by {
        vstd::arithmetic::div_mod::lemma_div_is_ordered_by_denominator(n as int, 1024, d as int);
    }
    assert(n / 1024 <= u64::MAX as int * 100 / 1024) by {
        vstd::arithmetic::div_mod::lemma_div_is_ordered(n as int, u64::MAX as int * 100, 1024);
    }
    SizeDisplay { whole: (rounded / 100) as u64, hundredths: (rounded % 100) as u64, unit }
}

/// Two decimal digits of `h` (below 100), with a leading zero.
pub open spec fn two_digits(h: nat) -> Seq<char> {
    seq![digit_char(h / 10), digit_char(h % 10)]
}

/// How a size is written.
pub open spec fn size_text(s: SizeDisplay) -> Seq<char> {
    match s.unit {
        SizeUnit::Bytes => decimal_digits(s.whole as nat) + " B"@,
        SizeUnit::KiloBytes => decimal_digits(s.whole as nat) + seq!['.'] + two_digits(s.hundredths as nat) + " KB"@,
        SizeUnit::MegaBytes => decimal_digits(s.whole as nat) + seq!['.'] + two_digits(s.hundredths as nat) + " MB"@,
    }
}

/// The size shown for a byte count.
pub open spec fn display_of(bytes: u64) -> SizeDisplay {
    let unit = unit_of(bytes as nat);
    if unit == SizeUnit::Bytes {
        SizeDisplay { whole: bytes, hundredths: 0, unit }
    } else {
        let q = round_half_even(bytes as nat * 100, unit_divisor(unit));
        SizeDisplay { whole: (q / 100) as u64, hundredths: (q % 100) as u64, unit }
    }
}

/// A byte count for people: `512 B`, `1.50 KB`, `2.00 MB`.
pub fn format_size(bytes: u64) -> (r: String)
    ensures
        r@ == size_text(display_of(bytes)),
{
    let s = size_display(bytes);
    proof {
        reveal_strlit(".");
        reveal_strlit(" B");
        reveal_strlit(" KB");
        reveal_strlit(" MB");
    }
    let mut text = String::new();
    push_decimal(&mut text, s.whole);
    if s.unit == SizeUnit::Bytes {
        text.append(" B");
        assert(text@ =~= size_text(s));
        return text;
    }
    let ghost whole = text@;
    text.append(".");
    text.append(digit_str(s.hundredths / 10));
    text.append(digit_str(s.hundredths % 10));
    assert(text@ =~= whole + seq!['.'] + two_digits(s.hundredths as nat));
    if s.unit == SizeUnit::KiloBytes {
        text.append(" KB");
    } else {
        text.append(" MB");
    }
    assert(text@ =~= size_text(s));
    text
}

} // verus!
