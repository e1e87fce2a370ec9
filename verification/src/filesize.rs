//! Human-readable rendering of file sizes.
use vstd::prelude::*;

use crate::text::{digit_char, digit_to_char, push_str_chars, spec_dec_digits, string_from_chars, u128_dec_chars};

verus! {

broadcast use vstd::string::group_string_axioms;

/// How many times the size is divided by 1024 before rendering: once per
/// whole step up to the terabyte unit.
pub open spec fn spec_size_unit(bytes: nat) -> int {
    if bytes >= 0x10000000000 {
        4
    } else if bytes >= 0x40000000 {
        3
    } else if bytes >= 0x100000 {
        2
    } else if bytes >= 0x400 {
        1
    } else {
        0
    }
}

/// The divisor for a unit step.
pub open spec fn spec_unit_divisor(unit: int) -> nat {
    if unit == 4 {
        0x10000000000
    } else if unit == 3 {
        0x40000000
    } else if unit == 2 {
        0x100000
    } else if unit == 1 {
        0x400
    } else {
        1
    }
}

/// The unit suffix for a unit step.
pub open spec fn spec_unit_name(unit: int) -> Seq<char> {
    if unit == 4 {
        "TB"@
    } else if unit == 3 {
        "GB"@
    } else if unit == 2 {
        "MB"@
    } else if unit == 1 {
        "KB"@
    } else {
        "B"@
    }
}

/// The size scaled to its unit, in hundredths, rounded half up.
pub open spec fn spec_size_hundredths(bytes: nat) -> nat {
    ((bytes * 200 / spec_unit_divisor(spec_size_unit(bytes))) + 1) / 2
}

/// The rendered size: the scaled value with two decimal places, a space,
/// and the unit.
pub open spec fn spec_format_file_size(bytes: nat) -> Seq<char> {
    let v = spec_size_hundredths(bytes);
    spec_dec_digits(v / 100) + seq!['.', digit_char((v / 10) % 10), digit_char(v % 10), ' ']
        + spec_unit_name(spec_size_unit(bytes))
}

/// Render a byte count as a value between 1 and 1024 in the largest unit
/// it reaches, with two decimal places.
pub fn format_file_size(total_bytes: u64) -> (r: String)
    ensures
        r@ == spec_format_file_size(total_bytes as nat),
{
    let b: u128 = total_bytes as u128;
    let divisor: u128 = if b >= 0x10000000000 {
        0x10000000000
    } else if b >= 0x40000000 {
        0x40000000
    } else if b >= 0x100000 {
        0x100000
    } else if b >= 0x400 {
        0x400
    } else {
        1
    };
    let unit: &str = if b >= 0x10000000000 {
        "TB"
    } else if b >= 0x40000000 {
        "GB"
    } else if b >= 0x100000 {
        "MB"
    } else if b >= 0x400 {
        "KB"
    } else {
        "B"
    };
    let v: u128 = (b * 200 / divisor + 1) / 2;
    assert(v == spec_size_hundredths(total_bytes as nat));
    let mut out = u128_dec_chars(v / 100);
    out.push('.');
    let d1: u8 = ((v / 10) % 10) as u8;
    let d0: u8 = (v % 10) as u8;
    out.push(digit_to_char(d1));
    out.push(digit_to_char(d0));
    out.push(' ');
    push_str_chars(&mut out, unit);
    assert(out@ =~= spec_format_file_size(total_bytes as nat));
    string_from_chars(out.as_slice())
}

} // verus!
