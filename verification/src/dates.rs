//! Timestamp arithmetic for the Apple epoch and readable time differences.
//!
//! Message timestamps count nanoseconds since 2001-01-01; they are compared
//! at second granularity, the way the database reads them.
use vstd::prelude::*;

use crate::text::{
    push_chars, push_str_chars, spec_dec_digits, spec_i64_dec, string_from_chars, u128_dec_chars,
};

verus! {

broadcast use vstd::string::group_string_axioms;

/// Nanoseconds per second: the factor message timestamps are stored with.
pub const TIMESTAMP_FACTOR: i64 = 1000000000;

/// One unit count rendered with its singular or plural unit name.
pub open spec fn spec_unit_phrase(n: int, unit: Seq<char>) -> Seq<char> {
    if n == 1 {
        spec_dec_digits(1) + seq![' '] + unit
    } else {
        spec_i64_dec(n) + seq![' '] + unit + seq!['s']
    }
}

/// The phrases of a second count: days, hours, minutes and seconds, with
/// zero components left out.
pub open spec fn spec_diff_phrases(seconds: int) -> Seq<Seq<char>> {
    let days = seconds / 86400;
    let hours = (seconds % 86400) / 3600;
    let minutes = (seconds % 3600) / 60;
    let secs = seconds % 60;
    (if days > 0 {
        seq![spec_unit_phrase(days, "day"@)]
    } else {
        Seq::empty()
    }) + (if hours > 0 {
        seq![spec_unit_phrase(hours, "hour"@)]
    } else {
        Seq::empty()
    }) + (if minutes > 0 {
        seq![spec_unit_phrase(minutes, "minute"@)]
    } else {
        Seq::empty()
    }) + (if secs > 0 {
        seq![spec_unit_phrase(secs, "second"@)]
    } else {
        Seq::empty()
    })
}

/// Phrases joined with a comma and a space.
pub open spec fn spec_join_phrases(parts: Seq<Seq<char>>) -> Seq<char>
    decreases parts.len(),
{
    if parts.len() == 0 {
        Seq::empty()
    } else if parts.len() == 1 {
        parts[0]
    } else {
        parts[0] + ", "@ + spec_join_phrases(parts.drop_first())
    }
}

/// Division truncating toward zero, as the machine division of the
/// timestamps behaves.
pub open spec fn spec_trunc_div(a: int, b: int) -> int
    recommends
        b > 0,
{
    if a >= 0 {
        a / b
    } else {
        -((-a) / b)
    }
}

/// The readable difference between two timestamps: `None` when the end
/// precedes the start, else the joined phrases of the elapsed whole
/// seconds.
pub open spec fn spec_readable_diff(start_ns: int, end_ns: int) -> Option<Seq<char>> {
    let seconds = spec_trunc_div(end_ns, TIMESTAMP_FACTOR as int) - spec_trunc_div(
        start_ns,
        TIMESTAMP_FACTOR as int,
    );
    if seconds < 0 {
        None
    } else {
        Some(spec_join_phrases(spec_diff_phrases(seconds)))
    }
}

fn unit_phrase(n: u64, unit: &str) -> (r: Vec<char>)
    ensures
        r@ == spec_unit_phrase(n as int, unit@),
{
    let mut out = u128_dec_chars(n as u128);
    out.push(' ');
    push_str_chars(&mut out, unit);
    if n != 1 {
        out.push('s');
    }
    assert(out@ =~= spec_unit_phrase(n as int, unit@));
    out
}

/// Render the elapsed time between two timestamps, skipping zero units.
#[verifier::rlimit(50)]
pub fn readable_diff(start_ns: i64, end_ns: i64) -> (r: Option<String>)
    ensures
        match r {
            Some(s) => spec_readable_diff(start_ns as int, end_ns as int) == Some(s@),
            None => spec_readable_diff(start_ns as int, end_ns as int) is None,
        },
{
    let ss = start_ns / TIMESTAMP_FACTOR;
    let se = end_ns / TIMESTAMP_FACTOR;
    if se < ss {
        return None;
    }
    let seconds: u64 = (se - ss) as u64;
    let days: u64 = seconds / 86400;
    let hours: u64 = (seconds % 86400) / 3600;
    let minutes: u64 = (seconds % 3600) / 60;
    let secs: u64 = seconds % 60;
    let mut parts: Vec<Vec<char>> = Vec::new();
    if days > 0 {
        parts.push(unit_phrase(days, "day"));
    }
    if hours > 0 {
        parts.push(unit_phrase(hours, "hour"));
    }
    if minutes > 0 {
        parts.push(unit_phrase(minutes, "minute"));
    }
    if secs > 0 {
        parts.push(unit_phrase(secs, "second"));
    }
    proof {
        assert(parts.deep_view() =~~= spec_diff_phrases(seconds as int));
    }
    let mut out: Vec<char> = Vec::new();
    let mut i: usize = 0;
    proof {
        assert(parts.deep_view().skip(0) =~= parts.deep_view());
    }
    while i < parts.len()
        invariant
            i <= parts@.len(),
            out@ + spec_join_phrases(parts.deep_view().skip(i as int)) == spec_join_phrases(
                parts.deep_view(),
            ),
        decreases parts@.len() - i,
    {
        proof {
            assert(parts.deep_view()[i as int] == parts@[i as int].deep_view());
            assert(parts@[i as int].deep_view() =~= parts@[i as int]@);
            assert(parts.deep_view().skip(i as int)[0] == parts.deep_view()[i as int]);
            assert(parts.deep_view().skip(i as int).drop_first() =~= parts.deep_view().skip(i + 1));
        }
        push_chars(&mut out, parts[i].as_slice());
        if i + 1 < parts.len() {
            push_str_chars(&mut out, ", ");
        }
        i = i + 1;
        assert(out@ + spec_join_phrases(parts.deep_view().skip(i as int)) =~= spec_join_phrases(
            parts.deep_view(),
        ));
    }
    proof {
        assert(parts.deep_view().skip(parts.deep_view().len() as int) =~= Seq::<Seq<char>>::empty());
        assert(out@ =~= spec_join_phrases(spec_diff_phrases(seconds as int)));
    }
    Some(string_from_chars(out.as_slice()))
}

} // verus!
