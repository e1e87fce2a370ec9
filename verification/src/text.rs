//! Character-level helpers shared by the parsing and formatting code.
//!
//! All text manipulation in this crate happens over `Seq<char>` views;
//! these helpers move between `&str`, `String` and `Vec<char>` and give
//! the small building blocks (equality, prefix tests, decimal rendering)
//! that the rest of the library states its contracts with.
use vstd::prelude::*;
use vstd::string::*;

verus! {

/// Collect the characters of a string slice into a vector.
pub fn chars_of(s: &str) -> (r: Vec<char>)
    ensures
        r@ == s@,
{
    let n = s.unicode_len();
    let mut out: Vec<char> = Vec::new();
    let mut i: usize = 0;
    while i < n
        invariant
            n == s@.len(),
            i <= n,
            out@ == s@.take(i as int),
        decreases n - i,
    {
        out.push(s.get_char(i));
        i = i + 1;
        assert(out@ =~= s@.take(i as int));
    }
    assert(s@.take(n as int) =~= s@);
    out
}

/// Build a `String` whose characters are exactly `v`.
///
/// Relies on `String: FromIterator<char>` (`collect`): the resulting
/// string contains the iterated characters in order.
#[verifier::external_body]
pub(crate) fn string_from_chars(v: &[char]) -> (r: String)
    ensures
        r@ == v@,
{
    v.iter().collect()
}

/// Character-wise string equality.
pub fn str_eq(a: &str, b: &str) -> (r: bool)
    ensures
        r <==> a@ =~= b@,
{
    let an = a.unicode_len();
    let bn = b.unicode_len();
    if an != bn {
        return false;
    }
    let mut i: usize = 0;
    while i < an
        invariant
            an == a@.len(),
            an == b@.len(),
            i <= an,
            forall|j: int| 0 <= j < i ==> a@[j] == b@[j],
        decreases an - i,
    {
        if a.get_char(i) != b.get_char(i) {
            return false;
        }
        i = i + 1;
    }
    true
}

/// Equality between a character vector and a string slice.
pub fn chars_eq_str(a: &[char], b: &str) -> (r: bool)
    ensures
        r <==> a@ =~= b@,
{
    let bn = b.unicode_len();
    if a.len() != bn {
        return false;
    }
    let mut i: usize = 0;
    while i < bn
        invariant
            bn == b@.len(),
            a@.len() == bn,
            i <= bn,
            forall|j: int| 0 <= j < i ==> a@[j] == b@[j],
        decreases bn - i,
    {
        if a[i] != b.get_char(i) {
            return false;
        }
        i = i + 1;
    }
    true
}

/// Does `s` begin with `prefix`?
pub open spec fn spec_starts_with(s: Seq<char>, prefix: Seq<char>) -> bool {
    prefix.len() <= s.len() && s.take(prefix.len() as int) == prefix
}

/// Prefix test over a character vector.
pub fn chars_start_with(s: &[char], prefix: &str) -> (r: bool)
    ensures
        r <==> spec_starts_with(s@, prefix@),
{
    let pn = prefix.unicode_len();
    if s.len() < pn {
        assert(!spec_starts_with(s@, prefix@));
        return false;
    }
    let mut i: usize = 0;
    while i < pn
        invariant
            pn == prefix@.len(),
            pn <= s@.len(),
            i <= pn,
            forall|j: int| 0 <= j < i ==> s@[j] == prefix@[j],
        decreases pn - i,
    {
        if s[i] != prefix.get_char(i) {
            assert(s@.take(pn as int)[i as int] != prefix@[i as int]);
            return false;
        }
        i = i + 1;
    }
    assert(s@.take(pn as int) =~= prefix@);
    true
}

/// The decimal digit characters of `n`, most significant first.
pub open spec fn spec_dec_digits(n: nat) -> Seq<char>
    decreases n,
{
    let d = digit_char((n % 10) as nat);
    if n < 10 {
        seq![d]
    } else {
        spec_dec_digits(n / 10) + seq![d]
    }
}

/// The character for one decimal digit.
pub open spec fn digit_char(d: nat) -> char {
    if d == 0 {
        '0'
    } else if d == 1 {
        '1'
    } else if d == 2 {
        '2'
    } else if d == 3 {
        '3'
    } else if d == 4 {
        '4'
    } else if d == 5 {
        '5'
    } else if d == 6 {
        '6'
    } else if d == 7 {
        '7'
    } else if d == 8 {
        '8'
    } else {
        '9'
    }
}

pub fn digit_to_char(d: u8) -> (r: char)
    requires
        d < 10,
    ensures
        r == digit_char(d as nat),
{
    if d == 0 {
        '0'
    } else if d == 1 {
        '1'
    } else if d == 2 {
        '2'
    } else if d == 3 {
        '3'
    } else if d == 4 {
        '4'
    } else if d == 5 {
        '5'
    } else if d == 6 {
        '6'
    } else if d == 7 {
        '7'
    } else if d == 8 {
        '8'
    } else {
        '9'
    }
}

/// Render an unsigned number in decimal.
pub fn u128_dec_chars(n: u128) -> (r: Vec<char>)
    ensures
        r@ == spec_dec_digits(n as nat),
    decreases n,
{
    if n < 10 {
        let d = digit_to_char((n % 10) as u8);
        let mut out: Vec<char> = Vec::new();
        out.push(d);
        assert(out@ =~= spec_dec_digits(n as nat));
        out
    } else {
        let mut out = u128_dec_chars(n / 10);
        out.push(digit_to_char((n % 10) as u8));
        assert(out@ =~= spec_dec_digits(n as nat));
        out
    }
}

/// The decimal rendering of a signed number: a minus sign for negative
/// values, then the digits of the absolute value.
pub open spec fn spec_i64_dec(n: int) -> Seq<char> {
    if n < 0 {
        seq!['-'] + spec_dec_digits((-n) as nat)
    } else {
        spec_dec_digits(n as nat)
    }
}

/// Render a signed number in decimal.
pub fn i64_dec_chars(n: i64) -> (r: Vec<char>)
    ensures
        r@ == spec_i64_dec(n as int),
{
    if n < 0 {
        let mag: u128 = if n == i64::MIN {
            9223372036854775808u128
        } else {
            (-n) as u128
        };
        assert(mag == (-(n as int)) as nat);
        let digits = u128_dec_chars(mag);
        let mut out: Vec<char> = Vec::new();
        out.push('-');
        let mut i: usize = 0;
        while i < digits.len()
            invariant
                i <= digits@.len(),
                out@ == seq!['-'] + digits@.take(i as int),
            decreases digits@.len() - i,
        {
            out.push(digits[i]);
            i = i + 1;
            assert(out@ =~= seq!['-'] + digits@.take(i as int));
        }
        assert(digits@.take(digits@.len() as int) =~= digits@);
        out
    } else {
        u128_dec_chars(n as u128)
    }
}

/// Render a signed number as a `String`.
pub fn i64_to_string(n: i64) -> (r: String)
    ensures
        r@ == spec_i64_dec(n as int),
{
    let chars = i64_dec_chars(n);
    string_from_chars(chars.as_slice())
}

/// Append every character of `src` to `dst`.
pub fn push_chars(dst: &mut Vec<char>, src: &[char])
    ensures
        final(dst)@ == old(dst)@ + src@,
{
    let mut i: usize = 0;
    while i < src.len()
        invariant
            i <= src@.len(),
            dst@ == old(dst)@ + src@.take(i as int),
        decreases src@.len() - i,
    {
        dst.push(src[i]);
        i = i + 1;
        assert(dst@ =~= old(dst)@ + src@.take(i as int));
    }
    assert(src@.take(src@.len() as int) =~= src@);
}

/// Append every character of the string slice `src` to `dst`.
pub fn push_str_chars(dst: &mut Vec<char>, src: &str)
    ensures
        final(dst)@ == old(dst)@ + src@,
{
    let n = src.unicode_len();
    let mut i: usize = 0;
    while i < n
        invariant
            n == src@.len(),
            i <= n,
            dst@ == old(dst)@ + src@.take(i as int),
        decreases n - i,
    {
        dst.push(src.get_char(i));
        i = i + 1;
        assert(dst@ =~= old(dst)@ + src@.take(i as int));
    }
    assert(src@.take(n as int) =~= src@);
}

/// Parse a decimal unsigned integer from characters, as `str::parse::<usize>`
/// accepts it: one or more ASCII digits, and no other character.
pub open spec fn spec_is_digit(c: char) -> bool {
    '0' <= c && c <= '9'
}

/// The numeric value of a digit sequence, most significant first.
pub open spec fn spec_digits_value(s: Seq<char>) -> nat
    decreases s.len(),
{
    if s.len() == 0 {
        0
    } else {
        (spec_digits_value(s.drop_last()) * 10 + (s.last() as int - '0' as int)) as nat
    }
}

/// Whether every character is a decimal digit and there is at least one.
pub open spec fn spec_all_digits(s: Seq<char>) -> bool {
    s.len() > 0 && forall|i: int| 0 <= i < s.len() ==> spec_is_digit(#[trigger] s[i])
}

/// Parse characters as `str::parse::<usize>` would: every character must be
/// a decimal digit, the value must fit, and a sign is not accepted.
pub fn parse_usize(s: &[char]) -> (r: Option<usize>)
    ensures
        match r {
            Some(v) => spec_all_digits(s@) && v as nat == spec_digits_value(s@),
            None => !spec_all_digits(s@) || spec_digits_value(s@) > usize::MAX,
        },
{
    if s.len() == 0 {
        return None;
    }
    let mut acc: usize = 0;
    let mut i: usize = 0;
    while i < s.len()
        invariant
            i <= s@.len(),
            forall|j: int| 0 <= j < i ==> spec_is_digit(#[trigger] s@[j]),
            acc as nat == spec_digits_value(s@.take(i as int)),
        decreases s@.len() - i,
    {
        let c = s[i];
        if c < '0' || c > '9' {
            assert(!spec_is_digit(s@[i as int]));
            return None;
        }
        let d: u32 = (c as u32) - ('0' as u32);
        if acc > (usize::MAX - (d as usize)) / 10 {
            // The running value would exceed the machine range.
            proof {
                if spec_all_digits(s@) {
                    let ip1 = i as int + 1;
                    assert(s@.take(ip1).drop_last() =~= s@.take(i as int));
                    assert(s@.take(ip1).last() == s@[i as int]);
                    assert(spec_digits_value(s@.take(ip1)) == acc as nat * 10 + (c as int
                        - '0' as int));
                    assert(acc as int * 10 + d as int > usize::MAX as int);
                    lemma_digits_value_monotone(s@, ip1);
                }
            }
            return None;
        }
        acc = acc * 10 + (d as usize);
        i = i + 1;
        assert(s@.take(i as int).drop_last() =~= s@.take(i - 1));
    }
    assert(s@.take(s@.len() as int) =~= s@);
    Some(acc)
}

/// A digit string's value only grows as more digits follow.
proof fn lemma_digits_value_monotone(s: Seq<char>, i: int)
    requires
        0 <= i <= s.len(),
        forall|j: int| 0 <= j < s.len() ==> spec_is_digit(#[trigger] s[j]),
    ensures
        spec_digits_value(s.take(i)) <= spec_digits_value(s),
    decreases s.len() - i,
{
    if i < s.len() {
        lemma_digits_value_monotone(s, i + 1);
        assert(s.take(i + 1).drop_last() =~= s.take(i));
        assert(spec_digits_value(s.take(i + 1)) == spec_digits_value(s.take(i)) * 10 + (s[i] as nat
            - '0' as nat));
    } else {
        assert(s.take(i) =~= s);
    }
}


/// The index of the first occurrence of `sep`, or the length if absent.
pub open spec fn spec_find_char(s: Seq<char>, sep: char) -> int
    decreases s.len(),
{
    if s.len() == 0 {
        0
    } else if s[0] == sep {
        0
    } else {
        1 + spec_find_char(s.drop_first(), sep)
    }
}

/// What `spec_find_char` finds is the least occurrence.
pub proof fn lemma_find_char(s: Seq<char>, sep: char)
    ensures
        0 <= spec_find_char(s, sep) <= s.len(),
        spec_find_char(s, sep) < s.len() ==> s[spec_find_char(s, sep)] == sep,
        forall|j: int| 0 <= j < spec_find_char(s, sep) ==> s[j] != sep,
    decreases s.len(),
{
    if s.len() > 0 && s[0] != sep {
        lemma_find_char(s.drop_first(), sep);
        assert forall|j: int| 0 <= j < spec_find_char(s, sep) implies s[j] != sep by {
            if j > 0 {
                assert(s.drop_first()[j - 1] == s[j]);
            }
        }
    }
}

/// Find the first occurrence of `sep`, or the length if absent.
pub fn find_char(s: &[char], sep: char) -> (r: usize)
    ensures
        r == spec_find_char(s@, sep),
        r <= s@.len(),
        r < s@.len() ==> s@[r as int] == sep,
        forall|j: int| 0 <= j < r ==> s@[j] != sep,
{
    proof {
        lemma_find_char(s@, sep);
    }
    let mut i: usize = 0;
    while i < s.len()
        invariant
            i <= s@.len(),
            forall|j: int| 0 <= j < i ==> s@[j] != sep,
            0 <= spec_find_char(s@, sep) <= s@.len(),
            spec_find_char(s@, sep) < s@.len() ==> s@[spec_find_char(s@, sep)] == sep,
            forall|j: int| 0 <= j < spec_find_char(s@, sep) ==> s@[j] != sep,
        decreases s@.len() - i,
    {
        if s[i] == sep {
            proof {
                if spec_find_char(s@, sep) < i {
                    assert(s@[spec_find_char(s@, sep)] == sep);
                }
                if spec_find_char(s@, sep) > i {
                    assert(s@[i as int] != sep);
                }
            }
            return i;
        }
        i = i + 1;
    }
    proof {
        if spec_find_char(s@, sep) < s@.len() {
            assert(s@[spec_find_char(s@, sep)] == sep);
        }
    }
    i
}

/// The segments of `s` between occurrences of `sep`, as `str::split` yields
/// them: an empty input gives one empty segment.
pub open spec fn spec_split(s: Seq<char>, sep: char) -> Seq<Seq<char>>
    decreases s.len(),
{
    let i = spec_find_char(s, sep);
    if 0 <= i < s.len() {
        seq![s.take(i)] + spec_split(s.skip(i + 1), sep)
    } else {
        seq![s]
    }
}

/// Split a character vector on a separator.
pub fn split_chars(s: &[char], sep: char) -> (r: Vec<Vec<char>>)
    ensures
        r.deep_view() == spec_split(s@, sep),
        r@.len() >= 1,
    decreases s@.len(),
{
    proof {
        lemma_find_char(s@, sep);
    }
    let i = find_char(s, sep);
    if i == s.len() {
        let mut seg: Vec<char> = Vec::new();
        push_chars(&mut seg, s);
        let mut out: Vec<Vec<char>> = Vec::new();
        out.push(seg);
        assert(out.deep_view() =~~= spec_split(s@, sep));
        out
    } else {
        let (head, _) = s.split_at(i);
        let mut seg: Vec<char> = Vec::new();
        push_chars(&mut seg, head);
        assert(seg@ =~= s@.take(i as int));
        let (_, tail0) = s.split_at(i + 1);
        assert(tail0@ =~= s@.skip(i + 1));
        let mut rest = split_chars(tail0, sep);
        let ghost rest0 = rest.deep_view();
        proof {
            assert(spec_split(s@, sep) == seq![s@.take(i as int)] + spec_split(
                s@.skip(i + 1),
                sep,
            ));
            assert(spec_split(tail0@, sep) == spec_split(s@.skip(i + 1), sep));
        }
        let mut out: Vec<Vec<char>> = Vec::new();
        out.push(seg);
        assert(out.deep_view() + rest.deep_view() =~~= seq![s@.take(i as int)] + rest0);
        while rest.len() > 0
            invariant
                out.deep_view() + rest.deep_view() == seq![s@.take(spec_find_char(s@, sep))]
                    + rest0,
            decreases rest@.len(),
        {
            let ghost pre_out = out.deep_view();
            let ghost pre_rest = rest.deep_view();
            let seg2 = rest.remove(0);
            out.push(seg2);
            proof {
                assert(out.deep_view() =~~= pre_out.push(pre_rest[0]));
                assert(rest.deep_view() =~~= pre_rest.drop_first());
                assert(out.deep_view() + rest.deep_view() =~~= pre_out + pre_rest);
            }
        }
        proof {
            assert(rest.deep_view() =~~= Seq::<Seq<char>>::empty());
            assert(out.deep_view() =~~= out.deep_view() + rest.deep_view());
            assert(out.deep_view() == spec_split(s@, sep));
        }
        out
    }
}


/// Does `pat` occur in `s` at position `i`?
pub fn match_at(s: &[char], i: usize, pat: &str) -> (r: bool)
    requires
        i <= s@.len(),
    ensures
        r <==> spec_starts_with(s@.skip(i as int), pat@),
{
    let pn = pat.unicode_len();
    if s.len() - i < pn {
        assert(!spec_starts_with(s@.skip(i as int), pat@));
        return false;
    }
    let mut j: usize = 0;
    while j < pn
        invariant
            pn == pat@.len(),
            i + pn <= s@.len(),
            s@.len() == s.len(),
            j <= pn,
            forall|k: int| 0 <= k < j ==> s@[i + k] == pat@[k],
        decreases pn - j,
    {
        assert(i + j < s@.len());
        if s[i + j] != pat.get_char(j) {
            assert(s@.skip(i as int).take(pn as int)[j as int] != pat@[j as int]);
            return false;
        }
        j = j + 1;
    }
    assert(s@.skip(i as int).take(pn as int) =~= pat@);
    true
}

/// Does `n` occur in `h` as a contiguous run?
pub open spec fn spec_contains(h: Seq<char>, n: Seq<char>) -> bool {
    exists|i: int| 0 <= i <= h.len() && spec_starts_with(#[trigger] h.skip(i), n)
}

/// Substring search, as `str::contains` decides it.
pub fn contains_chars(h: &[char], pat: &str) -> (r: bool)
    ensures
        r == spec_contains(h@, pat@),
{
    let mut i: usize = 0;
    while i <= h.len()
        invariant
            i <= h@.len() + 1,
            forall|j: int| 0 <= j < i ==> !spec_starts_with(#[trigger] h@.skip(j), pat@),
        decreases h@.len() + 1 - i,
    {
        if match_at(h, i, pat) {
            return true;
        }
        if i == h.len() {
            return false;
        }
        i = i + 1;
    }
    false
}

/// `s` with every occurrence of `pat` replaced by `rep`, scanning left to
/// right as `str::replace` does.
pub open spec fn spec_replace_all(s: Seq<char>, pat: Seq<char>, rep: Seq<char>) -> Seq<char>
    decreases s.len(),
    when pat.len() > 0
{
    if s.len() == 0 {
        Seq::empty()
    } else if spec_starts_with(s, pat) {
        rep + spec_replace_all(s.skip(pat.len() as int), pat, rep)
    } else {
        seq![s[0]] + spec_replace_all(s.drop_first(), pat, rep)
    }
}

/// Replace every occurrence of `pat` with `rep`.
pub fn replace_all_chars(s: &[char], pat: &str, rep: &str) -> (r: Vec<char>)
    requires
        pat@.len() > 0,
    ensures
        r@ == spec_replace_all(s@, pat@, rep@),
{
    let pn = pat.unicode_len();
    let mut out: Vec<char> = Vec::new();
    let mut i: usize = 0;
    assert(s@.skip(0) =~= s@);
    assert(out@ + spec_replace_all(s@, pat@, rep@) =~= spec_replace_all(s@, pat@, rep@));
    while i < s.len()
        invariant
            pn == pat@.len(),
            pn > 0,
            i <= s@.len(),
            out@ + spec_replace_all(s@.skip(i as int), pat@, rep@) == spec_replace_all(
                s@,
                pat@,
                rep@,
            ),
        decreases s@.len() - i,
    {
        let ghost prev = out@;
        if match_at(s, i, pat) {
            push_str_chars(&mut out, rep);
            proof {
                assert(s@.skip(i as int).skip(pn as int) =~= s@.skip(i + pn));
            }
            i = i + pn;
        } else {
            out.push(s[i]);
            proof {
                assert(s@.skip(i as int)[0] == s@[i as int]);
                assert(s@.skip(i as int).drop_first() =~= s@.skip(i + 1));
                assert(out@ =~= prev + seq![s@[i as int]]);
            }
            i = i + 1;
        }
        assert(out@ + spec_replace_all(s@.skip(i as int), pat@, rep@) =~= spec_replace_all(
            s@,
            pat@,
            rep@,
        ));
    }
    assert(s@.skip(s@.len() as int) =~= Seq::<char>::empty());
    assert(out@ =~= spec_replace_all(s@, pat@, rep@));
    out
}

/// What `str::to_lowercase` returns: a function of the characters alone.
pub uninterp spec fn lower_of(s: Seq<char>) -> Seq<char>;

/// Relies on `str::to_lowercase`: the result depends on the input's
/// characters alone.
#[verifier::external_body]
pub(crate) fn to_lowercase(s: &str) -> (r: String)
    ensures
        r@ == lower_of(s@),
{
    s.to_lowercase()
}


/// Relies on `String::from_utf8`: it succeeds exactly on valid UTF-8 and
/// decodes it.
#[verifier::external_body]
pub(crate) fn utf8_to_string(bytes: Vec<u8>) -> (r: Option<String>)
    ensures
        match r {
            Some(s) => vstd::utf8::valid_utf8(bytes@) && s@ == vstd::utf8::decode_utf8(bytes@),
            None => !vstd::utf8::valid_utf8(bytes@),
        },
{
    String::from_utf8(bytes).ok()
}

} // verus!
