//! Models for row-level message data: the service a message was sent over.
use vstd::prelude::*;

use vstd::string::StrSliceExecFns;

verus! {

/// The services a message can be received from.
#[derive(Debug, PartialEq, Eq)]
pub enum Service<'a> {
    /// An iMessage.
    #[allow(non_camel_case_types)]
    iMessage,
    /// A message sent as SMS.
    SMS,
    /// A message sent as RCS.
    RCS,
    /// A message sent via satellite.
    Satellite,
    /// Any other kind of message.
    Other(&'a str),
    /// The service field was not set.
    Unknown,
}

/// The characters `str::trim` removes: the Unicode `White_Space` set.
pub open spec fn spec_is_whitespace(c: char) -> bool {
    let u = c as u32;
    (0x9 <= u && u <= 0xd) || u == 0x20 || u == 0x85 || u == 0xa0 || u == 0x1680 || (0x2000 <= u
        && u <= 0x200a) || u == 0x2028 || u == 0x2029 || u == 0x202f || u == 0x205f || u == 0x3000
}

/// The number of leading whitespace characters.
pub open spec fn spec_ws_prefix(s: Seq<char>) -> int
    decreases s.len(),
{
    if s.len() > 0 && spec_is_whitespace(s[0]) {
        1 + spec_ws_prefix(s.drop_first())
    } else {
        0
    }
}

/// The number of trailing whitespace characters.
pub open spec fn spec_ws_suffix(s: Seq<char>) -> int
    decreases s.len(),
{
    if s.len() > 0 && spec_is_whitespace(s.last()) {
        1 + spec_ws_suffix(s.drop_last())
    } else {
        0
    }
}

/// `s` with leading and trailing whitespace removed, as `str::trim` does.
pub open spec fn spec_trim(s: Seq<char>) -> Seq<char> {
    let rest = s.skip(spec_ws_prefix(s));
    rest.take(rest.len() - spec_ws_suffix(rest))
}

/// Whitespace prefixes and suffixes are within bounds.
proof fn lemma_ws_bounds(s: Seq<char>)
    ensures
        0 <= spec_ws_prefix(s) <= s.len(),
        0 <= spec_ws_suffix(s) <= s.len(),
    decreases s.len(),
{
    if s.len() > 0 {
        lemma_ws_bounds(s.drop_first());
        lemma_ws_bounds(s.drop_last());
    }
}

fn is_whitespace_char(c: char) -> (r: bool)
    ensures
        r == spec_is_whitespace(c),
{
    let u = c as u32;
    (0x9 <= u && u <= 0xd) || u == 0x20 || u == 0x85 || u == 0xa0 || u == 0x1680 || (0x2000 <= u
        && u <= 0x200a) || u == 0x2028 || u == 0x2029 || u == 0x202f || u == 0x205f || u == 0x3000
}

/// The leading whitespace run stops at the first non-whitespace character.
proof fn lemma_ws_prefix_end(s: Seq<char>, k: int)
    requires
        0 <= k <= s.len(),
        forall|j: int| 0 <= j < k ==> spec_is_whitespace(#[trigger] s[j]),
        k < s.len() ==> !spec_is_whitespace(s[k]),
    ensures
        spec_ws_prefix(s) == k,
    decreases k,
{
    lemma_ws_bounds(s);
    if k > 0 {
        assert forall|j: int| 0 <= j < k - 1 implies spec_is_whitespace(
            #[trigger] s.drop_first()[j],
        ) by {
            assert(s.drop_first()[j] == s[j + 1]);
        }
        if k - 1 < s.drop_first().len() {
            assert(s.drop_first()[k - 1] == s[k]);
        }
        lemma_ws_prefix_end(s.drop_first(), k - 1);
    } else {
        if s.len() > 0 && spec_is_whitespace(s[0]) {
            assert(false);
        }
    }
}

/// The trailing whitespace run stops at the last non-whitespace character.
proof fn lemma_ws_suffix_end(s: Seq<char>, k: int)
    requires
        0 <= k <= s.len(),
        forall|j: int| s.len() - k <= j < s.len() ==> spec_is_whitespace(#[trigger] s[j]),
        k < s.len() ==> !spec_is_whitespace(s[s.len() - k - 1]),
    ensures
        spec_ws_suffix(s) == k,
    decreases k,
{
    lemma_ws_bounds(s);
    if k > 0 {
        assert(spec_is_whitespace(s.last()));
        assert forall|j: int|
            s.drop_last().len() - (k - 1) <= j < s.drop_last().len() implies spec_is_whitespace(
            #[trigger] s.drop_last()[j],
        ) by {
            assert(s.drop_last()[j] == s[j]);
        }
        if k - 1 < s.drop_last().len() {
            assert(s.drop_last()[s.len() - k - 1] == s[s.len() - k - 1]);
        }
        lemma_ws_suffix_end(s.drop_last(), k - 1);
    } else {
        if s.len() > 0 && spec_is_whitespace(s.last()) {
            assert(false);
        }
    }
}

/// Remove leading and trailing whitespace.
pub fn trim_str(s: &str) -> (r: &str)
    ensures
        r@ == spec_trim(s@),
{
    let n = s.unicode_len();
    let mut start: usize = 0;
    while start < n && is_whitespace_char(s.get_char(start))
        invariant
            n == s@.len(),
            start <= n,
            forall|j: int| 0 <= j < start ==> spec_is_whitespace(#[trigger] s@[j]),
        decreases n - start,
    {
        start = start + 1;
    }
    proof {
        lemma_ws_prefix_end(s@, start as int);
    }
    let mut end: usize = n;
    while end > start && is_whitespace_char(s.get_char(end - 1))
        invariant
            n == s@.len(),
            start <= end <= n,
            forall|j: int| 0 <= j < start ==> spec_is_whitespace(#[trigger] s@[j]),
            forall|j: int| end <= j < n ==> spec_is_whitespace(#[trigger] s@[j]),
        decreases end,
    {
        end = end - 1;
    }
    proof {
        let rest = s@.skip(start as int);
        assert forall|j: int| rest.len() - (n - end) <= j < rest.len() implies spec_is_whitespace(
            #[trigger] rest[j],
        ) by {
            assert(rest[j] == s@[j + start]);
        }
        if end > start {
            assert(rest[end - 1 - start] == s@[end - 1]);
        }
        lemma_ws_suffix_end(rest, n - end);
        assert(rest.take(rest.len() - (n - end)) =~= s@.subrange(start as int, end as int));
    }
    s.substring_char(start, end)
}

impl<'a> Service<'a> {
    /// Classify the free-text service column.
    pub fn from(service: Option<&'a str>) -> (r: Self)
        ensures
            match service {
                Option::None => r == Service::Unknown,
                Option::Some(s) => {
                    let t = spec_trim(s@);
                    match r {
                        Service::iMessage => t == "iMessage"@,
                        Service::Satellite => t == "iMessageLite"@,
                        Service::SMS => t == "SMS"@,
                        Service::RCS => t == "rcs"@ || t == "RCS"@,
                        Service::Other(o) => o@ == t && t != "iMessage"@ && t != "iMessageLite"@
                            && t != "SMS"@ && t != "rcs"@ && t != "RCS"@,
                        Service::Unknown => false,
                    }
                },
            },
    {
        if let Option::Some(service_name) = service {
            let trimmed = trim_str(service_name);
            if crate::text::str_eq(trimmed, "iMessage") {
                Service::iMessage
            } else if crate::text::str_eq(trimmed, "iMessageLite") {
                Service::Satellite
            } else if crate::text::str_eq(trimmed, "SMS") {
                Service::SMS
            } else if crate::text::str_eq(trimmed, "rcs") || crate::text::str_eq(trimmed, "RCS") {
                Service::RCS
            } else {
                Service::Other(trimmed)
            }
        } else {
            Service::Unknown
        }
    }
}

} // verus!
