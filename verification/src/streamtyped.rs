//! The fallback text parser for `attributedBody` data: when the full
//! `typedstream` decode fails, the body text is recovered as the bytes
//! between a fixed start marker and a fixed end marker, decoded as UTF-8,
//! with the attribute-prefix glyph dropped from the front.
use vstd::prelude::*;

use vstd::utf8::{decode_utf8, valid_utf8};

use crate::plist::copy_bytes;
use crate::text::string_from_chars;

verus! {

/// The failures of the fallback parser.
#[derive(Debug, PartialEq, Eq)]
pub enum StreamTypedError {
    /// The start marker is absent.
    NoStartPattern,
    /// The end marker is absent.
    NoEndPattern,
    /// Too little text remains to drop the prefix glyph.
    InvalidPrefix,
}

/// The first index where the two bytes `a`, `b` occur adjacently, or `-1`.
pub open spec fn spec_find_pair(s: Seq<u8>, a: u8, b: u8) -> int
    decreases s.len(),
{
    if s.len() < 2 {
        -1
    } else if s[0] == a && s[1] == b {
        0
    } else {
        let r = spec_find_pair(s.drop_first(), a, b);
        if r < 0 {
            -1
        } else {
            1 + r
        }
    }
}

/// What `spec_find_pair` finds is the least adjacent occurrence.
proof fn lemma_find_pair(s: Seq<u8>, a: u8, b: u8)
    ensures
        spec_find_pair(s, a, b) == -1 || (0 <= spec_find_pair(s, a, b) <= s.len() - 2),
        spec_find_pair(s, a, b) >= 0 ==> s[spec_find_pair(s, a, b)] == a && s[spec_find_pair(
            s,
            a,
            b,
        ) + 1] == b,
        spec_find_pair(s, a, b) == -1 ==> forall|j: int|
            0 <= j <= s.len() - 2 ==> !(s[j] == a && #[trigger] s[j + 1] == b),
        spec_find_pair(s, a, b) >= 0 ==> forall|j: int|
            0 <= j < spec_find_pair(s, a, b) ==> !(s[j] == a && #[trigger] s[j + 1] == b),
    decreases s.len(),
{
    if s.len() >= 2 && !(s[0] == a && s[1] == b) {
        lemma_find_pair(s.drop_first(), a, b);
        let r = spec_find_pair(s.drop_first(), a, b);
        if r < 0 {
            assert forall|j: int| 0 <= j <= s.len() - 2 implies !(s[j] == a && #[trigger] s[j + 1]
                == b) by {
                if j > 0 {
                    assert(s.drop_first()[j - 1] == s[j]);
                    assert(s.drop_first()[j] == s[j + 1]);
                    assert(!(s.drop_first()[j - 1] == a && s.drop_first()[j - 1 + 1] == b));
                }
            }
        } else {
            assert(s[1 + r] == s.drop_first()[r]);
            assert(s[1 + r + 1] == s.drop_first()[r + 1]);
            assert forall|j: int| 0 <= j < 1 + r implies !(s[j] == a && #[trigger] s[j + 1]
                == b) by {
                if j > 0 {
                    assert(s.drop_first()[j - 1] == s[j]);
                    assert(s.drop_first()[j] == s[j + 1]);
                    assert(!(s.drop_first()[j - 1] == a && s.drop_first()[j - 1 + 1] == b));
                }
            }
        }
    }
}

/// Find the first adjacent occurrence of `a`, `b`, or the length if absent.
fn find_pair(s: &[u8], a: u8, b: u8) -> (r: Option<usize>)
    ensures
        match r {
            Some(i) => i == spec_find_pair(s@, a, b) && i + 2 <= s@.len() && s@[i as int] == a
                && s@[i + 1] == b,
            None => spec_find_pair(s@, a, b) == -1,
        },
{
    proof {
        lemma_find_pair(s@, a, b);
    }
    if s.len() < 2 {
        return None;
    }
    let mut i: usize = 0;
    while i <= s.len() - 2
        invariant
            2 <= s@.len(),
            i <= s@.len() - 1,
            forall|j: int| 0 <= j < i ==> !(s@[j] == a && #[trigger] s@[j + 1] == b),
            spec_find_pair(s@, a, b) == -1 || (0 <= spec_find_pair(s@, a, b) <= s@.len() - 2),
            spec_find_pair(s@, a, b) >= 0 ==> s@[spec_find_pair(s@, a, b)] == a && s@[
                spec_find_pair(s@, a, b) + 1] == b,
            spec_find_pair(s@, a, b) == -1 ==> forall|j: int|
                0 <= j <= s@.len() - 2 ==> !(s@[j] == a && #[trigger] s@[j + 1] == b),
            spec_find_pair(s@, a, b) >= 0 ==> forall|j: int|
                0 <= j < spec_find_pair(s@, a, b) ==> !(s@[j] == a && #[trigger] s@[j + 1] == b),
        decreases s@.len() - i,
    {
        if s[i] == a && s[i + 1] == b {
            proof {
                if spec_find_pair(s@, a, b) == -1 {
                    assert(!(s@[i as int] == a && s@[i as int + 1] == b));
                }
                if 0 <= spec_find_pair(s@, a, b) < i {
                    assert(!(s@[spec_find_pair(s@, a, b)] == a && s@[spec_find_pair(s@, a, b) + 1]
                        == b));
                }
            }
            return Some(i);
        }
        i = i + 1;
    }
    proof {
        if spec_find_pair(s@, a, b) >= 0 {
            let f = spec_find_pair(s@, a, b);
            assert(!(s@[f] == a && s@[f + 1] == b));
        }
    }
    None
}

/// The byte run the fallback parser keeps: what lies between the start
/// marker `0x01 0x2b` and the end marker `0x86 0x84`. An input too short to
/// hold a marker passes through the corresponding stage unchanged.
pub open spec fn spec_kept_slice(s: Seq<u8>) -> Result<Seq<u8>, StreamTypedError> {
    let start = spec_find_pair(s, 0x01, 0x2b);
    if s.len() == 0 {
        spec_kept_end(s)
    } else if start == -1 {
        Err(StreamTypedError::NoStartPattern)
    } else {
        spec_kept_end(s.skip(start + 2))
    }
}

/// The second stage: truncate at the end marker, which is only accepted
/// past the first byte and clear of the final two.
pub open spec fn spec_kept_end(t: Seq<u8>) -> Result<Seq<u8>, StreamTypedError> {
    let rel = spec_find_pair(t.skip(1), 0x86, 0x84);
    if t.len() <= 1 {
        Ok(t)
    } else if rel >= 0 && rel + 1 < t.len() - 2 {
        Ok(t.take(rel + 1))
    } else {
        Err(StreamTypedError::NoEndPattern)
    }
}

/// What `String::from_utf8_lossy` returns: a function of the bytes alone.
pub uninterp spec fn utf8_lossy_of(bytes: Seq<u8>) -> Seq<char>;

/// Relies on `String::from_utf8_lossy`: the result depends on the bytes
/// alone, and valid UTF-8 decodes unchanged.
#[verifier::external_body]
fn utf8_to_string_lossy(bytes: &[u8]) -> (r: String)
    ensures
        r@ == utf8_lossy_of(bytes@),
        valid_utf8(bytes@) ==> r@ == decode_utf8(bytes@),
{
    String::from_utf8_lossy(bytes).into_owned()
}

/// The text the fallback parser recovers: the kept byte run decoded as
/// UTF-8 with one leading character dropped, or decoded lossily with three
/// dropped when the bytes are not valid UTF-8.
pub open spec fn spec_streamtyped_parse(s: Seq<u8>) -> Result<Seq<char>, StreamTypedError> {
    match spec_kept_slice(s) {
        Err(e) => Err(e),
        Ok(k) => {
            if valid_utf8(k) {
                let t = decode_utf8(k);
                if t.len() > 1 {
                    Ok(t.skip(1))
                } else {
                    Err(StreamTypedError::InvalidPrefix)
                }
            } else {
                let t = utf8_lossy_of(k);
                if t.len() > 3 {
                    Ok(t.skip(3))
                } else {
                    Err(StreamTypedError::InvalidPrefix)
                }
            }
        },
    }
}

/// Parse the body text out of `attributedBody` bytes whose full decode
/// failed.
pub fn parse(stream: Vec<u8>) -> (r: Result<String, StreamTypedError>)
    ensures
        match r {
            Ok(s) => spec_streamtyped_parse(stream@) == Ok::<Seq<char>, StreamTypedError>(s@),
            Err(e) => spec_streamtyped_parse(stream@) == Err::<Seq<char>, StreamTypedError>(e),
        },
{
    // Locate the start marker and drop everything through it.
    let rest: &[u8] = if stream.len() == 0 {
        stream.as_slice()
    } else {
        match find_pair(stream.as_slice(), 0x01, 0x2b) {
            Some(i) => {
                let (_, tail) = stream.as_slice().split_at(i + 2);
                proof {
                    lemma_find_pair(stream@, 0x01, 0x2b);
                    assert(tail@ =~= stream@.skip(i + 2));
                }
                tail
            },
            None => {
                return Err(StreamTypedError::NoStartPattern);
            },
        }
    };
    // Locate the end marker and truncate before it.
    let kept: &[u8] = if rest.len() <= 1 {
        rest
    } else {
        let (_, tail1) = rest.split_at(1);
        assert(tail1@ =~= rest@.skip(1));
        match find_pair(tail1, 0x86, 0x84) {
            Some(relv) => {
                if relv + 1 < rest.len() - 2 {
                    let (head, _) = rest.split_at(relv + 1);
                    assert(head@ =~= rest@.take(relv + 1));
                    head
                } else {
                    return Err(StreamTypedError::NoEndPattern);
                }
            },
            None => {
                return Err(StreamTypedError::NoEndPattern);
            },
        }
    };
    let kept_bytes = copy_bytes(kept);
    match crate::text::utf8_to_string(kept_bytes) {
        Some(text) => {
            // Valid text carries one attribute-prefix glyph.
            drop_chars(1, text)
        },
        None => {
            // Lossily decoded text carries three prefix characters.
            let text = utf8_to_string_lossy(kept);
            drop_chars(3, text)
        },
    }
}

/// Drop `offset` characters from the front of a string; the character at
/// that offset must exist.
pub fn drop_chars(offset: usize, string: String) -> (r: Result<String, StreamTypedError>)
    ensures
        match r {
            Ok(s) => string@.len() > offset && s@ == string@.skip(offset as int),
            Err(e) => string@.len() <= offset && e == StreamTypedError::InvalidPrefix,
        },
{
    let n = vstd::string::StrSliceExecFns::unicode_len(string.as_str());
    if n <= offset {
        return Err(StreamTypedError::InvalidPrefix);
    }
    let rest = vstd::string::StrSliceExecFns::substring_char(string.as_str(), offset, n);
    assert(rest@ =~= string@.skip(offset as int));
    Ok(crate::text::string_from_chars(crate::text::chars_of(rest).as_slice()))
}

} // verus!
