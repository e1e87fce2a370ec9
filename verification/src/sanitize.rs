//! Sanitizers for text that is written into filenames or into the HTML log.
use vstd::prelude::*;

use crate::text::{chars_of, push_str_chars, string_from_chars};

verus! {

/// Characters disallowed in a filename.
pub open spec fn filename_disallowed(c: char) -> bool {
    c == '*' || c == '"' || c == '/' || c == '\\' || c == '<' || c == '>' || c == ':' || c == '|'
        || c == '?'
}

/// Unicode control characters: the `Cc` category.
pub open spec fn is_control_char(c: char) -> bool {
    (c as u32) < 0x20 || (0x7f <= (c as u32) && (c as u32) <= 0x9f)
}

/// What the filename sanitizer does to one character.
pub open spec fn sanitize_char(c: char) -> char {
    if is_control_char(c) || filename_disallowed(c) {
        '_'
    } else {
        c
    }
}

/// The sanitized form of a whole filename.
pub open spec fn spec_sanitize_filename(s: Seq<char>) -> Seq<char> {
    s.map(|_i: int, c: char| sanitize_char(c))
}

/// Replace every Unicode control character and every character of the
/// disallowed set with an underscore.
pub fn sanitize_filename(filename: &str) -> (r: String)
    ensures
        r@ == spec_sanitize_filename(filename@),
{
    let cs = chars_of(filename);
    let mut out: Vec<char> = Vec::new();
    let mut i: usize = 0;
    while i < cs.len()
        invariant
            cs@ == filename@,
            i <= cs@.len(),
            out@ == cs@.take(i as int).map(|_j: int, c: char| sanitize_char(c)),
        decreases cs@.len() - i,
    {
        let c = cs[i];
        let u = c as u32;
        if u < 0x20 || (0x7f <= u && u <= 0x9f) || c == '*' || c == '"' || c == '/' || c == '\\'
            || c == '<' || c == '>' || c == ':' || c == '|' || c == '?' {
            out.push('_');
        } else {
            out.push(c);
        }
        i = i + 1;
        assert(cs@.take(i as int) == cs@.take(i - 1).push(cs@[i - 1]));
        assert(out@ =~= cs@.take(i as int).map(|_j: int, c: char| sanitize_char(c)));
    }
    assert(cs@.take(cs@.len() as int) =~= cs@);
    string_from_chars(out.as_slice())
}

/// A sanitized filename has no disallowed character and no control
/// character, and sanitizing again changes nothing.
pub proof fn lemma_sanitize_filename_idempotent(s: Seq<char>)
    ensures
        forall|i: int|
            0 <= i < spec_sanitize_filename(s).len() ==> !filename_disallowed(
                #[trigger] spec_sanitize_filename(s)[i],
            ) && !is_control_char(spec_sanitize_filename(s)[i]),
        spec_sanitize_filename(spec_sanitize_filename(s)) =~= spec_sanitize_filename(s),
{
    assert forall|i: int| 0 <= i < spec_sanitize_filename(s).len() implies !filename_disallowed(
        #[trigger] spec_sanitize_filename(s)[i],
    ) && !is_control_char(spec_sanitize_filename(s)[i]) by {
        assert(spec_sanitize_filename(s)[i] == sanitize_char(s[i]));
        assert(('_' as u32) == 0x5f);
    }
}

/// The replacement text for one character in HTML output.
pub open spec fn html_escape_char(c: char) -> Seq<char> {
    if c == '>' {
        seq!['&', 'g', 't', ';']
    } else if c == '<' {
        seq!['&', 'l', 't', ';']
    } else if c == '"' {
        seq!['&', 'q', 'u', 'o', 't', ';']
    } else if c == '\'' {
        seq!['&', 'a', 'p', 'o', 's', ';']
    } else if c == '`' {
        seq!['&', 'g', 'r', 'a', 'v', 'e', ';']
    } else if c == '&' {
        seq!['&', 'a', 'm', 'p', ';']
    } else if c == '\u{a0}' {
        seq!['&', 'n', 'b', 's', 'p', ';']
    } else {
        seq![c]
    }
}

/// The HTML-escaped form of a whole string.
pub open spec fn spec_sanitize_html(s: Seq<char>) -> Seq<char>
    decreases s.len(),
{
    if s.len() == 0 {
        Seq::empty()
    } else {
        html_escape_char(s[0]) + spec_sanitize_html(s.drop_first())
    }
}

/// Escape the HTML special characters of the input.
pub fn sanitize_html(input: &str) -> (r: String)
    ensures
        r@ == spec_sanitize_html(input@),
{
    let cs = chars_of(input);
    let mut out: Vec<char> = Vec::new();
    let mut i: usize = 0;
    assert(cs@.skip(0) =~= cs@);
    assert(out@ + spec_sanitize_html(cs@) =~= spec_sanitize_html(cs@));
    while i < cs.len()
        invariant
            cs@ == input@,
            i <= cs@.len(),
            out@ + spec_sanitize_html(cs@.skip(i as int)) == spec_sanitize_html(cs@),
        decreases cs@.len() - i,
    {
        let c = cs[i];
        let ghost prev = out@;
        proof {
            assert(cs@.skip(i as int)[0] == cs@[i as int]);
            assert(cs@.skip(i as int).drop_first() =~= cs@.skip(i + 1));
        }
        if c == '>' {
            push_str_chars(&mut out, "&gt;");
            proof {
                reveal_strlit("&gt;");
                assert(out@ =~= prev + html_escape_char(c));
            }
        } else if c == '<' {
            push_str_chars(&mut out, "&lt;");
            proof {
                reveal_strlit("&lt;");
                assert(out@ =~= prev + html_escape_char(c));
            }
        } else if c == '"' {
            push_str_chars(&mut out, "&quot;");
            proof {
                reveal_strlit("&quot;");
                assert(out@ =~= prev + html_escape_char(c));
            }
        } else if c == '\'' {
            push_str_chars(&mut out, "&apos;");
            proof {
                reveal_strlit("&apos;");
                assert(out@ =~= prev + html_escape_char(c));
            }
        } else if c == '`' {
            push_str_chars(&mut out, "&grave;");
            proof {
                reveal_strlit("&grave;");
                assert(out@ =~= prev + html_escape_char(c));
            }
        } else if c == '&' {
            push_str_chars(&mut out, "&amp;");
            proof {
                reveal_strlit("&amp;");
                assert(out@ =~= prev + html_escape_char(c));
            }
        } else if c == '\u{a0}' {
            push_str_chars(&mut out, "&nbsp;");
            proof {
                reveal_strlit("&nbsp;");
                assert(out@ =~= prev + html_escape_char(c));
            }
        } else {
            out.push(c);
            proof {
                assert(out@ =~= prev + html_escape_char(c));
            }
        }
        i = i + 1;
        assert(out@ + spec_sanitize_html(cs@.skip(i as int)) =~= spec_sanitize_html(cs@));
    }
    assert(cs@.skip(cs@.len() as int) =~= Seq::<char>::empty());
    assert(out@ =~= spec_sanitize_html(cs@));
    string_from_chars(out.as_slice())
}

} // verus!
