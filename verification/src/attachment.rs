//! A row of the `attachment` table, its MIME classification, and the
//! resolution of its on-disk path on both platforms.
use vstd::prelude::*;

use vstd::string::{StrSliceExecFns, StringExecFns};

use crate::filesize::{format_file_size, spec_format_file_size};
use crate::platform::Platform;
use crate::text::{
    chars_of, find_char, push_chars, push_str_chars, spec_find_char, spec_replace_all, spec_split,
    string_from_chars,
};

verus! {

broadcast use vstd::string::group_string_axioms;

/// The default root directory for attachment data.
pub const DEFAULT_ATTACHMENT_ROOT: &'static str = "~/Library/Messages/Attachments";

/// The MIME type of an attachment; the payload is the subtype.
#[derive(Debug, PartialEq, Eq)]
pub enum MediaType<'a> {
    Image(&'a str),
    Video(&'a str),
    Audio(&'a str),
    Text(&'a str),
    Application(&'a str),
    /// A MIME string outside the known categories, kept whole.
    Other(&'a str),
    /// No MIME type could be inferred.
    Unknown,
}

impl MediaType<'_> {
    /// The MIME type string for this media type.
    pub fn as_mime_type(&self) -> (r: String)
        ensures
            match *self {
                MediaType::Image(s) => r@ == "image/"@ + s@,
                MediaType::Video(s) => r@ == "video/"@ + s@,
                MediaType::Audio(s) => r@ == "audio/"@ + s@,
                MediaType::Text(s) => r@ == "text/"@ + s@,
                MediaType::Application(s) => r@ == "application/"@ + s@,
                MediaType::Other(s) => r@ == s@,
                MediaType::Unknown => r@ == Seq::<char>::empty(),
            },
    {
        match self {
            MediaType::Image(subtype) => {
                let mut s = String::from_str("image/");
                s.append(subtype);
                s
            },
            MediaType::Video(subtype) => {
                let mut s = String::from_str("video/");
                s.append(subtype);
                s
            },
            MediaType::Audio(subtype) => {
                let mut s = String::from_str("audio/");
                s.append(subtype);
                s
            },
            MediaType::Text(subtype) => {
                let mut s = String::from_str("text/");
                s.append(subtype);
                s
            },
            MediaType::Application(subtype) => {
                let mut s = String::from_str("application/");
                s.append(subtype);
                s
            },
            MediaType::Other(mime) => String::from_str(mime),
            MediaType::Unknown => String::new(),
        }
    }
}

/// A single row of the `attachment` table.
#[derive(Debug)]
pub struct Attachment {
    pub rowid: i32,
    /// The path to the file on disk, as the table stores it.
    pub filename: Option<String>,
    /// The Uniform Type Identifier.
    pub uti: Option<String>,
    /// The file's MIME type.
    pub mime_type: Option<String>,
    /// The name of the file when sent or received.
    pub transfer_name: Option<String>,
    /// The total amount of data transferred over the network.
    pub total_bytes: i64,
    /// Whether the attachment is a sticker.
    pub is_sticker: bool,
    pub hide_attachment: i32,
    /// The prompt used to generate a Genmoji.
    pub emoji_description: Option<String>,
    /// Where the attachment was staged after archival copying.
    pub copied_path: Option<String>,
}

/// The twenty bytes of the SHA-1 digest of `data`.
pub uninterp spec fn sha1_of(data: Seq<u8>) -> Seq<u8>;

/// Relies on `sha1::Sha1` through `Digest::digest`: the digest is a
/// function of the input bytes alone and is twenty bytes long.
#[verifier::external_body]
fn sha1_digest(data: &[u8]) -> (r: Vec<u8>)
    ensures
        r@ == sha1_of(data@),
        r@.len() == 20,
{
    <sha1::Sha1 as sha1::Digest>::digest(data).to_vec()
}

/// The lowercase hex character of one value below sixteen.
pub open spec fn spec_hex_digit(d: int) -> char {
    if d == 0 {
        '0'
    } else if d == 1 {
        '1'
    } else if d == 2 {
        '2'
    } else if d == 3 {
        '3'
    } else if d == 4 {
        '4'
    } else if d == 5 {
        '5'
    } else if d == 6 {
        '6'
    } else if d == 7 {
        '7'
    } else if d == 8 {
        '8'
    } else if d == 9 {
        '9'
    } else if d == 10 {
        'a'
    } else if d == 11 {
        'b'
    } else if d == 12 {
        'c'
    } else if d == 13 {
        'd'
    } else if d == 14 {
        'e'
    } else {
        'f'
    }
}

/// Bytes rendered as lowercase hex, two characters each.
pub open spec fn spec_hex(bytes: Seq<u8>) -> Seq<char>
    decreases bytes.len(),
{
    if bytes.len() == 0 {
        Seq::empty()
    } else {
        seq![
            spec_hex_digit(bytes[0] as int / 16),
            spec_hex_digit(bytes[0] as int % 16),
        ] + spec_hex(bytes.drop_first())
    }
}

/// The SHA-1 digest of `data` rendered as forty lowercase hex digits.
pub open spec fn sha1_hex_of(data: Seq<u8>) -> Seq<char> {
    spec_hex(sha1_of(data))
}

fn hex_digit(d: u8) -> (r: char)
    requires
        d < 16,
    ensures
        r == spec_hex_digit(d as int),
{
    if d == 0 {
        '0'
    } else if d == 1 {
        '1'
    } else if d == 2 {
        '2'
    } else if d == 3 {
        '3'
    } else if d == 4 {
        '4'
    } else if d == 5 {
        '5'
    } else if d == 6 {
        '6'
    } else if d == 7 {
        '7'
    } else if d == 8 {
        '8'
    } else if d == 9 {
        '9'
    } else if d == 10 {
        'a'
    } else if d == 11 {
        'b'
    } else if d == 12 {
        'c'
    } else if d == 13 {
        'd'
    } else if d == 14 {
        'e'
    } else {
        'f'
    }
}

/// Render bytes as lowercase hex.
fn hex_lower(bytes: &[u8]) -> (r: Vec<char>)
    ensures
        r@ == spec_hex(bytes@),
        r@.len() == 2 * bytes@.len(),
{
    let mut out: Vec<char> = Vec::new();
    let mut i: usize = 0;
    proof {
        assert(bytes@.skip(0) =~= bytes@);
        lemma_hex_len(bytes@);
    }
    while i < bytes.len()
        invariant
            i <= bytes@.len(),
            out@ + spec_hex(bytes@.skip(i as int)) == spec_hex(bytes@),
            out@.len() == 2 * i,
        decreases bytes@.len() - i,
    {
        let b = bytes[i];
        proof {
            assert(bytes@.skip(i as int)[0] == bytes@[i as int]);
            assert(bytes@.skip(i as int).drop_first() =~= bytes@.skip(i + 1));
        }
        out.push(hex_digit(b / 16));
        out.push(hex_digit(b % 16));
        i = i + 1;
        assert(out@ + spec_hex(bytes@.skip(i as int)) =~= spec_hex(bytes@));
    }
    proof {
        assert(bytes@.skip(bytes@.len() as int) =~= Seq::<u8>::empty());
        assert(out@ =~= spec_hex(bytes@));
        lemma_hex_len(bytes@);
    }
    out
}

/// Hex rendering writes two characters per byte.
proof fn lemma_hex_len(bytes: Seq<u8>)
    ensures
        spec_hex(bytes).len() == 2 * bytes.len(),
    decreases bytes.len(),
{
    if bytes.len() > 0 {
        lemma_hex_len(bytes.drop_first());
    }
}

/// The digest of `data` in lowercase hex.
fn sha1_hex(data: &[u8]) -> (r: String)
    ensures
        r@ == sha1_hex_of(data@),
        r@.len() == 40,
{
    let digest = sha1_digest(data);
    let chars = hex_lower(digest.as_slice());
    string_from_chars(chars.as_slice())
}

impl Attachment {
    /// The media type of the attachment: the two halves of its MIME string,
    /// or, when the MIME type is absent, `Audio` for the Core Audio UTI.
    pub fn mime_type(&self) -> (r: MediaType<'_>)
        ensures
            match self.mime_type {
                Some(ref m) => {
                    let parts = spec_split(m@, '/');
                    match r {
                        MediaType::Image(s) => parts.len() >= 2 && parts[0] == "image"@ && s@
                            == parts[1],
                        MediaType::Video(s) => parts.len() >= 2 && parts[0] == "video"@ && s@
                            == parts[1],
                        MediaType::Audio(s) => parts.len() >= 2 && parts[0] == "audio"@ && s@
                            == parts[1],
                        MediaType::Text(s) => parts.len() >= 2 && parts[0] == "text"@ && s@
                            == parts[1],
                        MediaType::Application(s) => parts.len() >= 2 && parts[0] == "application"@
                            && s@ == parts[1],
                        MediaType::Other(s) => s@ == m@ && (parts.len() < 2 || (parts[0]
                            != "image"@ && parts[0] != "video"@ && parts[0] != "audio"@ && parts[0]
                            != "text"@ && parts[0] != "application"@)),
                        MediaType::Unknown => false,
                    }
                },
                Option::None => match r {
                    MediaType::Audio(s) => s@ == "x-caf; codecs=opus"@ && (
                    match self.uti {
                        Some(ref u) => u@ == "com.apple.coreaudio-format"@,
                        Option::None => false,
                    }),
                    MediaType::Unknown => match self.uti {
                        Some(ref u) => u@ != "com.apple.coreaudio-format"@,
                        Option::None => true,
                    },
                    _ => false,
                },
            },
    {
        match &self.mime_type {
            Some(mime) => {
                let m = mime.as_str();
                let n = m.unicode_len();
                let cs = chars_of(m);
                let i = find_char(cs.as_slice(), '/');
                if i == n {
                    proof {
                        assert(spec_split(m@, '/').len() == 1);
                    }
                    return MediaType::Other(m);
                }
                let (_, rest) = cs.as_slice().split_at(i + 1);
                assert(rest@ =~= m@.skip(i + 1));
                let j = find_char(rest, '/');
                let category = m.substring_char(0, i);
                let subtype = m.substring_char(i + 1, i + 1 + j);
                proof {
                    let parts = spec_split(m@, '/');
                    assert(parts[0] == m@.take(i as int));
                    assert(category@ =~= m@.take(i as int));
                    let parts1 = spec_split(m@.skip(i + 1), '/');
                    assert(parts[1] == parts1[0]);
                    if j < rest@.len() {
                        assert(parts1[0] == m@.skip(i + 1).take(j as int));
                    } else {
                        assert(parts1 =~= seq![m@.skip(i + 1)]);
                    }
                    assert(subtype@ =~= m@.subrange(i + 1, i + 1 + j));
                    assert(m@.skip(i + 1).take(j as int) =~= m@.subrange(i + 1, i + 1 + j));
                    assert(m@.skip(i + 1).take(m@.skip(i + 1).len() as int) =~= m@.skip(i + 1));
                }
                if crate::text::str_eq(category, "image") {
                    MediaType::Image(subtype)
                } else if crate::text::str_eq(category, "video") {
                    MediaType::Video(subtype)
                } else if crate::text::str_eq(category, "audio") {
                    MediaType::Audio(subtype)
                } else if crate::text::str_eq(category, "text") {
                    MediaType::Text(subtype)
                } else if crate::text::str_eq(category, "application") {
                    MediaType::Application(subtype)
                } else {
                    MediaType::Other(m)
                }
            },
            Option::None => {
                match &self.uti {
                    Some(uti) => {
                        if crate::text::str_eq(uti.as_str(), "com.apple.coreaudio-format") {
                            MediaType::Audio("x-caf; codecs=opus")
                        } else {
                            MediaType::Unknown
                        }
                    },
                    Option::None => MediaType::Unknown,
                }
            },
        }
    }

    /// The stored path of the attachment, if any.
    pub fn path(&self) -> (r: Option<&str>)
        ensures
            match (&self.filename, r) {
                (Some(f), Some(p)) => p@ == f@,
                (Option::None, Option::None) => true,
                _ => false,
            },
    {
        match &self.filename {
            Some(name) => Some(name.as_str()),
            Option::None => Option::None,
        }
    }

    /// The extension of the stored path: what follows the final `.` of the
    /// part after the final `/`, unless that part has no `.` past its first
    /// character.
    pub fn extension(&self) -> (r: Option<&str>)
        ensures
            match r {
                Some(e) => match self.filename {
                    Some(ref f) => e@ == spec_extension_of(f@)->Some_0 && spec_extension_of(
                        f@,
                    ) is Some,
                    Option::None => false,
                },
                Option::None => match self.filename {
                    Some(ref f) => spec_extension_of(f@) is None,
                    Option::None => true,
                },
            },
    {
        match &self.filename {
            Some(name) => extension_of(name.as_str()),
            Option::None => Option::None,
        }
    }

    /// A reasonable filename: the transfer name when present, else the
    /// stored path.
    pub fn filename(&self) -> (r: Option<&str>)
        ensures
            match (&self.transfer_name, &self.filename, r) {
                (Some(t), _, Some(o)) => o@ == t@,
                (Option::None, Some(f), Some(o)) => o@ == f@,
                (Option::None, Option::None, Option::None) => true,
                _ => false,
            },
    {
        match &self.transfer_name {
            Some(t) => Some(t.as_str()),
            Option::None => match &self.filename {
                Some(f) => Some(f.as_str()),
                Option::None => Option::None,
            },
        }
    }

    /// The attachment's transferred size, readably formatted; sizes below
    /// zero read as zero.
    pub fn file_size(&self) -> (r: String)
        ensures
            r@ == spec_format_file_size(
                if self.total_bytes >= 0 {
                    self.total_bytes as nat
                } else {
                    0
                },
            ),
    {
        let b: u64 = if self.total_bytes >= 0 {
            self.total_bytes as u64
        } else {
            0
        };
        format_file_size(b)
    }

    /// The concrete filesystem path of the attachment.
    ///
    /// On macOS a leading `~` is replaced by the home directory, and a
    /// configured attachment root replaces the default root prefix. On iOS
    /// the path is derived from the SHA-1 digest of `MediaDomain-` followed
    /// by the stored path without its two leading characters, placed under
    /// the backup root in a directory named by the digest's first two hex
    /// digits.
    pub fn resolved_attachment_path(
        &self,
        platform: &Platform,
        db_path: &str,
        home: &str,
        custom_attachment_root: Option<&str>,
    ) -> (r: Option<String>)
        ensures
            match (&self.filename, &r) {
                (Option::None, Option::None) => true,
                (Some(f), _) => {
                    let p = spec_apply_custom_root(f@, custom_attachment_root.deep_view());
                    match platform {
                        Platform::macOS => r matches Some(out) && out@ == spec_macos_attachment(
                            p,
                            home@,
                        ),
                        Platform::iOS => match r {
                            Some(out) => p.len() >= 2 && out@ == spec_ios_attachment(p, db_path@),
                            Option::None => p.len() < 2,
                        },
                    }
                },
                _ => false,
            },
    {
        if let Some(f) = &self.filename {
            let cs = chars_of(f.as_str());
            proof {
                reveal_strlit("~/Library/Messages/Attachments");
            }
            let rewritten: Vec<char> = match custom_attachment_root {
                Some(root) => crate::text::replace_all_chars(
                    cs.as_slice(),
                    "~/Library/Messages/Attachments",
                    root,
                ),
                Option::None => cs,
            };
            match platform {
                Platform::macOS => Some(gen_macos_attachment(rewritten.as_slice(), home)),
                Platform::iOS => gen_ios_attachment(rewritten.as_slice(), db_path),
            }
        } else {
            Option::None
        }
    }
}

/// The stored path after a configured attachment root replaces the default
/// root prefix.
pub open spec fn spec_apply_custom_root(f: Seq<char>, root: Option<Seq<char>>) -> Seq<char> {
    match root {
        Some(r) => spec_replace_all(f, "~/Library/Messages/Attachments"@, r),
        None => f,
    }
}

/// A macOS attachment path: the home directory replaces one leading `~`.
pub open spec fn spec_macos_attachment(p: Seq<char>, home: Seq<char>) -> Seq<char> {
    if p.len() > 0 && p[0] == '~' {
        home + p.skip(1)
    } else {
        p
    }
}

/// An iOS attachment path: `<root>/<digest[0..2]>/<digest>`, with the digest
/// the SHA-1 of `MediaDomain-` and the stored path without its first two
/// characters.
pub open spec fn spec_ios_attachment(p: Seq<char>, db_path: Seq<char>) -> Seq<char> {
    let digest = sha1_hex_of(vstd::utf8::encode_utf8("MediaDomain-"@ + p.skip(2)));
    db_path + seq!['/'] + digest.take(2) + seq!['/'] + digest
}

/// Substitute the home directory for a leading `~`.
fn gen_macos_attachment(path: &[char], home: &str) -> (r: String)
    ensures
        r@ == spec_macos_attachment(path@, home@),
{
    if path.len() > 0 && path[0] == '~' {
        let mut out: Vec<char> = Vec::new();
        push_str_chars(&mut out, home);
        let (_, rest) = path.split_at(1);
        assert(rest@ =~= path@.skip(1));
        push_chars(&mut out, rest);
        string_from_chars(out.as_slice())
    } else {
        string_from_chars(path)
    }
}

/// Derive the backup path of an attachment from the SHA-1 of its domain and
/// relative path.
fn gen_ios_attachment(file_path: &[char], db_path: &str) -> (r: Option<String>)
    ensures
        match r {
            Some(out) => file_path@.len() >= 2 && out@ == spec_ios_attachment(
                file_path@,
                db_path@,
            ),
            None => file_path@.len() < 2,
        },
{
    if file_path.len() < 2 {
        return Option::None;
    }
    let (_, input) = file_path.split_at(2);
    assert(input@ =~= file_path@.skip(2));
    let mut full: Vec<char> = Vec::new();
    push_str_chars(&mut full, "MediaDomain-");
    push_chars(&mut full, input);
    let full_str = string_from_chars(full.as_slice());
    let digest = sha1_hex(full_str.as_str().as_bytes());
    proof {
        assert(full_str@ =~= "MediaDomain-"@ + file_path@.skip(2));
    }
    let directory = digest.as_str().substring_char(0, 2);
    let mut out: Vec<char> = Vec::new();
    push_str_chars(&mut out, db_path);
    out.push('/');
    push_str_chars(&mut out, directory);
    out.push('/');
    push_str_chars(&mut out, digest.as_str());
    assert(out@ =~= spec_ios_attachment(file_path@, db_path@));
    Some(string_from_chars(out.as_slice()))
}

/// The extension of a path: what follows the final `.` of the segment after
/// the final `/`, unless that segment has no `.` past its first character.
pub open spec fn spec_extension_of(f: Seq<char>) -> Option<Seq<char>> {
    let name = spec_last_segment(f);
    let d = spec_last_dot(name);
    if d <= 0 {
        None
    } else {
        Some(name.skip(d + 1))
    }
}

/// The part of a path after its final `/`.
pub open spec fn spec_last_segment(f: Seq<char>) -> Seq<char> {
    let parts = spec_split(f, '/');
    parts[parts.len() - 1]
}

/// The index of the final `.`, or `-1` when there is none.
pub open spec fn spec_last_dot(name: Seq<char>) -> int
    decreases name.len(),
{
    if name.len() == 0 {
        -1
    } else if name.last() == '.' {
        name.len() - 1
    } else {
        spec_last_dot(name.drop_last())
    }
}

/// A position after the final separator names the final split segment.
proof fn lemma_last_segment_at(f: Seq<char>, k: int, sep: char)
    requires
        0 <= k <= f.len(),
        forall|j: int| k <= j < f.len() ==> f[j] != sep,
        k > 0 ==> (k - 1 < f.len() && f[k - 1] == sep),
    ensures
        spec_split(f, sep).len() >= 1,
        spec_split(f, sep)[spec_split(f, sep).len() - 1] == f.skip(k),
    decreases f.len(),
{
    crate::text::lemma_find_char(f, sep);
    let i = spec_find_char(f, sep);
    let parts = spec_split(f, sep);
    if i == f.len() {
        assert(k == 0);
        assert(parts =~= seq![f]);
        assert(f.skip(0) =~= f);
    } else {
        assert(f[i] == sep);
        assert(i < k);
        let tail = f.skip(i + 1);
        let tparts = spec_split(tail, sep);
        assert(parts =~= seq![f.take(i)] + tparts);
        assert forall|j: int| k - i - 1 <= j < tail.len() implies tail[j] != sep by {
            assert(tail[j] == f[j + i + 1]);
        }
        if k - (i + 1) > 0 {
            assert(tail[k - i - 2] == f[k - 1]);
        }
        lemma_last_segment_at(tail, k - (i + 1), sep);
        assert(tail.skip(k - (i + 1)) =~= f.skip(k));
        assert(parts[parts.len() - 1] == tparts[tparts.len() - 1]);
    }
}

/// Find the extension of one path.
fn extension_of(name: &str) -> (r: Option<&str>)
    ensures
        match r {
            Some(e) => spec_extension_of(name@) == Some(e@),
            None => spec_extension_of(name@) is None,
        },
{
    let cs = chars_of(name);
    let n = cs.len();
    // Find the start of the last segment.
    let mut seg_start: usize = 0;
    let mut k: usize = 0;
    while k < n
        invariant
            n == cs@.len(),
            cs@ == name@,
            k <= n,
            seg_start <= k,
            forall|j: int| seg_start <= j < k ==> cs@[j] != '/',
            seg_start > 0 ==> (seg_start - 1 < n && cs@[seg_start - 1] == '/'),
        decreases n - k,
    {
        if cs[k] == '/' {
            seg_start = k + 1;
        }
        k = k + 1;
    }
    proof {
        lemma_last_segment_at(name@, seg_start as int, '/');
    }
    let ghost segment = name@.skip(seg_start as int);
    // Find the last dot inside the segment.
    let mut dot: usize = 0;
    let mut found = false;
    let mut k2: usize = seg_start;
    while k2 < n
        invariant
            n == cs@.len(),
            cs@ == name@,
            seg_start <= n,
            seg_start <= k2 <= n,
            segment == name@.skip(seg_start as int),
            found ==> (seg_start <= dot && dot < k2 && cs@[dot as int] == '.' && forall|j: int|
                dot < j < k2 ==> cs@[j] != '.'),
            !found ==> forall|j: int| seg_start <= j < k2 ==> cs@[j] != '.',
        decreases n - k2,
    {
        if cs[k2] == '.' {
            dot = k2;
            found = true;
        }
        k2 = k2 + 1;
    }
    proof {
        if found {
            lemma_last_dot_at(segment, dot - seg_start);
            assert forall|j: int| dot - seg_start < j < segment.len() implies segment[j] != '.' by {
                assert(segment[j] == name@[j + seg_start]);
            }
            assert(segment[dot - seg_start] == name@[dot as int]);
        } else {
            assert forall|j: int| 0 <= j < segment.len() implies segment[j] != '.' by {
                assert(segment[j] == name@[j + seg_start]);
            }
            lemma_no_dot(segment);
        }
    }
    if !found || dot == seg_start {
        return Option::None;
    }
    let e = name.substring_char(dot + 1, n);
    assert(e@ =~= segment.skip(dot - seg_start + 1));
    Some(e)
}

/// Where a scan finds the last dot, the recursive search agrees.
proof fn lemma_last_dot_at(name: Seq<char>, d: int)
    requires
        0 <= d < name.len(),
        name[d] == '.',
        forall|j: int| d < j < name.len() ==> name[j] != '.',
    ensures
        spec_last_dot(name) == d,
    decreases name.len(),
{
    if d < name.len() - 1 {
        assert forall|j: int| d < j < name.drop_last().len() implies name.drop_last()[j] != '.' by {
            assert(name.drop_last()[j] == name[j]);
        }
        lemma_last_dot_at(name.drop_last(), d);
    }
}

/// Without a dot the recursive search reports none.
proof fn lemma_no_dot(name: Seq<char>)
    requires
        forall|j: int| 0 <= j < name.len() ==> name[j] != '.',
    ensures
        spec_last_dot(name) == -1,
    decreases name.len(),
{
    if name.len() > 0 {
        lemma_no_dot(name.drop_last());
    }
}

} // verus!
