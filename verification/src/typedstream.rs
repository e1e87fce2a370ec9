//! Decoder for Apple's legacy `typedstream` archive format, which stores a
//! message's rich-text body in the `attributedBody` column.
//!
//! The stream interleaves a class table and an object table, both indexed by
//! small integers and populated in first-seen order; back-references select
//! an existing slot. The decoder yields the archived objects in stream order:
//! the first `NSString`/`NSMutableString` carries the body text, and the
//! alternating `Data`/`NSDictionary` entries that follow carry per-range
//! attribute runs.
use vstd::prelude::*;

use crate::text::chars_eq_str;

verus! {

/// A class stored in the `typedstream`.
#[derive(Debug, Clone, PartialEq, Eq)]
pub struct Class {
    /// The name of the class.
    pub name: String,
    /// The encoded version of the class.
    pub version: u64,
}

impl Class {
    pub fn new(name: String, version: u64) -> (r: Self)
        ensures
            r.name == name,
            r.version == version,
    {
        Self { name, version }
    }
}

/// A primitive value stored in the `typedstream`.
///
/// Floating-point values are kept as the raw IEEE-754 bit patterns read from
/// the wire: the decoder never does arithmetic on them.
#[derive(Debug, Clone, PartialEq, Eq)]
pub enum OutputData {
    /// Text data.
    String(String),
    /// A value of the signed integer family.
    SignedInteger(i64),
    /// A value of the unsigned integer family.
    UnsignedInteger(u64),
    /// The bit pattern of a single-precision float.
    Float(u32),
    /// The bit pattern of a double-precision float.
    Double(u64),
    /// A byte whose type tag the decoder did not recognise.
    Byte(u8),
    /// An arbitrary run of bytes declared as an array.
    Array(Vec<u8>),
    /// A class found in the stream.
    Class(Class),
}

/// One archived item decoded from the `typedstream`.
#[derive(Debug, Clone, PartialEq, Eq)]
pub enum Archivable {
    /// An instance of a class with its embedded values, in order of
    /// appearance; the format stores no property names.
    Object(Class, Vec<OutputData>),
    /// Values attached to the surrounding object but not part of a class.
    Data(Vec<OutputData>),
    /// A class referenced as part of an inheritance chain.
    Class(Class),
    /// A reserved slot in the object table, used while a class hierarchy is
    /// being read; it is replaced before the decoder returns.
    Placeholder,
    /// A run of type tags that was not consumed into an object.
    Type(Vec<Type>),
}

/// Whether this item is an `NSString` or `NSMutableString` object whose
/// first value is its text.
pub open spec fn spec_as_nsstring(a: &Archivable) -> Option<Seq<char>> {
    match a {
        Archivable::Object(c, vals) => {
            if (c.name@ == "NSString"@ || c.name@ == "NSMutableString"@) && vals@.len() > 0 && (
            vals@[0] is String) {
                Some(vals@[0]->String_0@)
            } else {
                None
            }
        },
        _ => None,
    }
}

/// Whether this item is an `NSNumber` object whose first value is a signed
/// integer.
pub open spec fn spec_as_nsnumber_int(a: &Archivable) -> Option<i64> {
    match a {
        Archivable::Object(c, vals) => {
            if c.name@ == "NSNumber"@ && vals@.len() > 0 && (vals@[0] is SignedInteger) {
                Some(vals@[0]->SignedInteger_0)
            } else {
                None
            }
        },
        _ => None,
    }
}

impl Archivable {
    /// The text of an `NSString`/`NSMutableString` instance.
    pub fn as_nsstring(&self) -> (r: Option<&str>)
        ensures
            match r {
                Some(s) => spec_as_nsstring(self) == Some(s@),
                None => spec_as_nsstring(self) is None,
            },
    {
        if let Archivable::Object(c, vals) = self {
            let name_chars = crate::text::chars_of(c.name.as_str());
            if chars_eq_str(name_chars.as_slice(), "NSString") || chars_eq_str(
                name_chars.as_slice(),
                "NSMutableString",
            ) {
                if vals.len() > 0 {
                    if let OutputData::String(text) = &vals[0] {
                        return Some(text.as_str());
                    }
                }
            }
        }
        None
    }

    /// The value of an `NSNumber` instance holding a signed integer.
    pub fn as_nsnumber_int(&self) -> (r: Option<&i64>)
        ensures
            match r {
                Some(v) => spec_as_nsnumber_int(self) == Some(*v),
                None => spec_as_nsnumber_int(self) is None,
            },
    {
        if let Archivable::Object(c, vals) = self {
            let name_chars = crate::text::chars_of(c.name.as_str());
            if chars_eq_str(name_chars.as_slice(), "NSNumber") {
                if vals.len() > 0 {
                    if let OutputData::SignedInteger(num) = &vals[0] {
                        return Some(num);
                    }
                }
            }
        }
        None
    }
}

/// A primitive type tag of the `typedstream` wire format.
#[derive(Debug, Clone, PartialEq, Eq)]
pub enum Type {
    /// Length-prefixed UTF-8 text, tag `+`.
    Utf8String,
    /// Bytes that can be parsed again as data, tag `*`.
    EmbeddedData,
    /// An instance of a class, tag `@`.
    Object,
    /// The signed integer family, tags `c i l q s`.
    SignedInt,
    /// The unsigned integer family, tags `C I L Q S`.
    UnsignedInt,
    /// A single-precision float, tag `f`.
    Float,
    /// A double-precision float, tag `d`.
    Double,
    /// Text the decoder can reuse later, such as a class name.
    String(String),
    /// An array of the given length, written as digits between `[` and `]`.
    Array(usize),
    /// A tag the decoder does not recognise.
    Unknown(u8),
}

/// The type tag selected by one byte of the stream.
pub open spec fn spec_type_from_byte(byte: u8) -> Type {
    if byte == 0x40 {
        Type::Object
    } else if byte == 0x2B {
        Type::Utf8String
    } else if byte == 0x2A {
        Type::EmbeddedData
    } else if byte == 0x66 {
        Type::Float
    } else if byte == 0x64 {
        Type::Double
    } else if byte == 0x63 || byte == 0x69 || byte == 0x6c || byte == 0x71 || byte == 0x73 {
        Type::SignedInt
    } else if byte == 0x43 || byte == 0x49 || byte == 0x4c || byte == 0x51 || byte == 0x53 {
        Type::UnsignedInt
    } else {
        Type::Unknown(byte)
    }
}

impl Type {
    pub fn from_byte(byte: &u8) -> (r: Self)
        ensures
            r == spec_type_from_byte(*byte),
    {
        match *byte {
            0x40 => Self::Object,
            0x2B => Self::Utf8String,
            0x2A => Self::EmbeddedData,
            0x66 => Self::Float,
            0x64 => Self::Double,
            0x63 | 0x69 | 0x6c | 0x71 | 0x73 => Self::SignedInt,
            0x43 | 0x49 | 0x4c | 0x51 | 0x53 => Self::UnsignedInt,
            other => Self::Unknown(other),
        }
    }

    pub fn new_string(string: String) -> (r: Self)
        ensures
            r == Type::String(string),
    {
        Self::String(string)
    }
}

/// Is this byte an ASCII decimal digit?
pub open spec fn spec_is_ascii_digit_byte(b: u8) -> bool {
    0x30 <= b <= 0x39
}

/// The number of leading ASCII digits of `s`.
pub open spec fn spec_digit_run(s: Seq<u8>) -> int
    decreases s.len(),
{
    if s.len() == 0 {
        0
    } else if spec_is_ascii_digit_byte(s[0]) {
        1 + spec_digit_run(s.drop_first())
    } else {
        0
    }
}

/// The value of a run of ASCII digit bytes, most significant first.
pub open spec fn spec_digit_bytes_value(s: Seq<u8>) -> int
    decreases s.len(),
{
    if s.len() == 0 {
        0
    } else {
        spec_digit_bytes_value(s.drop_last()) * 10 + (s.last() - 0x30)
    }
}

impl Type {
    /// If `types` declares an array, `[` followed by a decimal length, read
    /// that length. The length must be given by at least one digit and fit
    /// the 32-bit range the wire format allows.
    pub fn get_array_length(types: &[u8]) -> (r: Option<Vec<Type>>)
        ensures
            match r {
                Some(v) => {
                    &&& types@.len() > 0 && types@[0] == 0x5b
                    &&& spec_digit_run(types@.drop_first()) > 0
                    &&& spec_digit_bytes_value(
                        types@.drop_first().take(spec_digit_run(types@.drop_first())),
                    ) <= u32::MAX
                    &&& v@ =~= seq![
                        Type::Array(
                            spec_digit_bytes_value(
                                types@.drop_first().take(spec_digit_run(types@.drop_first())),
                            ) as usize,
                        ),
                    ]
                },
                None => types@.len() == 0 || types@[0] != 0x5b || spec_digit_run(
                    types@.drop_first(),
                ) == 0 || spec_digit_bytes_value(
                    types@.drop_first().take(spec_digit_run(types@.drop_first())),
                ) > u32::MAX,
            },
    {
        if types.len() == 0 || types[0] != 0x5b {
            return None;
        }
        let ghost tail = types@.drop_first();
        proof {
            lemma_digit_run_bounds(tail);
        }
        let mut acc: u64 = 0;
        let mut i: usize = 1;
        proof {
            assert(tail.take(0) =~= Seq::<u8>::empty());
        }
        while i < types.len() && types[i] >= 0x30 && types[i] <= 0x39
            invariant
                types@.len() == types.len(),
                types@.len() > 0,
                tail == types@.drop_first(),
                1 <= i <= types@.len(),
                forall|j: int| 0 <= j < i - 1 ==> spec_is_ascii_digit_byte(#[trigger] tail[j]),
                spec_digit_run(tail) >= i - 1,
                acc == spec_digit_bytes_value(tail.take(i - 1)),
                acc <= u32::MAX,
            decreases types@.len() - i,
        {
            let b = types[i];
            let d: u64 = (b - 0x30) as u64;
            proof {
                assert(tail[i - 1] == types@[i as int]);
                lemma_digit_run_step(tail, i - 1);
                assert(tail.take(i as int).drop_last() =~= tail.take(i - 1));
                assert(tail.take(i as int).last() == tail[i - 1]);
            }
            let next = acc * 10 + d;
            if next > 0xFFFF_FFFFu64 {
                proof {
                    let run = spec_digit_run(tail);
                    lemma_digit_run_bounds(tail);
                    lemma_digit_run_digits(tail);
                    assert(tail.take(run).take(i as int) =~= tail.take(i as int));
                    lemma_digit_bytes_value_monotone(tail.take(run), i as int);
                }
                return None;
            }
            acc = next;
            i = i + 1;
        }
        proof {
            if i < types@.len() {
                assert(tail[i - 1] == types@[i as int]);
            }
            lemma_digit_run_end(tail, i - 1);
        }
        if i == 1 {
            // No digits followed the opening bracket.
            return None;
        }
        let mut out: Vec<Type> = Vec::new();
        out.push(Type::Array(acc as usize));
        Some(out)
    }
}

/// A digit run is within bounds.
proof fn lemma_digit_run_bounds(s: Seq<u8>)
    ensures
        0 <= spec_digit_run(s) <= s.len(),
    decreases s.len(),
{
    if s.len() > 0 && spec_is_ascii_digit_byte(s[0]) {
        lemma_digit_run_bounds(s.drop_first());
    }
}

/// Every byte inside the digit run is a digit.
proof fn lemma_digit_run_digits(s: Seq<u8>)
    ensures
        forall|j: int| 0 <= j < spec_digit_run(s) ==> spec_is_ascii_digit_byte(#[trigger] s[j]),
    decreases s.len(),
{
    lemma_digit_run_bounds(s);
    if s.len() > 0 && spec_is_ascii_digit_byte(s[0]) {
        lemma_digit_run_digits(s.drop_first());
        assert forall|j: int| 0 <= j < spec_digit_run(s) implies spec_is_ascii_digit_byte(
            #[trigger] s[j],
        ) by {
            if j > 0 {
                assert(s.drop_first()[j - 1] == s[j]);
            }
        }
    }
}

/// If the first `k + 1` bytes are digits, the digit run extends past them.
proof fn lemma_digit_run_step(s: Seq<u8>, k: int)
    requires
        0 <= k < s.len(),
        forall|j: int| 0 <= j <= k ==> spec_is_ascii_digit_byte(#[trigger] s[j]),
    ensures
        spec_digit_run(s) >= k + 1,
    decreases k,
{
    lemma_digit_run_bounds(s.drop_first());
    if k == 0 {
    } else {
        assert forall|j: int| 0 <= j <= k - 1 implies spec_is_ascii_digit_byte(
            #[trigger] s.drop_first()[j],
        ) by {
            assert(s.drop_first()[j] == s[j + 1]);
        }
        lemma_digit_run_step(s.drop_first(), k - 1);
    }
}

/// A digit run stops at the first non-digit byte.
proof fn lemma_digit_run_end(s: Seq<u8>, k: int)
    requires
        0 <= k <= s.len(),
        forall|j: int| 0 <= j < k ==> spec_is_ascii_digit_byte(#[trigger] s[j]),
        k < s.len() ==> !spec_is_ascii_digit_byte(s[k]),
    ensures
        spec_digit_run(s) == k,
    decreases k,
{
    if k > 0 {
        assert forall|j: int| 0 <= j < k - 1 implies spec_is_ascii_digit_byte(
            #[trigger] s.drop_first()[j],
        ) by {
            assert(s.drop_first()[j] == s[j + 1]);
        }
        if k - 1 < s.drop_first().len() {
            assert(s.drop_first()[k - 1] == s[k]);
        }
        lemma_digit_run_end(s.drop_first(), k - 1);
    }
}

/// Digit-run values only grow as more digits are added.
proof fn lemma_digit_bytes_value_monotone(s: Seq<u8>, i: int)
    requires
        0 <= i <= s.len(),
        forall|j: int| 0 <= j < s.len() ==> spec_is_ascii_digit_byte(#[trigger] s[j]),
    ensures
        spec_digit_bytes_value(s.take(i)) <= spec_digit_bytes_value(s),
        spec_digit_bytes_value(s) >= 0,
    decreases s.len() - i,
{
    if i < s.len() {
        lemma_digit_bytes_value_monotone(s, i + 1);
        assert(s.take(i + 1).drop_last() =~= s.take(i));
        lemma_digit_bytes_value_nonneg(s.take(i));
    } else {
        assert(s.take(i) =~= s);
        lemma_digit_bytes_value_nonneg(s);
    }
}

/// The value of a digit run is never negative.
proof fn lemma_digit_bytes_value_nonneg(s: Seq<u8>)
    requires
        forall|j: int| 0 <= j < s.len() ==> spec_is_ascii_digit_byte(#[trigger] s[j]),
    ensures
        spec_digit_bytes_value(s) >= 0,
    decreases s.len(),
{
    if s.len() > 0 {
        lemma_digit_bytes_value_nonneg(s.drop_last());
    }
}


/// The failures of `typedstream` decoding.
#[derive(Debug, PartialEq, Eq)]
pub enum TypedStreamError {
    /// The header is not a `streamtyped` archive of the supported version.
    InvalidHeader,
    /// A byte stands where no known tag is accepted.
    UnknownTag(u8),
    /// A back-reference points outside the table, or at a slot that is
    /// still being decoded.
    BadReference(u64),
    /// The stream ends inside a value.
    Truncated,
    /// A string's bytes are not valid UTF-8.
    InvalidUtf8,
}

/// Marks an `i16` or `u16` in the byte stream.
pub const WIDTH_2_TAG: u8 = 0x81;

/// Marks an `i32` or `u32` in the byte stream.
pub const WIDTH_4_TAG: u8 = 0x82;

/// Marks an `i64` or `u64` in the byte stream.
pub const WIDTH_8_TAG: u8 = 0x83;

/// Marks the start of an inline definition.
pub const START_TAG: u8 = 0x84;

/// Marks a nil value or the end of a class chain.
pub const EMPTY_TAG: u8 = 0x85;

/// Marks the end of an object's data.
pub const END_TAG: u8 = 0x86;

/// Values at or above this tag reference an existing table slot.
pub const REFERENCE_TAG: u64 = 0x92;


/// A class at the specification level: the name as its characters.
pub struct ArchivedClass {
    pub name: Seq<char>,
    pub version: u64,
}

/// A primitive value at the specification level.
pub enum ArchivedValue {
    String(Seq<char>),
    SignedInteger(i64),
    UnsignedInteger(u64),
    Float(u32),
    Double(u64),
    Byte(u8),
    Array(Seq<u8>),
    Class(ArchivedClass),
}

/// A type tag at the specification level.
pub enum TypeTag {
    Utf8String,
    EmbeddedData,
    Object,
    SignedInt,
    UnsignedInt,
    Float,
    Double,
    String(Seq<char>),
    Array(int),
    Unknown(u8),
}

/// An archived item at the specification level.
pub enum ArchivedItem {
    Object(ArchivedClass, Seq<ArchivedValue>),
    Data(Seq<ArchivedValue>),
    Class(ArchivedClass),
    Placeholder,
    Type(Seq<TypeTag>),
}

/// The decoder state at the specification level: the read position and the
/// two reference tables.
pub struct DecodeState {
    pub idx: int,
    pub types: Seq<Seq<TypeTag>>,
    pub objects: Seq<ArchivedItem>,
}

/// The specification view of a class.
pub open spec fn class_model(c: Class) -> ArchivedClass {
    ArchivedClass { name: c.name@, version: c.version }
}

/// The specification view of a type tag.
pub open spec fn tag_model(t: Type) -> TypeTag {
    match t {
        Type::Utf8String => TypeTag::Utf8String,
        Type::EmbeddedData => TypeTag::EmbeddedData,
        Type::Object => TypeTag::Object,
        Type::SignedInt => TypeTag::SignedInt,
        Type::UnsignedInt => TypeTag::UnsignedInt,
        Type::Float => TypeTag::Float,
        Type::Double => TypeTag::Double,
        Type::String(text) => TypeTag::String(text@),
        Type::Array(n) => TypeTag::Array(n as int),
        Type::Unknown(b) => TypeTag::Unknown(b),
    }
}

/// The specification view of a type run.
pub open spec fn tags_model(ts: Seq<Type>) -> Seq<TypeTag> {
    ts.map(|_i: int, t: Type| tag_model(t))
}

/// The specification view of a value.
pub open spec fn value_model(v: OutputData) -> ArchivedValue {
    match v {
        OutputData::String(text) => ArchivedValue::String(text@),
        OutputData::SignedInteger(x) => ArchivedValue::SignedInteger(x),
        OutputData::UnsignedInteger(x) => ArchivedValue::UnsignedInteger(x),
        OutputData::Float(x) => ArchivedValue::Float(x),
        OutputData::Double(x) => ArchivedValue::Double(x),
        OutputData::Byte(x) => ArchivedValue::Byte(x),
        OutputData::Array(bs) => ArchivedValue::Array(bs@),
        OutputData::Class(c) => ArchivedValue::Class(class_model(c)),
    }
}

/// The specification view of a value run.
pub open spec fn values_model(vs: Seq<OutputData>) -> Seq<ArchivedValue> {
    vs.map(|_i: int, v: OutputData| value_model(v))
}

/// The specification view of one archived item.
pub open spec fn item_model(a: Archivable) -> ArchivedItem {
    match a {
        Archivable::Object(c, vals) => ArchivedItem::Object(class_model(c), values_model(vals@)),
        Archivable::Data(vals) => ArchivedItem::Data(values_model(vals@)),
        Archivable::Class(c) => ArchivedItem::Class(class_model(c)),
        Archivable::Placeholder => ArchivedItem::Placeholder,
        Archivable::Type(ts) => ArchivedItem::Type(tags_model(ts@)),
    }
}

/// The specification view of a list of items.
pub open spec fn items_model(items: Seq<Archivable>) -> Seq<ArchivedItem> {
    items.map(|_i: int, a: Archivable| item_model(a))
}

/// The specification view of an optional class.
pub open spec fn opt_class_model(c: Option<Class>) -> Option<ArchivedClass> {
    match c {
        Some(cl) => Some(class_model(cl)),
        None => None,
    }
}

/// The specification view of an optional item.
pub open spec fn opt_item_model(a: Option<Archivable>) -> Option<ArchivedItem> {
    match a {
        Some(item) => Some(item_model(item)),
        None => None,
    }
}

/// The specification view of a reader's state.
pub open spec fn state_model(r: TypedStreamReader) -> DecodeState {
    DecodeState {
        idx: r.idx as int,
        types: Seq::new(r.types_table@.len(), |k: int| tags_model(r.types_table@[k]@)),
        objects: items_model(r.object_table@),
    }
}

/// One byte read at the specification level.
pub open spec fn s_u8(s: Seq<u8>, i: int) -> Result<(u8, int), TypedStreamError> {
    if 0 <= i < s.len() {
        Ok((s[i], i + 1))
    } else {
        Err(TypedStreamError::Truncated)
    }
}

/// An exact byte run at the specification level.
pub open spec fn s_exact(s: Seq<u8>, i: int, n: int) -> Result<(Seq<u8>, int), TypedStreamError> {
    if 0 <= i && 0 <= n && i + n <= s.len() {
        Ok((s.subrange(i, i + n), i + n))
    } else {
        Err(TypedStreamError::Truncated)
    }
}

/// A two-byte little-endian value.
pub open spec fn le2(b: Seq<u8>) -> int {
    b[0] + 0x100 * b[1]
}

/// A four-byte little-endian value.
pub open spec fn le4(b: Seq<u8>) -> int {
    b[0] + 0x100 * b[1] + 0x10000 * b[2] + 0x1000000 * b[3]
}

/// An eight-byte little-endian value.
pub open spec fn le8(b: Seq<u8>) -> int {
    b[0] + 0x100 * b[1] + 0x10000 * b[2] + 0x1000000 * b[3] + 0x100000000 * b[4]
        + 0x10000000000 * b[5] + 0x1000000000000 * b[6] + 0x100000000000000 * b[7]
}

/// An unsigned integer read: the width tags select a little-endian run,
/// any other byte is itself the value.
pub open spec fn s_uint(s: Seq<u8>, i: int) -> Result<(u64, int), TypedStreamError> {
    match s_u8(s, i) {
        Err(e) => Err(e),
        Ok((b, j)) => {
            if b == WIDTH_2_TAG {
                match s_exact(s, j, 2) {
                    Err(e) => Err(e),
                    Ok((bytes, k)) => Ok((le2(bytes) as u64, k)),
                }
            } else if b == WIDTH_4_TAG {
                match s_exact(s, j, 4) {
                    Err(e) => Err(e),
                    Ok((bytes, k)) => Ok((le4(bytes) as u64, k)),
                }
            } else if b == WIDTH_8_TAG {
                match s_exact(s, j, 8) {
                    Err(e) => Err(e),
                    Ok((bytes, k)) => Ok((le8(bytes) as u64, k)),
                }
            } else {
                Ok((b as u64, j))
            }
        },
    }
}

/// A signed integer read: as the unsigned read, with the two's-complement
/// interpretation of each width.
pub open spec fn s_sint(s: Seq<u8>, i: int) -> Result<(i64, int), TypedStreamError> {
    match s_u8(s, i) {
        Err(e) => Err(e),
        Ok((b, j)) => {
            if b == WIDTH_2_TAG {
                match s_exact(s, j, 2) {
                    Err(e) => Err(e),
                    Ok((bytes, k)) => {
                        let v = le2(bytes);
                        Ok(
                            (
                                if v >= 0x8000 {
                                    (v - 0x10000) as i64
                                } else {
                                    v as i64
                                },
                                k,
                            ),
                        )
                    },
                }
            } else if b == WIDTH_4_TAG {
                match s_exact(s, j, 4) {
                    Err(e) => Err(e),
                    Ok((bytes, k)) => {
                        let v = le4(bytes);
                        Ok(
                            (
                                if v >= 0x80000000 {
                                    (v - 0x100000000) as i64
                                } else {
                                    v as i64
                                },
                                k,
                            ),
                        )
                    },
                }
            } else if b == WIDTH_8_TAG {
                match s_exact(s, j, 8) {
                    Err(e) => Err(e),
                    Ok((bytes, k)) => {
                        let v = le8(bytes);
                        Ok(
                            (
                                if v >= 0x8000000000000000 {
                                    (v - 0x10000000000000000) as i64
                                } else {
                                    v as i64
                                },
                                k,
                            ),
                        )
                    },
                }
            } else {
                Ok(
                    (
                        if b >= 0x80 {
                            (b - 0x100) as i64
                        } else {
                            b as i64
                        },
                        j,
                    ),
                )
            }
        },
    }
}

/// A length-prefixed UTF-8 string read.
pub open spec fn s_string(s: Seq<u8>, i: int) -> Result<(Seq<char>, int), TypedStreamError> {
    match s_uint(s, i) {
        Err(e) => Err(e),
        Ok((len, j)) => {
            if len > usize::MAX {
                Err(TypedStreamError::Truncated)
            } else {
                match s_exact(s, j, len as int) {
                    Err(e) => Err(e),
                    Ok((bytes, k)) => {
                        if vstd::utf8::valid_utf8(bytes) {
                            Ok((vstd::utf8::decode_utf8(bytes), k))
                        } else {
                            Err(TypedStreamError::InvalidUtf8)
                        }
                    },
                }
            }
        },
    }
}

/// A four-byte float bit pattern read.
pub open spec fn s_float(s: Seq<u8>, i: int) -> Result<(u32, int), TypedStreamError> {
    match s_exact(s, i, 4) {
        Err(e) => Err(e),
        Ok((bytes, k)) => Ok((le4(bytes) as u32, k)),
    }
}

/// An eight-byte double bit pattern read.
pub open spec fn s_double(s: Seq<u8>, i: int) -> Result<(u64, int), TypedStreamError> {
    match s_exact(s, i, 8) {
        Err(e) => Err(e),
        Ok((bytes, k)) => Ok((le8(bytes) as u64, k)),
    }
}

/// The type tag a byte selects, at the specification level.
pub open spec fn s_tag_of_byte(b: u8) -> TypeTag {
    tag_model(spec_type_from_byte(b))
}

/// A type string read: its length, its tag bytes, and either the bracketed
/// array form or the bytes mapped to tags.
pub open spec fn s_type_string(s: Seq<u8>, i: int) -> Result<
    (Seq<TypeTag>, int),
    TypedStreamError,
> {
    match s_uint(s, i) {
        Err(e) => Err(e),
        Ok((len, j)) => {
            if len > usize::MAX {
                Err(TypedStreamError::Truncated)
            } else {
                match s_exact(s, j, len as int) {
                    Err(e) => Err(e),
                    Ok((bytes, k)) => {
                        if bytes.len() > 0 && bytes[0] == 0x5b && spec_digit_run(bytes.drop_first())
                            > 0 && spec_digit_bytes_value(
                            bytes.drop_first().take(spec_digit_run(bytes.drop_first())),
                        ) <= u32::MAX {
                            Ok(
                                (
                                    seq![
                                        TypeTag::Array(
                                            spec_digit_bytes_value(
                                                bytes.drop_first().take(
                                                    spec_digit_run(bytes.drop_first()),
                                                ),
                                            ),
                                        ),
                                    ],
                                    k,
                                ),
                            )
                        } else {
                            Ok((Seq::new(bytes.len(), |t: int| s_tag_of_byte(bytes[t])), k))
                        }
                    },
                }
            }
        },
    }
}

/// A type-run read: an inline definition appended to the type table, or a
/// back-reference into it.
pub open spec fn s_types_tag(s: Seq<u8>, st: DecodeState) -> Result<
    (Seq<TypeTag>, DecodeState),
    TypedStreamError,
> {
    match s_u8(s, st.idx) {
        Err(e) => Err(e),
        Ok((b, _)) => {
            if b == START_TAG {
                match s_type_string(s, st.idx + 1) {
                    Err(e) => Err(e),
                    Ok((tags, j)) => Ok(
                        (tags, DecodeState { idx: j, types: st.types.push(tags), ..st }),
                    ),
                }
            } else {
                match s_uint(s, st.idx) {
                    Err(e) => Err(e),
                    Ok((v, j)) => {
                        if v < REFERENCE_TAG {
                            Err(TypedStreamError::UnknownTag(b))
                        } else {
                            let k = (v - REFERENCE_TAG) as u64;
                            if k >= st.types.len() {
                                Err(TypedStreamError::BadReference(k))
                            } else {
                                Ok((st.types[k as int], DecodeState { idx: j, ..st }))
                            }
                        }
                    },
                }
            }
        },
    }
}

/// A class-chain read: inline definitions are appended to the object
/// table; a back-reference must name a class; the chain's first class is
/// the object's own.
#[verifier::opaque]
pub open spec fn s_class_chain(s: Seq<u8>, st: DecodeState, leaf: Option<ArchivedClass>) -> Result<
    (Option<ArchivedClass>, DecodeState),
    TypedStreamError,
>
    decreases s.len() - st.idx,
    when 0 <= st.idx <= s.len()
{
    match s_u8(s, st.idx) {
        Err(e) => Err(e),
        Ok((b, j)) => {
            if b == EMPTY_TAG || b == END_TAG {
                Ok((leaf, DecodeState { idx: j, ..st }))
            } else if b == START_TAG {
                match s_string(s, j) {
                    Err(e) => Err(e),
                    Ok((name, j2)) => match s_uint(s, j2) {
                        Err(e) => Err(e),
                        Ok((version, j3)) => {
                            let class = ArchivedClass { name, version };
                            let st2 = DecodeState {
                                idx: j3,
                                objects: st.objects.push(ArchivedItem::Class(class)),
                                ..st
                            };
                            let leaf2 = if leaf is None {
                                Some(class)
                            } else {
                                leaf
                            };
                            if st.idx < st2.idx <= s.len() {
                                s_class_chain(s, st2, leaf2)
                            } else {
                                Err(TypedStreamError::Truncated)
                            }
                        },
                    },
                }
            } else {
                match s_uint(s, st.idx) {
                    Err(e) => Err(e),
                    Ok((v, j2)) => {
                        if v < REFERENCE_TAG {
                            Err(TypedStreamError::UnknownTag(b))
                        } else {
                            let k = (v - REFERENCE_TAG) as u64;
                            if k >= st.objects.len() {
                                Err(TypedStreamError::BadReference(k))
                            } else {
                                match st.objects[k as int] {
                                    ArchivedItem::Class(c) => Ok(
                                        (
                                            if leaf is None {
                                                Some(c)
                                            } else {
                                                leaf
                                            },
                                            DecodeState { idx: j2, ..st },
                                        ),
                                    ),
                                    _ => Err(TypedStreamError::BadReference(k)),
                                }
                            }
                        }
                    },
                }
            }
        },
    }
}

/// The primitive values a type run declares, at the specification level.
pub open spec fn s_values(s: Seq<u8>, i: int, tags: Seq<TypeTag>) -> Result<
    (Seq<ArchivedValue>, int),
    TypedStreamError,
>
    decreases tags.len(),
{
    if tags.len() == 0 {
        Ok((Seq::empty(), i))
    } else {
        let step: Result<(ArchivedValue, int), TypedStreamError> = match tags[0] {
            TypeTag::Utf8String => match s_string(s, i) {
                Err(e) => Err(e),
                Ok((text, j)) => Ok((ArchivedValue::String(text), j)),
            },
            TypeTag::EmbeddedData => match s_uint(s, i) {
                Err(e) => Err(e),
                Ok((len, j)) => {
                    if len > usize::MAX {
                        Err(TypedStreamError::Truncated)
                    } else {
                        match s_exact(s, j, len as int) {
                            Err(e) => Err(e),
                            Ok((bytes, k)) => Ok((ArchivedValue::Array(bytes), k)),
                        }
                    }
                },
            },
            TypeTag::SignedInt => match s_sint(s, i) {
                Err(e) => Err(e),
                Ok((v, j)) => Ok((ArchivedValue::SignedInteger(v), j)),
            },
            TypeTag::UnsignedInt => match s_uint(s, i) {
                Err(e) => Err(e),
                Ok((v, j)) => Ok((ArchivedValue::UnsignedInteger(v), j)),
            },
            TypeTag::Float => match s_float(s, i) {
                Err(e) => Err(e),
                Ok((v, j)) => Ok((ArchivedValue::Float(v), j)),
            },
            TypeTag::Double => match s_double(s, i) {
                Err(e) => Err(e),
                Ok((v, j)) => Ok((ArchivedValue::Double(v), j)),
            },
            TypeTag::String(text) => Ok((ArchivedValue::String(text), i)),
            TypeTag::Array(n) => match s_exact(s, i, n) {
                Err(e) => Err(e),
                Ok((bytes, k)) => Ok((ArchivedValue::Array(bytes), k)),
            },
            TypeTag::Unknown(b) => Ok((ArchivedValue::Byte(b), i)),
            TypeTag::Object => Err(TypedStreamError::UnknownTag(0x40)),
        };
        match step {
            Err(e) => Err(e),
            Ok((v, j)) => match s_values(s, j, tags.drop_first()) {
                Err(e) => Err(e),
                Ok((rest, k)) => Ok((seq![v] + rest, k)),
            },
        }
    }
}

/// An object read at the specification level: nil, a back-reference to a
/// finished object, or an inline definition whose reserved slot is filled
/// once its values are read.
#[verifier::opaque]
pub open spec fn s_object(s: Seq<u8>, st: DecodeState) -> Result<
    (Option<ArchivedItem>, DecodeState),
    TypedStreamError,
> {
    match s_u8(s, st.idx) {
        Err(e) => Err(e),
        Ok((b, j)) => {
            if b == EMPTY_TAG {
                Ok((None, DecodeState { idx: j, ..st }))
            } else if b == START_TAG {
                let spot = st.objects.len() as int;
                let st1 = DecodeState {
                    idx: j,
                    objects: st.objects.push(ArchivedItem::Placeholder),
                    ..st
                };
                match s_class_chain(s, st1, None) {
                    Err(e) => Err(e),
                    Ok((leaf, st2)) => match leaf {
                        None => Ok((None, st2)),
                        Some(class) => match s_u8(s, st2.idx) {
                            Err(e) => Err(e),
                            Ok((nxt, j2)) => {
                                let after: Result<
                                    (Seq<ArchivedValue>, DecodeState),
                                    TypedStreamError,
                                > = if nxt == EMPTY_TAG {
                                    Ok((Seq::empty(), DecodeState { idx: j2, ..st2 }))
                                } else {
                                    match s_types_tag(s, st2) {
                                        Err(e) => Err(e),
                                        Ok((tags, st3)) => match s_values(s, st3.idx, tags) {
                                            Err(e) => Err(e),
                                            Ok((vals, k)) => Ok(
                                                (vals, DecodeState { idx: k, ..st3 }),
                                            ),
                                        },
                                    }
                                };
                                match after {
                                    Err(e) => Err(e),
                                    Ok((vals, st4)) => {
                                        let item = ArchivedItem::Object(class, vals);
                                        let st5 = if 0 <= spot < st4.objects.len() {
                                            DecodeState {
                                                objects: st4.objects.update(spot, item),
                                                ..st4
                                            }
                                        } else {
                                            st4
                                        };
                                        Ok((Some(item), st5))
                                    },
                                }
                            },
                        },
                    },
                }
            } else {
                match s_uint(s, st.idx) {
                    Err(e) => Err(e),
                    Ok((v, j2)) => {
                        if v < REFERENCE_TAG {
                            Err(TypedStreamError::UnknownTag(b))
                        } else {
                            let k = (v - REFERENCE_TAG) as u64;
                            if k >= st.objects.len() {
                                Err(TypedStreamError::BadReference(k))
                            } else {
                                match st.objects[k as int] {
                                    ArchivedItem::Placeholder => Err(
                                        TypedStreamError::BadReference(k),
                                    ),
                                    other => Ok((Some(other), DecodeState { idx: j2, ..st })),
                                }
                            }
                        }
                    },
                }
            }
        },
    }
}

/// The runs of an archive after its header, at the specification level.
#[verifier::opaque]
pub open spec fn s_items(s: Seq<u8>, st: DecodeState) -> Result<
    (Seq<ArchivedItem>, DecodeState),
    TypedStreamError,
>
    decreases s.len() - st.idx,
    when 0 <= st.idx <= s.len()
{
    if st.idx >= s.len() {
        Ok((Seq::empty(), st))
    } else if s[st.idx] == END_TAG {
        s_items(s, DecodeState { idx: st.idx + 1, ..st })
    } else {
        match s_types_tag(s, st) {
            Err(e) => Err(e),
            Ok((tags, st2)) => {
                if tags =~= seq![TypeTag::Object] {
                    match s_object(s, st2) {
                        Err(e) => Err(e),
                        Ok((opt, st3)) => {
                            if st.idx < st3.idx <= s.len() {
                                match s_items(s, st3) {
                                    Err(e) => Err(e),
                                    Ok((rest, st4)) => Ok(
                                        (
                                            match opt {
                                                Some(item) => seq![item] + rest,
                                                None => rest,
                                            },
                                            st4,
                                        ),
                                    ),
                                }
                            } else {
                                Err(TypedStreamError::Truncated)
                            }
                        },
                    }
                } else {
                    match s_values(s, st2.idx, tags) {
                        Err(e) => Err(e),
                        Ok((vals, j)) => {
                            let item = if vals.len() > 0 {
                                ArchivedItem::Data(vals)
                            } else {
                                ArchivedItem::Type(tags)
                            };
                            let st3 = DecodeState { idx: j, ..st2 };
                            if st.idx < st3.idx <= s.len() {
                                match s_items(s, st3) {
                                    Err(e) => Err(e),
                                    Ok((rest, st4)) => Ok((seq![item] + rest, st4)),
                                }
                            } else {
                                Err(TypedStreamError::Truncated)
                            }
                        },
                    }
                }
            },
        }
    }
}

/// The header check at the specification level: any failure to read the
/// magic, and any mismatch, is an invalid header.
pub open spec fn s_header(s: Seq<u8>) -> Result<int, TypedStreamError> {
    match s_uint(s, 0) {
        Err(_) => Err(TypedStreamError::InvalidHeader),
        Ok((version, i)) => {
            if version != 4 {
                Err(TypedStreamError::InvalidHeader)
            } else {
                match s_string(s, i) {
                    Err(_) => Err(TypedStreamError::InvalidHeader),
                    Ok((signature, j)) => {
                        if signature != "streamtyped"@ {
                            Err(TypedStreamError::InvalidHeader)
                        } else {
                            match s_sint(s, j) {
                                Err(_) => Err(TypedStreamError::InvalidHeader),
                                Ok((system, k)) => {
                                    if system != 1000 {
                                        Err(TypedStreamError::InvalidHeader)
                                    } else {
                                        Ok(k)
                                    }
                                },
                            }
                        }
                    },
                }
            }
        },
    }
}

/// The whole decode at the specification level: the header, then the runs.
pub open spec fn spec_typedstream_decode(s: Seq<u8>) -> Result<
    Seq<ArchivedItem>,
    TypedStreamError,
> {
    match s_header(s) {
        Err(e) => Err(e),
        Ok(i) => {
            if 0 <= i <= s.len() {
                match s_items(s, DecodeState { idx: i, types: Seq::empty(), objects: Seq::empty() }) {
                    Err(e) => Err(e),
                    Ok((items, _)) => Ok(items),
                }
            } else {
                Err(TypedStreamError::Truncated)
            }
        },
    }
}

/// Stepping the run decode: when the runs from the old state are the added
/// items followed by the runs from the new state, the whole decode extends
/// accordingly.
proof fn lemma_decode_continue(
    s: Seq<u8>,
    st_old: DecodeState,
    st_new: DecodeState,
    done: Seq<ArchivedItem>,
    add: Seq<ArchivedItem>,
)
    requires
        match s_items(s, st_old) {
            Ok((rest, _)) => spec_typedstream_decode(s) == Ok::<
                Seq<ArchivedItem>,
                TypedStreamError,
            >(done + rest),
            Err(e) => spec_typedstream_decode(s) == Err::<Seq<ArchivedItem>, TypedStreamError>(e),
        },
        match s_items(s, st_new) {
            Ok((rest2, end2)) => s_items(s, st_old) == Ok::<
                (Seq<ArchivedItem>, DecodeState),
                TypedStreamError,
            >((add + rest2, end2)),
            Err(e2) => s_items(s, st_old) == Err::<(Seq<ArchivedItem>, DecodeState), TypedStreamError>(
                e2,
            ),
        },
    ensures
        match s_items(s, st_new) {
            Ok((rest2, _)) => spec_typedstream_decode(s) == Ok::<
                Seq<ArchivedItem>,
                TypedStreamError,
            >((done + add) + rest2),
            Err(e2) => spec_typedstream_decode(s) == Err::<Seq<ArchivedItem>, TypedStreamError>(
                e2,
            ),
        },
{
    if s_items(s, st_new) is Ok {
        let rest2 = s_items(s, st_new)->Ok_0.0;
        assert(done + (add + rest2) =~= (done + add) + rest2);
    }
}

/// One run-decode step that skips an end tag.
proof fn lemma_items_step_skip(s: Seq<u8>, st: DecodeState)
    requires
        0 <= st.idx < s.len(),
        s[st.idx] == END_TAG,
    ensures
        s_items(s, st) == s_items(s, DecodeState { idx: st.idx + 1, ..st }),
{
    reveal(s_items);
}

/// One run-decode step whose type run fails.
proof fn lemma_items_err_types(s: Seq<u8>, st: DecodeState, e: TypedStreamError)
    requires
        0 <= st.idx < s.len(),
        s[st.idx] != END_TAG,
        s_types_tag(s, st) == Err::<(Seq<TypeTag>, DecodeState), TypedStreamError>(e),
    ensures
        s_items(s, st) == Err::<(Seq<ArchivedItem>, DecodeState), TypedStreamError>(e),
{
    reveal(s_items);
}

/// One run-decode step that reads an object.
proof fn lemma_items_step_object(
    s: Seq<u8>,
    st: DecodeState,
    tags: Seq<TypeTag>,
    st2: DecodeState,
    outcome: Result<(Option<ArchivedItem>, DecodeState), TypedStreamError>,
)
    requires
        0 <= st.idx < s.len(),
        s[st.idx] != END_TAG,
        s_types_tag(s, st) == Ok::<(Seq<TypeTag>, DecodeState), TypedStreamError>((tags, st2)),
        tags =~= seq![TypeTag::Object],
        s_object(s, st2) == outcome,
    ensures
        match outcome {
            Ok((opt, st3)) => {
                if st.idx < st3.idx <= s.len() {
                    s_items(s, st) == (match s_items(s, st3) {
                        Ok((rest2, end2)) => Ok::<(Seq<ArchivedItem>, DecodeState), TypedStreamError>(
                            (
                                (match opt {
                                    Some(m) => seq![m],
                                    None => Seq::empty(),
                                }) + rest2,
                                end2,
                            ),
                        ),
                        Err(e2) => Err::<(Seq<ArchivedItem>, DecodeState), TypedStreamError>(e2),
                    })
                } else {
                    s_items(s, st) == Err::<(Seq<ArchivedItem>, DecodeState), TypedStreamError>(
                        TypedStreamError::Truncated,
                    )
                }
            },
            Err(e) => s_items(s, st) == Err::<(Seq<ArchivedItem>, DecodeState), TypedStreamError>(
                e,
            ),
        },
{
    reveal(s_items);
    if outcome is Ok {
        let opt = outcome->Ok_0.0;
        let st3 = outcome->Ok_0.1;
        if st.idx < st3.idx <= s.len() && s_items(s, st3) is Ok {
            let rest2 = s_items(s, st3)->Ok_0.0;
            if opt is Some {
                assert((match opt {
                    Some(m) => seq![m],
                    None => Seq::<ArchivedItem>::empty(),
                }) + rest2 =~= seq![opt->0] + rest2);
            } else {
                assert((match opt {
                    Some(m) => seq![m],
                    None => Seq::<ArchivedItem>::empty(),
                }) + rest2 =~= rest2);
            }
        }
    }
}

/// One run-decode step that reads loose values.
proof fn lemma_items_step_values(
    s: Seq<u8>,
    st: DecodeState,
    tags: Seq<TypeTag>,
    st2: DecodeState,
    outcome: Result<(Seq<ArchivedValue>, int), TypedStreamError>,
)
    requires
        0 <= st.idx < s.len(),
        s[st.idx] != END_TAG,
        s_types_tag(s, st) == Ok::<(Seq<TypeTag>, DecodeState), TypedStreamError>((tags, st2)),
        !(tags =~= seq![TypeTag::Object]),
        s_values(s, st2.idx, tags) == outcome,
    ensures
        match outcome {
            Ok((vals, j)) => {
                let item = if vals.len() > 0 {
                    ArchivedItem::Data(vals)
                } else {
                    ArchivedItem::Type(tags)
                };
                let st3 = DecodeState { idx: j, ..st2 };
                if st.idx < st3.idx <= s.len() {
                    s_items(s, st) == (match s_items(s, st3) {
                        Ok((rest2, end2)) => Ok::<(Seq<ArchivedItem>, DecodeState), TypedStreamError>(
                            (seq![item] + rest2, end2),
                        ),
                        Err(e2) => Err::<(Seq<ArchivedItem>, DecodeState), TypedStreamError>(e2),
                    })
                } else {
                    s_items(s, st) == Err::<(Seq<ArchivedItem>, DecodeState), TypedStreamError>(
                        TypedStreamError::Truncated,
                    )
                }
            },
            Err(e) => s_items(s, st) == Err::<(Seq<ArchivedItem>, DecodeState), TypedStreamError>(
                e,
            ),
        },
{
    reveal(s_items);
}

/// A run decode at the end of the stream yields nothing more.
proof fn lemma_items_done(s: Seq<u8>, st: DecodeState)
    requires
        0 <= st.idx <= s.len(),
        st.idx >= s.len(),
    ensures
        s_items(s, st) == Ok::<(Seq<ArchivedItem>, DecodeState), TypedStreamError>(
            (Seq::empty(), st),
        ),
{
    reveal(s_items);
}

/// A decoder for the `typedstream` wire format.
///
/// The stream is a header followed by runs of typed values. A run begins
/// with a type string — either defined inline after a start tag and
/// appended to the type table, or named by a back-reference — and its
/// values follow. A run of a single object tag carries an object: a class
/// chain (inline definitions appended to the object table, or a
/// back-reference), then the object's own value run, then an end tag. An
/// object's slot in the table is reserved with a placeholder before its
/// class chain is read, and the placeholder is replaced when the object is
/// finished; a back-reference that still sees the placeholder does not
/// resolve.
pub struct TypedStreamReader<'a> {
    /// The raw bytes.
    pub stream: &'a [u8],
    /// The position of the next unread byte.
    pub idx: usize,
    /// The type runs seen so far, in first-seen order.
    pub types_table: Vec<Vec<Type>>,
    /// The objects and classes seen so far, in first-seen order.
    pub object_table: Vec<Archivable>,
    /// The reserved slot of the object now being decoded.
    pub placeholder: Option<usize>,
}

impl<'a> TypedStreamReader<'a> {
    /// The decoder never reads past the end of its stream.
    pub open spec fn wf(&self) -> bool {
        self.idx <= self.stream@.len()
    }

    /// A reader at the start of the given bytes.
    pub fn from(stream: &'a [u8]) -> (r: Self)
        ensures
            r.wf(),
            r.stream@ == stream@,
            r.idx == 0,
            r.types_table@.len() == 0,
            r.object_table@.len() == 0,
    {
        TypedStreamReader {
            stream,
            idx: 0,
            types_table: Vec::new(),
            object_table: Vec::new(),
            placeholder: None,
        }
    }

    /// Read one byte.
    fn read_u8(&mut self) -> (r: Result<u8, TypedStreamError>)
        requires
            old(self).wf(),
        ensures
            final(self).wf(),
            final(self).stream == old(self).stream,
            final(self).types_table == old(self).types_table,
            final(self).object_table == old(self).object_table,
            final(self).placeholder == old(self).placeholder,
            r is Ok ==> final(self).idx == old(self).idx + 1,
            r is Err ==> final(self).idx == old(self).idx,
            match r {
                Ok(b) => s_u8(old(self).stream@, old(self).idx as int) == Ok::<
                    (u8, int),
                    TypedStreamError,
                >((b, final(self).idx as int)),
                Err(e) => s_u8(old(self).stream@, old(self).idx as int) == Err::<
                    (u8, int),
                    TypedStreamError,
                >(e),
            },
    {
        if self.idx < self.stream.len() {
            let b = self.stream[self.idx];
            self.idx = self.idx + 1;
            Ok(b)
        } else {
            Err(TypedStreamError::Truncated)
        }
    }

    /// The next byte, without consuming it.
    fn peek_u8(&self) -> (r: Result<u8, TypedStreamError>)
        requires
            self.wf(),
        ensures
            r is Ok ==> self.idx < self.stream@.len(),
            match r {
                Ok(b) => s_u8(self.stream@, self.idx as int) == Ok::<(u8, int), TypedStreamError>(
                    (b, self.idx + 1),
                ),
                Err(e) => s_u8(self.stream@, self.idx as int) == Err::<
                    (u8, int),
                    TypedStreamError,
                >(e),
            },
    {
        if self.idx < self.stream.len() {
            Ok(self.stream[self.idx])
        } else {
            Err(TypedStreamError::Truncated)
        }
    }

    /// Read exactly `n` bytes.
    fn read_exact(&mut self, n: usize) -> (r: Result<Vec<u8>, TypedStreamError>)
        requires
            old(self).wf(),
        ensures
            final(self).wf(),
            final(self).stream == old(self).stream,
            final(self).types_table == old(self).types_table,
            final(self).object_table == old(self).object_table,
            final(self).placeholder == old(self).placeholder,
            r is Ok ==> final(self).idx == old(self).idx + n && r->Ok_0@.len() == n,
            r is Err ==> final(self).idx == old(self).idx,
            match r {
                Ok(v) => s_exact(old(self).stream@, old(self).idx as int, n as int) == Ok::<
                    (Seq<u8>, int),
                    TypedStreamError,
                >((v@, final(self).idx as int)),
                Err(e) => s_exact(old(self).stream@, old(self).idx as int, n as int) == Err::<
                    (Seq<u8>, int),
                    TypedStreamError,
                >(e),
            },
    {
        if n <= self.stream.len() - self.idx {
            let slen = self.stream.len();
            let mut out: Vec<u8> = Vec::new();
            let mut k: usize = 0;
            while k < n
                invariant
                    *self == *old(self),
                    self.stream@.len() == slen,
                    self.idx + n <= self.stream@.len(),
                    k <= n,
                    out@ == self.stream@.subrange(self.idx as int, self.idx + k),
                decreases n - k,
            {
                out.push(self.stream[self.idx + k]);
                k = k + 1;
                assert(out@ =~= self.stream@.subrange(self.idx as int, self.idx + k));
            }
            self.idx = self.idx + n;
            Ok(out)
        } else {
            Err(TypedStreamError::Truncated)
        }
    }

    /// Read an unsigned integer: a width tag selects a 2-, 4- or 8-byte
    /// little-endian value, and any other byte is itself the value.
    fn read_unsigned_int(&mut self) -> (r: Result<u64, TypedStreamError>)
        requires
            old(self).wf(),
        ensures
            final(self).wf(),
            final(self).stream == old(self).stream,
            final(self).types_table == old(self).types_table,
            final(self).object_table == old(self).object_table,
            final(self).placeholder == old(self).placeholder,
            r is Ok ==> old(self).idx < final(self).idx,
            old(self).idx <= final(self).idx,
            match r {
                Ok(v) => s_uint(old(self).stream@, old(self).idx as int) == Ok::<
                    (u64, int),
                    TypedStreamError,
                >((v, final(self).idx as int)),
                Err(e) => s_uint(old(self).stream@, old(self).idx as int) == Err::<
                    (u64, int),
                    TypedStreamError,
                >(e),
            },
    {
        let b = self.read_u8()?;
        if b == WIDTH_2_TAG {
            let bytes = self.read_exact(2)?;
            Ok((bytes[0] as u64) + 0x100u64 * (bytes[1] as u64))
        } else if b == WIDTH_4_TAG {
            let bytes = self.read_exact(4)?;
            Ok(
                (bytes[0] as u64) + 0x100u64 * (bytes[1] as u64) + 0x10000u64 * (bytes[2] as u64)
                    + 0x1000000u64 * (bytes[3] as u64),
            )
        } else if b == WIDTH_8_TAG {
            let bytes = self.read_exact(8)?;
            Ok(
                (bytes[0] as u64) + 0x100u64 * (bytes[1] as u64) + 0x10000u64 * (bytes[2] as u64)
                    + 0x1000000u64 * (bytes[3] as u64) + 0x100000000u64 * (bytes[4] as u64)
                    + 0x10000000000u64 * (bytes[5] as u64) + 0x1000000000000u64 * (bytes[6] as u64)
                    + 0x100000000000000u64 * (bytes[7] as u64),
            )
        } else {
            Ok(b as u64)
        }
    }

    /// Read a signed integer: a width tag selects a 2-, 4- or 8-byte
    /// little-endian value, and any other byte is itself the value, read as
    /// a signed byte.
    fn read_signed_int(&mut self) -> (r: Result<i64, TypedStreamError>)
        requires
            old(self).wf(),
        ensures
            final(self).wf(),
            final(self).stream == old(self).stream,
            final(self).types_table == old(self).types_table,
            final(self).object_table == old(self).object_table,
            final(self).placeholder == old(self).placeholder,
            r is Ok ==> old(self).idx < final(self).idx,
            old(self).idx <= final(self).idx,
            match r {
                Ok(v) => s_sint(old(self).stream@, old(self).idx as int) == Ok::<
                    (i64, int),
                    TypedStreamError,
                >((v, final(self).idx as int)),
                Err(e) => s_sint(old(self).stream@, old(self).idx as int) == Err::<
                    (i64, int),
                    TypedStreamError,
                >(e),
            },
    {
        let b = self.read_u8()?;
        if b == WIDTH_2_TAG {
            let bytes = self.read_exact(2)?;
            let v: u64 = (bytes[0] as u64) + 0x100u64 * (bytes[1] as u64);
            if v >= 0x8000 {
                Ok((v as i64) - 0x10000)
            } else {
                Ok(v as i64)
            }
        } else if b == WIDTH_4_TAG {
            let bytes = self.read_exact(4)?;
            let v: u64 = (bytes[0] as u64) + 0x100u64 * (bytes[1] as u64) + 0x10000u64 * (
            bytes[2] as u64) + 0x1000000u64 * (bytes[3] as u64);
            if v >= 0x80000000 {
                Ok((v as i64) - 0x100000000)
            } else {
                Ok(v as i64)
            }
        } else if b == WIDTH_8_TAG {
            let bytes = self.read_exact(8)?;
            let v: u64 = (bytes[0] as u64) + 0x100u64 * (bytes[1] as u64) + 0x10000u64 * (
            bytes[2] as u64) + 0x1000000u64 * (bytes[3] as u64) + 0x100000000u64 * (
            bytes[4] as u64) + 0x10000000000u64 * (bytes[5] as u64) + 0x1000000000000u64 * (
            bytes[6] as u64) + 0x100000000000000u64 * (bytes[7] as u64);
            if v >= 0x8000000000000000u64 {
                let w: i128 = (v as i128) - 0x10000000000000000i128;
                Ok(w as i64)
            } else {
                Ok(v as i64)
            }
        } else {
            if b >= 0x80 {
                Ok((b as i64) - 0x100)
            } else {
                Ok(b as i64)
            }
        }
    }

    /// Read a length-prefixed UTF-8 string.
    fn read_string(&mut self) -> (r: Result<String, TypedStreamError>)
        requires
            old(self).wf(),
        ensures
            final(self).wf(),
            final(self).stream == old(self).stream,
            final(self).types_table == old(self).types_table,
            final(self).object_table == old(self).object_table,
            final(self).placeholder == old(self).placeholder,
            r is Ok ==> old(self).idx < final(self).idx,
            old(self).idx <= final(self).idx,
            match r {
                Ok(text) => s_string(old(self).stream@, old(self).idx as int) == Ok::<
                    (Seq<char>, int),
                    TypedStreamError,
                >((text@, final(self).idx as int)),
                Err(e) => s_string(old(self).stream@, old(self).idx as int) == Err::<
                    (Seq<char>, int),
                    TypedStreamError,
                >(e),
            },
    {
        let len = self.read_unsigned_int()?;
        if len > usize::MAX as u64 {
            return Err(TypedStreamError::Truncated);
        }
        let bytes = self.read_exact(len as usize)?;
        match crate::text::utf8_to_string(bytes) {
            Some(s) => Ok(s),
            None => Err(TypedStreamError::InvalidUtf8),
        }
    }

    /// Read the bit pattern of a four-byte float.
    fn read_float_bits(&mut self) -> (r: Result<u32, TypedStreamError>)
        requires
            old(self).wf(),
        ensures
            final(self).wf(),
            final(self).stream == old(self).stream,
            final(self).types_table == old(self).types_table,
            final(self).object_table == old(self).object_table,
            final(self).placeholder == old(self).placeholder,
            r is Ok ==> old(self).idx < final(self).idx,
            old(self).idx <= final(self).idx,
            match r {
                Ok(v) => s_float(old(self).stream@, old(self).idx as int) == Ok::<
                    (u32, int),
                    TypedStreamError,
                >((v, final(self).idx as int)),
                Err(e) => s_float(old(self).stream@, old(self).idx as int) == Err::<
                    (u32, int),
                    TypedStreamError,
                >(e),
            },
    {
        let bytes = self.read_exact(4)?;
        Ok(
            (bytes[0] as u32) + 0x100u32 * (bytes[1] as u32) + 0x10000u32 * (bytes[2] as u32)
                + 0x1000000u32 * (bytes[3] as u32),
        )
    }

    /// Read the bit pattern of an eight-byte double.
    fn read_double_bits(&mut self) -> (r: Result<u64, TypedStreamError>)
        requires
            old(self).wf(),
        ensures
            final(self).wf(),
            final(self).stream == old(self).stream,
            final(self).types_table == old(self).types_table,
            final(self).object_table == old(self).object_table,
            final(self).placeholder == old(self).placeholder,
            r is Ok ==> old(self).idx < final(self).idx,
            old(self).idx <= final(self).idx,
            match r {
                Ok(v) => s_double(old(self).stream@, old(self).idx as int) == Ok::<
                    (u64, int),
                    TypedStreamError,
                >((v, final(self).idx as int)),
                Err(e) => s_double(old(self).stream@, old(self).idx as int) == Err::<
                    (u64, int),
                    TypedStreamError,
                >(e),
            },
    {
        let bytes = self.read_exact(8)?;
        Ok(
            (bytes[0] as u64) + 0x100u64 * (bytes[1] as u64) + 0x10000u64 * (bytes[2] as u64)
                + 0x1000000u64 * (bytes[3] as u64) + 0x100000000u64 * (bytes[4] as u64)
                + 0x10000000000u64 * (bytes[5] as u64) + 0x1000000000000u64 * (bytes[6] as u64)
                + 0x100000000000000u64 * (bytes[7] as u64),
        )
    }

    /// Check the archive's magic: the encoder version, the `streamtyped`
    /// signature, and the system version.
    pub fn validate_header(&mut self) -> (r: Result<(), TypedStreamError>)
        requires
            old(self).wf(),
            old(self).idx == 0,
        ensures
            final(self).wf(),
            final(self).stream == old(self).stream,
            final(self).types_table == old(self).types_table,
            final(self).object_table == old(self).object_table,
            match r {
                Ok(_) => s_header(old(self).stream@) == Ok::<int, TypedStreamError>(
                    final(self).idx as int,
                ),
                Err(e) => s_header(old(self).stream@) == Err::<int, TypedStreamError>(e),
            },
    {
        let version = match self.read_unsigned_int() {
            Ok(v) => v,
            Err(_) => {
                return Err(TypedStreamError::InvalidHeader);
            },
        };
        if version != 4 {
            return Err(TypedStreamError::InvalidHeader);
        }
        let signature = match self.read_string() {
            Ok(s) => s,
            Err(_) => {
                return Err(TypedStreamError::InvalidHeader);
            },
        };
        if !crate::text::str_eq(signature.as_str(), "streamtyped") {
            return Err(TypedStreamError::InvalidHeader);
        }
        let system = match self.read_signed_int() {
            Ok(v) => v,
            Err(_) => {
                return Err(TypedStreamError::InvalidHeader);
            },
        };
        if system != 1000 {
            return Err(TypedStreamError::InvalidHeader);
        }
        Ok(())
    }

    /// Read a type string: a length-prefixed run of type tag bytes.
    fn read_type_string(&mut self) -> (r: Result<Vec<Type>, TypedStreamError>)
        requires
            old(self).wf(),
        ensures
            final(self).wf(),
            final(self).stream == old(self).stream,
            final(self).object_table == old(self).object_table,
            final(self).types_table == old(self).types_table,
            final(self).placeholder == old(self).placeholder,
            r is Ok ==> old(self).idx < final(self).idx,
            old(self).idx <= final(self).idx,
            match r {
                Ok(v) => s_type_string(old(self).stream@, old(self).idx as int) == Ok::<
                    (Seq<TypeTag>, int),
                    TypedStreamError,
                >((tags_model(v@), final(self).idx as int)),
                Err(e) => s_type_string(old(self).stream@, old(self).idx as int) == Err::<
                    (Seq<TypeTag>, int),
                    TypedStreamError,
                >(e),
            },
    {
        let len = self.read_unsigned_int()?;
        if len > usize::MAX as u64 {
            return Err(TypedStreamError::Truncated);
        }
        let bytes = self.read_exact(len as usize)?;
        if let Some(arr) = Type::get_array_length(bytes.as_slice()) {
            proof {
                let tail = bytes@.drop_first();
                let run = spec_digit_run(tail);
                lemma_digit_run_bounds(tail);
                lemma_digit_run_digits(tail);
                assert forall|j: int| 0 <= j < tail.take(run).len() implies spec_is_ascii_digit_byte(
                    #[trigger] tail.take(run)[j],
                ) by {
                    assert(tail.take(run)[j] == tail[j]);
                }
                lemma_digit_bytes_value_nonneg(tail.take(run));
                let v = spec_digit_bytes_value(tail.take(run));
                assert(0 <= v <= u32::MAX);
                assert(arr@ =~= seq![Type::Array(v as usize)]);
                assert(arr@[0] == Type::Array(v as usize));
                assert(tag_model(arr@[0]) == TypeTag::Array((v as usize) as int));
                assert((v as usize) as int == v);
                assert(tags_model(arr@).len() == 1);
                assert(tags_model(arr@)[0] == tag_model(arr@[0]));
                assert(tags_model(arr@) =~= seq![TypeTag::Array(v)]);
            }
            return Ok(arr);
        }
        let mut out: Vec<Type> = Vec::new();
        let mut k: usize = 0;
        while k < bytes.len()
            invariant
                k <= bytes@.len(),
                out@.len() == k,
                forall|j: int|
                    0 <= j < k ==> tag_model(#[trigger] out@[j]) == s_tag_of_byte(bytes@[j]),
            decreases bytes@.len() - k,
        {
            out.push(Type::from_byte(&bytes[k]));
            k = k + 1;
        }
        assert(tags_model(out@) =~= Seq::new(bytes@.len(), |t: int| s_tag_of_byte(bytes@[t])));
        Ok(out)
    }

    /// Read the type run of the next item: an inline definition appended to
    /// the type table, or a back-reference to one already seen.
    fn read_types_tag(&mut self) -> (r: Result<Vec<Type>, TypedStreamError>)
        requires
            old(self).wf(),
        ensures
            final(self).wf(),
            final(self).stream == old(self).stream,
            final(self).object_table == old(self).object_table,
            final(self).placeholder == old(self).placeholder,
            r is Ok ==> old(self).idx < final(self).idx,
            old(self).idx <= final(self).idx,
            match r {
                Ok(v) => s_types_tag(old(self).stream@, state_model(*old(self))) == Ok::<
                    (Seq<TypeTag>, DecodeState),
                    TypedStreamError,
                >((tags_model(v@), state_model(*final(self)))),
                Err(e) => s_types_tag(old(self).stream@, state_model(*old(self))) == Err::<
                    (Seq<TypeTag>, DecodeState),
                    TypedStreamError,
                >(e),
            },
    {
        let b = self.peek_u8()?;
        if b == START_TAG {
            let _ = self.read_u8()?;
            let types = self.read_type_string()?;
            let copy = clone_types(&types);
            self.types_table.push(copy);
            proof {
                assert(state_model(*self).types =~= state_model(*old(self)).types.push(
                    tags_model(types@),
                ));
                assert(state_model(*self) == DecodeState {
                    idx: self.idx as int,
                    types: state_model(*old(self)).types.push(tags_model(types@)),
                    ..state_model(*old(self))
                });
            }
            Ok(types)
        } else {
            let v = self.read_unsigned_int()?;
            if v < REFERENCE_TAG {
                return Err(TypedStreamError::UnknownTag(b));
            }
            let index = v - REFERENCE_TAG;
            if index >= self.types_table.len() as u64 {
                return Err(TypedStreamError::BadReference(index));
            }
            let out = clone_types(&self.types_table[index as usize]);
            proof {
                assert(state_model(*old(self)).types[index as int] == tags_model(
                    old(self).types_table@[index as int]@,
                ));
                assert(state_model(*self) == DecodeState {
                    idx: self.idx as int,
                    ..state_model(*old(self))
                });
            }
            Ok(out)
        }
    }

    /// Read a class chain: inline definitions are appended to the object
    /// table; a back-reference must name a class already seen. The first
    /// class of the chain is the object's own.
    fn read_class_chain(&mut self) -> (r: Result<Option<Class>, TypedStreamError>)
        requires
            old(self).wf(),
        ensures
            final(self).wf(),
            final(self).stream == old(self).stream,
            final(self).types_table == old(self).types_table,
            r is Ok ==> old(self).idx < final(self).idx,
            old(self).idx <= final(self).idx,
            match r {
                Ok(leaf) => s_class_chain(old(self).stream@, state_model(*old(self)), None) == Ok::<
                    (Option<ArchivedClass>, DecodeState),
                    TypedStreamError,
                >((opt_class_model(leaf), state_model(*final(self)))),
                Err(e) => s_class_chain(old(self).stream@, state_model(*old(self)), None) == Err::<
                    (Option<ArchivedClass>, DecodeState),
                    TypedStreamError,
                >(e),
            },
    {
        proof {
            reveal(s_class_chain);
        }
        let mut leaf: Option<Class> = None;
        let ghost start = self.idx;
        loop
            invariant
                self.wf(),
                self.stream == old(self).stream,
                self.types_table == old(self).types_table,
                start == old(self).idx,
                start <= self.idx,
                s_class_chain(old(self).stream@, state_model(*old(self)), None) == s_class_chain(
                    old(self).stream@,
                    state_model(*self),
                    opt_class_model(leaf),
                ),
            decreases self.stream@.len() - self.idx,
        {
            proof {
                reveal(s_class_chain);
            }
            let ghost pre = *self;
            let ghost pre_leaf = leaf;
            let b = self.peek_u8()?;
            if b == EMPTY_TAG {
                let _ = self.read_u8()?;
                return Ok(leaf);
            } else if b == END_TAG {
                let _ = self.read_u8()?;
                return Ok(leaf);
            } else if b == START_TAG {
                let _ = self.read_u8()?;
                let name = self.read_string()?;
                let version = self.read_unsigned_int()?;
                let class = Class::new(name, version);
                let copy = Class { name: class.name.clone(), version: class.version };
                self.object_table.push(Archivable::Class(copy));
                if leaf.is_none() {
                    leaf = Some(class);
                }
                proof {
                    assert(state_model(*self).objects =~= state_model(pre).objects.push(
                        ArchivedItem::Class(ArchivedClass { name: name@, version }),
                    ));
                    assert(state_model(*self) == DecodeState {
                        idx: self.idx as int,
                        objects: state_model(pre).objects.push(
                            ArchivedItem::Class(ArchivedClass { name: name@, version }),
                        ),
                        ..state_model(pre)
                    });
                    assert(s_class_chain(
                        old(self).stream@,
                        state_model(pre),
                        opt_class_model(pre_leaf),
                    ) == s_class_chain(
                        old(self).stream@,
                        state_model(*self),
                        opt_class_model(leaf),
                    ));
                }
            } else {
                let v = self.read_unsigned_int()?;
                if v < REFERENCE_TAG {
                    return Err(TypedStreamError::UnknownTag(b));
                }
                let index = v - REFERENCE_TAG;
                if index >= self.object_table.len() as u64 {
                    return Err(TypedStreamError::BadReference(index));
                }
                proof {
                    assert(state_model(*self).objects[index as int] == item_model(
                        self.object_table@[index as int],
                    ));
                }
                match &self.object_table[index as usize] {
                    Archivable::Class(c) => {
                        if leaf.is_none() {
                            leaf = Some(Class { name: c.name.clone(), version: c.version });
                        }
                        return Ok(leaf);
                    },
                    _ => {
                        return Err(TypedStreamError::BadReference(index));
                    },
                }
            }
        }
    }

    /// Read the primitive values a type run declares. An object tag inside
    /// a value run does not occur in Messages payloads and is rejected.
    fn read_values(&mut self, types: &Vec<Type>) -> (r: Result<Vec<OutputData>, TypedStreamError>)
        requires
            old(self).wf(),
        ensures
            final(self).wf(),
            final(self).stream == old(self).stream,
            final(self).types_table == old(self).types_table,
            final(self).object_table == old(self).object_table,
            old(self).idx <= final(self).idx,
            match r {
                Ok(v) => s_values(old(self).stream@, old(self).idx as int, tags_model(types@))
                    == Ok::<(Seq<ArchivedValue>, int), TypedStreamError>(
                    (values_model(v@), final(self).idx as int),
                ),
                Err(e) => s_values(old(self).stream@, old(self).idx as int, tags_model(types@))
                    == Err::<(Seq<ArchivedValue>, int), TypedStreamError>(e),
            },
    {
        let mut out: Vec<OutputData> = Vec::new();
        let mut ti: usize = 0;
        proof {
            assert(tags_model(types@.skip(0)) =~= tags_model(types@));
            assert(values_model(out@) =~= Seq::<ArchivedValue>::empty());
        }
        while ti < types.len()
            invariant
                self.wf(),
                self.stream == old(self).stream,
                self.types_table == old(self).types_table,
                self.object_table == old(self).object_table,
                ti <= types@.len(),
                old(self).idx <= self.idx,
                match s_values(
                    old(self).stream@,
                    self.idx as int,
                    tags_model(types@.skip(ti as int)),
                ) {
                    Ok((rest, end)) => s_values(
                        old(self).stream@,
                        old(self).idx as int,
                        tags_model(types@),
                    ) == Ok::<(Seq<ArchivedValue>, int), TypedStreamError>(
                        (values_model(out@) + rest, end),
                    ),
                    Err(e) => s_values(
                        old(self).stream@,
                        old(self).idx as int,
                        tags_model(types@),
                    ) == Err::<(Seq<ArchivedValue>, int), TypedStreamError>(e),
                },
            decreases types@.len() - ti,
        {
            let ghost pre = *self;
            let ghost pre_out = out@;
            proof {
                assert(tags_model(types@.skip(ti as int))[0] == tag_model(types@[ti as int]));
                assert(tags_model(types@.skip(ti as int)).drop_first() =~= tags_model(
                    types@.skip(ti as int + 1),
                ));
            }
            match &types[ti] {
                Type::Utf8String => {
                    let s = self.read_string()?;
                    out.push(OutputData::String(s));
                },
                Type::EmbeddedData => {
                    let len = self.read_unsigned_int()?;
                    if len > usize::MAX as u64 {
                        return Err(TypedStreamError::Truncated);
                    }
                    let bytes = self.read_exact(len as usize)?;
                    out.push(OutputData::Array(bytes));
                },
                Type::SignedInt => {
                    let v = self.read_signed_int()?;
                    out.push(OutputData::SignedInteger(v));
                },
                Type::UnsignedInt => {
                    let v = self.read_unsigned_int()?;
                    out.push(OutputData::UnsignedInteger(v));
                },
                Type::Float => {
                    let v = self.read_float_bits()?;
                    out.push(OutputData::Float(v));
                },
                Type::Double => {
                    let v = self.read_double_bits()?;
                    out.push(OutputData::Double(v));
                },
                Type::String(text) => {
                    out.push(OutputData::String(text.clone()));
                },
                Type::Array(n) => {
                    let bytes = self.read_exact(*n)?;
                    out.push(OutputData::Array(bytes));
                },
                Type::Unknown(b) => {
                    out.push(OutputData::Byte(*b));
                },
                Type::Object => {
                    return Err(TypedStreamError::UnknownTag(0x40));
                },
            }
            let ghost oti = ti;
            ti = ti + 1;
            proof {
                let stream_view = old(self).stream@;
                let tcur = tags_model(types@.skip(oti as int));
                let tnext = tags_model(types@.skip(ti as int));
                assert(values_model(out@) =~= values_model(pre_out).push(
                    value_model(out@.last()),
                ));
                if s_values(stream_view, self.idx as int, tnext) is Ok {
                    let rest = s_values(stream_view, self.idx as int, tnext)->Ok_0.0;
                    let end = s_values(stream_view, self.idx as int, tnext)->Ok_0.1;
                    assert(s_values(stream_view, pre.idx as int, tcur) == Ok::<
                        (Seq<ArchivedValue>, int),
                        TypedStreamError,
                    >((seq![value_model(out@.last())] + rest, end)));
                    assert(values_model(out@) + rest =~= values_model(pre_out) + (seq![
                        value_model(out@.last()),
                    ] + rest));
                } else {
                    let e = s_values(stream_view, self.idx as int, tnext)->Err_0;
                    assert(s_values(stream_view, pre.idx as int, tcur) == Err::<
                        (Seq<ArchivedValue>, int),
                        TypedStreamError,
                    >(e));
                }
            }
        }
        proof {
            assert(tags_model(types@.skip(types@.len() as int)) =~= Seq::<TypeTag>::empty());
        }
        Ok(out)
    }

    /// Read one object: nil, a back-reference to a finished object, or an
    /// inline definition whose slot is reserved before its class chain is
    /// read and filled once its values are finished.
    #[verifier::rlimit(100)]
    fn read_object(&mut self) -> (r: Result<Option<Archivable>, TypedStreamError>)
        requires
            old(self).wf(),
        ensures
            final(self).wf(),
            final(self).stream == old(self).stream,
            r is Ok ==> old(self).idx < final(self).idx,
            old(self).idx <= final(self).idx,
            match r {
                Ok(Some(a)) => !(a is Placeholder),
                _ => true,
            },
            match r {
                Ok(opt) => s_object(old(self).stream@, state_model(*old(self))) == Ok::<
                    (Option<ArchivedItem>, DecodeState),
                    TypedStreamError,
                >((opt_item_model(opt), state_model(*final(self)))),
                Err(e) => s_object(old(self).stream@, state_model(*old(self))) == Err::<
                    (Option<ArchivedItem>, DecodeState),
                    TypedStreamError,
                >(e),
            },
    {
        proof {
            reveal(s_object);
        }
        let b = self.peek_u8()?;
        if b == EMPTY_TAG {
            let _ = self.read_u8()?;
            return Ok(None);
        }
        if b == START_TAG {
            let _ = self.read_u8()?;
            // Reserve this object's slot before its class chain is read.
            let spot = self.object_table.len();
            self.placeholder = Some(spot);
            self.object_table.push(Archivable::Placeholder);
            let ghost st1 = state_model(*self);
            proof {
                assert(st1.objects =~= state_model(*old(self)).objects.push(
                    ArchivedItem::Placeholder,
                ));
                assert(st1 == DecodeState {
                    idx: self.idx as int,
                    objects: state_model(*old(self)).objects.push(ArchivedItem::Placeholder),
                    ..state_model(*old(self))
                });
            }
            let class = match self.read_class_chain()? {
                Some(c) => c,
                None => {
                    // A nil class: the reserved slot stays empty.
                    self.placeholder = None;
                    return Ok(None);
                },
            };
            let ghost st2 = state_model(*self);
            // The object's own values follow, unless it has none.
            let nxt = self.peek_u8()?;
            let values: Vec<OutputData> = if nxt == EMPTY_TAG {
                let _ = self.read_u8()?;
                let empty_values: Vec<OutputData> = Vec::new();
                assert(values_model(empty_values@) =~= Seq::<ArchivedValue>::empty());
                empty_values
            } else {
                let types = self.read_types_tag()?;
                self.read_values(&types)?
            };
            // Replace the placeholder with the finished object.
            let stored = Archivable::Object(
                Class { name: class.name.clone(), version: class.version },
                clone_values(&values),
            );
            let ghost st4 = state_model(*self);
            let ghost item = ArchivedItem::Object(class_model(class), values_model(values@));
            proof {
                assert(item_model(stored) == item);
            }
            if spot < self.object_table.len() {
                self.object_table[spot] = stored;
                proof {
                    assert(state_model(*self).objects =~= st4.objects.update(spot as int, item));
                    assert(state_model(*self) == DecodeState {
                        objects: st4.objects.update(spot as int, item),
                        ..st4
                    });
                }
            }
            self.placeholder = None;
            return Ok(Some(Archivable::Object(class, values)));
        }
        let v = self.read_unsigned_int()?;
        if v < REFERENCE_TAG {
            return Err(TypedStreamError::UnknownTag(b));
        }
        let index = v - REFERENCE_TAG;
        if index >= self.object_table.len() as u64 {
            return Err(TypedStreamError::BadReference(index));
        }
        proof {
            assert(state_model(*self).objects[index as int] == item_model(
                self.object_table@[index as int],
            ));
        }
        match clone_archivable(&self.object_table[index as usize]) {
            Archivable::Placeholder => Err(TypedStreamError::BadReference(index)),
            other => Ok(Some(other)),
        }
    }

    /// Decode the archive: the header, then every run of typed values.
    ///
    /// The result is exactly what the specification-level decode of the
    /// stream gives: every item's view equals the corresponding decoded
    /// item, decoding succeeds exactly when the specification decode does,
    /// and a failure carries the same error. The placeholder the decoder
    /// reserves while reading an object never survives into the result.
    #[verifier::rlimit(100)]
    pub fn parse(&mut self) -> (r: Result<Vec<Archivable>, TypedStreamError>)
        requires
            old(self).wf(),
            old(self).idx == 0,
            old(self).types_table@.len() == 0,
            old(self).object_table@.len() == 0,
        ensures
            match r {
                Ok(items) => forall|i: int|
                    0 <= i < items@.len() ==> !((#[trigger] items@[i]) is Placeholder),
                Err(_) => true,
            },
            match r {
                Ok(items) => spec_typedstream_decode(old(self).stream@) == Ok::<
                    Seq<ArchivedItem>,
                    TypedStreamError,
                >(items_model(items@)),
                Err(e) => spec_typedstream_decode(old(self).stream@) == Err::<
                    Seq<ArchivedItem>,
                    TypedStreamError,
                >(e),
            },
    {
        let ghost stream_view = old(self).stream@;
        self.validate_header()?;
        proof {
            assert(state_model(*self).types =~= Seq::<Seq<TypeTag>>::empty());
            assert(state_model(*self).objects =~= Seq::<ArchivedItem>::empty());
            assert(state_model(*self) == DecodeState {
                idx: self.idx as int,
                types: Seq::empty(),
                objects: Seq::empty(),
            });
        }
        let mut out: Vec<Archivable> = Vec::new();
        proof {
            assert(items_model(out@) =~= Seq::<ArchivedItem>::empty());
            if s_items(stream_view, state_model(*self)) is Ok {
                let rest = s_items(stream_view, state_model(*self))->Ok_0.0;
                assert(items_model(out@) + rest =~= rest);
            }
        }
        while self.idx < self.stream.len()
            invariant
                self.wf(),
                self.stream@ == stream_view,
                old(self).stream@ == stream_view,
                forall|i: int| 0 <= i < out@.len() ==> !((#[trigger] out@[i]) is Placeholder),
                match s_items(stream_view, state_model(*self)) {
                    Ok((rest, end)) => spec_typedstream_decode(stream_view) == Ok::<
                        Seq<ArchivedItem>,
                        TypedStreamError,
                    >(items_model(out@) + rest),
                    Err(e) => spec_typedstream_decode(stream_view) == Err::<
                        Seq<ArchivedItem>,
                        TypedStreamError,
                    >(e),
                },
            decreases self.stream@.len() - self.idx,
        {
            let ghost pre = *self;
            let ghost done = items_model(out@);
            let b = self.peek_u8()?;
            if b == END_TAG {
                let _ = self.read_u8()?;
                proof {
                    assert(state_model(*self) == DecodeState {
                        idx: pre.idx + 1,
                        ..state_model(pre)
                    });
                    lemma_items_step_skip(stream_view, state_model(pre));
                }
                continue ;
            }
            let types = match self.read_types_tag() {
                Ok(t) => t,
                Err(e) => {
                    proof {
                        lemma_items_err_types(stream_view, state_model(pre), e);
                    }
                    return Err(e);
                },
            };
            let ghost st2 = state_model(*self);
            let is_object_run = types.len() == 1 && matches!(types[0], Type::Object);
            proof {
                assert(tags_model(types@).len() == types@.len());
                if types@.len() == 1 {
                    assert(tags_model(types@)[0] == tag_model(types@[0]));
                }
                assert(is_object_run <==> tags_model(types@) =~= seq![TypeTag::Object]);
            }
            let ghost add: Seq<ArchivedItem>;
            if is_object_run {
                let opt = match self.read_object() {
                    Ok(o) => o,
                    Err(e) => {
                        proof {
                            lemma_items_step_object(
                                stream_view,
                                state_model(pre),
                                tags_model(types@),
                                st2,
                                Err(e),
                            );
                        }
                        return Err(e);
                    },
                };
                proof {
                    assert(pre.idx < self.idx <= stream_view.len());
                    add = match opt_item_model(opt) {
                        Some(m) => seq![m],
                        None => Seq::empty(),
                    };
                    lemma_items_step_object(
                        stream_view,
                        state_model(pre),
                        tags_model(types@),
                        st2,
                        Ok((opt_item_model(opt), state_model(*self))),
                    );
                    lemma_decode_continue(
                        stream_view,
                        state_model(pre),
                        state_model(*self),
                        done,
                        add,
                    );
                }
                if let Some(item) = opt {
                    out.push(item);
                }
                proof {
                    assert(items_model(out@) =~= done + add);
                }
            } else {
                let values = match self.read_values(&types) {
                    Ok(v) => v,
                    Err(e) => {
                        proof {
                            lemma_items_step_values(
                                stream_view,
                                state_model(pre),
                                tags_model(types@),
                                st2,
                                Err(e),
                            );
                        }
                        return Err(e);
                    },
                };
                proof {
                    assert(pre.idx < self.idx <= stream_view.len());
                    assert(values@.len() > 0 <==> values_model(values@).len() > 0);
                    add = if values_model(values@).len() > 0 {
                        seq![ArchivedItem::Data(values_model(values@))]
                    } else {
                        seq![ArchivedItem::Type(tags_model(types@))]
                    };
                    lemma_items_step_values(
                        stream_view,
                        state_model(pre),
                        tags_model(types@),
                        st2,
                        Ok((values_model(values@), self.idx as int)),
                    );
                    assert(state_model(*self) == DecodeState { idx: self.idx as int, ..st2 });
                    lemma_decode_continue(
                        stream_view,
                        state_model(pre),
                        state_model(*self),
                        done,
                        add,
                    );
                }
                if values.len() > 0 {
                    out.push(Archivable::Data(values));
                } else {
                    out.push(Archivable::Type(types));
                }
                proof {
                    assert(items_model(out@) =~= done.push(item_model(out@.last())));
                    assert(items_model(out@) =~= done + add);
                }
            }
        }
        proof {
            lemma_items_done(stream_view, state_model(*self));
            assert(items_model(out@) + Seq::<ArchivedItem>::empty() =~= items_model(out@));
        }
        Ok(out)
    }
}

/// Copy a list of type tags.
fn clone_types(types: &Vec<Type>) -> (r: Vec<Type>)
    ensures
        tags_model(r@) == tags_model(types@),
{
    let mut out: Vec<Type> = Vec::new();
    let mut k: usize = 0;
    while k < types.len()
        invariant
            k <= types@.len(),
            out@.len() == k,
            forall|j: int| 0 <= j < k ==> tag_model(#[trigger] out@[j]) == tag_model(types@[j]),
        decreases types@.len() - k,
    {
        out.push(
            match &types[k] {
                Type::Utf8String => Type::Utf8String,
                Type::EmbeddedData => Type::EmbeddedData,
                Type::Object => Type::Object,
                Type::SignedInt => Type::SignedInt,
                Type::UnsignedInt => Type::UnsignedInt,
                Type::Float => Type::Float,
                Type::Double => Type::Double,
                Type::String(s) => Type::String(s.clone()),
                Type::Array(n) => Type::Array(*n),
                Type::Unknown(b) => Type::Unknown(*b),
            },
        );
        k = k + 1;
    }
    assert(tags_model(out@) =~= tags_model(types@));
    out
}

/// Copy a list of values.
fn clone_values(values: &Vec<OutputData>) -> (r: Vec<OutputData>)
    ensures
        values_model(r@) == values_model(values@),
{
    let mut out: Vec<OutputData> = Vec::new();
    let mut k: usize = 0;
    while k < values.len()
        invariant
            k <= values@.len(),
            out@.len() == k,
            forall|j: int| 0 <= j < k ==> value_model(#[trigger] out@[j]) == value_model(
                values@[j],
            ),
        decreases values@.len() - k,
    {
        out.push(
            match &values[k] {
                OutputData::String(s) => OutputData::String(s.clone()),
                OutputData::SignedInteger(v) => OutputData::SignedInteger(*v),
                OutputData::UnsignedInteger(v) => OutputData::UnsignedInteger(*v),
                OutputData::Float(v) => OutputData::Float(*v),
                OutputData::Double(v) => OutputData::Double(*v),
                OutputData::Byte(v) => OutputData::Byte(*v),
                OutputData::Array(bs) => OutputData::Array(crate::plist::copy_bytes(bs.as_slice())),
                OutputData::Class(c) => OutputData::Class(
                    Class { name: c.name.clone(), version: c.version },
                ),
            },
        );
        k = k + 1;
    }
    assert(values_model(out@) =~= values_model(values@));
    out
}

/// Copy one archived item: the copy has the original's model.
fn clone_archivable(a: &Archivable) -> (r: Archivable)
    ensures
        (r is Placeholder) <==> (*a is Placeholder),
        item_model(r) == item_model(*a),
{
    match a {
        Archivable::Object(c, vals) => Archivable::Object(
            Class { name: c.name.clone(), version: c.version },
            clone_values(vals),
        ),
        Archivable::Data(vals) => Archivable::Data(clone_values(vals)),
        Archivable::Class(c) => Archivable::Class(
            Class { name: c.name.clone(), version: c.version },
        ),
        Archivable::Placeholder => Archivable::Placeholder,
        Archivable::Type(ts) => Archivable::Type(clone_types(ts)),
    }
}

} // verus!
