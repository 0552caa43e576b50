//! The wire-level value types of the format: raw float bit patterns, small
//! float vectors, bit flags, the text encoding selector, and the
//! variable-width index codec.

use vstd::prelude::*;

verus! {

use crate::cursor::{ByteCursor, spec_i32_le, spec_i32_of_u32};
use vstd::bytes::{
    spec_u16_from_le_bytes,
    spec_u16_to_le_bytes,
    spec_u32_from_le_bytes,
    spec_u32_to_le_bytes,
    u16_from_le_bytes,
};

/// Errors of the wire-level codecs.
#[derive(Debug, Clone, Copy, PartialEq, Eq)]
pub enum Error {
    /// The byte source ended before the required bytes were available.
    UnexpectedEnd,
    /// A UTF-16 text failed to decode.
    Util(crate::util::Error),
    /// The length prefix of a text was negative.
    NegativeLength,
    /// The encoding byte of the header named no known encoding.
    InvalidTextEncoding,
    /// A text declared as UTF-8 held malformed UTF-8.
    FromUtf8,
    /// A declared index width was none of 1, 2 or 4.
    IndexSizeMismatch,
}

/// The bit pattern of one IEEE-754 single-precision float, as stored on
/// disk in little-endian order. The decoder preserves patterns exactly and
/// never computes with them.
#[derive(Debug, Clone, Copy, PartialEq, Eq, Structural)]
pub struct F32Bits {
    pub bits: u32,
}

/// An XY float vector, each component a raw bit pattern.
#[derive(Debug, Clone, Copy, PartialEq, Eq, Structural)]
pub struct Vec2Bits {
    pub x: F32Bits,
    pub y: F32Bits,
}

/// An XYZ float vector, each component a raw bit pattern.
#[derive(Debug, Clone, Copy, PartialEq, Eq, Structural)]
pub struct Vec3Bits {
    pub x: F32Bits,
    pub y: F32Bits,
    pub z: F32Bits,
}

/// An XYZW float vector, each component a raw bit pattern.
#[derive(Debug, Clone, Copy, PartialEq, Eq, Structural)]
pub struct Vec4Bits {
    pub x: F32Bits,
    pub y: F32Bits,
    pub z: F32Bits,
    pub w: F32Bits,
}

/// The float whose four little-endian bytes start at `at` in `b`.
pub open spec fn spec_f32_at(b: Seq<u8>, at: int) -> F32Bits
    recommends
        0 <= at,
        at + 4 <= b.len(),
{
    F32Bits { bits: spec_u32_from_le_bytes(b.subrange(at, at + 4)) }
}

/// The XY vector whose eight bytes start at `at` in `b`.
pub open spec fn spec_vec2_at(b: Seq<u8>, at: int) -> Vec2Bits
    recommends
        0 <= at,
        at + 8 <= b.len(),
{
    Vec2Bits { x: spec_f32_at(b, at), y: spec_f32_at(b, at + 4) }
}

/// The XYZ vector whose twelve bytes start at `at` in `b`.
pub open spec fn spec_vec3_at(b: Seq<u8>, at: int) -> Vec3Bits
    recommends
        0 <= at,
        at + 12 <= b.len(),
{
    Vec3Bits { x: spec_f32_at(b, at), y: spec_f32_at(b, at + 4), z: spec_f32_at(b, at + 8) }
}

/// The XYZW vector whose sixteen bytes start at `at` in `b`.
pub open spec fn spec_vec4_at(b: Seq<u8>, at: int) -> Vec4Bits
    recommends
        0 <= at,
        at + 16 <= b.len(),
{
    Vec4Bits {
        x: spec_f32_at(b, at),
        y: spec_f32_at(b, at + 4),
        z: spec_f32_at(b, at + 8),
        w: spec_f32_at(b, at + 12),
    }
}

/// Dropping a prefix shifts the offset of a stored float.
pub proof fn lemma_f32_at_skip(b: Seq<u8>, s: int, at: int)
    requires
        0 <= s,
        0 <= at,
        s + at + 4 <= b.len(),
    ensures
        spec_f32_at(b.skip(s), at) == spec_f32_at(b, s + at),
{
    assert(b.skip(s).subrange(at, at + 4) =~= b.subrange(s + at, s + at + 4));
}

/// Dropping a prefix shifts the offset of a stored XY vector.
pub proof fn lemma_vec2_at_skip(b: Seq<u8>, s: int, at: int)
    requires
        0 <= s,
        0 <= at,
        s + at + 8 <= b.len(),
    ensures
        spec_vec2_at(b.skip(s), at) == spec_vec2_at(b, s + at),
{
    lemma_f32_at_skip(b, s, at);
    lemma_f32_at_skip(b, s, at + 4);
}

/// Dropping a prefix shifts the offset of a stored XYZ vector.
pub proof fn lemma_vec3_at_skip(b: Seq<u8>, s: int, at: int)
    requires
        0 <= s,
        0 <= at,
        s + at + 12 <= b.len(),
    ensures
        spec_vec3_at(b.skip(s), at) == spec_vec3_at(b, s + at),
{
    lemma_f32_at_skip(b, s, at);
    lemma_f32_at_skip(b, s, at + 4);
    lemma_f32_at_skip(b, s, at + 8);
}

/// Dropping a prefix shifts the offset of a stored XYZW vector.
pub proof fn lemma_vec4_at_skip(b: Seq<u8>, s: int, at: int)
    requires
        0 <= s,
        0 <= at,
        s + at + 16 <= b.len(),
    ensures
        spec_vec4_at(b.skip(s), at) == spec_vec4_at(b, s + at),
{
    lemma_f32_at_skip(b, s, at);
    lemma_f32_at_skip(b, s, at + 4);
    lemma_f32_at_skip(b, s, at + 8);
    lemma_f32_at_skip(b, s, at + 12);
}

impl F32Bits {
    /// Reads one float bit pattern: four little-endian bytes.
    pub fn parse(cur: &mut ByteCursor) -> (r: Result<F32Bits, Error>)
        requires
            old(cur).wf(),
        ensures
            final(cur).wf(),
            old(cur).remaining().len() >= 4 ==> {
                &&& r == Ok::<F32Bits, Error>(spec_f32_at(old(cur).remaining(), 0))
                &&& final(cur).remaining() == old(cur).remaining().skip(4)
            },
            old(cur).remaining().len() < 4 ==> r == Err::<F32Bits, Error>(
                Error::UnexpectedEnd,
            ),
    {
        match cur.read_u32_le() {
            Some(v) => {
                proof {
                    assert(old(cur).remaining().take(4) =~= old(cur).remaining().subrange(0, 4));
                }
                Ok(F32Bits { bits: v })
            },
            None => Err(Error::UnexpectedEnd),
        }
    }
}

impl Vec2Bits {
    /// Reads two consecutive float bit patterns.
    pub fn parse(cur: &mut ByteCursor) -> (r: Result<Vec2Bits, Error>)
        requires
            old(cur).wf(),
        ensures
            final(cur).wf(),
            old(cur).remaining().len() >= 8 ==> {
                &&& r == Ok::<Vec2Bits, Error>(spec_vec2_at(old(cur).remaining(), 0))
                &&& final(cur).remaining() == old(cur).remaining().skip(8)
            },
            old(cur).remaining().len() < 8 ==> r == Err::<Vec2Bits, Error>(
                Error::UnexpectedEnd,
            ),
    {
        let ghost b = old(cur).remaining();
        let x = match F32Bits::parse(cur) {
            Ok(v) => v,
            Err(e) => {
                return Err(e);
            },
        };
        let y = match F32Bits::parse(cur) {
            Ok(v) => v,
            Err(e) => {
                return Err(e);
            },
        };
        proof {
            assert(b.skip(4).subrange(0, 4) =~= b.subrange(4, 8));
            assert(b.skip(4).skip(4) =~= b.skip(8));
        }
        Ok(Vec2Bits { x, y })
    }
}

impl Vec3Bits {
    /// Reads three consecutive float bit patterns.
    pub fn parse(cur: &mut ByteCursor) -> (r: Result<Vec3Bits, Error>)
        requires
            old(cur).wf(),
        ensures
            final(cur).wf(),
            old(cur).remaining().len() >= 12 ==> {
                &&& r == Ok::<Vec3Bits, Error>(spec_vec3_at(old(cur).remaining(), 0))
                &&& final(cur).remaining() == old(cur).remaining().skip(12)
            },
            old(cur).remaining().len() < 12 ==> r == Err::<Vec3Bits, Error>(
                Error::UnexpectedEnd,
            ),
    {
        let ghost b = old(cur).remaining();
        let x = match F32Bits::parse(cur) {
            Ok(v) => v,
            Err(e) => {
                return Err(e);
            },
        };
        let y = match F32Bits::parse(cur) {
            Ok(v) => v,
            Err(e) => {
                return Err(e);
            },
        };
        let z = match F32Bits::parse(cur) {
            Ok(v) => v,
            Err(e) => {
                return Err(e);
            },
        };
        proof {
            assert(b.skip(4).subrange(0, 4) =~= b.subrange(4, 8));
            assert(b.skip(4).skip(4) =~= b.skip(8));
            assert(b.skip(8).subrange(0, 4) =~= b.subrange(8, 12));
            assert(b.skip(8).skip(4) =~= b.skip(12));
        }
        Ok(Vec3Bits { x, y, z })
    }
}

impl Vec4Bits {
    /// Reads four consecutive float bit patterns.
    pub fn parse(cur: &mut ByteCursor) -> (r: Result<Vec4Bits, Error>)
        requires
            old(cur).wf(),
        ensures
            final(cur).wf(),
            old(cur).remaining().len() >= 16 ==> {
                &&& r == Ok::<Vec4Bits, Error>(spec_vec4_at(old(cur).remaining(), 0))
                &&& final(cur).remaining() == old(cur).remaining().skip(16)
            },
            old(cur).remaining().len() < 16 ==> r == Err::<Vec4Bits, Error>(
                Error::UnexpectedEnd,
            ),
    {
        let ghost b = old(cur).remaining();
        let x = match F32Bits::parse(cur) {
            Ok(v) => v,
            Err(e) => {
                return Err(e);
            },
        };
        let y = match F32Bits::parse(cur) {
            Ok(v) => v,
            Err(e) => {
                return Err(e);
            },
        };
        let z = match F32Bits::parse(cur) {
            Ok(v) => v,
            Err(e) => {
                return Err(e);
            },
        };
        let w = match F32Bits::parse(cur) {
            Ok(v) => v,
            Err(e) => {
                return Err(e);
            },
        };
        proof {
            assert(b.skip(4).subrange(0, 4) =~= b.subrange(4, 8));
            assert(b.skip(4).skip(4) =~= b.skip(8));
            assert(b.skip(8).subrange(0, 4) =~= b.subrange(8, 12));
            assert(b.skip(8).skip(4) =~= b.skip(12));
            assert(b.skip(12).subrange(0, 4) =~= b.subrange(12, 16));
            assert(b.skip(12).skip(4) =~= b.skip(16));
        }
        Ok(Vec4Bits { x, y, z, w })
    }
}

/// The characters that the byte run `bytes` decodes to as UTF-8, or nothing
/// when the bytes are not well-formed UTF-8. Named here and pinned down only
/// by the contract of [`utf8_to_string`].
pub uninterp spec fn utf8_decode(bytes: Seq<u8>) -> Option<Seq<char>>;

/// Relies on `String::from_utf8`: it returns `Ok` exactly when the bytes are
/// well-formed UTF-8, and the characters of the result are a function of the
/// bytes alone.
#[verifier::external_body]
fn utf8_to_string(bytes: &Vec<u8>) -> (r: Option<String>)
    ensures
        r is Some <==> utf8_decode(bytes@) is Some,
        r matches Some(s) ==> utf8_decode(bytes@) == Some(s@),
{
    String::from_utf8(bytes.clone()).ok()
}

/// The mathematical content of a [`PmxText`]: the raw bytes as stored, the
/// encoding they were declared in, and the characters they decode to.
#[verifier::ext_equal]
pub ghost struct PmxTextView {
    pub raw: Seq<u8>,
    pub encoding: TextEncoding,
    pub decoded: Seq<char>,
}

/// What parsing one length-prefixed text from the front of `b` yields: the
/// text and the count of bytes consumed, or the first error. The 4-byte
/// little-endian length must be non-negative; the bytes must then decode in
/// the declared encoding.
pub open spec fn spec_parse_text(b: Seq<u8>, encoding: TextEncoding) -> Result<
    (PmxTextView, int),
    Error,
> {
    if b.len() < 4 {
        Err(Error::UnexpectedEnd)
    } else {
        let len = spec_i32_le(b) as int;
        if len < 0 {
            Err(Error::NegativeLength)
        } else if b.len() < 4 + len {
            Err(Error::UnexpectedEnd)
        } else {
            let raw = b.subrange(4, 4 + len);
            match encoding {
                TextEncoding::UTF8 => match utf8_decode(raw) {
                    Some(chars) => Ok(
                        (PmxTextView { raw, encoding, decoded: chars }, 4 + len),
                    ),
                    None => Err(Error::FromUtf8),
                },
                TextEncoding::UTF16LE => match crate::util::spec_from_utf16le(raw) {
                    Ok(chars) => Ok((PmxTextView { raw, encoding, decoded: chars }, 4 + len)),
                    Err(e) => Err(Error::Util(e)),
                },
            }
        }
    }
}

/// A successful text consumes between 4 bytes and all of `b`.
pub(crate) proof fn lemma_parse_text_bounds(b: Seq<u8>, enc: TextEncoding)
    requires
        spec_parse_text(b, enc) is Ok,
    ensures
        4 <= spec_parse_text(b, enc)->Ok_0.1 <= b.len(),
{
}

/// A text of the format: a length-prefixed byte run decoded as UTF-8 or
/// UTF-16LE, as the header declared. The raw bytes are retained alongside
/// the decoded string.
#[derive(Debug, PartialEq, Eq)]
pub struct PmxText {
    raw_bytes: Vec<u8>,
    encoding: TextEncoding,
    decoded: String,
}

impl View for PmxText {
    type V = PmxTextView;

    closed spec fn view(&self) -> PmxTextView {
        PmxTextView { raw: self.raw_bytes@, encoding: self.encoding, decoded: self.decoded@ }
    }
}

impl PmxText {
    /// The decoded string.
    pub fn decoded(&self) -> (r: &String)
        ensures
            r@ == self@.decoded,
    {
        &self.decoded
    }

    /// The raw bytes as stored on disk, without the length prefix.
    pub fn raw_bytes(&self) -> (r: &Vec<u8>)
        ensures
            r@ == self@.raw,
    {
        &self.raw_bytes
    }

    /// The encoding the text was declared in.
    pub fn encoding(&self) -> (r: TextEncoding)
        ensures
            r == self@.encoding,
    {
        self.encoding
    }

    /// Reads one length-prefixed text in the given encoding: a 4-byte
    /// little-endian signed length (negative lengths are rejected), then
    /// exactly that many bytes, decoded eagerly.
    pub fn from_bytes(cur: &mut ByteCursor, encoding: TextEncoding) -> (r: Result<PmxText, Error>)
        requires
            old(cur).wf(),
        ensures
            final(cur).wf(),
            spec_parse_text(old(cur).remaining(), encoding) matches Ok((t, n)) ==> {
                &&& r matches Ok(text) && text@ == t
                &&& final(cur).remaining() == old(cur).remaining().skip(n)
            },
            spec_parse_text(old(cur).remaining(), encoding) matches Err(e) ==> r
                == Err::<PmxText, Error>(e),
    {
        let ghost b = old(cur).remaining();
        let len = match cur.read_i32_le() {
            Some(v) => v,
            None => {
                return Err(Error::UnexpectedEnd);
            },
        };
        if len < 0 {
            return Err(Error::NegativeLength);
        }
        let len = len as usize;
        let raw_bytes = match cur.read_bytes(len) {
            Some(v) => v,
            None => {
                return Err(Error::UnexpectedEnd);
            },
        };
        proof {
            assert(b.skip(4).take(len as int) =~= b.subrange(4, 4 + len as int));
            assert(b.skip(4).skip(len as int) =~= b.skip(4 + len as int));
        }
        let decoded = match encoding {
            TextEncoding::UTF8 => match utf8_to_string(&raw_bytes) {
                Some(s) => s,
                None => {
                    return Err(Error::FromUtf8);
                },
            },
            TextEncoding::UTF16LE => match crate::util::from_utf16le(&raw_bytes) {
                Ok(s) => s,
                Err(e) => {
                    return Err(Error::Util(e));
                },
            },
        };
        let text = PmxText { raw_bytes, encoding, decoded };
        proof {
            let t = spec_parse_text(b, encoding)->Ok_0.0;
            assert(text@ =~= t);
        }
        Ok(text)
    }
}

/// Whether bit `bit` of `raw` is set.
pub open spec fn spec_bit_set(raw: u8, bit: u8) -> bool {
    raw & (1u8 << bit) != 0
}

/// One byte read as eight independent boolean flags, bit 0 first.
#[derive(Debug, Clone, Copy, PartialEq, Eq, Structural)]
pub struct Flag {
    raw: u8,
}

impl Flag {
    /// The stored byte.
    pub closed spec fn spec_raw(self) -> u8 {
        self.raw
    }

    /// The state of bit `bit`, which must be 0-7.
    pub fn get_state(&self, bit: u8) -> (r: bool)
        requires
            bit < 8,
        ensures
            r == spec_bit_set(self.spec_raw(), bit),
    {
        self.raw & (1u8 << bit) != 0
    }

    /// The state of bit `bit`, or nothing when `bit` is out of the 0-7 range.
    pub fn try_get_state(&self, bit: u8) -> (r: Option<bool>)
        ensures
            bit < 8 ==> r == Some(spec_bit_set(self.spec_raw(), bit)),
            bit >= 8 ==> r is None,
    {
        if bit >= 8 {
            return None;
        }
        Some(self.raw & (1u8 << bit) != 0)
    }

    /// Reads one flag byte.
    pub fn parse(cur: &mut ByteCursor) -> (r: Result<Flag, Error>)
        requires
            old(cur).wf(),
        ensures
            final(cur).wf(),
            old(cur).remaining().len() >= 1 ==> {
                &&& r matches Ok(f) && f.spec_raw() == old(cur).remaining()[0]
                &&& final(cur).remaining() == old(cur).remaining().skip(1)
            },
            old(cur).remaining().len() == 0 ==> r == Err::<Flag, Error>(
                Error::UnexpectedEnd,
            ),
    {
        match cur.read_byte() {
            Some(b) => Ok(Flag { raw: b }),
            None => Err(Error::UnexpectedEnd),
        }
    }
}

/// The text encoding declared once in the header and applied to every text
/// of the file.
#[derive(Debug, Clone, Copy, PartialEq, Eq, Structural, Hash)]
pub enum TextEncoding {
    UTF16LE,
    UTF8,
}

impl TextEncoding {
    /// Decodes the header's encoding byte: 0 is UTF-16LE, 1 is UTF-8, and
    /// every other value is rejected.
    pub fn from_byte(value: u8) -> (r: Result<TextEncoding, Error>)
        ensures
            value == 0 ==> r == Ok::<TextEncoding, Error>(TextEncoding::UTF16LE),
            value == 1 ==> r == Ok::<TextEncoding, Error>(TextEncoding::UTF8),
            value >= 2 ==> r == Err::<TextEncoding, Error>(Error::InvalidTextEncoding),
    {
        match value {
            0 => Ok(TextEncoding::UTF16LE),
            1 => Ok(TextEncoding::UTF8),
            _ => Err(Error::InvalidTextEncoding),
        }
    }
}

/// The on-disk byte width of an index, declared per reference kind by the
/// header.
#[derive(Debug, Clone, Copy, PartialEq, Eq, Structural)]
pub enum IndexSize {
    Size1,
    Size2,
    Size4,
}

impl IndexSize {
    /// The width in bytes: 1, 2 or 4.
    pub open spec fn spec_width(self) -> int {
        match self {
            IndexSize::Size1 => 1,
            IndexSize::Size2 => 2,
            IndexSize::Size4 => 4,
        }
    }

    /// The width in bytes: 1, 2 or 4.
    pub fn width(self) -> (w: usize)
        ensures
            w == self.spec_width(),
    {
        match self {
            IndexSize::Size1 => 1,
            IndexSize::Size2 => 2,
            IndexSize::Size4 => 4,
        }
    }

    /// Decodes a width byte from the header's global parameter block; any
    /// value other than 1, 2 or 4 is a configuration error.
    pub fn from_byte(value: u8) -> (r: Result<IndexSize, Error>)
        ensures
            r == spec_index_size_of_byte(value),
    {
        match value {
            1 => Ok(IndexSize::Size1),
            2 => Ok(IndexSize::Size2),
            4 => Ok(IndexSize::Size4),
            _ => Err(Error::IndexSizeMismatch),
        }
    }
}

/// The index width named by a header byte, or the configuration error.
pub open spec fn spec_index_size_of_byte(value: u8) -> Result<IndexSize, Error> {
    if value == 1 {
        Ok(IndexSize::Size1)
    } else if value == 2 {
        Ok(IndexSize::Size2)
    } else if value == 4 {
        Ok(IndexSize::Size4)
    } else {
        Err(Error::IndexSizeMismatch)
    }
}

/// The signed 8-bit value whose two's-complement pattern is `b`.
pub open spec fn spec_i8_of_u8(b: u8) -> i8 {
    if b < 0x80 {
        b as i8
    } else {
        (b - 0x100) as i8
    }
}

/// The signed 16-bit value whose two's-complement pattern is `v`.
pub open spec fn spec_i16_of_u16(v: u16) -> i16 {
    if v < 0x8000 {
        v as i16
    } else {
        (v - 0x1_0000) as i16
    }
}

/// The normalized value of an index stored in the first `size` bytes of
/// `b`: little-endian, sign-extended to 32 bits when signed, zero-extended
/// when unsigned. A 4-byte index is reinterpreted as signed either way, so
/// the pattern 0xFFFFFFFF reads as -1 even for an unsigned reference.
pub open spec fn spec_index_value(b: Seq<u8>, size: IndexSize, sign: bool) -> i32
    recommends
        b.len() >= size.spec_width(),
{
    match size {
        IndexSize::Size1 => if sign {
            spec_i8_of_u8(b[0]) as i32
        } else {
            b[0] as i32
        },
        IndexSize::Size2 => {
            let v = spec_u16_from_le_bytes(b.take(2));
            if sign {
                spec_i16_of_u16(v) as i32
            } else {
                v as i32
            }
        },
        IndexSize::Size4 => spec_i32_of_u32(spec_u32_from_le_bytes(b.take(4))),
    }
}

/// What parsing one index from the front of `b` yields: the index and the
/// count of bytes consumed, or exhaustion.
pub open spec fn spec_parse_index(b: Seq<u8>, size: IndexSize, sign: bool) -> Result<
    (Index, int),
    Error,
> {
    if b.len() >= size.spec_width() {
        Ok((Index { size, sign, value: spec_index_value(b, size, sign) }, size.spec_width()))
    } else {
        Err(Error::UnexpectedEnd)
    }
}

/// A normalized reference into another section: the declared on-disk width,
/// the signedness the referencing section asked for, and the decoded 32-bit
/// value. The value -1 is the nil sentinel for "no reference".
#[derive(Debug, Clone, Copy, PartialEq, Eq, Structural)]
pub struct Index {
    pub size: IndexSize,
    pub sign: bool,
    pub value: i32,
}

impl Index {
    /// Reads one index of the given width: little-endian, sign-extended
    /// when `sign` is set, zero-extended otherwise (4-byte indices are
    /// always reinterpreted as signed 32-bit).
    pub fn parse(cur: &mut ByteCursor, size: IndexSize, sign: bool) -> (r: Result<Index, Error>)
        requires
            old(cur).wf(),
        ensures
            final(cur).wf(),
            spec_parse_index(old(cur).remaining(), size, sign) matches Ok((idx, n)) ==> {
                &&& r == Ok::<Index, Error>(idx)
                &&& final(cur).remaining() == old(cur).remaining().skip(n)
            },
            spec_parse_index(old(cur).remaining(), size, sign) matches Err(e) ==> r
                == Err::<Index, Error>(e),
    {
        match size {
            IndexSize::Size1 => {
                match cur.read_byte() {
                    Some(b) => {
                        let value: i32 = if sign {
                            if b >= 0x80 {
                                (b as i32) - 0x100
                            } else {
                                b as i32
                            }
                        } else {
                            b as i32
                        };
                        Ok(Index { size, sign, value })
                    },
                    None => Err(Error::UnexpectedEnd),
                }
            },
            IndexSize::Size2 => {
                match cur.read_bytes(2) {
                    Some(bytes) => {
                        let v = u16_from_le_bytes(bytes.as_slice());
                        let value: i32 = if sign {
                            if v >= 0x8000 {
                                (v as i32) - 0x1_0000
                            } else {
                                v as i32
                            }
                        } else {
                            v as i32
                        };
                        Ok(Index { size, sign, value })
                    },
                    None => Err(Error::UnexpectedEnd),
                }
            },
            IndexSize::Size4 => {
                match cur.read_i32_le() {
                    Some(v) => Ok(Index { size, sign, value: v }),
                    None => Err(Error::UnexpectedEnd),
                }
            },
        }
    }

    /// Whether this index is the nil sentinel -1, meaning "no reference".
    pub fn is_nil(&self) -> (r: bool)
        ensures
            r == (self.value == -1),
    {
        self.value == -1
    }
}

/// Whether `v` is representable by an index of the given width and
/// signedness. Any 32-bit value fits in a 4-byte index, whose stored
/// pattern is read back as signed either way.
pub open spec fn spec_index_in_range(v: i32, size: IndexSize, sign: bool) -> bool {
    match size {
        IndexSize::Size1 => if sign {
            -0x80 <= v < 0x80
        } else {
            0 <= v < 0x100
        },
        IndexSize::Size2 => if sign {
            -0x8000 <= v < 0x8000
        } else {
            0 <= v < 0x10000
        },
        IndexSize::Size4 => true,
    }
}

/// The little-endian bytes that store `v` at the given width: the
/// two's-complement pattern of `v`, truncated to the width.
pub open spec fn spec_index_to_bytes(v: i32, size: IndexSize) -> Seq<u8>
    recommends
        spec_index_in_range(v, size, true) || spec_index_in_range(v, size, false),
{
    match size {
        IndexSize::Size1 => seq![
            if v >= 0 {
                v as u8
            } else {
                (v + 0x100) as u8
            },
        ],
        IndexSize::Size2 => spec_u16_to_le_bytes(
            if v >= 0 {
                v as u16
            } else {
                (v + 0x1_0000) as u16
            },
        ),
        IndexSize::Size4 => spec_u32_to_le_bytes(
            if v >= 0 {
                v as u32
            } else {
                (v + 0x1_0000_0000) as u32
            },
        ),
    }
}

/// Round trip of the index codec: for every width, signedness and
/// representable value, decoding an index written with that width and
/// signedness yields exactly the value written, consuming exactly the
/// width.
pub proof fn lemma_index_round_trip(v: i32, size: IndexSize, sign: bool)
    requires
        spec_index_in_range(v, size, sign),
    ensures
        spec_parse_index(spec_index_to_bytes(v, size), size, sign) == Ok::<(Index, int), Error>(
            (Index { size, sign, value: v }, size.spec_width()),
        ),
{
    let b = spec_index_to_bytes(v, size);
    match size {
        IndexSize::Size1 => {
        },
        IndexSize::Size2 => {
            let u: u16 = if v >= 0 {
                v as u16
            } else {
                (v + 0x1_0000) as u16
            };
            vstd::bytes::lemma_auto_spec_u16_to_from_le_bytes();
            assert(b.take(2) =~= b);
            assert(spec_u16_from_le_bytes(b) == u);
        },
        IndexSize::Size4 => {
            let u: u32 = if v >= 0 {
                v as u32
            } else {
                (v + 0x1_0000_0000) as u32
            };
            vstd::bytes::lemma_auto_spec_u32_to_from_le_bytes();
            assert(b.take(4) =~= b);
            assert(spec_u32_from_le_bytes(b) == u);
        },
    }
}

/// Round trip of the text codec for UTF-8: parsing a length-prefixed byte
/// run that decodes as UTF-8 to the characters `s` yields exactly `s`, the
/// raw bytes unchanged, consuming the prefix and the run.
pub proof fn lemma_utf8_text_round_trip(s: Seq<char>, body: Seq<u8>)
    requires
        utf8_decode(body) == Some(s),
        body.len() <= i32::MAX as int,
    ensures
        spec_parse_text(spec_u32_to_le_bytes(body.len() as u32) + body, TextEncoding::UTF8)
            == Ok::<(PmxTextView, int), Error>(
            (
                PmxTextView { raw: body, encoding: TextEncoding::UTF8, decoded: s },
                4 + body.len() as int,
            ),
        ),
{
    let prefix = spec_u32_to_le_bytes(body.len() as u32);
    let b = prefix + body;
    vstd::bytes::lemma_auto_spec_u32_to_from_le_bytes();
    assert(b.take(4) =~= prefix);
    assert(spec_i32_le(b) == body.len() as i32);
    assert(b.subrange(4, 4 + body.len() as int) =~= body);
}

/// The UTF-16LE byte run that stores the code units `units`: each unit as
/// two little-endian bytes, in order.
pub open spec fn spec_utf16le_bytes(units: Seq<u16>) -> Seq<u8> {
    Seq::new(
        (2 * units.len()) as nat,
        |i: int|
            if i % 2 == 0 {
                spec_u16_to_le_bytes(units[i / 2])[0]
            } else {
                spec_u16_to_le_bytes(units[i / 2])[1]
            },
    )
}

/// Round trip of the text codec for UTF-16LE: parsing a length-prefixed
/// little-endian byte run of code units that decode to the characters `s`
/// yields exactly `s`, consuming the prefix and the run.
pub proof fn lemma_utf16_text_round_trip(s: Seq<char>, units: Seq<u16>)
    requires
        crate::util::utf16_decode(units) == Some(s),
        2 * units.len() <= i32::MAX as int,
    ensures
        ({
            let body = spec_utf16le_bytes(units);
            spec_parse_text(spec_u32_to_le_bytes(body.len() as u32) + body, TextEncoding::UTF16LE)
                == Ok::<(PmxTextView, int), Error>(
                (
                    PmxTextView { raw: body, encoding: TextEncoding::UTF16LE, decoded: s },
                    4 + body.len() as int,
                ),
            )
        }),
{
    let body = spec_utf16le_bytes(units);
    let prefix = spec_u32_to_le_bytes(body.len() as u32);
    let b = prefix + body;
    vstd::bytes::lemma_auto_spec_u16_to_from_le_bytes();
    vstd::bytes::lemma_auto_spec_u32_to_from_le_bytes();
    assert(b.take(4) =~= prefix);
    assert(spec_i32_le(b) == body.len() as i32);
    assert(b.subrange(4, 4 + body.len() as int) =~= body);
    assert forall|i: int| 0 <= i < units.len() implies crate::util::spec_utf16_units(body)[i]
        == units[i] by {
        assert(body.subrange(2 * i, 2 * i + 2) =~= spec_u16_to_le_bytes(units[i]));
    }
    assert(crate::util::spec_utf16_units(body) =~= units);
}

} // verus!
