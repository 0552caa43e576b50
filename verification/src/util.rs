//! UTF-16 little-endian text decoding.

use vstd::prelude::*;

verus! {

use vstd::bytes::{spec_u16_from_le_bytes, u16_from_le_bytes};

/// Errors of the UTF-16LE decoder.
#[derive(Debug, Clone, Copy, PartialEq, Eq)]
pub enum Error {
    /// The byte run had odd length, so it holds no whole code units.
    Utf16LeError,
    /// The code units held an unpaired surrogate.
    FromUtf16Error,
}

/// The characters that the UTF-16 code units `units` decode to, or nothing
/// when a surrogate is unpaired. Named here and pinned down only by the
/// contract of [`utf16_to_string`].
pub uninterp spec fn utf16_decode(units: Seq<u16>) -> Option<Seq<char>>;

/// The 16-bit code units stored little-endian in `b`, two bytes each.
pub open spec fn spec_utf16_units(b: Seq<u8>) -> Seq<u16> {
    Seq::new((b.len() / 2) as nat, |i: int| spec_u16_from_le_bytes(b.subrange(2 * i, 2 * i + 2)))
}

/// What decoding a UTF-16LE byte run yields: its characters, an odd-length
/// error, or a surrogate-pairing error.
pub open spec fn spec_from_utf16le(b: Seq<u8>) -> Result<Seq<char>, Error> {
    if b.len() % 2 != 0 {
        Err(Error::Utf16LeError)
    } else {
        match utf16_decode(spec_utf16_units(b)) {
            Some(chars) => Ok(chars),
            None => Err(Error::FromUtf16Error),
        }
    }
}

/// Relies on `String::from_utf16`: it returns `Ok` exactly when the code
/// units are well-paired UTF-16, and the characters of the result are a
/// function of the code units alone.
#[verifier::external_body]
fn utf16_to_string(units: &Vec<u16>) -> (r: Option<String>)
    ensures
        r is Some <==> utf16_decode(units@) is Some,
        r matches Some(s) ==> utf16_decode(units@) == Some(s@),
{
    String::from_utf16(units.as_slice()).ok()
}

/// Decodes a UTF-16 little-endian byte run to a string: the byte length
/// must be even, and every code unit must pair into a valid code point.
pub fn from_utf16le(bytes: &Vec<u8>) -> (r: Result<String, Error>)
    ensures
        spec_from_utf16le(bytes@) matches Ok(chars) ==> r matches Ok(s) && s@ == chars,
        spec_from_utf16le(bytes@) matches Err(e) ==> r == Err::<String, Error>(e),
{
    if bytes.len() % 2 != 0 {
        return Err(Error::Utf16LeError);
    }
    let len = bytes.len();
    let n = len / 2;
    let mut units: Vec<u16> = Vec::new();
    let mut i: usize = 0;
    while i < n
        invariant
            i <= n,
            len == bytes@.len(),
            n == bytes@.len() / 2,
            bytes@.len() % 2 == 0,
            units@ == spec_utf16_units(bytes@).take(i as int),
        decreases n - i,
    {
        let lo = bytes[2 * i];
        let hi = bytes[2 * i + 1];
        let pair: [u8; 2] = [lo, hi];
        let u = u16_from_le_bytes(pair.as_slice());
        proof {
            assert(pair@ =~= bytes@.subrange(2 * (i as int), 2 * (i as int) + 2));
        }
        units.push(u);
        proof {
            assert(units@ =~= spec_utf16_units(bytes@).take(i + 1));
        }
        i = i + 1;
    }
    proof {
        assert(units@ =~= spec_utf16_units(bytes@));
    }
    match utf16_to_string(&units) {
        Some(s) => Ok(s),
        None => Err(Error::FromUtf16Error),
    }
}

} // verus!
