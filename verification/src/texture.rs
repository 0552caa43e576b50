//! The texture section: a count-prefixed run of texture path strings, each
//! a length-prefixed text in the header's encoding.

use vstd::prelude::*;

verus! {

use crate::cursor::{ByteCursor, spec_i32_le};
use crate::types::{PmxText, PmxTextView, TextEncoding, spec_parse_text};

/// Errors of the texture section decoder.
#[derive(Debug, Clone, Copy, PartialEq, Eq)]
pub enum Error {
    /// The 4-byte section count was negative.
    NegativeSize,
    /// A wire-level codec failed.
    Type(crate::types::Error),
    /// The byte source ended before the required bytes were available.
    UnexpectedEnd,
}

/// One texture record: a single path string (textures carry no localized
/// pair).
#[derive(Debug, PartialEq, Eq)]
pub struct Texture {
    path: PmxText,
}

impl View for Texture {
    type V = PmxTextView;

    closed spec fn view(&self) -> PmxTextView {
        self.path@
    }
}

impl DeepView for Texture {
    type V = PmxTextView;

    open spec fn deep_view(&self) -> PmxTextView {
        self@
    }
}

impl Texture {
    /// The texture's path string.
    pub fn path(&self) -> (r: &PmxText)
        ensures
            r@ == self@,
    {
        &self.path
    }

    /// Reads one texture record: a length-prefixed path in the given
    /// encoding.
    pub fn parse(cur: &mut ByteCursor, encoding: TextEncoding) -> (r: Result<Texture, Error>)
        requires
            old(cur).wf(),
        ensures
            final(cur).wf(),
            spec_parse_texture(old(cur).remaining(), encoding) matches Ok((t, n)) ==> {
                &&& r matches Ok(tex) && tex@ == t
                &&& final(cur).remaining() == old(cur).remaining().skip(n)
            },
            spec_parse_texture(old(cur).remaining(), encoding) matches Err(e) ==> r
                == Err::<Texture, Error>(e),
    {
        match PmxText::from_bytes(cur, encoding) {
            Ok(path) => Ok(Texture { path }),
            Err(e) => Err(Error::Type(e)),
        }
    }
}

/// What parsing one texture record from the front of `b` yields.
pub open spec fn spec_parse_texture(b: Seq<u8>, encoding: TextEncoding) -> Result<
    (PmxTextView, int),
    Error,
> {
    match spec_parse_text(b, encoding) {
        Err(e) => Err(Error::Type(e)),
        Ok((t, n)) => Ok((t, n)),
    }
}

/// What parsing exactly `k` texture records from the front of `b` yields.
pub open spec fn spec_parse_texture_records(b: Seq<u8>, k: int, encoding: TextEncoding) -> Result<
    (Seq<PmxTextView>, int),
    Error,
>
    decreases k,
{
    if k <= 0 {
        Ok((Seq::empty(), 0))
    } else {
        match spec_parse_texture(b, encoding) {
            Err(e) => Err(e),
            Ok((t, n)) => match spec_parse_texture_records(b.skip(n), k - 1, encoding) {
                Err(e) => Err(e),
                Ok((rest, m)) => Ok((seq![t] + rest, n + m)),
            },
        }
    }
}

/// A successful run of records consumes between 0 and all of `b`.
proof fn lemma_texture_records_bounds(b: Seq<u8>, k: int, encoding: TextEncoding)
    requires
        spec_parse_texture_records(b, k, encoding) is Ok,
    ensures
        0 <= spec_parse_texture_records(b, k, encoding)->Ok_0.1 <= b.len(),
    decreases k,
{
    if k > 0 {
        let (t0, n0) = spec_parse_texture(b, encoding)->Ok_0;
        lemma_texture_records_bounds(b.skip(n0), k - 1, encoding);
    }
}

/// Parsing `i + m` records is parsing `i`, then `m` more from where the
/// first `i` stopped.
proof fn lemma_texture_records_split(b: Seq<u8>, i: int, m: int, encoding: TextEncoding)
    requires
        0 <= i,
        0 <= m,
        spec_parse_texture_records(b, i, encoding) is Ok,
    ensures
        ({
            let pre = spec_parse_texture_records(b, i, encoding)->Ok_0;
            spec_parse_texture_records(b, i + m, encoding) == match spec_parse_texture_records(
                b.skip(pre.1),
                m,
                encoding,
            ) {
                Err(e) => Err(e),
                Ok((rest, n)) => Ok((pre.0 + rest, pre.1 + n)),
            }
        }),
    decreases i,
{
    let pre = spec_parse_texture_records(b, i, encoding)->Ok_0;
    if i == 0 {
        assert(b.skip(0) =~= b);
        match spec_parse_texture_records(b, m, encoding) {
            Err(e) => {},
            Ok((rest, n)) => {
                assert(pre.0 + rest =~= rest);
            },
        }
    } else {
        let (t0, n0) = spec_parse_texture(b, encoding)->Ok_0;
        let tail = spec_parse_texture_records(b.skip(n0), i - 1, encoding);
        let pre1 = tail->Ok_0;
        lemma_texture_records_split(b.skip(n0), i - 1, m, encoding);
        lemma_texture_records_bounds(b.skip(n0), i - 1, encoding);
        assert(b.skip(n0).skip(pre1.1) =~= b.skip(n0 + pre1.1));
        match spec_parse_texture_records(b.skip(pre.1), m, encoding) {
            Err(e) => {},
            Ok((rest, n)) => {
                assert(seq![t0] + (pre1.0 + rest) =~= (seq![t0] + pre1.0) + rest);
            },
        }
    }
}

/// A successful texture section consumes between 4 bytes and all of `b`.
pub(crate) proof fn lemma_parse_textures_bounds(b: Seq<u8>, encoding: TextEncoding)
    requires
        spec_parse_textures(b, encoding) is Ok,
    ensures
        4 <= spec_parse_textures(b, encoding)->Ok_0.1 <= b.len(),
{
    let count = spec_i32_le(b) as int;
    lemma_texture_records_bounds(b.skip(4), count, encoding);
}

/// What parsing the whole texture section from the front of `b` yields: a
/// 4-byte little-endian signed count, which must be non-negative, then
/// exactly that many records.
pub open spec fn spec_parse_textures(b: Seq<u8>, encoding: TextEncoding) -> Result<
    (Seq<PmxTextView>, int),
    Error,
> {
    if b.len() < 4 {
        Err(Error::UnexpectedEnd)
    } else {
        let count = spec_i32_le(b) as int;
        if count < 0 {
            Err(Error::NegativeSize)
        } else {
            match spec_parse_texture_records(b.skip(4), count, encoding) {
                Err(e) => Err(e),
                Ok((records, n)) => Ok((records, 4 + n)),
            }
        }
    }
}

/// A 4-byte texture-section count that reads negative, such as the
/// pattern 0xFFFFFFFF (-1), is always rejected with the negative-size
/// error, whatever follows it.
pub proof fn lemma_negative_texture_count_rejected(b: Seq<u8>, encoding: TextEncoding)
    requires
        b.len() >= 4,
        spec_i32_le(b) < 0,
    ensures
        spec_parse_textures(b, encoding) == Err::<(Seq<PmxTextView>, int), Error>(
            Error::NegativeSize,
        ),
{
}

/// The texture section: every path string, in file order.
#[derive(Debug, PartialEq, Eq)]
pub struct Textures {
    inner: Vec<Texture>,
}

impl View for Textures {
    type V = Seq<PmxTextView>;

    closed spec fn view(&self) -> Seq<PmxTextView> {
        self.inner.deep_view()
    }
}

impl Textures {
    /// How many texture paths the section holds.
    pub fn len(&self) -> (r: usize)
        ensures
            r == self@.len(),
    {
        self.inner.len()
    }

    /// The records themselves, in file order.
    pub fn textures(&self) -> (r: &Vec<Texture>)
        ensures
            r.deep_view() == self@,
    {
        &self.inner
    }

    /// Reads the texture section: a non-negative 4-byte count, then that
    /// many length-prefixed paths in the given encoding.
    pub fn parse(cur: &mut ByteCursor, encoding: TextEncoding) -> (r: Result<Textures, Error>)
        requires
            old(cur).wf(),
        ensures
            final(cur).wf(),
            spec_parse_textures(old(cur).remaining(), encoding) matches Ok((records, n)) ==> {
                &&& r matches Ok(t) && t@ == records
                &&& final(cur).remaining() == old(cur).remaining().skip(n)
            },
            spec_parse_textures(old(cur).remaining(), encoding) matches Err(e) ==> r
                == Err::<Textures, Error>(e),
    {
        let size = match cur.read_i32_le() {
            Some(v) => v,
            None => {
                return Err(Error::UnexpectedEnd);
            },
        };
        if size < 0 {
            return Err(Error::NegativeSize);
        }
        let count = size as usize;
        let ghost b = cur.remaining();
        let mut inner: Vec<Texture> = Vec::new();
        let ghost mut consumed: int = 0;
        proof {
            assert(inner.deep_view() =~= Seq::<PmxTextView>::empty());
        }
        let mut k: usize = 0;
        while k < count
            invariant
                cur.wf(),
                k <= count,
                b == old(cur).remaining().skip(4),
                count == spec_i32_le(old(cur).remaining()) as int,
                old(cur).remaining().len() >= 4,
                spec_parse_texture_records(b, k as int, encoding) == Ok::<_, Error>(
                    (inner.deep_view(), consumed),
                ),
                cur.remaining() == b.skip(consumed),
            decreases count - k,
        {
            let ghost pre = spec_parse_texture_records(b, k as int, encoding)->Ok_0;
            proof {
                lemma_texture_records_split(b, k as int, count - k, encoding);
            }
            let tex = match Texture::parse(cur, encoding) {
                Ok(t) => t,
                Err(e) => {
                    proof {
                        let brem = b.skip(consumed);
                        assert(spec_parse_texture_records(brem, count - k, encoding)
                            == Err::<(Seq<PmxTextView>, int), Error>(e));
                    }
                    return Err(e);
                },
            };
            let ghost n = spec_parse_texture(b.skip(consumed), encoding)->Ok_0.1;
            inner.push(tex);
            proof {
                let brem = b.skip(consumed);
                assert(spec_parse_texture_records(brem.skip(n), 0, encoding) == Ok::<
                    _,
                    Error,
                >((Seq::<PmxTextView>::empty(), 0int)));
                assert(seq![tex@] + Seq::<PmxTextView>::empty() =~= seq![tex@]);
                assert(spec_parse_texture_records(brem, 1, encoding) == Ok::<_, Error>(
                    (seq![tex@], n),
                ));
                lemma_texture_records_split(b, k as int, 1, encoding);
                assert(inner.deep_view() =~= pre.0 + seq![tex@]);
                assert(spec_parse_texture_records(b, k + 1, encoding) == Ok::<_, Error>(
                    (inner.deep_view(), consumed + n),
                ));
                lemma_texture_records_bounds(b, k as int, encoding);
                lemma_texture_records_bounds(b, k + 1, encoding);
                assert(0 <= n <= brem.len());
                assert(brem.skip(n) =~= b.skip(consumed + n));
                consumed = consumed + n;
            }
            k = k + 1;
        }
        let t = Textures { inner };
        proof {
            lemma_texture_records_bounds(b, count as int, encoding);
            assert(b.skip(consumed) =~= old(cur).remaining().skip(4 + consumed));
        }
        Ok(t)
    }
}

} // verus!
