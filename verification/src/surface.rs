//! The surface section: a count-prefixed run of triangle-corner vertex
//! indices. Grouping indices into per-triangle triples is left to the
//! caller.

use vstd::prelude::*;

verus! {

use crate::cursor::{ByteCursor, spec_i32_le};
use crate::types::{Index, spec_index_size_of_byte, spec_parse_index};

/// Errors of the surface section decoder.
#[derive(Debug, Clone, Copy, PartialEq, Eq)]
pub enum Error {
    /// The 4-byte section count was negative.
    NegativeSize,
    /// A wire-level codec failed.
    Type(crate::types::Error),
    /// The byte source ended before the required bytes were available.
    UnexpectedEnd,
}

/// One surface record: a single triangle-corner reference into the vertex
/// section, read with the header's vertex-index width, unsigned.
#[derive(Debug, Clone, Copy, PartialEq, Eq, Structural)]
pub struct Surface {
    pub index: Index,
}

impl DeepView for Surface {
    type V = Surface;

    open spec fn deep_view(&self) -> Surface {
        *self
    }
}

/// What parsing one surface record from the front of `b` yields: the
/// declared vertex-index width byte must name a width of 1, 2 or 4, and an
/// index of that width follows.
pub open spec fn spec_parse_surface(b: Seq<u8>, index_size: u8) -> Result<(Surface, int), Error> {
    match spec_index_size_of_byte(index_size) {
        Err(e) => Err(Error::Type(e)),
        Ok(size) => match spec_parse_index(b, size, false) {
            Err(e) => Err(Error::Type(e)),
            Ok((idx, n)) => Ok((Surface { index: idx }, n)),
        },
    }
}

/// What parsing exactly `k` surface records from the front of `b` yields.
pub open spec fn spec_parse_surface_records(b: Seq<u8>, k: int, index_size: u8) -> Result<
    (Seq<Surface>, int),
    Error,
>
    decreases k,
{
    if k <= 0 {
        Ok((Seq::empty(), 0))
    } else {
        match spec_parse_surface(b, index_size) {
            Err(e) => Err(e),
            Ok((s, n)) => match spec_parse_surface_records(b.skip(n), k - 1, index_size) {
                Err(e) => Err(e),
                Ok((rest, m)) => Ok((seq![s] + rest, n + m)),
            },
        }
    }
}

/// A successful run of records consumes between 0 and all of `b`.
proof fn lemma_surface_records_bounds(b: Seq<u8>, k: int, index_size: u8)
    requires
        spec_parse_surface_records(b, k, index_size) is Ok,
    ensures
        0 <= spec_parse_surface_records(b, k, index_size)->Ok_0.1 <= b.len(),
    decreases k,
{
    if k > 0 {
        let (s0, n0) = spec_parse_surface(b, index_size)->Ok_0;
        lemma_surface_records_bounds(b.skip(n0), k - 1, index_size);
    }
}

/// Parsing `i + m` records is parsing `i`, then `m` more from where the
/// first `i` stopped.
proof fn lemma_surface_records_split(b: Seq<u8>, i: int, m: int, index_size: u8)
    requires
        0 <= i,
        0 <= m,
        spec_parse_surface_records(b, i, index_size) is Ok,
    ensures
        ({
            let pre = spec_parse_surface_records(b, i, index_size)->Ok_0;
            spec_parse_surface_records(b, i + m, index_size) == match spec_parse_surface_records(
                b.skip(pre.1),
                m,
                index_size,
            ) {
                Err(e) => Err(e),
                Ok((rest, n)) => Ok((pre.0 + rest, pre.1 + n)),
            }
        }),
    decreases i,
{
    let pre = spec_parse_surface_records(b, i, index_size)->Ok_0;
    if i == 0 {
        assert(b.skip(0) =~= b);
        match spec_parse_surface_records(b, m, index_size) {
            Err(e) => {},
            Ok((rest, n)) => {
                assert(pre.0 + rest =~= rest);
            },
        }
    } else {
        let (s0, n0) = spec_parse_surface(b, index_size)->Ok_0;
        let tail = spec_parse_surface_records(b.skip(n0), i - 1, index_size);
        let pre1 = tail->Ok_0;
        lemma_surface_records_split(b.skip(n0), i - 1, m, index_size);
        lemma_surface_records_bounds(b.skip(n0), i - 1, index_size);
        assert(b.skip(n0).skip(pre1.1) =~= b.skip(n0 + pre1.1));
        match spec_parse_surface_records(b.skip(pre.1), m, index_size) {
            Err(e) => {},
            Ok((rest, n)) => {
                assert(seq![s0] + (pre1.0 + rest) =~= (seq![s0] + pre1.0) + rest);
            },
        }
    }
}

/// A successful surface section consumes between 4 bytes and all of `b`.
pub(crate) proof fn lemma_parse_surfaces_bounds(b: Seq<u8>, index_size: u8)
    requires
        spec_parse_surfaces(b, index_size) is Ok,
    ensures
        4 <= spec_parse_surfaces(b, index_size)->Ok_0.1 <= b.len(),
{
    let count = spec_i32_le(b) as int;
    lemma_surface_records_bounds(b.skip(4), count, index_size);
}

/// What parsing the whole surface section from the front of `b` yields: a
/// 4-byte little-endian signed count, which must be non-negative, then
/// exactly that many records.
pub open spec fn spec_parse_surfaces(b: Seq<u8>, index_size: u8) -> Result<
    (Seq<Surface>, int),
    Error,
> {
    if b.len() < 4 {
        Err(Error::UnexpectedEnd)
    } else {
        let count = spec_i32_le(b) as int;
        if count < 0 {
            Err(Error::NegativeSize)
        } else {
            match spec_parse_surface_records(b.skip(4), count, index_size) {
                Err(e) => Err(e),
                Ok((records, n)) => Ok((records, 4 + n)),
            }
        }
    }
}

/// A 4-byte surface-section count that reads negative, such as the
/// pattern 0xFFFFFFFF (-1), is always rejected with the negative-size
/// error, whatever follows it.
pub proof fn lemma_negative_surface_count_rejected(b: Seq<u8>, index_size: u8)
    requires
        b.len() >= 4,
        spec_i32_le(b) < 0,
    ensures
        spec_parse_surfaces(b, index_size) == Err::<(Seq<Surface>, int), Error>(
            Error::NegativeSize,
        ),
{
}

/// The surface section: every triangle-corner index, in file order.
#[derive(Debug, PartialEq, Eq)]
pub struct Surfaces {
    inner: Vec<Surface>,
}

impl View for Surfaces {
    type V = Seq<Surface>;

    closed spec fn view(&self) -> Seq<Surface> {
        self.inner@
    }
}

impl Surfaces {
    /// How many triangle-corner indices the section holds.
    pub fn len(&self) -> (r: usize)
        ensures
            r == self@.len(),
    {
        self.inner.len()
    }

    /// The records themselves, in file order.
    pub fn surfaces(&self) -> (r: &Vec<Surface>)
        ensures
            r@ == self@,
    {
        &self.inner
    }

    /// Reads the surface section: a non-negative 4-byte count, then that
    /// many vertex indices of the declared width, unsigned.
    pub fn parse(cur: &mut ByteCursor, index_size: u8) -> (r: Result<Surfaces, Error>)
        requires
            old(cur).wf(),
        ensures
            final(cur).wf(),
            spec_parse_surfaces(old(cur).remaining(), index_size) matches Ok((records, n)) ==> {
                &&& r matches Ok(s) && s@ == records
                &&& final(cur).remaining() == old(cur).remaining().skip(n)
            },
            spec_parse_surfaces(old(cur).remaining(), index_size) matches Err(e) ==> r
                == Err::<Surfaces, Error>(e),
    {
        let size = match cur.read_i32_le() {
            Some(v) => v,
            None => {
                return Err(Error::UnexpectedEnd);
            },
        };
        if size < 0 {
            return Err(Error::NegativeSize);
        }
        let count = size as usize;
        let ghost b = cur.remaining();
        let mut inner: Vec<Surface> = Vec::new();
        let ghost mut consumed: int = 0;
        proof {
            assert(inner.deep_view() =~= Seq::<Surface>::empty());
        }
        let mut k: usize = 0;
        while k < count
            invariant
                cur.wf(),
                k <= count,
                b == old(cur).remaining().skip(4),
                count == spec_i32_le(old(cur).remaining()) as int,
                old(cur).remaining().len() >= 4,
                spec_parse_surface_records(b, k as int, index_size) == Ok::<_, Error>(
                    (inner.deep_view(), consumed),
                ),
                cur.remaining() == b.skip(consumed),
            decreases count - k,
        {
            let ghost pre = spec_parse_surface_records(b, k as int, index_size)->Ok_0;
            proof {
                lemma_surface_records_split(b, k as int, count - k, index_size);
            }
            let surf = match Surface::parse(cur, index_size) {
                Ok(s) => s,
                Err(e) => {
                    proof {
                        let brem = b.skip(consumed);
                        assert(spec_parse_surface_records(brem, count - k, index_size)
                            == Err::<(Seq<Surface>, int), Error>(e));
                    }
                    return Err(e);
                },
            };
            let ghost n = spec_parse_surface(b.skip(consumed), index_size)->Ok_0.1;
            inner.push(surf);
            proof {
                let brem = b.skip(consumed);
                assert(spec_parse_surface_records(brem.skip(n), 0, index_size) == Ok::<
                    _,
                    Error,
                >((Seq::<Surface>::empty(), 0int)));
                assert(seq![surf] + Seq::<Surface>::empty() =~= seq![surf]);
                assert(spec_parse_surface_records(brem, 1, index_size) == Ok::<_, Error>(
                    (seq![surf], n),
                ));
                lemma_surface_records_split(b, k as int, 1, index_size);
                assert(inner.deep_view() =~= pre.0 + seq![surf]);
                assert(spec_parse_surface_records(b, k + 1, index_size) == Ok::<_, Error>(
                    (inner.deep_view(), consumed + n),
                ));
                lemma_surface_records_bounds(b, k as int, index_size);
                lemma_surface_records_bounds(b, k + 1, index_size);
                assert(0 <= n <= brem.len());
                assert(brem.skip(n) =~= b.skip(consumed + n));
                consumed = consumed + n;
            }
            k = k + 1;
        }
        let s = Surfaces { inner };
        proof {
            assert(s@ =~= s.inner.deep_view());
            lemma_surface_records_bounds(b, count as int, index_size);
            assert(b.skip(consumed) =~= old(cur).remaining().skip(4 + consumed));
        }
        Ok(s)
    }
}

impl Surface {
    /// Reads one surface record: a single index of the declared width,
    /// unsigned.
    pub fn parse(cur: &mut ByteCursor, index_size: u8) -> (r: Result<Surface, Error>)
        requires
            old(cur).wf(),
        ensures
            final(cur).wf(),
            spec_parse_surface(old(cur).remaining(), index_size) matches Ok((s, n)) ==> {
                &&& r == Ok::<Surface, Error>(s)
                &&& final(cur).remaining() == old(cur).remaining().skip(n)
            },
            spec_parse_surface(old(cur).remaining(), index_size) matches Err(e) ==> r
                == Err::<Surface, Error>(e),
    {
        let size = match crate::types::IndexSize::from_byte(index_size) {
            Ok(s) => s,
            Err(e) => {
                return Err(Error::Type(e));
            },
        };
        match Index::parse(cur, size, false) {
            Ok(index) => Ok(Surface { index }),
            Err(e) => Err(Error::Type(e)),
        }
    }
}

} // verus!
