//! The vertex section: a count-prefixed run of vertex records, each holding
//! position, normal, UV, optional extra 4-float vectors, a tagged
//! bone-weight deformation record, and an edge scale.

use vstd::prelude::*;

verus! {

use crate::cursor::{ByteCursor, spec_i32_le};
use crate::types::{
    F32Bits,
    Index,
    IndexSize,
    Vec2Bits,
    Vec3Bits,
    Vec4Bits,
    spec_f32_at,
    spec_index_size_of_byte,
    spec_parse_index,
    spec_vec2_at,
    spec_vec3_at,
    spec_vec4_at,
};

/// Errors of the vertex section decoder.
#[derive(Debug, Clone, Copy, PartialEq, Eq)]
pub enum Error {
    /// A declared index width was none of 1, 2 or 4.
    IndexSizeMismatch,
    /// The byte source ended before the required bytes were available.
    UnexpectedEnd,
    /// The 4-byte section count was negative.
    NegativeSize,
    /// A weight-deform type tag was outside the known range 0-4.
    InvalidWeightDeformType,
    /// A wire-level codec failed.
    Type(crate::types::Error),
}

/// The bone-weight deformation attached to one vertex, selected by a 1-byte
/// type tag. Every contained index is read with the width and signedness the
/// vertex section supplies.
///
/// For the two-bone variants (`Bdef2`, `Sdef`) only one weight is stored on
/// disk; the companion bone's weight is one minus the stored weight by the
/// format's rule, so it is derived by consumers and never read from the
/// stream.
#[derive(Debug, Clone, Copy, PartialEq)]
#[allow(inconsistent_fields)]
pub enum WeightDeform {
    /// One bone, full weight.
    Bdef1 { index: Index },
    /// Two bones, linear blend; `weight` applies to the first bone.
    Bdef2 { indices: (Index, Index), weight: F32Bits },
    /// Four bones, linear blend; all four weights are stored independently
    /// and are not normalized by the decoder.
    Bdef4 { indices: (Index, Index, Index, Index), weights: (F32Bits, F32Bits, F32Bits, F32Bits) },
    /// Two bones, spherical blend, with three extra vectors kept in stored
    /// order (center, r0, r1).
    Sdef { indices: (Index, Index), weight: F32Bits, c: Vec3Bits, r0: Vec3Bits, r1: Vec3Bits },
    /// Four bones, dual-quaternion blend; the byte layout equals `Bdef4`.
    Qdef { indices: (Index, Index, Index, Index), weights: (F32Bits, F32Bits, F32Bits, F32Bits) },
}

/// What parsing two consecutive indices from the front of `b` yields.
pub open spec fn spec_parse_index2(b: Seq<u8>, size: IndexSize, sign: bool) -> Result<
    ((Index, Index), int),
    crate::types::Error,
> {
    match spec_parse_index(b, size, sign) {
        Err(e) => Err(e),
        Ok((i0, n0)) => match spec_parse_index(b.skip(n0), size, sign) {
            Err(e) => Err(e),
            Ok((i1, n1)) => Ok(((i0, i1), n0 + n1)),
        },
    }
}

/// What parsing four consecutive indices from the front of `b` yields.
pub open spec fn spec_parse_index4(b: Seq<u8>, size: IndexSize, sign: bool) -> Result<
    ((Index, Index, Index, Index), int),
    crate::types::Error,
> {
    match spec_parse_index2(b, size, sign) {
        Err(e) => Err(e),
        Ok(((i0, i1), n01)) => match spec_parse_index2(b.skip(n01), size, sign) {
            Err(e) => Err(e),
            Ok(((i2, i3), n23)) => Ok(((i0, i1, i2, i3), n01 + n23)),
        },
    }
}

/// What parsing one weight-deform payload from the front of `b` yields,
/// given the already-read type tag. Tags 0-4 select the five variants; any
/// other tag is rejected. For tags 1 and 3 exactly one weight is read; for
/// tags 2 and 4 four weights are read.
pub open spec fn spec_parse_weight_deform(b: Seq<u8>, typ: u8, size: IndexSize, sign: bool) -> Result<
    (WeightDeform, int),
    Error,
> {
    if typ == 0 {
        match spec_parse_index(b, size, sign) {
            Err(e) => Err(Error::Type(e)),
            Ok((index, n)) => Ok((WeightDeform::Bdef1 { index }, n)),
        }
    } else if typ == 1 {
        match spec_parse_index2(b, size, sign) {
            Err(e) => Err(Error::Type(e)),
            Ok((indices, n)) => if b.len() < n + 4 {
                Err(Error::UnexpectedEnd)
            } else {
                Ok((WeightDeform::Bdef2 { indices, weight: spec_f32_at(b, n) }, n + 4))
            },
        }
    } else if typ == 2 {
        match spec_parse_index4(b, size, sign) {
            Err(e) => Err(Error::Type(e)),
            Ok((indices, n)) => if b.len() < n + 16 {
                Err(Error::UnexpectedEnd)
            } else {
                let w = spec_vec4_at(b, n);
                Ok((WeightDeform::Bdef4 { indices, weights: (w.x, w.y, w.z, w.w) }, n + 16))
            },
        }
    } else if typ == 3 {
        match spec_parse_index2(b, size, sign) {
            Err(e) => Err(Error::Type(e)),
            Ok((indices, n)) => if b.len() < n + 40 {
                Err(Error::UnexpectedEnd)
            } else {
                Ok(
                    (
                        WeightDeform::Sdef {
                            indices,
                            weight: spec_f32_at(b, n),
                            c: spec_vec3_at(b, n + 4),
                            r0: spec_vec3_at(b, n + 16),
                            r1: spec_vec3_at(b, n + 28),
                        },
                        n + 40,
                    ),
                )
            },
        }
    } else if typ == 4 {
        match spec_parse_index4(b, size, sign) {
            Err(e) => Err(Error::Type(e)),
            Ok((indices, n)) => if b.len() < n + 16 {
                Err(Error::UnexpectedEnd)
            } else {
                let w = spec_vec4_at(b, n);
                Ok((WeightDeform::Qdef { indices, weights: (w.x, w.y, w.z, w.w) }, n + 16))
            },
        }
    } else {
        Err(Error::InvalidWeightDeformType)
    }
}

impl WeightDeform {
    /// Reads the payload of one weight-deform record, after its type tag
    /// has been read: tag 0 is one index; tag 1 two indices and one stored
    /// weight; tag 2 four indices and four weights; tag 3 two indices, one
    /// stored weight and three vectors; tag 4 four indices and four
    /// weights; every other tag fails.
    #[verifier::rlimit(60)]
    #[verifier::spinoff_prover]
    pub fn parse(cur: &mut ByteCursor, typ: u8, size: IndexSize, index_sign: bool) -> (r: Result<
        WeightDeform,
        Error,
    >)
        requires
            old(cur).wf(),
        ensures
            final(cur).wf(),
            spec_parse_weight_deform(old(cur).remaining(), typ, size, index_sign) matches Ok(
                (wd, n),
            ) ==> {
                &&& r == Ok::<WeightDeform, Error>(wd)
                &&& final(cur).remaining() == old(cur).remaining().skip(n)
            },
            spec_parse_weight_deform(old(cur).remaining(), typ, size, index_sign) matches Err(e)
                ==> r == Err::<WeightDeform, Error>(e),
    {
        let ghost b = old(cur).remaining();
        match typ {
            0 => {
                let index = match Index::parse(cur, size, index_sign) {
                    Ok(i) => i,
                    Err(e) => {
                        return Err(Error::Type(e));
                    },
                };
                Ok(WeightDeform::Bdef1 { index })
            },
            1 => {
                let (indices, _) = match Self::parse_index2(cur, size, index_sign) {
                    Ok(p) => p,
                    Err(e) => {
                        return Err(Error::Type(e));
                    },
                };
                let ghost n = spec_parse_index2(b, size, index_sign)->Ok_0.1;
                let weight = match F32Bits::parse(cur) {
                    Ok(w) => w,
                    Err(_) => {
                        return Err(Error::UnexpectedEnd);
                    },
                };
                proof {
                    assert(b.skip(n).subrange(0, 4) =~= b.subrange(n, n + 4));
                    assert(b.skip(n).skip(4) =~= b.skip(n + 4));
                }
                Ok(WeightDeform::Bdef2 { indices, weight })
            },
            2 => {
                let (indices, _) = match Self::parse_index4(cur, size, index_sign) {
                    Ok(p) => p,
                    Err(e) => {
                        return Err(Error::Type(e));
                    },
                };
                let ghost n = spec_parse_index4(b, size, index_sign)->Ok_0.1;
                let w = match Vec4Bits::parse(cur) {
                    Ok(w) => w,
                    Err(_) => {
                        return Err(Error::UnexpectedEnd);
                    },
                };
                proof {
                    assert(b.skip(n).subrange(0, 4) =~= b.subrange(n, n + 4));
                    assert(b.skip(n).subrange(4, 8) =~= b.subrange(n + 4, n + 8));
                    assert(b.skip(n).subrange(8, 12) =~= b.subrange(n + 8, n + 12));
                    assert(b.skip(n).subrange(12, 16) =~= b.subrange(n + 12, n + 16));
                    assert(b.skip(n).skip(16) =~= b.skip(n + 16));
                }
                Ok(WeightDeform::Bdef4 { indices, weights: (w.x, w.y, w.z, w.w) })
            },
            3 => {
                let (indices, _) = match Self::parse_index2(cur, size, index_sign) {
                    Ok(p) => p,
                    Err(e) => {
                        return Err(Error::Type(e));
                    },
                };
                let ghost n = spec_parse_index2(b, size, index_sign)->Ok_0.1;
                let weight = match F32Bits::parse(cur) {
                    Ok(w) => w,
                    Err(_) => {
                        return Err(Error::UnexpectedEnd);
                    },
                };
                proof {
                    assert(b.skip(n).subrange(0, 4) =~= b.subrange(n, n + 4));
                    assert(b.skip(n).skip(4) =~= b.skip(n + 4));
                }
                let c = match Vec3Bits::parse(cur) {
                    Ok(v) => v,
                    Err(_) => {
                        return Err(Error::UnexpectedEnd);
                    },
                };
                proof {
                    assert(b.skip(n + 4).subrange(0, 4) =~= b.subrange(n + 4, n + 8));
                    assert(b.skip(n + 4).subrange(4, 8) =~= b.subrange(n + 8, n + 12));
                    assert(b.skip(n + 4).subrange(8, 12) =~= b.subrange(n + 12, n + 16));
                    assert(b.skip(n + 4).skip(12) =~= b.skip(n + 16));
                }
                let r0 = match Vec3Bits::parse(cur) {
                    Ok(v) => v,
                    Err(_) => {
                        return Err(Error::UnexpectedEnd);
                    },
                };
                proof {
                    assert(b.skip(n + 16).subrange(0, 4) =~= b.subrange(n + 16, n + 20));
                    assert(b.skip(n + 16).subrange(4, 8) =~= b.subrange(n + 20, n + 24));
                    assert(b.skip(n + 16).subrange(8, 12) =~= b.subrange(n + 24, n + 28));
                    assert(b.skip(n + 16).skip(12) =~= b.skip(n + 28));
                }
                let r1 = match Vec3Bits::parse(cur) {
                    Ok(v) => v,
                    Err(_) => {
                        return Err(Error::UnexpectedEnd);
                    },
                };
                proof {
                    assert(b.skip(n + 28).subrange(0, 4) =~= b.subrange(n + 28, n + 32));
                    assert(b.skip(n + 28).subrange(4, 8) =~= b.subrange(n + 32, n + 36));
                    assert(b.skip(n + 28).subrange(8, 12) =~= b.subrange(n + 36, n + 40));
                    assert(b.skip(n + 28).skip(12) =~= b.skip(n + 40));
                }
                Ok(WeightDeform::Sdef { indices, weight, c, r0, r1 })
            },
            4 => {
                let (indices, _) = match Self::parse_index4(cur, size, index_sign) {
                    Ok(p) => p,
                    Err(e) => {
                        return Err(Error::Type(e));
                    },
                };
                let ghost n = spec_parse_index4(b, size, index_sign)->Ok_0.1;
                let w = match Vec4Bits::parse(cur) {
                    Ok(w) => w,
                    Err(_) => {
                        return Err(Error::UnexpectedEnd);
                    },
                };
                proof {
                    assert(b.skip(n).subrange(0, 4) =~= b.subrange(n, n + 4));
                    assert(b.skip(n).subrange(4, 8) =~= b.subrange(n + 4, n + 8));
                    assert(b.skip(n).subrange(8, 12) =~= b.subrange(n + 8, n + 12));
                    assert(b.skip(n).subrange(12, 16) =~= b.subrange(n + 12, n + 16));
                    assert(b.skip(n).skip(16) =~= b.skip(n + 16));
                }
                Ok(WeightDeform::Qdef { indices, weights: (w.x, w.y, w.z, w.w) })
            },
            _ => Err(Error::InvalidWeightDeformType),
        }
    }

    /// Reads two consecutive indices.
    fn parse_index2(cur: &mut ByteCursor, size: IndexSize, sign: bool) -> (r: Result<
        ((Index, Index), Ghost<int>),
        crate::types::Error,
    >)
        requires
            old(cur).wf(),
        ensures
            final(cur).wf(),
            spec_parse_index2(old(cur).remaining(), size, sign) matches Ok((p, n)) ==> {
                &&& r matches Ok((q, m)) && q == p && m@ == n
                &&& final(cur).remaining() == old(cur).remaining().skip(n)
            },
            spec_parse_index2(old(cur).remaining(), size, sign) matches Err(e) ==> r
                matches Err(e2) && e2 == e,
    {
        let i0 = match Index::parse(cur, size, sign) {
            Ok(i) => i,
            Err(e) => {
                return Err(e);
            },
        };
        let i1 = match Index::parse(cur, size, sign) {
            Ok(i) => i,
            Err(e) => {
                return Err(e);
            },
        };
        let ghost b = old(cur).remaining();
        let ghost n0 = spec_parse_index(b, size, sign)->Ok_0.1;
        let ghost n1 = spec_parse_index(b.skip(n0), size, sign)->Ok_0.1;
        proof {
            assert(b.skip(n0).skip(n1) =~= b.skip(n0 + n1));
        }
        Ok(((i0, i1), Ghost(n0 + n1)))
    }

    /// Reads four consecutive indices.
    fn parse_index4(cur: &mut ByteCursor, size: IndexSize, sign: bool) -> (r: Result<
        ((Index, Index, Index, Index), Ghost<int>),
        crate::types::Error,
    >)
        requires
            old(cur).wf(),
        ensures
            final(cur).wf(),
            spec_parse_index4(old(cur).remaining(), size, sign) matches Ok((p, n)) ==> {
                &&& r matches Ok((q, m)) && q == p && m@ == n
                &&& final(cur).remaining() == old(cur).remaining().skip(n)
            },
            spec_parse_index4(old(cur).remaining(), size, sign) matches Err(e) ==> r
                matches Err(e2) && e2 == e,
    {
        let ghost b = old(cur).remaining();
        let (p01, n01) = match Self::parse_index2(cur, size, sign) {
            Ok(p) => p,
            Err(e) => {
                return Err(e);
            },
        };
        let (p23, n23) = match Self::parse_index2(cur, size, sign) {
            Ok(p) => p,
            Err(e) => {
                return Err(e);
            },
        };
        proof {
            assert(b.skip(n01@).skip(n23@) =~= b.skip(n01@ + n23@));
        }
        Ok(((p01.0, p01.1, p23.0, p23.1), Ghost(n01@ + n23@)))
    }
}

/// For a two-bone linear record (tag 1) exactly one weight is read from
/// the stream, directly after the two indices; the companion weight is
/// never read, and the payload ends right after the stored weight's four
/// bytes.
pub proof fn lemma_bdef2_stores_one_weight(b: Seq<u8>, size: IndexSize, sign: bool)
    requires
        spec_parse_weight_deform(b, 1, size, sign) is Ok,
    ensures
        ({
            let (wd, n) = spec_parse_weight_deform(b, 1, size, sign)->Ok_0;
            &&& n == 2 * size.spec_width() + 4
            &&& wd matches WeightDeform::Bdef2 { indices, weight } && weight == spec_f32_at(
                b,
                2 * size.spec_width(),
            )
        }),
{
}

/// For a two-bone spherical record (tag 3) exactly one weight is read from
/// the stream, directly after the two indices and before the three extra
/// vectors; the companion weight is never read.
pub proof fn lemma_sdef_stores_one_weight(b: Seq<u8>, size: IndexSize, sign: bool)
    requires
        spec_parse_weight_deform(b, 3, size, sign) is Ok,
    ensures
        ({
            let (wd, n) = spec_parse_weight_deform(b, 3, size, sign)->Ok_0;
            &&& n == 2 * size.spec_width() + 40
            &&& wd matches WeightDeform::Sdef { indices, weight, c, r0, r1 } && weight
                == spec_f32_at(b, 2 * size.spec_width())
        }),
{
}

/// A successful weight-deform payload consumes between 0 and all of `b`.
proof fn lemma_weight_deform_bounds(b: Seq<u8>, typ: u8, size: IndexSize, sign: bool)
    requires
        spec_parse_weight_deform(b, typ, size, sign) is Ok,
    ensures
        0 <= spec_parse_weight_deform(b, typ, size, sign)->Ok_0.1 <= b.len(),
{
}

/// The mathematical content of a [`Vertex`].
#[verifier::ext_equal]
pub ghost struct VertexView {
    pub pos: Vec3Bits,
    pub normal: Vec3Bits,
    pub uv: Vec2Bits,
    pub extra_vec4: Option<Seq<Vec4Bits>>,
    pub weight_deform: WeightDeform,
    pub edge_scale: F32Bits,
}

/// One vertex record: position, normal, UV, the extra 4-float vectors the
/// header asked for (present exactly when their declared count is nonzero),
/// the weight-deform record, and the edge scale.
#[derive(Debug, PartialEq)]
pub struct Vertex {
    pub pos: Vec3Bits,
    pub normal: Vec3Bits,
    pub uv: Vec2Bits,
    pub extra_vec4: Option<Vec<Vec4Bits>>,
    pub weight_deform: WeightDeform,
    pub edge_scale: F32Bits,
}

impl View for Vertex {
    type V = VertexView;

    open spec fn view(&self) -> VertexView {
        VertexView {
            pos: self.pos,
            normal: self.normal,
            uv: self.uv,
            extra_vec4: match self.extra_vec4 {
                Some(v) => Some(v@),
                None => None,
            },
            weight_deform: self.weight_deform,
            edge_scale: self.edge_scale,
        }
    }
}

impl DeepView for Vertex {
    type V = VertexView;

    open spec fn deep_view(&self) -> VertexView {
        self@
    }
}

/// What parsing one vertex record from the front of `b` yields: position,
/// normal and UV (32 bytes), then `extra` 16-byte vectors, then the 1-byte
/// weight-deform tag, whose payload is read with the width named by
/// `index_size`, unsigned, then the 4-byte edge scale.
pub open spec fn spec_parse_vertex(b: Seq<u8>, extra: u8, index_size: u8) -> Result<
    (VertexView, int),
    Error,
> {
    let extra_len = 16 * (extra as int);
    if b.len() < 32 {
        Err(Error::UnexpectedEnd)
    } else if b.len() < 32 + extra_len {
        Err(Error::UnexpectedEnd)
    } else if b.len() < 32 + extra_len + 1 {
        Err(Error::UnexpectedEnd)
    } else {
        let tag = b[32 + extra_len];
        match spec_index_size_of_byte(index_size) {
            Err(e) => Err(Error::Type(e)),
            Ok(size) => {
                let wd_start = 32 + extra_len + 1;
                match spec_parse_weight_deform(b.skip(wd_start), tag, size, false) {
                    Err(e) => Err(e),
                    Ok((wd, n)) => {
                        let es_at = wd_start + n;
                        if b.len() < es_at + 4 {
                            Err(Error::UnexpectedEnd)
                        } else {
                            Ok(
                                (
                                    VertexView {
                                        pos: spec_vec3_at(b, 0),
                                        normal: spec_vec3_at(b, 12),
                                        uv: spec_vec2_at(b, 24),
                                        extra_vec4: if extra == 0 {
                                            None
                                        } else {
                                            Some(
                                                Seq::new(
                                                    extra as nat,
                                                    |i: int| spec_vec4_at(b, 32 + 16 * i),
                                                ),
                                            )
                                        },
                                        weight_deform: wd,
                                        edge_scale: spec_f32_at(b, es_at),
                                    },
                                    es_at + 4,
                                ),
                            )
                        }
                    },
                }
            },
        }
    }
}

/// A successful vertex record consumes between 0 and all of `b`.
proof fn lemma_vertex_bounds(b: Seq<u8>, extra: u8, index_size: u8)
    requires
        spec_parse_vertex(b, extra, index_size) is Ok,
    ensures
        0 <= spec_parse_vertex(b, extra, index_size)->Ok_0.1 <= b.len(),
{
    let extra_len = 16 * (extra as int);
    let wd_start = 32 + extra_len + 1;
    let tag = b[32 + extra_len];
    let size = spec_index_size_of_byte(index_size)->Ok_0;
    lemma_weight_deform_bounds(b.skip(wd_start), tag, size, false);
}

impl Vertex {
    /// Reads one vertex record.
    #[verifier::rlimit(60)]
    #[verifier::spinoff_prover]
    pub fn parse(cur: &mut ByteCursor, extra_vec4_count: u8, index_size: u8) -> (r: Result<
        Vertex,
        Error,
    >)
        requires
            old(cur).wf(),
        ensures
            final(cur).wf(),
            spec_parse_vertex(old(cur).remaining(), extra_vec4_count, index_size) matches Ok(
                (v, n),
            ) ==> {
                &&& r matches Ok(vert) && vert@ == v
                &&& final(cur).remaining() == old(cur).remaining().skip(n)
            },
            spec_parse_vertex(old(cur).remaining(), extra_vec4_count, index_size) matches Err(e)
                ==> r == Err::<Vertex, Error>(e),
    {
        let ghost b = old(cur).remaining();
        let pos = match Vec3Bits::parse(cur) {
            Ok(v) => v,
            Err(_) => {
                return Err(Error::UnexpectedEnd);
            },
        };
        let normal = match Vec3Bits::parse(cur) {
            Ok(v) => v,
            Err(_) => {
                return Err(Error::UnexpectedEnd);
            },
        };
        proof {
            if b.len() >= 24 {
                crate::types::lemma_vec3_at_skip(b, 12, 0);
                assert(b.skip(12).skip(12) =~= b.skip(24));
            }
        }
        let uv = match Vec2Bits::parse(cur) {
            Ok(v) => v,
            Err(_) => {
                return Err(Error::UnexpectedEnd);
            },
        };
        proof {
            if b.len() >= 32 {
                crate::types::lemma_vec2_at_skip(b, 24, 0);
                assert(b.skip(24).skip(8) =~= b.skip(32));
            }
        }
        let ghost extra_len = 16 * (extra_vec4_count as int);
        let extra_vec4 = if extra_vec4_count != 0 {
            let mut vecs: Vec<Vec4Bits> = Vec::new();
            let count = extra_vec4_count as usize;
            proof {
                assert(vecs@ =~= Seq::new(0nat, |i: int| spec_vec4_at(b, 32 + 16 * i)).take(0));
            }
            let mut i: usize = 0;
            while i < count
                invariant
                    cur.wf(),
                    i <= count,
                    b == old(cur).remaining(),
                    count == extra_vec4_count as int,
                    extra_len == 16 * (count as int),
                    b.len() >= 32 + 16 * i,
                    cur.remaining() == b.skip(32 + 16 * (i as int)),
                    vecs@ =~= Seq::new(
                        count as nat,
                        |j: int| spec_vec4_at(b, 32 + 16 * j),
                    ).take(i as int),
                decreases count - i,
            {
                let vec = match Vec4Bits::parse(cur) {
                    Ok(v) => v,
                    Err(_) => {
                        proof {
                            assert(b.len() < 32 + 16 * (i as int) + 16);
                            assert(b.len() < 32 + extra_len);
                        }
                        return Err(Error::UnexpectedEnd);
                    },
                };
                proof {
                    crate::types::lemma_vec4_at_skip(b, 32 + 16 * (i as int), 0);
                    assert(b.skip(32 + 16 * (i as int)).skip(16) =~= b.skip(
                        32 + 16 * (i as int) + 16,
                    ));
                }
                vecs.push(vec);
                proof {
                    assert(vecs@ =~= Seq::new(
                        count as nat,
                        |j: int| spec_vec4_at(b, 32 + 16 * j),
                    ).take(i + 1));
                }
                i = i + 1;
            }
            Some(vecs)
        } else {
            None
        };
        let tag = match cur.read_byte() {
            Some(t) => t,
            None => {
                return Err(Error::UnexpectedEnd);
            },
        };
        proof {
            assert(b.skip(32 + extra_len)[0] == b[32 + extra_len]);
            assert(b.skip(32 + extra_len).skip(1) =~= b.skip(32 + extra_len + 1));
        }
        let size = match IndexSize::from_byte(index_size) {
            Ok(s) => s,
            Err(e) => {
                return Err(Error::Type(e));
            },
        };
        let ghost wd_start = 32 + extra_len + 1;
        let weight_deform = match WeightDeform::parse(cur, tag, size, false) {
            Ok(wd) => wd,
            Err(e) => {
                return Err(e);
            },
        };
        let ghost n = spec_parse_weight_deform(b.skip(wd_start), tag, size, false)->Ok_0.1;
        proof {
            lemma_weight_deform_bounds(b.skip(wd_start), tag, size, false);
            assert(b.skip(wd_start).skip(n) =~= b.skip(wd_start + n));
        }
        let edge_scale = match F32Bits::parse(cur) {
            Ok(v) => v,
            Err(_) => {
                return Err(Error::UnexpectedEnd);
            },
        };
        proof {
            crate::types::lemma_f32_at_skip(b, wd_start + n, 0);
            assert(b.skip(wd_start + n).skip(4) =~= b.skip(wd_start + n + 4));
        }
        let vert = Vertex { pos, normal, uv, extra_vec4, weight_deform, edge_scale };
        proof {
            let v = spec_parse_vertex(b, extra_vec4_count, index_size)->Ok_0.0;
            assert(vert@ =~= v);
        }
        Ok(vert)
    }
}

/// A 4-byte vertex-section count that reads negative, such as the
/// pattern 0xFFFFFFFF (-1), is always rejected with the negative-size
/// error, whatever follows it.
pub proof fn lemma_negative_vertex_count_rejected(b: Seq<u8>, extra: u8, index_size: u8)
    requires
        b.len() >= 4,
        spec_i32_le(b) < 0,
    ensures
        spec_parse_vertices(b, extra, index_size) == Err::<(Seq<VertexView>, int), Error>(
            Error::NegativeSize,
        ),
{
}

/// What parsing exactly `k` vertex records from the front of `b` yields.
pub open spec fn spec_parse_vertex_records(b: Seq<u8>, k: int, extra: u8, index_size: u8) -> Result<
    (Seq<VertexView>, int),
    Error,
>
    decreases k,
{
    if k <= 0 {
        Ok((Seq::empty(), 0))
    } else {
        match spec_parse_vertex(b, extra, index_size) {
            Err(e) => Err(e),
            Ok((v, n)) => match spec_parse_vertex_records(b.skip(n), k - 1, extra, index_size) {
                Err(e) => Err(e),
                Ok((rest, m)) => Ok((seq![v] + rest, n + m)),
            },
        }
    }
}

/// A successful run of records consumes between 0 and all of `b`.
proof fn lemma_vertex_records_bounds(b: Seq<u8>, k: int, extra: u8, index_size: u8)
    requires
        spec_parse_vertex_records(b, k, extra, index_size) is Ok,
    ensures
        0 <= spec_parse_vertex_records(b, k, extra, index_size)->Ok_0.1 <= b.len(),
    decreases k,
{
    if k > 0 {
        let (v0, n0) = spec_parse_vertex(b, extra, index_size)->Ok_0;
        lemma_vertex_bounds(b, extra, index_size);
        lemma_vertex_records_bounds(b.skip(n0), k - 1, extra, index_size);
    }
}

/// Parsing `i + m` records is parsing `i`, then `m` more from where the
/// first `i` stopped.
proof fn lemma_vertex_records_split(b: Seq<u8>, i: int, m: int, extra: u8, index_size: u8)
    requires
        0 <= i,
        0 <= m,
        spec_parse_vertex_records(b, i, extra, index_size) is Ok,
    ensures
        ({
            let pre = spec_parse_vertex_records(b, i, extra, index_size)->Ok_0;
            spec_parse_vertex_records(b, i + m, extra, index_size)
                == match spec_parse_vertex_records(b.skip(pre.1), m, extra, index_size) {
                Err(e) => Err(e),
                Ok((rest, n)) => Ok((pre.0 + rest, pre.1 + n)),
            }
        }),
    decreases i,
{
    let pre = spec_parse_vertex_records(b, i, extra, index_size)->Ok_0;
    if i == 0 {
        assert(b.skip(0) =~= b);
        match spec_parse_vertex_records(b, m, extra, index_size) {
            Err(e) => {},
            Ok((rest, n)) => {
                assert(pre.0 + rest =~= rest);
            },
        }
    } else {
        let (v0, n0) = spec_parse_vertex(b, extra, index_size)->Ok_0;
        let tail = spec_parse_vertex_records(b.skip(n0), i - 1, extra, index_size);
        let pre1 = tail->Ok_0;
        lemma_vertex_records_split(b.skip(n0), i - 1, m, extra, index_size);
        lemma_vertex_records_bounds(b.skip(n0), i - 1, extra, index_size);
        assert(b.skip(n0).skip(pre1.1) =~= b.skip(n0 + pre1.1));
        match spec_parse_vertex_records(b.skip(pre.1), m, extra, index_size) {
            Err(e) => {},
            Ok((rest, n)) => {
                assert(seq![v0] + (pre1.0 + rest) =~= (seq![v0] + pre1.0) + rest);
            },
        }
    }
}

/// A successful vertex section consumes between 4 bytes and all of `b`.
pub(crate) proof fn lemma_parse_vertices_bounds(b: Seq<u8>, extra: u8, index_size: u8)
    requires
        spec_parse_vertices(b, extra, index_size) is Ok,
    ensures
        4 <= spec_parse_vertices(b, extra, index_size)->Ok_0.1 <= b.len(),
{
    let count = spec_i32_le(b) as int;
    lemma_vertex_records_bounds(b.skip(4), count, extra, index_size);
}

/// What parsing the whole vertex section from the front of `b` yields: a
/// 4-byte little-endian signed count, which must be non-negative, then
/// exactly that many records.
pub open spec fn spec_parse_vertices(b: Seq<u8>, extra: u8, index_size: u8) -> Result<
    (Seq<VertexView>, int),
    Error,
> {
    if b.len() < 4 {
        Err(Error::UnexpectedEnd)
    } else {
        let count = spec_i32_le(b) as int;
        if count < 0 {
            Err(Error::NegativeSize)
        } else {
            match spec_parse_vertex_records(b.skip(4), count, extra, index_size) {
                Err(e) => Err(e),
                Ok((records, n)) => Ok((records, 4 + n)),
            }
        }
    }
}

/// The vertex section: every vertex record, in file order.
#[derive(Debug, PartialEq)]
pub struct Vertices {
    inner: Vec<Vertex>,
}

impl View for Vertices {
    type V = Seq<VertexView>;

    closed spec fn view(&self) -> Seq<VertexView> {
        self.inner.deep_view()
    }
}

impl Vertices {
    /// How many vertex records the section holds.
    pub fn len(&self) -> (r: usize)
        ensures
            r == self@.len(),
    {
        self.inner.len()
    }

    /// The records themselves, in file order.
    pub fn vertices(&self) -> (r: &Vec<Vertex>)
        ensures
            r.deep_view() == self@,
    {
        &self.inner
    }

    /// Reads the vertex section: a non-negative 4-byte count, then that
    /// many vertex records.
    pub fn parse(cur: &mut ByteCursor, extra_vec4_count: u8, index_size: u8) -> (r: Result<
        Vertices,
        Error,
    >)
        requires
            old(cur).wf(),
        ensures
            final(cur).wf(),
            spec_parse_vertices(old(cur).remaining(), extra_vec4_count, index_size) matches Ok(
                (records, n),
            ) ==> {
                &&& r matches Ok(v) && v@ == records
                &&& final(cur).remaining() == old(cur).remaining().skip(n)
            },
            spec_parse_vertices(old(cur).remaining(), extra_vec4_count, index_size) matches Err(e)
                ==> r == Err::<Vertices, Error>(e),
    {
        let size = match cur.read_i32_le() {
            Some(v) => v,
            None => {
                return Err(Error::UnexpectedEnd);
            },
        };
        if size < 0 {
            return Err(Error::NegativeSize);
        }
        let count = size as usize;
        let ghost b = cur.remaining();
        let mut inner: Vec<Vertex> = Vec::new();
        let ghost mut consumed: int = 0;
        proof {
            assert(inner.deep_view() =~= Seq::<VertexView>::empty());
        }
        let mut k: usize = 0;
        while k < count
            invariant
                cur.wf(),
                k <= count,
                b == old(cur).remaining().skip(4),
                count == spec_i32_le(old(cur).remaining()) as int,
                old(cur).remaining().len() >= 4,
                spec_parse_vertex_records(b, k as int, extra_vec4_count, index_size) == Ok::<
                    _,
                    Error,
                >((inner.deep_view(), consumed)),
                cur.remaining() == b.skip(consumed),
            decreases count - k,
        {
            let ghost pre = spec_parse_vertex_records(b, k as int, extra_vec4_count, index_size)
                ->Ok_0;
            proof {
                lemma_vertex_records_split(b, k as int, count - k, extra_vec4_count, index_size);
            }
            let vert = match Vertex::parse(cur, extra_vec4_count, index_size) {
                Ok(v) => v,
                Err(e) => {
                    proof {
                        let brem = b.skip(consumed);
                        assert(spec_parse_vertex_records(brem, count - k, extra_vec4_count,
                            index_size) == Err::<(Seq<VertexView>, int), Error>(e));
                    }
                    return Err(e);
                },
            };
            let ghost n = spec_parse_vertex(b.skip(consumed), extra_vec4_count, index_size)
                ->Ok_0.1;
            inner.push(vert);
            proof {
                let brem = b.skip(consumed);
                assert(spec_parse_vertex_records(brem.skip(n), 0, extra_vec4_count, index_size)
                    == Ok::<_, Error>((Seq::<VertexView>::empty(), 0int)));
                assert(seq![vert@] + Seq::<VertexView>::empty() =~= seq![vert@]);
                assert(spec_parse_vertex_records(brem, 1, extra_vec4_count, index_size) == Ok::<
                    _,
                    Error,
                >((seq![vert@], n)));
                lemma_vertex_records_split(b, k as int, 1, extra_vec4_count, index_size);
                assert(inner.deep_view() =~= pre.0 + seq![vert@]);
                assert(spec_parse_vertex_records(b, k + 1, extra_vec4_count, index_size) == Ok::<
                    _,
                    Error,
                >((inner.deep_view(), consumed + n)));
                lemma_vertex_records_bounds(b, k as int, extra_vec4_count, index_size);
                lemma_vertex_records_bounds(b, k + 1, extra_vec4_count, index_size);
                assert(0 <= n <= brem.len());
                assert(brem.skip(n) =~= b.skip(consumed + n));
                consumed = consumed + n;
            }
            k = k + 1;
        }
        let v = Vertices { inner };
        proof {
            lemma_vertex_records_bounds(b, count as int, extra_vec4_count, index_size);
            assert(b.skip(consumed) =~= old(cur).remaining().skip(4 + consumed));
        }
        Ok(v)
    }
}

} // verus!
