//! The material section: a count-prefixed run of material records, each
//! holding a localized name pair, colors, a flag byte, edge parameters,
//! texture and environment references, a toon reference, free-form
//! metadata text, and the count of surface indices the material covers.

use vstd::prelude::*;

verus! {

use crate::cursor::{ByteCursor, spec_i32_le};
use crate::types::{
    F32Bits,
    Flag,
    Index,
    IndexSize,
    PmxText,
    PmxTextView,
    TextEncoding,
    Vec3Bits,
    Vec4Bits,
    lemma_f32_at_skip,
    lemma_parse_text_bounds,
    lemma_vec3_at_skip,
    lemma_vec4_at_skip,
    spec_f32_at,
    spec_index_size_of_byte,
    spec_parse_index,
    spec_parse_text,
    spec_vec3_at,
    spec_vec4_at,
};

/// Errors of the material section decoder.
#[derive(Debug, Clone, Copy, PartialEq, Eq)]
pub enum Error {
    /// A count was negative where a non-negative value was required.
    NegativeSize,
    /// A wire-level codec failed.
    Type(crate::types::Error),
    /// The byte source ended before the required bytes were available.
    UnexpectedEnd,
    /// An environment blend tag was outside the known range 0-3.
    InvalidEnvironmentBlend,
    /// A toon reference tag was neither 0 (texture) nor 1 (built-in).
    InvalidToonReference,
}

/// A material's toon shading reference: either an index into the texture
/// section, or one of the built-in toon selectors.
#[derive(Debug, Clone, Copy, PartialEq, Eq, Structural)]
pub enum Toon {
    Texture(Index),
    Internal(u8),
}

/// How the environment map blends with the material.
#[derive(Debug, Clone, Copy, PartialEq, Eq, Structural)]
pub enum EnvironmentBlend {
    Disabled,
    Multiply,
    Add,
    Additional(Vec4Bits),
}

/// What parsing one environment blend selector from the front of `b`
/// yields: tag 0 disabled, 1 multiply, 2 add, 3 an additional 4-float
/// color; every other tag fails.
pub open spec fn spec_parse_env_blend(b: Seq<u8>) -> Result<(EnvironmentBlend, int), Error> {
    if b.len() < 1 {
        Err(Error::UnexpectedEnd)
    } else if b[0] == 0 {
        Ok((EnvironmentBlend::Disabled, 1))
    } else if b[0] == 1 {
        Ok((EnvironmentBlend::Multiply, 1))
    } else if b[0] == 2 {
        Ok((EnvironmentBlend::Add, 1))
    } else if b[0] == 3 {
        if b.len() < 17 {
            Err(Error::UnexpectedEnd)
        } else {
            Ok((EnvironmentBlend::Additional(spec_vec4_at(b, 1)), 17))
        }
    } else {
        Err(Error::InvalidEnvironmentBlend)
    }
}

/// What parsing one toon reference from the front of `b` yields: tag 0 is
/// followed by a texture index of the given width, tag 1 by one built-in
/// selector byte; every other tag fails.
pub open spec fn spec_parse_toon(b: Seq<u8>, size: IndexSize) -> Result<(Toon, int), Error> {
    if b.len() < 1 {
        Err(Error::UnexpectedEnd)
    } else if b[0] == 0 {
        match spec_parse_index(b.skip(1), size, true) {
            Err(e) => Err(Error::Type(e)),
            Ok((idx, n)) => Ok((Toon::Texture(idx), 1 + n)),
        }
    } else if b[0] == 1 {
        if b.len() < 2 {
            Err(Error::UnexpectedEnd)
        } else {
            Ok((Toon::Internal(b[1]), 2))
        }
    } else {
        Err(Error::InvalidToonReference)
    }
}

/// The mathematical content of a [`Material`]. The flag byte is kept raw.
#[verifier::ext_equal]
pub ghost struct MaterialView {
    pub name_local: PmxTextView,
    pub name_universal: PmxTextView,
    pub diffuse: Vec4Bits,
    pub specular: Vec3Bits,
    pub specular_strength: F32Bits,
    pub ambient: Vec3Bits,
    pub flags: u8,
    pub edge_color: Vec4Bits,
    pub edge_scale: F32Bits,
    pub tex_idx: Index,
    pub env_idx: Index,
    pub env_blend: EnvironmentBlend,
    pub toon: Toon,
    pub meta: PmxTextView,
    pub surface_count: i32,
}

/// The localized material name pair.
#[derive(Debug, PartialEq, Eq)]
struct Name {
    local: PmxText,
    universal: PmxText,
}

/// One material record.
#[derive(Debug, PartialEq)]
pub struct Material {
    name: Name,
    diffuse: Vec4Bits,
    specular: Vec3Bits,
    specular_strength: F32Bits,
    ambient: Vec3Bits,
    flags: Flag,
    edge_color: Vec4Bits,
    edge_scale: F32Bits,
    tex_idx: Index,
    env_idx: Index,
    env_blend: EnvironmentBlend,
    toon: Toon,
    meta: PmxText,
    surface_count: i32,
}

impl View for Material {
    type V = MaterialView;

    closed spec fn view(&self) -> MaterialView {
        MaterialView {
            name_local: self.name.local@,
            name_universal: self.name.universal@,
            diffuse: self.diffuse,
            specular: self.specular,
            specular_strength: self.specular_strength,
            ambient: self.ambient,
            flags: self.flags.spec_raw(),
            edge_color: self.edge_color,
            edge_scale: self.edge_scale,
            tex_idx: self.tex_idx,
            env_idx: self.env_idx,
            env_blend: self.env_blend,
            toon: self.toon,
            meta: self.meta@,
            surface_count: self.surface_count,
        }
    }
}

impl DeepView for Material {
    type V = MaterialView;

    open spec fn deep_view(&self) -> MaterialView {
        self@
    }
}

/// What parsing one material record from the front of `b` yields: the name
/// pair, a 65-byte fixed block (diffuse, specular, specular strength,
/// ambient, flag byte, edge color, edge scale), the texture and
/// environment indices of the given width, the environment blend, the toon
/// reference, the metadata text, and a non-negative 4-byte surface count.
#[verifier::opaque]
pub open spec fn spec_parse_material(b: Seq<u8>, index_size: u8, encoding: TextEncoding) -> Result<
    (MaterialView, int),
    Error,
> {
    match spec_parse_text(b, encoding) {
        Err(e) => Err(Error::Type(e)),
        Ok((name_local, n1)) => match spec_parse_text(b.skip(n1), encoding) {
            Err(e) => Err(Error::Type(e)),
            Ok((name_universal, n2)) => {
                let p = n1 + n2;
                if b.len() < p + 65 {
                    Err(Error::UnexpectedEnd)
                } else {
                    match spec_index_size_of_byte(index_size) {
                        Err(e) => Err(Error::Type(e)),
                        Ok(size) => match spec_parse_index(b.skip(p + 65), size, true) {
                            Err(e) => Err(Error::Type(e)),
                            Ok((tex_idx, ti)) => match spec_parse_index(
                                b.skip(p + 65 + ti),
                                size,
                                true,
                            ) {
                                Err(e) => Err(Error::Type(e)),
                                Ok((env_idx, ei)) => {
                                    let q = p + 65 + ti + ei;
                                    match spec_parse_env_blend(b.skip(q)) {
                                        Err(e) => Err(e),
                                        Ok((env_blend, bn)) => match spec_parse_toon(
                                            b.skip(q + bn),
                                            size,
                                        ) {
                                            Err(e) => Err(e),
                                            Ok((toon, tn)) => match spec_parse_text(
                                                b.skip(q + bn + tn),
                                                encoding,
                                            ) {
                                                Err(e) => Err(Error::Type(e)),
                                                Ok((meta, mn)) => {
                                                    let s = q + bn + tn + mn;
                                                    if b.len() < s + 4 {
                                                        Err(Error::UnexpectedEnd)
                                                    } else {
                                                        let count = spec_i32_le(b.skip(s));
                                                        if count < 0 {
                                                            Err(Error::NegativeSize)
                                                        } else {
                                                            Ok(
                                                                (
                                                                    MaterialView {
                                                                        name_local,
                                                                        name_universal,
                                                                        diffuse: spec_vec4_at(b, p),
                                                                        specular: spec_vec3_at(
                                                                            b,
                                                                            p + 16,
                                                                        ),
                                                                        specular_strength:
                                                                            spec_f32_at(b, p + 28),
                                                                        ambient: spec_vec3_at(
                                                                            b,
                                                                            p + 32,
                                                                        ),
                                                                        flags: b[p + 44],
                                                                        edge_color: spec_vec4_at(
                                                                            b,
                                                                            p + 45,
                                                                        ),
                                                                        edge_scale: spec_f32_at(
                                                                            b,
                                                                            p + 61,
                                                                        ),
                                                                        tex_idx,
                                                                        env_idx,
                                                                        env_blend,
                                                                        toon,
                                                                        meta,
                                                                        surface_count: count,
                                                                    },
                                                                    s + 4,
                                                                ),
                                                            )
                                                        }
                                                    }
                                                },
                                            },
                                        },
                                    }
                                },
                            },
                        },
                    }
                }
            },
        },
    }
}

/// Reads one environment blend selector.
fn parse_env_blend(cur: &mut ByteCursor) -> (r: Result<EnvironmentBlend, Error>)
    requires
        old(cur).wf(),
    ensures
        final(cur).wf(),
        spec_parse_env_blend(old(cur).remaining()) matches Ok((e, n)) ==> {
            &&& r == Ok::<EnvironmentBlend, Error>(e)
            &&& final(cur).remaining() == old(cur).remaining().skip(n)
        },
        spec_parse_env_blend(old(cur).remaining()) matches Err(e) ==> r == Err::<
            EnvironmentBlend,
            Error,
        >(e),
{
    let ghost b = old(cur).remaining();
    let tag = match cur.read_byte() {
        Some(t) => t,
        None => {
            return Err(Error::UnexpectedEnd);
        },
    };
    match tag {
        0 => Ok(EnvironmentBlend::Disabled),
        1 => Ok(EnvironmentBlend::Multiply),
        2 => Ok(EnvironmentBlend::Add),
        3 => {
            let color = match Vec4Bits::parse(cur) {
                Ok(c) => c,
                Err(_) => {
                    return Err(Error::UnexpectedEnd);
                },
            };
            proof {
                lemma_vec4_at_skip(b, 1, 0);
                assert(b.skip(1).skip(16) =~= b.skip(17));
            }
            Ok(EnvironmentBlend::Additional(color))
        },
        _ => Err(Error::InvalidEnvironmentBlend),
    }
}

/// Reads one toon reference.
fn parse_toon(cur: &mut ByteCursor, size: IndexSize) -> (r: Result<Toon, Error>)
    requires
        old(cur).wf(),
    ensures
        final(cur).wf(),
        spec_parse_toon(old(cur).remaining(), size) matches Ok((t, n)) ==> {
            &&& r == Ok::<Toon, Error>(t)
            &&& final(cur).remaining() == old(cur).remaining().skip(n)
        },
        spec_parse_toon(old(cur).remaining(), size) matches Err(e) ==> r == Err::<Toon, Error>(e),
{
    let ghost b = old(cur).remaining();
    let tag = match cur.read_byte() {
        Some(t) => t,
        None => {
            return Err(Error::UnexpectedEnd);
        },
    };
    match tag {
        0 => {
            let idx = match Index::parse(cur, size, true) {
                Ok(i) => i,
                Err(e) => {
                    return Err(Error::Type(e));
                },
            };
            proof {
                let n = spec_parse_index(b.skip(1), size, true)->Ok_0.1;
                if spec_parse_index(b.skip(1), size, true) is Ok {
                    assert(b.skip(1).skip(n) =~= b.skip(1 + n));
                }
            }
            Ok(Toon::Texture(idx))
        },
        1 => {
            let selector = match cur.read_byte() {
                Some(s) => s,
                None => {
                    return Err(Error::UnexpectedEnd);
                },
            };
            proof {
                assert(b.skip(1)[0] == b[1]);
                assert(b.skip(1).skip(1) =~= b.skip(2));
            }
            Ok(Toon::Internal(selector))
        },
        _ => Err(Error::InvalidToonReference),
    }
}

impl Material {
    /// Reads one material record.
    #[verifier::rlimit(100)]
    #[verifier::spinoff_prover]
    pub fn parse(cur: &mut ByteCursor, index_size: u8, encoding: TextEncoding) -> (r: Result<
        Material,
        Error,
    >)
        requires
            old(cur).wf(),
        ensures
            final(cur).wf(),
            spec_parse_material(old(cur).remaining(), index_size, encoding) matches Ok((m, n))
                ==> {
                &&& r matches Ok(mat) && mat@ == m
                &&& final(cur).remaining() == old(cur).remaining().skip(n)
            },
            spec_parse_material(old(cur).remaining(), index_size, encoding) matches Err(e) ==> r
                == Err::<Material, Error>(e),
    {
        proof {
            reveal(spec_parse_material);
        }
        let ghost b = old(cur).remaining();
        let local = match PmxText::from_bytes(cur, encoding) {
            Ok(t) => t,
            Err(e) => {
                return Err(Error::Type(e));
            },
        };
        let ghost n1 = spec_parse_text(b, encoding)->Ok_0.1;
        proof {
            lemma_parse_text_bounds(b, encoding);
        }
        let universal = match PmxText::from_bytes(cur, encoding) {
            Ok(t) => t,
            Err(e) => {
                return Err(Error::Type(e));
            },
        };
        let ghost n2 = spec_parse_text(b.skip(n1), encoding)->Ok_0.1;
        let ghost p = n1 + n2;
        proof {
            lemma_parse_text_bounds(b.skip(n1), encoding);
            assert(b.skip(n1).skip(n2) =~= b.skip(p));
        }
        let diffuse = match Vec4Bits::parse(cur) {
            Ok(v) => v,
            Err(_) => {
                return Err(Error::UnexpectedEnd);
            },
        };
        proof {
            lemma_vec4_at_skip(b, p, 0);
            assert(b.skip(p).skip(16) =~= b.skip(p + 16));
        }
        let specular = match Vec3Bits::parse(cur) {
            Ok(v) => v,
            Err(_) => {
                return Err(Error::UnexpectedEnd);
            },
        };
        proof {
            lemma_vec3_at_skip(b, p + 16, 0);
            assert(b.skip(p + 16).skip(12) =~= b.skip(p + 28));
        }
        let specular_strength = match F32Bits::parse(cur) {
            Ok(v) => v,
            Err(_) => {
                return Err(Error::UnexpectedEnd);
            },
        };
        proof {
            lemma_f32_at_skip(b, p + 28, 0);
            assert(b.skip(p + 28).skip(4) =~= b.skip(p + 32));
        }
        let ambient = match Vec3Bits::parse(cur) {
            Ok(v) => v,
            Err(_) => {
                return Err(Error::UnexpectedEnd);
            },
        };
        proof {
            lemma_vec3_at_skip(b, p + 32, 0);
            assert(b.skip(p + 32).skip(12) =~= b.skip(p + 44));
        }
        let flags = match Flag::parse(cur) {
            Ok(f) => f,
            Err(_) => {
                return Err(Error::UnexpectedEnd);
            },
        };
        proof {
            assert(b.skip(p + 44)[0] == b[p + 44]);
            assert(b.skip(p + 44).skip(1) =~= b.skip(p + 45));
        }
        let edge_color = match Vec4Bits::parse(cur) {
            Ok(v) => v,
            Err(_) => {
                return Err(Error::UnexpectedEnd);
            },
        };
        proof {
            lemma_vec4_at_skip(b, p + 45, 0);
            assert(b.skip(p + 45).skip(16) =~= b.skip(p + 61));
        }
        let edge_scale = match F32Bits::parse(cur) {
            Ok(v) => v,
            Err(_) => {
                return Err(Error::UnexpectedEnd);
            },
        };
        proof {
            lemma_f32_at_skip(b, p + 61, 0);
            assert(b.skip(p + 61).skip(4) =~= b.skip(p + 65));
        }
        let size = match IndexSize::from_byte(index_size) {
            Ok(s) => s,
            Err(e) => {
                return Err(Error::Type(e));
            },
        };
        let tex_idx = match Index::parse(cur, size, true) {
            Ok(i) => i,
            Err(e) => {
                return Err(Error::Type(e));
            },
        };
        let ghost ti = spec_parse_index(b.skip(p + 65), size, true)->Ok_0.1;
        proof {
            assert(b.skip(p + 65).skip(ti) =~= b.skip(p + 65 + ti));
        }
        let env_idx = match Index::parse(cur, size, true) {
            Ok(i) => i,
            Err(e) => {
                return Err(Error::Type(e));
            },
        };
        let ghost ei = spec_parse_index(b.skip(p + 65 + ti), size, true)->Ok_0.1;
        let ghost q = p + 65 + ti + ei;
        proof {
            assert(b.skip(p + 65 + ti).skip(ei) =~= b.skip(q));
        }
        let env_blend = match parse_env_blend(cur) {
            Ok(e) => e,
            Err(e) => {
                return Err(e);
            },
        };
        let ghost bn = spec_parse_env_blend(b.skip(q))->Ok_0.1;
        proof {
            assert(1 <= bn <= b.skip(q).len());
            assert(b.skip(q).skip(bn) =~= b.skip(q + bn));
        }
        let toon = match parse_toon(cur, size) {
            Ok(t) => t,
            Err(e) => {
                return Err(e);
            },
        };
        let ghost tn = spec_parse_toon(b.skip(q + bn), size)->Ok_0.1;
        proof {
            assert(1 <= tn <= b.skip(q + bn).len());
            assert(b.skip(q + bn).skip(tn) =~= b.skip(q + bn + tn));
        }
        let meta = match PmxText::from_bytes(cur, encoding) {
            Ok(t) => t,
            Err(e) => {
                return Err(Error::Type(e));
            },
        };
        let ghost mn = spec_parse_text(b.skip(q + bn + tn), encoding)->Ok_0.1;
        let ghost s = q + bn + tn + mn;
        proof {
            lemma_parse_text_bounds(b.skip(q + bn + tn), encoding);
            assert(b.skip(q + bn + tn).skip(mn) =~= b.skip(s));
        }
        let surface_count = match cur.read_i32_le() {
            Some(v) => v,
            None => {
                return Err(Error::UnexpectedEnd);
            },
        };
        if surface_count < 0 {
            return Err(Error::NegativeSize);
        }
        proof {
            assert(b.skip(s).skip(4) =~= b.skip(s + 4));
        }
        let mat = Material {
            name: Name { local, universal },
            diffuse,
            specular,
            specular_strength,
            ambient,
            flags,
            edge_color,
            edge_scale,
            tex_idx,
            env_idx,
            env_blend,
            toon,
            meta,
            surface_count,
        };
        proof {
            let m = spec_parse_material(b, index_size, encoding)->Ok_0.0;
            assert(mat@ =~= m);
        }
        Ok(mat)
    }

    /// The localized material name: the local-language form.
    pub fn name_local(&self) -> (r: &PmxText)
        ensures
            r@ == self@.name_local,
    {
        &self.name.local
    }

    /// The localized material name: the universal form.
    pub fn name_universal(&self) -> (r: &PmxText)
        ensures
            r@ == self@.name_universal,
    {
        &self.name.universal
    }

    /// The diffuse color.
    pub fn diffuse(&self) -> (r: Vec4Bits)
        ensures
            r == self@.diffuse,
    {
        self.diffuse
    }

    /// The specular color.
    pub fn specular(&self) -> (r: Vec3Bits)
        ensures
            r == self@.specular,
    {
        self.specular
    }

    /// The specular strength.
    pub fn specular_strength(&self) -> (r: F32Bits)
        ensures
            r == self@.specular_strength,
    {
        self.specular_strength
    }

    /// The ambient color.
    pub fn ambient(&self) -> (r: Vec3Bits)
        ensures
            r == self@.ambient,
    {
        self.ambient
    }

    /// The drawing flag byte.
    pub fn flags(&self) -> (r: &Flag)
        ensures
            r.spec_raw() == self@.flags,
    {
        &self.flags
    }

    /// The edge color.
    pub fn edge_color(&self) -> (r: Vec4Bits)
        ensures
            r == self@.edge_color,
    {
        self.edge_color
    }

    /// The edge scale.
    pub fn edge_scale(&self) -> (r: F32Bits)
        ensures
            r == self@.edge_scale,
    {
        self.edge_scale
    }

    /// The texture reference.
    pub fn tex_idx(&self) -> (r: Index)
        ensures
            r == self@.tex_idx,
    {
        self.tex_idx
    }

    /// The environment-map reference.
    pub fn env_idx(&self) -> (r: Index)
        ensures
            r == self@.env_idx,
    {
        self.env_idx
    }

    /// The environment blend mode.
    pub fn env_blend(&self) -> (r: EnvironmentBlend)
        ensures
            r == self@.env_blend,
    {
        self.env_blend
    }

    /// The toon reference.
    pub fn toon(&self) -> (r: Toon)
        ensures
            r == self@.toon,
    {
        self.toon
    }

    /// The free-form metadata text.
    pub fn meta(&self) -> (r: &PmxText)
        ensures
            r@ == self@.meta,
    {
        &self.meta
    }

    /// How many surface indices this material covers.
    pub fn surface_count(&self) -> (r: i32)
        ensures
            r == self@.surface_count,
    {
        self.surface_count
    }
}

/// What parsing exactly `k` material records from the front of `b` yields.
pub open spec fn spec_parse_material_records(
    b: Seq<u8>,
    k: int,
    index_size: u8,
    encoding: TextEncoding,
) -> Result<(Seq<MaterialView>, int), Error>
    decreases k,
{
    if k <= 0 {
        Ok((Seq::empty(), 0))
    } else {
        match spec_parse_material(b, index_size, encoding) {
            Err(e) => Err(e),
            Ok((m, n)) => match spec_parse_material_records(b.skip(n), k - 1, index_size,
                encoding) {
                Err(e) => Err(e),
                Ok((rest, mm)) => Ok((seq![m] + rest, n + mm)),
            },
        }
    }
}

/// A successful material record consumes between 0 and all of `b`.
proof fn lemma_material_bounds(b: Seq<u8>, index_size: u8, encoding: TextEncoding)
    requires
        spec_parse_material(b, index_size, encoding) is Ok,
    ensures
        0 <= spec_parse_material(b, index_size, encoding)->Ok_0.1 <= b.len(),
{
    reveal(spec_parse_material);
    let n1 = spec_parse_text(b, encoding)->Ok_0.1;
    lemma_parse_text_bounds(b, encoding);
    let n2 = spec_parse_text(b.skip(n1), encoding)->Ok_0.1;
    lemma_parse_text_bounds(b.skip(n1), encoding);
    let p = n1 + n2;
    let size = spec_index_size_of_byte(index_size)->Ok_0;
    let ti = spec_parse_index(b.skip(p + 65), size, true)->Ok_0.1;
    let ei = spec_parse_index(b.skip(p + 65 + ti), size, true)->Ok_0.1;
    let q = p + 65 + ti + ei;
    let bn = spec_parse_env_blend(b.skip(q))->Ok_0.1;
    let tn = spec_parse_toon(b.skip(q + bn), size)->Ok_0.1;
    let mn = spec_parse_text(b.skip(q + bn + tn), encoding)->Ok_0.1;
    lemma_parse_text_bounds(b.skip(q + bn + tn), encoding);
    assert(b.skip(n1).len() == b.len() - n1);
    assert(b.skip(p + 65).len() == b.len() - p - 65);
    assert(b.skip(p + 65 + ti).len() == b.len() - p - 65 - ti);
    assert(b.skip(q).len() == b.len() - q);
    assert(b.skip(q + bn).len() == b.len() - q - bn);
    assert(b.skip(q + bn + tn).len() == b.len() - q - bn - tn);
    assert(b.skip(q + bn + tn + mn).len() == b.len() - q - bn - tn - mn);
}

/// A successful run of records consumes between 0 and all of `b`.
proof fn lemma_material_records_bounds(b: Seq<u8>, k: int, index_size: u8, encoding: TextEncoding)
    requires
        spec_parse_material_records(b, k, index_size, encoding) is Ok,
    ensures
        0 <= spec_parse_material_records(b, k, index_size, encoding)->Ok_0.1 <= b.len(),
    decreases k,
{
    if k > 0 {
        let (m0, n0) = spec_parse_material(b, index_size, encoding)->Ok_0;
        lemma_material_bounds(b, index_size, encoding);
        lemma_material_records_bounds(b.skip(n0), k - 1, index_size, encoding);
    }
}

/// Parsing `i + m` records is parsing `i`, then `m` more from where the
/// first `i` stopped.
#[verifier::spinoff_prover]
proof fn lemma_material_records_split(
    b: Seq<u8>,
    i: int,
    m: int,
    index_size: u8,
    encoding: TextEncoding,
)
    requires
        0 <= i,
        0 <= m,
        spec_parse_material_records(b, i, index_size, encoding) is Ok,
    ensures
        ({
            let pre = spec_parse_material_records(b, i, index_size, encoding)->Ok_0;
            spec_parse_material_records(b, i + m, index_size, encoding)
                == match spec_parse_material_records(b.skip(pre.1), m, index_size, encoding) {
                Err(e) => Err(e),
                Ok((rest, n)) => Ok((pre.0 + rest, pre.1 + n)),
            }
        }),
    decreases i,
{
    let pre = spec_parse_material_records(b, i, index_size, encoding)->Ok_0;
    if i == 0 {
        assert(b.skip(0) =~= b);
        match spec_parse_material_records(b, m, index_size, encoding) {
            Err(e) => {},
            Ok((rest, n)) => {
                assert(pre.0 + rest =~= rest);
            },
        }
    } else {
        let (m0, n0) = spec_parse_material(b, index_size, encoding)->Ok_0;
        lemma_material_bounds(b, index_size, encoding);
        let tail = spec_parse_material_records(b.skip(n0), i - 1, index_size, encoding);
        let pre1 = tail->Ok_0;
        lemma_material_records_split(b.skip(n0), i - 1, m, index_size, encoding);
        lemma_material_records_bounds(b.skip(n0), i - 1, index_size, encoding);
        assert(b.skip(n0).skip(pre1.1) =~= b.skip(n0 + pre1.1));
        match spec_parse_material_records(b.skip(pre.1), m, index_size, encoding) {
            Err(e) => {},
            Ok((rest, n)) => {
                assert(seq![m0] + (pre1.0 + rest) =~= (seq![m0] + pre1.0) + rest);
            },
        }
    }
}

/// What parsing the whole material section from the front of `b` yields: a
/// 4-byte little-endian signed count, which must be non-negative, then
/// exactly that many records.
pub open spec fn spec_parse_materials(b: Seq<u8>, index_size: u8, encoding: TextEncoding) -> Result<
    (Seq<MaterialView>, int),
    Error,
> {
    if b.len() < 4 {
        Err(Error::UnexpectedEnd)
    } else {
        let count = spec_i32_le(b) as int;
        if count < 0 {
            Err(Error::NegativeSize)
        } else {
            match spec_parse_material_records(b.skip(4), count, index_size, encoding) {
                Err(e) => Err(e),
                Ok((records, n)) => Ok((records, 4 + n)),
            }
        }
    }
}

/// A 4-byte material-section count that reads negative, such as the
/// pattern 0xFFFFFFFF (-1), is always rejected with the negative-size
/// error, whatever follows it.
pub proof fn lemma_negative_material_count_rejected(
    b: Seq<u8>,
    index_size: u8,
    encoding: TextEncoding,
)
    requires
        b.len() >= 4,
        spec_i32_le(b) < 0,
    ensures
        spec_parse_materials(b, index_size, encoding) == Err::<(Seq<MaterialView>, int), Error>(
            Error::NegativeSize,
        ),
{
}

/// The material section: every material record, in file order.
#[derive(Debug, PartialEq)]
pub struct Materials {
    inner: Vec<Material>,
}

impl View for Materials {
    type V = Seq<MaterialView>;

    closed spec fn view(&self) -> Seq<MaterialView> {
        self.inner.deep_view()
    }
}

impl Materials {
    /// How many material records the section holds.
    pub fn len(&self) -> (r: usize)
        ensures
            r == self@.len(),
    {
        self.inner.len()
    }

    /// The records themselves, in file order.
    pub fn materials(&self) -> (r: &Vec<Material>)
        ensures
            r.deep_view() == self@,
    {
        &self.inner
    }

    /// Reads the material section: a non-negative 4-byte count, then that
    /// many material records, with texture and environment references of
    /// the given width and texts in the given encoding.
    #[verifier::spinoff_prover]
    pub fn parse(cur: &mut ByteCursor, index_size: u8, encoding: TextEncoding) -> (r: Result<
        Materials,
        Error,
    >)
        requires
            old(cur).wf(),
        ensures
            final(cur).wf(),
            spec_parse_materials(old(cur).remaining(), index_size, encoding) matches Ok(
                (records, n),
            ) ==> {
                &&& r matches Ok(m) && m@ == records
                &&& final(cur).remaining() == old(cur).remaining().skip(n)
            },
            spec_parse_materials(old(cur).remaining(), index_size, encoding) matches Err(e) ==> r
                == Err::<Materials, Error>(e),
    {
        let size = match cur.read_i32_le() {
            Some(v) => v,
            None => {
                return Err(Error::UnexpectedEnd);
            },
        };
        if size < 0 {
            return Err(Error::NegativeSize);
        }
        let count = size as usize;
        let ghost b = cur.remaining();
        let mut inner: Vec<Material> = Vec::new();
        let ghost mut consumed: int = 0;
        proof {
            assert(inner.deep_view() =~= Seq::<MaterialView>::empty());
        }
        let mut k: usize = 0;
        while k < count
            invariant
                cur.wf(),
                k <= count,
                b == old(cur).remaining().skip(4),
                count == spec_i32_le(old(cur).remaining()) as int,
                old(cur).remaining().len() >= 4,
                spec_parse_material_records(b, k as int, index_size, encoding) == Ok::<_, Error>(
                    (inner.deep_view(), consumed),
                ),
                cur.remaining() == b.skip(consumed),
            decreases count - k,
        {
            let ghost pre = spec_parse_material_records(b, k as int, index_size, encoding)->Ok_0;
            proof {
                lemma_material_records_split(b, k as int, count - k, index_size, encoding);
            }
            let mat = match Material::parse(cur, index_size, encoding) {
                Ok(m) => m,
                Err(e) => {
                    proof {
                        let brem = b.skip(consumed);
                        assert(spec_parse_material_records(brem, count - k, index_size, encoding)
                            == Err::<(Seq<MaterialView>, int), Error>(e));
                    }
                    return Err(e);
                },
            };
            let ghost n = spec_parse_material(b.skip(consumed), index_size, encoding)->Ok_0.1;
            inner.push(mat);
            proof {
                let brem = b.skip(consumed);
                assert(spec_parse_material_records(brem.skip(n), 0, index_size, encoding) == Ok::<
                    _,
                    Error,
                >((Seq::<MaterialView>::empty(), 0int)));
                assert(seq![mat@] + Seq::<MaterialView>::empty() =~= seq![mat@]);
                assert(spec_parse_material_records(brem, 1, index_size, encoding) == Ok::<
                    _,
                    Error,
                >((seq![mat@], n)));
                lemma_material_records_split(b, k as int, 1, index_size, encoding);
                assert(inner.deep_view() =~= pre.0 + seq![mat@]);
                assert(spec_parse_material_records(b, k + 1, index_size, encoding) == Ok::<
                    _,
                    Error,
                >((inner.deep_view(), consumed + n)));
                lemma_material_records_bounds(b, k as int, index_size, encoding);
                lemma_material_records_bounds(b, k + 1, index_size, encoding);
                lemma_material_bounds(brem, index_size, encoding);
                assert(0 <= n <= brem.len());
                assert(brem.skip(n) =~= b.skip(consumed + n));
                consumed = consumed + n;
            }
            k = k + 1;
        }
        let m = Materials { inner };
        proof {
            lemma_material_records_bounds(b, count as int, index_size, encoding);
            assert(b.skip(consumed) =~= old(cur).remaining().skip(4 + consumed));
        }
        Ok(m)
    }
}

} // verus!
