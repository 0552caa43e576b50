//! The header and the model orchestrator: tag and version, the global
//! parameter block that fixes the layout of every later section, the
//! localized name and comment pairs, and the strict pipeline
//! header, vertices, surfaces, textures over one cursor.

use vstd::prelude::*;

verus! {

use crate::cursor::ByteCursor;
use crate::surface::{Surface, Surfaces, spec_parse_surfaces};
use crate::texture::{Textures, spec_parse_textures};
use crate::types::{
    F32Bits,
    PmxText,
    PmxTextView,
    TextEncoding,
    lemma_parse_text_bounds,
    spec_f32_at,
    spec_i8_of_u8,
    spec_parse_text,
};
use crate::vertex::{VertexView, Vertices, spec_parse_vertices};

/// Errors of the header and model decoders.
#[derive(Debug, Clone, Copy, PartialEq, Eq)]
pub enum Error {
    /// The file did not start with the expected tag bytes.
    InvalidTag,
    /// The byte source ended before the required bytes were available.
    UnexpectedEnd,
    /// The vertex section failed.
    VertexError(crate::vertex::Error),
    /// A wire-level codec failed.
    TypeError(crate::types::Error),
    /// The header declared fewer than 8 global parameters.
    InvalidGlobalCount,
    /// The surface section failed.
    SurfaceError(crate::surface::Error),
    /// The texture section failed.
    TextureError(crate::texture::Error),
}

/// The mathematical content of a [`Globals`].
#[verifier::ext_equal]
pub ghost struct GlobalsView {
    pub encoding: TextEncoding,
    pub vec4_additional: u8,
    pub vert_idx_size: u8,
    pub tex_idx_size: u8,
    pub material_idx_size: u8,
    pub bone_idx_size: u8,
    pub morph_idx_size: u8,
    pub rb_idx_size: u8,
    pub additional: Option<Seq<u8>>,
}

/// The global parameter block of the header: the text encoding, the count
/// of extra per-vertex 4-float vectors, and the byte width of each index
/// kind. Declared once and read by every later section. Bytes beyond the
/// first 8 are preserved opaquely; the format is forward-extensible.
#[derive(Debug, PartialEq, Eq)]
pub struct Globals {
    encoding: TextEncoding,
    vec4_additional: u8,
    vert_idx_size: u8,
    tex_idx_size: u8,
    material_idx_size: u8,
    bone_idx_size: u8,
    morph_idx_size: u8,
    rb_idx_size: u8,
    additional: Option<Vec<u8>>,
}

impl View for Globals {
    type V = GlobalsView;

    closed spec fn view(&self) -> GlobalsView {
        GlobalsView {
            encoding: self.encoding,
            vec4_additional: self.vec4_additional,
            vert_idx_size: self.vert_idx_size,
            tex_idx_size: self.tex_idx_size,
            material_idx_size: self.material_idx_size,
            bone_idx_size: self.bone_idx_size,
            morph_idx_size: self.morph_idx_size,
            rb_idx_size: self.rb_idx_size,
            additional: match self.additional {
                Some(v) => Some(v@),
                None => None,
            },
        }
    }
}

/// What parsing the global parameter block from the front of `b` yields.
/// The leading signed count byte must be at least 8; that many bytes
/// follow. Byte 0 names the encoding, bytes 1-7 the extra-vector count and
/// the six index widths; bytes beyond the 8th are kept uninterpreted.
pub open spec fn spec_parse_globals(b: Seq<u8>) -> Result<(GlobalsView, int), Error> {
    if b.len() < 1 {
        Err(Error::UnexpectedEnd)
    } else {
        let count = spec_i8_of_u8(b[0]) as int;
        if count < 8 {
            Err(Error::InvalidGlobalCount)
        } else if b.len() < 1 + count {
            Err(Error::UnexpectedEnd)
        } else {
            let g = b.subrange(1, 1 + count);
            if g[0] >= 2 {
                Err(Error::TypeError(crate::types::Error::InvalidTextEncoding))
            } else {
                Ok(
                    (
                        GlobalsView {
                            encoding: if g[0] == 0 {
                                TextEncoding::UTF16LE
                            } else {
                                TextEncoding::UTF8
                            },
                            vec4_additional: g[1],
                            vert_idx_size: g[2],
                            tex_idx_size: g[3],
                            material_idx_size: g[4],
                            bone_idx_size: g[5],
                            morph_idx_size: g[6],
                            rb_idx_size: g[7],
                            additional: if count > 8 {
                                Some(g.skip(8))
                            } else {
                                None
                            },
                        },
                        1 + count,
                    ),
                )
            }
        }
    }
}

impl Globals {
    /// The declared text encoding.
    pub fn encoding(&self) -> (r: TextEncoding)
        ensures
            r == self@.encoding,
    {
        self.encoding
    }

    /// The count of extra 4-float vectors per vertex.
    pub fn vec4_additional(&self) -> (r: u8)
        ensures
            r == self@.vec4_additional,
    {
        self.vec4_additional
    }

    /// The byte width of vertex indices.
    pub fn vert_idx_size(&self) -> (r: u8)
        ensures
            r == self@.vert_idx_size,
    {
        self.vert_idx_size
    }

    /// The byte width of texture indices.
    pub fn tex_idx_size(&self) -> (r: u8)
        ensures
            r == self@.tex_idx_size,
    {
        self.tex_idx_size
    }

    /// The byte width of material indices.
    pub fn material_idx_size(&self) -> (r: u8)
        ensures
            r == self@.material_idx_size,
    {
        self.material_idx_size
    }

    /// The byte width of bone indices.
    pub fn bone_idx_size(&self) -> (r: u8)
        ensures
            r == self@.bone_idx_size,
    {
        self.bone_idx_size
    }

    /// The byte width of morph indices.
    pub fn morph_idx_size(&self) -> (r: u8)
        ensures
            r == self@.morph_idx_size,
    {
        self.morph_idx_size
    }

    /// The byte width of rigid-body indices.
    pub fn rb_idx_size(&self) -> (r: u8)
        ensures
            r == self@.rb_idx_size,
    {
        self.rb_idx_size
    }

    /// The declared global parameters beyond the first 8, kept opaquely.
    pub fn additional(&self) -> (r: &Option<Vec<u8>>)
        ensures
            r is Some <==> self@.additional is Some,
            r matches Some(v) ==> self@.additional == Some(v@),
    {
        &self.additional
    }

    /// Reads the global parameter block: a signed count byte that must be
    /// at least 8, then that many parameter bytes.
    pub fn parse(cur: &mut ByteCursor) -> (r: Result<Globals, Error>)
        requires
            old(cur).wf(),
        ensures
            final(cur).wf(),
            spec_parse_globals(old(cur).remaining()) matches Ok((g, n)) ==> {
                &&& r matches Ok(globals) && globals@ == g
                &&& final(cur).remaining() == old(cur).remaining().skip(n)
            },
            spec_parse_globals(old(cur).remaining()) matches Err(e) ==> r == Err::<
                Globals,
                Error,
            >(e),
    {
        let ghost b = old(cur).remaining();
        let count_byte = match cur.read_byte() {
            Some(v) => v,
            None => {
                return Err(Error::UnexpectedEnd);
            },
        };
        // the count is a signed byte: values 0x80.. read as negative
        if count_byte < 8 || count_byte >= 0x80 {
            return Err(Error::InvalidGlobalCount);
        }
        let count = count_byte as usize;
        let g = match cur.read_bytes(count) {
            Some(v) => v,
            None => {
                return Err(Error::UnexpectedEnd);
            },
        };
        proof {
            assert(b.skip(1).take(count as int) =~= b.subrange(1, 1 + count as int));
            assert(b.skip(1).skip(count as int) =~= b.skip(1 + count as int));
        }
        let encoding = match TextEncoding::from_byte(g[0]) {
            Ok(e) => e,
            Err(e) => {
                return Err(Error::TypeError(e));
            },
        };
        let additional = if count > 8 {
            let mut rest: Vec<u8> = Vec::new();
            let mut j: usize = 8;
            while j < count
                invariant
                    8 <= j <= count,
                    count == g@.len(),
                    rest@ == g@.subrange(8, j as int),
                decreases count - j,
            {
                let byte = g[j];
                rest.push(byte);
                proof {
                    assert(rest@ =~= g@.subrange(8, j + 1));
                }
                j = j + 1;
            }
            proof {
                assert(rest@ =~= g@.skip(8));
            }
            Some(rest)
        } else {
            None
        };
        let globals = Globals {
            encoding,
            vec4_additional: g[1],
            vert_idx_size: g[2],
            tex_idx_size: g[3],
            material_idx_size: g[4],
            bone_idx_size: g[5],
            morph_idx_size: g[6],
            rb_idx_size: g[7],
            additional,
        };
        proof {
            let gv = spec_parse_globals(b)->Ok_0.0;
            assert(globals@ =~= gv);
        }
        Ok(globals)
    }
}

/// The localized model name pair.
#[derive(Debug, PartialEq, Eq)]
pub struct ModelName {
    pub local: PmxText,
    pub universal: PmxText,
}

/// The localized model comment pair.
#[derive(Debug, PartialEq, Eq)]
pub struct Comment {
    pub local: PmxText,
    pub universal: PmxText,
}

/// The mathematical content of a [`Header`].
#[verifier::ext_equal]
pub ghost struct HeaderView {
    pub version: F32Bits,
    pub globals: GlobalsView,
    pub name_local: PmxTextView,
    pub name_universal: PmxTextView,
    pub comment_local: PmxTextView,
    pub comment_universal: PmxTextView,
}

/// The file header: tag, version, global parameters, localized model name
/// and comment.
#[derive(Debug, PartialEq, Eq)]
pub struct Header {
    version: F32Bits,
    globals: Globals,
    name: ModelName,
    comment: Comment,
}

impl View for Header {
    type V = HeaderView;

    closed spec fn view(&self) -> HeaderView {
        HeaderView {
            version: self.version,
            globals: self.globals@,
            name_local: self.name.local@,
            name_universal: self.name.universal@,
            comment_local: self.comment.local@,
            comment_universal: self.comment.universal@,
        }
    }
}

/// What parsing the header from the front of `b` yields: 4 tag bytes whose
/// first three must read `PMX` (the fourth is a separator and is not
/// validated), a 4-byte little-endian float version, the global parameter
/// block, then the localized name pair and comment pair in the declared
/// encoding.
pub open spec fn spec_parse_header(b: Seq<u8>) -> Result<(HeaderView, int), Error> {
    if b.len() < 4 {
        Err(Error::UnexpectedEnd)
    } else if !(b[0] == 0x50 && b[1] == 0x4D && b[2] == 0x58) {
        Err(Error::InvalidTag)
    } else if b.len() < 8 {
        Err(Error::UnexpectedEnd)
    } else {
        let version = spec_f32_at(b, 4);
        match spec_parse_globals(b.skip(8)) {
            Err(e) => Err(e),
            Ok((globals, gn)) => {
                let enc = globals.encoding;
                match spec_parse_text(b.skip(8 + gn), enc) {
                    Err(e) => Err(Error::TypeError(e)),
                    Ok((name_local, n1)) => match spec_parse_text(b.skip(8 + gn + n1), enc) {
                        Err(e) => Err(Error::TypeError(e)),
                        Ok((name_universal, n2)) => match spec_parse_text(
                            b.skip(8 + gn + n1 + n2),
                            enc,
                        ) {
                            Err(e) => Err(Error::TypeError(e)),
                            Ok((comment_local, n3)) => match spec_parse_text(
                                b.skip(8 + gn + n1 + n2 + n3),
                                enc,
                            ) {
                                Err(e) => Err(Error::TypeError(e)),
                                Ok((comment_universal, n4)) => Ok(
                                    (
                                        HeaderView {
                                            version,
                                            globals,
                                            name_local,
                                            name_universal,
                                            comment_local,
                                            comment_universal,
                                        },
                                        8 + gn + n1 + n2 + n3 + n4,
                                    ),
                                ),
                            },
                        },
                    },
                }
            },
        }
    }
}

/// A declared global-parameter count that reads below 8 as a signed byte
/// is always rejected with the global-count error, whatever follows it.
pub proof fn lemma_small_global_count_rejected(b: Seq<u8>)
    requires
        b.len() >= 1,
        spec_i8_of_u8(b[0]) < 8,
    ensures
        spec_parse_globals(b) == Err::<(GlobalsView, int), Error>(Error::InvalidGlobalCount),
{
}

/// A successful global parameter block consumes between 1 byte and all of
/// `b`.
pub(crate) proof fn lemma_parse_globals_bounds(b: Seq<u8>)
    requires
        spec_parse_globals(b) is Ok,
    ensures
        1 <= spec_parse_globals(b)->Ok_0.1 <= b.len(),
{
}

/// A successful header consumes between 8 bytes and all of `b`.
pub(crate) proof fn lemma_parse_header_bounds(b: Seq<u8>)
    requires
        spec_parse_header(b) is Ok,
    ensures
        8 <= spec_parse_header(b)->Ok_0.1 <= b.len(),
{
    let (globals, gn) = spec_parse_globals(b.skip(8))->Ok_0;
    let enc = globals.encoding;
    lemma_parse_globals_bounds(b.skip(8));
    let n1 = spec_parse_text(b.skip(8 + gn), enc)->Ok_0.1;
    lemma_parse_text_bounds(b.skip(8 + gn), enc);
    let n2 = spec_parse_text(b.skip(8 + gn + n1), enc)->Ok_0.1;
    lemma_parse_text_bounds(b.skip(8 + gn + n1), enc);
    let n3 = spec_parse_text(b.skip(8 + gn + n1 + n2), enc)->Ok_0.1;
    lemma_parse_text_bounds(b.skip(8 + gn + n1 + n2), enc);
    let n4 = spec_parse_text(b.skip(8 + gn + n1 + n2 + n3), enc)->Ok_0.1;
    lemma_parse_text_bounds(b.skip(8 + gn + n1 + n2 + n3), enc);
    assert(b.skip(8).len() == b.len() - 8);
    assert(b.skip(8 + gn).len() == b.len() - 8 - gn);
    assert(b.skip(8 + gn + n1).len() == b.len() - 8 - gn - n1);
    assert(b.skip(8 + gn + n1 + n2).len() == b.len() - 8 - gn - n1 - n2);
    assert(b.skip(8 + gn + n1 + n2 + n3).len() == b.len() - 8 - gn - n1 - n2 - n3);
}

impl Header {
    /// The version number's stored float bit pattern.
    pub fn version(&self) -> (r: F32Bits)
        ensures
            r == self@.version,
    {
        self.version
    }

    /// The global parameter block.
    pub fn globals(&self) -> (r: &Globals)
        ensures
            r@ == self@.globals,
    {
        &self.globals
    }

    /// The localized model name pair.
    pub fn name(&self) -> (r: &ModelName)
        ensures
            r.local@ == self@.name_local,
            r.universal@ == self@.name_universal,
    {
        &self.name
    }

    /// The localized comment pair.
    pub fn comment(&self) -> (r: &Comment)
        ensures
            r.local@ == self@.comment_local,
            r.universal@ == self@.comment_universal,
    {
        &self.comment
    }

    /// Reads the file header.
    #[verifier::rlimit(30)]
    pub fn parse(cur: &mut ByteCursor) -> (r: Result<Header, Error>)
        requires
            old(cur).wf(),
        ensures
            final(cur).wf(),
            spec_parse_header(old(cur).remaining()) matches Ok((h, n)) ==> {
                &&& r matches Ok(header) && header@ == h
                &&& final(cur).remaining() == old(cur).remaining().skip(n)
            },
            spec_parse_header(old(cur).remaining()) matches Err(e) ==> r == Err::<
                Header,
                Error,
            >(e),
    {
        let ghost b = old(cur).remaining();
        let tag = match cur.read_bytes(4) {
            Some(v) => v,
            None => {
                return Err(Error::UnexpectedEnd);
            },
        };
        // the first three tag bytes must read `PMX`; the fourth is padding
        if !(tag[0] == 0x50 && tag[1] == 0x4D && tag[2] == 0x58) {
            return Err(Error::InvalidTag);
        }
        let version = match F32Bits::parse(cur) {
            Ok(v) => v,
            Err(_) => {
                return Err(Error::UnexpectedEnd);
            },
        };
        proof {
            crate::types::lemma_f32_at_skip(b, 4, 0);
            assert(b.skip(4).skip(4) =~= b.skip(8));
        }
        let globals = match Globals::parse(cur) {
            Ok(g) => g,
            Err(e) => {
                return Err(e);
            },
        };
        let ghost gn = spec_parse_globals(b.skip(8))->Ok_0.1;
        proof {
            lemma_parse_globals_bounds(b.skip(8));
            assert(b.skip(8).skip(gn) =~= b.skip(8 + gn));
        }
        let encoding = globals.encoding();
        let name_local = match PmxText::from_bytes(cur, encoding) {
            Ok(t) => t,
            Err(e) => {
                return Err(Error::TypeError(e));
            },
        };
        let ghost n1 = spec_parse_text(b.skip(8 + gn), encoding)->Ok_0.1;
        proof {
            lemma_parse_text_bounds(b.skip(8 + gn), encoding);
            assert(b.skip(8 + gn).skip(n1) =~= b.skip(8 + gn + n1));
        }
        let name_universal = match PmxText::from_bytes(cur, encoding) {
            Ok(t) => t,
            Err(e) => {
                return Err(Error::TypeError(e));
            },
        };
        let ghost n2 = spec_parse_text(b.skip(8 + gn + n1), encoding)->Ok_0.1;
        proof {
            lemma_parse_text_bounds(b.skip(8 + gn + n1), encoding);
            assert(b.skip(8 + gn + n1).skip(n2) =~= b.skip(8 + gn + n1 + n2));
        }
        let comment_local = match PmxText::from_bytes(cur, encoding) {
            Ok(t) => t,
            Err(e) => {
                return Err(Error::TypeError(e));
            },
        };
        let ghost n3 = spec_parse_text(b.skip(8 + gn + n1 + n2), encoding)->Ok_0.1;
        proof {
            lemma_parse_text_bounds(b.skip(8 + gn + n1 + n2), encoding);
            assert(b.skip(8 + gn + n1 + n2).skip(n3) =~= b.skip(8 + gn + n1 + n2 + n3));
        }
        let comment_universal = match PmxText::from_bytes(cur, encoding) {
            Ok(t) => t,
            Err(e) => {
                return Err(Error::TypeError(e));
            },
        };
        let ghost n4 = spec_parse_text(b.skip(8 + gn + n1 + n2 + n3), encoding)->Ok_0.1;
        proof {
            lemma_parse_text_bounds(b.skip(8 + gn + n1 + n2 + n3), encoding);
            assert(b.skip(8 + gn + n1 + n2 + n3).skip(n4) =~= b.skip(8 + gn + n1 + n2 + n3 + n4));
        }
        let header = Header {
            version,
            globals,
            name: ModelName { local: name_local, universal: name_universal },
            comment: Comment { local: comment_local, universal: comment_universal },
        };
        proof {
            let h = spec_parse_header(b)->Ok_0.0;
            assert(header@ =~= h);
        }
        Ok(header)
    }
}

/// The mathematical content of a [`Pmx`].
#[verifier::ext_equal]
pub ghost struct PmxView {
    pub header: HeaderView,
    pub vertices: Seq<VertexView>,
    pub surfaces: Seq<Surface>,
    pub textures: Seq<PmxTextView>,
}

/// A decoded model: header, vertices, surfaces and textures, owned as
/// independent top-level collections. Indices are left as raw values for
/// the caller to resolve.
#[derive(Debug, PartialEq)]
pub struct Pmx {
    header: Header,
    vertices: Vertices,
    surfaces: Surfaces,
    textures: Textures,
}

impl View for Pmx {
    type V = PmxView;

    closed spec fn view(&self) -> PmxView {
        PmxView {
            header: self.header@,
            vertices: self.vertices@,
            surfaces: self.surfaces@,
            textures: self.textures@,
        }
    }
}

/// What decoding a whole model from the front of `b` yields: the strict
/// pipeline header, vertex section, surface section, texture section.
/// Vertex and surface indices are read with the header's vertex-index
/// width; texts with its encoding. The first failure aborts the decode.
pub open spec fn spec_parse_pmx(b: Seq<u8>) -> Result<(PmxView, int), Error> {
    match spec_parse_header(b) {
        Err(e) => Err(e),
        Ok((header, hn)) => {
            let extra = header.globals.vec4_additional;
            let vert_idx = header.globals.vert_idx_size;
            let enc = header.globals.encoding;
            match spec_parse_vertices(b.skip(hn), extra, vert_idx) {
                Err(e) => Err(Error::VertexError(e)),
                Ok((vertices, vn)) => match spec_parse_surfaces(b.skip(hn + vn), vert_idx) {
                    Err(e) => Err(Error::SurfaceError(e)),
                    Ok((surfaces, sn)) => match spec_parse_textures(b.skip(hn + vn + sn), enc) {
                        Err(e) => Err(Error::TextureError(e)),
                        Ok((textures, tn)) => Ok(
                            (PmxView { header, vertices, surfaces, textures }, hn + vn + sn + tn),
                        ),
                    },
                },
            }
        },
    }
}

impl Pmx {
    /// The decoded header.
    pub fn header(&self) -> (r: &Header)
        ensures
            r@ == self@.header,
    {
        &self.header
    }

    /// The decoded vertex section.
    pub fn vertices(&self) -> (r: &Vertices)
        ensures
            r@ == self@.vertices,
    {
        &self.vertices
    }

    /// The decoded surface section.
    pub fn surfaces(&self) -> (r: &Surfaces)
        ensures
            r@ == self@.surfaces,
    {
        &self.surfaces
    }

    /// The decoded texture section.
    pub fn textures(&self) -> (r: &Textures)
        ensures
            r@ == self@.textures,
    {
        &self.textures
    }

    /// Decodes a whole model from an in-memory byte buffer: header, then
    /// vertices, surfaces and textures, each laid out by the header's
    /// global parameters. Any failure aborts the decode; no partial model
    /// is returned.
    pub fn parse(cur: &mut ByteCursor) -> (r: Result<Pmx, Error>)
        requires
            old(cur).wf(),
        ensures
            final(cur).wf(),
            spec_parse_pmx(old(cur).remaining()) matches Ok((m, n)) ==> {
                &&& r matches Ok(pmx) && pmx@ == m
                &&& final(cur).remaining() == old(cur).remaining().skip(n)
            },
            spec_parse_pmx(old(cur).remaining()) matches Err(e) ==> r == Err::<Pmx, Error>(e),
    {
        let ghost b = old(cur).remaining();
        let header = match Header::parse(cur) {
            Ok(h) => h,
            Err(e) => {
                return Err(e);
            },
        };
        let ghost hn = spec_parse_header(b)->Ok_0.1;
        proof {
            lemma_parse_header_bounds(b);
        }
        let extra = header.globals.vec4_additional;
        let vert_idx = header.globals.vert_idx_size;
        let encoding = header.globals.encoding;
        let vertices = match Vertices::parse(cur, extra, vert_idx) {
            Ok(v) => v,
            Err(e) => {
                return Err(Error::VertexError(e));
            },
        };
        let ghost vn = spec_parse_vertices(b.skip(hn), extra, vert_idx)->Ok_0.1;
        proof {
            crate::vertex::lemma_parse_vertices_bounds(b.skip(hn), extra, vert_idx);
            assert(b.skip(hn).skip(vn) =~= b.skip(hn + vn));
        }
        let surfaces = match Surfaces::parse(cur, vert_idx) {
            Ok(s) => s,
            Err(e) => {
                return Err(Error::SurfaceError(e));
            },
        };
        let ghost sn = spec_parse_surfaces(b.skip(hn + vn), vert_idx)->Ok_0.1;
        proof {
            crate::surface::lemma_parse_surfaces_bounds(b.skip(hn + vn), vert_idx);
            assert(b.skip(hn + vn).skip(sn) =~= b.skip(hn + vn + sn));
        }
        let textures = match Textures::parse(cur, encoding) {
            Ok(t) => t,
            Err(e) => {
                return Err(Error::TextureError(e));
            },
        };
        let ghost tn = spec_parse_textures(b.skip(hn + vn + sn), encoding)->Ok_0.1;
        proof {
            crate::texture::lemma_parse_textures_bounds(b.skip(hn + vn + sn), encoding);
            assert(b.skip(hn + vn + sn).skip(tn) =~= b.skip(hn + vn + sn + tn));
        }
        let pmx = Pmx { header, vertices, surfaces, textures };
        proof {
            let m = spec_parse_pmx(b)->Ok_0.0;
            assert(pmx@ =~= m);
        }
        Ok(pmx)
    }
}

} // verus!
