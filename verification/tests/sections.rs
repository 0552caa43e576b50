use sermmde::cursor::ByteCursor;
use sermmde::material::{self, EnvironmentBlend, Materials, Toon};
use sermmde::pmx::{self, Globals};
use sermmde::surface::{self, Surfaces};
use sermmde::texture::{self, Textures};
use sermmde::types::{self, IndexSize, TextEncoding};
use sermmde::vertex::{self, Vertices, WeightDeform};

fn text_bytes(body: &[u8]) -> Vec<u8> {
    let mut out = (body.len() as i32).to_le_bytes().to_vec();
    out.extend_from_slice(body);
    out
}

#[test]
fn globals_count_below_eight_rejected() {
    for count in 0u8..8 {
        let mut bytes = vec![count];
        bytes.extend_from_slice(&[1, 0, 1, 1, 1, 1, 1, 1]);
        let mut cur = ByteCursor::new(bytes);
        let err = Globals::parse(&mut cur).unwrap_err();
        assert_eq!(err, pmx::Error::InvalidGlobalCount);
    }
}

#[test]
fn globals_negative_count_rejected() {
    // the count byte is signed: 0x80.. reads negative
    for count in [0x80u8, 0xF8, 0xFF] {
        let mut cur = ByteCursor::new(vec![count, 1, 0, 1, 1, 1, 1, 1, 1]);
        let err = Globals::parse(&mut cur).unwrap_err();
        assert_eq!(err, pmx::Error::InvalidGlobalCount);
    }
}

#[test]
fn globals_basic_fields() {
    let mut cur = ByteCursor::new(vec![8, 1, 2, 1, 2, 4, 2, 1, 4]);
    let g = Globals::parse(&mut cur).unwrap();
    assert_eq!(g.encoding(), TextEncoding::UTF8);
    assert_eq!(g.vec4_additional(), 2);
    assert_eq!(g.vert_idx_size(), 1);
    assert_eq!(g.tex_idx_size(), 2);
    assert_eq!(g.material_idx_size(), 4);
    assert_eq!(g.bone_idx_size(), 2);
    assert_eq!(g.morph_idx_size(), 1);
    assert_eq!(g.rb_idx_size(), 4);
    assert!(g.additional().is_none());
}

#[test]
fn globals_extra_bytes_preserved() {
    let mut cur = ByteCursor::new(vec![10, 0, 0, 1, 1, 1, 1, 1, 1, 0xAA, 0xBB]);
    let g = Globals::parse(&mut cur).unwrap();
    assert_eq!(g.encoding(), TextEncoding::UTF16LE);
    assert_eq!(g.additional().as_ref().unwrap().as_slice(), &[0xAA, 0xBB]);
}

#[test]
fn globals_invalid_encoding_rejected() {
    let mut cur = ByteCursor::new(vec![8, 7, 0, 1, 1, 1, 1, 1, 1]);
    let err = Globals::parse(&mut cur).unwrap_err();
    assert_eq!(err, pmx::Error::TypeError(types::Error::InvalidTextEncoding));
}

#[test]
fn globals_truncated_block_rejected() {
    // the count byte promises 9 bytes, only 3 follow
    let mut cur = ByteCursor::new(vec![9, 1, 0, 1]);
    let err = Globals::parse(&mut cur).unwrap_err();
    assert_eq!(err, pmx::Error::UnexpectedEnd);
}

#[test]
fn bdef1_parses_one_index() {
    let mut cur = ByteCursor::new(vec![0x05]);
    let wd = WeightDeform::parse(&mut cur, 0, IndexSize::Size1, false).unwrap();
    match wd {
        WeightDeform::Bdef1 { index } => assert_eq!(index.value, 5),
        other => panic!("expected Bdef1, got {:?}", other),
    }
}

#[test]
fn bdef2_derived_weight_is_one_minus_stored() {
    for w in [0.0f32, 0.25, 0.33, 0.5, 0.75, 1.0] {
        let mut bytes = vec![0x01, 0x02];
        bytes.extend_from_slice(&w.to_le_bytes());
        let mut cur = ByteCursor::new(bytes);
        let wd = WeightDeform::parse(&mut cur, 1, IndexSize::Size1, false).unwrap();
        match wd {
            WeightDeform::Bdef2 { indices, weight } => {
                assert_eq!(indices.0.value, 1);
                assert_eq!(indices.1.value, 2);
                // the stored weight is preserved bit for bit
                assert_eq!(weight.bits, w.to_bits());
                // the companion weight is derived, exactly 1 - w
                let derived = 1.0f32 - f32::from_bits(weight.bits);
                assert_eq!(derived.to_bits(), (1.0f32 - w).to_bits());
            },
            other => panic!("expected Bdef2, got {:?}", other),
        }
    }
}

#[test]
fn bdef4_stores_four_weights_unnormalized() {
    // weights deliberately do not sum to 1 and must not be fixed up
    let ws = [0.9f32, 0.8, 0.7, 0.6];
    let mut bytes = vec![1, 2, 3, 4];
    for w in ws {
        bytes.extend_from_slice(&w.to_le_bytes());
    }
    let mut cur = ByteCursor::new(bytes);
    let wd = WeightDeform::parse(&mut cur, 2, IndexSize::Size1, false).unwrap();
    match wd {
        WeightDeform::Bdef4 { indices, weights } => {
            assert_eq!(
                (indices.0.value, indices.1.value, indices.2.value, indices.3.value),
                (1, 2, 3, 4)
            );
            assert_eq!(weights.0.bits, ws[0].to_bits());
            assert_eq!(weights.1.bits, ws[1].to_bits());
            assert_eq!(weights.2.bits, ws[2].to_bits());
            assert_eq!(weights.3.bits, ws[3].to_bits());
        },
        other => panic!("expected Bdef4, got {:?}", other),
    }
}

#[test]
fn sdef_reads_weight_and_three_vectors_in_order() {
    let mut bytes = vec![7, 8];
    bytes.extend_from_slice(&0.25f32.to_le_bytes());
    for f in [1.0f32, 2.0, 3.0, 4.0, 5.0, 6.0, 7.0, 8.0, 9.0] {
        bytes.extend_from_slice(&f.to_le_bytes());
    }
    let mut cur = ByteCursor::new(bytes);
    let wd = WeightDeform::parse(&mut cur, 3, IndexSize::Size1, false).unwrap();
    match wd {
        WeightDeform::Sdef { indices, weight, c, r0, r1 } => {
            assert_eq!((indices.0.value, indices.1.value), (7, 8));
            assert_eq!(weight.bits, 0.25f32.to_bits());
            assert_eq!((c.x.bits, c.y.bits, c.z.bits),
                (1.0f32.to_bits(), 2.0f32.to_bits(), 3.0f32.to_bits()));
            assert_eq!((r0.x.bits, r0.y.bits, r0.z.bits),
                (4.0f32.to_bits(), 5.0f32.to_bits(), 6.0f32.to_bits()));
            assert_eq!((r1.x.bits, r1.y.bits, r1.z.bits),
                (7.0f32.to_bits(), 8.0f32.to_bits(), 9.0f32.to_bits()));
            let derived = 1.0f32 - f32::from_bits(weight.bits);
            assert_eq!(derived.to_bits(), 0.75f32.to_bits());
        },
        other => panic!("expected Sdef, got {:?}", other),
    }
}

#[test]
fn qdef_matches_bdef4_layout() {
    let mut bytes = vec![1, 0, 2, 0, 3, 0, 4, 0];
    for w in [0.1f32, 0.2, 0.3, 0.4] {
        bytes.extend_from_slice(&w.to_le_bytes());
    }
    let mut cur = ByteCursor::new(bytes);
    let wd = WeightDeform::parse(&mut cur, 4, IndexSize::Size2, false).unwrap();
    match wd {
        WeightDeform::Qdef { indices, weights } => {
            assert_eq!(
                (indices.0.value, indices.1.value, indices.2.value, indices.3.value),
                (1, 2, 3, 4)
            );
            assert_eq!(weights.3.bits, 0.4f32.to_bits());
        },
        other => panic!("expected Qdef, got {:?}", other),
    }
}

#[test]
fn weight_deform_unknown_tag_rejected() {
    for tag in [5u8, 6, 100, 255] {
        let mut cur = ByteCursor::new(vec![0, 0, 0, 0]);
        let err = WeightDeform::parse(&mut cur, tag, IndexSize::Size1, false).unwrap_err();
        assert_eq!(err, vertex::Error::InvalidWeightDeformType);
    }
}

#[test]
fn vertices_negative_count_rejected() {
    let mut cur = ByteCursor::new((-1i32).to_le_bytes().to_vec());
    let err = Vertices::parse(&mut cur, 0, 1).unwrap_err();
    assert_eq!(err, vertex::Error::NegativeSize);
}

#[test]
fn surfaces_negative_count_rejected() {
    let mut cur = ByteCursor::new((-1i32).to_le_bytes().to_vec());
    let err = Surfaces::parse(&mut cur, 1).unwrap_err();
    assert_eq!(err, surface::Error::NegativeSize);
}

#[test]
fn textures_negative_count_rejected() {
    let mut cur = ByteCursor::new((-1i32).to_le_bytes().to_vec());
    let err = Textures::parse(&mut cur, TextEncoding::UTF8).unwrap_err();
    assert_eq!(err, texture::Error::NegativeSize);
}

#[test]
fn materials_negative_count_rejected() {
    let mut cur = ByteCursor::new((-1i32).to_le_bytes().to_vec());
    let err = Materials::parse(&mut cur, 1, TextEncoding::UTF8).unwrap_err();
    assert_eq!(err, material::Error::NegativeSize);
}

#[test]
fn surfaces_parse_indices_in_order() {
    let mut bytes = 3i32.to_le_bytes().to_vec();
    bytes.extend_from_slice(&[10, 20, 30]);
    let mut cur = ByteCursor::new(bytes);
    let surfaces = Surfaces::parse(&mut cur, 1).unwrap();
    assert_eq!(surfaces.len(), 3);
    let values: Vec<i32> = surfaces.surfaces().iter().map(|s| s.index.value).collect();
    assert_eq!(values, vec![10, 20, 30]);
}

#[test]
fn surfaces_bad_width_rejected_at_first_record() {
    let mut bytes = 1i32.to_le_bytes().to_vec();
    bytes.push(0);
    let mut cur = ByteCursor::new(bytes);
    let err = Surfaces::parse(&mut cur, 3).unwrap_err();
    assert_eq!(err, surface::Error::Type(types::Error::IndexSizeMismatch));
}

#[test]
fn surfaces_bad_width_ignored_when_empty() {
    // a zero-count section never reads a record, so the width is not checked
    let mut cur = ByteCursor::new(0i32.to_le_bytes().to_vec());
    let surfaces = Surfaces::parse(&mut cur, 3).unwrap();
    assert_eq!(surfaces.len(), 0);
}

#[test]
fn vertex_bad_width_rejected() {
    let mut bytes = 1i32.to_le_bytes().to_vec();
    bytes.extend_from_slice(&[0u8; 32]);
    bytes.push(0); // weight-deform tag
    bytes.push(0); // the index byte the deform would read
    bytes.extend_from_slice(&0.0f32.to_le_bytes());
    let mut cur = ByteCursor::new(bytes);
    let err = Vertices::parse(&mut cur, 0, 3).unwrap_err();
    assert_eq!(err, vertex::Error::Type(types::Error::IndexSizeMismatch));
}

#[test]
fn vertex_extra_vec4s_parsed() {
    let mut bytes = 1i32.to_le_bytes().to_vec();
    for f in 0..8 {
        bytes.extend_from_slice(&(f as f32).to_le_bytes());
    }
    // two extra 4-float vectors
    for f in 0..8 {
        bytes.extend_from_slice(&((10 + f) as f32).to_le_bytes());
    }
    bytes.push(0); // Bdef1
    bytes.push(9); // vertex index
    bytes.extend_from_slice(&0.5f32.to_le_bytes()); // edge scale
    let mut cur = ByteCursor::new(bytes);
    let vertices = Vertices::parse(&mut cur, 2, 1).unwrap();
    assert_eq!(vertices.len(), 1);
    let v = &vertices.vertices()[0];
    assert_eq!(v.pos.x.bits, 0.0f32.to_bits());
    assert_eq!(v.pos.z.bits, 2.0f32.to_bits());
    assert_eq!(v.normal.x.bits, 3.0f32.to_bits());
    assert_eq!(v.uv.y.bits, 7.0f32.to_bits());
    let extra = v.extra_vec4.as_ref().unwrap();
    assert_eq!(extra.len(), 2);
    assert_eq!(extra[0].x.bits, 10.0f32.to_bits());
    assert_eq!(extra[1].w.bits, 17.0f32.to_bits());
    assert_eq!(v.edge_scale.bits, 0.5f32.to_bits());
}

#[test]
fn textures_parse_paths_in_order() {
    let mut bytes = 2i32.to_le_bytes().to_vec();
    bytes.extend_from_slice(&text_bytes(b"one.png"));
    bytes.extend_from_slice(&text_bytes(b"two.bmp"));
    let mut cur = ByteCursor::new(bytes);
    let textures = Textures::parse(&mut cur, TextEncoding::UTF8).unwrap();
    assert_eq!(textures.len(), 2);
    assert_eq!(textures.textures()[0].path().decoded().as_str(), "one.png");
    assert_eq!(textures.textures()[1].path().decoded().as_str(), "two.bmp");
}

fn material_record(surface_count: i32) -> Vec<u8> {
    let mut bytes = text_bytes("mat".as_bytes());
    bytes.extend_from_slice(&text_bytes(b"mat-en"));
    for f in [1.0f32, 0.5, 0.25, 1.0] {
        bytes.extend_from_slice(&f.to_le_bytes()); // diffuse
    }
    for f in [0.1f32, 0.2, 0.3] {
        bytes.extend_from_slice(&f.to_le_bytes()); // specular
    }
    bytes.extend_from_slice(&5.0f32.to_le_bytes()); // specular strength
    for f in [0.4f32, 0.5, 0.6] {
        bytes.extend_from_slice(&f.to_le_bytes()); // ambient
    }
    bytes.push(0b0000_0101); // flags
    for f in [0.0f32, 0.0, 0.0, 1.0] {
        bytes.extend_from_slice(&f.to_le_bytes()); // edge color
    }
    bytes.extend_from_slice(&1.5f32.to_le_bytes()); // edge scale
    bytes.push(2); // texture index
    bytes.push(0xFF); // environment index: nil
    bytes.push(0); // environment blend: disabled
    bytes.push(1); // toon: built-in
    bytes.push(3); // toon selector
    bytes.extend_from_slice(&text_bytes(b"memo"));
    bytes.extend_from_slice(&surface_count.to_le_bytes());
    bytes
}

#[test]
fn material_record_fields() {
    let mut bytes = 1i32.to_le_bytes().to_vec();
    bytes.extend_from_slice(&material_record(6));
    let mut cur = ByteCursor::new(bytes);
    let materials = Materials::parse(&mut cur, 1, TextEncoding::UTF8).unwrap();
    assert_eq!(materials.len(), 1);
    let m = &materials.materials()[0];
    assert_eq!(m.name_local().decoded().as_str(), "mat");
    assert_eq!(m.name_universal().decoded().as_str(), "mat-en");
    assert_eq!(m.diffuse().y.bits, 0.5f32.to_bits());
    assert_eq!(m.specular().z.bits, 0.3f32.to_bits());
    assert_eq!(m.specular_strength().bits, 5.0f32.to_bits());
    assert_eq!(m.ambient().x.bits, 0.4f32.to_bits());
    assert!(m.flags().get_state(0));
    assert!(!m.flags().get_state(1));
    assert!(m.flags().get_state(2));
    assert_eq!(m.edge_color().w.bits, 1.0f32.to_bits());
    assert_eq!(m.edge_scale().bits, 1.5f32.to_bits());
    assert_eq!(m.tex_idx().value, 2);
    assert!(m.env_idx().is_nil());
    assert_eq!(m.env_blend(), EnvironmentBlend::Disabled);
    assert_eq!(m.toon(), Toon::Internal(3));
    assert_eq!(m.meta().decoded().as_str(), "memo");
    assert_eq!(m.surface_count(), 6);
}

#[test]
fn material_environment_blend_additional_color() {
    let mut bytes = material_record(0);
    // rewrite the blend byte from disabled to additional-with-color
    let blend_at = bytes.len() - 4 - text_bytes(b"memo").len() - 2 - 1;
    assert_eq!(bytes[blend_at], 0);
    bytes[blend_at] = 3;
    let mut color = Vec::new();
    for f in [0.9f32, 0.8, 0.7, 0.6] {
        color.extend_from_slice(&f.to_le_bytes());
    }
    bytes.splice(blend_at + 1..blend_at + 1, color);
    let mut full = 1i32.to_le_bytes().to_vec();
    full.extend_from_slice(&bytes);
    let mut cur = ByteCursor::new(full);
    let materials = Materials::parse(&mut cur, 1, TextEncoding::UTF8).unwrap();
    let m = &materials.materials()[0];
    match m.env_blend() {
        EnvironmentBlend::Additional(c) => {
            assert_eq!(c.x.bits, 0.9f32.to_bits());
            assert_eq!(c.w.bits, 0.6f32.to_bits());
        },
        other => panic!("expected additional blend, got {:?}", other),
    }
}

#[test]
fn material_invalid_environment_blend_rejected() {
    let mut bytes = material_record(0);
    let blend_at = bytes.len() - 4 - text_bytes(b"memo").len() - 2 - 1;
    bytes[blend_at] = 4;
    let mut full = 1i32.to_le_bytes().to_vec();
    full.extend_from_slice(&bytes);
    let mut cur = ByteCursor::new(full);
    let err = Materials::parse(&mut cur, 1, TextEncoding::UTF8).unwrap_err();
    assert_eq!(err, material::Error::InvalidEnvironmentBlend);
}

#[test]
fn material_invalid_toon_reference_rejected() {
    let mut bytes = material_record(0);
    let toon_at = bytes.len() - 4 - text_bytes(b"memo").len() - 2;
    assert_eq!(bytes[toon_at], 1);
    bytes[toon_at] = 2;
    let mut full = 1i32.to_le_bytes().to_vec();
    full.extend_from_slice(&bytes);
    let mut cur = ByteCursor::new(full);
    let err = Materials::parse(&mut cur, 1, TextEncoding::UTF8).unwrap_err();
    assert_eq!(err, material::Error::InvalidToonReference);
}

#[test]
fn material_toon_texture_reference() {
    let mut bytes = material_record(0);
    let toon_at = bytes.len() - 4 - text_bytes(b"memo").len() - 2;
    // toon tag 0: a texture index follows instead of the selector byte
    bytes[toon_at] = 0;
    bytes[toon_at + 1] = 0xFE; // index -2 at width 1, signed
    let mut full = 1i32.to_le_bytes().to_vec();
    full.extend_from_slice(&bytes);
    let mut cur = ByteCursor::new(full);
    let materials = Materials::parse(&mut cur, 1, TextEncoding::UTF8).unwrap();
    match materials.materials()[0].toon() {
        Toon::Texture(idx) => assert_eq!(idx.value, -2),
        other => panic!("expected texture toon, got {:?}", other),
    }
}

#[test]
fn material_negative_surface_count_rejected() {
    let mut bytes = 1i32.to_le_bytes().to_vec();
    bytes.extend_from_slice(&material_record(-1));
    let mut cur = ByteCursor::new(bytes);
    let err = Materials::parse(&mut cur, 1, TextEncoding::UTF8).unwrap_err();
    assert_eq!(err, material::Error::NegativeSize);
}
