use sermmde::cursor::ByteCursor;
use sermmde::pmx::{self, Pmx};
use sermmde::surface;
use sermmde::types::TextEncoding;
use sermmde::vertex::{self, WeightDeform};

fn text_bytes(body: &[u8]) -> Vec<u8> {
    let mut out = (body.len() as i32).to_le_bytes().to_vec();
    out.extend_from_slice(body);
    out
}

/// A minimal header: tag "PMX ", version 2.0, 8 globals
/// (UTF-8, no extra vectors, every index width 1), empty name and comment
/// pairs.
fn minimal_header() -> Vec<u8> {
    let mut bytes = b"PMX ".to_vec();
    bytes.extend_from_slice(&2.0f32.to_le_bytes());
    bytes.extend_from_slice(&[8, 1, 0, 1, 1, 1, 1, 1, 1]);
    for _ in 0..4 {
        bytes.extend_from_slice(&text_bytes(b""));
    }
    bytes
}

#[test]
fn empty_model_decodes() {
    let mut bytes = minimal_header();
    bytes.extend_from_slice(&0i32.to_le_bytes()); // vertices
    bytes.extend_from_slice(&0i32.to_le_bytes()); // surfaces
    bytes.extend_from_slice(&0i32.to_le_bytes()); // textures
    let mut cur = ByteCursor::new(bytes);
    let model = Pmx::parse(&mut cur).unwrap();
    assert_eq!(model.vertices().len(), 0);
    assert_eq!(model.surfaces().len(), 0);
    assert_eq!(model.textures().len(), 0);
    let header = model.header();
    assert_eq!(header.version().bits, 2.0f32.to_bits());
    assert_eq!(header.globals().encoding(), TextEncoding::UTF8);
    assert_eq!(header.globals().vec4_additional(), 0);
    assert_eq!(header.globals().vert_idx_size(), 1);
    assert_eq!(header.name().local.decoded().as_str(), "");
    assert_eq!(header.comment().universal.decoded().as_str(), "");
}

#[test]
fn single_vertex_model_decodes() {
    let mut bytes = minimal_header();
    bytes.extend_from_slice(&1i32.to_le_bytes()); // one vertex
    bytes.extend_from_slice(&[0u8; 32]); // position, normal, uv
    bytes.push(0); // weight-deform tag: one bone
    bytes.push(0x00); // its 1-byte vertex index
    bytes.extend_from_slice(&0.0f32.to_le_bytes()); // edge scale
    bytes.extend_from_slice(&0i32.to_le_bytes()); // surfaces
    bytes.extend_from_slice(&0i32.to_le_bytes()); // textures
    let mut cur = ByteCursor::new(bytes);
    let model = Pmx::parse(&mut cur).unwrap();
    assert_eq!(model.vertices().len(), 1);
    let v = &model.vertices().vertices()[0];
    assert!(v.extra_vec4.is_none());
    match v.weight_deform {
        WeightDeform::Bdef1 { index } => {
            assert_eq!(index.value, 0);
            assert!(!index.is_nil());
        },
        other => panic!("expected Bdef1, got {:?}", other),
    }
}

#[test]
fn texture_section_paths_in_order() {
    let mut bytes = minimal_header();
    bytes.extend_from_slice(&0i32.to_le_bytes()); // vertices
    bytes.extend_from_slice(&0i32.to_le_bytes()); // surfaces
    bytes.extend_from_slice(&2i32.to_le_bytes()); // two textures
    bytes.extend_from_slice(&text_bytes(b"tex/a.png"));
    bytes.extend_from_slice(&text_bytes(b"tex/b.png"));
    let mut cur = ByteCursor::new(bytes);
    let model = Pmx::parse(&mut cur).unwrap();
    assert_eq!(model.textures().len(), 2);
    assert_eq!(model.textures().textures()[0].path().decoded().as_str(), "tex/a.png");
    assert_eq!(model.textures().textures()[1].path().decoded().as_str(), "tex/b.png");
}

#[test]
fn wrong_tag_rejected() {
    let mut bytes = minimal_header();
    bytes[0] = b'X';
    bytes.extend_from_slice(&0i32.to_le_bytes());
    let mut cur = ByteCursor::new(bytes);
    let err = Pmx::parse(&mut cur).unwrap_err();
    assert_eq!(err, pmx::Error::InvalidTag);
}

#[test]
fn fourth_tag_byte_not_validated() {
    let mut bytes = minimal_header();
    bytes[3] = 0xEE; // anything may follow "PMX"
    bytes.extend_from_slice(&0i32.to_le_bytes());
    bytes.extend_from_slice(&0i32.to_le_bytes());
    bytes.extend_from_slice(&0i32.to_le_bytes());
    let mut cur = ByteCursor::new(bytes);
    assert!(Pmx::parse(&mut cur).is_ok());
}

#[test]
fn truncated_file_rejected() {
    let mut cur = ByteCursor::new(b"PM".to_vec());
    assert_eq!(Pmx::parse(&mut cur).unwrap_err(), pmx::Error::UnexpectedEnd);
    let mut cur = ByteCursor::new(minimal_header());
    // sections missing entirely
    assert_eq!(
        Pmx::parse(&mut cur).unwrap_err(),
        pmx::Error::VertexError(vertex::Error::UnexpectedEnd)
    );
}

#[test]
fn negative_vertex_count_propagates() {
    let mut bytes = minimal_header();
    bytes.extend_from_slice(&(-1i32).to_le_bytes());
    let mut cur = ByteCursor::new(bytes);
    let err = Pmx::parse(&mut cur).unwrap_err();
    assert_eq!(err, pmx::Error::VertexError(vertex::Error::NegativeSize));
}

#[test]
fn negative_surface_count_propagates() {
    let mut bytes = minimal_header();
    bytes.extend_from_slice(&0i32.to_le_bytes());
    bytes.extend_from_slice(&(-1i32).to_le_bytes());
    let mut cur = ByteCursor::new(bytes);
    let err = Pmx::parse(&mut cur).unwrap_err();
    assert_eq!(err, pmx::Error::SurfaceError(surface::Error::NegativeSize));
}

#[test]
fn surfaces_use_vertex_index_width() {
    let mut bytes = b"PMX ".to_vec();
    bytes.extend_from_slice(&2.0f32.to_le_bytes());
    // vertex indices 2 bytes wide, everything else 1
    bytes.extend_from_slice(&[8, 1, 0, 2, 1, 1, 1, 1, 1]);
    for _ in 0..4 {
        bytes.extend_from_slice(&text_bytes(b""));
    }
    bytes.extend_from_slice(&0i32.to_le_bytes()); // vertices
    bytes.extend_from_slice(&3i32.to_le_bytes()); // three surface corners
    for idx in [260u16, 261, 262] {
        bytes.extend_from_slice(&idx.to_le_bytes());
    }
    bytes.extend_from_slice(&0i32.to_le_bytes()); // textures
    let mut cur = ByteCursor::new(bytes);
    let model = Pmx::parse(&mut cur).unwrap();
    let values: Vec<i32> = model.surfaces().surfaces().iter().map(|s| s.index.value).collect();
    assert_eq!(values, vec![260, 261, 262]);
}

#[test]
fn utf16_model_name_decodes() {
    let mut bytes = b"PMX ".to_vec();
    bytes.extend_from_slice(&2.0f32.to_le_bytes());
    bytes.extend_from_slice(&[8, 0, 0, 1, 1, 1, 1, 1, 1]); // UTF-16LE
    let name = "モデル";
    let mut body: Vec<u8> = Vec::new();
    for unit in name.encode_utf16() {
        body.extend_from_slice(&unit.to_le_bytes());
    }
    bytes.extend_from_slice(&text_bytes(&body));
    for _ in 0..3 {
        bytes.extend_from_slice(&text_bytes(b""));
    }
    bytes.extend_from_slice(&0i32.to_le_bytes());
    bytes.extend_from_slice(&0i32.to_le_bytes());
    bytes.extend_from_slice(&0i32.to_le_bytes());
    let mut cur = ByteCursor::new(bytes);
    let model = Pmx::parse(&mut cur).unwrap();
    assert_eq!(model.header().name().local.decoded().as_str(), name);
}
