use chaos_renderer::layout::{
    ColorVertex, LitVertex, TexturedVertex, VertexAttributeFormat, VertexLayout,
};

fn bits(values: [f32; 3]) -> [u32; 3] {
    [values[0].to_bits(), values[1].to_bits(), values[2].to_bits()]
}

#[test]
fn the_lit_vertex_declares_its_layout() {
    let layout = LitVertex::layout();
    assert_eq!(layout.stride, 32);
    assert_eq!(layout.attributes.len(), 3);
    assert_eq!(layout.attributes[1].offset, 12);
    assert_eq!(layout.attributes[2].offset, 24);
    let vertex = LitVertex {
        position: bits([1.0, 2.0, 3.0]),
        normal: bits([0.0, 1.0, 0.0]),
        uv: [0.5f32.to_bits(), 0.25f32.to_bits()],
    };
    let bytes = LitVertex::bytes_of(&[vertex]);
    assert_eq!(bytes.len(), 32);
    assert_eq!(bytes[12..16], 0.0f32.to_ne_bytes());
    assert_eq!(bytes[16..20], 1.0f32.to_ne_bytes());
}

#[test]
fn the_other_vertex_types_are_packed() {
    let color = ColorVertex::layout();
    assert_eq!(color.stride, 24);
    assert_eq!(color.attributes[1].offset, 12);
    assert_eq!(color.attributes[1].format, VertexAttributeFormat::Float32x3);
    let textured = TexturedVertex::layout();
    assert_eq!(textured.stride, 20);
    assert_eq!(textured.attributes[1].location, 1);
}

#[test]
fn a_layout_without_position_cannot_cast_shadows() {
    let uv_only = VertexLayout::packed(&[VertexAttributeFormat::Float32x2]);
    assert!(!uv_only.has_position());
    assert!(LitVertex::layout().has_position());
    assert!(LitVertex::layout().same_as(&LitVertex::layout()));
    assert!(!LitVertex::layout().same_as(&ColorVertex::layout()));
    assert!(LitVertex::layout().duplicate().same_as(&LitVertex::layout()));
}

#[test]
fn bytes_of_concatenates_vertices() {
    let a = LitVertex { position: [1, 2, 3], normal: [4, 5, 6], uv: [7, 8] };
    let b = LitVertex { position: [0x0403_0201, 0, 0], normal: [0, 0, 0], uv: [0, 0] };
    let bytes = LitVertex::bytes_of(&[a, b]);
    assert_eq!(bytes.len(), 64);
    assert_eq!(bytes[0..4], [1, 0, 0, 0]);
    assert_eq!(bytes[28..32], [8, 0, 0, 0]);
    assert_eq!(bytes[32..36], [1, 2, 3, 4]);
    assert!(LitVertex::bytes_of(&[]).is_empty());
}
