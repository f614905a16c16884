use magiebleue::functions::{gen_patches, PatchVertex};
use magiebleue::gl_objects::{
    vertex_buffer_bytes, vertex_layout, Buffer, VertexArray, VertexAttribute,
    VERTEX_STRIDE_BYTES,
};
use magiebleue::textures::{scale_behaviour_valid, TexScaleOp, TexScaleType, Texture};
use magiebleue::wavefront_parser::Vertex;
use magiebleue::KeyTracker;

fn pv(xi: u32, zi: u32) -> PatchVertex {
    PatchVertex { xi, zi }
}

#[test]
fn patch_grid_of_one_cell() {
    let mut vs: Vec<PatchVertex> = Vec::new();
    gen_patches(&mut vs, 1);
    assert_eq!(vs, vec![pv(0, 0), pv(1, 0), pv(0, 1), pv(1, 1)]);
}

#[test]
fn patch_grid_of_two_by_two_cells() {
    let mut vs: Vec<PatchVertex> = Vec::new();
    gen_patches(&mut vs, 2);
    assert_eq!(vs.len(), 16);
    // Cells come row-major: (0,0), (0,1), (1,0), (1,1).
    assert_eq!(&vs[0..4], &[pv(0, 0), pv(1, 0), pv(0, 1), pv(1, 1)]);
    assert_eq!(&vs[4..8], &[pv(0, 1), pv(1, 1), pv(0, 2), pv(1, 2)]);
    assert_eq!(&vs[8..12], &[pv(1, 0), pv(2, 0), pv(1, 1), pv(2, 1)]);
    assert_eq!(&vs[12..16], &[pv(1, 1), pv(2, 1), pv(1, 2), pv(2, 2)]);
}

#[test]
fn patch_grid_of_zero_resolution_is_empty() {
    let mut vs: Vec<PatchVertex> = Vec::new();
    gen_patches(&mut vs, 0);
    assert!(vs.is_empty());
}

#[test]
fn patch_grid_appends_after_existing_data() {
    let mut vs = vec![pv(7, 7)];
    gen_patches(&mut vs, 1);
    assert_eq!(vs.len(), 5);
    assert_eq!(vs[0], pv(7, 7));
    assert_eq!(vs[1], pv(0, 0));
}

#[test]
fn layout_declares_position_texture_normal() {
    let layout = vertex_layout();
    assert_eq!(
        layout,
        vec![
            VertexAttribute { index: 0, components: 3, byte_offset: 0 },
            VertexAttribute { index: 1, components: 2, byte_offset: 12 },
            VertexAttribute { index: 2, components: 3, byte_offset: 20 },
        ]
    );
    assert_eq!(VERTEX_STRIDE_BYTES, 32);
}

#[test]
fn vertex_bytes_hold_one_record_per_vertex() {
    let v = Vertex {
        px: 1.0f32.to_bits(),
        py: 2.0f32.to_bits(),
        pz: 3.0f32.to_bits(),
        tu: 0.5f32.to_bits(),
        tv: 0.25f32.to_bits(),
        nx: 0.0f32.to_bits(),
        ny: 1.0f32.to_bits(),
        nz: 0.0f32.to_bits(),
    };
    let bytes = vertex_buffer_bytes(&vec![v, v]);
    assert_eq!(bytes.len(), 64);
    // The storage is reinterpreted, not copied field by field: the
    // first word must be the native bytes of the first component.
    assert_eq!(&bytes[0..4], &1.0f32.to_ne_bytes());
    assert_eq!(&bytes[12..16], &0.5f32.to_ne_bytes());
    assert_eq!(&bytes[32..36], &1.0f32.to_ne_bytes());
}

#[test]
fn handles_refuse_the_zero_name() {
    assert!(Buffer::from_raw(0).is_none());
    assert_eq!(Buffer::from_raw(3).map(|b| b.0), Some(3));
    assert!(Texture::from_raw(0).is_none());
    assert_eq!(Texture::from_raw(9).map(|t| t.0), Some(9));
    assert!(VertexArray::from_raw(0).is_none());
    let vao = VertexArray::from_raw(4).unwrap();
    assert_eq!(vao.0, 4);
    assert!(vao.1.is_none());
    assert!(vao.2.is_none());
}

#[test]
fn vertex_array_draw_count_follows_attachment() {
    let mut vao = VertexArray::from_raw(4).unwrap();
    assert_eq!(vao.draw_count(), None);
    let zero = Vertex { px: 0, py: 0, pz: 0, tu: 0, tv: 0, nx: 0, ny: 0, nz: 0 };
    vao.set_vertex_data(Buffer(2), vec![zero; 3]);
    assert_eq!(vao.draw_count(), Some(3));
}

#[test]
fn magnification_accepts_only_plain_scaling() {
    assert!(scale_behaviour_valid(TexScaleType::Magnify, TexScaleOp::Nearest));
    assert!(scale_behaviour_valid(TexScaleType::Magnify, TexScaleOp::Linear));
    assert!(!scale_behaviour_valid(
        TexScaleType::Magnify,
        TexScaleOp::LinearMipmapLinear
    ));
    assert!(!scale_behaviour_valid(
        TexScaleType::Magnify,
        TexScaleOp::NearestMipmapNearest
    ));
}

#[test]
fn minification_accepts_every_scaling() {
    for op in [
        TexScaleOp::Nearest,
        TexScaleOp::Linear,
        TexScaleOp::NearestMipmapNearest,
        TexScaleOp::LinearMipmapNearest,
        TexScaleOp::NearestMipmapLinear,
        TexScaleOp::LinearMipmapLinear,
    ] {
        assert!(scale_behaviour_valid(TexScaleType::Minify, op));
    }
}

#[test]
fn key_tracker_follows_press_and_release() {
    let mut keys = KeyTracker::new();
    assert!(!keys.is_pressed(65));
    keys.press(65);
    keys.press(87);
    assert!(keys.is_pressed(65));
    assert!(keys.is_pressed(87));
    keys.press(65);
    keys.release(65);
    assert!(!keys.is_pressed(65));
    assert!(keys.is_pressed(87));
    keys.release(42);
    assert!(keys.is_pressed(87));
}
