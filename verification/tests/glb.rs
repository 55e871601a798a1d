use b3dm_tiles::buffer::pack_buffer;
use b3dm_tiles::buffer::{check_fits_u16, checked_buffer_len};
use b3dm_tiles::glb::{
    align_to_multiple_of_four, calc_max, container_result, get_glb, try_get_glb, GlbError,
};
use b3dm_tiles::layout::{
    buffer_layout, try_buffer_layout, Accessor, BufferView, ComponentType, ElementType, Primitive,
    ScalarBounds, Target,
};
use b3dm_tiles::le::{push_u16_le, push_u32_le};
use b3dm_tiles::mesh::Mesh;

fn bits(x: f32) -> u32 {
    x.to_bits()
}

fn small_mesh(name: &str, vertices: usize, triangles: &[[i32; 3]]) -> Mesh {
    Mesh {
        vertex: (0..vertices).map(|v| [bits(v as f32), bits(0.5), bits(-2.0)]).collect(),
        mesh_name: name.to_string(),
        index: triangles.to_vec(),
        normal: (0..vertices).map(|_| [bits(0.0), bits(0.0), bits(1.0)]).collect(),
        height: bits(2.0),
    }
}

fn le16(x: u16) -> Vec<u8> {
    x.to_le_bytes().to_vec()
}

fn le32(x: u32) -> Vec<u8> {
    x.to_le_bytes().to_vec()
}

#[test]
fn align_u32_rounds_up() {
    for (n, want) in [(0u32, 0u32), (1, 4), (2, 4), (3, 4), (4, 4), (5, 8), (17, 20), (4294967292, 4294967292)] {
        let mut x = n;
        align_to_multiple_of_four(&mut x);
        assert_eq!(x, want);
    }
}

#[test]
fn little_endian_u32_is_least_significant_first() {
    let mut buf = vec![9u8];
    push_u32_le(&mut buf, 0x0102_0304);
    assert_eq!(buf, vec![9, 4, 3, 2, 1]);
    push_u32_le(&mut buf, 1);
    assert_eq!(&buf[5..], &[1, 0, 0, 0]);
}

#[test]
fn little_endian_u16_is_least_significant_first() {
    let mut buf = Vec::new();
    push_u16_le(&mut buf, 0x1234);
    push_u16_le(&mut buf, 65535);
    assert_eq!(buf, vec![0x34, 0x12, 0xFF, 0xFF]);
}

#[test]
fn calc_max_is_greatest_corner() {
    assert_eq!(calc_max(&vec![[0, 1, 2], [2, 0, 7], [3, 4, 5]]), 7);
    assert_eq!(calc_max(&vec![[9, 1, 2]]), 9);
    assert_eq!(calc_max(&vec![[1, 1, 12]]), 12);
}

#[test]
fn calc_max_is_never_below_zero() {
    assert_eq!(calc_max(&vec![]), 0);
    assert_eq!(calc_max(&vec![[-3, -1, -2]]), 0);
    assert_eq!(calc_max(&vec![[0, 0, 0]]), 0);
}

#[test]
fn layout_of_one_mesh() {
    let meshes = vec![small_mesh("mesh_0", 3, &[[0, 1, 2]])];
    let layout = buffer_layout(&meshes);
    let view = |byte_length, byte_offset, byte_stride, target| BufferView {
        byte_length,
        byte_offset,
        byte_stride,
        target,
    };
    assert_eq!(
        layout.buffer_views,
        vec![
            view(8, 0, 2, Target::ElementArrayBuffer),
            view(36, 8, 12, Target::ArrayBuffer),
            view(36, 44, 12, Target::ArrayBuffer),
            view(8, 80, 2, Target::ElementArrayBuffer),
        ]
    );
    assert_eq!(layout.byte_length, 88);
    assert_eq!(
        layout.accessors,
        vec![
            Accessor {
                buffer_view: 0,
                count: 3,
                component_type: ComponentType::U16,
                type_: ElementType::Scalar,
                bounds: Some(ScalarBounds { min: 0, max: 2 }),
            },
            Accessor {
                buffer_view: 1,
                count: 3,
                component_type: ComponentType::F32,
                type_: ElementType::Vec3,
                bounds: None,
            },
            Accessor {
                buffer_view: 2,
                count: 3,
                component_type: ComponentType::F32,
                type_: ElementType::Vec3,
                bounds: None,
            },
            Accessor {
                buffer_view: 3,
                count: 3,
                component_type: ComponentType::U16,
                type_: ElementType::Scalar,
                bounds: Some(ScalarBounds { min: 0, max: 0 }),
            },
        ]
    );
    assert_eq!(
        layout.primitives,
        vec![Primitive { indices: 0, positions: 1, normals: 2, batch_id: 3, material: 0 }]
    );
    assert_eq!(layout.names, vec!["mesh_0".to_string()]);
    assert_eq!(layout.nodes, vec![0]);
    assert_eq!(layout.scene, vec![0]);
}

#[test]
fn layout_has_one_node_and_name_per_mesh() {
    let meshes = vec![small_mesh("a", 1, &[]), small_mesh("b", 0, &[]), small_mesh("c", 2, &[])];
    let layout = buffer_layout(&meshes);
    assert_eq!(layout.names, vec!["a".to_string(), "b".to_string(), "c".to_string()]);
    assert_eq!(layout.nodes, vec![0, 1, 2]);
    assert_eq!(layout.scene, vec![0, 1, 2]);
}

#[test]
fn checked_variants_agree_on_small_inputs() {
    let meshes = vec![small_mesh("a", 2, &[[0, 1, 1]]), small_mesh("b", 3, &[[0, 1, 2]])];
    let direct = buffer_layout(&meshes);
    let checked = try_buffer_layout(&meshes).expect("a small layout");
    assert_eq!(checked.buffer_views, direct.buffer_views);
    assert_eq!(checked.accessors, direct.accessors);
    assert_eq!(checked.primitives, direct.primitives);
    assert_eq!(checked.byte_length, direct.byte_length);
    assert_eq!(checked_buffer_len(&meshes), Some(direct.byte_length));
    assert_eq!(direct.byte_length, 8 + 24 + 24 + 4 + 8 + 36 + 36 + 8);
    let json = b"{\"x\":0}".to_vec();
    let wrapped = try_get_glb(
        vec![small_mesh("a", 2, &[[0, 1, 1]]), small_mesh("b", 3, &[[0, 1, 2]])],
        json.clone(),
    );
    assert_eq!(wrapped, get_glb(meshes, json));
    assert!(wrapped.is_ok());
}

#[test]
fn layout_numbers_views_and_accessors_by_mesh_position() {
    let meshes: Vec<Mesh> =
        (0..9).map(|i| small_mesh("m", i + 1, &[[0, 0, i as i32], [0, 0, 0]])).collect();
    let layout = buffer_layout(&meshes);
    assert_eq!(layout.buffer_views.len(), 36);
    assert_eq!(layout.accessors.len(), 36);
    assert_eq!(layout.primitives.len(), 9);
    let mut seen = Vec::new();
    for i in 0..9u32 {
        let p = layout.primitives[i as usize];
        assert_eq!([p.indices, p.positions, p.normals, p.batch_id], [4 * i, 4 * i + 1, 4 * i + 2, 4 * i + 3]);
        assert_eq!(p.material, 0);
        for c in 0..4u32 {
            let a = layout.accessors[(4 * i + c) as usize];
            assert_eq!(a.buffer_view, 4 * i + c);
            assert!(!seen.contains(&a.buffer_view));
            seen.push(a.buffer_view);
        }
        assert_eq!(layout.accessors[(4 * i) as usize].bounds, Some(ScalarBounds { min: 0, max: i }));
        assert_eq!(layout.accessors[(4 * i + 3) as usize].bounds, Some(ScalarBounds { min: i, max: i }));
        assert_eq!(layout.accessors[(4 * i) as usize].count, 6);
        assert_eq!(layout.accessors[(4 * i + 1) as usize].count, i + 1);
    }
}

#[test]
fn layout_sections_are_aligned_and_contiguous() {
    let meshes: Vec<Mesh> = (0..7).map(|i| small_mesh("m", i, &vec![[0, 0, 0]; i])).collect();
    let layout = buffer_layout(&meshes);
    let mut next = 0u32;
    for v in &layout.buffer_views {
        assert_eq!(v.byte_offset % 4, 0);
        assert_eq!(v.byte_length % 4, 0);
        assert_eq!(v.byte_offset, next);
        next += v.byte_length;
    }
    assert_eq!(next, layout.byte_length);
    assert_eq!(pack_buffer(&meshes).len(), layout.byte_length as usize);
}

#[test]
fn buffer_of_one_mesh() {
    let meshes = vec![small_mesh("mesh_0", 1, &[[0, 1, 258]])];
    let mut want = Vec::new();
    want.extend(le16(0));
    want.extend(le16(1));
    want.extend(le16(258));
    want.extend([0, 0]);
    want.extend(le32(bits(0.0)));
    want.extend(le32(bits(0.5)));
    want.extend(le32(bits(-2.0)));
    want.extend(le32(bits(0.0)));
    want.extend(le32(bits(0.0)));
    want.extend(le32(bits(1.0)));
    want.extend(le16(0));
    want.extend([0, 0]);
    assert_eq!(pack_buffer(&meshes), want);
}

#[test]
fn buffer_repeats_mesh_position_per_vertex() {
    let meshes = vec![small_mesh("a", 0, &[]), small_mesh("b", 2, &[]), small_mesh("c", 3, &[])];
    let buffer = pack_buffer(&meshes);
    let layout = buffer_layout(&meshes);
    for (i, count) in [(1usize, 2usize), (2, 3)] {
        let view = layout.buffer_views[4 * i + 3];
        let region = &buffer[view.byte_offset as usize..(view.byte_offset + view.byte_length) as usize];
        let mut want = Vec::new();
        for _ in 0..count {
            want.extend(le16(i as u16));
        }
        while want.len() % 4 != 0 {
            want.push(0);
        }
        assert_eq!(region, &want[..]);
    }
}

#[test]
fn sixteen_bit_limits_are_checked() {
    assert!(check_fits_u16(&vec![small_mesh("m", 0, &[[0, 65535, 7]])]));
    assert!(check_fits_u16(&Vec::new()));
    for corner in [65536, -1, i32::MAX, i32::MIN] {
        for place in 0..3 {
            let mut triangle = [0, 1, 2];
            triangle[place] = corner;
            let meshes = vec![small_mesh("a", 1, &[[0, 0, 0]]), small_mesh("m", 0, &[[5, 5, 5], triangle])];
            assert!(!check_fits_u16(&meshes));
            assert!(try_buffer_layout(&meshes).is_none());
            assert_eq!(try_get_glb(meshes, b"{}".to_vec()), Err(GlbError::IndexRange));
        }
    }
}

#[test]
fn mesh_positions_must_fit_sixteen_bits() {
    let many = |n: usize| -> Vec<Mesh> { (0..n).map(|_| small_mesh("m", 0, &[])).collect() };
    assert!(check_fits_u16(&many(65536)));
    assert!(try_buffer_layout(&many(65536)).is_some());
    assert!(!check_fits_u16(&many(65537)));
    assert!(try_buffer_layout(&many(65537)).is_none());
    assert_eq!(try_get_glb(many(65537), b"{}".to_vec()), Err(GlbError::IndexRange));
}

#[test]
fn greatest_index_is_written_as_it_is() {
    let meshes = vec![small_mesh("m", 0, &[[65535, 256, 1]])];
    let buffer = pack_buffer(&meshes);
    assert_eq!(&buffer[..6], &[0xFF, 0xFF, 0, 1, 1, 0]);
    let layout = buffer_layout(&meshes);
    assert_eq!(layout.accessors[0].bounds, Some(ScalarBounds { min: 0, max: 65535 }));
}

#[test]
fn views_cover_their_regions() {
    let meshes = vec![small_mesh("a", 2, &[[0, 1, 1]]), small_mesh("b", 3, &[[0, 1, 2], [2, 1, 0]])];
    let buffer = pack_buffer(&meshes);
    let layout = buffer_layout(&meshes);
    let view = layout.buffer_views[4];
    let mut want = Vec::new();
    for c in [0u16, 1, 2, 2, 1, 0] {
        want.extend(le16(c));
    }
    assert_eq!(&buffer[view.byte_offset as usize..(view.byte_offset + view.byte_length) as usize], &want[..]);
    let view = layout.buffer_views[5];
    let mut want = Vec::new();
    for p in &meshes[1].vertex {
        for c in p {
            want.extend(le32(*c));
        }
    }
    assert_eq!(&buffer[view.byte_offset as usize..(view.byte_offset + view.byte_length) as usize], &want[..]);
}

#[test]
fn glb_of_one_mesh_is_exact() {
    let meshes = vec![small_mesh("mesh_0", 1, &[[0, 0, 0]])];
    let buffer = pack_buffer(&meshes);
    let json = b"{\"a\":1}".to_vec();
    let glb = get_glb(meshes, json.clone()).expect("container");
    let mut want = Vec::new();
    want.extend(b"glTF");
    want.extend(le32(2));
    want.extend(le32(12 + 8 + 8 + 8 + buffer.len() as u32));
    want.extend(le32(8));
    want.extend(b"JSON");
    want.extend(&json);
    want.push(0x20);
    want.extend(le32(buffer.len() as u32));
    want.extend(b"BIN\0");
    want.extend(&buffer);
    assert_eq!(glb, want);
}

#[test]
fn glb_is_read_back_by_the_gltf_crate() {
    let meshes = vec![small_mesh("a", 2, &[[0, 1, 1]]), small_mesh("b", 5, &[[0, 1, 2], [2, 3, 4]])];
    let buffer = pack_buffer(&meshes);
    for json in [b"{}".to_vec(), b"{\"k\":[1,2,3]}".to_vec(), b"{\"k\":12}".to_vec()] {
        let glb = get_glb(
            vec![small_mesh("a", 2, &[[0, 1, 1]]), small_mesh("b", 5, &[[0, 1, 2], [2, 3, 4]])],
            json.clone(),
        )
        .expect("container");
        assert_eq!(glb.len() % 4, 0);
        let parsed = gltf::binary::Glb::from_slice(&glb).expect("a valid container");
        assert_eq!(parsed.header.version, 2);
        assert_eq!(parsed.header.length as usize, glb.len());
        let mut padded = json.clone();
        while padded.len() % 4 != 0 {
            padded.push(0x20);
        }
        assert_eq!(parsed.json.as_ref(), &padded[..]);
        assert_eq!(parsed.bin.expect("a buffer").as_ref(), &buffer[..]);
    }
    assert_eq!(buffer.len(), buffer_layout(&meshes).byte_length as usize);
}

#[test]
fn glb_of_no_mesh_has_an_empty_buffer() {
    let meshes: Vec<Mesh> = Vec::new();
    let layout = buffer_layout(&meshes);
    assert!(layout.buffer_views.is_empty());
    assert!(layout.accessors.is_empty());
    assert!(layout.primitives.is_empty());
    assert_eq!(layout.byte_length, 0);
    assert!(pack_buffer(&meshes).is_empty());
    let glb = get_glb(meshes, b"{}".to_vec()).expect("container");
    let mut want = Vec::new();
    want.extend(b"glTF");
    want.extend(le32(2));
    want.extend(le32(32));
    want.extend(le32(4));
    want.extend(b"JSON{}  ");
    want.extend(le32(0));
    want.extend(b"BIN\0");
    assert_eq!(glb, want);
}

#[test]
fn container_result_keeps_bytes() {
    assert_eq!(container_result(Ok(vec![1, 2, 3])), Ok(vec![1, 2, 3]));
}

#[test]
fn get_glb_always_returns_a_container() {
    for n in 0..5usize {
        let meshes: Vec<Mesh> = (0..n).map(|i| small_mesh("m", i, &[[0, 0, 0]])).collect();
        let glb = get_glb(meshes, b"{\"n\":1}".to_vec()).expect("container");
        assert_eq!(&glb[..4], b"glTF");
        assert_eq!(u32::from_le_bytes([glb[4], glb[5], glb[6], glb[7]]), 2);
        assert_eq!(u32::from_le_bytes([glb[8], glb[9], glb[10], glb[11]]) as usize, glb.len());
        assert_eq!(u32::from_le_bytes([glb[12], glb[13], glb[14], glb[15]]), 8);
        assert_eq!(&glb[16..20], b"JSON");
        assert_eq!(&glb[20..28], b"{\"n\":1} ");
        assert_eq!(&glb[32..36], b"BIN\0");
    }
}

#[test]
fn container_result_reports_failure() {
    let failure = gltf::Error::Io(std::io::Error::new(std::io::ErrorKind::Other, "full"));
    assert_eq!(container_result(Err(failure)), Err(GlbError::Write));
}
