//! Where each mesh lies in the shared buffer, and how its regions are read.

use crate::align::{
    lemma_concat4_parts, lemma_pad_with_len, lemma_subrange_after, lemma_subrange_of_prefix,
    pad_with,
};
use crate::buffer::{
    batch_bytes, batch_region, buffer_bytes, buffer_len, check_fits_u16, checked_buffer_len,
    fits_u16, index_bytes, index_region, lemma_buffer_bytes_len, lemma_buffer_bytes_prefix, lemma_buffer_len_step,
    lemma_buffer_len_take, lemma_mesh_bytes_len, lemma_regions_aligned, mesh_region,
    normal_region, position_region, vectors_bytes,
};
use crate::glb::{align_to_multiple_of_four, calc_max, is_max_index};
use crate::mesh::Mesh;
use vstd::prelude::*;

verus! {

/// What a buffer view is bound to when the buffer is uploaded.
#[derive(Clone, Copy, Debug, PartialEq, Eq, Structural)]
pub enum Target {
    /// Vertex attributes.
    ArrayBuffer,
    /// Vertex indices.
    ElementArrayBuffer,
}

/// A contiguous region of the binary buffer.
#[derive(Clone, Copy, Debug, PartialEq, Eq, Structural)]
pub struct BufferView {
    /// Length of the region in bytes, padding included.
    pub byte_length: u32,
    /// Offset of the region from the start of the buffer.
    pub byte_offset: u32,
    /// Distance in bytes between consecutive elements.
    pub byte_stride: u32,
    /// The binding of the region.
    pub target: Target,
}

/// The scalar type of an accessor's components.
#[derive(Clone, Copy, Debug, PartialEq, Eq, Structural)]
pub enum ComponentType {
    /// Unsigned 16-bit integer.
    U16,
    /// Single-precision float.
    F32,
}

/// The shape of an accessor's elements.
#[derive(Clone, Copy, Debug, PartialEq, Eq, Structural)]
pub enum ElementType {
    /// One component per element.
    Scalar,
    /// Three components per element.
    Vec3,
}

/// The least and greatest value that a scalar accessor yields.
#[derive(Clone, Copy, Debug, PartialEq, Eq, Structural)]
pub struct ScalarBounds {
    /// Least value.
    pub min: u32,
    /// Greatest value.
    pub max: u32,
}

/// A typed reading of one buffer view.
#[derive(Clone, Copy, Debug, PartialEq, Eq, Structural)]
pub struct Accessor {
    /// Position of the buffer view that the accessor reads.
    pub buffer_view: u32,
    /// Number of elements.
    pub count: u32,
    /// Type of each component.
    pub component_type: ComponentType,
    /// Shape of each element.
    pub type_: ElementType,
    /// Least and greatest value of a scalar accessor; `None` for vectors,
    /// whose bounds are a box over the coordinates themselves.
    pub bounds: Option<ScalarBounds>,
}

/// The accessors that one mesh's primitive refers to, and its material.
#[derive(Clone, Copy, Debug, PartialEq, Eq, Structural)]
pub struct Primitive {
    /// Accessor of the triangle indices.
    pub indices: u32,
    /// Accessor of the vertex positions.
    pub positions: u32,
    /// Accessor of the vertex normals.
    pub normals: u32,
    /// Accessor of the per-vertex batch identifiers.
    pub batch_id: u32,
    /// Position of the material.
    pub material: u32,
}

/// Where each mesh lies in the shared binary buffer, and what the scene is
/// made of: four buffer views and four accessors per mesh, in mesh order,
/// and one primitive, one name and one node per mesh.
pub struct BufferLayout {
    /// Buffer views; mesh `i` owns positions `4i` to `4i + 3`.
    pub buffer_views: Vec<BufferView>,
    /// Accessors; mesh `i` owns positions `4i` to `4i + 3`.
    pub accessors: Vec<Accessor>,
    /// One primitive per mesh.
    pub primitives: Vec<Primitive>,
    /// The name of each mesh.
    pub names: Vec<String>,
    /// One node per mesh: the position of the mesh that the node shows.
    pub nodes: Vec<u32>,
    /// The nodes that the scene lists: all of them, in order.
    pub scene: Vec<u32>,
    /// Length of the whole buffer in bytes.
    pub byte_length: u32,
}

/// The four buffer views of a mesh whose regions begin at `start`.
pub open spec fn mesh_views(m: Mesh, start: int) -> Seq<BufferView> {
    seq![
        BufferView {
            byte_length: index_region(m) as u32,
            byte_offset: start as u32,
            byte_stride: 2,
            target: Target::ElementArrayBuffer,
        },
        BufferView {
            byte_length: position_region(m) as u32,
            byte_offset: (start + index_region(m)) as u32,
            byte_stride: 12,
            target: Target::ArrayBuffer,
        },
        BufferView {
            byte_length: normal_region(m) as u32,
            byte_offset: (start + index_region(m) + position_region(m)) as u32,
            byte_stride: 12,
            target: Target::ArrayBuffer,
        },
        BufferView {
            byte_length: batch_region(m) as u32,
            byte_offset: (start + index_region(m) + position_region(m) + normal_region(m)) as u32,
            byte_stride: 2,
            target: Target::ElementArrayBuffer,
        },
    ]
}

/// `a` holds the four accessors of mesh `m` standing at position `i`.
pub open spec fn is_mesh_accessors(a: Seq<Accessor>, m: Mesh, i: int) -> bool {
    &&& a.len() == 4
    &&& a[0].buffer_view == 4 * i
    &&& a[0].count == 3 * m.index@.len()
    &&& a[0].component_type == ComponentType::U16
    &&& a[0].type_ == ElementType::Scalar
    &&& a[0].bounds matches Some(b)
    &&& b.min == 0
    &&& is_max_index(m.index@, b.max as int)
    &&& a[1] == Accessor {
        buffer_view: (4 * i + 1) as u32,
        count: m.vertex@.len() as u32,
        component_type: ComponentType::F32,
        type_: ElementType::Vec3,
        bounds: None,
    }
    &&& a[2] == Accessor {
        buffer_view: (4 * i + 2) as u32,
        count: m.normal@.len() as u32,
        component_type: ComponentType::F32,
        type_: ElementType::Vec3,
        bounds: None,
    }
    &&& a[3] == Accessor {
        buffer_view: (4 * i + 3) as u32,
        count: m.vertex@.len() as u32,
        component_type: ComponentType::U16,
        type_: ElementType::Scalar,
        bounds: Some(ScalarBounds { min: i as u32, max: i as u32 }),
    }
}

/// The primitive of the mesh standing at position `i`.
pub open spec fn mesh_primitive(i: int) -> Primitive {
    Primitive {
        indices: (4 * i) as u32,
        positions: (4 * i + 1) as u32,
        normals: (4 * i + 2) as u32,
        batch_id: (4 * i + 3) as u32,
        material: 0,
    }
}

impl BufferLayout {
    /// The layout describes exactly `meshes`, in order.
    pub open spec fn describes(&self, meshes: Seq<Mesh>) -> bool {
        &&& self.buffer_views@.len() == 4 * meshes.len()
        &&& self.accessors@.len() == 4 * meshes.len()
        &&& self.primitives@.len() == meshes.len()
        &&& self.names@.len() == meshes.len()
        &&& self.nodes@.len() == meshes.len()
        &&& self.scene@.len() == meshes.len()
        &&& self.byte_length == buffer_len(meshes)
        &&& forall|i: int|
            0 <= i < meshes.len() ==> #[trigger] self.buffer_views@.subrange(4 * i, 4 * i + 4)
                == mesh_views(meshes[i], buffer_len(meshes.take(i)))
        &&& forall|i: int|
            0 <= i < meshes.len() ==> is_mesh_accessors(
                #[trigger] self.accessors@.subrange(4 * i, 4 * i + 4),
                meshes[i],
                i,
            )
        &&& forall|i: int| 0 <= i < meshes.len() ==> #[trigger] self.primitives@[i] == mesh_primitive(i)
        &&& forall|i: int| 0 <= i < meshes.len() ==> (#[trigger] self.names@[i])@ == meshes[i].mesh_name@
        &&& forall|i: int| 0 <= i < meshes.len() ==> #[trigger] self.nodes@[i] == i
        &&& forall|i: int| 0 <= i < meshes.len() ==> #[trigger] self.scene@[i] == i
    }
}

/// Lays the regions of `meshes` one after another and numbers their buffer
/// views and accessors by position.
pub fn buffer_layout(meshes: &Vec<Mesh>) -> (layout: BufferLayout)
    requires
        fits_u16(meshes@),
        buffer_len(meshes@) <= u32::MAX,
    ensures
        layout.describes(meshes@),
{
    let mut views: Vec<BufferView> = Vec::new();
    let mut accessors: Vec<Accessor> = Vec::new();
    let mut primitives: Vec<Primitive> = Vec::new();
    let mut names: Vec<String> = Vec::new();
    let mut nodes: Vec<u32> = Vec::new();
    let mut scene: Vec<u32> = Vec::new();
    let mut offset: u32 = 0;
    let mut i: usize = 0;
    proof {
        assert(meshes@.take(0).len() == 0);
    }
    while i < meshes.len()
        invariant
            i <= meshes@.len(),
            buffer_len(meshes@) <= u32::MAX,
            4 * meshes@.len() <= u32::MAX,
            views@.len() == 4 * i,
            accessors@.len() == 4 * i,
            primitives@.len() == i,
            names@.len() == i,
            nodes@.len() == i,
            scene@.len() == i,
            offset == buffer_len(meshes@.take(i as int)),
            forall|j: int|
                0 <= j < i ==> #[trigger] views@.subrange(4 * j, 4 * j + 4) == mesh_views(
                    meshes@[j],
                    buffer_len(meshes@.take(j)),
                ),
            forall|j: int|
                0 <= j < i ==> is_mesh_accessors(
                    #[trigger] accessors@.subrange(4 * j, 4 * j + 4),
                    meshes@[j],
                    j,
                ),
            forall|j: int| 0 <= j < i ==> #[trigger] primitives@[j] == mesh_primitive(j),
            forall|j: int| 0 <= j < i ==> (#[trigger] names@[j])@ == meshes@[j].mesh_name@,
            forall|j: int| 0 <= j < i ==> #[trigger] nodes@[j] == j,
            forall|j: int| 0 <= j < i ==> #[trigger] scene@[j] == j,
        decreases meshes@.len() - i,
    {
        let mesh = &meshes[i];
        let ghost m = meshes@[i as int];
        let ghost start = offset as int;
        let ghost old_views = views@;
        let ghost old_accessors = accessors@;
        proof {
            lemma_buffer_len_step(meshes@, i as int);
            lemma_buffer_len_take(meshes@, i + 1);
            lemma_buffer_len_take(meshes@, i as int);
            lemma_regions_aligned(m);
        }
        let max_i = calc_max(&mesh.index);

        let mut index_length: u32 = (mesh.index.len() * 6) as u32;
        align_to_multiple_of_four(&mut index_length);
        let mut position_length: u32 = (mesh.vertex.len() * 12) as u32;
        align_to_multiple_of_four(&mut position_length);
        let mut normal_length: u32 = (mesh.normal.len() * 12) as u32;
        align_to_multiple_of_four(&mut normal_length);
        let mut batch_length: u32 = (mesh.vertex.len() * 2) as u32;
        align_to_multiple_of_four(&mut batch_length);

        views.push(
            BufferView {
                byte_length: index_length,
                byte_offset: offset,
                byte_stride: 2,
                target: Target::ElementArrayBuffer,
            },
        );
        offset = offset + index_length;
        views.push(
            BufferView {
                byte_length: position_length,
                byte_offset: offset,
                byte_stride: 12,
                target: Target::ArrayBuffer,
            },
        );
        offset = offset + position_length;
        views.push(
            BufferView {
                byte_length: normal_length,
                byte_offset: offset,
                byte_stride: 12,
                target: Target::ArrayBuffer,
            },
        );
        offset = offset + normal_length;
        views.push(
            BufferView {
                byte_length: batch_length,
                byte_offset: offset,
                byte_stride: 2,
                target: Target::ElementArrayBuffer,
            },
        );
        offset = offset + batch_length;

        let first: u32 = (4 * i) as u32;
        accessors.push(
            Accessor {
                buffer_view: first,
                count: (mesh.index.len() * 3) as u32,
                component_type: ComponentType::U16,
                type_: ElementType::Scalar,
                bounds: Some(ScalarBounds { min: 0, max: max_i as u32 }),
            },
        );
        accessors.push(
            Accessor {
                buffer_view: first + 1,
                count: mesh.vertex.len() as u32,
                component_type: ComponentType::F32,
                type_: ElementType::Vec3,
                bounds: None,
            },
        );
        accessors.push(
            Accessor {
                buffer_view: first + 2,
                count: mesh.normal.len() as u32,
                component_type: ComponentType::F32,
                type_: ElementType::Vec3,
                bounds: None,
            },
        );
        accessors.push(
            Accessor {
                buffer_view: first + 3,
                count: mesh.vertex.len() as u32,
                component_type: ComponentType::U16,
                type_: ElementType::Scalar,
                bounds: Some(ScalarBounds { min: i as u32, max: i as u32 }),
            },
        );
        primitives.push(
            Primitive {
                indices: first,
                positions: first + 1,
                normals: first + 2,
                batch_id: first + 3,
                material: 0,
            },
        );
        names.push(mesh.mesh_name.clone());
        nodes.push(i as u32);
        scene.push(i as u32);
        proof {
            assert(views@.subrange(4 * i, 4 * i + 4) =~= mesh_views(m, start));
            assert forall|j: int| 0 <= j < i implies #[trigger] views@.subrange(4 * j, 4 * j + 4)
                == mesh_views(meshes@[j], buffer_len(meshes@.take(j))) by {
                assert(views@.subrange(4 * j, 4 * j + 4) =~= old_views.subrange(4 * j, 4 * j + 4));
            }
            assert forall|j: int| 0 <= j < i implies is_mesh_accessors(
                #[trigger] accessors@.subrange(4 * j, 4 * j + 4),
                meshes@[j],
                j,
            ) by {
                assert(accessors@.subrange(4 * j, 4 * j + 4) =~= old_accessors.subrange(
                    4 * j,
                    4 * j + 4,
                ));
            }
            let a = accessors@.subrange(4 * i, 4 * i + 4);
            assert(a[0] == accessors@[4 * i]);
            assert(a[1] == accessors@[4 * i + 1]);
            assert(a[2] == accessors@[4 * i + 2]);
            assert(a[3] == accessors@[4 * i + 3]);
            assert(is_mesh_accessors(a, m, i as int));
        }
        i += 1;
    }
    proof {
        assert(meshes@.take(i as int) =~= meshes@);
    }
    BufferLayout {
        buffer_views: views,
        accessors,
        primitives,
        names,
        nodes,
        scene,
        byte_length: offset,
    }
}

/// Lays out `meshes` as `buffer_layout` does where their indices and
/// positions fit 16 bits and the buffer fits 32 bits; otherwise there is no
/// layout.
pub fn try_buffer_layout(meshes: &Vec<Mesh>) -> (r: Option<BufferLayout>)
    ensures
        r is Some <==> fits_u16(meshes@) && buffer_len(meshes@) <= u32::MAX,
        r matches Some(layout) ==> layout.describes(meshes@),
{
    if !check_fits_u16(meshes) {
        return None;
    }
    match checked_buffer_len(meshes) {
        Some(_) => Some(buffer_layout(meshes)),
        None => None,
    }
}

/// The bytes of the buffer that the view covers.
pub open spec fn view_bytes(buffer: Seq<u8>, view: BufferView) -> Seq<u8> {
    buffer.subrange(view.byte_offset as int, view.byte_offset + view.byte_length)
}

/// The buffer views, the accessors and the primitive of the mesh at
/// position `i` are numbered `4i`, `4i + 1`, `4i + 2`, `4i + 3`, in the order
/// indices, positions, normals, batch identifiers.
pub proof fn lemma_numbering(layout: BufferLayout, meshes: Seq<Mesh>, i: int)
    requires
        layout.describes(meshes),
        4 * meshes.len() <= u32::MAX,
        0 <= i < meshes.len(),
    ensures
        layout.accessors@[4 * i].buffer_view == 4 * i,
        layout.accessors@[4 * i + 1].buffer_view == 4 * i + 1,
        layout.accessors@[4 * i + 2].buffer_view == 4 * i + 2,
        layout.accessors@[4 * i + 3].buffer_view == 4 * i + 3,
        layout.primitives@[i].indices == 4 * i,
        layout.primitives@[i].positions == 4 * i + 1,
        layout.primitives@[i].normals == 4 * i + 2,
        layout.primitives@[i].batch_id == 4 * i + 3,
{
    let a = layout.accessors@.subrange(4 * i, 4 * i + 4);
    assert(is_mesh_accessors(a, meshes[i], i));
    assert(a[0] == layout.accessors@[4 * i]);
    assert(a[1] == layout.accessors@[4 * i + 1]);
    assert(a[2] == layout.accessors@[4 * i + 2]);
    assert(a[3] == layout.accessors@[4 * i + 3]);
    assert(layout.primitives@[i] == mesh_primitive(i));
}

/// No two meshes share a buffer view or an accessor: the numbers of
/// different meshes differ.
pub proof fn lemma_numbering_disjoint(i: int, j: int, a: int, b: int)
    requires
        i != j,
        0 <= a < 4,
        0 <= b < 4,
    ensures
        4 * i + a != 4 * j + b,
{
}

/// The offsets and lengths of the four buffer views of the mesh at position
/// `i`: its regions follow one another from where the meshes before it end.
pub proof fn lemma_view_values(layout: BufferLayout, meshes: Seq<Mesh>, i: int)
    requires
        layout.describes(meshes),
        buffer_len(meshes) <= u32::MAX,
        0 <= i < meshes.len(),
    ensures
        ({
            let m = meshes[i];
            let start = buffer_len(meshes.take(i));
            let v = layout.buffer_views@;
            &&& 0 <= start
            &&& start + mesh_region(m) == buffer_len(meshes.take(i + 1))
            &&& buffer_len(meshes.take(i + 1)) <= buffer_len(meshes)
            &&& v[4 * i].byte_offset == start
            &&& v[4 * i].byte_length == index_region(m)
            &&& v[4 * i + 1].byte_offset == start + index_region(m)
            &&& v[4 * i + 1].byte_length == position_region(m)
            &&& v[4 * i + 2].byte_offset == start + index_region(m) + position_region(m)
            &&& v[4 * i + 2].byte_length == normal_region(m)
            &&& v[4 * i + 3].byte_offset == start + index_region(m) + position_region(m)
                + normal_region(m)
            &&& v[4 * i + 3].byte_length == batch_region(m)
        }),
{
    let m = meshes[i];
    let start = buffer_len(meshes.take(i));
    let views = layout.buffer_views@.subrange(4 * i, 4 * i + 4);
    assert(views == mesh_views(m, start));
    assert(views[0] == layout.buffer_views@[4 * i]);
    assert(views[1] == layout.buffer_views@[4 * i + 1]);
    assert(views[2] == layout.buffer_views@[4 * i + 2]);
    assert(views[3] == layout.buffer_views@[4 * i + 3]);
    lemma_buffer_len_take(meshes, i);
    lemma_buffer_len_step(meshes, i);
    lemma_buffer_len_take(meshes, i + 1);
    lemma_regions_aligned(m);
}

/// Every buffer view starts on a four-byte boundary and is a multiple of
/// four bytes long.
pub proof fn lemma_views_aligned(layout: BufferLayout, meshes: Seq<Mesh>, v: int)
    requires
        layout.describes(meshes),
        buffer_len(meshes) <= u32::MAX,
        0 <= v < 4 * meshes.len(),
    ensures
        layout.buffer_views@[v].byte_offset % 4 == 0,
        layout.buffer_views@[v].byte_length % 4 == 0,
{
    let i = v / 4;
    lemma_view_values(layout, meshes, i);
    lemma_buffer_len_take(meshes, i);
    lemma_regions_aligned(meshes[i]);
}

/// The buffer views follow one another without a gap, from the start of the
/// buffer to its end.
pub proof fn lemma_views_contiguous(layout: BufferLayout, meshes: Seq<Mesh>, v: int)
    requires
        layout.describes(meshes),
        buffer_len(meshes) <= u32::MAX,
        0 <= v < 4 * meshes.len(),
    ensures
        v == 0 ==> layout.buffer_views@[v].byte_offset == 0,
        v > 0 ==> layout.buffer_views@[v].byte_offset == layout.buffer_views@[v - 1].byte_offset
            + layout.buffer_views@[v - 1].byte_length,
        v == 4 * meshes.len() - 1 ==> layout.buffer_views@[v].byte_offset
            + layout.buffer_views@[v].byte_length == layout.byte_length,
{
    let i = v / 4;
    lemma_view_values(layout, meshes, i);
    if v == 0 {
        assert(meshes.take(0).len() == 0);
    }
    if v > 0 && v % 4 == 0 {
        lemma_view_values(layout, meshes, i - 1);
    }
    if v == 4 * meshes.len() - 1 {
        assert(meshes.take(i + 1) =~= meshes);
    }
}

/// The four buffer views of the mesh at position `i` cover, in the packed
/// buffer, exactly that mesh's indices, positions, normals and batch
/// identifiers, each with its padding.
pub proof fn lemma_views_cover_regions(layout: BufferLayout, meshes: Seq<Mesh>, i: int)
    requires
        layout.describes(meshes),
        buffer_len(meshes) <= u32::MAX,
        0 <= i < meshes.len(),
    ensures
        ({
            let buffer = buffer_bytes(meshes);
            let m = meshes[i];
            &&& view_bytes(buffer, layout.buffer_views@[4 * i]) == pad_with(index_bytes(m.index@), 0)
            &&& view_bytes(buffer, layout.buffer_views@[4 * i + 1]) == pad_with(
                vectors_bytes(m.vertex@),
                0,
            )
            &&& view_bytes(buffer, layout.buffer_views@[4 * i + 2]) == pad_with(
                vectors_bytes(m.normal@),
                0,
            )
            &&& view_bytes(buffer, layout.buffer_views@[4 * i + 3]) == pad_with(
                batch_bytes(i as u16, m.vertex@.len()),
                0,
            )
        }),
{
    let buffer = buffer_bytes(meshes);
    let m = meshes[i];
    let start = buffer_len(meshes.take(i));
    let r0 = pad_with(index_bytes(m.index@), 0);
    let r1 = pad_with(vectors_bytes(m.vertex@), 0);
    let r2 = pad_with(vectors_bytes(m.normal@), 0);
    let r3 = pad_with(batch_bytes(i as u16, m.vertex@.len()), 0);
    let regions = r0 + r1 + r2 + r3;
    let front = buffer_bytes(meshes.take(i));
    let upto = buffer_bytes(meshes.take(i + 1));
    let l0 = r0.len() as int;
    let l1 = r1.len() as int;
    let l2 = r2.len() as int;
    let l3 = r3.len() as int;
    lemma_view_values(layout, meshes, i);
    lemma_buffer_bytes_len(meshes.take(i));
    lemma_buffer_bytes_prefix(meshes, i);
    lemma_buffer_bytes_prefix(meshes, i + 1);
    lemma_pad_with_len(index_bytes(m.index@), 0);
    lemma_pad_with_len(vectors_bytes(m.vertex@), 0);
    lemma_pad_with_len(vectors_bytes(m.normal@), 0);
    lemma_pad_with_len(batch_bytes(i as u16, m.vertex@.len()), 0);
    assert(front.len() == start);
    assert(upto == front + regions);
    lemma_concat4_parts(r0, r1, r2, r3);
    assert(regions.len() == l0 + l1 + l2 + l3);
    lemma_subrange_of_prefix(buffer, upto, start, start + l0);
    lemma_subrange_after(front, regions, 0, l0);
    lemma_subrange_of_prefix(buffer, upto, start + l0, start + l0 + l1);
    lemma_subrange_after(front, regions, l0, l0 + l1);
    lemma_subrange_of_prefix(buffer, upto, start + l0 + l1, start + l0 + l1 + l2);
    lemma_subrange_after(front, regions, l0 + l1, l0 + l1 + l2);
    lemma_subrange_of_prefix(buffer, upto, start + l0 + l1 + l2, start + l0 + l1 + l2 + l3);
    lemma_subrange_after(front, regions, l0 + l1 + l2, l0 + l1 + l2 + l3);
}

} // verus!
