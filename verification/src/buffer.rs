//! The bytes of the shared binary buffer.

use crate::align::{
    lemma_pad_after_aligned, lemma_pad_with_len, lemma_round_up4, pad_to_four, pad_with, round_up4,
};
use crate::le::{le_bytes_u16, le_bytes_u32, push_u16_le, push_u32_le};
use crate::mesh::Mesh;
use vstd::prelude::*;

verus! {

/// Bytes that the triangle indices of `m` occupy, padding included.
pub open spec fn index_region(m: Mesh) -> int {
    round_up4(6 * (m.index@.len() as int))
}

/// Bytes that the vertex positions of `m` occupy.
pub open spec fn position_region(m: Mesh) -> int {
    round_up4(12 * (m.vertex@.len() as int))
}

/// Bytes that the vertex normals of `m` occupy.
pub open spec fn normal_region(m: Mesh) -> int {
    round_up4(12 * (m.normal@.len() as int))
}

/// Bytes that the per-vertex batch identifiers of `m` occupy, padding
/// included.
pub open spec fn batch_region(m: Mesh) -> int {
    round_up4(2 * (m.vertex@.len() as int))
}

/// Bytes that all four regions of `m` occupy.
pub open spec fn mesh_region(m: Mesh) -> int {
    index_region(m) + position_region(m) + normal_region(m) + batch_region(m)
}

/// Bytes that the regions of all `meshes` occupy together.
pub open spec fn buffer_len(meshes: Seq<Mesh>) -> int
    decreases meshes.len(),
{
    if meshes.len() == 0 {
        0
    } else {
        buffer_len(meshes.drop_last()) + mesh_region(meshes.last())
    }
}

/// Each region of a mesh is a non-negative multiple of four.
pub proof fn lemma_regions_aligned(m: Mesh)
    ensures
        index_region(m) % 4 == 0,
        6 * m.index@.len() <= index_region(m) <= 6 * m.index@.len() + 3,
        position_region(m) == 12 * m.vertex@.len(),
        normal_region(m) == 12 * m.normal@.len(),
        batch_region(m) % 4 == 0,
        2 * m.vertex@.len() <= batch_region(m) <= 2 * m.vertex@.len() + 3,
        mesh_region(m) >= 0 && mesh_region(m) % 4 == 0,
{
    lemma_round_up4(6 * (m.index@.len() as int));
    lemma_round_up4(12 * (m.vertex@.len() as int));
    lemma_round_up4(12 * (m.normal@.len() as int));
    lemma_round_up4(2 * (m.vertex@.len() as int));
}

/// Appending a mesh grows the buffer by that mesh's regions.
pub proof fn lemma_buffer_len_step(meshes: Seq<Mesh>, i: int)
    requires
        0 <= i < meshes.len(),
    ensures
        buffer_len(meshes.take(i + 1)) == buffer_len(meshes.take(i)) + mesh_region(meshes[i]),
{
    assert(meshes.take(i + 1).drop_last() =~= meshes.take(i));
    assert(meshes.take(i + 1).last() == meshes[i]);
}

/// Every prefix of the meshes fills a multiple of four bytes, and no more
/// than all of them do.
pub proof fn lemma_buffer_len_take(meshes: Seq<Mesh>, i: int)
    requires
        0 <= i <= meshes.len(),
    ensures
        0 <= buffer_len(meshes.take(i)) <= buffer_len(meshes),
        buffer_len(meshes.take(i)) % 4 == 0,
    decreases meshes.len(),
{
    if i == meshes.len() {
        assert(meshes.take(i) =~= meshes);
        if i > 0 {
            lemma_buffer_len_take(meshes.drop_last(), i - 1);
            assert(meshes.drop_last().take(i - 1) =~= meshes.drop_last());
            lemma_regions_aligned(meshes.last());
        }
    } else {
        lemma_buffer_len_take(meshes.drop_last(), i);
        assert(meshes.drop_last().take(i) =~= meshes.take(i));
        lemma_regions_aligned(meshes.last());
    }
}

/// `bytes` rounded up to a multiple of four, where that fits 32 bits.
fn padded_region(bytes: u64) -> (r: Option<u64>)
    requires
        bytes <= 0x10_0000_0000,
    ensures
        match r {
            Some(n) => n == round_up4(bytes as int) && n <= u32::MAX,
            None => round_up4(bytes as int) > u32::MAX,
        },
{
    proof {
        reveal(round_up4);
    }
    let padded: u64 = (bytes + 3) / 4 * 4;
    if padded > 0xFFFF_FFFF {
        None
    } else {
        Some(padded)
    }
}

/// The bytes that the regions of `mesh` occupy, where they fit 32 bits.
fn checked_mesh_region(mesh: &Mesh) -> (r: Option<u64>)
    ensures
        match r {
            Some(n) => n == mesh_region(*mesh) && n <= u32::MAX,
            None => mesh_region(*mesh) > u32::MAX,
        },
{
    proof {
        lemma_regions_aligned(*mesh);
    }
    let limit: u64 = 0xFFFF_FFFF;
    if mesh.index.len() as u64 > limit || mesh.vertex.len() as u64 > limit || mesh.normal.len() as u64
        > limit {
        proof {
            lemma_round_up4(6 * (mesh.index@.len() as int));
            lemma_round_up4(12 * (mesh.vertex@.len() as int));
            lemma_round_up4(12 * (mesh.normal@.len() as int));
            lemma_round_up4(2 * (mesh.vertex@.len() as int));
        }
        return None;
    }
    let total: u64 = match (
        padded_region(6 * (mesh.index.len() as u64)),
        padded_region(12 * (mesh.vertex.len() as u64)),
        padded_region(12 * (mesh.normal.len() as u64)),
        padded_region(2 * (mesh.vertex.len() as u64)),
    ) {
        (Some(a), Some(b), Some(c), Some(d)) => a + b + c + d,
        _ => { return None; },
    };
    if total > 0xFFFF_FFFF {
        None
    } else {
        Some(total)
    }
}

/// The length of the buffer that holds all `meshes`, where it fits the
/// 32-bit lengths of the container.
pub fn checked_buffer_len(meshes: &Vec<Mesh>) -> (r: Option<u32>)
    ensures
        match r {
            Some(n) => n == buffer_len(meshes@),
            None => buffer_len(meshes@) > u32::MAX,
        },
{
    let mut total: u64 = 0;
    let mut i: usize = 0;
    proof {
        assert(meshes@.take(0).len() == 0);
    }
    while i < meshes.len()
        invariant
            i <= meshes@.len(),
            total == buffer_len(meshes@.take(i as int)),
            total <= u32::MAX,
        decreases meshes@.len() - i,
    {
        proof {
            lemma_buffer_len_step(meshes@, i as int);
            lemma_buffer_len_take(meshes@, i + 1);
            lemma_regions_aligned(meshes@[i as int]);
        }
        match checked_mesh_region(&meshes[i]) {
            Some(n) => {
                total = total + n;
            },
            None => {
                return None;
            },
        }
        if total > 0xFFFF_FFFF {
            return None;
        }
        i += 1;
    }
    proof {
        assert(meshes@.take(i as int) =~= meshes@);
    }
    Some(total as u32)
}

/// Every corner of every triangle is an unsigned 16-bit number.
pub open spec fn corners_fit_u16(index: Seq<[i32; 3]>) -> bool {
    forall|t: int, c: int|
        0 <= t < index.len() && 0 <= c < 3 ==> 0 <= #[trigger] index[t][c] <= 65535
}

/// The meshes can be written with 16-bit indices and 16-bit batch
/// identifiers: every corner and every mesh position is below 65536.
pub open spec fn fits_u16(meshes: Seq<Mesh>) -> bool {
    &&& meshes.len() <= 65536
    &&& forall|i: int| 0 <= i < meshes.len() ==> corners_fit_u16((#[trigger] meshes[i]).index@)
}

/// Whether every corner of the triangle list is an unsigned 16-bit number.
fn check_corners(index: &Vec<[i32; 3]>) -> (ok: bool)
    ensures
        ok == corners_fit_u16(index@),
{
    let mut t: usize = 0;
    while t < index.len()
        invariant
            t <= index@.len(),
            forall|u: int, c: int| 0 <= u < t && 0 <= c < 3 ==> 0 <= #[trigger] index@[u][c] <= 65535,
        decreases index@.len() - t,
    {
        let tri = &index[t];
        if tri[0] < 0 || tri[0] > 65535 || tri[1] < 0 || tri[1] > 65535 || tri[2] < 0 || tri[2]
            > 65535 {
            assert(!(0 <= index@[t as int][0] <= 65535) || !(0 <= index@[t as int][1] <= 65535) || !(0
                <= index@[t as int][2] <= 65535));
            return false;
        }
        t += 1;
    }
    true
}

/// Whether the meshes can be written with 16-bit indices and 16-bit batch
/// identifiers.
pub fn check_fits_u16(meshes: &Vec<Mesh>) -> (ok: bool)
    ensures
        ok == fits_u16(meshes@),
{
    if meshes.len() > 65536 {
        return false;
    }
    let mut i: usize = 0;
    while i < meshes.len()
        invariant
            i <= meshes@.len(),
            meshes@.len() <= 65536,
            forall|j: int| 0 <= j < i ==> corners_fit_u16((#[trigger] meshes@[j]).index@),
        decreases meshes@.len() - i,
    {
        if !check_corners(&meshes[i].index) {
            return false;
        }
        i += 1;
    }
    true
}

/// The six bytes of one triangle: each corner as an unsigned 16-bit integer.
/// The value is the corner itself where the corner fits 16 bits.
pub open spec fn triangle_bytes(t: [i32; 3]) -> Seq<u8> {
    le_bytes_u16(t[0] as u16) + le_bytes_u16(t[1] as u16) + le_bytes_u16(t[2] as u16)
}

/// The bytes of a triangle list, six per triangle in order.
pub open spec fn index_bytes(index: Seq<[i32; 3]>) -> Seq<u8> {
    Seq::new(6 * index.len(), |b: int| triangle_bytes(index[b / 6])[b % 6])
}

/// The twelve bytes of one three-component vector.
pub open spec fn vector_bytes(v: [u32; 3]) -> Seq<u8> {
    le_bytes_u32(v[0]) + le_bytes_u32(v[1]) + le_bytes_u32(v[2])
}

/// The bytes of a vector list, twelve per vector in order.
pub open spec fn vectors_bytes(vs: Seq<[u32; 3]>) -> Seq<u8> {
    Seq::new(12 * vs.len(), |b: int| vector_bytes(vs[b / 12])[b % 12])
}

/// `n` copies of the two bytes of `id`.
pub open spec fn batch_bytes(id: u16, n: nat) -> Seq<u8> {
    Seq::new(2 * n, |b: int| le_bytes_u16(id)[b % 2])
}

/// The four regions of the mesh at position `i`: indices, positions,
/// normals, and its position repeated once per vertex, each padded with
/// zero bytes to a four-byte boundary.
pub open spec fn mesh_bytes(m: Mesh, i: int) -> Seq<u8> {
    pad_with(index_bytes(m.index@), 0) + pad_with(vectors_bytes(m.vertex@), 0) + pad_with(
        vectors_bytes(m.normal@),
        0,
    ) + pad_with(batch_bytes(i as u16, m.vertex@.len()), 0)
}

/// The regions of all meshes, in mesh order.
pub open spec fn buffer_bytes(meshes: Seq<Mesh>) -> Seq<u8>
    decreases meshes.len(),
{
    if meshes.len() == 0 {
        Seq::empty()
    } else {
        buffer_bytes(meshes.drop_last()) + mesh_bytes(meshes.last(), meshes.len() - 1)
    }
}

/// Appends the triangle list to `buf`.
fn push_indices(buf: &mut Vec<u8>, index: &Vec<[i32; 3]>)
    ensures
        final(buf)@ == old(buf)@ + index_bytes(index@),
{
    let ghost start = buf@;
    let mut t: usize = 0;
    while t < index.len()
        invariant
            t <= index@.len(),
            buf@ == start + index_bytes(index@.take(t as int)),
        decreases index@.len() - t,
    {
        let tri = &index[t];
        push_u16_le(buf, tri[0] as u16);
        push_u16_le(buf, tri[1] as u16);
        push_u16_le(buf, tri[2] as u16);
        assert(index_bytes(index@.take(t + 1)) =~= index_bytes(index@.take(t as int))
            + triangle_bytes(index@[t as int]));
        t += 1;
    }
    assert(index@.take(t as int) =~= index@);
}

/// Appends the vector list to `buf`.
fn push_vectors(buf: &mut Vec<u8>, vs: &Vec<[u32; 3]>)
    ensures
        final(buf)@ == old(buf)@ + vectors_bytes(vs@),
{
    let ghost start = buf@;
    let mut t: usize = 0;
    while t < vs.len()
        invariant
            t <= vs@.len(),
            buf@ == start + vectors_bytes(vs@.take(t as int)),
        decreases vs@.len() - t,
    {
        let v = &vs[t];
        push_u32_le(buf, v[0]);
        push_u32_le(buf, v[1]);
        push_u32_le(buf, v[2]);
        assert(vectors_bytes(vs@.take(t + 1)) =~= vectors_bytes(vs@.take(t as int))
            + vector_bytes(vs@[t as int]));
        t += 1;
    }
    assert(vs@.take(t as int) =~= vs@);
}

/// Appends `n` copies of `id` to `buf`.
fn push_batch_ids(buf: &mut Vec<u8>, id: u16, n: usize)
    ensures
        final(buf)@ == old(buf)@ + batch_bytes(id, n as nat),
{
    let ghost start = buf@;
    let mut t: usize = 0;
    while t < n
        invariant
            t <= n,
            buf@ == start + batch_bytes(id, t as nat),
        decreases n - t,
    {
        push_u16_le(buf, id);
        assert(batch_bytes(id, (t + 1) as nat) =~= batch_bytes(id, t as nat) + le_bytes_u16(id));
        t += 1;
    }
}

/// The mesh at position `i` fills as many bytes as its regions claim, a
/// multiple of four.
pub proof fn lemma_mesh_bytes_len(m: Mesh, i: int)
    ensures
        mesh_bytes(m, i).len() == mesh_region(m),
        mesh_bytes(m, i).len() % 4 == 0,
{
    let r0 = pad_with(index_bytes(m.index@), 0);
    let r1 = pad_with(vectors_bytes(m.vertex@), 0);
    let r2 = pad_with(vectors_bytes(m.normal@), 0);
    let r3 = pad_with(batch_bytes(i as u16, m.vertex@.len()), 0);
    lemma_pad_with_len(index_bytes(m.index@), 0);
    lemma_pad_with_len(vectors_bytes(m.vertex@), 0);
    lemma_pad_with_len(vectors_bytes(m.normal@), 0);
    lemma_pad_with_len(batch_bytes(i as u16, m.vertex@.len()), 0);
    assert(r0.len() == index_region(m));
    assert(r1.len() == position_region(m));
    assert(r2.len() == normal_region(m));
    assert(r3.len() == batch_region(m));
    assert(mesh_bytes(m, i) == r0 + r1 + r2 + r3);
    assert((r0 + r1 + r2 + r3).len() == r0.len() + r1.len() + r2.len() + r3.len());
}

/// The buffer of any mesh list fills a multiple of four bytes.
pub proof fn lemma_buffer_bytes_aligned(meshes: Seq<Mesh>)
    ensures
        buffer_bytes(meshes).len() % 4 == 0,
    decreases meshes.len(),
{
    if meshes.len() > 0 {
        lemma_buffer_bytes_aligned(meshes.drop_last());
        lemma_mesh_bytes_len(meshes.last(), meshes.len() - 1);
    }
}

/// The bytes of a mesh list are as many as its regions claim.
pub proof fn lemma_buffer_bytes_len(meshes: Seq<Mesh>)
    ensures
        buffer_bytes(meshes).len() == buffer_len(meshes),
    decreases meshes.len(),
{
    if meshes.len() > 0 {
        lemma_buffer_bytes_len(meshes.drop_last());
        lemma_mesh_bytes_len(meshes.last(), meshes.len() - 1);
    }
}

/// The buffer of the first `i + 1` meshes is the buffer of the first `i`
/// followed by the regions of mesh `i`, and it opens the buffer of all.
pub proof fn lemma_buffer_bytes_prefix(meshes: Seq<Mesh>, i: int)
    requires
        0 <= i <= meshes.len(),
    ensures
        buffer_bytes(meshes.take(i)).len() <= buffer_bytes(meshes).len(),
        buffer_bytes(meshes).subrange(0, buffer_bytes(meshes.take(i)).len() as int)
            == buffer_bytes(meshes.take(i)),
        i < meshes.len() ==> buffer_bytes(meshes.take(i + 1)) == buffer_bytes(meshes.take(i))
            + mesh_bytes(meshes[i], i),
    decreases meshes.len(),
{
    if i < meshes.len() {
        assert(meshes.take(i + 1).drop_last() =~= meshes.take(i));
        assert(meshes.take(i + 1).last() == meshes[i]);
        lemma_buffer_bytes_prefix(meshes.drop_last(), i);
        assert(meshes.drop_last().take(i) =~= meshes.take(i));
        let whole = buffer_bytes(meshes);
        let front = buffer_bytes(meshes.drop_last());
        let n = buffer_bytes(meshes.take(i)).len() as int;
        assert(whole.subrange(0, n) =~= front.subrange(0, n));
    } else {
        assert(meshes.take(i) =~= meshes);
        assert(buffer_bytes(meshes).subrange(0, buffer_bytes(meshes).len() as int)
            =~= buffer_bytes(meshes));
    }
}

/// Appends the four padded regions of the mesh at position `i` to a buffer
/// that ends on a four-byte boundary.
fn push_mesh(buf: &mut Vec<u8>, mesh: &Mesh, i: usize)
    requires
        old(buf)@.len() % 4 == 0,
    ensures
        final(buf)@ == old(buf)@ + mesh_bytes(*mesh, i as int),
{
    let ghost start = buf@;
    let ghost r0 = pad_with(index_bytes(mesh.index@), 0);
    let ghost r1 = pad_with(vectors_bytes(mesh.vertex@), 0);
    let ghost r2 = pad_with(vectors_bytes(mesh.normal@), 0);
    let ghost r3 = pad_with(batch_bytes(i as u16, mesh.vertex@.len()), 0);
    proof {
        lemma_pad_with_len(index_bytes(mesh.index@), 0);
        lemma_pad_with_len(vectors_bytes(mesh.vertex@), 0);
        lemma_pad_with_len(vectors_bytes(mesh.normal@), 0);
    }
    push_indices(buf, &mesh.index);
    pad_to_four(buf, 0);
    proof {
        lemma_pad_after_aligned(start, index_bytes(mesh.index@), 0);
    }
    assert(buf@ == start + r0);
    push_vectors(buf, &mesh.vertex);
    pad_to_four(buf, 0);
    proof {
        lemma_pad_after_aligned(start + r0, vectors_bytes(mesh.vertex@), 0);
    }
    assert(buf@ == start + r0 + r1);
    push_vectors(buf, &mesh.normal);
    pad_to_four(buf, 0);
    proof {
        lemma_pad_after_aligned(start + r0 + r1, vectors_bytes(mesh.normal@), 0);
    }
    assert(buf@ == start + r0 + r1 + r2);
    push_batch_ids(buf, i as u16, mesh.vertex.len());
    pad_to_four(buf, 0);
    proof {
        lemma_pad_after_aligned(start + r0 + r1 + r2, batch_bytes(i as u16, mesh.vertex@.len()), 0);
        assert(buf@ == start + r0 + r1 + r2 + r3);
        assert(start + r0 + r1 + r2 + r3 =~= start + (r0 + r1 + r2 + r3));
    }
}

/// Serialises all meshes into one buffer, region after region.
pub fn pack_buffer(meshes: &Vec<Mesh>) -> (buf: Vec<u8>)
    requires
        fits_u16(meshes@),
    ensures
        buf@ == buffer_bytes(meshes@),
{
    let mut buf: Vec<u8> = Vec::new();
    let mut i: usize = 0;
    proof {
        assert(meshes@.take(0).len() == 0);
    }
    while i < meshes.len()
        invariant
            i <= meshes@.len(),
            buf@ == buffer_bytes(meshes@.take(i as int)),
        decreases meshes@.len() - i,
    {
        proof {
            lemma_buffer_bytes_aligned(meshes@.take(i as int));
            assert(meshes@.take(i + 1).drop_last() =~= meshes@.take(i as int));
            assert(meshes@.take(i + 1).last() == meshes@[i as int]);
        }
        push_mesh(&mut buf, &meshes[i], i);
        i += 1;
    }
    proof {
        assert(meshes@.take(i as int) =~= meshes@);
    }
    buf
}

} // verus!
