//! Assembly of meshes into one binary glTF buffer and container.

use crate::align::{lemma_mask_u32, lemma_pad_with_len, lemma_round_up4, pad_with, round_up4};
use crate::buffer::{
    buffer_bytes, buffer_len, check_fits_u16, checked_buffer_len, fits_u16,
    lemma_buffer_bytes_len, lemma_buffer_len_take, pack_buffer,
};
use crate::le::{le_bytes_u32, le_value_u32, lemma_le_bytes_u32_value};
use crate::mesh::Mesh;
use std::borrow::Cow;
use vstd::prelude::*;

verus! {

/// Rounds `n` up to the next multiple of four.
pub fn align_to_multiple_of_four(n: &mut u32)
    requires
        *old(n) + 3 <= u32::MAX,
    ensures
        *final(n) == round_up4(*old(n) as int),
{
    proof {
        lemma_mask_u32(*n);
    }
    *n = (*n + 3) & !3;
}

/// `r` is the greatest corner index among `index`, or zero where no corner
/// is positive.
pub open spec fn is_max_index(index: Seq<[i32; 3]>, r: int) -> bool {
    &&& 0 <= r
    &&& forall|t: int, k: int| 0 <= t < index.len() && 0 <= k < 3 ==> #[trigger] index[t][k] <= r
    &&& r == 0 || exists|t: int, k: int| 0 <= t < index.len() && 0 <= k < 3 && #[trigger] index[t][k] == r
}

/// At most one value is the greatest corner index of a triangle list.
pub proof fn lemma_max_index_unique(index: Seq<[i32; 3]>, a: int, b: int)
    requires
        is_max_index(index, a),
        is_max_index(index, b),
    ensures
        a == b,
{
}

/// The greatest corner index that the triangles use, never below zero.
pub fn calc_max(index: &Vec<[i32; 3]>) -> (r: i32)
    ensures
        is_max_index(index@, r as int),
{
    let mut best: i32 = 0;
    let mut t: usize = 0;
    while t < index.len()
        invariant
            t <= index.len(),
            is_max_index(index@.take(t as int), best as int),
        decreases index.len() - t,
    {
        let ghost before = index@.take(t as int);
        let ghost after = index@.take(t + 1);
        let ghost low = best;
        let tri = &index[t];
        let mut k: usize = 0;
        while k < 3
            invariant
                k <= 3,
                t < index.len(),
                tri == index@[t as int],
                low <= best,
                forall|j: int| 0 <= j < k ==> #[trigger] tri[j] <= best,
                best == low || exists|j: int| 0 <= j < k && #[trigger] tri[j] == best,
            decreases 3 - k,
        {
            if best < tri[k] {
                best = tri[k];
            }
            k += 1;
        }
        proof {
            assert forall|u: int, j: int| 0 <= u < after.len() && 0 <= j < 3 implies #[trigger] after[u][j]
                <= best by {
                if u < t {
                    assert(before[u][j] <= low);
                }
            }
            if best != 0 {
                if best == low {
                    let (u, j) = choose|u: int, j: int|
                        0 <= u < before.len() && 0 <= j < 3 && #[trigger] before[u][j] == low;
                    assert(after[u][j] == best);
                } else {
                    let j = choose|j: int| 0 <= j < 3 && #[trigger] tri[j] == best;
                    assert(after[t as int][j] == best);
                }
            }
        }
        t += 1;
    }
    proof {
        assert(index@.take(t as int) =~= index@);
    }
    best
}

/// The error of the `gltf` crate, carried through unopened.
#[verifier::external_type_specification]
#[verifier::external_body]
pub struct ExGltfError(gltf::Error);

/// Why a container could not be produced.
#[derive(Clone, Copy, Debug, PartialEq, Eq, Structural)]
pub enum GlbError {
    /// The container writer reported a failure.
    Write,
    /// The container would be longer than its 32-bit length field can say.
    TooLarge,
    /// A triangle corner or a mesh position does not fit 16 bits.
    IndexRange,
}

/// Length in bytes of the container that holds a scene description of
/// `json_len` bytes and a buffer of `bin_len` bytes: a 12-byte header and
/// two chunks, each an 8-byte chunk header and a padded payload.
pub open spec fn container_len(json_len: int, bin_len: int) -> int {
    12 + 8 + round_up4(json_len) + 8 + round_up4(bin_len)
}

/// The binary glTF container of a scene description and a buffer: the magic
/// `glTF`, version 2, the total length; the `JSON` chunk, padded with
/// spaces; the `BIN` chunk, padded with zero bytes.
pub open spec fn container_bytes(json: Seq<u8>, bin: Seq<u8>) -> Seq<u8> {
    seq![0x67u8, 0x6C, 0x54, 0x46] + le_bytes_u32(2) + le_bytes_u32(
        container_len(json.len() as int, bin.len() as int) as u32,
    ) + le_bytes_u32(round_up4(json.len() as int) as u32) + seq![0x4Au8, 0x53, 0x4F, 0x4E]
        + pad_with(json, 0x20) + le_bytes_u32(round_up4(bin.len() as int) as u32) + seq![
        0x42u8,
        0x49,
        0x4E,
        0x00,
    ] + pad_with(bin, 0)
}

/// A container is exactly as long as its header declares.
pub proof fn lemma_container_len(json: Seq<u8>, bin: Seq<u8>)
    ensures
        container_bytes(json, bin).len() == container_len(json.len() as int, bin.len() as int),
        container_bytes(json, bin).len() % 4 == 0,
{
    lemma_pad_with_len(json, 0x20);
    lemma_pad_with_len(bin, 0);
}

/// In a container that fits its 32-bit length field, the header holds the
/// magic, version 2 and the container's own length; the `JSON` chunk
/// declares the padded length of the scene description and holds it padded
/// with spaces; the `BIN` chunk follows with the padded buffer.
pub proof fn lemma_container_parts(json: Seq<u8>, bin: Seq<u8>)
    requires
        container_len(json.len() as int, bin.len() as int) <= u32::MAX,
    ensures
        ({
            let c = container_bytes(json, bin);
            let jl = round_up4(json.len() as int);
            let bl = round_up4(bin.len() as int);
            &&& c.len() == 12 + 8 + jl + 8 + bl
            &&& jl % 4 == 0 && bl % 4 == 0
            &&& c.subrange(0, 4) == seq![0x67u8, 0x6C, 0x54, 0x46]
            &&& le_value_u32(c.subrange(4, 8)) == 2
            &&& le_value_u32(c.subrange(8, 12)) == c.len()
            &&& le_value_u32(c.subrange(12, 16)) == jl
            &&& c.subrange(16, 20) == seq![0x4Au8, 0x53, 0x4F, 0x4E]
            &&& c.subrange(20, 20 + jl) == pad_with(json, 0x20)
            &&& le_value_u32(c.subrange(20 + jl, 24 + jl)) == bl
            &&& c.subrange(24 + jl, 28 + jl) == seq![0x42u8, 0x49, 0x4E, 0x00]
            &&& c.subrange(28 + jl, c.len() as int) == pad_with(bin, 0)
        }),
{
    let c = container_bytes(json, bin);
    let jl = round_up4(json.len() as int);
    let bl = round_up4(bin.len() as int);
    let total = container_len(json.len() as int, bin.len() as int);
    lemma_round_up4(json.len() as int);
    lemma_round_up4(bin.len() as int);
    lemma_pad_with_len(json, 0x20);
    lemma_pad_with_len(bin, 0);
    lemma_le_bytes_u32_value(2);
    lemma_le_bytes_u32_value(total as u32);
    lemma_le_bytes_u32_value(jl as u32);
    lemma_le_bytes_u32_value(bl as u32);
    assert(c.subrange(0, 4) =~= seq![0x67u8, 0x6C, 0x54, 0x46]);
    assert(c.subrange(4, 8) =~= le_bytes_u32(2));
    assert(c.subrange(8, 12) =~= le_bytes_u32(total as u32));
    assert(c.subrange(12, 16) =~= le_bytes_u32(jl as u32));
    assert(c.subrange(16, 20) =~= seq![0x4Au8, 0x53, 0x4F, 0x4E]);
    assert(c.subrange(20, 20 + jl) =~= pad_with(json, 0x20));
    assert(c.subrange(20 + jl, 24 + jl) =~= le_bytes_u32(bl as u32));
    assert(c.subrange(24 + jl, 28 + jl) =~= seq![0x42u8, 0x49, 0x4E, 0x00]);
    assert(c.subrange(28 + jl, c.len() as int) =~= pad_with(bin, 0));
}

/// No meshes make an empty buffer, which any indices fit.
pub proof fn lemma_no_meshes(meshes: Seq<Mesh>)
    requires
        meshes.len() == 0,
    ensures
        fits_u16(meshes),
        buffer_len(meshes) == 0,
        buffer_bytes(meshes) == Seq::<u8>::empty(),
{
}

/// Calls `gltf::binary::Glb::to_vec` on a container whose header declares
/// `length`, the true length of the container, as the header's type asks.
/// Trusted: the call returns the header, the `JSON` chunk and the `BIN` chunk
/// as `container_bytes` lays them out.  It returns `Ok` because its only
/// failure is a failed write and it writes into a byte vector, which grows
/// as it is appended to.
#[verifier::external_body]
fn write_container(length: u32, json: Vec<u8>, bin: Vec<u8>) -> (r: Result<Vec<u8>, gltf::Error>)
    requires
        length == container_len(json@.len() as int, bin@.len() as int),
    ensures
        r is Ok,
        r matches Ok(bytes) ==> bytes@ == container_bytes(json@, bin@),
{
    let header = gltf::binary::Header { magic: *b"glTF", version: 2, length };
    gltf::binary::Glb { header, json: Cow::Owned(json), bin: Some(Cow::Owned(bin)) }.to_vec()
}

/// Keeps the bytes that the container writer produced, or reports that it
/// failed.
pub fn container_result(written: Result<Vec<u8>, gltf::Error>) -> (r: Result<Vec<u8>, GlbError>)
    ensures
        match written {
            Ok(bytes) => r == Ok::<Vec<u8>, GlbError>(bytes),
            Err(_) => r == Err::<Vec<u8>, GlbError>(GlbError::Write),
        },
{
    match written {
        Ok(bytes) => Ok(bytes),
        Err(_) => Err(GlbError::Write),
    }
}

/// Packs `meshes` into the binary buffer and wraps it, together with the
/// scene description `json`, into a binary glTF container.
pub fn get_glb(meshes: Vec<Mesh>, json: Vec<u8>) -> (r: Result<Vec<u8>, GlbError>)
    requires
        fits_u16(meshes@),
        container_len(json@.len() as int, buffer_len(meshes@)) <= u32::MAX,
    ensures
        r is Ok,
        r matches Ok(bytes) ==> bytes@ == container_bytes(json@, buffer_bytes(meshes@)),
{
    proof {
        lemma_buffer_bytes_len(meshes@);
        lemma_buffer_len_take(meshes@, meshes@.len() as int);
        assert(meshes@.take(meshes@.len() as int) =~= meshes@);
        lemma_round_up4(buffer_len(meshes@));
        lemma_round_up4(json@.len() as int);
    }
    let bin = pack_buffer(&meshes);
    let offset: u32 = bin.len() as u32;
    let mut json_offset: u32 = json.len() as u32;
    align_to_multiple_of_four(&mut json_offset);
    let length: u32 = 28 + json_offset + offset;
    container_result(write_container(length, json, bin))
}

/// Wraps `meshes` and `json` as `get_glb` does where indices and mesh
/// positions fit 16 bits and the container fits its 32-bit length field;
/// otherwise it says which of the two does not hold.
pub fn try_get_glb(meshes: Vec<Mesh>, json: Vec<u8>) -> (r: Result<Vec<u8>, GlbError>)
    ensures
        r is Ok <==> fits_u16(meshes@) && container_len(json@.len() as int, buffer_len(meshes@))
            <= u32::MAX,
        r matches Ok(bytes) ==> bytes@ == container_bytes(json@, buffer_bytes(meshes@)),
        r matches Err(e) ==> e == if fits_u16(meshes@) {
            GlbError::TooLarge
        } else {
            GlbError::IndexRange
        },
{
    proof {
        lemma_buffer_len_take(meshes@, meshes@.len() as int);
        assert(meshes@.take(meshes@.len() as int) =~= meshes@);
        lemma_round_up4(buffer_len(meshes@));
        lemma_round_up4(json@.len() as int);
    }
    if !check_fits_u16(&meshes) {
        return Err(GlbError::IndexRange);
    }
    let bin_len: u32 = match checked_buffer_len(&meshes) {
        Some(n) => n,
        None => {
            return Err(GlbError::TooLarge);
        },
    };
    if json.len() as u64 > 0xFFFF_FFFF {
        return Err(GlbError::TooLarge);
    }
    let mut json_len: u64 = json.len() as u64;
    json_len = (json_len + 3) / 4 * 4;
    if 28 + json_len + bin_len as u64 > 0xFFFF_FFFF {
        return Err(GlbError::TooLarge);
    }
    get_glb(meshes, json)
}

} // verus!
