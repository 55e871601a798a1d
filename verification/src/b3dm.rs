//! The Batched 3D Model container: a 28-byte header, the feature table, the
//! batch table and the model payload, each padded to four bytes.

use crate::align::{
    checked_round_up4, filler, lemma_concat4_parts, lemma_mask_usize, lemma_pad_with_len,
    lemma_round_up4, lemma_round_up4_add, pad_with, padding4, round_up4,
};
use crate::buffer::{buffer_bytes, buffer_len, fits_u16};
use crate::glb::{container_bytes, container_len, lemma_no_meshes, try_get_glb, GlbError};
use crate::le::{le_bytes_u32, le_value_u32, lemma_le_bytes_u32_value, push_u32_le};
use crate::mesh::Mesh;
use crate::name::{mesh_name, mesh_name_of};
use std::borrow::Cow;
use vstd::prelude::*;

verus! {

/// Rounds `n` up to the next multiple of four.
pub fn align_to_multiple_of_four(n: &mut usize)
    requires
        *old(n) + 3 <= usize::MAX,
    ensures
        *final(n) == round_up4(*old(n) as int),
{
    proof {
        lemma_mask_usize(*n);
    }
    *n = (*n + 3) & !3;
}

/// The feature table of a tile: how many features the batch holds.
#[derive(Clone, Copy, Debug, PartialEq, Eq, Structural)]
pub struct FeatureTable {
    /// Number of features.
    pub batch_length: u32,
}

/// The batch table of a tile: three parallel lists with one entry per
/// feature.
pub struct BatchTable {
    /// The identifier of each feature: its position in the batch.
    pub batch_id: Vec<u32>,
    /// The height of each feature, as a single-precision bit pattern.
    pub height: Vec<u32>,
    /// The name of each feature's mesh.
    pub name: Vec<String>,
}

impl BatchTable {
    /// The table lists the features with the given heights, in order:
    /// feature `i` has identifier `i` and the name of mesh `i`.
    pub open spec fn lists(&self, heights: Seq<u32>) -> bool {
        &&& self.batch_id@.len() == heights.len()
        &&& self.height@ == heights
        &&& self.name@.len() == heights.len()
        &&& forall|i: int| 0 <= i < heights.len() ==> #[trigger] self.batch_id@[i] == i
        &&& forall|i: int| 0 <= i < heights.len() ==> (#[trigger] self.name@[i])@ == mesh_name_of(i)
    }
}

/// The feature table and the batch table of the features with the given
/// heights.
pub fn batch_tables(heights: Vec<u32>) -> (tables: (FeatureTable, BatchTable))
    requires
        heights@.len() <= i32::MAX,
    ensures
        tables.0.batch_length == heights@.len(),
        tables.1.lists(heights@),
{
    let mut ids: Vec<u32> = Vec::new();
    let mut names: Vec<String> = Vec::new();
    let mut id: i32 = 0;
    while (id as usize) < heights.len()
        invariant
            0 <= id <= heights@.len() <= i32::MAX,
            ids@.len() == id,
            names@.len() == id,
            forall|i: int| 0 <= i < id ==> #[trigger] ids@[i] == i,
            forall|i: int| 0 <= i < id ==> (#[trigger] names@[i])@ == mesh_name_of(i),
        decreases heights@.len() - id,
    {
        ids.push(id as u32);
        names.push(mesh_name(id));
        id = id + 1;
    }
    (FeatureTable { batch_length: id as u32 }, BatchTable { batch_id: ids, height: heights, name: names })
}

/// What a tile is made from: the model payload, if any, and the lengths of
/// the two tables as the caller counted them.  The header is written from
/// the bytes that are handed to `to_writer`, not from these counts.
pub struct MakeB3dm<'a> {
    /// Length of the feature table as the caller counted it.
    pub feature_table_json_byte_length: usize,
    /// Length of the batch table as the caller counted it.
    pub batch_table_json_byte_length: usize,
    /// The binary glTF payload.
    pub glb: Option<Cow<'a, [u8]>>,
}

/// Total length that the header declares for tables declared at
/// `feature_len` and `batch_len` bytes: the header and both tables rounded
/// up, then the payload added and the sum rounded up again.
pub open spec fn declared_total(feature_len: int, batch_len: int, glb_len: Option<int>) -> int {
    let tables = round_up4(28 + feature_len + batch_len);
    match glb_len {
        Some(n) => round_up4(tables + n),
        None => tables,
    }
}

/// The 28-byte header: the magic `b3dm`, version 1, the total length, and
/// the lengths of the feature table, its binary part (none), the batch table
/// and its binary part (none), each a little-endian `u32`.
pub open spec fn header_bytes(total: u32, feature_len: u32, batch_len: u32) -> Seq<u8> {
    seq![0x62u8, 0x33, 0x64, 0x6D] + le_bytes_u32(1) + le_bytes_u32(total) + le_bytes_u32(
        feature_len,
    ) + le_bytes_u32(0) + le_bytes_u32(batch_len) + le_bytes_u32(0)
}

/// The payload padded with zero bytes, or nothing where there is no payload.
pub open spec fn payload_bytes(glb: Option<Seq<u8>>) -> Seq<u8> {
    match glb {
        Some(bin) => pad_with(bin, 0),
        None => Seq::empty(),
    }
}

/// The length of the payload, where there is one.
pub open spec fn payload_len(glb: Option<Seq<u8>>) -> Option<int> {
    match glb {
        Some(bin) => Some(bin.len() as int),
        None => None,
    }
}

/// Length of the tile of two tables and a payload: the header and the three
/// sections, each at its padded length.
pub open spec fn tile_len(feature: Seq<u8>, batch: Seq<u8>, glb: Option<Seq<u8>>) -> int {
    28 + round_up4(feature.len() as int) + round_up4(batch.len() as int) + match glb {
        Some(bin) => round_up4(bin.len() as int),
        None => 0,
    }
}

/// The whole tile: the header, which declares each table at the padded
/// length of its bytes; the feature table and the batch table, padded with
/// spaces; the payload, padded with zero bytes.
pub open spec fn tile_bytes(feature: Seq<u8>, batch: Seq<u8>, glb: Option<Seq<u8>>) -> Seq<u8> {
    let feature_len = round_up4(feature.len() as int);
    let batch_len = round_up4(batch.len() as int);
    header_bytes(
        declared_total(feature_len, batch_len, payload_len(glb)) as u32,
        feature_len as u32,
        batch_len as u32,
    ) + pad_with(feature, 0x20) + pad_with(batch, 0x20) + payload_bytes(glb)
}

/// Appends `section` to `buf`, then copies of `fill` up to the section's own
/// four-byte boundary.
fn push_padded(buf: &mut Vec<u8>, section: &[u8], fill: u8)
    ensures
        final(buf)@ == old(buf)@ + pad_with(section@, fill),
{
    let ghost start = buf@;
    buf.extend_from_slice(section);
    proof {
        lemma_round_up4(section@.len() as int);
    }
    let padding: usize = (4 - section.len() % 4) % 4;
    let mut k: usize = 0;
    while k < padding
        invariant
            k <= padding,
            padding == padding4(section@.len() as int),
            buf@ == start + section@ + filler(k as int, fill),
        decreases padding - k,
    {
        buf.push(fill);
        assert(buf@ =~= start + section@ + filler(k + 1, fill));
        k += 1;
    }
    assert(buf@ =~= start + pad_with(section@, fill));
}

/// Appends the 28-byte header to `buf`.
fn push_header(buf: &mut Vec<u8>, total: u32, feature_len: u32, batch_len: u32)
    ensures
        final(buf)@ == old(buf)@ + header_bytes(total, feature_len, batch_len),
{
    buf.push(0x62);
    buf.push(0x33);
    buf.push(0x64);
    buf.push(0x6D);
    push_u32_le(buf, 1);
    push_u32_le(buf, total);
    push_u32_le(buf, feature_len);
    push_u32_le(buf, 0);
    push_u32_le(buf, batch_len);
    push_u32_le(buf, 0);
    assert(buf@ =~= old(buf)@ + header_bytes(total, feature_len, batch_len));
}

/// The bytes that a payload holds.
fn payload_slice<'b>(glb: &'b Cow<'_, [u8]>) -> (s: &'b [u8])
    ensures
        s@ == glb@,
{
    match glb {
        Cow::Borrowed(b) => b,
        Cow::Owned(v) => v.as_slice(),
    }
}

/// Where both tables are declared at multiples of four, the declared total
/// is the header, the tables and the padded payload added up.
pub proof fn lemma_declared_total(feature_len: int, batch_len: int, glb_len: Option<int>)
    requires
        0 <= feature_len && feature_len % 4 == 0,
        0 <= batch_len && batch_len % 4 == 0,
        glb_len matches Some(n) ==> 0 <= n,
    ensures
        declared_total(feature_len, batch_len, glb_len) == 28 + feature_len + batch_len + match glb_len {
            Some(n) => round_up4(n),
            None => 0,
        },
{
    lemma_round_up4(28 + feature_len + batch_len);
    if glb_len is Some {
        lemma_round_up4_add(28 + feature_len + batch_len, glb_len->0);
    }
}

/// The total that a tile's header declares is the tile's length.
pub proof fn lemma_total_is_tile_len(feature: Seq<u8>, batch: Seq<u8>, glb: Option<Seq<u8>>)
    ensures
        declared_total(
            round_up4(feature.len() as int),
            round_up4(batch.len() as int),
            payload_len(glb),
        ) == tile_len(feature, batch, glb),
        tile_len(feature, batch, glb) % 4 == 0,
        tile_len(feature, batch, glb) >= 28,
{
    lemma_round_up4(feature.len() as int);
    lemma_round_up4(batch.len() as int);
    if glb is Some {
        lemma_round_up4(glb->0.len() as int);
    }
    lemma_declared_total(
        round_up4(feature.len() as int),
        round_up4(batch.len() as int),
        payload_len(glb),
    );
}

impl<'a> MakeB3dm<'a> {
    /// The payload as a sequence of bytes, where there is one.
    pub open spec fn payload(&self) -> Option<Seq<u8>> {
        match self.glb {
            Some(bin) => Some(bin@),
            None => None,
        }
    }

    /// The total length of the tile of the two tables and the payload: the
    /// header and the tables at their padded lengths, rounded up; then the
    /// payload added, and the sum rounded up again.
    fn total_length(&self, feature_len: usize, batch_len: usize) -> (length: usize)
        requires
            feature_len % 4 == 0,
            batch_len % 4 == 0,
            declared_total(feature_len as int, batch_len as int, payload_len(self.payload()))
                <= u32::MAX,
        ensures
            length == declared_total(
                feature_len as int,
                batch_len as int,
                payload_len(self.payload()),
            ),
    {
        proof {
            lemma_declared_total(
                feature_len as int,
                batch_len as int,
                payload_len(self.payload()),
            );
            lemma_round_up4(28 + feature_len + batch_len);
            if self.payload() is Some {
                lemma_round_up4(self.payload()->0.len() as int);
                lemma_round_up4_add(28 + feature_len + batch_len, self.payload()->0.len() as int);
            }
        }
        let mut length: usize = 28 + feature_len + batch_len;
        align_to_multiple_of_four(&mut length);
        if let Some(bin) = self.glb.as_ref() {
            length += payload_slice(bin).len();
            align_to_multiple_of_four(&mut length);
        }
        length
    }

    /// Appends the tile to `writer`: the header, which declares each table
    /// at the padded length of the bytes given here, then both tables and
    /// the payload, each padded to four bytes.
    pub fn to_writer(
        &self,
        writer: &mut Vec<u8>,
        feature_string_vec: Vec<u8>,
        table_string_vec: Vec<u8>,
    )
        requires
            tile_len(feature_string_vec@, table_string_vec@, self.payload()) <= u32::MAX,
        ensures
            final(writer)@ == old(writer)@ + tile_bytes(
                feature_string_vec@,
                table_string_vec@,
                self.payload(),
            ),
    {
        let ghost start = writer@;
        proof {
            lemma_round_up4(feature_string_vec@.len() as int);
            lemma_round_up4(table_string_vec@.len() as int);
            if self.payload() is Some {
                lemma_round_up4(self.payload()->0.len() as int);
            }
            lemma_total_is_tile_len(feature_string_vec@, table_string_vec@, self.payload());
        }
        let mut feature_table_json_byte_length = feature_string_vec.len();
        align_to_multiple_of_four(&mut feature_table_json_byte_length);
        let mut batch_table_json_byte_length = table_string_vec.len();
        align_to_multiple_of_four(&mut batch_table_json_byte_length);
        let length = self.total_length(
            feature_table_json_byte_length,
            batch_table_json_byte_length,
        );
        push_header(
            writer,
            length as u32,
            feature_table_json_byte_length as u32,
            batch_table_json_byte_length as u32,
        );
        let ghost header = header_bytes(
            length as u32,
            feature_table_json_byte_length as u32,
            batch_table_json_byte_length as u32,
        );
        push_padded(writer, feature_string_vec.as_slice(), 0x20);
        push_padded(writer, table_string_vec.as_slice(), 0x20);
        if let Some(bin) = self.glb.as_ref() {
            push_padded(writer, payload_slice(bin), 0);
        }
        assert(writer@ =~= start + (header + pad_with(feature_string_vec@, 0x20) + pad_with(
            table_string_vec@,
            0x20,
        ) + payload_bytes(self.payload())));
    }
}

/// Builds the tile of two tables and a payload.
pub fn encode_tile(feature_string_vec: Vec<u8>, table_string_vec: Vec<u8>, glb: Vec<u8>) -> (tile:
    Vec<u8>)
    requires
        tile_len(feature_string_vec@, table_string_vec@, Some(glb@)) <= u32::MAX,
    ensures
        tile@ == tile_bytes(feature_string_vec@, table_string_vec@, Some(glb@)),
{
    proof {
        lemma_round_up4(feature_string_vec@.len() as int);
        lemma_round_up4(table_string_vec@.len() as int);
        lemma_round_up4(glb@.len() as int);
    }
    let mut feature_table_json_byte_length = feature_string_vec.len();
    align_to_multiple_of_four(&mut feature_table_json_byte_length);
    let mut batch_table_json_byte_length = table_string_vec.len();
    align_to_multiple_of_four(&mut batch_table_json_byte_length);
    let tile = MakeB3dm {
        feature_table_json_byte_length,
        batch_table_json_byte_length,
        glb: Some(Cow::Owned(glb)),
    };
    let mut out: Vec<u8> = Vec::new();
    tile.to_writer(&mut out, feature_string_vec, table_string_vec);
    out
}

/// Builds the tile as `encode_tile` does where its length fits the header's
/// 32-bit field; otherwise there is no tile.
pub fn try_encode_tile(feature_string_vec: Vec<u8>, table_string_vec: Vec<u8>, glb: Vec<u8>) -> (r:
    Option<Vec<u8>>)
    ensures
        r is Some <==> tile_len(feature_string_vec@, table_string_vec@, Some(glb@)) <= u32::MAX,
        r matches Some(tile) ==> tile@ == tile_bytes(
            feature_string_vec@,
            table_string_vec@,
            Some(glb@),
        ),
{
    proof {
        lemma_round_up4(feature_string_vec@.len() as int);
        lemma_round_up4(table_string_vec@.len() as int);
        lemma_round_up4(glb@.len() as int);
    }
    let room: usize = 0xFFFF_FFFF - 28;
    let f = match checked_round_up4(feature_string_vec.len()) {
        Some(n) => n,
        None => { return None; },
    };
    let t = match checked_round_up4(table_string_vec.len()) {
        Some(n) => n,
        None => { return None; },
    };
    let g = match checked_round_up4(glb.len()) {
        Some(n) => n,
        None => { return None; },
    };
    if f > room || t > room - f || g > room - f - t {
        return None;
    }
    Some(encode_tile(feature_string_vec, table_string_vec, glb))
}

/// The tile of the model of `meshes`: the meshes packed and wrapped with
/// the scene description `json` into a container, and the container wrapped
/// with the two tables into a tile.  It fails where an index or a mesh
/// position does not fit 16 bits (`IndexRange`), or where the container or
/// the tile does not fit its 32-bit length field (`TooLarge`).
pub fn try_model_tile(
    meshes: Vec<Mesh>,
    json: Vec<u8>,
    feature_string_vec: Vec<u8>,
    table_string_vec: Vec<u8>,
) -> (r: Result<Vec<u8>, GlbError>)
    ensures
        r is Ok <==> {
            &&& fits_u16(meshes@)
            &&& container_len(json@.len() as int, buffer_len(meshes@)) <= u32::MAX
            &&& tile_len(
                feature_string_vec@,
                table_string_vec@,
                Some(container_bytes(json@, buffer_bytes(meshes@))),
            ) <= u32::MAX
        },
        r matches Ok(tile) ==> tile@ == tile_bytes(
            feature_string_vec@,
            table_string_vec@,
            Some(container_bytes(json@, buffer_bytes(meshes@))),
        ),
        r matches Err(e) ==> e == if fits_u16(meshes@) {
            GlbError::TooLarge
        } else {
            GlbError::IndexRange
        },
{
    let glb = match try_get_glb(meshes, json) {
        Ok(glb) => glb,
        Err(e) => {
            return Err(e);
        },
    };
    match try_encode_tile(feature_string_vec, table_string_vec, glb) {
        Some(tile) => Ok(tile),
        None => Err(GlbError::TooLarge),
    }
}

/// Without any mesh the model tile is still owed wherever the scene
/// description and the tables fit: the indices fit, the buffer is empty, and
/// the tile opens with its magic and declares its own length.
pub proof fn lemma_tile_without_meshes(
    meshes: Seq<Mesh>,
    json: Seq<u8>,
    feature: Seq<u8>,
    batch: Seq<u8>,
)
    requires
        meshes.len() == 0,
        tile_len(feature, batch, Some(container_bytes(json, Seq::<u8>::empty()))) <= u32::MAX,
    ensures
        fits_u16(meshes),
        buffer_bytes(meshes) == Seq::<u8>::empty(),
        container_len(json.len() as int, buffer_len(meshes)) <= u32::MAX,
        ({
            let tile = tile_bytes(feature, batch, Some(container_bytes(json, buffer_bytes(meshes))));
            &&& tile.subrange(0, 4) == seq![0x62u8, 0x33, 0x64, 0x6D]
            &&& header_field(tile, 2) == tile.len()
        }),
{
    lemma_no_meshes(meshes);
    let glb = container_bytes(json, Seq::<u8>::empty());
    crate::glb::lemma_container_len(json, Seq::<u8>::empty());
    lemma_round_up4(feature.len() as int);
    lemma_round_up4(batch.len() as int);
    lemma_round_up4(glb.len() as int);
    lemma_declared_lengths_match(feature, batch, Some(glb));
}

/// The `k`-th 32-bit field of a tile's header.
pub open spec fn header_field(tile: Seq<u8>, k: int) -> int {
    le_value_u32(tile.subrange(4 * k, 4 * k + 4))
}

/// Offset of the feature table in a tile.
pub open spec fn feature_offset() -> int {
    28
}

/// Offset of the batch table in a tile whose feature table is `feature`.
pub open spec fn batch_offset(feature: Seq<u8>) -> int {
    28 + round_up4(feature.len() as int)
}

/// Offset of the payload in a tile whose tables are `feature` and `batch`.
pub open spec fn payload_offset(feature: Seq<u8>, batch: Seq<u8>) -> int {
    28 + round_up4(feature.len() as int) + round_up4(batch.len() as int)
}

/// The seven four-byte parts of a header.
proof fn lemma_header_parts(total: u32, feature_len: u32, batch_len: u32)
    ensures
        ({
            let h = header_bytes(total, feature_len, batch_len);
            &&& h.len() == 28
            &&& h.subrange(0, 4) == seq![0x62u8, 0x33, 0x64, 0x6D]
            &&& le_value_u32(h.subrange(4, 8)) == 1
            &&& le_value_u32(h.subrange(8, 12)) == total
            &&& le_value_u32(h.subrange(12, 16)) == feature_len
            &&& le_value_u32(h.subrange(16, 20)) == 0
            &&& le_value_u32(h.subrange(20, 24)) == batch_len
            &&& le_value_u32(h.subrange(24, 28)) == 0
        }),
{
    let h = header_bytes(total, feature_len, batch_len);
    assert(h.subrange(0, 4) =~= seq![0x62u8, 0x33, 0x64, 0x6D]);
    assert(h.subrange(4, 8) =~= le_bytes_u32(1));
    assert(h.subrange(8, 12) =~= le_bytes_u32(total));
    assert(h.subrange(12, 16) =~= le_bytes_u32(feature_len));
    assert(h.subrange(16, 20) =~= le_bytes_u32(0));
    assert(h.subrange(20, 24) =~= le_bytes_u32(batch_len));
    assert(h.subrange(24, 28) =~= le_bytes_u32(0));
    lemma_le_bytes_u32_value(1);
    lemma_le_bytes_u32_value(total);
    lemma_le_bytes_u32_value(feature_len);
    lemma_le_bytes_u32_value(0);
    lemma_le_bytes_u32_value(batch_len);
}

/// The fields of a tile that opens with the header of the given lengths
/// hold those lengths.
pub proof fn lemma_header_fields(total: u32, feature_len: u32, batch_len: u32, tile: Seq<u8>)
    requires
        tile.len() >= 28,
        tile.subrange(0, 28) == header_bytes(total, feature_len, batch_len),
    ensures
        tile.subrange(0, 4) == seq![0x62u8, 0x33, 0x64, 0x6D],
        header_field(tile, 1) == 1,
        header_field(tile, 2) == total,
        header_field(tile, 3) == feature_len,
        header_field(tile, 4) == 0,
        header_field(tile, 5) == batch_len,
        header_field(tile, 6) == 0,
{
    let h = tile.subrange(0, 28);
    assert(tile.subrange(0, 4) =~= h.subrange(0, 4));
    assert(tile.subrange(4, 8) =~= h.subrange(4, 8));
    assert(tile.subrange(8, 12) =~= h.subrange(8, 12));
    assert(tile.subrange(12, 16) =~= h.subrange(12, 16));
    assert(tile.subrange(16, 20) =~= h.subrange(16, 20));
    assert(tile.subrange(20, 24) =~= h.subrange(20, 24));
    assert(tile.subrange(24, 28) =~= h.subrange(24, 28));
    lemma_header_parts(total, feature_len, batch_len);
}

/// Every section of a tile starts on a four-byte boundary and fills a
/// multiple of four bytes: the header, the feature table, the batch table
/// and the payload lie in the tile one after another, padded, and the tile
/// is as long as they are together.
pub proof fn lemma_sections_aligned(feature: Seq<u8>, batch: Seq<u8>, glb: Option<Seq<u8>>)
    ensures
        ({
            let tile = tile_bytes(feature, batch, glb);
            let f = pad_with(feature, 0x20);
            let b = pad_with(batch, 0x20);
            let p = payload_bytes(glb);
            &&& feature_offset() % 4 == 0 && f.len() % 4 == 0
            &&& batch_offset(feature) % 4 == 0 && b.len() % 4 == 0
            &&& payload_offset(feature, batch) % 4 == 0 && p.len() % 4 == 0
            &&& tile.len() == tile_len(feature, batch, glb)
            &&& tile.len() == payload_offset(feature, batch) + p.len()
            &&& tile.len() % 4 == 0
            &&& tile.subrange(0, 28) == header_bytes(
                declared_total(
                    round_up4(feature.len() as int),
                    round_up4(batch.len() as int),
                    payload_len(glb),
                ) as u32,
                round_up4(feature.len() as int) as u32,
                round_up4(batch.len() as int) as u32,
            )
            &&& tile.subrange(feature_offset(), feature_offset() + f.len()) == f
            &&& tile.subrange(batch_offset(feature), batch_offset(feature) + b.len()) == b
            &&& tile.subrange(payload_offset(feature, batch), tile.len() as int) == p
        }),
{
    let feature_len = round_up4(feature.len() as int);
    let batch_len = round_up4(batch.len() as int);
    let h = header_bytes(
        declared_total(feature_len, batch_len, payload_len(glb)) as u32,
        feature_len as u32,
        batch_len as u32,
    );
    let f = pad_with(feature, 0x20);
    let b = pad_with(batch, 0x20);
    let p = payload_bytes(glb);
    lemma_pad_with_len(feature, 0x20);
    lemma_pad_with_len(batch, 0x20);
    if glb is Some {
        lemma_pad_with_len(glb->0, 0);
    }
    lemma_header_parts(
        declared_total(feature_len, batch_len, payload_len(glb)) as u32,
        feature_len as u32,
        batch_len as u32,
    );
    lemma_concat4_parts(h, f, b, p);
}

/// In a tile that fits the header's 32-bit field, the declared total length
/// is the tile's size, and each table's declared length is the length of the
/// padded bytes written for it.
pub proof fn lemma_declared_lengths_match(feature: Seq<u8>, batch: Seq<u8>, glb: Option<Seq<u8>>)
    requires
        tile_len(feature, batch, glb) <= u32::MAX,
    ensures
        ({
            let tile = tile_bytes(feature, batch, glb);
            &&& tile.subrange(0, 4) == seq![0x62u8, 0x33, 0x64, 0x6D]
            &&& header_field(tile, 1) == 1
            &&& header_field(tile, 2) == tile.len()
            &&& header_field(tile, 3) == pad_with(feature, 0x20).len()
            &&& header_field(tile, 4) == 0
            &&& header_field(tile, 5) == pad_with(batch, 0x20).len()
            &&& header_field(tile, 6) == 0
        }),
{
    let f = round_up4(feature.len() as int);
    let b = round_up4(batch.len() as int);
    let total = declared_total(f, b, payload_len(glb));
    let tile = tile_bytes(feature, batch, glb);
    lemma_round_up4(feature.len() as int);
    lemma_round_up4(batch.len() as int);
    lemma_pad_with_len(feature, 0x20);
    lemma_pad_with_len(batch, 0x20);
    lemma_total_is_tile_len(feature, batch, glb);
    lemma_sections_aligned(feature, batch, glb);
    lemma_header_fields(total as u32, f as u32, b as u32, tile);
}

} // verus!
