use b3dm_tiles::align::{checked_round_up4, pad_to_four};
use b3dm_tiles::b3dm::{
    align_to_multiple_of_four, batch_tables, encode_tile, try_encode_tile, try_model_tile,
    BatchTable, FeatureTable, MakeB3dm,
};
use b3dm_tiles::glb::{get_glb, GlbError};
use b3dm_tiles::mesh::Mesh;
use b3dm_tiles::tileset::{lowest_elevation, Asset, Content};
use std::borrow::Cow;

fn le32(x: u32) -> Vec<u8> {
    x.to_le_bytes().to_vec()
}

fn field(tile: &[u8], k: usize) -> u32 {
    u32::from_le_bytes([tile[4 * k], tile[4 * k + 1], tile[4 * k + 2], tile[4 * k + 3]])
}

fn padded(bytes: &[u8], fill: u8) -> Vec<u8> {
    let mut out = bytes.to_vec();
    while out.len() % 4 != 0 {
        out.push(fill);
    }
    out
}

#[test]
fn align_usize_rounds_up() {
    for (n, want) in [(0usize, 0usize), (1, 4), (2, 4), (3, 4), (4, 4), (5, 8), (29, 32), (1000, 1000)] {
        let mut x = n;
        align_to_multiple_of_four(&mut x);
        assert_eq!(x, want);
    }
}

#[test]
fn tile_is_exact() {
    let feature = b"{\"BATCH_LENGTH\":1}".to_vec();
    let batch = b"{\"batchId\":[0]}".to_vec();
    let glb = vec![1u8, 2, 3, 4, 5];
    let tile = encode_tile(feature.clone(), batch.clone(), glb.clone());
    let mut want = Vec::new();
    want.extend(b"b3dm");
    want.extend(le32(1));
    want.extend(le32(28 + 20 + 16 + 8));
    want.extend(le32(20));
    want.extend(le32(0));
    want.extend(le32(16));
    want.extend(le32(0));
    want.extend(&feature);
    want.extend(b"  ");
    want.extend(&batch);
    want.extend(b" ");
    want.extend(&glb);
    want.extend([0, 0, 0]);
    assert_eq!(tile, want);
}

#[test]
fn to_writer_declares_what_it_writes() {
    let tile = MakeB3dm {
        feature_table_json_byte_length: 18,
        batch_table_json_byte_length: 2,
        glb: Some(Cow::Borrowed(&[7u8, 7, 7, 7, 7][..])),
    };
    let mut writer = Vec::new();
    tile.to_writer(&mut writer, b"{\"BATCH_LENGTH\":1}".to_vec(), b"{}".to_vec());
    assert_eq!(writer.len(), 60);
    assert_eq!(field(&writer, 2), 60);
    assert_eq!(field(&writer, 3), 20);
    assert_eq!(field(&writer, 4), 0);
    assert_eq!(field(&writer, 5), 4);
    assert_eq!(field(&writer, 6), 0);
}

#[test]
fn to_writer_appends_to_what_the_writer_holds() {
    let tile = MakeB3dm {
        feature_table_json_byte_length: 8,
        batch_table_json_byte_length: 4,
        glb: Some(Cow::Borrowed(&[7u8, 7][..])),
    };
    let mut writer = vec![0xAAu8];
    tile.to_writer(&mut writer, b"{\"a\":2}".to_vec(), b"{}".to_vec());
    let mut want = vec![0xAAu8];
    want.extend(b"b3dm");
    want.extend(le32(1));
    want.extend(le32(44));
    want.extend(le32(8));
    want.extend(le32(0));
    want.extend(le32(4));
    want.extend(le32(0));
    want.extend(b"{\"a\":2} ");
    want.extend(b"{}  ");
    want.extend([7, 7, 0, 0]);
    assert_eq!(writer, want);
}

#[test]
fn to_writer_measures_whatever_was_declared() {
    for (declared_f, declared_b) in [(0usize, 0usize), (1, 1), (7, 400), (usize::MAX, usize::MAX)] {
        let tile = MakeB3dm {
            feature_table_json_byte_length: declared_f,
            batch_table_json_byte_length: declared_b,
            glb: Some(Cow::Owned(vec![1u8; 5])),
        };
        let mut writer = Vec::new();
        tile.to_writer(&mut writer, vec![b'x'], vec![b'y', b'y', b'y', b'y', b'y']);
        assert_eq!(field(&writer, 2), 48);
        assert_eq!(field(&writer, 3), 4);
        assert_eq!(field(&writer, 5), 8);
        assert_eq!(writer.len(), 28 + 4 + 8 + 8);
    }
}

#[test]
fn to_writer_without_payload() {
    let tile = MakeB3dm {
        feature_table_json_byte_length: 4,
        batch_table_json_byte_length: 0,
        glb: None,
    };
    let mut writer = Vec::new();
    tile.to_writer(&mut writer, b"{}".to_vec(), Vec::new());
    let mut want = Vec::new();
    want.extend(b"b3dm");
    want.extend(le32(1));
    want.extend(le32(32));
    want.extend(le32(4));
    want.extend(le32(0));
    want.extend(le32(0));
    want.extend(le32(0));
    want.extend(b"{}  ");
    assert_eq!(writer, want);
}

#[test]
fn declared_lengths_match_what_is_written() {
    for f in 0usize..9 {
        for b in 0usize..9 {
            for g in [0usize, 1, 2, 3, 4, 37] {
                let feature = vec![b'f'; f];
                let batch = vec![b'b'; b];
                let glb = vec![0x5Au8; g];
                let tile = encode_tile(feature.clone(), batch.clone(), glb.clone());
                assert_eq!(&tile[..4], b"b3dm");
                assert_eq!(field(&tile, 1), 1);
                assert_eq!(field(&tile, 2) as usize, tile.len());
                assert_eq!(field(&tile, 3) as usize, padded(&feature, 0x20).len());
                assert_eq!(field(&tile, 4), 0);
                assert_eq!(field(&tile, 5) as usize, padded(&batch, 0x20).len());
                assert_eq!(field(&tile, 6), 0);
            }
        }
    }
}

#[test]
fn sections_start_and_end_on_four_byte_boundaries() {
    for f in 0usize..6 {
        for b in 0usize..6 {
            for g in 0usize..6 {
                let feature = vec![b'f'; f];
                let batch = vec![b'b'; b];
                let glb = vec![0x5Au8; g];
                let tile = encode_tile(feature.clone(), batch.clone(), glb.clone());
                let feature_at = 28;
                let batch_at = feature_at + padded(&feature, 0x20).len();
                let glb_at = batch_at + padded(&batch, 0x20).len();
                assert_eq!(batch_at % 4, 0);
                assert_eq!(glb_at % 4, 0);
                assert_eq!(tile.len() % 4, 0);
                assert_eq!(&tile[feature_at..batch_at], &padded(&feature, 0x20)[..]);
                assert_eq!(&tile[batch_at..glb_at], &padded(&batch, 0x20)[..]);
                assert_eq!(&tile[glb_at..], &padded(&glb, 0)[..]);
            }
        }
    }
}

#[test]
fn batch_tables_of_three_features() {
    let (feature, batch) = batch_tables(vec![11, 22, 33]);
    assert_eq!(feature, FeatureTable { batch_length: 3 });
    assert_eq!(batch.batch_id, vec![0, 1, 2]);
    assert_eq!(batch.height, vec![11, 22, 33]);
    assert_eq!(batch.name, vec!["mesh_0".to_string(), "mesh_1".to_string(), "mesh_2".to_string()]);
}

#[test]
fn batch_tables_have_one_entry_per_feature() {
    for n in [0usize, 1, 2, 10, 101] {
        let (feature, batch) = batch_tables(vec![5; n]);
        assert_eq!(feature.batch_length as usize, n);
        assert_eq!(batch.batch_id.len(), n);
        assert_eq!(batch.height.len(), n);
        assert_eq!(batch.name.len(), n);
    }
}

#[test]
fn feature_table_of_one_feature_serialises_to_batch_length() {
    let (feature, _) = batch_tables(vec![f32::to_bits(10.0)]);
    let mut fields = serde_json::Map::new();
    fields.insert("BATCH_LENGTH".to_string(), serde_json::Value::from(feature.batch_length));
    let text = serde_json::to_string(&serde_json::Value::Object(fields)).expect("json");
    assert_eq!(text, "{\"BATCH_LENGTH\":1}");
}

#[test]
fn no_features_still_make_a_tile() {
    let (feature, batch) = batch_tables(Vec::new());
    assert_eq!(feature.batch_length, 0);
    let BatchTable { batch_id, height, name } = batch;
    assert!(batch_id.is_empty() && height.is_empty() && name.is_empty());
    let glb = get_glb(Vec::new(), b"{}".to_vec()).expect("container");
    assert_eq!(glb.len(), 32);
    let feature_json = b"{\"BATCH_LENGTH\":0}".to_vec();
    let batch_json = b"{\"batchId\":[],\"height\":[],\"name\":[]}".to_vec();
    let tile = encode_tile(feature_json.clone(), batch_json.clone(), glb.clone());
    assert_eq!(field(&tile, 2) as usize, tile.len());
    assert_eq!(tile.len(), 28 + 20 + 36 + 32);
    assert_eq!(&tile[28 + 20 + 36..], &glb[..]);
}

#[test]
fn manifest_constants() {
    let asset = Asset::z_up();
    assert_eq!(asset.gltf_up_axis, "Z");
    assert_eq!(asset.version, "1.0");
    assert_eq!(Content::model().uri, "0.b3dm");
}

#[test]
fn checked_rounding() {
    assert_eq!(checked_round_up4(0), Some(0));
    assert_eq!(checked_round_up4(13), Some(16));
    assert_eq!(checked_round_up4(usize::MAX - 3), Some(usize::MAX - 3));
    assert_eq!(checked_round_up4(usize::MAX - 2), None);
    assert_eq!(checked_round_up4(usize::MAX), None);
}

#[test]
fn pad_to_four_fills_to_the_boundary() {
    let mut buf = vec![1u8, 2, 3, 4, 5];
    pad_to_four(&mut buf, 0x20);
    assert_eq!(buf, vec![1, 2, 3, 4, 5, 0x20, 0x20, 0x20]);
    pad_to_four(&mut buf, 9);
    assert_eq!(buf.len(), 8);
    let mut empty: Vec<u8> = Vec::new();
    pad_to_four(&mut empty, 1);
    assert!(empty.is_empty());
}

#[test]
fn try_encode_tile_agrees_with_encode_tile() {
    let tile = try_encode_tile(b"{}".to_vec(), b"[1]".to_vec(), vec![1, 2, 3]);
    assert_eq!(tile, Some(encode_tile(b"{}".to_vec(), b"[1]".to_vec(), vec![1, 2, 3])));
}

#[test]
fn ground_level_is_the_least_sample() {
    assert_eq!(lowest_elevation(&vec![]), 0);
    assert_eq!(lowest_elevation(&vec![12]), 12);
    assert_eq!(lowest_elevation(&vec![12, 7, 30]), 7);
    assert_eq!(lowest_elevation(&vec![5, 5, -3, 9]), -3);
    assert_eq!(lowest_elevation(&vec![3, 4]), 3);
}

#[test]
fn model_tile_wraps_the_container() {
    let mesh = || Mesh {
        vertex: vec![[1, 2, 3], [4, 5, 6], [7, 8, 9]],
        mesh_name: "mesh_0".to_string(),
        index: vec![[0, 1, 2]],
        normal: vec![[0, 0, 1], [0, 0, 1], [0, 0, 1]],
        height: 3,
    };
    let json = b"{\"scene\":0}".to_vec();
    let feature = b"{\"BATCH_LENGTH\":1}".to_vec();
    let batch = b"{\"batchId\":[0]}".to_vec();
    let glb = get_glb(vec![mesh()], json.clone()).expect("container");
    let tile = try_model_tile(vec![mesh()], json, feature.clone(), batch.clone());
    assert_eq!(tile, Ok(encode_tile(feature, batch, glb.clone())));
    let tile = tile.expect("tile");
    assert_eq!(field(&tile, 2) as usize, tile.len());
    assert_eq!(&tile[tile.len() - glb.len()..], &glb[..]);
}

#[test]
fn model_tile_without_features() {
    let tile = try_model_tile(Vec::new(), b"{}".to_vec(), b"{\"BATCH_LENGTH\":0}".to_vec(), b"{}".to_vec())
        .expect("tile");
    assert_eq!(&tile[..4], b"b3dm");
    assert_eq!(field(&tile, 2) as usize, tile.len());
    assert_eq!(tile.len(), 28 + 20 + 4 + 32);
    assert_eq!(&tile[52..56], b"glTF");
    assert_eq!(field(&tile[52..], 1), 2);
    assert_eq!(field(&tile[52..], 2), 32);
}

#[test]
fn model_tile_refuses_wide_indices() {
    let mesh = Mesh {
        vertex: Vec::new(),
        mesh_name: "m".to_string(),
        index: vec![[0, 0, 65536]],
        normal: Vec::new(),
        height: 0,
    };
    let tile = try_model_tile(vec![mesh], b"{}".to_vec(), b"{}".to_vec(), b"{}".to_vec());
    assert_eq!(tile, Err(GlbError::IndexRange));
}
