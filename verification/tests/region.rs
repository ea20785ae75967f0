use item_finder::chunk::ChunkCompression;
use item_finder::error::{ErrorKind, SearchError};
use item_finder::filename::{coords_from_captures, read_region_coords, MAX_REGION, MIN_REGION};
use item_finder::region::{slot_of, LocationTable, MtimeTable, Region};
use nbt::{Blob, Value};

fn payload_of(tag: u8, blob: &Blob) -> Vec<u8> {
    let mut payload = Vec::new();
    if tag == 1 {
        blob.to_gzip_writer(&mut payload).unwrap();
    } else {
        blob.to_zlib_writer(&mut payload).unwrap();
    }
    let mut bytes = ((payload.len() as u32) + 1).to_be_bytes().to_vec();
    bytes.push(tag);
    bytes.extend_from_slice(&payload);
    bytes
}

fn region_file(chunks: &[(usize, u32, u8, Vec<u8>)]) -> Vec<u8> {
    let mut file = vec![0u8; 8192];
    for (slot, offset, count, bytes) in chunks {
        file[4 * slot] = (offset >> 16) as u8;
        file[4 * slot + 1] = (offset >> 8) as u8;
        file[4 * slot + 2] = *offset as u8;
        file[4 * slot + 3] = *count;
        let start = (*offset as usize) * 4096;
        if bytes.is_empty() {
            continue;
        }
        if file.len() < start + bytes.len() {
            file.resize(start + bytes.len(), 0);
        }
        file[start..start + bytes.len()].copy_from_slice(bytes);
    }
    file
}

fn villager_document(name: &str) -> Blob {
    let mut villager = nbt::Map::new();
    villager.insert("id".to_string(), Value::String("minecraft:villager".to_string()));
    villager.insert("CustomName".to_string(), Value::String(name.to_string()));
    let mut blob = Blob::new();
    blob.insert("Entities", Value::List(vec![Value::Compound(villager)])).unwrap();
    blob
}

#[test]
fn slot_of_chunks_in_the_first_region() {
    assert_eq!(slot_of(0, 0), 0);
    assert_eq!(slot_of(1, 0), 1);
    assert_eq!(slot_of(31, 0), 31);
    assert_eq!(slot_of(0, 1), 32);
    assert_eq!(slot_of(5, 3), 101);
    assert_eq!(slot_of(31, 31), 1023);
}

#[test]
fn slot_of_chunks_elsewhere() {
    assert_eq!(slot_of(32, 32), 0);
    assert_eq!(slot_of(33, 64), 1);
    assert_eq!(slot_of(-1, 0), 31);
    assert_eq!(slot_of(0, -1), 31 * 32);
    assert_eq!(slot_of(-1, -1), 1023);
    assert_eq!(slot_of(-32, -32), 0);
    assert_eq!(slot_of(-33, -65), 31 + 31 * 32);
    assert_eq!(slot_of(i64::MAX, i64::MAX), 1023);
    assert_eq!(slot_of(i64::MIN, i64::MIN), 0);
}

#[test]
fn slot_follows_the_formula_on_a_grid() {
    for x in -70i64..70 {
        for z in -70i64..70 {
            let expected = ((x % 32 + 32) % 32 + ((z % 32 + 32) % 32) * 32) as usize;
            assert_eq!(slot_of(x, z), expected);
            assert_eq!(slot_of(x, z), (x.rem_euclid(32) + z.rem_euclid(32) * 32) as usize);
            assert!(slot_of(x, z) < 1024);
        }
    }
}

#[test]
fn location_table_needs_4096_bytes() {
    assert!(LocationTable::parse(&[]).is_none());
    assert!(LocationTable::parse(&vec![0u8; 4095]).is_none());
    assert!(LocationTable::parse(&vec![0u8; 4096]).is_some());
    assert!(LocationTable::parse(&vec![0u8; 10000]).is_some());
}

#[test]
fn location_table_entries_are_three_bytes_and_one() {
    let mut bytes = vec![0u8; 4096];
    bytes[0..4].copy_from_slice(&[0x01, 0x02, 0x03, 0x04]);
    bytes[4..8].copy_from_slice(&[0x00, 0x00, 0x02, 0x01]);
    bytes[4092..4096].copy_from_slice(&[0xff, 0xff, 0xff, 0xff]);
    let table = LocationTable::parse(&bytes).unwrap();
    assert_eq!(table.entry(0), Some((0x010203, 4)));
    assert_eq!(table.entry(1), Some((2, 1)));
    assert_eq!(table.entry(2), Some((0, 0)));
    assert_eq!(table.entry(1023), Some((0xffffff, 255)));
    assert_eq!(table.entry(1024), None);
    assert_eq!(table.entry(usize::MAX), None);
}

#[test]
fn extent_is_in_bytes() {
    let mut bytes = vec![0u8; 4096];
    bytes[0..4].copy_from_slice(&[0x00, 0x00, 0x02, 0x01]);
    bytes[4 * 33..4 * 33 + 4].copy_from_slice(&[0x00, 0x01, 0x00, 0x03]);
    bytes[4092..4096].copy_from_slice(&[0xff, 0xff, 0xff, 0xff]);
    let table = LocationTable::parse(&bytes).unwrap();
    assert_eq!(table.chunk_extent(0, 0), Some((8192, 4096)));
    assert_eq!(table.chunk_extent(1, 1), Some((256 * 4096, 3 * 4096)));
    assert_eq!(table.chunk_extent(33, -31), Some((256 * 4096, 3 * 4096)));
    assert_eq!(table.chunk_extent(-1, -1), Some((0xffffff * 4096, 255 * 4096)));
    assert_eq!(table.chunk_extent(2, 0), None);
}

#[test]
fn extent_is_absent_only_where_both_parts_are_zero() {
    let mut bytes = vec![0u8; 4096];
    bytes[4..8].copy_from_slice(&[0x00, 0x00, 0x00, 0x01]);
    bytes[8..12].copy_from_slice(&[0x00, 0x00, 0x05, 0x00]);
    bytes[12..16].copy_from_slice(&[0x00, 0x00, 0x05, 0x01]);
    let table = LocationTable::parse(&bytes).unwrap();
    assert_eq!(table.chunk_extent(0, 0), None);
    assert_eq!(table.chunk_extent(1, 0), Some((0, 4096)));
    assert_eq!(table.chunk_extent(2, 0), Some((5 * 4096, 0)));
    assert_eq!(table.chunk_extent(3, 0), Some((5 * 4096, 4096)));
    for slot in 4..1024i64 {
        assert_eq!(table.chunk_extent(slot % 32, slot / 32), None);
    }
}

#[test]
fn mtime_table_keeps_its_bytes() {
    assert!(MtimeTable::parse(&vec![0u8; 4095]).is_none());
    let bytes: Vec<u8> = (0..5000u32).map(|i| (i % 251) as u8).collect();
    let table = MtimeTable::parse(&bytes).unwrap();
    assert_eq!(table.bytes().as_slice(), &bytes[..4096]);
}

#[test]
fn coordinates_come_from_the_file_name() {
    assert_eq!(read_region_coords("world/entities/r.0.0.mca"), Ok((0, 0)));
    assert_eq!(read_region_coords("world/entities/r.1.-2.mca"), Ok((1, -2)));
    assert_eq!(read_region_coords("/r.-17.345.mca"), Ok((-17, 345)));
    assert_eq!(read_region_coords("r.-17.345.mca"), Ok((-17, 345)));
    assert_eq!(read_region_coords("a/b/c/r.007.-000.mca"), Ok((7, 0)));
    assert_eq!(read_region_coords("./r.12.34.mca.bak"), Ok((12, 34)));
    assert_eq!(read_region_coords("world/region/r.5.6.mcr"), Ok((5, 6)));
    assert_eq!(read_region_coords("dir/r.1.2.mca/r.3.4.mca"), Ok((3, 4)));
    assert_eq!(read_region_coords("two\nlines/r.8.9.mca"), Ok((8, 9)));
}

#[test]
fn names_that_give_no_coordinates() {
    for name in [
        "",
        "world/entities/r.0.mca",
        "world/entities/r.0.0",
        "world/entities/r.0.0.",
        "world/entities/r.a.b.mca",
        "world/entities/r.1.2mca",
        "world/entities/x.1.2.mca",
        "world/entities/xr.1.2.mca",
        "xr.1.2.mca",
        "world/entities/r.+1.2.mca",
        "world/entities/r.1..mca",
        "world/entities/r.--1.2.mca",
        "world/entities/R.1.2.mca",
        "world/entities/r.1.2.mca/",
        "world/entities/r.1.2.mca/level.dat",
        "world/entities/level.dat",
    ] {
        let error = read_region_coords(name).unwrap_err();
        assert_eq!(error, SearchError::MalformedFilename { filename: name.to_string() });
        assert_eq!(error.kind(), ErrorKind::Format);
    }
}

#[test]
fn coordinates_that_are_no_i64_or_out_of_range() {
    for name in [
        "w/r.9223372036854775808.0.mca",
        "w/r.0.-9223372036854775809.mca",
        "w/r.99999999999999999999999.0.mca",
        "w/r.288230376151711744.0.mca",
        "w/r.0.-288230376151711745.mca",
        "w/r.9223372036854775807.0.mca",
        "w/r.\u{0661}.\u{0662}.mca",
    ] {
        assert_eq!(
            read_region_coords(name),
            Err(SearchError::MalformedFilename { filename: name.to_string() })
        );
    }
    assert_eq!(
        read_region_coords("w/r.288230376151711743.-288230376151711744.mca"),
        Ok((MAX_REGION, MIN_REGION))
    );
}

#[test]
fn coordinates_from_capture_groups() {
    let groups = |x: Option<&str>, z: Option<&str>| {
        Some(vec![Some("whole".to_string()), x.map(str::to_string), z.map(str::to_string)])
    };
    assert_eq!(coords_from_captures(&groups(Some("4"), Some("-5"))), Some((4, -5)));
    assert_eq!(coords_from_captures(&groups(Some("4"), None)), None);
    assert_eq!(coords_from_captures(&groups(None, Some("4"))), None);
    assert_eq!(coords_from_captures(&groups(Some("4"), Some("five"))), None);
    assert_eq!(coords_from_captures(&groups(Some(""), Some("5"))), None);
    assert_eq!(coords_from_captures(&groups(Some("288230376151711744"), Some("5"))), None);
    assert_eq!(coords_from_captures(&None), None);
    assert_eq!(coords_from_captures(&Some(vec![])), None);
    assert_eq!(coords_from_captures(&Some(vec![Some("1".to_string()), Some("2".to_string())])), None);
    assert_eq!(
        coords_from_captures(&Some(vec![
            None,
            Some("1".to_string()),
            Some("2".to_string()),
            Some("3".to_string())
        ])),
        None
    );
    assert_eq!(
        coords_from_captures(&Some(vec![None, Some("1".to_string()), Some("2".to_string())])),
        Some((1, 2))
    );
}

#[test]
fn opening_a_region() {
    let mut file = vec![0u8; 8192];
    file[0..4].copy_from_slice(&[0, 0, 2, 1]);
    file[4096] = 0xaa;
    file[8191] = 0xbb;
    let region = Region::new("saves/w/entities/r.-2.3.mca", file).unwrap();
    assert_eq!(region.coordinates(), (-2, 3));
    assert_eq!(region.location_table().entry(0), Some((2, 1)));
    assert_eq!(region.location_table().entry(1), Some((0, 0)));
    assert_eq!(region.mtime_table().bytes()[0], 0xaa);
    assert_eq!(region.mtime_table().bytes()[4095], 0xbb);
    assert_eq!(region.mtime_table().bytes().len(), 4096);
    assert_eq!(region.chunk_extent(-64, 96), Some((8192, 4096)));
    assert_eq!(region.chunk_extent(-63, 96), None);
}

#[test]
fn opening_fails_on_the_name_before_the_bytes() {
    assert_eq!(
        Region::new("saves/w/entities/region.mca", Vec::new()).unwrap_err(),
        SearchError::MalformedFilename { filename: "saves/w/entities/region.mca".to_string() }
    );
    assert_eq!(
        Region::new("saves/w/entities/region.mca", vec![0u8; 8192]).unwrap_err(),
        SearchError::MalformedFilename { filename: "saves/w/entities/region.mca".to_string() }
    );
}

#[test]
fn opening_fails_on_a_short_file() {
    let name = "saves/w/entities/r.0.0.mca";
    for len in [0usize, 1, 4095] {
        assert_eq!(
            Region::new(name, vec![0u8; len]).unwrap_err(),
            SearchError::TruncatedLocationTable { filename: name.to_string() }
        );
    }
    for len in [4096usize, 4097, 8191] {
        assert_eq!(
            Region::new(name, vec![0u8; len]).unwrap_err(),
            SearchError::TruncatedMtimeTable { filename: name.to_string() }
        );
    }
    assert!(Region::new(name, vec![0u8; 8192]).is_ok());
}

#[test]
fn chunk_coordinates_run_x_outer_z_inner() {
    let region = Region::new("w/r.0.0.mca", vec![0u8; 8192]).unwrap();
    let coords = region.all_chunk_coords();
    assert_eq!(coords.len(), 1024);
    assert_eq!(coords[0], (0, 0));
    assert_eq!(coords[1], (0, 1));
    assert_eq!(coords[31], (0, 31));
    assert_eq!(coords[32], (1, 0));
    assert_eq!(coords[33], (1, 1));
    assert_eq!(coords[1023], (31, 31));
    for (i, coord) in coords.iter().enumerate() {
        assert_eq!(*coord, ((i / 32) as i64, (i % 32) as i64));
    }
}

#[test]
fn chunk_coordinates_of_other_regions() {
    let region = Region::new("w/r.-1.2.mca", vec![0u8; 8192]).unwrap();
    let coords = region.all_chunk_coords();
    assert_eq!(coords.len(), 1024);
    assert_eq!(coords[0], (-32, 64));
    assert_eq!(coords[1], (-32, 65));
    assert_eq!(coords[32], (-31, 64));
    assert_eq!(coords[1023], (-1, 95));

    let far = Region::new("w/r.288230376151711743.-288230376151711744.mca", vec![0u8; 8192])
        .unwrap();
    let coords = far.all_chunk_coords();
    assert_eq!(coords[0], (i64::MAX - 31, i64::MIN));
    assert_eq!(coords[1023], (i64::MAX, i64::MIN + 31));
}

#[test]
fn region_without_chunks() {
    let region = Region::new("w/r.0.0.mca", vec![0u8; 8192]).unwrap();
    assert!(region.all_chunks().is_empty());
    for (x, z) in region.all_chunk_coords() {
        assert_eq!(region.chunk_extent(x, z), None);
        assert!(region.get_chunk(x, z).unwrap().is_none());
    }
}

#[test]
fn round_trip_through_a_region() {
    let first = villager_document("Ada");
    let second = villager_document("Grace");
    let file = region_file(&[
        (0, 2, 1, payload_of(1, &first)),
        (5 + 32 * 7, 3, 1, payload_of(2, &second)),
    ]);
    let region = Region::new("w/r.1.-1.mca", file).unwrap();

    let chunk = region.get_chunk(32, -32).unwrap().unwrap();
    assert_eq!((chunk.x, chunk.z), (32, -32));
    assert_eq!(chunk.nbt, first);

    let chunk = region.get_chunk(37, -25).unwrap().unwrap();
    assert_eq!((chunk.x, chunk.z), (37, -25));
    assert_eq!(chunk.nbt, second);

    assert!(region.get_chunk(33, -32).unwrap().is_none());

    let chunks = region.all_chunks();
    assert_eq!(chunks.len(), 2);
    let chunk = chunks[0].as_ref().unwrap();
    assert_eq!((chunk.x, chunk.z), (32, -32));
    assert_eq!(chunk.nbt, first);
    let chunk = chunks[1].as_ref().unwrap();
    assert_eq!((chunk.x, chunk.z), (37, -25));
    assert_eq!(chunk.nbt, second);
}

#[test]
fn chunks_come_in_the_order_of_their_coordinates() {
    let file = region_file(&[
        (1, 4, 1, payload_of(2, &villager_document("x1 z0"))),
        (32, 3, 1, payload_of(2, &villager_document("x0 z1"))),
        (1023, 2, 1, payload_of(1, &villager_document("x31 z31"))),
    ]);
    let region = Region::new("w/r.0.0.mca", file).unwrap();
    let chunks = region.all_chunks();
    let places: Vec<(i64, i64)> =
        chunks.iter().map(|chunk| chunk.as_ref().unwrap()).map(|chunk| (chunk.x, chunk.z)).collect();
    assert_eq!(places, vec![(0, 1), (1, 0), (31, 31)]);
}

#[test]
fn chunk_with_a_bad_tag_in_a_region() {
    let mut bytes = payload_of(2, &villager_document("Ada"));
    bytes[4] = 3;
    let file = region_file(&[(0, 2, 1, bytes)]);
    let mut file = file;
    file.resize(3 * 4096, 0);
    let region = Region::new("w/r.0.0.mca", file).unwrap();
    let error = region.get_chunk(0, 0).unwrap_err();
    assert_eq!(error, SearchError::UnsupportedCompression { x: 0, z: 0, tag: 3 });
    assert_eq!(error.kind(), ErrorKind::Format);
    let chunks = region.all_chunks();
    assert_eq!(chunks.len(), 1);
    assert_eq!(
        chunks[0].as_ref().unwrap_err(),
        &SearchError::UnsupportedCompression { x: 0, z: 0, tag: 3 }
    );
}

#[test]
fn chunk_that_does_not_decode_in_a_region() {
    let mut file = region_file(&[(0, 2, 1, vec![0, 0, 0, 9, 2, 1, 2, 3, 4, 5, 6, 7, 8])]);
    file.resize(3 * 4096, 0);
    let region = Region::new("w/r.0.0.mca", file).unwrap();
    assert_eq!(
        region.get_chunk(0, 0).unwrap_err(),
        SearchError::UndecodableChunk { x: 0, z: 0, compression: ChunkCompression::Zlib }
    );
}

#[test]
fn file_that_ends_after_the_document_is_tolerated() {
    let document = villager_document("Ada");
    let file = region_file(&[(0, 2, 1, payload_of(2, &document))]);
    assert!(file.len() < 3 * 4096);
    let region = Region::new("w/r.0.0.mca", file).unwrap();
    assert_eq!(region.chunk_extent(0, 0), Some((8192, 4096)));
    assert_eq!(region.get_chunk(0, 0).unwrap().unwrap().nbt, document);
}

#[test]
fn file_that_ends_inside_the_document_is_a_read_error() {
    let document = villager_document("Ada");
    let mut file = region_file(&[(0, 2, 1, payload_of(2, &document))]);
    file.truncate(8192 + 12);
    let region = Region::new("w/r.0.0.mca", file).unwrap();
    let error = region.get_chunk(0, 0).unwrap_err();
    assert_eq!(error, SearchError::TruncatedChunk { x: 0, z: 0 });
    assert_eq!(error.kind(), ErrorKind::Read);
}

#[test]
fn chunk_beyond_the_end_of_the_file_is_a_read_error() {
    let file = region_file(&[(7, 100, 2, Vec::new())]);
    assert_eq!(file.len(), 8192);
    let region = Region::new("w/r.0.0.mca", file).unwrap();
    assert_eq!(region.chunk_extent(7, 0), Some((100 * 4096, 2 * 4096)));
    assert_eq!(region.get_chunk(7, 0).unwrap_err(), SearchError::TruncatedChunk { x: 7, z: 0 });

    let mut file = region_file(&[(7, 2, 1, Vec::new())]);
    file.resize(8192 + 3, 0);
    let region = Region::new("w/r.0.0.mca", file).unwrap();
    assert_eq!(region.get_chunk(7, 0).unwrap_err(), SearchError::TruncatedChunk { x: 7, z: 0 });
}

#[test]
fn chunk_of_no_segments_has_no_header() {
    let mut file = vec![0u8; 3 * 4096];
    file[0..4].copy_from_slice(&[0, 0, 2, 0]);
    let region = Region::new("w/r.0.0.mca", file).unwrap();
    assert_eq!(region.chunk_extent(0, 0), Some((8192, 0)));
    assert_eq!(region.get_chunk(0, 0).unwrap_err(), SearchError::TruncatedChunk { x: 0, z: 0 });
}
