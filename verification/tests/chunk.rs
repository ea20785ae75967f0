use item_finder::chunk::{read_header, Chunk, ChunkCompression};
use item_finder::error::{ErrorKind, SearchError};
use nbt::{Blob, Value};

fn framed(tag: u8, payload: &[u8]) -> Vec<u8> {
    let declared = (payload.len() as u32) + 1;
    let mut bytes = declared.to_be_bytes().to_vec();
    bytes.push(tag);
    bytes.extend_from_slice(payload);
    bytes
}

fn document_of_one_creeper() -> Blob {
    let mut creeper = nbt::Map::new();
    creeper.insert("id".to_string(), Value::String("minecraft:creeper".to_string()));
    creeper.insert(
        "Pos".to_string(),
        Value::List(vec![Value::Float(1.5), Value::Float(70.0), Value::Float(-8.25)]),
    );
    creeper.insert("OnGround".to_string(), Value::Byte(1));
    let mut blob = Blob::new();
    blob.insert("Entities", Value::List(vec![Value::Compound(creeper)])).unwrap();
    blob.insert("Status", "full").unwrap();
    blob
}

fn gzipped(blob: &Blob) -> Vec<u8> {
    let mut payload = Vec::new();
    blob.to_gzip_writer(&mut payload).unwrap();
    payload
}

fn zlibbed(blob: &Blob) -> Vec<u8> {
    let mut payload = Vec::new();
    blob.to_zlib_writer(&mut payload).unwrap();
    payload
}

#[test]
fn header_gives_length_and_scheme() {
    assert_eq!(
        read_header(0, 0, &[0x01, 0x02, 0x03, 0x04, 2]),
        Ok((0x0102_0304, ChunkCompression::Zlib))
    );
    assert_eq!(
        read_header(0, 0, &[0xff, 0xff, 0xff, 0xff, 1, 9, 9]),
        Ok((u32::MAX, ChunkCompression::Gzip))
    );
    assert_eq!(read_header(0, 0, &[0, 0, 0, 0, 1]), Ok((0, ChunkCompression::Gzip)));
}

#[test]
fn header_of_fewer_than_five_bytes() {
    for len in 0..5usize {
        let bytes = vec![1u8; len];
        assert_eq!(read_header(4, -5, &bytes), Err(SearchError::TruncatedChunk { x: 4, z: -5 }));
        assert_eq!(
            Chunk::new(4, -5, bytes).unwrap_err(),
            SearchError::TruncatedChunk { x: 4, z: -5 }
        );
    }
}

#[test]
fn unsupported_compression_tag_is_a_format_error() {
    let payload = zlibbed(&document_of_one_creeper());
    for tag in [0u8, 3, 4, 127, 255] {
        let error = Chunk::new(12, -7, framed(tag, &payload)).unwrap_err();
        assert_eq!(error, SearchError::UnsupportedCompression { x: 12, z: -7, tag });
        assert_eq!(error.kind(), ErrorKind::Format);
        assert_eq!(
            read_header(12, -7, &framed(tag, &payload)),
            Err(SearchError::UnsupportedCompression { x: 12, z: -7, tag })
        );
    }
}

#[test]
fn gzip_chunk_decodes_to_its_document() {
    let blob = document_of_one_creeper();
    let chunk = Chunk::new(3, 4, framed(1, &gzipped(&blob))).unwrap();
    assert_eq!(chunk.x, 3);
    assert_eq!(chunk.z, 4);
    assert_eq!(chunk.nbt, blob);
}

#[test]
fn zlib_chunk_decodes_to_its_document() {
    let blob = document_of_one_creeper();
    let chunk = Chunk::new(-3, -4, framed(2, &zlibbed(&blob))).unwrap();
    assert_eq!(chunk.x, -3);
    assert_eq!(chunk.z, -4);
    assert_eq!(chunk.nbt, blob);
}

#[test]
fn declared_length_is_not_depended_on() {
    let blob = document_of_one_creeper();
    let mut bytes = framed(2, &zlibbed(&blob));
    bytes[0] = 0xff;
    bytes[3] = 0;
    assert_eq!(Chunk::new(0, 0, bytes).unwrap().nbt, blob);
}

#[test]
fn bytes_after_the_document_are_ignored() {
    let blob = document_of_one_creeper();
    let mut bytes = framed(1, &gzipped(&blob));
    bytes.resize(4096, 0);
    assert_eq!(Chunk::new(0, 0, bytes).unwrap().nbt, blob);
    let mut bytes = framed(2, &zlibbed(&blob));
    bytes.resize(8192, 0);
    assert_eq!(Chunk::new(0, 0, bytes).unwrap().nbt, blob);
}

#[test]
fn payload_of_the_other_scheme_does_not_decode() {
    let blob = document_of_one_creeper();
    assert_eq!(
        Chunk::new(1, 2, framed(1, &zlibbed(&blob))).unwrap_err(),
        SearchError::UndecodableChunk { x: 1, z: 2, compression: ChunkCompression::Gzip }
    );
    assert_eq!(
        Chunk::new(1, 2, framed(2, &gzipped(&blob))).unwrap_err(),
        SearchError::UndecodableChunk { x: 1, z: 2, compression: ChunkCompression::Zlib }
    );
}

#[test]
fn payload_that_is_no_document_does_not_decode() {
    assert_eq!(
        Chunk::new(9, 9, framed(2, &[])).unwrap_err(),
        SearchError::UndecodableChunk { x: 9, z: 9, compression: ChunkCompression::Zlib }
    );
    assert_eq!(
        Chunk::new(9, 9, framed(1, b"not a gzip stream at all")).unwrap_err(),
        SearchError::UndecodableChunk { x: 9, z: 9, compression: ChunkCompression::Gzip }
    );
    let payload = zlibbed(&document_of_one_creeper());
    let cut = &payload[..payload.len() / 2];
    let error = Chunk::new(9, 9, framed(2, cut)).unwrap_err();
    assert_eq!(
        error,
        SearchError::UndecodableChunk { x: 9, z: 9, compression: ChunkCompression::Zlib }
    );
    assert_eq!(error.kind(), ErrorKind::Format);
}
