//! One chunk of a region: its header, its compression scheme and the
//! document it holds.

use crate::error::{ErrorKind, SearchError};
use crate::tree::{blob_fields, from_gzip, from_zlib, gzip_document, zlib_document, Tree};
use nbt::Blob;
use vstd::prelude::*;
use vstd::slice::slice_subrange;

verus! {

/// How the document of a chunk is compressed.
#[derive(Clone, Copy, Debug, PartialEq, Eq)]
pub enum ChunkCompression {
    Zlib,
    Gzip,
}

/// The number of bytes before the compressed document: four of declared
/// length, one of compression tag.
pub const HEADER_LEN: usize = 5;

/// The document of one chunk, with the coordinates of the chunk.
#[derive(Debug)]
pub struct Chunk {
    pub x: i64,
    pub z: i64,
    pub nbt: Blob,
}

/// The model of a [`Chunk`]: its coordinates and the fields of its document.
pub struct ChunkView {
    pub x: i64,
    pub z: i64,
    pub fields: Map<Seq<char>, Tree>,
}

impl View for Chunk {
    type V = ChunkView;

    open spec fn view(&self) -> ChunkView {
        ChunkView { x: self.x, z: self.z, fields: blob_fields(self.nbt) }
    }
}

/// The length that the first four bytes declare, big-endian.
pub open spec fn declared_length(buf: Seq<u8>) -> int
    recommends
        buf.len() >= 4,
{
    buf[0] * 0x100_0000 + buf[1] * 0x1_0000 + buf[2] * 0x100 + buf[3]
}

/// The scheme that a compression tag names: 1 is Gzip, 2 is Zlib.
pub open spec fn compression_of(tag: u8) -> Option<ChunkCompression> {
    if tag == 1 {
        Some(ChunkCompression::Gzip)
    } else if tag == 2 {
        Some(ChunkCompression::Zlib)
    } else {
        None
    }
}

/// What the header of a chunk says: the declared length and the scheme, or
/// the failure.
pub open spec fn chunk_header(x: i64, z: i64, buf: Seq<u8>) -> Result<
    (int, ChunkCompression),
    SearchError,
> {
    if buf.len() < HEADER_LEN {
        Err(SearchError::TruncatedChunk { x, z })
    } else {
        match compression_of(buf[4]) {
            Some(compression) => Ok((declared_length(buf), compression)),
            None => Err(SearchError::UnsupportedCompression { x, z, tag: buf[4] }),
        }
    }
}

/// The fields of the document that a compressed payload holds, or `None`
/// where it does not decompress and parse.
pub open spec fn payload_document(compression: ChunkCompression, payload: Seq<u8>) -> Option<
    Map<Seq<char>, Tree>,
> {
    match compression {
        ChunkCompression::Zlib => zlib_document(payload),
        ChunkCompression::Gzip => gzip_document(payload),
    }
}

/// What the bytes of a chunk decode to: the header is read, and what
/// follows it is decompressed by the scheme that the header names.
pub open spec fn chunk_decoded(x: i64, z: i64, buf: Seq<u8>) -> Result<ChunkView, SearchError> {
    match chunk_header(x, z, buf) {
        Err(error) => Err(error),
        Ok((_, compression)) => match payload_document(compression, buf.skip(HEADER_LEN as int)) {
            Some(fields) => Ok(ChunkView { x, z, fields }),
            None => Err(SearchError::UndecodableChunk { x, z, compression }),
        },
    }
}

/// Reads the header of a chunk: the declared length, which nothing depends
/// on, and the compression scheme.
pub fn read_header(x: i64, z: i64, buf: &[u8]) -> (r: Result<(u32, ChunkCompression), SearchError>)
    ensures
        match r {
            Ok((length, compression)) => chunk_header(x, z, buf@) == Ok::<_, SearchError>(
                (length as int, compression),
            ),
            Err(error) => chunk_header(x, z, buf@) == Err::<(int, ChunkCompression), _>(error),
        },
{
    if buf.len() < HEADER_LEN {
        return Err(SearchError::TruncatedChunk { x, z });
    }
    let length: u32 = (buf[0] as u32) * 0x100_0000 + (buf[1] as u32) * 0x1_0000 + (buf[2] as u32)
        * 0x100 + (buf[3] as u32);
    let tag: u8 = buf[4];
    if tag == 1 {
        Ok((length, ChunkCompression::Gzip))
    } else if tag == 2 {
        Ok((length, ChunkCompression::Zlib))
    } else {
        Err(SearchError::UnsupportedCompression { x, z, tag })
    }
}

impl Chunk {
    /// Decodes the bytes of one chunk: a header of five bytes, then the
    /// compressed document.
    ///
    /// Fails with `TruncatedChunk` on fewer than five bytes, with
    /// `UnsupportedCompression` on a tag other than 1 and 2, and with
    /// `UndecodableChunk` where the payload does not decompress and parse.
    pub fn new(x: i64, z: i64, buf: Vec<u8>) -> (r: Result<Chunk, SearchError>)
        ensures
            match r {
                Ok(chunk) => chunk_decoded(x, z, buf@) == Ok::<_, SearchError>(chunk@),
                Err(error) => chunk_decoded(x, z, buf@) == Err::<ChunkView, _>(error),
            },
    {
        let compression = match read_header(x, z, buf.as_slice()) {
            Ok((_, compression)) => compression,
            Err(error) => {
                return Err(error);
            },
        };
        let payload = slice_subrange(buf.as_slice(), HEADER_LEN, buf.len());
        proof {
            assert(payload@ =~= buf@.skip(HEADER_LEN as int));
        }
        match Self::get_nbt(payload, &compression, x, z) {
            Ok(nbt) => Ok(Chunk { x, z, nbt }),
            Err(error) => Err(error),
        }
    }

    /// Decompresses a payload by the given scheme and parses the document.
    fn get_nbt(data: &[u8], compression: &ChunkCompression, x: i64, z: i64) -> (r: Result<
        Blob,
        SearchError,
    >)
        ensures
            match r {
                Ok(blob) => payload_document(*compression, data@) == Some(blob_fields(blob)),
                Err(error) => payload_document(*compression, data@) is None && error
                    == (SearchError::UndecodableChunk { x, z, compression: *compression }),
            },
    {
        match compression {
            ChunkCompression::Zlib => match from_zlib(data) {
                Ok(blob) => Ok(blob),
                Err(_) => Err(SearchError::UndecodableChunk { x, z, compression: ChunkCompression::Zlib }),
            },
            ChunkCompression::Gzip => match from_gzip(data) {
                Ok(blob) => Ok(blob),
                Err(_) => Err(SearchError::UndecodableChunk { x, z, compression: ChunkCompression::Gzip }),
            },
        }
    }
}

/// A compression tag other than 1 and 2 is a format error that names the
/// chunk and the tag, whatever follows the header.
pub proof fn lemma_unsupported_tag_is_format_error(x: i64, z: i64, buf: Seq<u8>)
    requires
        buf.len() >= HEADER_LEN,
        buf[4] != 1,
        buf[4] != 2,
    ensures
        chunk_decoded(x, z, buf) == Err::<ChunkView, _>(
            SearchError::UnsupportedCompression { x, z, tag: buf[4] },
        ),
        (SearchError::UnsupportedCompression { x, z, tag: buf[4] }).kind_of() == ErrorKind::Format,
{
}

} // verus!
