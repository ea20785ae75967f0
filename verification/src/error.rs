//! What can go wrong while a world is searched.

use crate::chunk::ChunkCompression;
use crate::text::{decimal_text, push_decimal, push_signed, signed_text};
use vstd::prelude::*;
use vstd::string::*;

verus! {

/// The three classes of failure.
#[derive(Clone, Copy, Debug, PartialEq, Eq)]
pub enum ErrorKind {
    /// A name or a container that does not have the expected form.
    Format,
    /// Bytes that could not be had in full.
    Read,
    /// A document that lacks a field, or holds it in another shape.
    Structure,
}

/// A failure, with the file or the chunk that it came from.
#[derive(Debug, PartialEq, Eq)]
pub enum SearchError {
    /// The name of a region file does not give its coordinates.
    MalformedFilename { filename: String },
    /// A region file ends inside its location table.
    TruncatedLocationTable { filename: String },
    /// A region file ends inside its modification-time table.
    TruncatedMtimeTable { filename: String },
    /// The compression tag of a chunk is neither 1 nor 2.
    UnsupportedCompression { x: i64, z: i64, tag: u8 },
    /// The bytes of a chunk end before its document does.
    TruncatedChunk { x: i64, z: i64 },
    /// The payload of a chunk does not decompress to a document.
    UndecodableChunk { x: i64, z: i64, compression: ChunkCompression },
    /// The name of a dimension is not one of the three known ones.
    InvalidDimension { dimension: String },
    /// The document of a chunk has no entity list.
    MissingEntities { x: i64, z: i64 },
    /// The entity list of a chunk is not a list of compounds.
    MalformedEntities { x: i64, z: i64 },
    /// An item entity has no string identifier. `entity` is its index in
    /// the entity list.
    MissingItemId { x: i64, z: i64, entity: usize },
    /// The position of an item is not a list of three floats. `entity` is
    /// the index of the item's entity in the entity list.
    MalformedPosition { x: i64, z: i64, entity: usize },
}

/// `x,z` in decimal.
pub open spec fn coordinates_text(x: i64, z: i64) -> Seq<char> {
    signed_text(x as int) + ","@ + signed_text(z as int)
}

/// The name that messages give to a compression scheme.
pub open spec fn compression_text(compression: ChunkCompression) -> Seq<char> {
    match compression {
        ChunkCompression::Zlib => "Zlib"@,
        ChunkCompression::Gzip => "Gzip"@,
    }
}

fn push_str(out: &mut String, s: &str)
    ensures
        final(out)@ == old(out)@ + s@,
{
    out.append(s);
}

fn push_coordinates(out: &mut String, x: i64, z: i64)
    ensures
        final(out)@ == old(out)@ + coordinates_text(x, z),
{
    push_signed(out, x);
    push_str(out, ",");
    push_signed(out, z);
    proof {
        assert(out@ =~= old(out)@ + coordinates_text(x, z));
    }
}

impl SearchError {
    /// The class of this failure.
    pub open spec fn kind_of(self) -> ErrorKind {
        match self {
            SearchError::MalformedFilename { .. } => ErrorKind::Format,
            SearchError::TruncatedLocationTable { .. } => ErrorKind::Format,
            SearchError::TruncatedMtimeTable { .. } => ErrorKind::Format,
            SearchError::UnsupportedCompression { .. } => ErrorKind::Format,
            SearchError::TruncatedChunk { .. } => ErrorKind::Read,
            SearchError::UndecodableChunk { .. } => ErrorKind::Format,
            SearchError::InvalidDimension { .. } => ErrorKind::Format,
            SearchError::MissingEntities { .. } => ErrorKind::Structure,
            SearchError::MalformedEntities { .. } => ErrorKind::Structure,
            SearchError::MissingItemId { .. } => ErrorKind::Structure,
            SearchError::MalformedPosition { .. } => ErrorKind::Structure,
        }
    }

    /// The class of this failure.
    pub fn kind(&self) -> (kind: ErrorKind)
        ensures
            kind == self.kind_of(),
    {
        match self {
            SearchError::MalformedFilename { .. } => ErrorKind::Format,
            SearchError::TruncatedLocationTable { .. } => ErrorKind::Format,
            SearchError::TruncatedMtimeTable { .. } => ErrorKind::Format,
            SearchError::UnsupportedCompression { .. } => ErrorKind::Format,
            SearchError::TruncatedChunk { .. } => ErrorKind::Read,
            SearchError::UndecodableChunk { .. } => ErrorKind::Format,
            SearchError::InvalidDimension { .. } => ErrorKind::Format,
            SearchError::MissingEntities { .. } => ErrorKind::Structure,
            SearchError::MalformedEntities { .. } => ErrorKind::Structure,
            SearchError::MissingItemId { .. } => ErrorKind::Structure,
            SearchError::MalformedPosition { .. } => ErrorKind::Structure,
        }
    }

    /// The message of this failure.
    pub open spec fn text(self) -> Seq<char> {
        match self {
            SearchError::MalformedFilename { filename } => {
                "Unable to extract coords from region filename '"@ + filename@ + "'"@
            },
            SearchError::TruncatedLocationTable { filename } => {
                "Failed to read location table from "@ + filename@
            },
            SearchError::TruncatedMtimeTable { filename } => {
                "Failed to read mtime table from "@ + filename@
            },
            SearchError::UnsupportedCompression { x, z, tag } => {
                "Unsupported compression tag "@ + decimal_text(tag as nat) + " for chunk "@
                    + coordinates_text(x, z)
            },
            SearchError::TruncatedChunk { x, z } => {
                "Failed to read chunk at "@ + coordinates_text(x, z)
            },
            SearchError::UndecodableChunk { x, z, compression } => {
                "Error decoding "@ + compression_text(compression) + " NBT for chunk "@
                    + coordinates_text(x, z)
            },
            SearchError::InvalidDimension { dimension } => "Invalid dimension: "@ + dimension@,
            SearchError::MissingEntities { x, z } => {
                "Expected an entities NBT in chunk "@ + coordinates_text(x, z)
            },
            SearchError::MalformedEntities { x, z } => {
                "Entities were not a list of Compounds in chunk "@ + coordinates_text(x, z)
            },
            SearchError::MissingItemId { x, z, entity } => {
                "No item ID found in item: entity "@ + decimal_text(entity as nat) + " of chunk "@
                    + coordinates_text(x, z)
            },
            SearchError::MalformedPosition { x, z, entity } => {
                "Pos was not a list of three floats: entity "@ + decimal_text(entity as nat)
                    + " of chunk "@ + coordinates_text(x, z)
            },
        }
    }

    /// Writes the message of this failure.
    pub fn message(&self) -> (message: String)
        ensures
            message@ == self.text(),
    {
        let mut out = String::new();
        match self {
            SearchError::MalformedFilename { filename } => {
                push_str(&mut out, "Unable to extract coords from region filename '");
                push_str(&mut out, filename.as_str());
                push_str(&mut out, "'");
            },
            SearchError::TruncatedLocationTable { filename } => {
                push_str(&mut out, "Failed to read location table from ");
                push_str(&mut out, filename.as_str());
            },
            SearchError::TruncatedMtimeTable { filename } => {
                push_str(&mut out, "Failed to read mtime table from ");
                push_str(&mut out, filename.as_str());
            },
            SearchError::UnsupportedCompression { x, z, tag } => {
                push_str(&mut out, "Unsupported compression tag ");
                push_decimal(&mut out, *tag as u64);
                push_str(&mut out, " for chunk ");
                push_coordinates(&mut out, *x, *z);
            },
            SearchError::TruncatedChunk { x, z } => {
                push_str(&mut out, "Failed to read chunk at ");
                push_coordinates(&mut out, *x, *z);
            },
            SearchError::UndecodableChunk { x, z, compression } => {
                push_str(&mut out, "Error decoding ");
                match compression {
                    ChunkCompression::Zlib => push_str(&mut out, "Zlib"),
                    ChunkCompression::Gzip => push_str(&mut out, "Gzip"),
                }
                push_str(&mut out, " NBT for chunk ");
                push_coordinates(&mut out, *x, *z);
            },
            SearchError::InvalidDimension { dimension } => {
                push_str(&mut out, "Invalid dimension: ");
                push_str(&mut out, dimension.as_str());
            },
            SearchError::MissingEntities { x, z } => {
                push_str(&mut out, "Expected an entities NBT in chunk ");
                push_coordinates(&mut out, *x, *z);
            },
            SearchError::MalformedEntities { x, z } => {
                push_str(&mut out, "Entities were not a list of Compounds in chunk ");
                push_coordinates(&mut out, *x, *z);
            },
            SearchError::MissingItemId { x, z, entity } => {
                push_str(&mut out, "No item ID found in item: entity ");
                push_decimal(&mut out, *entity as u64);
                push_str(&mut out, " of chunk ");
                push_coordinates(&mut out, *x, *z);
            },
            SearchError::MalformedPosition { x, z, entity } => {
                push_str(&mut out, "Pos was not a list of three floats: entity ");
                push_decimal(&mut out, *entity as u64);
                push_str(&mut out, " of chunk ");
                push_coordinates(&mut out, *x, *z);
            },
        }
        proof {
            assert(out@ =~= self.text());
        }
        out
    }
}

} // verus!
