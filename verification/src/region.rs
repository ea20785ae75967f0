//! The container of a region: two tables of 4096 bytes each, then the
//! chunks, each in the segments that the first table assigns to it.

use crate::chunk::{chunk_decoded, Chunk, ChunkView};
use crate::error::SearchError;
use crate::filename::{read_region_coords, region_coords, region_in_range};
use vstd::prelude::*;
use vstd::slice::{slice_subrange, slice_to_vec};
use vstd::string::*;

verus! {

/// The unit of offsets and lengths in a region file, in bytes.
pub const SEGMENT_LEN: u64 = 4096;

/// The length of each of the two tables at the head of a region file.
pub const TABLE_LEN: usize = 4096;

/// The number of chunk slots in a region: 32 by 32.
pub const SLOTS: usize = 1024;

/// The slot of a chunk in the tables of its region, with `%` the remainder
/// that is never negative.
pub open spec fn slot_index(x: int, z: int) -> int {
    x % 32 + (z % 32) * 32
}

/// The remainder of the division that rounds toward zero: it has the sign
/// of the dividend.
pub open spec fn truncated_rem(a: int, b: int) -> int {
    if a >= 0 {
        a % b
    } else {
        -((-a) % b)
    }
}

/// The slot of a chunk, written with the remainder that rounds toward
/// zero: each coordinate is reduced, 32 is added, and the sum is reduced
/// again. The slot lies in `0..1024`.
pub proof fn lemma_slot_index_formula(x: int, z: int)
    ensures
        slot_index(x, z) == (truncated_rem(x, 32) + 32) % 32 + ((truncated_rem(z, 32) + 32) % 32)
            * 32,
        0 <= slot_index(x, z) < 1024,
{
}

/// The slot of a chunk in the tables of its region.
pub fn slot_of(x: i64, z: i64) -> (slot: usize)
    ensures
        slot == slot_index(x as int, z as int),
        slot < SLOTS,
{
    let column: i64 = ((x % 32) + 32) % 32;
    let row: i64 = ((z % 32) + 32) % 32;
    (column + row * 32) as usize
}

/// The entries that the bytes of a location table write: four bytes each,
/// three of offset, big-endian, and one of length, both in segments.
pub open spec fn table_entries(bytes: Seq<u8>) -> Seq<(u32, u32)>
    recommends
        bytes.len() >= TABLE_LEN,
{
    Seq::new(
        SLOTS as nat,
        |i: int|
            (
                (bytes[4 * i] * 0x1_0000 + bytes[4 * i + 1] * 0x100 + bytes[4 * i + 2]) as u32,
                bytes[4 * i + 3] as u32,
            ),
    )
}

/// Where an entry of the location table puts its chunk: offset and length
/// in bytes, or `None` for the entry of an absent chunk, which is zero in
/// both parts.
pub open spec fn extent_of(entry: (u32, u32)) -> Option<(u64, u64)> {
    if entry.0 == 0 && entry.1 == 0 {
        None
    } else {
        Some(((entry.0 * SEGMENT_LEN) as u64, (entry.1 * SEGMENT_LEN) as u64))
    }
}

/// The first table of a region file: for each of 1024 slots, the offset and
/// the length of a chunk, in segments.
#[derive(Debug)]
pub struct LocationTable {
    table: Vec<(u32, u32)>,
}

impl LocationTable {
    /// A table has 1024 entries, with offsets of 24 bits and lengths of 8.
    #[verifier::type_invariant]
    pub closed spec fn wf(&self) -> bool {
        &&& self.table@.len() == SLOTS
        &&& forall|i: int|
            0 <= i < SLOTS ==> (#[trigger] self.table@[i]).0 < 0x100_0000 && self.table@[i].1
                < 0x100
    }

    /// The entries, slot by slot: offset and length in segments.
    pub closed spec fn view(&self) -> Seq<(u32, u32)> {
        self.table@
    }

    /// Decodes the first 4096 bytes as a location table. `None` where there
    /// are fewer.
    pub fn parse(bytes: &[u8]) -> (r: Option<LocationTable>)
        ensures
            r is Some <==> bytes@.len() >= TABLE_LEN,
            r matches Some(table) ==> table@ == table_entries(bytes@) && table.wf(),
    {
        if bytes.len() < TABLE_LEN {
            return None;
        }
        let mut table: Vec<(u32, u32)> = Vec::new();
        let mut slot: usize = 0;
        while slot < SLOTS
            invariant
                slot <= SLOTS,
                bytes@.len() >= TABLE_LEN,
                table@.len() == slot,
                forall|i: int| 0 <= i < slot ==> #[trigger] table@[i] == table_entries(bytes@)[i],
                forall|i: int|
                    0 <= i < slot ==> (#[trigger] table@[i]).0 < 0x100_0000 && table@[i].1 < 0x100,
            decreases SLOTS - slot,
        {
            let at: usize = 4 * slot;
            let offset: u32 = (bytes[at] as u32) * 0x1_0000 + (bytes[at + 1] as u32) * 0x100 + (
            bytes[at + 2] as u32);
            let length: u32 = bytes[at + 3] as u32;
            table.push((offset, length));
            slot = slot + 1;
        }
        proof {
            assert(table@ =~= table_entries(bytes@));
        }
        Some(LocationTable { table })
    }

    /// The entry of a slot: offset and length in segments. `None` for a
    /// slot that the table does not have.
    pub fn entry(&self, slot: usize) -> (entry: Option<(u32, u32)>)
        ensures
            entry == if slot < SLOTS {
                Some(self@[slot as int])
            } else {
                None
            },
    {
        proof {
            use_type_invariant(self);
        }
        if slot < SLOTS {
            Some(self.table[slot])
        } else {
            None
        }
    }

    /// Where the chunk at the given coordinates lies in the region file:
    /// offset and length in bytes. `None` for an absent chunk, which is one
    /// whose entry is zero in both parts.
    pub fn chunk_extent(&self, x: i64, z: i64) -> (extent: Option<(u64, u64)>)
        ensures
            extent == extent_of(self@[slot_index(x as int, z as int)]),
            extent is None <==> self@[slot_index(x as int, z as int)] == (0u32, 0u32),
    {
        proof {
            use_type_invariant(self);
        }
        let entry = self.table[slot_of(x, z)];
        if entry.0 == 0 && entry.1 == 0 {
            None
        } else {
            Some(((entry.0 as u64) * SEGMENT_LEN, (entry.1 as u64) * SEGMENT_LEN))
        }
    }
}

/// The second table of a region file: 4096 bytes of modification times,
/// kept as they are.
#[derive(Debug)]
pub struct MtimeTable {
    buf: Vec<u8>,
}

impl MtimeTable {
    /// A table has 4096 bytes.
    #[verifier::type_invariant]
    pub closed spec fn wf(&self) -> bool {
        self.buf@.len() == TABLE_LEN
    }

    /// The bytes of the table.
    pub closed spec fn view(&self) -> Seq<u8> {
        self.buf@
    }

    /// Takes the first 4096 bytes as a table of modification times. `None`
    /// where there are fewer.
    pub fn parse(bytes: &[u8]) -> (r: Option<MtimeTable>)
        ensures
            r is Some <==> bytes@.len() >= TABLE_LEN,
            r matches Some(table) ==> table@ == bytes@.take(TABLE_LEN as int) && table.wf(),
    {
        if bytes.len() < TABLE_LEN {
            return None;
        }
        let head = slice_subrange(bytes, 0, TABLE_LEN);
        proof {
            assert(head@ =~= bytes@.take(TABLE_LEN as int));
        }
        Some(MtimeTable { buf: slice_to_vec(head) })
    }

    /// The bytes of the table.
    pub fn bytes(&self) -> (bytes: &Vec<u8>)
        ensures
            bytes@ == self@,
    {
        &self.buf
    }
}

/// The bytes of a chunk that a region file holds: those of the segments
/// that the location table names, as far as the file reaches.
pub open spec fn slot_bytes(data: Seq<u8>, offset: int, length: int) -> Seq<u8> {
    let end = if offset + length < data.len() {
        offset + length
    } else {
        data.len() as int
    };
    let start = if offset < end {
        offset
    } else {
        end
    };
    data.subrange(start, end)
}

/// What a region holds for the chunk at the given coordinates.
///
/// `Ok(None)` for an absent chunk. Else the bytes of the chunk's segments
/// are decoded; where that fails on segments that reach beyond the end of
/// the file, the failure is `TruncatedChunk`.
pub open spec fn region_chunk(table: Seq<(u32, u32)>, data: Seq<u8>, x: i64, z: i64) -> Result<
    Option<ChunkView>,
    SearchError,
> {
    match extent_of(table[slot_index(x as int, z as int)]) {
        None => Ok(None),
        Some((offset, length)) => match chunk_decoded(
            x,
            z,
            slot_bytes(data, offset as int, length as int),
        ) {
            Ok(chunk) => Ok(Some(chunk)),
            Err(error) => if offset + length > data.len() {
                Err(SearchError::TruncatedChunk { x, z })
            } else {
                Err(error)
            },
        },
    }
}

/// The coordinates of the 1024 chunks of a region, x outer and z inner.
pub open spec fn region_chunk_coords(coords: (i64, i64)) -> Seq<(i64, i64)> {
    Seq::new(
        SLOTS as nat,
        |i: int| ((coords.0 * 32 + i / 32) as i64, (coords.1 * 32 + i % 32) as i64),
    )
}

/// The chunks that a region holds at the first `n` of the given
/// coordinates, absent ones left out, each decoded or with its failure.
pub open spec fn chunks_among(
    table: Seq<(u32, u32)>,
    data: Seq<u8>,
    coords: Seq<(i64, i64)>,
    n: int,
) -> Seq<Result<ChunkView, SearchError>>
    decreases n,
{
    if n <= 0 {
        Seq::empty()
    } else {
        let before = chunks_among(table, data, coords, n - 1);
        match region_chunk(table, data, coords[n - 1].0, coords[n - 1].1) {
            Ok(None) => before,
            Ok(Some(chunk)) => before.push(Ok(chunk)),
            Err(error) => before.push(Err(error)),
        }
    }
}

/// The model of a decoded chunk or its failure.
pub open spec fn chunk_result_view(result: Result<Chunk, SearchError>) -> Result<
    ChunkView,
    SearchError,
> {
    match result {
        Ok(chunk) => Ok(chunk@),
        Err(error) => Err(error),
    }
}

/// The models of a sequence of decoded chunks and failures.
pub open spec fn chunk_results_view(results: Seq<Result<Chunk, SearchError>>) -> Seq<
    Result<ChunkView, SearchError>,
> {
    Seq::new(results.len(), |i: int| chunk_result_view(results[i]))
}

/// Whether `r` is what opening a region comes to, given the path of its
/// file and the bytes of the file.
pub open spec fn region_opened(filename: Seq<char>, data: Seq<u8>, r: Result<Region, SearchError>)
    -> bool {
    match r {
        Ok(region) => {
            &&& region.wf()
            &&& region_coords(filename) == Some(region.coords())
            &&& data.len() >= 2 * TABLE_LEN
            &&& region.table() == table_entries(data)
            &&& region.mtimes() == data.subrange(TABLE_LEN as int, 2 * TABLE_LEN)
            &&& region.bytes() == data
        },
        Err(SearchError::MalformedFilename { filename: name }) => {
            &&& region_coords(filename) is None
            &&& name@ == filename
        },
        Err(SearchError::TruncatedLocationTable { filename: name }) => {
            &&& region_coords(filename) is Some
            &&& data.len() < TABLE_LEN
            &&& name@ == filename
        },
        Err(SearchError::TruncatedMtimeTable { filename: name }) => {
            &&& region_coords(filename) is Some
            &&& TABLE_LEN <= data.len() < 2 * TABLE_LEN
            &&& name@ == filename
        },
        Err(_) => false,
    }
}

/// One region file: its coordinates, its two tables and its bytes.
#[derive(Debug)]
pub struct Region {
    coords: (i64, i64),
    location_table: LocationTable,
    mtime_table: MtimeTable,
    data: Vec<u8>,
}

impl Region {
    /// The coordinates are in range and the tables are well formed.
    #[verifier::type_invariant]
    pub closed spec fn wf(&self) -> bool {
        &&& region_in_range(self.coords.0, self.coords.1)
        &&& self.location_table.wf()
        &&& self.mtime_table.wf()
    }

    /// The coordinates of the region.
    pub closed spec fn coords(&self) -> (i64, i64) {
        self.coords
    }

    /// The entries of the location table.
    pub closed spec fn table(&self) -> Seq<(u32, u32)> {
        self.location_table@
    }

    /// The bytes of the table of modification times.
    pub closed spec fn mtimes(&self) -> Seq<u8> {
        self.mtime_table@
    }

    /// The bytes of the file.
    pub closed spec fn bytes(&self) -> Seq<u8> {
        self.data@
    }

    /// The chunks of the region, absent ones left out, in the order of
    /// [`region_chunk_coords`].
    pub open spec fn chunks(&self) -> Seq<Result<ChunkView, SearchError>> {
        chunks_among(
            self.table(),
            self.bytes(),
            region_chunk_coords(self.coords()),
            SLOTS as int,
        )
    }

    /// Opens a region from the path of its file and the bytes of the file.
    ///
    /// The coordinates come from the path, the two tables from the first
    /// 8192 bytes. Fails with `MalformedFilename` where the path gives no
    /// coordinates; else with `TruncatedLocationTable` on fewer than 4096
    /// bytes; else with `TruncatedMtimeTable` on fewer than 8192.
    pub fn new(filename: &str, data: Vec<u8>) -> (r: Result<Region, SearchError>)
        ensures
            region_opened(filename@, data@, r),
    {
        let coords = match read_region_coords(filename) {
            Ok(coords) => coords,
            Err(error) => {
                return Err(error);
            },
        };
        let location_table = match Self::read_location_table(data.as_slice(), filename) {
            Ok(table) => table,
            Err(error) => {
                return Err(error);
            },
        };
        let mtime_table = match Self::read_mtime_table(data.as_slice(), filename) {
            Ok(table) => table,
            Err(error) => {
                return Err(error);
            },
        };
        Ok(Region { coords, location_table, mtime_table, data })
    }

    /// The coordinates of the region.
    pub fn coordinates(&self) -> (coords: (i64, i64))
        ensures
            coords == self.coords(),
            region_in_range(coords.0, coords.1),
    {
        proof {
            use_type_invariant(self);
        }
        self.coords
    }

    /// The location table of the region.
    pub fn location_table(&self) -> (table: &LocationTable)
        ensures
            table@ == self.table(),
    {
        &self.location_table
    }

    /// The table of modification times of the region.
    pub fn mtime_table(&self) -> (table: &MtimeTable)
        ensures
            table@ == self.mtimes(),
    {
        &self.mtime_table
    }

    /// The coordinates of all 1024 chunk slots of the region, x outer and z
    /// inner.
    pub fn all_chunk_coords(&self) -> (coords: Vec<(i64, i64)>)
        ensures
            coords@ == region_chunk_coords(self.coords()),
    {
        proof {
            use_type_invariant(self);
        }
        let min_x: i64 = self.coords.0 * 32;
        let min_z: i64 = self.coords.1 * 32;
        let mut coords: Vec<(i64, i64)> = Vec::new();
        let mut i: i64 = 0;
        while i < 32
            invariant
                0 <= i <= 32,
                min_x == self.coords.0 * 32,
                min_z == self.coords.1 * 32,
                region_in_range(self.coords.0, self.coords.1),
                coords@.len() == i * 32,
                forall|k: int|
                    0 <= k < i * 32 ==> #[trigger] coords@[k] == region_chunk_coords(
                        self.coords,
                    )[k],
            decreases 32 - i,
        {
            let mut j: i64 = 0;
            while j < 32
                invariant
                    0 <= i < 32,
                    0 <= j <= 32,
                    min_x == self.coords.0 * 32,
                    min_z == self.coords.1 * 32,
                    region_in_range(self.coords.0, self.coords.1),
                    coords@.len() == i * 32 + j,
                    forall|k: int|
                        0 <= k < i * 32 + j ==> #[trigger] coords@[k] == region_chunk_coords(
                            self.coords,
                        )[k],
                decreases 32 - j,
            {
                coords.push((min_x + i, min_z + j));
                j = j + 1;
            }
            i = i + 1;
        }
        proof {
            assert(coords@ =~= region_chunk_coords(self.coords));
        }
        coords
    }

    /// Where the chunk at the given coordinates lies in the file: offset
    /// and length in bytes. `None` for an absent chunk, which is one whose
    /// entry in the location table is zero in both parts.
    pub fn chunk_extent(&self, x: i64, z: i64) -> (extent: Option<(u64, u64)>)
        ensures
            extent == extent_of(self.table()[slot_index(x as int, z as int)]),
            extent is None <==> self.table()[slot_index(x as int, z as int)] == (0u32, 0u32),
    {
        self.location_table.chunk_extent(x, z)
    }

    /// Decodes the chunk at the given coordinates.
    ///
    /// `Ok(None)` for an absent chunk. The bytes of the chunk are those of
    /// its segments, as far as the file reaches. Where they fail to decode
    /// and the segments reach beyond the end of the file, the failure is
    /// `TruncatedChunk`; else it is the failure of [`Chunk::new`].
    pub fn get_chunk(&self, x: i64, z: i64) -> (r: Result<Option<Chunk>, SearchError>)
        ensures
            match r {
                Ok(Some(chunk)) => region_chunk(self.table(), self.bytes(), x, z) == Ok::<
                    _,
                    SearchError,
                >(Some(chunk@)),
                Ok(None) => region_chunk(self.table(), self.bytes(), x, z) == Ok::<
                    Option<ChunkView>,
                    SearchError,
                >(None),
                Err(error) => region_chunk(self.table(), self.bytes(), x, z) == Err::<
                    Option<ChunkView>,
                    _,
                >(error),
            },
    {
        proof {
            use_type_invariant(self);
            use_type_invariant(&self.location_table);
        }
        let (offset, length) = match self.location_table.chunk_extent(x, z) {
            Some(extent) => extent,
            None => {
                return Ok(None);
            },
        };
        let available: u64 = self.data.len() as u64;
        let end: u64 = if offset + length < available {
            offset + length
        } else {
            available
        };
        let start: u64 = if offset < end {
            offset
        } else {
            end
        };
        let window = slice_subrange(self.data.as_slice(), start as usize, end as usize);
        match Chunk::new(x, z, slice_to_vec(window)) {
            Ok(chunk) => Ok(Some(chunk)),
            Err(error) => if offset + length > available {
                Err(SearchError::TruncatedChunk { x, z })
            } else {
                Err(error)
            },
        }
    }

    /// Decodes every chunk of the region that is not absent, in the order
    /// of [`Region::all_chunk_coords`]. A chunk that does not decode gives
    /// its failure in its place.
    pub fn all_chunks(&self) -> (chunks: Vec<Result<Chunk, SearchError>>)
        ensures
            chunk_results_view(chunks@) == self.chunks(),
            chunks@.len() <= SLOTS,
    {
        proof {
            lemma_chunks_are_bounded(
                self.table(),
                self.bytes(),
                region_chunk_coords(self.coords()),
                SLOTS as int,
            );
        }
        let coords = self.all_chunk_coords();
        let mut chunks: Vec<Result<Chunk, SearchError>> = Vec::new();
        let mut i: usize = 0;
        while i < coords.len()
            invariant
                i <= coords@.len(),
                coords@ == region_chunk_coords(self.coords()),
                chunk_results_view(chunks@) == chunks_among(
                    self.table(),
                    self.bytes(),
                    coords@,
                    i as int,
                ),
            decreases coords@.len() - i,
        {
            let (x, z) = coords[i];
            match self.get_chunk(x, z) {
                Ok(Some(chunk)) => {
                    chunks.push(Ok(chunk));
                },
                Ok(None) => {},
                Err(error) => {
                    chunks.push(Err(error));
                },
            }
            proof {
                assert(chunk_results_view(chunks@) =~= chunks_among(
                    self.table(),
                    self.bytes(),
                    coords@,
                    i + 1,
                ));
            }
            i = i + 1;
        }
        chunks
    }

    /// Reads the location table from the head of the file.
    fn read_location_table(data: &[u8], path: &str) -> (r: Result<LocationTable, SearchError>)
        ensures
            match r {
                Ok(table) => data@.len() >= TABLE_LEN && table@ == table_entries(data@)
                    && table.wf(),
                Err(error) => data@.len() < TABLE_LEN && (
                error matches SearchError::TruncatedLocationTable { filename: name } && name@
                    == path@),
            },
    {
        match LocationTable::parse(data) {
            Some(table) => Ok(table),
            None => Err(SearchError::TruncatedLocationTable { filename: String::from_str(path) }),
        }
    }

    /// Reads the table of modification times, which follows the location
    /// table.
    fn read_mtime_table(data: &[u8], path: &str) -> (r: Result<MtimeTable, SearchError>)
        requires
            data@.len() >= TABLE_LEN,
        ensures
            match r {
                Ok(table) => data@.len() >= 2 * TABLE_LEN && table@ == data@.subrange(
                    TABLE_LEN as int,
                    2 * TABLE_LEN,
                ) && table.wf(),
                Err(error) => data@.len() < 2 * TABLE_LEN && (
                error matches SearchError::TruncatedMtimeTable { filename: name } && name@
                    == path@),
            },
    {
        let rest = slice_subrange(data, TABLE_LEN, data.len());
        match MtimeTable::parse(rest) {
            Some(table) => {
                proof {
                    assert(rest@.take(TABLE_LEN as int) =~= data@.subrange(
                        TABLE_LEN as int,
                        2 * TABLE_LEN,
                    ));
                }
                Ok(table)
            },
            None => Err(SearchError::TruncatedMtimeTable { filename: String::from_str(path) }),
        }
    }
}

/// Among `n` coordinates there are at most `n` chunks.
pub proof fn lemma_chunks_are_bounded(
    table: Seq<(u32, u32)>,
    data: Seq<u8>,
    coords: Seq<(i64, i64)>,
    n: int,
)
    requires
        0 <= n,
    ensures
        chunks_among(table, data, coords, n).len() <= n,
    decreases n,
{
    if n > 0 {
        lemma_chunks_are_bounded(table, data, coords, n - 1);
    }
}

/// Where every entry of the location table is zero, no coordinates have a
/// chunk.
proof fn lemma_zero_table_has_no_chunks(
    table: Seq<(u32, u32)>,
    data: Seq<u8>,
    coords: Seq<(i64, i64)>,
    n: int,
)
    requires
        table.len() == SLOTS,
        forall|i: int| 0 <= i < SLOTS ==> #[trigger] table[i] == (0u32, 0u32),
    ensures
        chunks_among(table, data, coords, n) == Seq::<Result<ChunkView, SearchError>>::empty(),
    decreases n,
{
    if n > 0 {
        lemma_zero_table_has_no_chunks(table, data, coords, n - 1);
        let slot = slot_index(coords[n - 1].0 as int, coords[n - 1].1 as int);
        assert(table[slot] == (0u32, 0u32));
    }
}

/// A region whose location table is zero in every entry has no chunks:
/// those are all absent, and none is decoded.
pub proof fn lemma_empty_region_has_no_chunks(region: Region)
    requires
        region.wf(),
        forall|i: int| 0 <= i < SLOTS ==> #[trigger] region.table()[i] == (0u32, 0u32),
    ensures
        region.chunks() == Seq::<Result<ChunkView, SearchError>>::empty(),
{
    lemma_zero_table_has_no_chunks(
        region.table(),
        region.bytes(),
        region_chunk_coords(region.coords()),
        SLOTS as int,
    );
}

} // verus!
