//! A saved world: where the entity regions of each dimension lie, and
//! which files of such a directory are regions.

use crate::error::SearchError;
use crate::region::{region_opened, Region};
use vstd::prelude::*;
use vstd::string::*;

verus! {

/// The directory of entity regions, below the directory of a dimension.
pub const ENTITY_DIR: &'static str = "entities";

/// A saved world, by its directory.
pub struct World {
    world_dir: String,
}

/// A file of a directory of regions: its path and its bytes.
#[derive(Debug)]
pub struct RegionFile {
    pub path: String,
    pub data: Vec<u8>,
}

/// The directories that lead from the directory of a world to the entity
/// regions of a dimension. `None` for a name that is no dimension.
pub open spec fn dimension_dirs(dimension: Seq<char>) -> Option<Seq<Seq<char>>> {
    if dimension == "overworld"@ {
        Some(seq![ENTITY_DIR@])
    } else if dimension == "nether"@ {
        Some(seq!["DIM-1"@, ENTITY_DIR@])
    } else if dimension == "end"@ {
        Some(seq!["DIM1"@, ENTITY_DIR@])
    } else {
        None
    }
}

/// The models of a sequence of strings.
pub open spec fn strings_view(strings: Seq<String>) -> Seq<Seq<char>> {
    Seq::new(strings.len(), |i: int| strings[i]@)
}

/// The indices of the files that hold any bytes, among the first `n`.
pub open spec fn nonempty_files(files: Seq<RegionFile>, n: int) -> Seq<int>
    decreases n,
{
    if n <= 0 {
        Seq::empty()
    } else {
        let before = nonempty_files(files, n - 1);
        if files[n - 1].data@.len() > 0 {
            before.push(n - 1)
        } else {
            before
        }
    }
}

/// Whether `regions` are the regions opened from the files that hold any
/// bytes, in the order of the files.
pub open spec fn regions_opened(files: Seq<RegionFile>, regions: Seq<Result<Region, SearchError>>)
    -> bool {
    let chosen = nonempty_files(files, files.len() as int);
    &&& regions.len() == chosen.len()
    &&& forall|k: int|
        0 <= k < regions.len() ==> region_opened(
            files[chosen[k]].path@,
            files[chosen[k]].data@,
            #[trigger] regions[k],
        )
}

impl World {
    /// The directory of the world.
    pub closed spec fn dir(&self) -> Seq<char> {
        self.world_dir@
    }

    /// A world in the given directory.
    pub fn new(world_dir: String) -> (world: World)
        ensures
            world.dir() == world_dir@,
    {
        World { world_dir }
    }

    /// The directory of the world.
    pub fn world_dir(&self) -> (dir: &String)
        ensures
            dir@ == self.dir(),
    {
        &self.world_dir
    }

    /// The directories that lead from the directory of the world to the
    /// entity regions of a dimension: the overworld, the nether or the end.
    ///
    /// Fails with `InvalidDimension` for any other name.
    pub fn entity_dir(&self, dimension: &str) -> (r: Result<Vec<String>, SearchError>)
        ensures
            match r {
                Ok(dirs) => dimension_dirs(dimension@) == Some(strings_view(dirs@)),
                Err(error) => dimension_dirs(dimension@) is None && (
                error matches SearchError::InvalidDimension { dimension: name } && name@
                    == dimension@),
            },
    {
        let name = dimension.to_owned();
        let mut dirs: Vec<String> = Vec::new();
        if name == "overworld".to_owned() {
        } else if name == "nether".to_owned() {
            dirs.push("DIM-1".to_owned());
        } else if name == "end".to_owned() {
            dirs.push("DIM1".to_owned());
        } else {
            return Err(SearchError::InvalidDimension { dimension: name });
        }
        dirs.push(ENTITY_DIR.to_owned());
        proof {
            assert(dimension_dirs(dimension@) is Some);
            assert(strings_view(dirs@) =~= dimension_dirs(dimension@)->0);
        }
        Ok(dirs)
    }

    /// Opens the regions among the files of the entity directory of a
    /// dimension: every file that holds any bytes, in the order given.
    ///
    /// Fails with `InvalidDimension` for a name that is no dimension. A
    /// file that does not open as a region gives its failure in its place.
    pub fn entity_regions(&self, dimension: &str, files: Vec<RegionFile>) -> (r: Result<
        Vec<Result<Region, SearchError>>,
        SearchError,
    >)
        ensures
            match r {
                Ok(regions) => dimension_dirs(dimension@) is Some && regions_opened(
                    files@,
                    regions@,
                ),
                Err(error) => dimension_dirs(dimension@) is None && (
                error matches SearchError::InvalidDimension { dimension: name } && name@
                    == dimension@),
            },
    {
        match self.entity_dir(dimension) {
            Ok(_) => {},
            Err(error) => {
                return Err(error);
            },
        }
        let mut regions: Vec<Result<Region, SearchError>> = Vec::new();
        let ghost all = files@;
        for file in it: files
            invariant
                it.seq() == all,
                regions@.len() == nonempty_files(all, it.index() as int).len(),
                forall|k: int|
                    0 <= k < regions@.len() ==> region_opened(
                        all[nonempty_files(all, it.index() as int)[k]].path@,
                        all[nonempty_files(all, it.index() as int)[k]].data@,
                        #[trigger] regions@[k],
                    ),
        {
            let ghost before = nonempty_files(all, it.index() as int);
            if file.data.len() > 0 {
                let region = Region::new(file.path.as_str(), file.data);
                regions.push(region);
            }
            proof {
                let after = nonempty_files(all, it.index() + 1);
                assert forall|k: int| 0 <= k < regions@.len() implies region_opened(
                    all[after[k]].path@,
                    all[after[k]].data@,
                    #[trigger] regions@[k],
                ) by {
                    if k < before.len() {
                        assert(after[k] == before[k]);
                    }
                }
            }
        }
        Ok(regions)
    }
}

} // verus!
