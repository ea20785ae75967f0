use item_finder::error::SearchError;
use item_finder::world::{RegionFile, World};

#[test]
fn world_keeps_its_directory() {
    let world = World::new("saves/alpha".to_string());
    assert_eq!(world.world_dir(), "saves/alpha");
}

#[test]
fn entity_dir_of_each_dimension() {
    let world = World::new("saves/alpha".to_string());
    assert_eq!(world.entity_dir("overworld").unwrap(), vec!["entities".to_string()]);
    assert_eq!(
        world.entity_dir("nether").unwrap(),
        vec!["DIM-1".to_string(), "entities".to_string()]
    );
    assert_eq!(
        world.entity_dir("end").unwrap(),
        vec!["DIM1".to_string(), "entities".to_string()]
    );
}

#[test]
fn entity_dir_of_an_unknown_dimension() {
    let world = World::new("saves/alpha".to_string());
    assert_eq!(
        world.entity_dir("Overworld"),
        Err(SearchError::InvalidDimension { dimension: "Overworld".to_string() })
    );
    assert_eq!(
        world.entity_dir(""),
        Err(SearchError::InvalidDimension { dimension: String::new() })
    );
}

#[test]
fn entity_regions_skips_empty_files() {
    let world = World::new("saves/alpha".to_string());
    let files = vec![
        RegionFile { path: "saves/alpha/entities/r.0.0.mca".to_string(), data: Vec::new() },
        RegionFile { path: "saves/alpha/entities/r.1.-1.mca".to_string(), data: vec![0u8; 8192] },
        RegionFile { path: "saves/alpha/entities/junk.txt".to_string(), data: vec![1u8; 3] },
        RegionFile { path: "saves/alpha/entities/r.2.2.mca".to_string(), data: vec![0u8; 4096] },
    ];
    let regions = world.entity_regions("overworld", files).unwrap();
    assert_eq!(regions.len(), 3);
    assert_eq!(regions[0].as_ref().unwrap().coordinates(), (1, -1));
    assert_eq!(
        regions[1].as_ref().unwrap_err(),
        &SearchError::MalformedFilename { filename: "saves/alpha/entities/junk.txt".to_string() }
    );
    assert_eq!(
        regions[2].as_ref().unwrap_err(),
        &SearchError::TruncatedMtimeTable {
            filename: "saves/alpha/entities/r.2.2.mca".to_string()
        }
    );
}

#[test]
fn entity_regions_of_an_unknown_dimension() {
    let world = World::new("saves/alpha".to_string());
    let files = vec![RegionFile {
        path: "saves/alpha/entities/r.0.0.mca".to_string(),
        data: vec![0u8; 8192],
    }];
    assert_eq!(
        world.entity_regions("moon", files).unwrap_err(),
        SearchError::InvalidDimension { dimension: "moon".to_string() }
    );
}
