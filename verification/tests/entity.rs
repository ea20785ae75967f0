use item_finder::chunk::Chunk;
use item_finder::entity::{entities_of, get_item_id, ItemId};
use item_finder::error::{ErrorKind, SearchError};
use nbt::{Blob, Value};

fn compound_of(fields: Vec<(&str, Value)>) -> Value {
    let mut map = nbt::Map::new();
    for (name, value) in fields {
        map.insert(name.to_string(), value);
    }
    Value::Compound(map)
}

fn text_of(text: &str) -> Value {
    Value::String(text.to_string())
}

fn item_entity(id: &str) -> Value {
    compound_of(vec![
        ("id", text_of("minecraft:item")),
        ("Item", compound_of(vec![("id", text_of(id)), ("Count", Value::Byte(1))])),
    ])
}

fn document_with(entities: Value) -> Chunk {
    let mut nbt = Blob::new();
    nbt.insert("Entities", entities).unwrap();
    nbt.insert("DataVersion", 2730i32).unwrap();
    Chunk { x: 6, z: -9, nbt }
}

#[test]
fn document_without_entity_list_is_a_structure_error() {
    let mut nbt = Blob::new();
    nbt.insert("DataVersion", 2730i32).unwrap();
    nbt.insert("entities", Value::List(vec![item_entity("minecraft:diamond")])).unwrap();
    let document = Chunk { x: 6, z: -9, nbt };
    let error = entities_of(&document).unwrap_err();
    assert_eq!(error, SearchError::MissingEntities { x: 6, z: -9 });
    assert_eq!(error.kind(), ErrorKind::Structure);

    let empty = Chunk { x: 0, z: 0, nbt: Blob::new() };
    assert_eq!(entities_of(&empty).unwrap_err(), SearchError::MissingEntities { x: 0, z: 0 });
}

#[test]
fn entity_list_of_another_shape_is_a_structure_error() {
    for entities in [
        text_of("none"),
        Value::Int(0),
        Value::ByteArray(vec![]),
        compound_of(vec![("0", item_entity("minecraft:diamond"))]),
        Value::List(vec![text_of("minecraft:diamond")]),
        Value::List(vec![Value::Float(1.0), Value::Float(2.0)]),
        Value::List(vec![Value::List(vec![]), Value::List(vec![])]),
    ] {
        let error = entities_of(&document_with(entities)).unwrap_err();
        assert_eq!(error, SearchError::MalformedEntities { x: 6, z: -9 });
        assert_eq!(error.kind(), ErrorKind::Structure);
    }
}

#[test]
fn empty_entity_list_has_no_records() {
    let document = document_with(Value::List(vec![]));
    let found = entities_of(&document).unwrap();
    assert!(found.records.is_empty());
    assert!(found.failures.is_empty());
}

#[test]
fn item_entities_are_recorded_in_order() {
    let entities = vec![
        item_entity("minecraft:diamond"),
        compound_of(vec![("id", text_of("minecraft:cow"))]),
        item_entity("minecraft:emerald"),
        item_entity("minecraft:diamond"),
    ];
    let document = document_with(Value::List(entities.clone()));
    let found = entities_of(&document).unwrap();
    assert!(found.failures.is_empty());
    assert_eq!(found.records.len(), 3);
    let seen: Vec<(&str, usize)> =
        found.records.iter().map(|record| (record.item_id.as_str(), record.index)).collect();
    assert_eq!(
        seen,
        vec![("minecraft:diamond", 0), ("minecraft:emerald", 2), ("minecraft:diamond", 3)]
    );
    for record in &found.records {
        assert_eq!((record.x, record.z), (6, -9));
        assert_eq!(record.raw, &entities[record.index]);
    }
}

#[test]
fn entities_without_item_are_skipped() {
    let document = document_with(Value::List(vec![
        compound_of(vec![("id", text_of("minecraft:cow"))]),
        compound_of(vec![]),
        compound_of(vec![("Item", text_of("minecraft:diamond"))]),
        compound_of(vec![("Item", Value::List(vec![]))]),
        compound_of(vec![("item", compound_of(vec![("id", text_of("minecraft:diamond"))]))]),
    ]));
    let found = entities_of(&document).unwrap();
    assert!(found.records.is_empty());
    assert!(found.failures.is_empty());
}

#[test]
fn item_without_string_identifier_fails_alone() {
    let document = document_with(Value::List(vec![
        item_entity("minecraft:diamond"),
        compound_of(vec![("Item", compound_of(vec![("Count", Value::Byte(3))]))]),
        compound_of(vec![("Item", compound_of(vec![("id", Value::Int(264))]))]),
        compound_of(vec![("Item", compound_of(vec![]))]),
        item_entity("minecraft:gold_ingot"),
    ]));
    let found = entities_of(&document).unwrap();
    let seen: Vec<(&str, usize)> =
        found.records.iter().map(|record| (record.item_id.as_str(), record.index)).collect();
    assert_eq!(seen, vec![("minecraft:diamond", 0), ("minecraft:gold_ingot", 4)]);
    assert_eq!(
        found.failures,
        vec![
            SearchError::MissingItemId { x: 6, z: -9, entity: 1 },
            SearchError::MissingItemId { x: 6, z: -9, entity: 2 },
            SearchError::MissingItemId { x: 6, z: -9, entity: 3 },
        ]
    );
    assert_eq!(found.failures[0].kind(), ErrorKind::Structure);
}

#[test]
fn identifier_of_an_item() {
    let entity = item_entity("minecraft:diamond");
    match get_item_id(&entity) {
        ItemId::Found(id) => assert_eq!(id, "minecraft:diamond"),
        other => panic!("unexpected {:?}", other),
    }
    let entity = compound_of(vec![("Item", compound_of(vec![("id", text_of(""))]))]);
    match get_item_id(&entity) {
        ItemId::Found(id) => assert_eq!(id, ""),
        other => panic!("unexpected {:?}", other),
    }
}

#[test]
fn identifier_that_is_missing() {
    let entity = compound_of(vec![("Item", compound_of(vec![("id", Value::Long(1))]))]);
    assert!(matches!(get_item_id(&entity), ItemId::Missing));
    let entity = compound_of(vec![("Item", compound_of(vec![("ID", text_of("x"))]))]);
    assert!(matches!(get_item_id(&entity), ItemId::Missing));
}

#[test]
fn identifier_of_what_is_no_item_entity() {
    assert!(matches!(get_item_id(&compound_of(vec![])), ItemId::NoItem));
    assert!(matches!(get_item_id(&text_of("Item")), ItemId::NoItem));
    assert!(matches!(get_item_id(&Value::List(vec![])), ItemId::NoItem));
    let entity = compound_of(vec![("Item", Value::IntArray(vec![1, 2]))]);
    assert!(matches!(get_item_id(&entity), ItemId::NoItem));
}
