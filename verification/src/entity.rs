//! The entities of a document, and which of them are items.

use crate::chunk::Chunk;
use crate::error::SearchError;
use crate::tree::{blob_get, field, items, text, trees_of, value_tree, Tree, COMPOUND_ID};
use nbt::Value;
use vstd::prelude::*;

verus! {

/// The field of a document that lists its entities.
pub const ENTITIES: &'static str = "Entities";

/// The field of an entity that holds its item.
pub const ITEM: &'static str = "Item";

/// The field of an item that holds its identifier.
pub const ID: &'static str = "id";

/// What one entity is to the search.
pub enum EntityClass {
    /// An entity with an item that has a string identifier.
    Item(Seq<char>),
    /// An entity with an item that has no string identifier.
    Malformed,
    /// An entity without an item.
    Other,
}

/// An entity is an item entity where its `Item` field is a compound. The
/// identifier of the item is the string in the `id` field of that compound.
pub open spec fn classify(entity: Tree) -> EntityClass {
    match entity {
        Tree::Compound(fields) => {
            if fields.contains_key(ITEM@) {
                match fields[ITEM@] {
                    Tree::Compound(item) => {
                        if item.contains_key(ID@) {
                            match item[ID@] {
                                Tree::Text(id) => EntityClass::Item(id),
                                _ => EntityClass::Malformed,
                            }
                        } else {
                            EntityClass::Malformed
                        }
                    },
                    _ => EntityClass::Other,
                }
            } else {
                EntityClass::Other
            }
        },
        _ => EntityClass::Other,
    }
}

/// Whether every tree of a sequence is a compound.
pub open spec fn all_compounds(trees: Seq<Tree>) -> bool {
    forall|i: int| 0 <= i < trees.len() ==> #[trigger] trees[i] is Compound
}

/// The entities of the document of the chunk at `(x, z)`: its `Entities`
/// field, which is to be a list of compounds.
pub open spec fn entity_list(fields: Map<Seq<char>, Tree>, x: i64, z: i64) -> Result<
    Seq<Tree>,
    SearchError,
> {
    if !fields.contains_key(ENTITIES@) {
        Err(SearchError::MissingEntities { x, z })
    } else {
        match fields[ENTITIES@] {
            Tree::List(entities) => if all_compounds(entities) {
                Ok(entities)
            } else {
                Err(SearchError::MalformedEntities { x, z })
            },
            _ => Err(SearchError::MalformedEntities { x, z }),
        }
    }
}

/// One item entity of a document.
#[derive(Debug)]
pub struct EntityRecord<'a> {
    /// The identifier of the item.
    pub item_id: &'a String,
    /// The whole entity.
    pub raw: &'a Value,
    /// The coordinates of the chunk that the entity is in.
    pub x: i64,
    pub z: i64,
    /// The index of the entity in the entity list of its document.
    pub index: usize,
}

/// The model of an [`EntityRecord`].
pub struct EntityRecordView {
    pub item_id: Seq<char>,
    pub raw: Tree,
    pub x: i64,
    pub z: i64,
    pub index: usize,
}

impl<'a> View for EntityRecord<'a> {
    type V = EntityRecordView;

    open spec fn view(&self) -> EntityRecordView {
        EntityRecordView {
            item_id: self.item_id@,
            raw: value_tree(*self.raw),
            x: self.x,
            z: self.z,
            index: self.index,
        }
    }
}

/// The models of a sequence of records.
pub open spec fn records_view(records: Seq<EntityRecord>) -> Seq<EntityRecordView> {
    Seq::new(records.len(), |i: int| records[i]@)
}

/// The records of the item entities among the first `n` entities of the
/// chunk at `(x, z)`, in the order of the entities.
pub open spec fn item_records(entities: Seq<Tree>, x: i64, z: i64, n: int) -> Seq<
    EntityRecordView,
>
    decreases n,
{
    if n <= 0 {
        Seq::empty()
    } else {
        let before = item_records(entities, x, z, n - 1);
        match classify(entities[n - 1]) {
            EntityClass::Item(id) => before.push(
                EntityRecordView {
                    item_id: id,
                    raw: entities[n - 1],
                    x,
                    z,
                    index: (n - 1) as usize,
                },
            ),
            _ => before,
        }
    }
}

/// The failures of the malformed item entities among the first `n`
/// entities of the chunk at `(x, z)`, in the order of the entities.
pub open spec fn item_failures(entities: Seq<Tree>, x: i64, z: i64, n: int) -> Seq<SearchError>
    decreases n,
{
    if n <= 0 {
        Seq::empty()
    } else {
        let before = item_failures(entities, x, z, n - 1);
        match classify(entities[n - 1]) {
            EntityClass::Malformed => before.push(
                SearchError::MissingItemId { x, z, entity: (n - 1) as usize },
            ),
            _ => before,
        }
    }
}

/// The item entities of a document, and the failures of its malformed
/// ones.
#[derive(Debug)]
pub struct Entities<'a> {
    pub records: Vec<EntityRecord<'a>>,
    pub failures: Vec<SearchError>,
}

/// What the identifier of an entity's item is found to be.
#[derive(Debug)]
pub enum ItemId<'a> {
    /// The identifier of the item of an item entity.
    Found(&'a String),
    /// The entity has an item without a string identifier.
    Missing,
    /// The entity has no item.
    NoItem,
}

/// The model of an [`ItemId`].
pub open spec fn item_id_view(id: ItemId) -> EntityClass {
    match id {
        ItemId::Found(id) => EntityClass::Item(id@),
        ItemId::Missing => EntityClass::Malformed,
        ItemId::NoItem => EntityClass::Other,
    }
}

/// Finds the identifier of the item of an entity.
pub fn get_item_id<'a>(entity: &'a Value) -> (id: ItemId<'a>)
    ensures
        item_id_view(id) == classify(value_tree(*entity)),
{
    let item = match field(entity, ITEM) {
        Some(item) => item,
        None => {
            return ItemId::NoItem;
        },
    };
    if item.id() != COMPOUND_ID {
        return ItemId::NoItem;
    }
    match field(item, ID) {
        Some(id) => match text(id) {
            Some(id) => ItemId::Found(id),
            None => ItemId::Missing,
        },
        None => ItemId::Missing,
    }
}

/// Lists the item entities of a document.
///
/// Fails with `MissingEntities` where the document has no `Entities`
/// field, and with `MalformedEntities` where that field is not a list of
/// compounds. An entity without an item is left out. An entity whose item
/// has no string identifier is left out too, and gives a `MissingItemId`
/// among the failures.
pub fn entities_of<'a>(document: &'a Chunk) -> (r: Result<Entities<'a>, SearchError>)
    ensures
        match r {
            Ok(found) => {
                &&& entity_list(document@.fields, document.x, document.z) matches Ok(entities)
                &&& records_view(found.records@) == item_records(
                    entities,
                    document.x,
                    document.z,
                    entities.len() as int,
                )
                &&& found.failures@ == item_failures(
                    entities,
                    document.x,
                    document.z,
                    entities.len() as int,
                )
                &&& found.records@.len() + found.failures@.len() <= entities.len()
            },
            Err(error) => entity_list(document@.fields, document.x, document.z) == Err::<
                Seq<Tree>,
                _,
            >(error),
        },
{
    let x = document.x;
    let z = document.z;
    let list = match blob_get(&document.nbt, ENTITIES) {
        Some(value) => match items(value) {
            Some(list) => list,
            None => {
                return Err(SearchError::MalformedEntities { x, z });
            },
        },
        None => {
            return Err(SearchError::MissingEntities { x, z });
        },
    };
    let ghost entities = trees_of(list@);
    let mut records: Vec<EntityRecord<'a>> = Vec::new();
    let mut failures: Vec<SearchError> = Vec::new();
    let mut index: usize = 0;
    while index < list.len()
        invariant
            index <= list@.len(),
            entities == trees_of(list@),
            document@.fields.contains_key(ENTITIES@),
            document@.fields[ENTITIES@] == Tree::List(entities),
            forall|i: int| 0 <= i < index ==> #[trigger] entities[i] is Compound,
            records_view(records@) == item_records(entities, x, z, index as int),
            failures@ == item_failures(entities, x, z, index as int),
            x == document.x,
            z == document.z,
        decreases list@.len() - index,
    {
        let entity = &list[index];
        proof {
            assert(entities[index as int] == value_tree(*entity));
        }
        if entity.id() != COMPOUND_ID {
            return Err(SearchError::MalformedEntities { x, z });
        }
        match get_item_id(entity) {
            ItemId::Found(item_id) => {
                records.push(EntityRecord { item_id, raw: entity, x, z, index });
            },
            ItemId::Missing => {
                failures.push(SearchError::MissingItemId { x, z, entity: index });
            },
            ItemId::NoItem => {},
        }
        proof {
            assert(records_view(records@) =~= item_records(entities, x, z, index + 1));
            assert(failures@ =~= item_failures(entities, x, z, index + 1));
        }
        index = index + 1;
    }
    proof {
        lemma_records_are_bounded(entities, x, z, entities.len() as int);
    }
    Ok(Entities { records, failures })
}

/// A document without an `Entities` field gives a structure error, whatever
/// else it holds.
pub proof fn lemma_missing_entities_is_structure_error(
    fields: Map<Seq<char>, Tree>,
    x: i64,
    z: i64,
)
    requires
        !fields.contains_key(ENTITIES@),
    ensures
        entity_list(fields, x, z) == Err::<Seq<Tree>, _>(SearchError::MissingEntities { x, z }),
        (SearchError::MissingEntities { x, z }).kind_of() == crate::error::ErrorKind::Structure,
{
}

/// An entity gives at most one record or one failure.
pub proof fn lemma_records_are_bounded(entities: Seq<Tree>, x: i64, z: i64, n: int)
    requires
        0 <= n,
    ensures
        item_records(entities, x, z, n).len() + item_failures(entities, x, z, n).len() <= n,
    decreases n,
{
    if n > 0 {
        lemma_records_are_bounded(entities, x, z, n - 1);
    }
}

/// Whether one of the records is that of the entity at the given index.
pub open spec fn has_record(records: Seq<EntityRecordView>, index: int) -> bool {
    exists|k: int| 0 <= k < records.len() && (#[trigger] records[k]).index == index
}

/// Which entities have a record.
///
/// Every record is that of an item entity, with the identifier of its item
/// and the index of the entity. Every item entity has a record, and no
/// other entity has one.
pub proof fn lemma_records_are_the_item_entities(entities: Seq<Tree>, x: i64, z: i64, n: int)
    requires
        0 <= n <= entities.len(),
        n <= usize::MAX,
    ensures
        forall|k: int|
            0 <= k < item_records(entities, x, z, n).len() ==> {
                let record = #[trigger] item_records(entities, x, z, n)[k];
                &&& 0 <= record.index < n
                &&& classify(entities[record.index as int]) == EntityClass::Item(record.item_id)
                &&& record.raw == entities[record.index as int]
                &&& record.x == x
                &&& record.z == z
            },
        forall|i: int|
            0 <= i < n ==> (classify(#[trigger] entities[i]) is Item <==> has_record(
                item_records(entities, x, z, n),
                i,
            )),
    decreases n,
{
    if n > 0 {
        lemma_records_are_the_item_entities(entities, x, z, n - 1);
        let before = item_records(entities, x, z, n - 1);
        let after = item_records(entities, x, z, n);
        assert forall|i: int| 0 <= i < n implies (classify(#[trigger] entities[i]) is Item
            <==> has_record(after, i)) by {
            if classify(entities[i]) is Item {
                if i < n - 1 {
                    assert(has_record(before, i));
                    let k = choose|k: int|
                        0 <= k < before.len() && (#[trigger] before[k]).index == i;
                    assert(after[k].index == i);
                } else {
                    assert(after[after.len() - 1].index == i);
                }
            } else if has_record(after, i) {
                let k = choose|k: int| 0 <= k < after.len() && (#[trigger] after[k]).index == i;
                assert(classify(entities[after[k].index as int]) == EntityClass::Item(
                    after[k].item_id,
                ));
            }
        }
    }
}

} // verus!
