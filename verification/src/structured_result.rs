//! The outcome of a search: the items found, each with its identifier, its
//! name and its place.

use crate::entity::{EntityRecord, EntityRecordView, records_view, ITEM};
use crate::error::SearchError;
use crate::float::{f32_truncated, f64_truncated, truncate_f32, truncate_f64};
use crate::text::{chars_of, matches_at, string_of};
use crate::tree::{double_bits, field, float_bits, items, text, trees_of, value_tree, Tree};
use nbt::Value;
use vstd::prelude::*;

verus! {

/// The field of an entity that holds its position.
pub const POS: &'static str = "Pos";

/// The field of an item that holds its tag.
pub const TAG: &'static str = "tag";

/// The field of a tag that holds what the item is displayed with.
pub const DISPLAY: &'static str = "display";

/// The field of a display that holds the name of the item.
pub const NAME: &'static str = "Name";

/// What stands before a display name that is wrapped as JSON text.
pub const TEXT_OPEN: &'static str = "{\"text\":\"";

/// What stands after a display name that is wrapped as JSON text.
pub const TEXT_CLOSE: &'static str = "\"}";

/// One item that a search found.
#[derive(Debug, PartialEq, Eq)]
pub struct FoundItem {
    pub item_id: String,
    pub name: Option<String>,
    pub location: (i64, i64, i64),
    /// Reserved; always `None`.
    pub location_status: Option<String>,
}

/// The model of a [`FoundItem`].
pub struct FoundItemView {
    pub item_id: Seq<char>,
    pub name: Option<Seq<char>>,
    pub location: (i64, i64, i64),
    pub location_status: Option<Seq<char>>,
}

/// The model of an optional string.
pub open spec fn option_view(text: Option<String>) -> Option<Seq<char>> {
    match text {
        Some(text) => Some(text@),
        None => None,
    }
}

impl View for FoundItem {
    type V = FoundItemView;

    open spec fn view(&self) -> FoundItemView {
        FoundItemView {
            item_id: self.item_id@,
            name: option_view(self.name),
            location: self.location,
            location_status: option_view(self.location_status),
        }
    }
}

/// The models of a sequence of items.
pub open spec fn items_view(items: Seq<FoundItem>) -> Seq<FoundItemView> {
    Seq::new(items.len(), |i: int| items[i]@)
}

/// What a search among the entities of a document comes to.
#[derive(Debug, PartialEq, Eq)]
pub enum MatchResult {
    /// There were records of item entities, and none of them gave an item.
    NoMatch,
    /// The items that matched, in the order of their entities.
    Items(Vec<FoundItem>),
}

/// The model of a [`MatchResult`].
pub enum MatchResultView {
    NoMatch,
    Items(Seq<FoundItemView>),
}

impl View for MatchResult {
    type V = MatchResultView;

    open spec fn view(&self) -> MatchResultView {
        match self {
            MatchResult::NoMatch => MatchResultView::NoMatch,
            MatchResult::Items(items) => MatchResultView::Items(items_view(items@)),
        }
    }
}

/// The result of a whole search, in the three shapes that it is shown in.
#[derive(Debug, PartialEq, Eq)]
pub enum StructuredResult {
    Error(String),
    FoundItems(Vec<FoundItem>),
    NoResult,
}

/// The model of a [`StructuredResult`].
pub enum StructuredResultView {
    Error(Seq<char>),
    FoundItems(Seq<FoundItemView>),
    NoResult,
}

impl View for StructuredResult {
    type V = StructuredResultView;

    open spec fn view(&self) -> StructuredResultView {
        match self {
            StructuredResult::Error(message) => StructuredResultView::Error(message@),
            StructuredResult::FoundItems(items) => StructuredResultView::FoundItems(
                items_view(items@),
            ),
            StructuredResult::NoResult => StructuredResultView::NoResult,
        }
    }
}

/// The result that shows a sequence of found items: no result for none.
pub open spec fn shown_items(items: Seq<FoundItemView>) -> StructuredResultView {
    if items.len() == 0 {
        StructuredResultView::NoResult
    } else {
        StructuredResultView::FoundItems(items)
    }
}

impl StructuredResult {
    /// The result that shows a failure by its message.
    pub fn err(error: &SearchError) -> (r: StructuredResult)
        ensures
            r@ == StructuredResultView::Error(error.text()),
    {
        StructuredResult::Error(error.message())
    }

    /// The result that shows the items found: `NoResult` for none,
    /// `FoundItems` else.
    pub fn found_items(items: Vec<FoundItem>) -> (r: StructuredResult)
        ensures
            r@ == shown_items(items_view(items@)),
    {
        if items.len() == 0 {
            StructuredResult::NoResult
        } else {
            StructuredResult::FoundItems(items)
        }
    }
}

/// The field of a compound under a name.
pub open spec fn subfield(tree: Tree, name: Seq<char>) -> Option<Tree> {
    match tree {
        Tree::Compound(fields) => if fields.contains_key(name) {
            Some(fields[name])
        } else {
            None
        },
        _ => None,
    }
}

/// One coordinate of a position: a float of either width, truncated toward
/// zero.
pub open spec fn coordinate_of(tree: Tree) -> Option<i64> {
    match tree {
        Tree::Float(bits) => Some(f32_truncated(bits) as i64),
        Tree::Double(bits) => Some(f64_truncated(bits) as i64),
        _ => None,
    }
}

/// The place of an entity: the first three items of the list in its `Pos`
/// field, each truncated toward zero. `None` where there is no such list,
/// where it has fewer than three items, and where one of the three is no
/// float.
pub open spec fn position_of(entity: Tree) -> Option<(i64, i64, i64)> {
    match subfield(entity, POS@) {
        Some(Tree::List(list)) => {
            if list.len() >= 3 {
                match (coordinate_of(list[0]), coordinate_of(list[1]), coordinate_of(list[2])) {
                    (Some(x), Some(y), Some(z)) => Some((x, y, z)),
                    _ => None,
                }
            } else {
                None
            }
        },
        _ => None,
    }
}

/// Whether a character may stand in a display name that is wrapped as JSON
/// text: any but the quote and the backslash.
pub open spec fn is_plain(c: char) -> bool {
    c != '"' && c != '\\'
}

/// The name inside a display name of the shape `{"text":"<name>"}`, where
/// the name holds no quote and no backslash. `None` for any other text.
pub open spec fn unwrapped(name: Seq<char>) -> Option<Seq<char>> {
    let open = TEXT_OPEN@;
    let close = TEXT_CLOSE@;
    if name.len() >= open.len() + close.len() && name.subrange(0, open.len() as int) == open
        && name.subrange(name.len() - close.len(), name.len() as int) == close {
        let inner = name.subrange(open.len() as int, name.len() - close.len());
        if forall|i: int| 0 <= i < inner.len() ==> is_plain(#[trigger] inner[i]) {
            Some(inner)
        } else {
            None
        }
    } else {
        None
    }
}

/// The text of the display name of an entity's item: the string at
/// `Item.tag.display.Name`.
pub open spec fn display_name_field(entity: Tree) -> Option<Seq<char>> {
    match subfield(entity, ITEM@) {
        Some(item) => match subfield(item, TAG@) {
            Some(tag) => match subfield(tag, DISPLAY@) {
                Some(display) => match subfield(display, NAME@) {
                    Some(Tree::Text(name)) => Some(name),
                    _ => None,
                },
                None => None,
            },
            None => None,
        },
        None => None,
    }
}

/// The display name of an entity's item, unwrapped. `None` where a field
/// on the way is missing and where the text is not of the wrapped shape.
pub open spec fn display_name_of(entity: Tree) -> Option<Seq<char>> {
    match display_name_field(entity) {
        Some(name) => unwrapped(name),
        None => None,
    }
}

/// The item that a record of an item entity gives, or the failure of its
/// position.
pub open spec fn found_item_of(record: EntityRecordView) -> Result<FoundItemView, SearchError> {
    match position_of(record.raw) {
        Some(location) => Ok(
            FoundItemView {
                item_id: record.item_id,
                name: display_name_of(record.raw),
                location,
                location_status: None,
            },
        ),
        None => Err(
            SearchError::MalformedPosition { x: record.x, z: record.z, entity: record.index },
        ),
    }
}

/// The items of those among the first `n` records whose identifier is the
/// target and whose position is well formed, in the order of the records.
pub open spec fn matched_items(records: Seq<EntityRecordView>, target: Seq<char>, n: int) -> Seq<
    FoundItemView,
>
    decreases n,
{
    if n <= 0 {
        Seq::empty()
    } else {
        let before = matched_items(records, target, n - 1);
        if records[n - 1].item_id == target {
            match found_item_of(records[n - 1]) {
                Ok(item) => before.push(item),
                Err(_) => before,
            }
        } else {
            before
        }
    }
}

/// The failures of those among the first `n` records whose identifier is
/// the target and whose position is malformed, in the order of the records.
pub open spec fn match_failures(records: Seq<EntityRecordView>, target: Seq<char>, n: int) -> Seq<
    SearchError,
>
    decreases n,
{
    if n <= 0 {
        Seq::empty()
    } else {
        let before = match_failures(records, target, n - 1);
        if records[n - 1].item_id == target {
            match found_item_of(records[n - 1]) {
                Ok(_) => before,
                Err(error) => before.push(error),
            }
        } else {
            before
        }
    }
}

/// What a search for the target among the records comes to: no match
/// where there are records and none gives an item, the items else.
pub open spec fn match_result(records: Seq<EntityRecordView>, target: Seq<char>)
    -> MatchResultView {
    let items = matched_items(records, target, records.len() as int);
    if records.len() > 0 && items.len() == 0 {
        MatchResultView::NoMatch
    } else {
        MatchResultView::Items(items)
    }
}

/// Unwraps a display name of the shape `{"text":"<name>"}`.
pub fn unwrap_text(name: &str) -> (r: Option<String>)
    ensures
        option_view(r) == unwrapped(name@),
{
    let chars = chars_of(name);
    let open = chars_of(TEXT_OPEN);
    let close = chars_of(TEXT_CLOSE);
    if chars.len() < open.len() || chars.len() - open.len() < close.len() {
        return None;
    }
    let end: usize = chars.len() - close.len();
    if !matches_at(&chars, 0, &open) || !matches_at(&chars, end, &close) {
        return None;
    }
    let ghost inner = name@.subrange(open@.len() as int, end as int);
    let mut i: usize = open.len();
    while i < end
        invariant
            open@.len() <= i <= end <= chars@.len(),
            chars@ == name@,
            open@ == TEXT_OPEN@,
            close@ == TEXT_CLOSE@,
            end == name@.len() - close@.len(),
            inner == name@.subrange(open@.len() as int, end as int),
            forall|j: int| 0 <= j < i - open@.len() ==> is_plain(#[trigger] inner[j]),
        decreases end - i,
    {
        let c: char = chars[i];
        if c == '"' || c == '\\' {
            proof {
                assert(inner[i - open@.len()] == c);
            }
            return None;
        }
        proof {
            assert(inner[i - open@.len()] == c);
        }
        i = i + 1;
    }
    Some(string_of(&chars, open.len(), end))
}

/// Reads one coordinate of a position.
fn get_coordinate(value: &Value) -> (r: Option<i64>)
    ensures
        r == coordinate_of(value_tree(*value)),
{
    match float_bits(value) {
        Some(bits) => Some(truncate_f32(bits)),
        None => match double_bits(value) {
            Some(bits) => Some(truncate_f64(bits)),
            None => None,
        },
    }
}

/// Reads the place of an item entity from its `Pos` field.
///
/// Fails with `MalformedPosition` where the field is missing or is not a
/// list, where the list has fewer than three items, and where one of the
/// first three is no float.
pub fn get_item_location(record: &EntityRecord) -> (r: Result<(i64, i64, i64), SearchError>)
    ensures
        match r {
            Ok(location) => position_of(record@.raw) == Some(location),
            Err(error) => position_of(record@.raw) is None && error == (
            SearchError::MalformedPosition { x: record.x, z: record.z, entity: record.index }),
        },
{
    let failure = SearchError::MalformedPosition { x: record.x, z: record.z, entity: record.index };
    let list = match field(record.raw, POS) {
        Some(pos) => match items(pos) {
            Some(list) => list,
            None => {
                return Err(failure);
            },
        },
        None => {
            return Err(failure);
        },
    };
    if list.len() < 3 {
        return Err(failure);
    }
    proof {
        let trees = trees_of(list@);
        assert(trees[0] == value_tree(list@[0]));
        assert(trees[1] == value_tree(list@[1]));
        assert(trees[2] == value_tree(list@[2]));
    }
    match (get_coordinate(&list[0]), get_coordinate(&list[1]), get_coordinate(&list[2])) {
        (Some(x), Some(y), Some(z)) => Ok((x, y, z)),
        _ => Err(failure),
    }
}

/// Reads the field of a compound, if the value is one and has it.
fn get_subfield<'a>(value: &'a Value, name: &str) -> (r: Option<&'a Value>)
    ensures
        match r {
            Some(entry) => subfield(value_tree(*value), name@) == Some(value_tree(*entry)),
            None => subfield(value_tree(*value), name@) is None,
        },
{
    field(value, name)
}

/// Reads the display name of an entity's item.
pub fn get_display_name(entity: &Value) -> (r: Option<String>)
    ensures
        option_view(r) == display_name_of(value_tree(*entity)),
{
    let item = match get_subfield(entity, ITEM) {
        Some(item) => item,
        None => {
            return None;
        },
    };
    let tag = match get_subfield(item, TAG) {
        Some(tag) => tag,
        None => {
            return None;
        },
    };
    let display = match get_subfield(tag, DISPLAY) {
        Some(display) => display,
        None => {
            return None;
        },
    };
    let name = match get_subfield(display, NAME) {
        Some(name) => name,
        None => {
            return None;
        },
    };
    match text(name) {
        Some(name) => unwrap_text(name.as_str()),
        None => None,
    }
}

/// What a search among the entities of a document comes to, with the
/// failures of the matches whose position is malformed.
#[derive(Debug)]
pub struct Matches {
    pub result: MatchResult,
    pub failures: Vec<SearchError>,
}

/// Searches the records for the items whose identifier is the target.
///
/// An identifier matches where it is the target, character for character.
/// A match with a well formed position gives an item, in the order of the
/// records; one with a malformed position gives a `MalformedPosition`
/// among the failures, and no item. The result is `NoMatch` where there
/// are records and none of them gives an item.
pub fn find(records: &Vec<EntityRecord>, target: &str) -> (found: Matches)
    ensures
        found.result@ == match_result(records_view(records@), target@),
        found.failures@ == match_failures(
            records_view(records@),
            target@,
            records@.len() as int,
        ),
        found.result matches MatchResult::Items(items) ==> forall|k: int|
            0 <= k < items@.len() ==> (#[trigger] items@[k]).item_id@ == target@,
{
    let wanted = target.to_owned();
    let mut found: Vec<FoundItem> = Vec::new();
    let mut failures: Vec<SearchError> = Vec::new();
    let mut i: usize = 0;
    while i < records.len()
        invariant
            i <= records@.len(),
            wanted@ == target@,
            items_view(found@) == matched_items(records_view(records@), target@, i as int),
            failures@ == match_failures(records_view(records@), target@, i as int),
        decreases records@.len() - i,
    {
        let record = &records[i];
        proof {
            assert(records_view(records@)[i as int] == record@);
        }
        if *record.item_id == wanted {
            match get_item_location(record) {
                Ok(location) => {
                    found.push(
                        FoundItem {
                            item_id: record.item_id.clone(),
                            name: get_display_name(record.raw),
                            location,
                            location_status: None,
                        },
                    );
                },
                Err(error) => {
                    failures.push(error);
                },
            }
        }
        proof {
            assert(items_view(found@) =~= matched_items(records_view(records@), target@, i + 1));
            assert(failures@ =~= match_failures(records_view(records@), target@, i + 1));
        }
        i = i + 1;
    }
    proof {
        lemma_matches_have_the_target(records_view(records@), target@, records@.len() as int);
        assert forall|k: int| 0 <= k < found@.len() implies (#[trigger] found@[k]).item_id@
            == target@ by {
            assert(items_view(found@)[k].item_id == target@);
        }
    }
    let result = if records.len() > 0 && found.len() == 0 {
        MatchResult::NoMatch
    } else {
        MatchResult::Items(found)
    };
    Matches { result, failures }
}

/// Whether an item is that of one of the first `n` records, and that
/// record has the target as its identifier.
pub open spec fn stems_from_target(
    records: Seq<EntityRecordView>,
    target: Seq<char>,
    n: int,
    item: FoundItemView,
) -> bool {
    exists|i: int|
        0 <= i < n && (#[trigger] records[i]).item_id == target && found_item_of(records[i])
            == Ok::<_, SearchError>(item)
}

/// Which records a search includes and which it leaves out.
///
/// A record whose identifier is the target and whose position is well
/// formed has its item among the items found. Every item found is the item
/// of such a record, so that a record with another identifier gives none.
pub proof fn lemma_matches_have_the_target(
    records: Seq<EntityRecordView>,
    target: Seq<char>,
    n: int,
)
    requires
        0 <= n <= records.len(),
    ensures
        forall|i: int|
            0 <= i < n && (#[trigger] records[i]).item_id == target && found_item_of(records[i])
                is Ok ==> matched_items(records, target, n).contains(
                found_item_of(records[i])->Ok_0,
            ),
        forall|k: int|
            0 <= k < matched_items(records, target, n).len() ==> stems_from_target(
                records,
                target,
                n,
                #[trigger] matched_items(records, target, n)[k],
            ),
        forall|k: int|
            0 <= k < matched_items(records, target, n).len() ==> (#[trigger] matched_items(
                records,
                target,
                n,
            )[k]).item_id == target,
    decreases n,
{
    if n > 0 {
        lemma_matches_have_the_target(records, target, n - 1);
        let before = matched_items(records, target, n - 1);
        let after = matched_items(records, target, n);
        let last = records[n - 1];
        let pushed = last.item_id == target && found_item_of(last) is Ok;
        assert forall|i: int|
            0 <= i < n && (#[trigger] records[i]).item_id == target && found_item_of(records[i])
                is Ok implies after.contains(found_item_of(records[i])->Ok_0) by {
            let item = found_item_of(records[i])->Ok_0;
            if i < n - 1 {
                assert(before.contains(item));
                let at = choose|at: int| 0 <= at < before.len() && before[at] == item;
                assert(after[at] == item);
            } else {
                assert(after[after.len() - 1] == item);
            }
        }
        assert forall|k: int| 0 <= k < after.len() implies stems_from_target(
            records,
            target,
            n,
            #[trigger] after[k],
        ) by {
            if k < before.len() {
                assert(stems_from_target(records, target, n - 1, before[k]));
                let i = choose|i: int|
                    0 <= i < n - 1 && (#[trigger] records[i]).item_id == target && found_item_of(
                        records[i],
                    ) == Ok::<_, SearchError>(before[k]);
                assert(records[i].item_id == target && found_item_of(records[i]) == Ok::<
                    _,
                    SearchError,
                >(after[k]));
            } else {
                assert(pushed);
                assert(records[n - 1].item_id == target && found_item_of(records[n - 1]) == Ok::<
                    _,
                    SearchError,
                >(after[k]));
            }
        }
        assert forall|k: int| 0 <= k < after.len() implies (#[trigger] after[k]).item_id
            == target by {
            assert(stems_from_target(records, target, n, after[k]));
            let i = choose|i: int|
                0 <= i < n && (#[trigger] records[i]).item_id == target && found_item_of(
                    records[i],
                ) == Ok::<_, SearchError>(after[k]);
            assert(found_item_of(records[i])->Ok_0.item_id == records[i].item_id);
        }
    }
}

} // verus!
