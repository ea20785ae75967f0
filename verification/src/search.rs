//! The search of a sequence of regions for the items of one identifier.

use crate::chunk::{Chunk, ChunkView};
use crate::entity::{entities_of, entity_list, item_failures, item_records};
use crate::error::SearchError;
use crate::region::{chunk_results_view, lemma_empty_region_has_no_chunks, Region, SLOTS};
use crate::structured_result::{
    find,
    lemma_matches_have_the_target,
    items_view,
    match_failures,
    matched_items,
    shown_items,
    FoundItem,
    FoundItemView,
    MatchResult,
    StructuredResult,
    StructuredResultView,
};
use crate::text::{chars_of, matches_at};
use vstd::prelude::*;
use vstd::string::*;

verus! {

/// The namespace of an identifier that names none.
pub const NAMESPACE: &'static str = "minecraft:";

/// An identifier with its namespace: itself where it begins with
/// [`NAMESPACE`], else [`NAMESPACE`] and then the identifier.
pub open spec fn qualified(id: Seq<char>) -> Seq<char> {
    let namespace = NAMESPACE@;
    if id.len() >= namespace.len() && id.subrange(0, namespace.len() as int) == namespace {
        id
    } else {
        namespace + id
    }
}

/// Puts the default namespace before an identifier that has none.
pub fn qualify_item_id(id: &str) -> (r: String)
    ensures
        r@ == qualified(id@),
{
    let chars = chars_of(id);
    let namespace = chars_of(NAMESPACE);
    if matches_at(&chars, 0, &namespace) {
        id.to_owned()
    } else {
        let mut r = NAMESPACE.to_owned();
        r.append(id);
        r
    }
}

/// The items that a search finds, and the failures that it meets on the
/// way.
pub struct Findings {
    pub items: Seq<FoundItemView>,
    pub failures: Seq<SearchError>,
}

/// What a search for the target finds in one document.
///
/// A document without a well formed entity list gives its failure and no
/// item. Else the failures are those of the malformed item entities, then
/// those of the matches with a malformed position.
pub open spec fn document_findings(document: ChunkView, target: Seq<char>) -> Findings {
    match entity_list(document.fields, document.x, document.z) {
        Err(error) => Findings { items: Seq::empty(), failures: seq![error] },
        Ok(entities) => {
            let records = item_records(entities, document.x, document.z, entities.len() as int);
            Findings {
                items: matched_items(records, target, records.len() as int),
                failures: item_failures(entities, document.x, document.z, entities.len() as int)
                    + match_failures(records, target, records.len() as int),
            }
        },
    }
}

/// What a search for the target finds in the first `n` of a sequence of
/// chunks. A chunk that did not decode gives its failure and no item.
pub open spec fn chunks_findings(
    chunks: Seq<Result<ChunkView, SearchError>>,
    target: Seq<char>,
    n: int,
) -> Findings
    decreases n,
{
    if n <= 0 {
        Findings { items: Seq::empty(), failures: Seq::empty() }
    } else {
        let before = chunks_findings(chunks, target, n - 1);
        match chunks[n - 1] {
            Err(error) => Findings { items: before.items, failures: before.failures.push(error) },
            Ok(document) => {
                let here = document_findings(document, target);
                Findings {
                    items: before.items + here.items,
                    failures: before.failures + here.failures,
                }
            },
        }
    }
}

/// What a search for the target finds in a region.
pub open spec fn region_findings(region: Region, target: Seq<char>) -> Findings {
    chunks_findings(region.chunks(), target, region.chunks().len() as int)
}

/// The state of a search after some regions.
pub struct Scan {
    pub found: Findings,
    /// The failure of the first region that could not be opened.
    pub stopped: Option<SearchError>,
}

/// The state of a search for the target after the first `n` regions. The
/// search stops at the first region that could not be opened.
pub open spec fn scanned(regions: Seq<Result<Region, SearchError>>, target: Seq<char>, n: int)
    -> Scan
    decreases n,
{
    if n <= 0 {
        Scan { found: Findings { items: Seq::empty(), failures: Seq::empty() }, stopped: None }
    } else {
        let before = scanned(regions, target, n - 1);
        if before.stopped is Some {
            before
        } else {
            match regions[n - 1] {
                Err(error) => Scan { found: before.found, stopped: Some(error) },
                Ok(region) => {
                    let here = region_findings(region, target);
                    Scan {
                        found: Findings {
                            items: before.found.items + here.items,
                            failures: before.found.failures + here.failures,
                        },
                        stopped: None,
                    }
                },
            }
        }
    }
}

/// The result of a search and the failures that it met.
#[derive(Debug)]
pub struct SearchReport {
    pub result: StructuredResult,
    /// The failures of single chunks, entities and items, in the order in
    /// which the search met them. None of them stopped the search.
    pub failures: Vec<SearchError>,
}

/// The model of a [`SearchReport`].
pub struct SearchReportView {
    pub result: StructuredResultView,
    pub failures: Seq<SearchError>,
}

impl View for SearchReport {
    type V = SearchReportView;

    open spec fn view(&self) -> SearchReportView {
        SearchReportView { result: self.result@, failures: self.failures@ }
    }
}

/// What a search of the regions for the target comes to.
///
/// Where a region could not be opened, the result is the message of the
/// first such region's failure, and the failures are those met before it.
/// Else the result shows the items of all regions, in the order of the
/// regions, of their chunks and of the entities in each chunk.
pub open spec fn search_outcome(regions: Seq<Result<Region, SearchError>>, target: Seq<char>)
    -> SearchReportView {
    let scan = scanned(regions, target, regions.len() as int);
    SearchReportView {
        result: match scan.stopped {
            Some(error) => StructuredResultView::Error(error.text()),
            None => shown_items(scan.found.items),
        },
        failures: scan.found.failures,
    }
}

/// Whether every item of a sequence has the target as its identifier.
pub open spec fn all_have_target(items: Seq<FoundItemView>, target: Seq<char>) -> bool {
    forall|k: int| 0 <= k < items.len() ==> (#[trigger] items[k]).item_id == target
}

/// Every item that a search finds in a document has the target as its
/// identifier.
pub proof fn lemma_document_items_have_the_target(document: ChunkView, target: Seq<char>)
    ensures
        all_have_target(document_findings(document, target).items, target),
{
    match entity_list(document.fields, document.x, document.z) {
        Err(_) => {},
        Ok(entities) => {
            let records = item_records(entities, document.x, document.z, entities.len() as int);
            lemma_matches_have_the_target(records, target, records.len() as int);
        },
    }
}

/// Every item that a search finds in a sequence of chunks has the target
/// as its identifier.
pub proof fn lemma_chunks_items_have_the_target(
    chunks: Seq<Result<ChunkView, SearchError>>,
    target: Seq<char>,
    n: int,
)
    ensures
        all_have_target(chunks_findings(chunks, target, n).items, target),
    decreases n,
{
    if n > 0 {
        lemma_chunks_items_have_the_target(chunks, target, n - 1);
        match chunks[n - 1] {
            Err(_) => {},
            Ok(document) => {
                lemma_document_items_have_the_target(document, target);
            },
        }
    }
}

/// Every item that a search finds in a sequence of regions has the target
/// as its identifier.
pub proof fn lemma_scanned_items_have_the_target(
    regions: Seq<Result<Region, SearchError>>,
    target: Seq<char>,
    n: int,
)
    ensures
        all_have_target(scanned(regions, target, n).found.items, target),
    decreases n,
{
    if n > 0 {
        lemma_scanned_items_have_the_target(regions, target, n - 1);
        match regions[n - 1] {
            Err(_) => {},
            Ok(region) => {
                lemma_chunks_items_have_the_target(
                    region.chunks(),
                    target,
                    region.chunks().len() as int,
                );
            },
        }
    }
}

/// A search that has stopped stays as it is.
proof fn lemma_scan_stays_stopped(
    regions: Seq<Result<Region, SearchError>>,
    target: Seq<char>,
    from: int,
    to: int,
)
    requires
        from <= to,
        scanned(regions, target, from).stopped is Some,
    ensures
        scanned(regions, target, to) == scanned(regions, target, from),
    decreases to - from,
{
    if from < to {
        lemma_scan_stays_stopped(regions, target, from, to - 1);
    }
}

/// The models of two sequences of items, one after the other.
proof fn lemma_items_view_add(a: Seq<FoundItem>, b: Seq<FoundItem>)
    ensures
        items_view(a + b) == items_view(a) + items_view(b),
{
    assert(items_view(a + b) =~= items_view(a) + items_view(b));
}

/// Searches one document and adds what it finds.
fn scan_document(
    document: &Chunk,
    target: &str,
    found: &mut Vec<FoundItem>,
    failures: &mut Vec<SearchError>,
)
    ensures
        items_view(final(found)@) == items_view(old(found)@) + document_findings(
            document@,
            target@,
        ).items,
        final(failures)@ == old(failures)@ + document_findings(document@, target@).failures,
{
    match entities_of(document) {
        Err(error) => {
            failures.push(error);
            proof {
                assert(items_view(found@) =~= items_view(old(found)@) + Seq::empty());
                assert(failures@ =~= old(failures)@ + seq![error]);
            }
        },
        Ok(entities) => {
            let matches = find(&entities.records, target);
            let mut entity_failures = entities.failures;
            let mut match_failures = matches.failures;
            proof {
                assert(failures@ + entity_failures@ + match_failures@ =~= failures@ + (
                entity_failures@ + match_failures@));
            }
            failures.append(&mut entity_failures);
            failures.append(&mut match_failures);
            match matches.result {
                MatchResult::Items(mut items) => {
                    proof {
                        lemma_items_view_add(found@, items@);
                    }
                    found.append(&mut items);
                },
                MatchResult::NoMatch => {
                    proof {
                        assert(items_view(found@) =~= items_view(found@) + Seq::empty());
                    }
                },
            }
        },
    }
}

/// Searches the chunks of one region and adds what it finds.
fn scan_region(
    region: &Region,
    target: &str,
    found: &mut Vec<FoundItem>,
    failures: &mut Vec<SearchError>,
)
    ensures
        items_view(final(found)@) == items_view(old(found)@) + region_findings(
            *region,
            target@,
        ).items,
        final(failures)@ == old(failures)@ + region_findings(*region, target@).failures,
{
    let chunks = region.all_chunks();
    let ghost all = chunks@;
    let ghost views = region.chunks();
    proof {
        assert(items_view(found@) =~= items_view(found@) + Seq::empty());
        assert(failures@ =~= failures@ + Seq::empty());
    }
    for chunk in it: chunks
        invariant
            it.seq() == all,
            views == chunk_results_view(all),
            items_view(found@) == items_view(old(found)@) + chunks_findings(
                views,
                target@,
                it.index() as int,
            ).items,
            failures@ == old(failures)@ + chunks_findings(
                views,
                target@,
                it.index() as int,
            ).failures,
    {
        let ghost before = chunks_findings(views, target@, it.index() as int);
        let ghost after = chunks_findings(views, target@, it.index() + 1);
        match chunk {
            Err(error) => {
                failures.push(error);
                proof {
                    assert(views[it.index() as int] == Err::<ChunkView, _>(error));
                    assert(failures@ =~= old(failures)@ + after.failures);
                }
            },
            Ok(document) => {
                proof {
                    assert(views[it.index() as int] == Ok::<_, SearchError>(document@));
                }
                scan_document(&document, target, found, failures);
                proof {
                    let here = document_findings(document@, target@);
                    assert(items_view(found@) =~= items_view(old(found)@) + (before.items
                        + here.items));
                    assert(failures@ =~= old(failures)@ + (before.failures + here.failures));
                }
            },
        }
    }
}

/// Searches the regions for the items with the given identifier.
///
/// The identifier is matched as it is: see [`qualify_item_id`]. A region
/// that could not be opened ends the search, and its failure is the result.
/// A chunk that does not decode, a document without entity list, an item
/// entity without identifier and a match without position each add a
/// failure to the report, and the search goes on.
pub fn search_item_by_id(search_str: &str, regions: &Vec<Result<Region, SearchError>>) -> (report:
    SearchReport)
    ensures
        report@ == search_outcome(regions@, search_str@),
        report.result matches StructuredResult::FoundItems(items) ==> items@.len() > 0
            && forall|k: int|
            0 <= k < items@.len() ==> (#[trigger] items@[k]).item_id@ == search_str@,
{
    let mut found: Vec<FoundItem> = Vec::new();
    let mut failures: Vec<SearchError> = Vec::new();
    let mut i: usize = 0;
    proof {
        assert(items_view(found@) =~= Seq::empty());
    }
    while i < regions.len()
        invariant
            i <= regions@.len(),
            scanned(regions@, search_str@, i as int).stopped is None,
            items_view(found@) == scanned(regions@, search_str@, i as int).found.items,
            failures@ == scanned(regions@, search_str@, i as int).found.failures,
        decreases regions@.len() - i,
    {
        match &regions[i] {
            Err(error) => {
                proof {
                    lemma_scan_stays_stopped(
                        regions@,
                        search_str@,
                        i + 1,
                        regions@.len() as int,
                    );
                }
                return SearchReport { result: StructuredResult::err(error), failures };
            },
            Ok(region) => {
                scan_region(region, search_str, &mut found, &mut failures);
            },
        }
        i = i + 1;
    }
    let ghost found_items = items_view(found@);
    let result = StructuredResult::found_items(found);
    proof {
        lemma_scanned_items_have_the_target(regions@, search_str@, regions@.len() as int);
        if result is FoundItems {
            let items = result->FoundItems_0;
            assert(items_view(items@) == found_items);
            assert forall|k: int| 0 <= k < items@.len() implies (#[trigger] items@[k]).item_id@
                == search_str@ by {
                assert(items_view(items@)[k].item_id == search_str@);
            }
        }
    }
    SearchReport { result, failures }
}

/// A search of one region whose location table is zero in every entry
/// finds nothing and meets no failure, whatever the target.
pub proof fn lemma_empty_region_yields_no_result(region: Region, target: Seq<char>)
    requires
        region.wf(),
        forall|i: int| 0 <= i < SLOTS ==> #[trigger] region.table()[i] == (0u32, 0u32),
    ensures
        search_outcome(seq![Ok(region)], target) == (SearchReportView {
            result: StructuredResultView::NoResult,
            failures: Seq::empty(),
        }),
{
    lemma_empty_region_has_no_chunks(region);
    let regions = seq![Ok::<Region, SearchError>(region)];
    reveal_with_fuel(scanned, 2);
    let scan = scanned(regions, target, 1);
    assert(scan.found.items =~= Seq::empty());
    assert(scan.found.failures =~= Seq::empty());
}

} // verus!
