//! The accumulated catalog: the entries of all pages fetched so far, each id
//! once, in the order in which they were first seen.

use crate::pokemon::{Entry, Pokemon};
use vstd::prelude::*;

verus! {

/// Whether some entry of `catalog` has this id.
pub open spec fn has_id(catalog: Seq<Entry>, id: nat) -> bool {
    exists|i: int| 0 <= i < catalog.len() && (#[trigger] catalog[i]).id == id
}

/// No two entries of `catalog` share an id.
pub open spec fn distinct_ids(catalog: Seq<Entry>) -> bool {
    forall|i: int, j: int|
        0 <= i < j < catalog.len() ==> (#[trigger] catalog[i]).id != (#[trigger] catalog[j]).id
}

/// `catalog` after `page` has been merged into it: the entries of `page` are
/// taken in their order, and each is put at the end unless its id is already
/// there.
pub open spec fn merge(catalog: Seq<Entry>, page: Seq<Entry>) -> Seq<Entry>
    decreases page.len(),
{
    if page.len() == 0 {
        catalog
    } else {
        let merged = merge(catalog, page.drop_last());
        if has_id(merged, page.last().id) {
            merged
        } else {
            merged.push(page.last())
        }
    }
}

/// Merging only adds at the end: what was in the catalog stays where it was.
pub proof fn lemma_merge_keeps_positions(catalog: Seq<Entry>, page: Seq<Entry>)
    ensures
        catalog.is_prefix_of(merge(catalog, page)),
    decreases page.len(),
{
    if page.len() > 0 {
        lemma_merge_keeps_positions(catalog, page.drop_last());
    }
}

/// The ids after a merge are those of the catalog and those of the page.
pub proof fn lemma_merge_ids(catalog: Seq<Entry>, page: Seq<Entry>, id: nat)
    ensures
        has_id(merge(catalog, page), id) <==> has_id(catalog, id) || has_id(page, id),
    decreases page.len(),
{
    if page.len() > 0 {
        let front = page.drop_last();
        let last = page.last();
        let merged = merge(catalog, front);
        lemma_merge_ids(catalog, front, id);
        if has_id(page, id) {
            let i = choose|i: int| 0 <= i < page.len() && (#[trigger] page[i]).id == id;
            if i < front.len() {
                assert(front[i].id == id);
            }
        }
        if has_id(front, id) {
            let i = choose|i: int| 0 <= i < front.len() && (#[trigger] front[i]).id == id;
            assert(page[i].id == id);
        }
        if last.id == id {
            assert(page[page.len() - 1].id == id);
        }
        if !has_id(merged, last.id) {
            let after = merged.push(last);
            assert(after[merged.len() as int].id == last.id);
            if has_id(merged, id) {
                let i = choose|i: int| 0 <= i < merged.len() && (#[trigger] merged[i]).id == id;
                assert(after[i].id == id);
            }
            if has_id(after, id) {
                let i = choose|i: int| 0 <= i < after.len() && (#[trigger] after[i]).id == id;
                if i < merged.len() {
                    assert(merged[i].id == id);
                }
            }
        }
    }
}

/// A catalog without a repeated id has none after a merge either.
pub proof fn lemma_merge_keeps_ids_distinct(catalog: Seq<Entry>, page: Seq<Entry>)
    requires
        distinct_ids(catalog),
    ensures
        distinct_ids(merge(catalog, page)),
    decreases page.len(),
{
    if page.len() > 0 {
        lemma_merge_keeps_ids_distinct(catalog, page.drop_last());
    }
}

/// Merging a page whose ids are all in the catalog changes nothing.
pub proof fn lemma_merge_known(catalog: Seq<Entry>, page: Seq<Entry>)
    requires
        forall|i: int| 0 <= i < page.len() ==> has_id(catalog, (#[trigger] page[i]).id),
    ensures
        merge(catalog, page) == catalog,
    decreases page.len(),
{
    if page.len() > 0 {
        let front = page.drop_last();
        assert forall|i: int| 0 <= i < front.len() implies has_id(
            catalog,
            (#[trigger] front[i]).id,
        ) by {
            assert(front[i] == page[i]);
        }
        lemma_merge_known(catalog, front);
        assert(has_id(catalog, page[page.len() - 1].id));
    }
}

/// Merging the same page a second time changes nothing.
pub proof fn lemma_merge_idempotent(catalog: Seq<Entry>, page: Seq<Entry>)
    ensures
        merge(merge(catalog, page), page) == merge(catalog, page),
{
    let once = merge(catalog, page);
    assert forall|i: int| 0 <= i < page.len() implies has_id(once, (#[trigger] page[i]).id) by {
        lemma_merge_ids(catalog, page, page[i].id);
    }
    lemma_merge_known(once, page);
}

/// Whether some entry of `catalog` has this id.
pub fn contains_id(catalog: &Vec<Pokemon>, id: u32) -> (found: bool)
    ensures
        found == has_id(catalog.deep_view(), id as nat),
{
    let mut i: usize = 0;
    while i < catalog.len()
        invariant
            i <= catalog@.len(),
            forall|j: int| 0 <= j < i ==> (#[trigger] catalog.deep_view()[j]).id != id,
        decreases catalog@.len() - i,
    {
        if catalog[i].id == id {
            assert(catalog.deep_view()[i as int].id == id);
            return true;
        }
        i = i + 1;
    }
    false
}

/// Merges `page` into `catalog`: each entry of `page`, in order, is put at
/// the end of `catalog` unless its id is already there; such an entry is
/// dropped.
pub fn merge_page(catalog: &mut Vec<Pokemon>, page: Vec<Pokemon>)
    ensures
        final(catalog).deep_view() == merge(old(catalog).deep_view(), page.deep_view()),
{
    let ghost start = catalog.deep_view();
    let ghost incoming = page.deep_view();
    for entry in each: page
        invariant
            each.seq() == page@,
            incoming == page.deep_view(),
            catalog.deep_view() == merge(start, incoming.take(each.index() as int)),
    {
        let ghost seen = incoming.take(each.index() as int);
        let ghost before = catalog.deep_view();
        assert(incoming.take(each.index() + 1).drop_last() =~= seen);
        assert(incoming.take(each.index() + 1).last() == entry@);
        if !contains_id(catalog, entry.id) {
            catalog.push(entry);
            assert(catalog.deep_view() =~= before.push(entry@));
        }
    }
    assert(incoming.take(incoming.len() as int) =~= incoming);
}

} // verus!
