//! Paging through the responses of a tenant.

use vstd::prelude::*;

use crate::store::model::{ListQuery, StoreState, StoredResponse};
use crate::store::sqlite::ResponseRow;
use crate::store::types::{Order, PageView, ResponseView, StoreErrorView};

verus! {

/// What a response is ordered by.
pub open spec fn place_of(record: ResponseView) -> (i64, Seq<char>) {
    (record.created_at, record.id)
}

/// Whether a page is the answer to a list request.
pub open spec fn answers_page(
    state: StoreState,
    tenant_id: Seq<char>,
    cursor: Option<Seq<char>>,
    limit: u32,
    order: Order,
    page: PageView,
) -> bool {
    match crate::store::sqlite::list_query(tenant_id, cursor, limit, order) {
        Err(_) => false,
        Ok(query) => exists|rows: Seq<ResponseRow>| #[trigger]
            crate::store::sqlite::answers_list(state, query, rows) && crate::store::sqlite::page_reading(
                rows,
                crate::store::types::clamped_limit(limit) as nat,
            ) == Ok::<PageView, StoreErrorView>(page),
    }
}

/// The cursor with which the page of the given number is asked for.
pub open spec fn cursor_into(pages: Seq<PageView>, k: int) -> Option<Seq<char>> {
    if k == 0 {
        None
    } else {
        pages[k - 1].next_cursor
    }
}

/// Whether pages are listed one after the other, each from the cursor of the one
/// before, until there is no more.
pub open spec fn is_walk(
    state: StoreState,
    tenant_id: Seq<char>,
    limit: u32,
    order: Order,
    pages: Seq<PageView>,
) -> bool {
    &&& pages.len() > 0
    &&& forall|k: int|
        0 <= k < pages.len() ==> answers_page(
            state,
            tenant_id,
            cursor_into(pages, k),
            limit,
            order,
            #[trigger] pages[k],
        )
    &&& forall|k: int| 0 <= k < pages.len() ==> (#[trigger] pages[k]).has_more == (k + 1 < pages.len())
}

/// The responses of several pages, in order.
pub open spec fn walked(pages: Seq<PageView>) -> Seq<ResponseView>
    decreases pages.len(),
{
    if pages.len() == 0 {
        Seq::empty()
    } else {
        walked(pages.drop_last()) + pages.last().data
    }
}

/// Whether responses are in strict order.
pub open spec fn in_order(order: Order, records: Seq<ResponseView>) -> bool {
    forall|i: int, j: int|
        0 <= i < j < records.len() ==> crate::store::model::listed_before(
            order,
            place_of(#[trigger] records[i]),
            place_of(#[trigger] records[j]),
        )
}

/// Whether each response is one that the tenant has stored.
pub open spec fn all_stored(state: StoreState, tenant_id: Seq<char>, records: Seq<ResponseView>) -> bool {
    forall|i: int|
        0 <= i < records.len() ==> is_stored(state, tenant_id, #[trigger] records[i])
}

/// Whether a response is what the tenant's row of that ID is read as.
pub open spec fn is_stored(state: StoreState, tenant_id: Seq<char>, record: ResponseView) -> bool {
    crate::store::model::found_response(state, tenant_id, record.id) matches Some(row) && row.created_at
        == record.created_at && crate::store::sqlite::decoded_response(row) == Ok::<ResponseView, StoreErrorView>(record)
}

/// Whether a response of the given ID is among some.
pub open spec fn has_id(records: Seq<ResponseView>, id: Seq<char>) -> bool {
    exists|i: int| 0 <= i < records.len() && (#[trigger] records[i]).id == id
}

/// Whether every row of the tenant from a place on is among some responses or,
/// where there is more, comes after the last of them.
spec fn complete_from(
    state: StoreState,
    tenant_id: Seq<char>,
    order: Order,
    start: Option<(i64, Seq<char>)>,
    records: Seq<ResponseView>,
    has_more: bool,
) -> bool {
    forall|id: Seq<char>|
        (crate::store::model::found_response(state, tenant_id, id) matches Some(row) && (start matches Some(place)
            ==> crate::store::model::listed_before(order, place, row.place()))) ==> (#[trigger] has_id(records, id) || (
        has_more && crate::store::model::listed_before(
            order,
            place_of(records.last()),
            crate::store::model::found_response(state, tenant_id, id)->0.place(),
        )))
}

proof fn lemma_readings(rows: Seq<ResponseRow>)
    requires
        crate::store::sqlite::readings(rows) is Ok,
    ensures
        crate::store::sqlite::readings(rows)->Ok_0.len() == rows.len(),
        forall|i: int|
            0 <= i < rows.len() ==> (#[trigger] rows[i]).reading() == Ok::<ResponseView, StoreErrorView>(
                crate::store::sqlite::readings(rows)->Ok_0[i],
            ),
    decreases rows.len(),
{
    if rows.len() > 0 {
        lemma_readings(rows.drop_last());
        assert forall|i: int| 0 <= i < rows.len() implies (#[trigger] rows[i]).reading() == Ok::<
            ResponseView,
            StoreErrorView,
        >(crate::store::sqlite::readings(rows)->Ok_0[i]) by {
            if i < rows.len() - 1 {
                assert(rows.drop_last()[i] == rows[i]);
            }
        }
    }
}

/// What one page shows of the tables.
proof fn lemma_page(
    state: StoreState,
    tenant_id: Seq<char>,
    cursor: Option<Seq<char>>,
    limit: u32,
    order: Order,
    page: PageView,
    start: Option<(i64, Seq<char>)>,
)
    requires
        state.well_formed(),
        answers_page(state, tenant_id, cursor, limit, order, page),
        crate::store::sqlite::list_query(tenant_id, cursor, limit, order)->Ok_0.start == start,
    ensures
        in_order(order, page.data),
        all_stored(state, tenant_id, page.data),
        start matches Some(place) ==> forall|i: int|
            0 <= i < page.data.len() ==> crate::store::model::listed_before(
                order,
                place,
                place_of(#[trigger] page.data[i]),
            ),
        complete_from(state, tenant_id, order, start, page.data, page.has_more),
        page.has_more ==> page.data.len() > 0 && page.next_cursor == Some(
            crate::store::cursor::cursor_text(page.data.last().created_at, page.data.last().id),
        ),
        page.data.len() <= crate::store::types::clamped_limit(limit),
        !page.has_more ==> page.next_cursor is None,
{
    let query = crate::store::sqlite::list_query(tenant_id, cursor, limit, order)->Ok_0;
    let size = crate::store::types::clamped_limit(limit) as nat;
    let rows = choose|rows: Seq<ResponseRow>| #[trigger]
        crate::store::sqlite::answers_list(state, query, rows) && crate::store::sqlite::page_reading(rows, size) == Ok::<
            PageView,
            StoreErrorView,
        >(page);
    let stored = choose|stored: Seq<StoredResponse>| #[trigger]
        crate::store::model::lists(state, query, stored) && stored.len() == rows.len() && forall|i: int|
            0 <= i < rows.len() ==> (#[trigger] rows[i]).shows(stored[i]);
    let kept = if rows.len() > size { rows.take(size as int) } else { rows };
    lemma_readings(kept);
    let data = page.data;
    assert forall|i: int| 0 <= i < data.len() implies #[trigger] is_stored(state, tenant_id, data[i]) && place_of(data[i])
        == stored[i].place() by {
        assert(kept[i] == rows[i]);
        assert(rows[i].shows(stored[i]));
        assert(kept[i].reading() == Ok::<ResponseView, StoreErrorView>(data[i]));
        assert(crate::store::model::matches_query(state, query, stored[i]));
    }
    assert forall|i: int, j: int| 0 <= i < j < data.len() implies crate::store::model::listed_before(
        order,
        place_of(#[trigger] data[i]),
        place_of(#[trigger] data[j]),
    ) by {
        assert(is_stored(state, tenant_id, data[i]) && is_stored(state, tenant_id, data[j]));
        assert(crate::store::model::listed_before(order, stored[i].place(), stored[j].place()));
    }
    if start is Some {
        assert forall|i: int| 0 <= i < data.len() implies crate::store::model::listed_before(
            order,
            start->0,
            place_of(#[trigger] data[i]),
        ) by {
            assert(is_stored(state, tenant_id, data[i]));
            assert(crate::store::model::matches_query(state, query, stored[i]));
        }
    }
    assert forall|id: Seq<char>|
        (crate::store::model::found_response(state, tenant_id, id) matches Some(row) && (start matches Some(place)
            ==> crate::store::model::listed_before(order, place, row.place()))) implies (#[trigger] has_id(data, id) || (
    page.has_more && crate::store::model::listed_before(
        order,
        place_of(data.last()),
        crate::store::model::found_response(state, tenant_id, id)->0.place(),
    ))) by {
        let row = crate::store::model::found_response(state, tenant_id, id)->0;
        assert(state.responses.contains_key((tenant_id, id)));
        assert(row.tenant_id == tenant_id && row.id == id);
        assert(crate::store::model::matches_query(state, query, row));
        if stored.contains(row) {
            let i = choose|i: int| 0 <= i < stored.len() && stored[i] == row;
            if i < data.len() {
                assert(is_stored(state, tenant_id, data[i]));
                assert(data[i].id == id);
            } else {
                assert(page.has_more);
                let last = data.len() - 1;
                assert(is_stored(state, tenant_id, data[last]));
                assert(crate::store::model::listed_before(order, stored[last].place(), stored[i].place()));
            }
        } else {
            let last = data.len() - 1;
            assert(is_stored(state, tenant_id, data[last]));
            assert(crate::store::model::listed_before(order, stored[last].place(), row.place()));
        }
    }
}

/// What the first pages of a walk show of the tables.
proof fn lemma_walk_so_far(
    state: StoreState,
    tenant_id: Seq<char>,
    limit: u32,
    order: Order,
    pages: Seq<PageView>,
    m: int,
)
    requires
        state.well_formed(),
        is_walk(state, tenant_id, limit, order, pages),
        0 < m <= pages.len(),
    ensures
        in_order(order, walked(pages.take(m))),
        all_stored(state, tenant_id, walked(pages.take(m))),
        complete_from(state, tenant_id, order, None, walked(pages.take(m)), m < pages.len()),
        m < pages.len() ==> walked(pages.take(m)).len() > 0 && pages[m - 1].data.len() > 0 && walked(
            pages.take(m),
        ).last() == pages[m - 1].data.last() && pages[m - 1].next_cursor == Some(
            crate::store::cursor::cursor_text(pages[m - 1].data.last().created_at, pages[m - 1].data.last().id),
        ),
    decreases m,
{
    let page = pages[m - 1];
    let so_far = walked(pages.take(m));
    assert(page.has_more == (m < pages.len()));
    assert(pages.take(m).last() == page);
    if m == 1 {
        assert(answers_page(state, tenant_id, cursor_into(pages, 0), limit, order, page));
        lemma_page(state, tenant_id, None, limit, order, page, None);
        assert(pages.take(m).drop_last() =~= Seq::<PageView>::empty());
        assert(walked(pages.take(m).drop_last()) =~= Seq::<ResponseView>::empty());
        assert(so_far =~= page.data);
    } else {
        lemma_walk_so_far(state, tenant_id, limit, order, pages, m - 1);
        let earlier = walked(pages.take(m - 1));
        assert(pages.take(m).drop_last() =~= pages.take(m - 1));
        assert(so_far == earlier + page.data);
        let last = pages[m - 2].data.last();
        let start = place_of(last);
        crate::store::cursor::lemma_cursor_reads_back(last.created_at, last.id);
        assert(answers_page(state, tenant_id, cursor_into(pages, m - 1), limit, order, page));
        lemma_page(state, tenant_id, cursor_into(pages, m - 1), limit, order, page, Some(start));
        assert forall|i: int, j: int| 0 <= i < j < so_far.len() implies crate::store::model::listed_before(
            order,
            place_of(#[trigger] so_far[i]),
            place_of(#[trigger] so_far[j]),
        ) by {
            if j >= earlier.len() {
                let there = page.data[j - earlier.len()];
                if i < earlier.len() {
                    assert(crate::store::model::listed_before(order, start, place_of(there)));
                    if i < earlier.len() - 1 {
                        assert(crate::store::model::listed_before(
                            order,
                            place_of(earlier[i]),
                            place_of(earlier[earlier.len() - 1]),
                        ));
                        crate::store::model::lemma_listing_order_is_strict_and_total(
                            order,
                            place_of(earlier[i]),
                            start,
                            place_of(there),
                        );
                    }
                } else {
                    let here = page.data[i - earlier.len()];
                    assert(crate::store::model::listed_before(order, place_of(here), place_of(there)));
                }
            } else {
                assert(crate::store::model::listed_before(order, place_of(earlier[i]), place_of(earlier[j])));
            }
        }
        assert forall|i: int| 0 <= i < so_far.len() implies is_stored(state, tenant_id, #[trigger] so_far[i]) by {
            if i < earlier.len() {
                assert(is_stored(state, tenant_id, earlier[i]));
            } else {
                assert(is_stored(state, tenant_id, page.data[i - earlier.len()]));
            }
        }
        assert forall|id: Seq<char>| crate::store::model::found_response(state, tenant_id, id) is Some implies (
        #[trigger] has_id(so_far, id) || (m < pages.len() && crate::store::model::listed_before(
            order,
            place_of(so_far.last()),
            crate::store::model::found_response(state, tenant_id, id)->0.place(),
        ))) by {
            if has_id(earlier, id) {
                let i = choose|i: int| 0 <= i < earlier.len() && (#[trigger] earlier[i]).id == id;
                assert(so_far[i].id == id);
            } else {
                assert(has_id(page.data, id) || page.has_more);
                if has_id(page.data, id) {
                    let i = choose|i: int| 0 <= i < page.data.len() && (#[trigger] page.data[i]).id == id;
                    assert(so_far[earlier.len() + i].id == id);
                }
            }
        }
    }
}

/// Following the cursors from page to page, until there is no more, lists every
/// response that the tenant has stored, each exactly once, in the order asked
/// for, and no other.
pub proof fn lemma_walk_lists_everything_once(
    state: StoreState,
    tenant_id: Seq<char>,
    limit: u32,
    order: Order,
    pages: Seq<PageView>,
)
    requires
        state.well_formed(),
        is_walk(state, tenant_id, limit, order, pages),
    ensures
        in_order(order, walked(pages)),
        all_stored(state, tenant_id, walked(pages)),
        forall|id: Seq<char>|
            crate::store::model::found_response(state, tenant_id, id) is Some <==> #[trigger] has_id(
                walked(pages),
                id,
            ),
        forall|i: int, j: int|
            0 <= i < j < walked(pages).len() ==> (#[trigger] walked(pages)[i]).id != (#[trigger] walked(pages)[j]).id,
{
    let m = pages.len() as int;
    lemma_walk_so_far(state, tenant_id, limit, order, pages, m);
    assert(pages.take(m) =~= pages);
    let all = walked(pages);
    assert forall|id: Seq<char>| #[trigger] has_id(all, id) implies crate::store::model::found_response(
        state,
        tenant_id,
        id,
    ) is Some by {
        let i = choose|i: int| 0 <= i < all.len() && (#[trigger] all[i]).id == id;
        assert(is_stored(state, tenant_id, all[i]));
    }
    assert forall|i: int, j: int| 0 <= i < j < all.len() implies (#[trigger] all[i]).id != (#[trigger] all[j]).id by {
        assert(is_stored(state, tenant_id, all[i]) && is_stored(state, tenant_id, all[j]));
        assert(crate::store::model::listed_before(order, place_of(all[i]), place_of(all[j])));
        crate::store::model::lemma_listing_order_is_strict_and_total(
            order,
            place_of(all[i]),
            place_of(all[i]),
            place_of(all[i]),
        );
    }
}

/// A page holds at most as many responses as were asked for, and it has a cursor
/// for the next page exactly where there is one. That cursor names the last
/// response of the page.
pub proof fn lemma_page_fits(
    state: StoreState,
    tenant_id: Seq<char>,
    cursor: Option<Seq<char>>,
    limit: u32,
    order: Order,
    page: PageView,
)
    requires
        state.well_formed(),
        answers_page(state, tenant_id, cursor, limit, order, page),
    ensures
        page.data.len() <= crate::store::types::clamped_limit(limit),
        page.has_more <==> page.next_cursor is Some,
        page.next_cursor matches Some(text) ==> page.data.len() > 0 && crate::store::cursor::cursor_reading(text)
            == Ok::<(i64, Seq<char>), StoreErrorView>(place_of(page.data.last())),
{
    let start = crate::store::sqlite::list_query(tenant_id, cursor, limit, order)->Ok_0.start;
    lemma_page(state, tenant_id, cursor, limit, order, page, start);
    if page.has_more {
        crate::store::cursor::lemma_cursor_reads_back(page.data.last().created_at, page.data.last().id);
    }
}

/// The rows that a list query is about.
pub open spec fn matching(state: StoreState, query: ListQuery) -> Set<StoredResponse> {
    Set::new(|row: StoredResponse| crate::store::model::matches_query(state, query, row))
}

proof fn lemma_matching_is_finite(state: StoreState, query: ListQuery)
    requires
        state.well_formed(),
    ensures
        matching(state, query).finite(),
{
    vstd::map_lib::lemma_values_finite(state.responses);
    assert forall|row: StoredResponse| matching(state, query).contains(row) implies #[trigger] state.responses.values().contains(
        row,
    ) by {
        assert(state.responses.contains_key((row.tenant_id, row.id)));
    }
    vstd::set_lib::lemma_len_subset(matching(state, query), state.responses.values());
}

/// A page tells that there is more exactly where more rows match than it may
/// hold. Then it is full; else it holds every row that matches.
pub proof fn lemma_page_is_full_where_there_is_more(
    state: StoreState,
    tenant_id: Seq<char>,
    cursor: Option<Seq<char>>,
    limit: u32,
    order: Order,
    page: PageView,
)
    requires
        state.well_formed(),
        answers_page(state, tenant_id, cursor, limit, order, page),
    ensures
        ({
            let rows = matching(state, crate::store::sqlite::list_query(tenant_id, cursor, limit, order)->Ok_0);
            let size = crate::store::types::clamped_limit(limit);
            &&& rows.finite()
            &&& page.has_more <==> rows.len() > size
            &&& page.has_more ==> page.data.len() == size
            &&& !page.has_more ==> page.data.len() == rows.len()
        }),
{
    let query = crate::store::sqlite::list_query(tenant_id, cursor, limit, order)->Ok_0;
    let size = crate::store::types::clamped_limit(limit) as nat;
    let rows = choose|rows: Seq<ResponseRow>| #[trigger]
        crate::store::sqlite::answers_list(state, query, rows) && crate::store::sqlite::page_reading(rows, size) == Ok::<
            PageView,
            StoreErrorView,
        >(page);
    let stored = choose|stored: Seq<StoredResponse>| #[trigger]
        crate::store::model::lists(state, query, stored) && stored.len() == rows.len() && forall|i: int|
            0 <= i < rows.len() ==> (#[trigger] rows[i]).shows(stored[i]);
    lemma_readings(if rows.len() > size { rows.take(size as int) } else { rows });
    lemma_matching_is_finite(state, query);
    assert forall|i: int, j: int| 0 <= i < j < stored.len() implies stored[i] != stored[j] by {
        assert(crate::store::model::listed_before(order, stored[i].place(), stored[j].place()));
        crate::store::model::lemma_listing_order_is_strict_and_total(
            order,
            stored[i].place(),
            stored[i].place(),
            stored[i].place(),
        );
    }
    stored.unique_seq_to_set();
    assert forall|row: StoredResponse| #[trigger] stored.to_set().contains(row) implies matching(state, query).contains(
        row,
    ) by {
        let i = choose|i: int| 0 <= i < stored.len() && stored[i] == row;
        assert(crate::store::model::matches_query(state, query, stored[i]));
    }
    vstd::set_lib::lemma_len_subset(stored.to_set(), matching(state, query));
    if stored.len() <= size {
        assert forall|row: StoredResponse| #[trigger] matching(state, query).contains(row) implies stored.contains(
            row,
        ) by {
            assert(crate::store::model::matches_query(state, query, row));
        }
        assert(stored.to_set() =~= matching(state, query));
    }
}

/// The IDs of the responses that a tenant has stored.
pub open spec fn stored_ids(state: StoreState, tenant_id: Seq<char>) -> Set<Seq<char>> {
    Set::new(|id: Seq<char>| crate::store::model::found_response(state, tenant_id, id) is Some)
}

/// After a page that tells that there is more, the next one is not empty.
proof fn lemma_next_page_has_rows(
    state: StoreState,
    tenant_id: Seq<char>,
    cursor: Option<Seq<char>>,
    limit: u32,
    order: Order,
    page: PageView,
    next: PageView,
)
    requires
        state.well_formed(),
        answers_page(state, tenant_id, cursor, limit, order, page),
        page.has_more,
        answers_page(state, tenant_id, page.next_cursor, limit, order, next),
    ensures
        next.data.len() > 0,
{
    let query = crate::store::sqlite::list_query(tenant_id, cursor, limit, order)->Ok_0;
    let size = crate::store::types::clamped_limit(limit) as nat;
    lemma_page_fits(state, tenant_id, cursor, limit, order, page);
    lemma_page_is_full_where_there_is_more(state, tenant_id, cursor, limit, order, page);
    lemma_page_is_full_where_there_is_more(state, tenant_id, page.next_cursor, limit, order, next);
    lemma_page(state, tenant_id, cursor, limit, order, page, query.start);
    let next_query = crate::store::sqlite::list_query(tenant_id, page.next_cursor, limit, order)->Ok_0;
    let rows = choose|rows: Seq<ResponseRow>| #[trigger]
        crate::store::sqlite::answers_list(state, query, rows) && crate::store::sqlite::page_reading(rows, size) == Ok::<
            PageView,
            StoreErrorView,
        >(page);
    let stored = choose|stored: Seq<StoredResponse>| #[trigger]
        crate::store::model::lists(state, query, stored) && stored.len() == rows.len() && forall|i: int|
            0 <= i < rows.len() ==> (#[trigger] rows[i]).shows(stored[i]);
    lemma_readings(rows.take(size as int));
    let last = size as int - 1;
    let extra = stored[size as int];
    assert(rows.take(size as int)[last] == rows[last]);
    assert(rows[last].shows(stored[last]));
    assert(place_of(page.data[last]) == stored[last].place());
    assert(crate::store::model::listed_before(order, stored[last].place(), extra.place()));
    assert(crate::store::model::matches_query(state, query, extra));
    assert(crate::store::model::matches_query(state, next_query, extra));
    assert(matching(state, next_query).contains(extra));
    if matching(state, next_query).len() == 0 {
        assert(matching(state, next_query).is_empty());
    }
}

proof fn lemma_full_pages(
    state: StoreState,
    tenant_id: Seq<char>,
    limit: u32,
    order: Order,
    pages: Seq<PageView>,
    m: int,
)
    requires
        state.well_formed(),
        is_walk(state, tenant_id, limit, order, pages),
        0 <= m < pages.len(),
    ensures
        walked(pages.take(m)).len() == m * crate::store::types::clamped_limit(limit),
    decreases m,
{
    let size = crate::store::types::clamped_limit(limit) as int;
    if m > 0 {
        lemma_full_pages(state, tenant_id, limit, order, pages, m - 1);
        let page = pages[m - 1];
        assert(answers_page(state, tenant_id, cursor_into(pages, m - 1), limit, order, page));
        assert(page.has_more);
        lemma_page_is_full_where_there_is_more(state, tenant_id, cursor_into(pages, m - 1), limit, order, page);
        assert(pages.take(m).drop_last() =~= pages.take(m - 1));
        assert(pages.take(m).last() == page);
        assert((m - 1) * size + size == m * size) by (nonlinear_arith);
    } else {
        assert(m * size == 0) by (nonlinear_arith)
            requires
                m == 0,
        ;
    }
}

/// A tenant's responses take as many pages as they fill: every page but the last
/// is full, and the last is empty only where nothing is stored.
pub proof fn lemma_walk_takes_as_many_pages_as_needed(
    state: StoreState,
    tenant_id: Seq<char>,
    limit: u32,
    order: Order,
    pages: Seq<PageView>,
)
    requires
        state.well_formed(),
        is_walk(state, tenant_id, limit, order, pages),
    ensures
        stored_ids(state, tenant_id).finite(),
        walked(pages).len() == stored_ids(state, tenant_id).len(),
        stored_ids(state, tenant_id).len() <= pages.len() * crate::store::types::clamped_limit(limit),
        pages.len() > 1 ==> (pages.len() - 1) * crate::store::types::clamped_limit(limit) < stored_ids(
            state,
            tenant_id,
        ).len(),
        forall|k: int|
            0 <= k < pages.len() - 1 ==> (#[trigger] pages[k]).data.len() == crate::store::types::clamped_limit(limit),
{
    let size = crate::store::types::clamped_limit(limit) as int;
    let all = walked(pages);
    let ids = all.map_values(|record: ResponseView| record.id);
    lemma_walk_lists_everything_once(state, tenant_id, limit, order, pages);
    assert forall|i: int, j: int| 0 <= i < j < ids.len() implies ids[i] != ids[j] by {
        assert(all[i].id != all[j].id);
    }
    ids.unique_seq_to_set();
    vstd::seq_lib::seq_to_set_is_finite(ids);
    assert forall|id: Seq<char>| #[trigger] ids.to_set().contains(id) == stored_ids(state, tenant_id).contains(id) by {
        if ids.contains(id) {
            let i = choose|i: int| 0 <= i < ids.len() && ids[i] == id;
            assert(all[i].id == id);
            assert(has_id(all, id));
        }
        if has_id(all, id) {
            let i = choose|i: int| 0 <= i < all.len() && (#[trigger] all[i]).id == id;
            assert(ids[i] == id);
        }
    }
    assert(ids.to_set() =~= stored_ids(state, tenant_id));
    assert forall|k: int| 0 <= k < pages.len() - 1 implies (#[trigger] pages[k]).data.len() == size by {
        assert(answers_page(state, tenant_id, cursor_into(pages, k), limit, order, pages[k]));
        lemma_page_is_full_where_there_is_more(state, tenant_id, cursor_into(pages, k), limit, order, pages[k]);
    }
    let last = pages.len() - 1;
    lemma_full_pages(state, tenant_id, limit, order, pages, last);
    assert(pages.take(last) =~= pages.drop_last());
    assert(answers_page(state, tenant_id, cursor_into(pages, last), limit, order, pages[last]));
    lemma_page_fits(state, tenant_id, cursor_into(pages, last), limit, order, pages[last]);
    assert(last * size + size == pages.len() * size) by (nonlinear_arith)
        requires
            last == pages.len() - 1,
    ;
    if pages.len() > 1 {
        let before = pages[last - 1];
        assert(answers_page(state, tenant_id, cursor_into(pages, last - 1), limit, order, before));
        assert(before.has_more);
        lemma_next_page_has_rows(
            state,
            tenant_id,
            cursor_into(pages, last - 1),
            limit,
            order,
            before,
            pages[last],
        );
    }
}

/// A page never holds more responses than were asked for, where at least one was,
/// and never more than a hundred. It is as long as the rows that match allow.
pub proof fn lemma_page_is_no_longer_than_asked_for(
    state: StoreState,
    tenant_id: Seq<char>,
    cursor: Option<Seq<char>>,
    limit: u32,
    order: Order,
    page: PageView,
)
    requires
        state.well_formed(),
        answers_page(state, tenant_id, cursor, limit, order, page),
    ensures
        page.data.len() <= 100,
        limit >= 1 ==> page.data.len() <= limit,
        page.has_more && 1 <= limit <= 100 ==> page.data.len() == limit,
        page.has_more && limit > 100 ==> page.data.len() == 100,
        page.has_more && limit == 0 ==> page.data.len() == 1,
        ({
            let rows = matching(state, crate::store::sqlite::list_query(tenant_id, cursor, limit, order)->Ok_0);
            1 <= limit <= 100 ==> (page.has_more <==> rows.len() > limit)
        }),
{
    lemma_page_is_full_where_there_is_more(state, tenant_id, cursor, limit, order, page);
}

} // verus!
