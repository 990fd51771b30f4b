//! The order of hits, the way through them, and the order in which pages are searched.
use crate::search::{
    all_matches, first_from_page, last_to_page, matches_are_distinct, next_match, page_counts,
    page_matches, pages_sorted, pages_within, search_order, SearchCursor, SearchPage,
    SearchPageResult, SearchView,
};
use vstd::prelude::*;

verus! {

/// Whether a hit stands before another one in the document.
pub open spec fn comes_before(a: SearchCursor, b: SearchCursor) -> bool {
    a.page_index < b.page_index || (a.page_index == b.page_index && a.match_index < b.match_index)
}

/// The hits are listed in the order of the document.
pub proof fn hits_are_in_order(pages: Seq<SearchPage>, i: int, j: int)
    requires
        pages_sorted(pages),
        0 <= i < j < all_matches(pages).len(),
    ensures
        comes_before(all_matches(pages)[i], all_matches(pages)[j]),
    decreases pages.len(),
{
    if pages.len() > 0 {
        let front = pages.drop_last();
        let last = pages.last();
        assert(pages_sorted(front)) by {
            assert forall|a: int, b: int|
                #![trigger front[a], front[b]]
                0 <= a < b < front.len() implies front[a].page_index < front[b].page_index by {
                assert(pages[a].page_index < pages[b].page_index);
            }
        }
        let before = all_matches(front);
        let own = page_matches(last);
        let all = all_matches(pages);
        if j < before.len() {
            hits_are_in_order(front, i, j);
            assert(all[i] == before[i] && all[j] == before[j]);
        } else if i >= before.len() {
            assert(all[i] == own[i - before.len()]);
            assert(all[j] == own[j - before.len()]);
        } else {
            matches_are_distinct(front);
            assert(before.contains(before[i]));
            let k = choose|k: int|
                0 <= k < front.len() && (#[trigger] front[k]).page_index == before[i].page_index
                    && before[i].match_index < front[k].match_count;
            assert(pages[k].page_index < pages[pages.len() - 1].page_index);
            assert(all[i] == before[i]);
            assert(all[j] == own[j - before.len()]);
        }
    }
}

/// There is a hit exactly for each number below the count of its page.
pub proof fn hits_are_those_counted(pages: Seq<SearchPage>, cursor: SearchCursor)
    requires
        pages_sorted(pages),
    ensures
        all_matches(pages).contains(cursor) == exists|i: int|
            0 <= i < pages.len() && (#[trigger] pages[i]).page_index == cursor.page_index
                && cursor.match_index < pages[i].match_count,
    decreases pages.len(),
{
    matches_are_distinct(pages);
    if exists|i: int|
        0 <= i < pages.len() && (#[trigger] pages[i]).page_index == cursor.page_index
            && cursor.match_index < pages[i].match_count {
        let i = choose|i: int|
            0 <= i < pages.len() && (#[trigger] pages[i]).page_index == cursor.page_index
                && cursor.match_index < pages[i].match_count;
        page_hits_are_listed(pages, i, cursor.match_index as int);
    }
}

proof fn page_hits_are_listed(pages: Seq<SearchPage>, i: int, number: int)
    requires
        0 <= i < pages.len(),
        0 <= number < pages[i].match_count,
    ensures
        all_matches(pages).contains(
            SearchCursor { page_index: pages[i].page_index, match_index: number as usize },
        ),
    decreases pages.len(),
{
    let cursor = SearchCursor { page_index: pages[i].page_index, match_index: number as usize };
    let front = pages.drop_last();
    let before = all_matches(front);
    let own = page_matches(pages.last());
    let all = all_matches(pages);
    if i < front.len() {
        assert(front[i] == pages[i]);
        page_hits_are_listed(front, i, number);
        let at = choose|at: int| 0 <= at < before.len() && before[at] == cursor;
        assert(all[at] == cursor);
    } else {
        assert(own[number] == cursor);
        assert(all[before.len() + number] == cursor);
    }
}

/// Where the search for a page from the front ends.
proof fn first_from_page_is(matches: Seq<SearchCursor>, page: usize, from: int)
    requires
        0 <= from <= matches.len(),
    ensures
        from <= first_from_page(matches, page, from) <= matches.len(),
        first_from_page(matches, page, from) < matches.len() ==> matches[first_from_page(
            matches,
            page,
            from,
        )].page_index >= page,
        forall|k: int|
            from <= k < first_from_page(matches, page, from) ==> (#[trigger] matches[k]).page_index
                < page,
    decreases matches.len() - from,
{
    if from < matches.len() && matches[from].page_index < page {
        first_from_page_is(matches, page, from + 1);
    }
}

/// Where the search for a page from the back ends.
proof fn last_to_page_is(matches: Seq<SearchCursor>, page: usize, until: int)
    requires
        0 <= until <= matches.len(),
    ensures
        -1 <= last_to_page(matches, page, until) < until || until == 0 && last_to_page(
            matches,
            page,
            until,
        ) == -1,
        last_to_page(matches, page, until) >= 0 ==> matches[last_to_page(
            matches,
            page,
            until,
        )].page_index <= page,
        forall|k: int|
            last_to_page(matches, page, until) < k < until ==> (#[trigger] matches[k]).page_index
                > page,
    decreases until,
{
    if until > 0 && matches[until - 1].page_index > page {
        last_to_page_is(matches, page, until - 1);
    }
}

/// There is a next hit exactly if there is any, and it is one of the document's.
pub proof fn the_next_hit_is_a_hit(
    pages: Seq<SearchPage>,
    selected: Option<SearchCursor>,
    current_page: usize,
    forward: bool,
)
    ensures
        (next_match(all_matches(pages), selected, current_page, forward) is Some) == (all_matches(
            pages,
        ).len() > 0),
        next_match(all_matches(pages), selected, current_page, forward) is Some ==> all_matches(
            pages,
        ).contains(next_match(all_matches(pages), selected, current_page, forward)->0),
{
    let matches = all_matches(pages);
    if matches.len() > 0 {
        first_from_page_is(matches, current_page, 0);
        last_to_page_is(matches, current_page, matches.len() as int);
        if selected is Some && matches.contains(selected->0) {
            let position = matches.index_of(selected->0);
            assert(0 <= (position + 1) % (matches.len() as int) < matches.len()) by {
                vstd::arithmetic::div_mod::lemma_mod_bound(position + 1, matches.len() as int);
            }
            assert(matches.contains(matches[(position + 1) % (matches.len() as int)]));
        }
        assert(matches.contains(matches.first()));
        assert(matches.contains(matches.last()));
    }
}

/// Going backward without a selected hit leads to the last hit on the current page or in front
/// of it, as long as there is one, and else to the last hit of the document.
pub proof fn backward_starts_at_or_before_the_page(
    pages: Seq<SearchPage>,
    selected: Option<SearchCursor>,
    current_page: usize,
    other: SearchCursor,
)
    requires
        pages_sorted(pages),
        selected is None || !all_matches(pages).contains(selected->0),
        all_matches(pages).contains(other),
    ensures
        ({
            let found = next_match(all_matches(pages), selected, current_page, false)->0;
            &&& other.page_index <= current_page ==> found.page_index <= current_page
            &&& other.page_index <= current_page ==> !comes_before(found, other)
            &&& found.page_index > current_page ==> !comes_before(found, other)
        }),
{
    let matches = all_matches(pages);
    let count = matches.len() as int;
    last_to_page_is(matches, current_page, count);
    let at = choose|at: int| 0 <= at < count && matches[at] == other;
    let found = last_to_page(matches, current_page, count);
    let result = if found >= 0 { found } else { count - 1 };
    if at < result {
        hits_are_in_order(pages, at, result);
    }
    if result < at {
        assert(matches[at].page_index > current_page);
    }
}

/// Going forward without a selected hit leads to the first hit on the current page or behind it,
/// as long as there is one, and else to the first hit of the document.
pub proof fn forward_starts_at_or_behind_the_page(
    pages: Seq<SearchPage>,
    selected: Option<SearchCursor>,
    current_page: usize,
    other: SearchCursor,
)
    requires
        pages_sorted(pages),
        selected is None || !all_matches(pages).contains(selected->0),
        all_matches(pages).contains(other),
    ensures
        ({
            let found = next_match(all_matches(pages), selected, current_page, true)->0;
            &&& other.page_index >= current_page ==> found.page_index >= current_page
            &&& other.page_index >= current_page ==> !comes_before(other, found)
            &&& found.page_index < current_page ==> !comes_before(other, found)
        }),
{
    let matches = all_matches(pages);
    let count = matches.len() as int;
    first_from_page_is(matches, current_page, 0);
    let at = choose|at: int| 0 <= at < count && matches[at] == other;
    let found = first_from_page(matches, current_page, 0);
    let result = if found < count { found } else { 0 };
    if result < at {
        hits_are_in_order(pages, result, at);
    }
    if at < result {
        assert(matches[at].page_index < current_page);
    }
}

/// From a selected hit, forward leads to the next one: no hit stands between the two. Behind the
/// last hit comes the first.
pub proof fn forward_leads_to_the_next_hit(
    pages: Seq<SearchPage>,
    selected: SearchCursor,
    current_page: usize,
    other: SearchCursor,
)
    requires
        pages_sorted(pages),
        all_matches(pages).contains(selected),
        all_matches(pages).contains(other),
    ensures
        ({
            let found = next_match(all_matches(pages), Some(selected), current_page, true)->0;
            &&& comes_before(selected, other) ==> comes_before(selected, found) && !comes_before(
                other,
                found,
            )
            &&& !comes_before(selected, found) ==> !comes_before(selected, other)
                && !comes_before(other, found)
        }),
{
    let matches = all_matches(pages);
    let count = matches.len() as int;
    let position = matches.index_of(selected);
    let at = choose|at: int| 0 <= at < count && matches[at] == other;
    assert(matches[position] == selected);
    let next = if position + 1 < count { position + 1 } else { 0 };
    assert((position + 1) % count == next) by {
        if position + 1 < count {
            vstd::arithmetic::div_mod::lemma_small_mod((position + 1) as nat, count as nat);
        } else {
            vstd::arithmetic::div_mod::lemma_mod_self_0(count);
        }
    }
    if position < next {
        hits_are_in_order(pages, position, next);
    }
    if next < at {
        hits_are_in_order(pages, next, at);
    }
    if at < position {
        hits_are_in_order(pages, at, position);
    }
    if position < at {
        hits_are_in_order(pages, position, at);
    }
    if next < position {
        hits_are_in_order(pages, next, position);
    }
}

/// From a selected hit, backward leads to the one before it: no hit stands between the two. In
/// front of the first hit comes the last.
pub proof fn backward_leads_to_the_hit_before(
    pages: Seq<SearchPage>,
    selected: SearchCursor,
    current_page: usize,
    other: SearchCursor,
)
    requires
        pages_sorted(pages),
        all_matches(pages).contains(selected),
        all_matches(pages).contains(other),
    ensures
        ({
            let found = next_match(all_matches(pages), Some(selected), current_page, false)->0;
            &&& comes_before(other, selected) ==> comes_before(found, selected) && !comes_before(
                found,
                other,
            )
            &&& !comes_before(found, selected) ==> !comes_before(other, selected)
                && !comes_before(found, other)
        }),
{
    let matches = all_matches(pages);
    let count = matches.len() as int;
    let position = matches.index_of(selected);
    let at = choose|at: int| 0 <= at < count && matches[at] == other;
    assert(matches[position] == selected);
    let next = if position > 0 { position - 1 } else { count - 1 };
    if next < position {
        hits_are_in_order(pages, next, position);
    }
    if position < next {
        hits_are_in_order(pages, position, next);
    }
    if at < next {
        hits_are_in_order(pages, at, next);
    }
    if at < position {
        hits_are_in_order(pages, at, position);
    }
    if position < at {
        hits_are_in_order(pages, position, at);
    }
}

/// How far a page is from the page where a search starts.
pub open spec fn away(page: int, current: int) -> int {
    if page < current {
        current - page
    } else {
        page - current
    }
}

/// What the pages up to a distance have in common, and how they are ordered.
proof fn pages_within_come_by_distance(current: int, page_count: int, distance: int, i: int, j: int)
    requires
        0 <= current < page_count,
        0 <= distance,
        0 <= i <= j < pages_within(current, page_count, distance).len(),
    ensures
        ({
            let pages = pages_within(current, page_count, distance);
            &&& away(pages[i], current) <= away(pages[j], current) <= distance
            &&& i < j && away(pages[i], current) == away(pages[j], current) ==> pages[i] > pages[j]
            &&& pages[0] == current
        }),
    decreases distance,
{
    if distance > 0 {
        let pages = pages_within(current, page_count, distance);
        let nearer = pages_within(current, page_count, distance - 1);
        let near = nearer.len() as int;
        assert(near > 0) by {
            nothing_is_nearer_than_the_page_itself(current, page_count, distance - 1);
        }
        assert forall|k: int| 0 <= k < near implies #[trigger] pages[k] == nearer[k] by {}
        if j < near {
            pages_within_come_by_distance(current, page_count, distance - 1, i, j);
        } else if i < near {
            pages_within_come_by_distance(current, page_count, distance - 1, i, i);
        } else {
            pages_within_come_by_distance(current, page_count, distance - 1, 0, 0);
        }
    }
}

proof fn nothing_is_nearer_than_the_page_itself(current: int, page_count: int, distance: int)
    ensures
        pages_within(current, page_count, distance).len() > 0,
    decreases distance,
{
    if distance > 0 {
        nothing_is_nearer_than_the_page_itself(current, page_count, distance - 1);
    }
}

/// A search starts on the current page and goes outwards: no page comes before a nearer one, and
/// of two pages equally far away the later one of the document comes first.
pub proof fn nearer_pages_are_searched_first(current_page: int, page_count: int, i: int, j: int)
    requires
        0 <= current_page < page_count,
        0 <= i < j < search_order(current_page, page_count).len(),
    ensures
        ({
            let order = search_order(current_page, page_count);
            &&& order[0] == current_page
            &&& away(order[i], current_page) <= away(order[j], current_page)
            &&& away(order[i], current_page) == away(order[j], current_page) ==> order[i]
                > order[j]
        }),
{
    pages_within_come_by_distance(current_page, page_count, page_count - 1, i, j);
}

/// A page behind the end of the document counts as its last page.
pub proof fn a_search_behind_the_end_starts_on_the_last_page(current_page: int, page_count: int)
    requires
        0 < page_count <= current_page,
    ensures
        search_order(current_page, page_count) == search_order(page_count - 1, page_count),
{
}

/// A new search has a number of its own and no results yet; the query stays.
pub proof fn a_new_search_starts_empty(search: SearchView, in_progress: bool)
    ensures
        search.restarted(in_progress).query == search.query,
        search.restarted(in_progress).pages.len() == 0,
        search.restarted(in_progress).selected is None,
        search.restarted(in_progress).completed_pages == 0,
        !search.restarted(in_progress).truncated,
        search.restarted(in_progress).in_progress == in_progress,
        search.generation < u64::MAX ==> search.restarted(in_progress).generation
            == search.generation + 1,
        search.restarted(in_progress).generation != search.generation,
{
}

/// A search that is left behind keeps what it found, and takes no more.
pub proof fn an_abandoned_search_keeps_its_hits(search: SearchView)
    ensures
        search.abandoned().query == search.query,
        search.abandoned().pages == search.pages,
        search.abandoned().selected == search.selected,
        search.abandoned().completed_pages == search.completed_pages,
        search.abandoned().truncated == search.truncated,
        !search.abandoned().in_progress,
        search.abandoned().generation != search.generation,
{
}

/// Each result counts one page as searched; the search is over once all are. What was cut short
/// stays cut short, and the query, the number and the selected hit stay.
pub proof fn results_count_the_pages(
    search: SearchView,
    result: SearchPageResult,
    page_count: int,
    pages: Seq<SearchPage>,
)
    requires
        search.completed_pages < usize::MAX,
    ensures
        ({
            let after = search.with_page(result, page_count, pages);
            &&& after.completed_pages == search.completed_pages + 1
            &&& after.in_progress == (search.in_progress && search.completed_pages + 1
                < page_count)
            &&& after.truncated == (search.truncated || result.truncated)
            &&& after.pages == pages
            &&& after.query == search.query
            &&& after.generation == search.generation
            &&& after.selected == search.selected
        }),
{
}

/// Each page with hits is counted with the number that stands beside it, and no other page is.
pub proof fn counts_are_per_page(pages: Seq<SearchPage>, page: usize, i: int)
    requires
        pages_sorted(pages),
    ensures
        page_counts(pages).dom().contains(page) == exists|k: int|
            0 <= k < pages.len() && (#[trigger] pages[k]).page_index == page,
        0 <= i < pages.len() ==> page_counts(pages)[pages[i].page_index] == pages[i].match_count,
{
    if 0 <= i < pages.len() {
        let own = pages[i].page_index;
        let chosen = choose|k: int| 0 <= k < pages.len() && (#[trigger] pages[k]).page_index == own;
        assert(pages[i].page_index == own);
        if chosen < i {
            assert(pages[chosen].page_index < pages[i].page_index);
        } else if i < chosen {
            assert(pages[i].page_index < pages[chosen].page_index);
        }
    }
}

} // verus!
