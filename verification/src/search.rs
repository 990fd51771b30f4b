//! Searching a document page by page.
use crate::text::{is_blank, is_blank_text, trim, trimmed};
use vstd::prelude::*;

verus! {

/// A hit: the page, and the place among the hits of that page.
#[derive(Clone, Copy, Debug, PartialEq, Eq, Structural)]
pub struct SearchCursor {
    pub page_index: usize,
    pub match_index: usize,
}

/// A page with hits.
#[derive(Clone, Copy, Debug, PartialEq, Eq, Structural)]
pub struct SearchPage {
    pub page_index: usize,
    pub match_count: usize,
}

/// The result of searching one page.
#[derive(Clone, Copy, Debug, PartialEq, Eq, Structural)]
pub struct SearchPageResult {
    pub page_index: usize,
    pub match_count: usize,
    pub generation: u64,
    pub revision: u64,
    pub truncated: bool,
}

/// Pages in ascending order, none twice.
pub open spec fn pages_sorted(pages: Seq<SearchPage>) -> bool {
    forall|i: int, j: int|
        #![trigger pages[i], pages[j]]
        0 <= i < j < pages.len() ==> pages[i].page_index < pages[j].page_index
}

/// The hits per page.
pub open spec fn page_counts(pages: Seq<SearchPage>) -> Map<usize, usize> {
    Map::new(
        |page: usize| exists|i: int| 0 <= i < pages.len() && (#[trigger] pages[i]).page_index == page,
        |page: usize|
            pages[choose|i: int|
                0 <= i < pages.len() && (#[trigger] pages[i]).page_index == page].match_count,
    )
}

/// The hits of one page, in order.
pub open spec fn page_matches(page: SearchPage) -> Seq<SearchCursor> {
    Seq::new(
        page.match_count as nat,
        |i: int| SearchCursor { page_index: page.page_index, match_index: i as usize },
    )
}

/// All hits, page by page.
pub open spec fn all_matches(pages: Seq<SearchPage>) -> Seq<SearchCursor>
    decreases pages.len(),
{
    if pages.len() == 0 {
        seq![]
    } else {
        all_matches(pages.drop_last()) + page_matches(pages.last())
    }
}

/// Lists all hits.
fn list_matches(pages: &Vec<SearchPage>) -> (res: Vec<SearchCursor>)
    ensures
        res@ == all_matches(pages@),
{
    let mut res: Vec<SearchCursor> = Vec::new();
    let mut i: usize = 0;
    assert(res@ =~= all_matches(pages@.take(0)));
    while i < pages.len()
        invariant
            i <= pages.len(),
            res@ == all_matches(pages@.take(i as int)),
        decreases pages.len() - i,
    {
        let page = pages[i];
        let ghost before = res@;
        let mut k: usize = 0;
        while k < page.match_count
            invariant
                k <= page.match_count,
                res@ == before + page_matches(page).take(k as int),
            decreases page.match_count - k,
        {
            res.push(SearchCursor { page_index: page.page_index, match_index: k });
            assert(res@ =~= before + page_matches(page).take(k + 1));
            k += 1;
        }
        proof {
            let next = pages@.take(i + 1);
            assert(next.drop_last() =~= pages@.take(i as int));
            assert(page_matches(page).take(k as int) =~= page_matches(page));
        }
        i += 1;
    }
    assert(pages@.take(i as int) =~= pages@);
    res
}

/// The first hit from `from` on that is on `page` or behind it; the length if none is.
pub open spec fn first_from_page(matches: Seq<SearchCursor>, page: usize, from: int) -> int
    decreases matches.len() - from,
{
    if from >= matches.len() {
        matches.len() as int
    } else if matches[from].page_index >= page {
        from
    } else {
        first_from_page(matches, page, from + 1)
    }
}

/// The last hit before `until` that is on `page` or in front of it; -1 if none is.
pub open spec fn last_to_page(matches: Seq<SearchCursor>, page: usize, until: int) -> int
    decreases until,
{
    if until <= 0 {
        -1
    } else if matches[until - 1].page_index <= page {
        until - 1
    } else {
        last_to_page(matches, page, until - 1)
    }
}

/// The hit after or before the selected one, around the ends; without a selected hit, the
/// nearest one in that direction from the current page on.
pub open spec fn next_match(
    matches: Seq<SearchCursor>,
    selected: Option<SearchCursor>,
    current_page: usize,
    forward: bool,
) -> Option<SearchCursor> {
    if matches.len() == 0 {
        None
    } else if selected is Some && matches.contains(selected->0) {
        let position = matches.index_of(selected->0);
        if forward {
            Some(matches[(position + 1) % (matches.len() as int)])
        } else if position > 0 {
            Some(matches[position - 1])
        } else {
            Some(matches.last())
        }
    } else if forward {
        let found = first_from_page(matches, current_page, 0);
        Some(
            if found < matches.len() {
                matches[found]
            } else {
                matches.first()
            },
        )
    } else {
        let found = last_to_page(matches, current_page, matches.len() as int);
        Some(
            if found >= 0 {
                matches[found]
            } else {
                matches.last()
            },
        )
    }
}

/// The hits of a document are all different.
pub proof fn matches_are_distinct(pages: Seq<SearchPage>)
    requires
        pages_sorted(pages),
    ensures
        all_matches(pages).no_duplicates(),
        forall|c: SearchCursor| #[trigger]
            all_matches(pages).contains(c) ==> exists|i: int|
                0 <= i < pages.len() && (#[trigger] pages[i]).page_index == c.page_index
                    && c.match_index < pages[i].match_count,
    decreases pages.len(),
{
    if pages.len() > 0 {
        let front = pages.drop_last();
        let last = pages.last();
        assert(pages_sorted(front)) by {
            assert forall|i: int, j: int|
                #![trigger front[i], front[j]]
                0 <= i < j < front.len() implies front[i].page_index < front[j].page_index by {
                assert(pages[i].page_index < pages[j].page_index);
            }
        }
        matches_are_distinct(front);
        let before = all_matches(front);
        let own = page_matches(last);
        let all = all_matches(pages);
        assert forall|i: int, j: int| 0 <= i < j < all.len() implies all[i] != all[j] by {
            if i < before.len() && j >= before.len() {
                assert(before.contains(before[i]));
                let k = choose|k: int|
                    0 <= k < front.len() && (#[trigger] front[k]).page_index
                        == before[i].page_index && before[i].match_index < front[k].match_count;
                assert(pages[k].page_index < pages[pages.len() - 1].page_index);
                assert(all[j] == own[j - before.len()]);
            } else if i >= before.len() {
                assert(all[i] == own[i - before.len()]);
                assert(all[j] == own[j - before.len()]);
            }
        }
        assert forall|c: SearchCursor| #[trigger] all.contains(c) implies exists|i: int|
            0 <= i < pages.len() && (#[trigger] pages[i]).page_index == c.page_index
                && c.match_index < pages[i].match_count by {
            let i = choose|i: int| 0 <= i < all.len() && all[i] == c;
            if i < before.len() {
                assert(before.contains(c));
                let k = choose|k: int|
                    0 <= k < front.len() && (#[trigger] front[k]).page_index == c.page_index
                        && c.match_index < front[k].match_count;
                assert(pages[k] == front[k]);
            } else {
                assert(c == own[i - before.len()]);
                assert(pages[pages.len() - 1] == last);
            }
        }
    }
}

fn position_of(matches: &Vec<SearchCursor>, cursor: SearchCursor) -> (res: Option<usize>)
    requires
        matches@.no_duplicates(),
    ensures
        match res {
            None => !matches@.contains(cursor),
            Some(position) => position < matches@.len() && matches@.contains(cursor)
                && matches@.index_of(cursor) == position && matches@[position as int] == cursor,
        },
{
    let mut i: usize = 0;
    while i < matches.len()
        invariant
            i <= matches.len(),
            matches@.no_duplicates(),
            forall|k: int| 0 <= k < i ==> matches@[k] != cursor,
        decreases matches.len() - i,
    {
        if matches[i] == cursor {
            proof {
                assert(matches@[i as int] == cursor);
                assert(matches@.contains(cursor));
                let chosen = matches@.index_of(cursor);
                assert(matches@[chosen] == cursor);
            }
            return Some(i);
        }
        i += 1;
    }
    None
}

/// The hit to go to next.
pub fn next_search_match(
    pages: &Vec<SearchPage>,
    selected: Option<SearchCursor>,
    current_page: usize,
    forward: bool,
) -> (res: Option<SearchCursor>)
    requires
        pages_sorted(pages@),
    ensures
        res == next_match(all_matches(pages@), selected, current_page, forward),
{
    let matches = list_matches(pages);
    proof {
        matches_are_distinct(pages@);
    }
    let count: usize = matches.len();
    if count == 0 {
        return None;
    }
    if let Some(cursor) = selected {
        if let Some(position) = position_of(&matches, cursor) {
            // Results that arrive later shift the position, not the selected hit.
            let next: usize = if forward {
                assert(position < matches.len());
                (position + 1) % count
            } else if position > 0 {
                position - 1
            } else {
                count - 1
            };
            return Some(matches[next]);
        }
    }
    if forward {
        let mut i: usize = 0;
        while i < count && matches[i].page_index < current_page
            invariant
                i <= count,
                count == matches@.len(),
                first_from_page(matches@, current_page, 0) == first_from_page(
                    matches@,
                    current_page,
                    i as int,
                ),
            decreases count - i,
        {
            i += 1;
        }
        Some(
            if i < count {
                matches[i]
            } else {
                matches[0]
            },
        )
    } else {
        let mut i: usize = count;
        while i > 0 && matches[i - 1].page_index > current_page
            invariant
                i <= count,
                count == matches@.len(),
                last_to_page(matches@, current_page, count as int) == last_to_page(
                    matches@,
                    current_page,
                    i as int,
                ),
            decreases i,
        {
            i -= 1;
        }
        Some(
            if i > 0 {
                matches[i - 1]
            } else {
                matches[count - 1]
            },
        )
    }
}

/// The place of a hit among all hits, counted from one.
pub fn search_match_ordinal(pages: &Vec<SearchPage>, selected: SearchCursor) -> (res: Option<usize>)
    requires
        pages_sorted(pages@),
    ensures
        match res {
            None => !all_matches(pages@).contains(selected),
            Some(ordinal) => all_matches(pages@).contains(selected) && ordinal == all_matches(
                pages@,
            ).index_of(selected) + 1,
        },
        res is Some ==> 1 <= res->0 <= all_matches(pages@).len()
            && all_matches(pages@)[res->0 - 1] == selected,
{
    let matches = list_matches(pages);
    proof {
        matches_are_distinct(pages@);
    }
    match position_of(&matches, selected) {
        None => None,
        Some(position) => {
            assert(position < matches.len());
            Some(position + 1)
        },
    }
}

/// One step forward around the end of `count` places.
proof fn step_around(position: int, count: int)
    requires
        0 <= position < count,
    ensures
        (position + 1) % count == (if position + 1 < count {
            position + 1
        } else {
            0
        }),
{
    if position + 1 < count {
        vstd::arithmetic::div_mod::lemma_small_mod((position + 1) as nat, count as nat);
    } else {
        vstd::arithmetic::div_mod::lemma_mod_self_0(count);
    }
}

/// Going forward and back again returns to the same hit.
pub proof fn forward_and_back_returns(
    pages: Seq<SearchPage>,
    cursor: SearchCursor,
    current_page: usize,
)
    requires
        pages_sorted(pages),
        all_matches(pages).contains(cursor),
    ensures
        next_match(
            all_matches(pages),
            next_match(all_matches(pages), Some(cursor), current_page, true),
            current_page,
            false,
        ) == Some(cursor),
        next_match(
            all_matches(pages),
            next_match(all_matches(pages), Some(cursor), current_page, false),
            current_page,
            true,
        ) == Some(cursor),
{
    matches_are_distinct(pages);
    let matches = all_matches(pages);
    let count = matches.len() as int;
    let position = matches.index_of(cursor);
    let ahead = (position + 1) % count;
    let behind = if position > 0 { position - 1 } else { count - 1 };
    assert(matches[position] == cursor);
    step_around(position, count);
    step_around(behind, count);
    assert(matches.contains(matches[ahead]));
    assert(matches.contains(matches[behind]));
    assert(matches.index_of(matches[ahead]) == ahead) by {
        assert(matches[matches.index_of(matches[ahead])] == matches[ahead]);
    }
    assert(matches.index_of(matches[behind]) == behind) by {
        assert(matches[matches.index_of(matches[behind])] == matches[behind]);
    }
}

/// The hit after `steps` steps forward.
pub open spec fn steps_forward(
    matches: Seq<SearchCursor>,
    cursor: SearchCursor,
    current_page: usize,
    steps: nat,
) -> SearchCursor
    decreases steps,
{
    if steps == 0 {
        cursor
    } else {
        next_match(
            matches,
            Some(steps_forward(matches, cursor, current_page, (steps - 1) as nat)),
            current_page,
            true,
        )->0
    }
}

/// Going forward visits the hits in order, around the end: after as many steps as there
/// are hits the search is back where it began.
pub proof fn forward_steps_visit_in_order(
    pages: Seq<SearchPage>,
    cursor: SearchCursor,
    current_page: usize,
    steps: nat,
)
    requires
        pages_sorted(pages),
        all_matches(pages).contains(cursor),
        steps <= all_matches(pages).len(),
    ensures
        ({
            let matches = all_matches(pages);
            let start = matches.index_of(cursor);
            steps_forward(matches, cursor, current_page, steps) == matches[if start + steps
                < matches.len() {
                start + steps
            } else {
                start + steps - matches.len()
            }]
        }),
    decreases steps,
{
    matches_are_distinct(pages);
    let matches = all_matches(pages);
    let count = matches.len() as int;
    let start = matches.index_of(cursor);
    assert(matches[start] == cursor);
    if steps > 0 {
        forward_steps_visit_in_order(pages, cursor, current_page, (steps - 1) as nat);
        let earlier = start + steps - 1;
        let position = if earlier < count { earlier } else { earlier - count };
        let at = matches[position];
        assert(matches.contains(at));
        assert(matches.index_of(at) == position) by {
            assert(matches[matches.index_of(at)] == at);
        }
        step_around(position, count);
    }
}

/// The pages up to `distance` from the current one: nearest first, forward before backward.
pub open spec fn pages_within(current: int, page_count: int, distance: int) -> Seq<int>
    decreases distance,
{
    if distance <= 0 {
        seq![current]
    } else {
        let nearer = pages_within(current, page_count, distance - 1);
        let ahead = if current + distance < page_count {
            seq![current + distance]
        } else {
            seq![]
        };
        let behind = if distance <= current {
            seq![current - distance]
        } else {
            seq![]
        };
        nearer + ahead + behind
    }
}

/// The order in which pages are searched.
pub open spec fn search_order(current_page: int, page_count: int) -> Seq<int> {
    if page_count <= 0 {
        seq![]
    } else {
        pages_within(
            if current_page < page_count {
                current_page
            } else {
                page_count - 1
            },
            page_count,
            page_count - 1,
        )
    }
}

/// Orders the pages of a document for a search from the current page.
pub fn search_page_order(current_page: usize, page_count: usize) -> (res: Vec<usize>)
    ensures
        res@.len() == search_order(current_page as int, page_count as int).len(),
        forall|i: int|
            0 <= i < res@.len() ==> (#[trigger] res@[i]) == search_order(
                current_page as int,
                page_count as int,
            )[i],
{
    let mut pages: Vec<usize> = Vec::new();
    if page_count == 0 {
        return pages;
    }
    let current: usize = if current_page < page_count {
        current_page
    } else {
        page_count - 1
    };
    pages.push(current);
    let mut distance: usize = 1;
    while distance < page_count
        invariant
            1 <= distance <= page_count,
            current < page_count,
            pages@.len() == pages_within(current as int, page_count as int, distance - 1).len(),
            forall|i: int|
                0 <= i < pages@.len() ==> (#[trigger] pages@[i]) == pages_within(
                    current as int,
                    page_count as int,
                    distance - 1,
                )[i],
        decreases page_count - distance,
    {
        if distance < page_count - current {
            pages.push(current + distance);
        }
        if distance <= current {
            pages.push(current - distance);
        }
        distance += 1;
    }
    pages
}

/// What the pages up to a distance are.
proof fn pages_within_are(current: int, page_count: int, distance: int)
    requires
        0 <= current < page_count,
        0 <= distance,
    ensures
        ({
            let pages = pages_within(current, page_count, distance);
            &&& pages.no_duplicates()
            &&& forall|page: int| #[trigger]
                pages.contains(page) <==> 0 <= page < page_count && -distance <= page - current
                    <= distance
            &&& pages.len() == 1 + (if distance < page_count - current {
                distance
            } else {
                page_count - current - 1
            }) + (if distance <= current {
                distance
            } else {
                current
            })
        }),
    decreases distance,
{
    let pages = pages_within(current, page_count, distance);
    if distance > 0 {
        pages_within_are(current, page_count, distance - 1);
        let nearer = pages_within(current, page_count, distance - 1);
        let near = nearer.len() as int;
        assert forall|i: int| 0 <= i < near implies pages[i] == nearer[i] by {}
        assert forall|page: int| #[trigger]
            pages.contains(page) <==> 0 <= page < page_count && -distance <= page - current
                <= distance by {
            if pages.contains(page) {
                let i = choose|i: int| 0 <= i < pages.len() && pages[i] == page;
                if i < near {
                    assert(nearer[i] == page);
                    assert(nearer.contains(page));
                }
            }
            if nearer.contains(page) {
                let i = choose|i: int| 0 <= i < near && nearer[i] == page;
                assert(pages[i] == page);
            }
            if page == current + distance && page < page_count {
                assert(pages[near] == page);
            }
            if page == current - distance && page >= 0 {
                let at = if current + distance < page_count { near + 1 } else { near };
                assert(pages[at] == page);
            }
            if 0 <= page < page_count && -(distance - 1) <= page - current <= distance - 1 {
                assert(nearer.contains(page));
            }
        }
        assert forall|i: int, j: int| 0 <= i < j < pages.len() implies pages[i] != pages[j] by {
            if i < near && j >= near {
                assert(nearer.contains(nearer[i]));
            }
        }
    } else {
        assert(pages[0] == current);
        assert forall|page: int| #[trigger]
            pages.contains(page) <==> 0 <= page < page_count && -distance <= page - current
                <= distance by {
            if page == current {
                assert(pages[0] == page);
            }
        }
    }
}

/// A search visits every page of the document exactly once.
pub proof fn every_page_is_searched_once(current_page: int, page_count: int)
    requires
        0 <= current_page,
        0 <= page_count,
    ensures
        search_order(current_page, page_count).len() == page_count,
        search_order(current_page, page_count).no_duplicates(),
        forall|page: int| #[trigger]
            search_order(current_page, page_count).contains(page) <==> 0 <= page < page_count,
{
    if page_count > 0 {
        let current = if current_page < page_count { current_page } else { page_count - 1 };
        pages_within_are(current, page_count, page_count - 1);
    }
}

/// Whether a result belongs to the running search of the current document.
pub fn search_result_is_current(
    result_generation: u64,
    current_generation: u64,
    result_revision: u64,
    current_revision: Option<u64>,
) -> (res: bool)
    ensures
        res == (result_generation == current_generation && current_revision == Some(
            result_revision,
        )),
{
    match current_revision {
        None => false,
        Some(revision) => result_generation == current_generation && revision == result_revision,
    }
}

/// The search of one document.
#[derive(Debug)]
pub struct SearchState {
    pub query: String,
    pub generation: u64,
    pub pages: Vec<SearchPage>,
    pub selected: Option<SearchCursor>,
    pub completed_pages: usize,
    pub truncated: bool,
    pub in_progress: bool,
}

/// What a `SearchState` stands for in specifications.
#[verifier::ext_equal]
pub struct SearchView {
    pub query: Seq<char>,
    pub generation: u64,
    pub pages: Seq<SearchPage>,
    pub selected: Option<SearchCursor>,
    pub completed_pages: usize,
    pub truncated: bool,
    pub in_progress: bool,
}

impl View for SearchState {
    type V = SearchView;

    open spec fn view(&self) -> SearchView {
        SearchView {
            query: self.query@,
            generation: self.generation,
            pages: self.pages@,
            selected: self.selected,
            completed_pages: self.completed_pages,
            truncated: self.truncated,
            in_progress: self.in_progress,
        }
    }
}

impl SearchView {
    pub open spec fn wf(self) -> bool {
        pages_sorted(self.pages)
    }

    /// The search with a new generation and without results.
    pub open spec fn restarted(self, in_progress: bool) -> SearchView {
        SearchView {
            generation: self.generation.wrapping_add(1),
            pages: seq![],
            selected: None,
            completed_pages: 0,
            truncated: false,
            in_progress,
            ..self
        }
    }

    /// The search left behind when its document goes out of sight: later results count no
    /// more, and those that came stay.
    pub open spec fn abandoned(self) -> SearchView {
        SearchView { generation: self.generation.wrapping_add(1), in_progress: false, ..self }
    }

    /// The search with the result of one more page.
    pub open spec fn with_page(
        self,
        result: SearchPageResult,
        page_count: int,
        pages: Seq<SearchPage>,
    ) -> SearchView {
        let completed = if self.completed_pages < usize::MAX {
            (self.completed_pages + 1) as usize
        } else {
            usize::MAX
        };
        SearchView {
            completed_pages: completed,
            truncated: self.truncated || result.truncated,
            pages,
            in_progress: self.in_progress && completed < page_count,
            ..self
        }
    }
}

/// What starting a search leads to.
#[derive(Debug)]
pub enum SearchStart {
    /// The query is blank: the search was cancelled.
    Cancelled,
    /// The document is not open yet: nothing changed.
    NoDocument,
    /// The pages to search, in order.
    Started { pages: Vec<usize> },
}

impl SearchState {
    /// A search that has not begun.
    pub fn new() -> (res: Self)
        ensures
            res@ == (SearchView {
                query: seq![],
                generation: 0,
                pages: seq![],
                selected: None,
                completed_pages: 0,
                truncated: false,
                in_progress: false,
            }),
            res@.wf(),
    {
        let res = SearchState {
            query: String::new(),
            generation: 0,
            pages: Vec::new(),
            selected: None,
            completed_pages: 0,
            truncated: false,
            in_progress: false,
        };
        assert(res@.pages =~= seq![]);
        assert(res@.query =~= seq![]);
        res
    }

    /// Whether there is a query to search for.
    pub fn has_query(&self) -> (res: bool)
        ensures
            res == !is_blank(self@.query),
    {
        !is_blank_text(self.query.as_str())
    }

    /// The text to search for.
    pub fn search_text(&self) -> (res: &str)
        ensures
            res@ == trimmed(self@.query),
    {
        trim(self.query.as_str())
    }

    fn restart(&mut self, in_progress: bool)
        ensures
            final(self)@ == old(self)@.restarted(in_progress),
            final(self)@.wf(),
    {
        self.generation = self.generation.wrapping_add(1);
        self.pages.clear();
        self.selected = None;
        self.completed_pages = 0;
        self.truncated = false;
        self.in_progress = in_progress;
        assert(self@ =~= old(self)@.restarted(in_progress));
    }

    /// Starts a search from the current page.
    pub fn begin_search(&mut self, page_count: Option<usize>, current_page: usize) -> (res:
        SearchStart)
        requires
            old(self)@.wf(),
        ensures
            final(self)@.wf(),
            match res {
                SearchStart::Cancelled => is_blank(old(self)@.query) && final(self)@ == old(
                    self,
                )@.restarted(false),
                SearchStart::NoDocument => !is_blank(old(self)@.query) && page_count is None
                    && final(self)@ == old(self)@,
                SearchStart::Started { pages } => {
                    &&& !is_blank(old(self)@.query)
                    &&& page_count is Some
                    &&& final(self)@ == old(self)@.restarted(true)
                    &&& pages@.len() == search_order(
                        current_page as int,
                        page_count->0 as int,
                    ).len()
                    &&& forall|i: int|
                        0 <= i < pages@.len() ==> (#[trigger] pages@[i]) == search_order(
                            current_page as int,
                            page_count->0 as int,
                        )[i]
                },
            },
    {
        if !self.has_query() {
            self.restart(false);
            return SearchStart::Cancelled;
        }
        match page_count {
            None => SearchStart::NoDocument,
            Some(count) => {
                self.restart(true);
                SearchStart::Started { pages: search_page_order(current_page, count) }
            },
        }
    }

    /// Notes that the search that was just started could not be handed over.
    pub fn start_refused(&mut self)
        ensures
            final(self)@ == (SearchView { in_progress: false, ..old(self)@ }),
    {
        self.in_progress = false;
        assert(self@ =~= (SearchView { in_progress: false, ..old(self)@ }));
    }

    /// Gives a search up and drops its results.
    pub fn cancel_search(&mut self)
        ensures
            final(self)@ == old(self)@.restarted(false),
            final(self)@.wf(),
    {
        self.restart(false);
    }

    /// Makes results that are still under way count no more.
    pub fn abandon(&mut self)
        ensures
            final(self)@ == old(self)@.abandoned(),
    {
        self.generation = self.generation.wrapping_add(1);
        self.in_progress = false;
        assert(self@ =~= old(self)@.abandoned());
    }

    /// Takes the result of one page; a result of another search or another revision of the
    /// document changes nothing.
    pub fn receive_search_page(
        &mut self,
        result: SearchPageResult,
        current_revision: Option<u64>,
        page_count: usize,
    )
        requires
            old(self)@.wf(),
        ensures
            final(self)@.wf(),
            ({
                let current = result.generation == old(self)@.generation && current_revision
                    == Some(result.revision);
                if current {
                    &&& final(self)@ == old(self)@.with_page(
                        result,
                        page_count as int,
                        final(self)@.pages,
                    )
                    &&& page_counts(final(self)@.pages) == (if result.match_count > 0 {
                        page_counts(old(self)@.pages).insert(result.page_index, result.match_count)
                    } else {
                        page_counts(old(self)@.pages)
                    })
                } else {
                    final(self)@ == old(self)@
                }
            }),
    {
        if !search_result_is_current(
            result.generation,
            self.generation,
            result.revision,
            current_revision,
        ) {
            return;
        }
        self.completed_pages = self.completed_pages.saturating_add(1);
        self.truncated = self.truncated || result.truncated;
        if result.match_count > 0 {
            insert_page(
                &mut self.pages,
                SearchPage { page_index: result.page_index, match_count: result.match_count },
            );
        }
        if self.completed_pages >= page_count {
            self.in_progress = false;
        }
        assert(self@ =~= old(self)@.with_page(result, page_count as int, self@.pages));
    }
}

proof fn page_count_is(pages: Seq<SearchPage>, index: int)
    requires
        pages_sorted(pages),
        0 <= index < pages.len(),
    ensures
        page_counts(pages).dom().contains(pages[index].page_index),
        page_counts(pages)[pages[index].page_index] == pages[index].match_count,
{
    let page = pages[index].page_index;
    assert(pages[index].page_index == page);
    let chosen = choose|i: int| 0 <= i < pages.len() && (#[trigger] pages[i]).page_index == page;
    assert(pages[chosen].page_index == page);
    if chosen < index {
        assert(pages[chosen].page_index < pages[index].page_index);
    } else if index < chosen {
        assert(pages[index].page_index < pages[chosen].page_index);
    }
}

/// Puts a page with hits in its place, in place of an earlier result for it.
fn insert_page(pages: &mut Vec<SearchPage>, page: SearchPage)
    requires
        pages_sorted(old(pages)@),
    ensures
        pages_sorted(final(pages)@),
        page_counts(final(pages)@) == page_counts(old(pages)@).insert(
            page.page_index,
            page.match_count,
        ),
{
    let ghost before = pages@;
    let mut at: usize = 0;
    while at < pages.len() && pages[at].page_index < page.page_index
        invariant
            at <= pages.len(),
            pages@ == before,
            forall|k: int|
                0 <= k < at ==> (#[trigger] before[k]).page_index < page.page_index,
        decreases pages.len() - at,
    {
        at += 1;
    }
    let replaces = at < pages.len() && pages[at].page_index == page.page_index;
    if replaces {
        pages.set(at, page);
    } else {
        pages.insert(at, page);
    }
    proof {
        let after = pages@;
        assert forall|k: int| at <= k < before.len() implies page.page_index <= (
        #[trigger] before[k]).page_index && (k > at || !replaces ==> page.page_index
            < before[k].page_index) by {
            if k > at {
                assert(before[at as int].page_index < before[k].page_index);
            }
        }
        assert forall|i: int, j: int|
            #![trigger after[i], after[j]]
            0 <= i < j < after.len() implies after[i].page_index < after[j].page_index by {
            let a = if replaces || i < at { i } else { i - 1 };
            let b = if replaces || j < at { j } else { j - 1 };
            if i != at && j != at {
                assert(after[i] == before[a] && after[j] == before[b]);
            } else if i == at {
                assert(after[j] == before[b]);
            } else {
                assert(after[i] == before[a]);
            }
        }
        let counts = page_counts(before).insert(page.page_index, page.match_count);
        assert forall|p: usize| page_counts(after).dom().contains(p) == counts.dom().contains(
            p,
        ) by {
            if page_counts(after).dom().contains(p) {
                let i = choose|i: int|
                    0 <= i < after.len() && (#[trigger] after[i]).page_index == p;
                let a = if replaces || i < at { i } else { i - 1 };
                if i != at {
                    assert(before[a] == after[i]);
                }
            }
            if page_counts(before).dom().contains(p) {
                let a = choose|a: int|
                    0 <= a < before.len() && (#[trigger] before[a]).page_index == p;
                let i = if replaces || a < at { a } else { a + 1 };
                assert(after[i].page_index == p);
            }
            assert(after[at as int].page_index == page.page_index);
        }
        assert forall|p: usize| page_counts(after).dom().contains(p) implies page_counts(after)[p]
            == counts[p] by {
            let i = choose|i: int| 0 <= i < after.len() && (#[trigger] after[i]).page_index == p;
            page_count_is(after, i);
            if i == at {
            } else {
                let a = if replaces || i < at { i } else { i - 1 };
                assert(before[a] == after[i]);
                page_count_is(before, a);
                assert(after[at as int].page_index == page.page_index);
                if p == page.page_index {
                    if i < at {
                        assert(after[i].page_index < after[at as int].page_index);
                    } else {
                        assert(after[at as int].page_index < after[i].page_index);
                    }
                }
            }
        }
        assert(page_counts(after) =~= counts);
    }
}

} // verus!
