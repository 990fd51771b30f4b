use lunapdf::search::{
    next_search_match, search_match_ordinal, search_page_order, search_result_is_current,
    SearchCursor, SearchPage, SearchPageResult, SearchStart, SearchState,
};

fn cursor(page_index: usize, match_index: usize) -> SearchCursor {
    SearchCursor {
        page_index,
        match_index,
    }
}

fn pages() -> Vec<SearchPage> {
    vec![
        SearchPage {
            page_index: 1,
            match_count: 1,
        },
        SearchPage {
            page_index: 4,
            match_count: 2,
        },
        SearchPage {
            page_index: 8,
            match_count: 1,
        },
    ]
}

#[test]
fn search_starts_at_current_page_and_alternates_forward_and_backward() {
    assert_eq!(search_page_order(3, 7), [3, 4, 2, 5, 1, 6, 0]);
    assert!(search_page_order(0, 0).is_empty());
}

#[test]
fn search_covers_every_page_once_from_anywhere() {
    for page_count in 1..12_usize {
        for current in 0..(page_count + 2) {
            let mut order = search_page_order(current, page_count);
            order.sort();
            assert_eq!(order, (0..page_count).collect::<Vec<_>>());
        }
    }
}

#[test]
fn search_navigation_visits_each_logical_match_and_wraps() {
    let pages = pages();
    let first_on_page_four = cursor(4, 0);
    let second_on_page_four = cursor(4, 1);

    assert_eq!(
        next_search_match(&pages, None, 4, true),
        Some(first_on_page_four)
    );
    assert_eq!(
        next_search_match(&pages, Some(first_on_page_four), 4, true),
        Some(second_on_page_four)
    );
    assert_eq!(
        next_search_match(&pages, Some(second_on_page_four), 4, false),
        Some(first_on_page_four)
    );
    assert_eq!(
        next_search_match(&pages, Some(cursor(8, 0)), 8, true),
        Some(cursor(1, 0))
    );
    assert_eq!(search_match_ordinal(&pages, second_on_page_four), Some(3));
}

#[test]
fn search_navigation_goes_forward_and_back_to_where_it_was() {
    let pages = pages();
    for start in [cursor(1, 0), cursor(4, 0), cursor(4, 1), cursor(8, 0)] {
        let next = next_search_match(&pages, Some(start), 0, true);
        assert_eq!(next_search_match(&pages, next, 0, false), Some(start));
    }
    assert_eq!(next_search_match(&vec![], None, 0, true), None);
    assert_eq!(search_match_ordinal(&pages, cursor(4, 2)), None);
}

#[test]
fn stale_search_result_is_rejected_by_generation_and_revision() {
    assert!(search_result_is_current(4, 4, 2, Some(2)));
    assert!(!search_result_is_current(3, 4, 2, Some(2)));
    assert!(!search_result_is_current(4, 4, 1, Some(2)));
}

#[test]
fn results_of_a_closed_document_are_stale() {
    assert!(!search_result_is_current(4, 4, 2, None));
}

#[test]
fn a_search_collects_the_pages_with_hits_in_order() {
    let mut search = SearchState::new();
    search.query = " needle ".to_owned();
    assert!(search.has_query());
    assert_eq!(search.search_text(), "needle");
    match search.begin_search(Some(3), 1) {
        SearchStart::Started { pages } => assert_eq!(pages, vec![1, 2, 0]),
        _ => panic!("the query is not empty"),
    }
    let generation = search.generation;
    for (page_index, match_count) in [(1, 2), (2, 0), (0, 1)] {
        search.receive_search_page(
            SearchPageResult {
                page_index,
                match_count,
                generation,
                revision: 5,
                truncated: false,
            },
            Some(5),
            3,
        );
    }
    assert_eq!(search.completed_pages, 3);
    assert!(!search.in_progress);
    let found = search
        .pages
        .iter()
        .map(|page| (page.page_index, page.match_count))
        .collect::<Vec<_>>();
    assert_eq!(found, vec![(0, 1), (1, 2)]);
}

#[test]
fn an_empty_query_cancels_the_search() {
    let mut search = SearchState::new();
    search.query = "\u{3000} ".to_owned();
    assert!(matches!(search.begin_search(Some(3), 1), SearchStart::Cancelled));
    search.query = "x".to_owned();
    assert!(matches!(search.begin_search(None, 1), SearchStart::NoDocument));
}
