use lunapdf::highlight_index::{
    apply_highlight_index_batch, next_highlight_index_request, HighlightIndexBatch,
    HighlightIndexPage, HighlightIndexRequest, HighlightIndexState, HighlightStart,
    HIGHLIGHT_INDEX_BATCH_PAGES,
};

#[test]
fn highlight_index_batches_only_the_first_contiguous_missing_pages() {
    let mut state = HighlightIndexState {
        started: true,
        revision: Some(7),
        total_pages: 40,
        ..HighlightIndexState::default()
    };

    let first = next_highlight_index_request(&state).unwrap();
    assert_eq!(first.first_page, 0);
    assert_eq!(first.page_count, HIGHLIGHT_INDEX_BATCH_PAGES);

    for page_index in 0..HIGHLIGHT_INDEX_BATCH_PAGES {
        state.pages.insert(page_index, 0);
    }
    state.pages.insert(HIGHLIGHT_INDEX_BATCH_PAGES + 2, 0);
    let second = next_highlight_index_request(&state).unwrap();
    assert_eq!(second.first_page, HIGHLIGHT_INDEX_BATCH_PAGES);
    assert_eq!(second.page_count, 2);
}

#[test]
fn edited_highlight_page_is_refreshed_as_one_page_batch() {
    let mut state = HighlightIndexState {
        generation: 4,
        revision: Some(8),
        total_pages: 100,
        refresh_page: Some(73),
        started: true,
        ..HighlightIndexState::default()
    };
    state.pages.insert(0, 0);

    let request = next_highlight_index_request(&state).unwrap();

    assert_eq!(
        request,
        HighlightIndexRequest {
            generation: 4,
            expected_revision: 8,
            first_page: 73,
            page_count: 1,
        }
    );
}

fn batch(pages: Vec<HighlightIndexPage>) -> HighlightIndexBatch {
    HighlightIndexBatch {
        generation: 3,
        revision: 7,
        total_pages: 2,
        pages,
    }
}

#[test]
fn highlight_index_replaces_repeated_pages_and_rejects_stale_batches() {
    let request = HighlightIndexRequest {
        generation: 3,
        expected_revision: 7,
        first_page: 0,
        page_count: 1,
    };
    let mut state = HighlightIndexState {
        generation: 3,
        revision: Some(7),
        total_pages: 2,
        in_flight: Some(request),
        started: true,
        ..HighlightIndexState::default()
    };
    let page = HighlightIndexPage {
        page_index: 0,
        highlight_count: 0,
    };

    assert!(apply_highlight_index_batch(&mut state, &batch(vec![page])));
    assert_eq!(state.pages.len(), 1);

    state.in_flight = Some(request);
    assert!(apply_highlight_index_batch(&mut state, &batch(vec![page])));
    assert_eq!(state.pages.len(), 1);

    state.in_flight = Some(HighlightIndexRequest {
        generation: 4,
        ..request
    });
    assert!(!apply_highlight_index_batch(&mut state, &batch(vec![])));
    assert_eq!(state.pages.len(), 1);
}

#[test]
fn the_index_is_read_batch_by_batch_until_it_is_complete() {
    let mut state = HighlightIndexState::default();
    assert!(matches!(
        state.start_highlight_index(None, 0),
        HighlightStart::NotOpen
    ));
    let generation = match state.start_highlight_index(Some(7), 11) {
        HighlightStart::Announce(generation) => generation,
        _ => panic!("a new index is announced"),
    };
    let mut read = 0;
    while let Some(request) = next_highlight_index_request(&state) {
        assert_eq!(request.generation, generation);
        state.request_sent(request, true);
        assert!(next_highlight_index_request(&state).is_none());
        let pages = (request.first_page..request.first_page + request.page_count)
            .map(|page_index| HighlightIndexPage {
                page_index,
                highlight_count: 1,
            })
            .collect();
        assert!(apply_highlight_index_batch(
            &mut state,
            &HighlightIndexBatch {
                generation,
                revision: 7,
                total_pages: 11,
                pages,
            }
        ));
        read += request.page_count;
    }
    assert_eq!(read, 11);
    assert_eq!(state.pages.len(), 11);
}

#[test]
fn a_refused_request_is_reported_and_stops_the_reading() {
    let mut state = HighlightIndexState::default();
    state.start_highlight_index(Some(7), 3);
    let request = next_highlight_index_request(&state).unwrap();
    state.request_sent(request, false);
    assert_eq!(
        state.error.as_deref(),
        Some("ハイライト一覧を読み込めませんでした。")
    );
    state.reconnected(true);
    assert!(state.error.is_none());
}
