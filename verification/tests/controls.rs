use lunapdf::controls::{
    consume_pdf_copy_event, copy_input_of_release, debug_yes_no, foreground_layer_blocks_pane_input, is_pdf_path,
    oldest_suspendable_index, page_index_from_input, page_number_input_columns,
    tab_pointer_action, tab_reveal_after_close, tab_reveal_for_selection_change, CopyInput,
    LayerOrder, ReleasedKey, TabPointerAction,
};
use lunapdf::view::adjacent_page_index;

#[test]
fn tab_middle_click_closes_without_selecting_first() {
    assert_eq!(
        tab_pointer_action(false, true),
        Some(TabPointerAction::Close)
    );
    assert_eq!(
        tab_pointer_action(true, false),
        Some(TabPointerAction::Select)
    );
    assert_eq!(
        tab_pointer_action(true, true),
        Some(TabPointerAction::Close)
    );
}

#[test]
fn an_untouched_tab_does_nothing() {
    assert_eq!(tab_pointer_action(false, false), None);
}

#[test]
fn tab_reveal_requests_only_follow_selection_changes() {
    assert_eq!(tab_reveal_for_selection_change(Some(2), 2), None);
    assert_eq!(tab_reveal_for_selection_change(Some(2), 7), Some(7));
    assert_eq!(tab_reveal_for_selection_change(None, 0), Some(0));

    assert_eq!(tab_reveal_after_close(Some(2), 3, Some(2)), None);
    assert_eq!(tab_reveal_after_close(Some(2), 0, Some(1)), None);
    assert_eq!(tab_reveal_after_close(Some(2), 2, Some(2)), Some(2));
    assert_eq!(tab_reveal_after_close(Some(2), 2, Some(1)), Some(1));
}

#[test]
fn page_input_accepts_only_one_based_in_range_numbers() {
    assert_eq!(page_index_from_input(" 4 ", 5), Some(3));
    assert_eq!(page_index_from_input("", 5), None);
    assert_eq!(page_index_from_input("0", 5), None);
    assert_eq!(page_index_from_input("-1", 5), None);
    assert_eq!(page_index_from_input("abc", 5), None);
    assert_eq!(page_index_from_input("6", 5), None);
}

#[test]
fn page_input_reads_signs_spaces_and_large_numbers_as_numbers_are_written() {
    assert_eq!(page_index_from_input("+4", 5), Some(3));
    assert_eq!(page_index_from_input("004", 5), Some(3));
    assert_eq!(page_index_from_input("\u{3000}5\t", 5), Some(4));
    assert_eq!(page_index_from_input("4 4", 50), None);
    assert_eq!(page_index_from_input("+", 5), None);
    assert_eq!(page_index_from_input("99999999999999999999999", 5), None);
    assert_eq!(
        page_index_from_input("18446744073709551615", usize::MAX),
        Some(usize::MAX - 1)
    );
}

#[test]
fn page_input_reserves_three_columns_and_expands_for_longer_documents() {
    for page_count in [1, 9, 10, 99, 100, 999] {
        assert_eq!(page_number_input_columns(page_count), 3);
    }
    assert_eq!(page_number_input_columns(1_000), 4);
    assert_eq!(page_number_input_columns(12_345), 5);
}

#[test]
fn page_input_columns_of_the_extremes() {
    assert_eq!(page_number_input_columns(0), 3);
    assert_eq!(page_number_input_columns(usize::MAX), 20);
}

#[test]
fn single_page_wheel_does_not_cross_document_boundaries() {
    assert_eq!(adjacent_page_index(0, 3, -1), None);
    assert_eq!(adjacent_page_index(0, 3, 1), Some(1));
    assert_eq!(adjacent_page_index(1, 3, -1), Some(0));
    assert_eq!(adjacent_page_index(2, 3, 1), None);
    assert_eq!(adjacent_page_index(0, 0, 1), None);
}

#[test]
fn adjacent_pages_saturate_at_both_ends() {
    assert_eq!(adjacent_page_index(5, 10, isize::MIN), Some(0));
    assert_eq!(adjacent_page_index(5, 10, isize::MAX), Some(9));
    assert_eq!(adjacent_page_index(5, 10, 0), None);
    assert_eq!(adjacent_page_index(7, 3, 0), Some(2));
}

#[test]
fn floating_windows_and_popups_block_pane_input_but_tooltips_do_not() {
    assert!(!foreground_layer_blocks_pane_input(Some(
        LayerOrder::Background
    )));
    assert!(foreground_layer_blocks_pane_input(Some(LayerOrder::Middle)));
    assert!(foreground_layer_blocks_pane_input(Some(
        LayerOrder::Foreground
    )));
    assert!(!foreground_layer_blocks_pane_input(Some(
        LayerOrder::Tooltip
    )));
}

#[test]
fn nothing_under_the_pointer_blocks_nothing() {
    assert!(!foreground_layer_blocks_pane_input(None));
    assert!(!foreground_layer_blocks_pane_input(Some(LayerOrder::Debug)));
}

#[test]
fn suspension_chooses_oldest_inactive_fully_suspendable_document() {
    let candidates = vec![(true, 2), (false, 1), (true, 3), (false, 0)];

    assert_eq!(oldest_suspendable_index(&vec![0], &candidates), Some(2));
    assert_eq!(oldest_suspendable_index(&vec![2], &candidates), Some(0));
}

#[test]
fn suspension_skips_oldest_document_while_it_is_printing() {
    let candidates = vec![(false, 0), (true, 1), (true, 2)];

    assert_eq!(oldest_suspendable_index(&vec![2], &candidates), Some(1));
}

#[test]
fn suspension_prefers_the_first_of_equally_old_documents_and_can_find_none() {
    assert_eq!(
        oldest_suspendable_index(&vec![], &vec![(true, 7), (true, 7)]),
        Some(0)
    );
    assert_eq!(oldest_suspendable_index(&vec![0], &vec![(true, 7)]), None);
    assert_eq!(oldest_suspendable_index(&vec![], &vec![]), None);
}

#[test]
fn a_pdf_is_a_file_with_the_extension_in_any_case() {
    assert!(is_pdf_path(true, Some("pdf")));
    assert!(is_pdf_path(true, Some("PdF")));
    assert!(!is_pdf_path(false, Some("pdf")));
    assert!(!is_pdf_path(true, None));
    assert!(!is_pdf_path(true, Some("pdfx")));
    assert!(!is_pdf_path(true, Some("pdｆ")));
}

#[test]
fn copy_event_without_any_selection_is_consumed_without_action() {
    let mut latch = false;
    let outcome = consume_pdf_copy_event(&vec![CopyInput::Copy], &mut latch, false, false);

    assert!(!outcome.copy_pdf_selection);
    assert_eq!(outcome.retained, vec![false]);
}

#[test]
fn selected_text_inputs_keep_the_copy_event_ahead_of_pdf_selection() {
    let mut latch = false;
    let outcome = consume_pdf_copy_event(&vec![CopyInput::Copy], &mut latch, true, true);

    assert!(!outcome.copy_pdf_selection);
    assert_eq!(outcome.retained, vec![true]);
    assert!(latch);
}

#[test]
fn copy_key_release_rearms_pdf_copy_after_repeat_is_ignored() {
    let mut latch = false;
    assert!(consume_pdf_copy_event(&vec![CopyInput::Copy], &mut latch, false, true).copy_pdf_selection);
    assert!(!consume_pdf_copy_event(&vec![CopyInput::Copy], &mut latch, false, true).copy_pdf_selection);
    let release =
        consume_pdf_copy_event(&vec![CopyInput::CopyKeyReleased], &mut latch, false, true);
    assert!(!release.copy_pdf_selection);
    assert_eq!(release.retained, vec![true]);
    assert!(!latch);
    assert!(consume_pdf_copy_event(&vec![CopyInput::Copy], &mut latch, false, true).copy_pdf_selection);
}

#[test]
fn copy_release_in_the_same_frame_rearms_the_next_pdf_copy() {
    let mut latch = false;
    let first = consume_pdf_copy_event(
        &vec![CopyInput::Copy, CopyInput::CopyKeyReleased],
        &mut latch,
        false,
        true,
    );
    assert!(first.copy_pdf_selection);
    assert!(!latch);
    assert!(consume_pdf_copy_event(&vec![CopyInput::Copy], &mut latch, false, true).copy_pdf_selection);
}

#[test]
fn other_events_pass_through_a_copy() {
    let mut latch = true;
    let outcome = consume_pdf_copy_event(
        &vec![CopyInput::Other, CopyInput::Copy, CopyInput::Other],
        &mut latch,
        false,
        true,
    );
    assert!(!outcome.copy_pdf_selection);
    assert_eq!(outcome.retained, vec![true, false, true]);
    assert!(latch);
}

#[test]
fn debug_answers_read_as_words() {
    assert_eq!(debug_yes_no(Some(true)), "yes");
    assert_eq!(debug_yes_no(Some(false)), "no");
    assert_eq!(debug_yes_no(None), "pending");
}

#[test]
fn alternative_copy_key_releases_rearm_the_pdf_copy_latch() {
    for release_key in [ReleasedKey::Insert, ReleasedKey::Copy] {
        let mut latch = false;
        assert!(
            consume_pdf_copy_event(&vec![CopyInput::Copy], &mut latch, false, true)
                .copy_pdf_selection
        );
        let release = vec![copy_input_of_release(release_key)];
        assert!(!consume_pdf_copy_event(&release, &mut latch, false, true).copy_pdf_selection);
        assert!(!latch);
        assert!(
            consume_pdf_copy_event(&vec![CopyInput::Copy], &mut latch, false, true)
                .copy_pdf_selection
        );
    }
    assert_eq!(copy_input_of_release(ReleasedKey::Other), CopyInput::Other);
}
