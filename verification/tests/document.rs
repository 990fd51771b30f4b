use lunapdf::annotation::AnnotationEditor;
use lunapdf::annotation_actions::{
    annotation_action_is_current, answer_picker, editor_action, find_annotation,
    missing_annotation_error, open_annotation_editor, picker_is_shown, request_annotation_delete,
    show_editor, AnnotationEditorAction, AnnotationEntry, AnnotationPicker, EditorOpening,
    EditorShown, EditorStep, HighlightSidebarAction, SidebarStep,
};
use lunapdf::annotation::DeleteDecision;
use lunapdf::document::{
    document_failure_message, document_save_blocks_close, state_after_document_info, AnnotationId,
    DocumentInfo, DocumentState, DocumentTab, DocumentVersion, EditAction, HighlightCapability,
    SaveAsState, Selection,
};
use lunapdf::editing::{HighlightDecision, SaveDecision};
use lunapdf::events::{receive_document_event, DocumentEvent, EventContext};
use lunapdf::external::{external_check_due, find_same_folder_rename, ExternalDecision};
use lunapdf::page_view::PaneContent;
use lunapdf::path::{DocumentPath, PathComponent};
use lunapdf::rendering::{AnnotationPageRequest, RenderedTile, TileSpec};
use lunapdf::session::DisplayMode;
use lunapdf::shortcuts::{EscapeOutcome, FocusedField, SaveShortcut};
use lunapdf::view::{AutoscrollState, PageAnchor, PointBits};

fn version(length: u64) -> DocumentVersion {
    DocumentVersion {
        identity_primary: 0,
        identity_secondary: 0,
        length,
        modified_seconds: 0,
        modified_nanos: 0,
    }
}

fn info(page_count: usize, revision: u64, dirty: bool) -> DocumentInfo {
    DocumentInfo {
        page_count,
        highlight_capability: HighlightCapability::Allowed,
        dirty,
        revision,
        version: version(100),
    }
}

fn open_tab() -> DocumentTab {
    let mut tab = DocumentTab::new(1, 0, None);
    tab.info = Some(info(5, 3, false));
    tab.state = DocumentState::ReadyClean;
    tab
}

fn in_view() -> EventContext {
    EventContext {
        visible: true,
        active: true,
        closing: false,
    }
}

fn note(xref: i32) -> AnnotationId {
    AnnotationId {
        page_index: 2,
        xref,
    }
}

fn editor(dirty: bool) -> Option<AnnotationEditor> {
    Some(AnnotationEditor {
        document_id: 1,
        revision: 3,
        annotation_id: note(7),
        dirty,
        can_save: dirty,
        mutation_in_flight: false,
        notice: None,
    })
}

#[test]
fn page_navigation_preserves_the_render_generation() {
    let mut tab = DocumentTab::new(1, 0, None);
    tab.info = Some(info(2, 0, false));
    let generation = tab.view.generation;

    tab.jump_to_page(1);

    assert_eq!(tab.view.current_page, 1);
    assert_eq!(tab.view.generation, generation);
}

#[test]
fn pages_that_do_not_exist_are_not_shown() {
    let mut tab = open_tab();
    tab.page_input_error = Some("earlier".to_owned());
    tab.jump_to_page(5);
    assert_eq!(tab.view.current_page, 0);
    assert!(tab.page_input_error.is_some());
    tab.submit_page_number("4");
    assert_eq!(tab.view.current_page, 3);
    assert!(tab.page_input_error.is_none());
    tab.submit_page_number("9");
    assert_eq!(tab.view.current_page, 3);
    assert!(tab.page_input_error.is_some());
}

#[test]
fn pane_transition_restores_the_mode_specific_center_anchor() {
    let mut tab = DocumentTab::new(1, 0, None);
    let continuous_anchor = PageAnchor {
        page_index: 4,
        x_bits: 0.3_f32.to_bits(),
        y_bits: 0.7_f32.to_bits(),
    };
    tab.view.center_anchor = Some(continuous_anchor);
    tab.view.autoscroll = Some(AutoscrollState {
        anchor: PointBits {
            x_bits: 0,
            y_bits: 0,
        },
        requested_offset: None,
    });

    tab.prepare_for_pane_transition();

    assert_eq!(tab.view.restore_anchor, Some(continuous_anchor));
    assert!(tab.view.autoscroll.is_none());

    let single_anchor = PointBits {
        x_bits: 0.2_f32.to_bits(),
        y_bits: 0.8_f32.to_bits(),
    };
    tab.view.display_mode = DisplayMode::SinglePage;
    tab.view.single_center_anchor = Some(single_anchor);
    tab.prepare_for_pane_transition();

    assert_eq!(tab.view.restore_single_anchor, Some(single_anchor));
}

#[test]
fn worker_disconnect_clears_every_close_blocking_operation() {
    let mut tab = DocumentTab::new(1, 0, None);
    tab.state = DocumentState::Saving;
    tab.pending_edits = 1;
    tab.annotations.pending.insert(AnnotationPageRequest {
        page_index: 0,
        expected_revision: 0,
    });
    tab.undo_in_flight = true;
    tab.save_in_flight = true;
    tab.print_in_flight = true;

    tab.mark_worker_disconnected();

    assert_eq!(tab.pending_edits, 0);
    assert!(tab.annotations.pending.is_empty());
    assert!(!tab.undo_in_flight);
    assert!(!tab.is_saving());
    assert!(!tab.is_printing());
    assert_eq!(tab.state, DocumentState::Error);
    assert!(!tab.connected);
}

#[test]
fn worker_errors_have_japanese_guidance_and_keep_diagnostic_detail() {
    let message = document_failure_message("save", "permission denied");

    assert!(message.starts_with("PDFを保存できませんでした。"));
    assert!(message.contains("書き込み権限"));
    assert!(message.ends_with("詳細: permission denied"));
}

#[test]
fn queued_save_blocks_close_until_document_returns_clean() {
    let after_highlight_event = state_after_document_info(DocumentState::Saving, true);
    let save_in_flight = true;
    assert_eq!(after_highlight_event, DocumentState::Saving);
    assert!(document_save_blocks_close(save_in_flight));

    let after_info_failure = DocumentState::Error;
    assert_eq!(after_info_failure, DocumentState::Error);
    assert!(document_save_blocks_close(save_in_flight));

    let after_save_event = state_after_document_info(after_highlight_event, false);
    assert_eq!(after_save_event, DocumentState::ReadyClean);
    assert!(!document_save_blocks_close(false));
}

#[test]
fn platform_copy_event_reaches_the_existing_pdf_copy_path_once() {
    let mut tab = open_tab();
    assert!(tab.copy_selection().is_none());
    tab.selection = Some(Selection {
        page_index: 0,
        generation: 1,
        text: "日本語\nPDF text".to_owned(),
        quad_count: 0,
    });
    let mut latch = false;
    let first = lunapdf::controls::consume_pdf_copy_event(
        &vec![lunapdf::controls::CopyInput::Copy],
        &mut latch,
        false,
        tab.can_copy_selection(),
    );
    assert!(first.copy_pdf_selection);
    let (text, status) = tab.copy_selection().unwrap();
    assert_eq!(text, "日本語\nPDF text");
    assert_eq!(status, "Selected text copied");
    let repeated = lunapdf::controls::consume_pdf_copy_event(
        &vec![lunapdf::controls::CopyInput::Copy],
        &mut latch,
        false,
        tab.can_copy_selection(),
    );
    assert!(!repeated.copy_pdf_selection);
}

#[test]
fn an_opened_document_is_ready_and_loads_its_outline() {
    let mut tab = DocumentTab::new(1, 0, None);
    let mut none = None;
    assert!(matches!(tab.pane_content(), PaneContent::Waiting));
    let outcome = receive_document_event(
        &mut tab,
        &mut none,
        in_view(),
        DocumentEvent::Opened {
            info: info(5, 3, false),
            shown_path: "/papers/a.pdf".to_owned(),
        },
    );
    assert_eq!(tab.state, DocumentState::ReadyClean);
    assert_eq!(tab.page_count(), 5);
    assert_eq!(tab.revision(), Some(3));
    assert!(outcome.status.is_some());
    assert!(matches!(tab.pane_content(), PaneContent::Pages));
}

#[test]
fn a_tile_of_an_earlier_generation_is_not_kept() {
    let mut tab = open_tab();
    let mut none = None;
    let tile = RenderedTile {
        page_index: 0,
        zoom_bits: tab.view.zoom_bits,
        pixels_per_point_bits: 0,
        generation: tab.view.generation.wrapping_sub(1),
        revision: 3,
        spec: TileSpec {
            pixel_x: 0,
            pixel_y: 0,
            pixel_width: 1,
            pixel_height: 1,
        },
        page_pixel_width: 1,
        page_pixel_height: 1,
        pixel_bytes: 4,
        bounds_match: true,
    };
    let outcome = receive_document_event(
        &mut tab,
        &mut none,
        in_view(),
        DocumentEvent::TileRendered(tile),
    );
    assert!(outcome.keep_tile.is_none());
}

#[test]
fn undoing_an_edit_takes_it_back() {
    let mut tab = open_tab();
    let mut none = None;
    tab.selection = Some(Selection {
        page_index: 1,
        generation: 1,
        text: "x".to_owned(),
        quad_count: 2,
    });
    assert!(matches!(
        tab.create_highlight(false),
        HighlightDecision::Send { page_index: 1 }
    ));
    assert!(tab.highlight_sent(true).is_ok());
    assert_eq!(tab.pending_edits, 1);
    assert!(tab.has_unsaved_changes());
    let edit = EditAction::CreateHighlight {
        page_index: 1,
        annotation_xref: 9,
    };
    receive_document_event(
        &mut tab,
        &mut none,
        in_view(),
        DocumentEvent::EditActionCreated(edit),
    );
    assert_eq!(tab.pending_edits, 0);
    assert_eq!(tab.edit_history, vec![edit]);
    assert!(tab.can_undo(&none, false));
    assert_eq!(tab.undo(&none, false), Some(edit));
    assert!(tab.undo_sent(true).is_ok());
    assert!(!tab.can_undo(&none, false));
    receive_document_event(
        &mut tab,
        &mut none,
        in_view(),
        DocumentEvent::EditActionUndone(edit),
    );
    assert!(tab.edit_history.is_empty());
    assert!(!tab.undo_in_flight);
}

#[test]
fn saving_goes_through_its_states() {
    let mut tab = open_tab();
    assert_eq!(tab.save(false), SaveDecision::NothingToSave);
    tab.info = Some(info(5, 3, true));
    tab.state = DocumentState::ReadyDirty;
    assert_eq!(tab.save(true), SaveDecision::Ignored);
    assert_eq!(tab.save(false), SaveDecision::Send);
    assert!(tab.save_sent(true).is_ok());
    assert_eq!(tab.save(false), SaveDecision::AlreadySaving);
    assert!(!tab.can_print(false));
    let mut none = None;
    let outcome = receive_document_event(
        &mut tab,
        &mut none,
        in_view(),
        DocumentEvent::DocumentChanged {
            info: info(5, 4, false),
            external_reload: false,
        },
    );
    assert!(outcome.saved);
    assert!(!tab.is_saving());
    assert_eq!(tab.state, DocumentState::ReadyClean);
}

#[test]
fn a_failed_save_ends_the_save_and_says_why() {
    let mut tab = open_tab();
    tab.state = DocumentState::ReadyDirty;
    assert!(tab.save_sent(true).is_ok());
    let mut none = None;
    let outcome = receive_document_event(
        &mut tab,
        &mut none,
        in_view(),
        DocumentEvent::Failed {
            operation: "save".to_owned(),
            message: "disk full".to_owned(),
        },
    );
    assert!(outcome.save_failed);
    assert!(!tab.is_saving());
    assert_eq!(
        tab.error,
        Some(document_failure_message("save", "disk full"))
    );
}

#[test]
fn external_changes_are_seen_twice_before_a_reload() {
    let mut tab = open_tab();
    let none = None;
    assert_eq!(
        tab.check_external_change(Some(version(100)), &none),
        ExternalDecision::Nothing
    );
    assert_eq!(
        tab.check_external_change(Some(version(200)), &none),
        ExternalDecision::Nothing
    );
    assert_eq!(
        tab.check_external_change(Some(version(200)), &none),
        ExternalDecision::Reload
    );
    assert!(tab.external_reload_sent(true).is_some());
    assert!(tab.reload_in_flight);
    assert_eq!(
        tab.check_external_change(None, &none),
        ExternalDecision::LookForRename
    );
}

#[test]
fn unsaved_edits_are_not_reloaded_over() {
    let mut tab = open_tab();
    tab.state = DocumentState::ReadyDirty;
    let none = None;
    tab.check_external_change(Some(version(200)), &none);
    assert_eq!(
        tab.check_external_change(Some(version(200)), &none),
        ExternalDecision::Nothing
    );
    assert!(tab.external_conflict_reported);
    assert!(tab.error.is_some());
    assert!(tab.offers_conflict_copy());
}

#[test]
fn a_renamed_file_is_found_by_its_identity() {
    let expected = version(100);
    let other = DocumentVersion {
        identity_secondary: 9,
        ..version(100)
    };
    assert_eq!(
        find_same_folder_rename(&vec![None, Some(other), Some(version(7))], expected),
        Some(2)
    );
    assert_eq!(find_same_folder_rename(&vec![None, Some(other)], expected), None);
    assert_eq!(find_same_folder_rename(&vec![], expected), None);
}

#[test]
fn restrictions_are_explained() {
    assert!(HighlightCapability::Allowed.is_allowed());
    assert!(HighlightCapability::Allowed.restriction().is_none());
    for restricted in [
        HighlightCapability::ReadOnlyFile,
        HighlightCapability::AnnotationPermissionDenied,
        HighlightCapability::SignedDocument,
    ] {
        assert!(!restricted.is_allowed());
        assert!(restricted.restriction().is_some());
    }
}

fn page() -> Option<Vec<AnnotationEntry>> {
    Some(vec![
        AnnotationEntry {
            id: note(7),
            can_delete: true,
        },
        AnnotationEntry {
            id: note(8),
            can_delete: false,
        },
    ])
}

#[test]
fn annotations_are_opened_from_pages_that_list_them() {
    let mut open = None;
    assert_eq!(
        open_annotation_editor(&mut open, 1, 3, &None, note(7)),
        EditorOpening::Missing
    );
    assert_eq!(
        open_annotation_editor(&mut open, 1, 3, &page(), note(9)),
        EditorOpening::Missing
    );
    assert!(open.is_none());
    assert!(missing_annotation_error().starts_with("注釈を開けませんでした。"));
    assert_eq!(
        open_annotation_editor(&mut open, 1, 3, &page(), note(7)),
        EditorOpening::Opened
    );
    assert_eq!(open.as_ref().unwrap().annotation_id, note(7));
    open.as_mut().unwrap().dirty = true;
    assert_eq!(
        open_annotation_editor(&mut open, 1, 3, &page(), note(8)),
        EditorOpening::Kept
    );
    assert_eq!(open.as_ref().unwrap().annotation_id, note(7));
    assert_eq!(
        open.as_ref().unwrap().notice.as_deref(),
        Some("別の注釈を開く前に、現在の変更を保存または破棄してください。")
    );
    assert_eq!(
        find_annotation(&page().unwrap(), note(8)).map(|entry| entry.can_delete),
        Some(false)
    );
}

#[test]
fn deletions_need_permission_and_spare_other_changes() {
    let mut clean = editor(false);
    assert_eq!(
        request_annotation_delete(&mut clean, 1, 3, &page(), note(7)),
        DeleteDecision::Send
    );
    assert_eq!(
        request_annotation_delete(&mut clean, 1, 3, &page(), note(8)),
        DeleteDecision::Forbidden
    );
    assert_eq!(
        request_annotation_delete(&mut clean, 1, 3, &None, note(7)),
        DeleteDecision::Forbidden
    );
    let mut dirty = editor(true);
    assert_eq!(
        request_annotation_delete(&mut dirty, 1, 3, &page(), note(8)),
        DeleteDecision::EditorBusy
    );
    assert!(dirty.as_ref().unwrap().notice.is_some());
    assert_eq!(
        request_annotation_delete(&mut dirty, 1, 3, &page(), note(7)),
        DeleteDecision::Send
    );
}

#[test]
fn actions_on_an_outdated_page_do_not_count() {
    assert!(annotation_action_is_current(Some(2), 2, Some(5), 5));
    assert!(!annotation_action_is_current(Some(1), 2, Some(5), 5));
    assert!(!annotation_action_is_current(None, 2, Some(5), 5));
    assert!(!annotation_action_is_current(Some(2), 2, Some(6), 5));
    assert!(!annotation_action_is_current(Some(2), 2, None, 5));
}

#[test]
fn a_choice_ends_with_an_answer() {
    let offer = || {
        Some(AnnotationPicker {
            document_id: 1,
            revision: 3,
            candidates: vec![note(7), note(8)],
        })
    };
    let mut picker = offer();
    assert!(picker_is_shown(&picker, 1, Some(3)));
    assert!(!picker_is_shown(&picker, 1, Some(4)));
    assert!(!picker_is_shown(&picker, 2, Some(3)));
    assert_eq!(answer_picker(&mut picker, 1, Some(3), None, false), None);
    assert!(picker.is_some());
    assert_eq!(
        answer_picker(&mut picker, 1, Some(3), Some(note(8)), false),
        Some((3, note(8)))
    );
    assert!(picker.is_none());
    let mut picker = offer();
    assert_eq!(answer_picker(&mut picker, 1, Some(3), None, true), None);
    assert!(picker.is_none());
    let mut picker = offer();
    assert_eq!(
        answer_picker(&mut picker, 1, Some(9), Some(note(8)), true),
        None
    );
    assert!(picker.is_some());
}

#[test]
fn an_editor_over_a_changed_document_says_so() {
    let mut open = editor(true);
    assert_eq!(show_editor(&mut open, 1, Some(3)), EditorShown::Current);
    assert!(open.as_ref().unwrap().notice.is_none());
    assert_eq!(show_editor(&mut open, 2, Some(3)), EditorShown::Hidden);
    assert_eq!(show_editor(&mut open, 1, Some(4)), EditorShown::Stale);
    assert_eq!(
        open.as_ref().unwrap().notice.as_deref(),
        Some("PDFが変更されたため、この編集内容は保存できません。変更を破棄してください。")
    );
    assert_eq!(
        editor_action(&mut open, AnnotationEditorAction::Delete),
        EditorStep::Delete(3, note(7))
    );
    assert_eq!(
        editor_action(&mut open, AnnotationEditorAction::Save),
        EditorStep::Update
    );
    assert_eq!(
        editor_action(&mut open, AnnotationEditorAction::Discard),
        EditorStep::Closed
    );
    assert!(open.is_none());
    assert_eq!(show_editor(&mut open, 1, Some(3)), EditorShown::Hidden);
}

#[test]
fn the_list_of_highlights_moves_edits_and_deletes() {
    let mut tab = open_tab();
    let mut open = None;
    assert_eq!(
        tab.handle_highlight_sidebar_action(&mut open, 3, HighlightSidebarAction::Jump(4)),
        SidebarStep::Shown
    );
    assert_eq!(tab.view.current_page, 4);
    let entry = AnnotationEntry {
        id: note(7),
        can_delete: false,
    };
    assert_eq!(
        tab.handle_highlight_sidebar_action(&mut open, 3, HighlightSidebarAction::Edit(entry)),
        SidebarStep::Edited(true)
    );
    assert_eq!(tab.view.current_page, 2);
    assert_eq!(open.as_ref().unwrap().annotation_id, note(7));
    assert_eq!(
        tab.handle_highlight_sidebar_action(&mut open, 3, HighlightSidebarAction::Delete(entry)),
        SidebarStep::Deleted(DeleteDecision::Forbidden)
    );
}

#[test]
fn escape_leaves_fields_before_it_ends_a_search() {
    let mut tab = open_tab();
    let mut none = None;
    assert!(matches!(
        tab.press_escape(&mut none, FocusedField::Query),
        EscapeOutcome::LeaveField
    ));
    tab.search.query = "x".to_owned();
    assert!(matches!(
        tab.press_escape(&mut none, FocusedField::Nothing),
        EscapeOutcome::EndSearch(_)
    ));
}

#[test]
fn the_save_shortcut_saves_the_annotation_first() {
    let mut tab = open_tab();
    tab.state = DocumentState::ReadyDirty;
    assert!(matches!(
        tab.press_save(&editor(true), false),
        SaveShortcut::UpdateAnnotation
    ));
    assert!(matches!(tab.press_save(&None, false), SaveShortcut::Save));
}

#[test]
fn a_conflicting_document_is_saved_to_a_copy() {
    let copy = || DocumentPath {
        absolute: true,
        components: vec![
            PathComponent::RootDir,
            PathComponent::Normal("copy.pdf".to_owned()),
        ],
    };
    let mut tab = open_tab();
    assert_eq!(tab.conflict_copy_sent(copy(), false), None);
    assert!(matches!(tab.save_as, SaveAsState::Idle));
    assert_eq!(
        tab.conflict_copy_sent(copy(), true),
        Some("編集版を別名保存しています…")
    );
    assert!(matches!(&tab.save_as, SaveAsState::Saving(path) if *path == copy()));
}

#[test]
fn a_renamed_file_is_followed() {
    let previous = || DocumentPath {
        absolute: true,
        components: vec![
            PathComponent::RootDir,
            PathComponent::Normal("before.pdf".to_owned()),
        ],
    };
    let mut tab = open_tab();
    assert_eq!(tab.rename_sent(previous(), false), None);
    assert!(tab.pending_rebind_path.is_none());
    assert_eq!(
        tab.rename_sent(previous(), true),
        Some("PDF の名前変更を追跡しています…")
    );
    assert_eq!(tab.pending_rebind_path, Some(previous()));
}

#[test]
fn an_edit_fails_only_in_a_document_that_was_opened() {
    let failed = |operation: &str| DocumentEvent::Failed {
        operation: operation.to_owned(),
        message: "broken".to_owned(),
    };
    let mut tab = DocumentTab::new(1, 0, None);
    for operation in ["highlight", "annotation-update", "annotation-delete"] {
        assert!(!tab.expects(&failed(operation)));
    }
    assert!(tab.expects(&failed("open")));
    assert!(tab.expects(&DocumentEvent::Disconnected));
    tab.pending_edits = 2;
    assert!(tab.expects(&failed("highlight")));
    assert!(open_tab().expects(&failed("highlight")));
    let mut opened = open_tab();
    opened.pending_edits = 1;
    opened.state = DocumentState::ReadyDirty;
    let _outcome = receive_document_event(&mut opened, &mut None, in_view(), failed("highlight"));
    assert_eq!((opened.pending_edits, opened.state), (0, DocumentState::ReadyDirty));
}

#[test]
fn files_are_looked_at_every_three_tenths_of_a_second() {
    assert!(!external_check_due(299_999_999));
    assert!(external_check_due(300_000_000));
}
