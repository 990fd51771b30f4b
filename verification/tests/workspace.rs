use lunapdf::annotation::AnnotationEditor;
use lunapdf::close_flow::{
    AllTabsPrompt, CloseDecision, CloseFlow, CloseStep, SessionCloseDecision, TabCloseDecision,
    WindowPrompt,
};
use lunapdf::document::{
    AnnotationId, DocumentInfo, DocumentState, DocumentVersion, HighlightCapability,
};
use lunapdf::events::DocumentEvent;
use lunapdf::panes::pointed_side;
use lunapdf::path::{DocumentPath, PathComponent};
use lunapdf::rendering::{RenderPriority, TileCacheKey, TileRequest, TileSpec};
use lunapdf::session::{
    DisplayMode, SessionEntry, SessionLayout, SessionState, SessionTab, SessionView, SidebarTab,
    ZoomMode,
};
use lunapdf::shortcuts::{EscapeOutcome, FocusedField};
use lunapdf::startup::from_startup;
use lunapdf::tab_bar::{
    reveals_entry, split_drop_placement, tab_drag_preview_label, tab_insertion_index, DropTarget, EdgeDistances,
    SplitMenuAction, TabBarActions, TabDragSource, TabPointer,
};
use lunapdf::tabs::{SplitDirection, SplitPlacement, SplitSide, TabId};
use lunapdf::view::{AutoscrollState, PageAnchor, PointBits};
use lunapdf::workspace::Workspace;

fn file(name: &str) -> DocumentPath {
    DocumentPath {
        absolute: true,
        components: vec![
            PathComponent::RootDir,
            PathComponent::Normal("papers".to_owned()),
            PathComponent::Normal(name.to_owned()),
        ],
    }
}

fn started(names: &[&str]) -> Workspace {
    from_startup(names.iter().map(|name| file(name)).collect(), None, vec![]).workspace
}

fn tile(workspace: &Workspace, index: usize, pixel_x: u32) -> TileRequest {
    TileRequest {
        page_index: 0,
        zoom_bits: 0,
        pixels_per_point_bits: 0,
        scale_bits: 0,
        generation: workspace.documents[index].view.generation,
        expected_revision: 0,
        spec: TileSpec {
            pixel_x,
            pixel_y: 0,
            pixel_width: 1,
            pixel_height: 1,
        },
        priority: RenderPriority::Visible,
    }
}

fn tab_ids(workspace: &Workspace) -> Vec<TabId> {
    workspace.tabs.tabs().iter().map(|tab| tab.id()).collect()
}

fn saved_tab(path: DocumentPath, page_index: usize) -> SessionTab {
    SessionTab {
        path,
        view: SessionView {
            page_index,
            page_x_bits: 0.5_f32.to_bits(),
            page_y_bits: 0.5_f32.to_bits(),
            display: DisplayMode::Continuous,
            zoom_mode: ZoomMode::FitWidth,
            zoom_bits: 1.0_f32.to_bits(),
        },
    }
}

fn single_pane_layout(tab_count: usize, selected_tab: usize) -> SessionLayout {
    SessionLayout {
        entries: (0..tab_count)
            .map(|tab_index| SessionEntry::Single { tab_index })
            .collect(),
        active_tab: Some(selected_tab),
    }
}

fn info() -> DocumentInfo {
    DocumentInfo {
        page_count: 1,
        highlight_capability: HighlightCapability::Allowed,
        dirty: false,
        revision: 0,
        version: DocumentVersion {
            identity_primary: 1,
            identity_secondary: 2,
            length: 3,
            modified_seconds: 4,
            modified_nanos: 5,
        },
    }
}

fn opened() -> DocumentEvent {
    DocumentEvent::Opened {
        info: info(),
        shown_path: "shown".to_owned(),
    }
}

fn session(tabs: Vec<SessionTab>, layout: SessionLayout) -> SessionState {
    SessionState {
        tabs,
        layout,
        ..SessionState::default()
    }
}

fn restored(names: &[&str], layout: SessionLayout) -> Workspace {
    let paths = names.iter().map(|name| file(name)).collect::<Vec<_>>();
    let tabs = names.iter().map(|name| saved_tab(file(name), 0)).collect();
    from_startup(
        vec![],
        Some(session(tabs, layout)),
        paths.into_iter().map(Some).collect(),
    )
    .workspace
}

fn finish_restore(workspace: &mut Workspace) {
    let mut index = 0;
    while index < workspace.documents.len() {
        workspace.receive_event(index, false, opened());
        index += 1;
    }
    assert!(workspace.restore.is_none());
}

#[test]
fn split_keeps_both_selected_documents_visible_while_focus_changes() {
    let mut workspace = started(&["0.pdf", "1.pdf", "2.pdf"]);
    let ids = tab_ids(&workspace);

    assert!(workspace
        .tabs
        .create_split(ids[0], ids[2], SplitPlacement::Right));

    assert_eq!(workspace.tabs.visible_indices(), vec![2, 0]);
    assert!(workspace.tabs.is_visible_index(0));
    assert!(!workspace.tabs.is_visible_index(1));
    assert!(workspace.tabs.is_visible_index(2));
    assert_eq!(workspace.active_index(), Some(0));
    assert!(workspace.tabs.has_second_pane());

    workspace.focus_side(SplitSide::First);

    assert_eq!(workspace.active_index(), Some(2));
    assert_eq!(workspace.tabs.visible_indices(), vec![2, 0]);
    assert_eq!(workspace.tabs.focused_side(), SplitSide::First);
}

#[test]
fn pointer_zoom_focuses_and_updates_the_pane_under_the_pointer() {
    let mut workspace = started(&["pointer-zoom-0.pdf", "pointer-zoom-1.pdf"]);
    let ids = tab_ids(&workspace);
    assert!(workspace
        .tabs
        .create_split(ids[0], ids[1], SplitPlacement::Right));
    workspace.focus_side(SplitSide::First);
    assert_eq!(workspace.active_index(), Some(1));
    let pointer = 650.0_f32;
    let panes_hit = vec![pointer < 400.0, pointer >= 400.0];

    workspace.focus_side(pointed_side(false, &panes_hit).unwrap());
    let zoomed = workspace.active_index().unwrap();
    let _cancelled = workspace.documents[zoomed].set_zoom(1.2_f32.to_bits(), ZoomMode::Fixed);

    assert_eq!(workspace.tabs.focused_side(), SplitSide::Second);
    assert_eq!(workspace.active_index(), Some(0));
    assert_eq!(workspace.documents[0].view.zoom_bits, 1.2_f32.to_bits());
    assert_eq!(workspace.documents[1].view.zoom_bits, 1.0_f32.to_bits());

    workspace.focus_side(SplitSide::First);
    workspace.focus_side(pointed_side(false, &panes_hit).unwrap());
    assert_eq!(workspace.tabs.focused_side(), SplitSide::Second);
    assert_eq!(pointed_side(true, &panes_hit), None);
}

#[test]
fn ctrl_tab_treats_a_split_set_as_one_display_entry() {
    let mut workspace = started(&["ctrl-tab-0.pdf", "ctrl-tab-1.pdf", "ctrl-tab-2.pdf"]);
    let ids = tab_ids(&workspace);
    assert!(workspace.tabs.reorder_single(ids[2], 0));
    assert_eq!(workspace.active_index(), Some(2));

    workspace.select_next_tab();

    assert_eq!(workspace.active_index(), Some(0));
}

#[test]
fn consumed_escape_still_stops_active_autoscroll() {
    let mut workspace = started(&["document.pdf"]);
    workspace.documents[0].view.autoscroll = Some(AutoscrollState {
        anchor: PointBits {
            x_bits: 0.0_f32.to_bits(),
            y_bits: 0.0_f32.to_bits(),
        },
        requested_offset: Some(PointBits {
            x_bits: 0.0_f32.to_bits(),
            y_bits: 0.0_f32.to_bits(),
        }),
    });

    let outcome =
        workspace.documents[0].press_escape(&mut workspace.editor, FocusedField::Nothing);

    assert!(matches!(outcome, EscapeOutcome::Nothing));
    assert!(workspace.documents[0].view.autoscroll.is_none());
}

#[test]
fn tab_activation_cancels_navigation_owned_by_previous_document() {
    let mut workspace = started(&["first.pdf", "second.pdf"]);
    workspace.select_tab(0);
    workspace.documents[0].view.autoscroll = Some(AutoscrollState {
        anchor: PointBits {
            x_bits: 0,
            y_bits: 0,
        },
        requested_offset: Some(PointBits {
            x_bits: 0,
            y_bits: 0,
        }),
    });

    let activation = workspace.select_tab(1).unwrap();

    assert!(workspace.documents[0].view.autoscroll.is_none());
    assert!(activation.cancel_viewports);
}

#[test]
fn tab_drag_preview_identifies_a_single_tab_and_both_split_members() {
    let mut workspace = started(&["drag-preview-0.pdf", "drag-preview-1.pdf"]);
    let names = vec![
        "drag-preview-0.pdf".to_owned(),
        "drag-preview-1.pdf".to_owned(),
    ];
    let ids = tab_ids(&workspace);
    assert_eq!(
        tab_drag_preview_label(&workspace.tabs, &names, TabDragSource::Tab(ids[0])),
        Some("drag-preview-0.pdf".to_owned())
    );
    assert!(workspace
        .tabs
        .create_split(ids[0], ids[1], SplitPlacement::Right));
    let group = *workspace.tabs.active_split().unwrap();
    let expected = format!(
        "drag-preview-{}.pdf ｜ drag-preview-{}.pdf",
        workspace
            .tabs
            .tab_registry_index(group.tab(SplitSide::First))
            .unwrap(),
        workspace
            .tabs
            .tab_registry_index(group.tab(SplitSide::Second))
            .unwrap()
    );

    assert_eq!(
        tab_drag_preview_label(&workspace.tabs, &names, TabDragSource::Group(group.id())),
        Some(expected)
    );
}

#[test]
fn closing_an_inactive_first_split_member_preserves_the_second_member_anchor() {
    let mut workspace = started(&[
        "inactive-close-0.pdf",
        "inactive-close-1.pdf",
        "inactive-close-2.pdf",
    ]);
    let ids = tab_ids(&workspace);
    assert!(workspace
        .tabs
        .create_split(ids[0], ids[1], SplitPlacement::Left));
    assert!(workspace.tabs.select_tab(ids[2]));
    let anchor = PageAnchor {
        page_index: 0,
        x_bits: 0.3_f32.to_bits(),
        y_bits: 0.4_f32.to_bits(),
    };
    let second_index = workspace.tabs.tab_registry_index(ids[1]).unwrap();
    workspace.documents[second_index].view.center_anchor = Some(anchor);
    workspace.documents[second_index].view.restore_anchor = None;

    let first_index = workspace.tabs.tab_registry_index(ids[0]).unwrap();
    assert!(workspace.remove_tab_now(first_index).is_some());

    let remaining_index = workspace.tabs.tab_registry_index(ids[1]).unwrap();
    assert_eq!(
        workspace.documents[remaining_index].view.restore_anchor,
        Some(anchor)
    );
}

#[test]
fn startup_restores_fifty_one_tabs_in_order_and_selects_saved_tab() {
    let names = (0..51)
        .map(|index| format!("{index:02}.pdf"))
        .collect::<Vec<_>>();
    let names = names.iter().map(String::as_str).collect::<Vec<_>>();
    let mut workspace = restored(&names, single_pane_layout(51, 12));
    finish_restore(&mut workspace);

    assert_eq!(workspace.tabs.tabs().len(), 51);
    for (index, name) in names.iter().enumerate() {
        assert_eq!(workspace.tabs.tabs()[index].path(), &file(name));
    }
    assert_eq!(workspace.active_index(), Some(12));
}

#[test]
fn startup_restores_shared_order_split_focus_direction_and_ratio() {
    let layout = || SessionLayout {
        entries: vec![
            SessionEntry::Single { tab_index: 2 },
            SessionEntry::Split {
                first_tab: 0,
                second_tab: 3,
                direction: SplitDirection::Vertical,
                ratio_bits: 0.35_f32.to_bits(),
                focused_tab: 3,
            },
            SessionEntry::Single { tab_index: 1 },
        ],
        active_tab: Some(3),
    };
    let mut workspace = restored(
        &["split-0.pdf", "split-1.pdf", "split-2.pdf", "split-3.pdf"],
        layout(),
    );
    finish_restore(&mut workspace);

    assert_eq!(workspace.tabs.entries().len(), 3);
    assert_eq!(workspace.active_index(), Some(3));
    let group = workspace.tabs.active_split().unwrap();
    assert_eq!(group.direction(), SplitDirection::Vertical);
    assert_eq!(group.ratio(), 0.35_f32.to_bits());
    let kept = workspace.current_session(true, false, SidebarTab::Outline, vec![]);
    assert_eq!(kept.layout, layout());
    assert_eq!(kept.validate(), Ok(()));
}

#[test]
fn startup_does_not_restore_tabs_when_session_restore_is_disabled() {
    let mut state = session(
        vec![saved_tab(file("saved.pdf"), 0)],
        single_pane_layout(1, 0),
    );
    state.restore_enabled = false;

    let startup = from_startup(vec![], Some(state), vec![Some(file("saved.pdf"))]);

    assert!(!startup.restore_enabled);
    assert!(startup.workspace.documents.is_empty());
    assert!(startup.workspace.tabs.tabs().is_empty());
    assert!(startup.workspace.restore.is_none());
}

#[test]
fn failed_initial_restore_is_removed_and_remaining_tab_stays_selected() {
    let mut workspace = restored(&["unreadable.pdf", "valid.pdf"], single_pane_layout(2, 0));
    assert!(workspace.restore.is_some());
    let (outcome, _) = workspace.receive_event(
        0,
        false,
        DocumentEvent::Failed {
            operation: "open".to_owned(),
            message: "not a PDF".to_owned(),
        },
    );
    assert!(outcome.drop_restored_tab);
    assert!(workspace.remove_tab_now(0).is_some());
    workspace.receive_event(0, false, opened());
    assert!(workspace.restore.is_none());

    assert_eq!(workspace.documents.len(), 1);
    assert_eq!(workspace.tabs.tabs()[0].path(), &file("valid.pdf"));
    assert_eq!(workspace.active_index(), Some(0));
}

#[test]
fn closing_restored_tab_consumes_pending_restore_result() {
    let mut workspace = restored(&["first.pdf", "second.pdf"], single_pane_layout(2, 0));
    assert_eq!(workspace.restore.map(|progress| progress.pending), Some(2));
    let path = file("first.pdf");
    let mut flow = CloseFlow::new();
    assert_eq!(
        flow.close_tab(&workspace.documents[0], &path, &None),
        TabCloseDecision::Close
    );
    assert!(workspace.remove_tab_now(0).is_some());

    assert_eq!(workspace.documents.len(), 1);
    assert_eq!(workspace.restore.map(|progress| progress.pending), Some(1));
    finish_restore(&mut workspace);
}

#[test]
fn window_close_waits_for_pending_session_restore_before_saving() {
    let mut workspace = restored(&["restore.pdf"], single_pane_layout(1, 0));
    assert!(workspace.restore.is_some());
    let mut flow = CloseFlow::new();
    flow.window_close_pending = true;

    let prompt =
        flow.prompt_next_window_document(&workspace.tabs, &workspace.documents, workspace.restore.is_some());

    assert_eq!(prompt, WindowPrompt::WaitForRestore);
    assert!(flow.window_close_pending);
    assert!(!flow.allow_window_close);
    finish_restore(&mut workspace);
    let prompt =
        flow.prompt_next_window_document(&workspace.tabs, &workspace.documents, workspace.restore.is_some());
    assert_eq!(prompt, WindowPrompt::SaveSession);
}

#[test]
fn explicit_cli_pdf_takes_precedence_over_saved_session() {
    let state = session(
        vec![saved_tab(file("saved.pdf"), 0)],
        single_pane_layout(1, 0),
    );

    let startup = from_startup(
        vec![file("explicit.pdf")],
        Some(state),
        vec![Some(file("saved.pdf"))],
    );

    assert_eq!(startup.workspace.documents.len(), 1);
    assert_eq!(
        startup.workspace.tabs.tabs()[0].path(),
        &file("explicit.pdf")
    );
    assert!(startup.workspace.restore.is_none());
}

#[test]
fn explicit_cli_pdf_restores_and_captures_recent_annotation_colors() {
    let colors = vec![[12, 34, 56], [90, 80, 70]];
    let state = SessionState {
        recent_annotation_colors: colors.clone(),
        ..SessionState::default()
    };

    let startup = from_startup(vec![file("explicit.pdf")], Some(state), vec![]);

    assert_eq!(startup.recent_annotation_colors, colors);
    assert_eq!(
        startup
            .workspace
            .current_session(
                startup.restore_enabled,
                startup.sidebar_open,
                startup.sidebar_tab,
                startup.recent_annotation_colors,
            )
            .recent_annotation_colors,
        colors
    );
}

#[test]
fn missing_files_are_skipped_when_a_session_comes_back() {
    let tabs = vec![saved_tab(file("a.pdf"), 0), saved_tab(file("b.pdf"), 0)];
    let startup = from_startup(
        vec![],
        Some(session(tabs, single_pane_layout(2, 0))),
        vec![None, Some(file("b.pdf"))],
    );
    let progress = startup.workspace.restore.unwrap();
    assert_eq!((progress.pending, progress.skipped), (1, 1));
    assert_eq!(startup.workspace.documents.len(), 1);
    assert_eq!(startup.workspace.active_index(), Some(0));
}

#[test]
fn each_file_of_a_session_that_is_found_is_reported_once() {
    let names = ["a.pdf", "missing.pdf", "b.pdf"];
    let tabs = names.iter().map(|name| saved_tab(file(name), 0)).collect();
    let startup = from_startup(
        vec![],
        Some(session(tabs, single_pane_layout(3, 2))),
        vec![Some(file("a.pdf")), None, Some(file("b.pdf"))],
    );
    let reported: Vec<_> = startup
        .opened
        .iter()
        .map(|outcome| (outcome.index, outcome.is_new))
        .collect();
    assert_eq!(reported, vec![(0, true), (1, true)]);
    assert!(!startup.opened[0].activation.cancel_viewports);
    assert!(startup.opened[1].activation.cancel_viewports);
    assert_eq!(startup.opened[1].activation.left[0].index, 0);
}

#[test]
fn each_named_file_is_reported_once() {
    let startup = from_startup(
        vec![file("a.pdf"), file("b.pdf"), file("a.pdf")],
        None,
        vec![],
    );
    let reported: Vec<_> = startup
        .opened
        .iter()
        .map(|outcome| (outcome.index, outcome.is_new))
        .collect();
    assert_eq!(reported, vec![(0, true), (1, true), (0, false)]);
}

#[test]
fn a_session_whose_files_are_all_found_is_kept_as_it_was() {
    let layout = || SessionLayout {
        entries: vec![
            SessionEntry::Split {
                first_tab: 2,
                second_tab: 0,
                direction: SplitDirection::Horizontal,
                ratio_bits: 0.25_f32.to_bits(),
                focused_tab: 0,
            },
            SessionEntry::Single { tab_index: 1 },
        ],
        active_tab: Some(1),
    };
    let names = ["a.pdf", "b.pdf", "c.pdf"];
    let tabs = || -> Vec<SessionTab> {
        names
            .iter()
            .enumerate()
            .map(|(page_index, name)| saved_tab(file(name), page_index))
            .collect()
    };
    let state = session(tabs(), layout());
    let expected = session(tabs(), layout());
    let found = names.iter().map(|name| Some(file(name))).collect();
    let startup = from_startup(vec![], Some(state), found);
    let kept = startup.workspace.current_session(
        startup.restore_enabled,
        startup.sidebar_open,
        startup.sidebar_tab,
        startup.recent_annotation_colors,
    );
    assert_eq!(kept, expected);
}

#[test]
fn an_identity_is_not_given_out_again() {
    let mut workspace = started(&["a.pdf", "b.pdf"]);
    let ids = tab_ids(&workspace);
    workspace.remove_tab_now(1).unwrap();
    workspace.open_document(file("c.pdf"), None);
    let third = tab_ids(&workspace)[1];
    assert_ne!(third, ids[1]);
    assert_eq!(third, TabId(2));
}

#[test]
fn cycling_on_tells_what_left_the_screen() {
    let mut workspace = started(&["a.pdf", "b.pdf"]);
    workspace.documents[1].search.generation = 7;
    let activation = workspace.select_next_tab().unwrap();
    assert_eq!(workspace.active_index(), Some(0));
    assert!(activation.cancel_viewports);
    assert_eq!(activation.left.len(), 1);
    assert_eq!(activation.left[0].index, 1);
    assert_eq!(activation.left[0].search_generation, 8);
    assert!(!activation.begin_search);
}

#[test]
fn a_draft_can_be_saved_on_the_revision_it_was_made_on() {
    let mut workspace = started(&["a.pdf"]);
    workspace.receive_event(0, false, opened());
    workspace.draft_changed(true, true);
    assert!(workspace.editor.is_none());
    workspace.editor = Some(AnnotationEditor {
        document_id: workspace.documents[0].document_id,
        revision: 0,
        annotation_id: AnnotationId {
            page_index: 0,
            xref: 3,
        },
        dirty: false,
        can_save: false,
        mutation_in_flight: false,
        notice: None,
    });
    let told = |workspace: &mut Workspace, changed: bool, can_edit: bool| {
        workspace.draft_changed(changed, can_edit);
        let editor = workspace.editor.as_ref().unwrap();
        (editor.dirty, editor.can_save)
    };
    assert_eq!(told(&mut workspace, true, true), (true, true));
    assert_eq!(told(&mut workspace, true, false), (true, false));
    assert_eq!(told(&mut workspace, false, true), (false, false));
    workspace.editor.as_mut().unwrap().mutation_in_flight = true;
    assert_eq!(told(&mut workspace, true, true), (true, false));
    let editor = workspace.editor.as_mut().unwrap();
    editor.mutation_in_flight = false;
    editor.revision = 1;
    assert_eq!(told(&mut workspace, true, true), (true, false));
}

#[test]
fn a_document_is_opened_once() {
    let mut workspace = started(&["a.pdf", "b.pdf"]);
    let again = workspace.open_document(file("a.pdf"), None);
    assert!(!again.is_new);
    assert_eq!(again.index, 0);
    assert_eq!(workspace.documents.len(), 2);
    assert_eq!(workspace.active_index(), Some(0));
    assert_ne!(
        workspace.documents[0].document_id,
        workspace.documents[1].document_id
    );
}

#[test]
fn hidden_documents_are_suspended_when_memory_is_short() {
    let mut workspace = started(&["a.pdf", "b.pdf"]);
    for index in 0..2 {
        workspace.receive_event(index, false, opened());
    }
    assert!(workspace
        .maybe_suspend_inactive_document(536_870_912)
        .is_none());
    let wanted = tile(&workspace, 0, 0);
    workspace.documents[0].tiles.tile_requested(wanted);
    let _start = workspace.documents[0]
        .highlight_index
        .start_highlight_index(Some(0), 1);
    let (index, plan) = workspace
        .maybe_suspend_inactive_document(536_870_913)
        .unwrap();
    assert_eq!(index, 0);
    assert_eq!(plan.tiles, vec![wanted]);
    assert!(plan.texts.is_empty());
    assert_eq!(
        plan.search_generation,
        workspace.documents[0].search.generation
    );
    let generation = workspace.documents[0].highlight_index.generation;
    assert_eq!(plan.highlight_generation, Some(generation));
    assert_eq!(workspace.documents[0].state, DocumentState::Suspended);
    assert!(workspace
        .maybe_suspend_inactive_document(usize::MAX)
        .is_none());
    let activation = workspace.select_tab(0).unwrap();
    assert_eq!(activation.resumed.len(), 1);
    assert_eq!(activation.resumed[0].version, info().version);
    assert!(activation.resumed[0].tiles.is_empty());
    assert_eq!(
        activation.resumed[0].highlight_generation,
        Some(generation)
    );
    assert_eq!(
        activation.status(),
        Some("Reopening suspended PDF after external-change check…")
    );
    assert_eq!(workspace.select_tab(0).unwrap().status(), None);
    assert_eq!(workspace.documents[0].state, DocumentState::Opening);
}

#[test]
fn closing_asks_about_unsaved_edits_one_document_at_a_time() {
    let mut workspace = started(&["a.pdf", "b.pdf", "c.pdf"]);
    for index in 0..3 {
        workspace.receive_event(index, false, opened());
    }
    workspace.documents[0].state = DocumentState::ReadyDirty;
    workspace.documents[2].state = DocumentState::ReadyDirty;
    let mut flow = CloseFlow::new();
    assert!(flow.request_close_all(false));
    assert_eq!(
        flow.prompt_next_close_all_document(&workspace.tabs, &workspace.documents),
        AllTabsPrompt::Ask
    );
    assert_eq!(flow.confirmation.as_ref().unwrap().path, file("a.pdf"));
    assert!(matches!(
        flow.apply_close_decision(CloseDecision::Discard, Some(0), false),
        CloseStep::PromptAll
    ));
    assert_eq!(
        flow.prompt_next_close_all_document(&workspace.tabs, &workspace.documents),
        AllTabsPrompt::Ask
    );
    assert_eq!(flow.confirmation.as_ref().unwrap().path, file("c.pdf"));
    assert!(matches!(
        flow.apply_close_decision(CloseDecision::Discard, Some(2), false),
        CloseStep::PromptAll
    ));
    assert_eq!(
        flow.prompt_next_close_all_document(&workspace.tabs, &workspace.documents),
        AllTabsPrompt::CloseAll
    );
    assert_eq!(workspace.remove_all_tabs().len(), 3);
    assert!(workspace.documents.is_empty());
}

#[test]
fn calling_off_a_close_leaves_everything_open() {
    let mut workspace = started(&["a.pdf"]);
    workspace.receive_event(0, false, opened());
    workspace.documents[0].state = DocumentState::ReadyDirty;
    let mut flow = CloseFlow::new();
    assert_eq!(
        flow.close_tab(&workspace.documents[0], &file("a.pdf"), &None),
        TabCloseDecision::Ask
    );
    assert!(flow.is_closing());
    assert!(matches!(
        flow.apply_close_decision(CloseDecision::Cancel, Some(0), false),
        CloseStep::Cancelled
    ));
    assert!(!flow.is_closing());
}

#[test]
fn a_session_that_cannot_be_saved_keeps_the_window_open() {
    let mut flow = CloseFlow::new();
    flow.window_close_pending = true;
    flow.session_not_saved("disk full");
    assert!(flow.session_failure.as_ref().unwrap().contains("disk full"));
    assert!(!flow.allow_window_close);
    flow.apply_session_close_decision(SessionCloseDecision::ExitWithoutSession);
    assert!(flow.allow_window_close);
}

#[test]
fn insertion_index_supports_left_between_and_right_gaps() {
    let centers = vec![50.0_f32.to_bits(), 151.0_f32.to_bits()];

    assert_eq!(tab_insertion_index(&centers, (-1.0_f32).to_bits()), 0);
    assert_eq!(tab_insertion_index(&centers, 100.5_f32.to_bits()), 1);
    assert_eq!(tab_insertion_index(&centers, 300.0_f32.to_bits()), 2);
    assert_eq!(tab_insertion_index(&vec![], 20.0_f32.to_bits()), 0);
}

fn placement(width: f32, height: f32, x: f32, y: f32) -> Option<SplitPlacement> {
    let inside = (0.0..=width).contains(&x) && (0.0..=height).contains(&y);
    split_drop_placement(
        inside,
        EdgeDistances {
            left: (x / width).to_bits(),
            right: ((width - x) / width).to_bits(),
            top: (y / height).to_bits(),
            bottom: ((height - y) / height).to_bits(),
        },
    )
}

#[test]
fn split_drop_uses_edges_and_keeps_center_as_cancel() {
    assert_eq!(
        placement(1_000.0, 500.0, 100.0, 250.0),
        Some(SplitPlacement::Left)
    );
    assert_eq!(
        placement(1_000.0, 500.0, 900.0, 250.0),
        Some(SplitPlacement::Right)
    );
    assert_eq!(placement(1_000.0, 500.0, 500.0, 250.0), None);
    assert_eq!(placement(1_000.0, 500.0, -1.0, 250.0), None);
}

#[test]
fn vertical_drop_uses_top_and_bottom_edges() {
    assert_eq!(
        placement(500.0, 1_000.0, 250.0, 100.0),
        Some(SplitPlacement::Top)
    );
    assert_eq!(
        placement(500.0, 1_000.0, 250.0, 900.0),
        Some(SplitPlacement::Bottom)
    );
    assert_eq!(placement(500.0, 1_000.0, 250.0, 500.0), None);
}

#[test]
fn dropping_a_tab_on_a_pane_makes_a_split_and_the_menu_undoes_it() {
    let mut workspace = started(&["a.pdf", "b.pdf"]);
    let ids = tab_ids(&workspace);
    let (changed, activation) = workspace.finish_tab_drag(
        TabDragSource::Tab(ids[0]),
        DropTarget::OnlyPane {
            showing: ids[1],
            placement: Some(SplitPlacement::Left),
        },
    );
    assert!(changed);
    let activation = activation.unwrap();
    assert!(activation.cancel_viewports);
    assert!(activation.left.is_empty() && activation.resumed.is_empty());
    assert_eq!(workspace.tabs.visible_tab_ids(), vec![ids[0], ids[1]]);
    let group = workspace.tabs.active_split().unwrap().id();
    let (changed, _) = workspace.apply_split_menu(SplitMenuAction::Swap(group));
    assert!(changed);
    assert_eq!(workspace.tabs.visible_tab_ids(), vec![ids[1], ids[0]]);
    workspace.documents[1].search.generation = 4;
    let (changed, activation) = workspace.apply_split_menu(SplitMenuAction::Unsplit(group));
    assert!(changed);
    let activation = activation.unwrap();
    assert!(!activation.cancel_viewports);
    assert_eq!(activation.left.len(), 1);
    assert_eq!(activation.left[0].index, 1);
    assert_eq!(activation.left[0].search_generation, 5);
    assert!(!workspace.tabs.has_second_pane());
    let (changed, activation) = workspace.finish_tab_drag(
        TabDragSource::Tab(ids[0]),
        DropTarget::TwoPanes { side: None },
    );
    assert!(!changed);
    assert!(activation.is_none());
}

#[test]
fn the_entry_of_the_tab_to_reveal_is_scrolled_to() {
    let mut workspace = started(&["a.pdf", "b.pdf", "c.pdf"]);
    let ids = tab_ids(&workspace);
    assert_eq!(workspace.tab_to_reveal, Some(2));
    let revealed = |workspace: &Workspace, tab_to_reveal: Option<usize>| -> Vec<bool> {
        workspace
            .tabs
            .entries()
            .iter()
            .map(|entry| reveals_entry(&workspace.tabs, entry, tab_to_reveal))
            .collect()
    };
    assert_eq!(revealed(&workspace, Some(2)), vec![false, false, true]);
    assert_eq!(revealed(&workspace, Some(1)), vec![false, false, false]);
    assert_eq!(revealed(&workspace, None), vec![false, false, false]);
    assert!(workspace
        .tabs
        .create_split(ids[1], ids[2], SplitPlacement::Left));
    assert_eq!(revealed(&workspace, Some(0)), vec![false, true]);
    assert_eq!(revealed(&workspace, None), vec![false, false]);
}

#[test]
fn clicks_on_tabs_are_collected() {
    let idle = TabPointer {
        drag_started: false,
        drag_stopped: false,
        clicked: false,
        middle_clicked: false,
        close_clicked: false,
    };
    let mut actions = TabBarActions::nothing();
    actions.collect_tab_pointer_actions(TabId(1), TabPointer { clicked: true, ..idle }, true);
    actions.collect_tab_pointer_actions(
        TabId(2),
        TabPointer {
            clicked: true,
            middle_clicked: true,
            ..idle
        },
        false,
    );
    assert_eq!(actions.select, Some(TabId(1)));
    assert_eq!(actions.close, None);
    actions.collect_tab_pointer_actions(
        TabId(3),
        TabPointer {
            middle_clicked: true,
            drag_started: true,
            ..idle
        },
        true,
    );
    assert_eq!(actions.close, Some(TabId(3)));
    assert_eq!(actions.drag_started, Some(TabDragSource::Tab(TabId(3))));
    actions.collect_tab_pointer_actions(TabId(4), TabPointer { drag_stopped: true, ..idle }, true);
    assert!(actions.drag_released);
    assert_eq!(actions.close, Some(TabId(3)));
}

#[test]
fn tiles_that_leave_the_cache_leave_their_document() {
    let mut workspace = started(&["a.pdf", "b.pdf"]);
    let key = |document_id: u64, pixel_x: u32| TileCacheKey {
        document_id,
        page_index: 0,
        zoom_bits: 0,
        pixels_per_point_bits: 0,
        rotation_quarter_turns: 0,
        spec: TileSpec {
            pixel_x,
            pixel_y: 0,
            pixel_width: 1,
            pixel_height: 1,
        },
        revision: 0,
    };
    let first = workspace.documents[0].document_id;
    let second = workspace.documents[1].document_id;
    for pixel_x in [0, 1] {
        workspace.documents[0].tile_kept(key(first, pixel_x), false, true);
        workspace.documents[1].tile_kept(key(second, pixel_x), false, true);
    }
    workspace.remove_evicted_gpu_tiles(&vec![key(first, 0), key(second, 1), key(999, 0)]);
    assert!(!workspace.documents[0].tiles.cached.contains(key(first, 0)));
    assert!(workspace.documents[0].tiles.cached.contains(key(first, 1)));
    assert!(workspace.documents[1].tiles.cached.contains(key(second, 0)));
    assert!(!workspace.documents[1].tiles.cached.contains(key(second, 1)));
}
