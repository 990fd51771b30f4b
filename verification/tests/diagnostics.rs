use lunapdf::diagnostics::{
    header_line, render_detail_line, render_event_line, render_line, render_sample_line,
    set_container_fields, set_display, set_worker_fields, ContainerCounts, Diagnostics, DiagnosticsSnapshot,
    DocumentDiagnosticsSnapshot, LruSnapshot, WorkerQueueSnapshot, COLUMN_COUNT,
};
use lunapdf::performance::{Painted, RenderPerformance};
use lunapdf::sampling::{
    display_is_stable, display_is_unavailable, phase_name, DiagnosticsPhase, DisplayReadiness,
    DisplayRenderState, SamplingState, SAMPLE_INTERVAL_NANOS, WARMUP_NANOS,
};

fn blank_document() -> DocumentDiagnosticsSnapshot {
    DocumentDiagnosticsSnapshot {
        document_id: 0,
        state: "",
        active: false,
        visible: false,
        containers: ContainerCounts::default(),
        worker: WorkerQueueSnapshot::default(),
    }
}

fn blank_snapshot() -> DiagnosticsSnapshot {
    DiagnosticsSnapshot::from_documents(
        None,
        LruSnapshot::default(),
        LruSnapshot::default(),
        0,
        None,
        vec![],
    )
}

#[test]
fn header_and_rendered_rows_have_the_same_number_of_columns() {
    let snapshot = blank_snapshot();
    let document = blank_document();

    let expected = COLUMN_COUNT;
    assert_eq!(header_line().split('\t').count(), expected);
    assert_eq!(
        render_event_line("startup", "process_start", 0)
            .split('\t')
            .count(),
        expected
    );
    assert_eq!(
        render_sample_line("warmup", "", 1000, &snapshot)
            .split('\t')
            .count(),
        expected
    );
    assert_eq!(
        render_detail_line("warmup", "rss_threshold", 1000, &snapshot, &document)
            .split('\t')
            .count(),
        expected
    );
}

#[test]
fn a_row_about_nothing_holds_what_happened_and_blanks() {
    let row = render_line("event", "restore", "restore_complete", 2500, None, None);
    let fields: Vec<_> = row.split('\t').collect();
    assert_eq!(
        fields[..4],
        ["event", "restore", "restore_complete", "2.500"]
    );
    assert_eq!(fields.len(), COLUMN_COUNT);
    assert!(fields[4..].iter().all(|field| field.is_empty()));
}

#[test]
fn times_are_written_in_seconds_with_three_places() {
    let written = |milliseconds: u64| -> String {
        render_event_line("startup", "process_start", milliseconds)
            .split('\t')
            .nth(3)
            .unwrap()
            .to_owned()
    };
    for (milliseconds, seconds) in [
        (0, "0.000"),
        (7, "0.007"),
        (45, "0.045"),
        (999, "0.999"),
        (1_000, "1.000"),
        (61_250, "61.250"),
        (10_000_000, "10000.000"),
    ] {
        assert_eq!(written(milliseconds), seconds);
        assert_eq!(
            written(milliseconds),
            format!("{:.3}", milliseconds as f64 / 1_000.0)
        );
    }
}

#[test]
fn values_stand_under_their_names() {
    let document = DocumentDiagnosticsSnapshot {
        document_id: 41,
        state: "ready",
        active: true,
        visible: false,
        containers: ContainerCounts {
            tiles: 7,
            search_matches: 9,
            ..ContainerCounts::default()
        },
        worker: WorkerQueueSnapshot {
            foreground: 3,
            scheduled_text_snapshots: 5,
            ..WorkerQueueSnapshot::default()
        },
    };
    let snapshot = DiagnosticsSnapshot::from_documents(
        Some(1234),
        LruSnapshot {
            count: 2,
            current_weight_bytes: 20,
            budget_bytes: 200,
        },
        LruSnapshot::default(),
        1,
        Some(41),
        vec![document, document],
    );
    let header = header_line();
    let line = render_detail_line("sampling", "rss_threshold", 61250, &snapshot, &document);
    let value = |name: &str| {
        let at = header.split('\t').position(|column| column == name).unwrap();
        line.split('\t').nth(at).unwrap().to_owned()
    };
    assert_eq!(value("row_kind"), "detail");
    assert_eq!(value("phase"), "sampling");
    assert_eq!(value("event"), "rss_threshold");
    assert_eq!(value("elapsed_s"), "61.250");
    assert_eq!(value("physical_mem_bytes"), "1234");
    assert_eq!(value("gpu_tile_lru_budget_bytes"), "200");
    assert_eq!(value("tab_count"), "2");
    assert_eq!(value("active_document_id"), "41");
    assert_eq!(value("tiles"), "14");
    assert_eq!(value("search_matches"), "18");
    assert_eq!(value("foreground_queue"), "6");
    assert_eq!(value("scheduled_text_snapshots"), "10");
    assert_eq!(value("document_id"), "41");
    assert_eq!(value("document_state"), "ready");
    assert_eq!(value("document_active"), "true");
    assert_eq!(value("document_visible"), "false");
    assert_eq!(value("document_tiles"), "7");
    assert_eq!(value("document_scheduled_text_snapshots"), "5");
}

#[test]
fn unknown_numbers_leave_their_column_blank() {
    let line = render_sample_line("warmup", "", 1000, &blank_snapshot());
    let fields = line.split('\t').collect::<Vec<_>>();
    assert_eq!(fields[2], "");
    assert_eq!(fields[4], "");
    assert_eq!(fields[5], "0");
    assert_eq!(fields[13], "");
    assert!(fields[36..].iter().all(|field| field.is_empty()));
}

#[test]
fn fields_are_set_one_by_one() {
    let mut fields = vec![String::new(); COLUMN_COUNT];
    set_display(&mut fields, 3, Some(17));
    set_display(&mut fields, 3, None);
    assert_eq!(fields[3], "17");
    set_container_fields(
        &mut fields,
        &ContainerCounts {
            pending_tiles: 8,
            ..ContainerCounts::default()
        },
        true,
    );
    assert_eq!(fields[41], "8");
    assert_eq!(fields[15], "");
    set_worker_fields(
        &mut fields,
        WorkerQueueSnapshot {
            event: 6,
            ..WorkerQueueSnapshot::default()
        },
        false,
    );
    assert_eq!(fields[33], "6");
    assert_eq!(fields[59], "");
}

#[test]
fn counts_stay_at_the_largest_number() {
    let mut counts = ContainerCounts {
        tiles: usize::MAX - 1,
        ..ContainerCounts::default()
    };
    counts.add_assign(ContainerCounts {
        tiles: 5,
        search_pages: 2,
        ..ContainerCounts::default()
    });
    assert_eq!(counts.tiles, usize::MAX);
    assert_eq!(counts.search_pages, 2);
    let mut queues = WorkerQueueSnapshot::default();
    queues.add_assign(WorkerQueueSnapshot {
        background: 4,
        ..WorkerQueueSnapshot::default()
    });
    assert_eq!(queues.background, 4);
}

fn shown() -> DisplayReadiness {
    DisplayReadiness {
        unavailable: false,
        render: DisplayRenderState::Succeeded,
        has_visible_request: true,
        has_pending_visible_request: false,
        has_visible_result: true,
    }
}

#[test]
fn a_display_is_stable_when_everything_is_drawn() {
    assert!(!display_is_stable(&vec![]));
    assert!(display_is_stable(&vec![shown(), shown()]));
    assert!(!display_is_stable(&vec![shown(), DisplayReadiness::default()]));
    assert!(!display_is_stable(&vec![DisplayReadiness {
        unavailable: true,
        ..shown()
    }]));
    assert!(!display_is_stable(&vec![DisplayReadiness {
        has_pending_visible_request: true,
        ..shown()
    }]));
}

#[test]
fn a_display_is_unavailable_once_the_rest_is_drawn() {
    let failed = DisplayReadiness {
        render: DisplayRenderState::Failed,
        ..shown()
    };
    assert!(display_is_unavailable(&vec![], true));
    assert!(!display_is_unavailable(&vec![], false));
    assert!(display_is_unavailable(&vec![failed], false));
    assert!(display_is_unavailable(&vec![shown(), failed], false));
    assert!(!display_is_unavailable(&vec![shown()], false));
    assert!(!display_is_unavailable(
        &vec![failed, DisplayReadiness::default()],
        false
    ));
}

#[test]
fn phases_follow_each_other() {
    let mut state = SamplingState::new(5);
    assert_eq!(state.phase(), DiagnosticsPhase::Startup);
    assert!(!state.restore_complete());
    assert!(state.begin_restore());
    assert!(!state.begin_restore());
    assert!(!state.display_stable(10));
    assert!(state.restore_complete());
    assert!(!state.sample_due(10));
    assert!(state.display_unavailable(10));
    assert!(!state.display_stable(11));
    assert_eq!(state.phase(), DiagnosticsPhase::Warmup);
    assert!(state.sample_due(10));
    assert_eq!(phase_name(state.phase()), "warmup");
    assert_eq!(phase_name(DiagnosticsPhase::DisplayPending), "display_pending");
}

#[test]
fn samples_are_an_interval_apart_and_count_after_the_warm_up() {
    let mut state = SamplingState::new(0);
    assert!(state.display_stable(100));
    let first = state.tick(100, Some(1_000)).unwrap();
    assert_eq!(first.phase, DiagnosticsPhase::Warmup);
    assert!(!first.sampling_started);
    assert!(!first.detail_due);
    assert!(state.tick(99 + SAMPLE_INTERVAL_NANOS, Some(0)).is_none());
    let second = state
        .tick(100 + SAMPLE_INTERVAL_NANOS, Some(104_858_600))
        .unwrap();
    assert!(second.detail_due);
    let third = state.tick(100 + WARMUP_NANOS, None).unwrap();
    assert_eq!(third.phase, DiagnosticsPhase::Sampling);
    assert!(third.sampling_started);
    assert!(!third.detail_due);
    assert!(!state.rss_crossed_detail_threshold(Some(104_858_600)));
    assert!(state.rss_crossed_detail_threshold(Some(209_716_200)));
}

#[test]
fn the_log_says_what_happens() {
    let mut log = Diagnostics::start(0, None);
    assert!(log.is_open);
    let first = Diagnostics::first_lines();
    assert_eq!(first.len(), 2);
    assert_eq!(first[0], header_line());
    assert_eq!(
        first[1],
        render_event_line("startup", "process_start", 0)
    );
    assert_eq!(log.begin_restore(100).len(), 1);
    assert_eq!(log.begin_restore(100).len(), 0);
    assert_eq!(log.restore_complete(200).len(), 1);
    let shown = log.display_stable(1, 300);
    assert_eq!(
        shown,
        vec![
            render_event_line("display", "display_stable", 300),
            render_event_line("warmup", "warmup_start", 300),
        ]
    );
    assert!(log.display_unavailable(2, 400).is_empty());
    let mut snapshot = blank_snapshot();
    snapshot.physical_mem_bytes = Some(10);
    assert_eq!(log.sample(1, 500, &snapshot).len(), 1);
    assert_eq!(log.sample(2, 500, &snapshot).len(), 0);
    snapshot.physical_mem_bytes = Some(200_000_000);
    snapshot.documents = vec![blank_document(), blank_document()];
    let lines = log.sample(1 + WARMUP_NANOS, 180000, &snapshot);
    assert_eq!(lines.len(), 4);
    assert!(lines[0].starts_with("event\tsampling\tsampling_start\t180.000"));
    assert!(lines[1].starts_with("sample\tsampling\t\t180.000\t200000000"));
    assert!(lines[3].starts_with("detail\tsampling\trss_threshold\t180.000"));
}

#[test]
fn the_log_ends_when_it_cannot_be_written() {
    let mut log = Diagnostics::start(0, Some("no space"));
    assert!(!log.is_open);
    assert_eq!(
        log.take_error().as_deref(),
        Some("デバッグ診断ログを開始できませんでした。詳細: no space")
    );
    assert!(log.take_error().is_none());
    let mut log = Diagnostics::start(0, None);
    log.write_failed("gone");
    assert!(!log.is_open);
    assert_eq!(
        log.take_error().as_deref(),
        Some("デバッグ診断ログを書き込めませんでした。詳細: gone")
    );
}

const MILLISECOND: u64 = 1_000_000;

#[test]
fn performance_metrics_group_only_consecutive_zoom_inputs() {
    let started_at = 17_u64;
    let everything = Painted {
        provisional: true,
        exact: true,
        complete: true,
    };
    let mut performance = RenderPerformance::new();
    performance.begin_zoom(1.1_f32.to_bits(), 7, started_at);
    performance.begin_zoom(1.2_f32.to_bits(), 3, started_at + 100 * MILLISECOND);
    performance.note_paint(
        0,
        1.2_f32.to_bits(),
        everything,
        started_at + 125 * MILLISECOND,
    );

    let measurement = performance.zoom.unwrap();
    assert_eq!(measurement.discarded_intermediate_requests, 3);
    assert_eq!(measurement.provisional_display, Some(25 * MILLISECOND));
    assert_eq!(measurement.first_exact_tile, Some(25 * MILLISECOND));
    assert_eq!(measurement.full_exact_viewport, Some(25 * MILLISECOND));

    performance.begin_zoom(1.3_f32.to_bits(), 4, started_at + 500 * MILLISECOND);
    assert_eq!(performance.zoom.unwrap().discarded_intermediate_requests, 0);
}

#[test]
fn page_metrics_record_cache_prefetch_and_visible_completion() {
    let started_at = 17_u64;
    let mut performance = RenderPerformance::new();
    performance.begin_page_transition(3, started_at);
    performance.note_page_cache_state(3, true, true);
    performance.note_paint(
        3,
        1.0_f32.to_bits(),
        Painted {
            provisional: false,
            exact: true,
            complete: true,
        },
        started_at + 12 * MILLISECOND,
    );

    let measurement = performance.page_transition.unwrap();
    assert_eq!(measurement.cache_hit, Some(true));
    assert_eq!(measurement.prefetch_used, Some(true));
    assert_eq!(measurement.first_exact_tile, Some(12 * MILLISECOND));
    assert_eq!(measurement.full_exact_viewport, Some(12 * MILLISECOND));
}

#[test]
fn staying_on_a_page_is_not_measured() {
    let mut performance = RenderPerformance::new();
    performance.page_turned(3, 3, 10);
    assert!(performance.page_transition.is_none());
    performance.page_turned(3, 4, 20);
    let measured = performance.page_transition.unwrap();
    assert_eq!((measured.target_page, measured.input_at), (4, 20));
    performance.page_turned(4, 4, 30);
    assert_eq!(performance.page_transition, Some(measured));
}

#[test]
fn metrics_of_another_page_or_zoom_are_left_alone() {
    let mut performance = RenderPerformance::new();
    performance.begin_page_transition(3, 0);
    performance.begin_zoom(1.5_f32.to_bits(), 0, 0);
    let before = performance;
    performance.note_page_cache_state(4, true, false);
    performance.note_paint(
        4,
        2.0_f32.to_bits(),
        Painted {
            provisional: true,
            exact: true,
            complete: true,
        },
        9,
    );
    assert_eq!(performance, before);
}
